//! A set of dependency declarations keyed by name, kept in the order of
//! the names.

use vstd::prelude::*;
use crate::dependency::{DependencySpec, DependencySpecView};
use crate::text::{lemma_before_irreflexive, lemma_before_total, lemma_before_transitive, precedes, text_before, text_eq};

verus! {

/// A named dependency declaration.
#[derive(Debug)]
pub struct Dependency {
    /// The name under which the dependency is declared.
    pub name: String,
    /// What is declared about it.
    pub spec: DependencySpec,
}

/// The mathematical content of a dependency set: its entries, each a name
/// and a declaration, in the order in which the set lists them.
pub type Listing = Seq<(Seq<char>, DependencySpecView)>;

/// The mapping from names to declarations.
pub type Declarations = Map<Seq<char>, DependencySpecView>;

/// The entries of `entries` as names and declarations.
pub open spec fn listing_of(entries: Seq<Dependency>) -> Listing {
    Seq::new(entries.len(), |i: int| (entries[i].name@, entries[i].spec@))
}

/// Whether the names of `l` ascend strictly, so that no name occurs twice.
pub open spec fn strictly_ordered(l: Listing) -> bool {
    forall|i: int, j: int| 0 <= i < j < l.len() ==> text_before(#[trigger] l[i].0, #[trigger] l[j].0)
}

/// Whether `l` has an entry under `name`.
pub open spec fn lists(l: Listing, name: Seq<char>) -> bool {
    exists|i: int| 0 <= i < l.len() && (#[trigger] l[i]).0 == name
}

/// The mapping that `l` lists; of two entries under one name the later
/// one counts.
pub open spec fn as_map(l: Listing) -> Declarations
    decreases l.len(),
{
    if l.len() == 0 {
        Map::empty()
    } else {
        as_map(l.drop_last()).insert(l.last().0, l.last().1)
    }
}

/// The names of a mapping are the names of the entries that list it.
pub proof fn lemma_as_map_names(l: Listing)
    ensures
        forall|n: Seq<char>| #[trigger] as_map(l).contains_key(n) <==> lists(l, n),
    decreases l.len(),
{
    if l.len() > 0 {
        let init = l.drop_last();
        lemma_as_map_names(init);
        assert(as_map(l) == as_map(init).insert(l.last().0, l.last().1));
        assert forall|n: Seq<char>| #[trigger] as_map(l).contains_key(n) <==> lists(l, n) by {
            if lists(l, n) {
                let i = choose|i: int| 0 <= i < l.len() && (#[trigger] l[i]).0 == n;
                if i < l.len() - 1 {
                    assert(init[i].0 == n);
                    assert(lists(init, n));
                    assert(as_map(init).contains_key(n));
                } else {
                    assert(n == l.last().0);
                }
            }
            if as_map(l).contains_key(n) {
                if n == l.last().0 {
                    assert(l[l.len() - 1].0 == n);
                } else {
                    assert(as_map(init).contains_key(n));
                    assert(lists(init, n));
                    let i = choose|i: int| 0 <= i < init.len() && (#[trigger] init[i]).0 == n;
                    assert(l[i].0 == n);
                }
            }
        }
    }
}

/// In a strictly ordered listing each entry is what the mapping holds
/// under its name.
pub proof fn lemma_as_map_entry(l: Listing, i: int)
    requires
        strictly_ordered(l),
        0 <= i < l.len(),
    ensures
        as_map(l).contains_key(l[i].0),
        as_map(l)[l[i].0] == l[i].1,
    decreases l.len(),
{
    let init = l.drop_last();
    if i < l.len() - 1 {
        assert(strictly_ordered(init)) by {
            assert forall|a: int, b: int| 0 <= a < b < init.len() implies text_before(
                #[trigger] init[a].0,
                #[trigger] init[b].0,
            ) by {
                assert(text_before(l[a].0, l[b].0));
            }
        }
        lemma_as_map_entry(init, i);
        assert(init[i] == l[i]);
        assert(text_before(l[i].0, l[l.len() - 1].0));
        lemma_before_irreflexive(l[i].0);
    }
}

/// A prefix of a strictly ordered listing is strictly ordered.
pub proof fn lemma_take_ordered(l: Listing, n: int)
    requires
        strictly_ordered(l),
        0 <= n <= l.len(),
    ensures
        strictly_ordered(l.take(n)),
{
    let t = l.take(n);
    assert forall|a: int, b: int| 0 <= a < b < t.len() implies text_before(
        #[trigger] t[a].0,
        #[trigger] t[b].0,
    ) by {
        assert(text_before(l[a].0, l[b].0));
    }
}

/// A strictly ordered listing lists exactly the mapping that holds each
/// of its entries and no other name.
pub proof fn lemma_as_map_is(l: Listing, m: Declarations)
    requires
        strictly_ordered(l),
        forall|i: int| 0 <= i < l.len() ==> m.contains_key((#[trigger] l[i]).0) && m[l[i].0] == l[i].1,
        forall|n: Seq<char>| #[trigger] m.contains_key(n) ==> lists(l, n),
    ensures
        as_map(l) == m,
{
    lemma_as_map_names(l);
    assert forall|n: Seq<char>| as_map(l).contains_key(n) implies m.contains_key(n) && m[n]
        == #[trigger] as_map(l)[n] by {
        let i = choose|i: int| 0 <= i < l.len() && (#[trigger] l[i]).0 == n;
        lemma_as_map_entry(l, i);
    }
    assert(as_map(l) =~= m);
}

/// A name that falls strictly between the entries before position `j`
/// and the entry at `j` is not listed.
pub proof fn lemma_absent(l: Listing, j: int, n: Seq<char>)
    requires
        strictly_ordered(l),
        0 <= j <= l.len(),
        forall|k: int| 0 <= k < j ==> text_before((#[trigger] l[k]).0, n),
        j < l.len() ==> text_before(n, l[j].0),
    ensures
        !as_map(l).contains_key(n),
{
    lemma_as_map_names(l);
    lemma_before_irreflexive(n);
    if lists(l, n) {
        let q = choose|q: int| 0 <= q < l.len() && (#[trigger] l[q]).0 == n;
        if q < j {
            assert(text_before(l[q].0, n));
        } else if q > j {
            assert(text_before(l[j].0, l[q].0));
            lemma_before_transitive(n, l[j].0, l[q].0);
        }
    }
}

/// Two strictly ordered listings of one mapping are the same listing.
pub proof fn lemma_listing_unique(l1: Listing, l2: Listing)
    requires
        strictly_ordered(l1),
        strictly_ordered(l2),
        as_map(l1) == as_map(l2),
    ensures
        l1 == l2,
    decreases l1.len(),
{
    lemma_as_map_names(l1);
    lemma_as_map_names(l2);
    if l1.len() == 0 {
        if l2.len() > 0 {
            assert(lists(l2, l2[0].0));
            assert(as_map(l1).contains_key(l2[0].0));
        }
        assert(l1 =~= l2);
    } else {
        if l2.len() == 0 {
            assert(lists(l1, l1[0].0));
            assert(as_map(l2).contains_key(l1[0].0));
        }
        let a = l1.last();
        let b = l2.last();
        let d1 = l1.drop_last();
        let d2 = l2.drop_last();
        assert(lists(l1, a.0));
        assert(lists(l2, b.0));
        assert(as_map(l2).contains_key(a.0));
        assert(as_map(l1).contains_key(b.0));
        let q = choose|q: int| 0 <= q < l2.len() && (#[trigger] l2[q]).0 == a.0;
        let p = choose|p: int| 0 <= p < l1.len() && (#[trigger] l1[p]).0 == b.0;
        if p < l1.len() - 1 && q < l2.len() - 1 {
            assert(text_before(l1[p].0, l1[l1.len() - 1].0));
            assert(text_before(l2[q].0, l2[l2.len() - 1].0));
            lemma_before_transitive(a.0, b.0, a.0);
            lemma_before_irreflexive(a.0);
        }
        assert(a.0 == b.0);
        lemma_as_map_entry(l1, l1.len() - 1);
        lemma_as_map_entry(l2, l2.len() - 1);
        assert(a == b);
        lemma_take_ordered(l1, l1.len() - 1);
        lemma_take_ordered(l2, l2.len() - 1);
        assert(d1 =~= l1.take(l1.len() - 1));
        assert(d2 =~= l2.take(l2.len() - 1));
        assert forall|k: int| 0 <= k < d1.len() implies text_before((#[trigger] d1[k]).0, a.0) by {
            assert(text_before(l1[k].0, l1[l1.len() - 1].0));
        }
        assert forall|k: int| 0 <= k < d2.len() implies text_before((#[trigger] d2[k]).0, a.0) by {
            assert(text_before(l2[k].0, l2[l2.len() - 1].0));
        }
        lemma_absent(d1, d1.len() as int, a.0);
        lemma_absent(d2, d2.len() as int, a.0);
        assert(as_map(d1) =~= as_map(l1).remove(a.0));
        assert(as_map(d2) =~= as_map(l2).remove(a.0));
        lemma_listing_unique(d1, d2);
        assert(l1 =~= d1.push(a));
        assert(l2 =~= d2.push(b));
    }
}

/// The entries of a mapping in the order of the names.
pub open spec fn ordered_listing(m: Declarations) -> Listing {
    choose|l: Listing| strictly_ordered(l) && as_map(l) == m
}

/// A strictly ordered listing is the ordered listing of its mapping.
pub proof fn lemma_ordered_listing(l: Listing)
    requires
        strictly_ordered(l),
    ensures
        ordered_listing(as_map(l)) == l,
{
    let o = ordered_listing(as_map(l));
    assert(strictly_ordered(o) && as_map(o) == as_map(l));
    lemma_listing_unique(o, l);
}

/// A set of dependency declarations, at most one under each name.
#[derive(Debug)]
pub struct DependencySet {
    entries: Vec<Dependency>,
}

impl View for DependencySet {
    type V = Listing;

    closed spec fn view(&self) -> Listing {
        listing_of(self.entries@)
    }
}

impl DependencySet {
    #[verifier::type_invariant]
    closed spec fn ordered(&self) -> bool {
        strictly_ordered(listing_of(self.entries@))
    }

    /// The mapping from names to declarations that the set stands for.
    pub open spec fn declarations(&self) -> Declarations {
        as_map(self@)
    }

    /// The empty set.
    pub fn new() -> (r: DependencySet)
        ensures
            r@ == Seq::<(Seq<char>, DependencySpecView)>::empty(),
            strictly_ordered(r@),
    {
        let r = DependencySet { entries: Vec::new() };
        assert(listing_of(r.entries@) =~= Seq::empty());
        r
    }

    /// The set whose entries are `entries`, which ascend strictly by name.
    pub(crate) fn from_ordered(entries: Vec<Dependency>) -> (r: DependencySet)
        requires
            strictly_ordered(listing_of(entries@)),
        ensures
            r@ == listing_of(entries@),
            strictly_ordered(r@),
    {
        DependencySet { entries }
    }

    /// The number of entries.
    pub fn len(&self) -> (r: usize)
        ensures
            r == self@.len(),
            strictly_ordered(self@),
    {
        proof {
            use_type_invariant(self);
        }
        self.entries.len()
    }

    /// Whether the set has no entry.
    pub fn is_empty(&self) -> (r: bool)
        ensures
            r == (self@.len() == 0),
    {
        self.entries.len() == 0
    }

    /// The entry at position `i` in the order of the names.
    pub fn entry(&self, i: usize) -> (r: &Dependency)
        requires
            i < self@.len(),
        ensures
            (r.name@, r.spec@) == self@[i as int],
            strictly_ordered(self@),
    {
        proof {
            use_type_invariant(self);
        }
        &self.entries[i]
    }

    /// The position of the first entry whose name does not stand before
    /// `name`.
    fn position(&self, name: &str) -> (p: usize)
        ensures
            p <= self@.len(),
            forall|k: int| 0 <= k < p ==> text_before(#[trigger] self@[k].0, name@),
            p < self@.len() ==> !text_before(self@[p as int].0, name@),
    {
        let mut p: usize = 0;
        while p < self.entries.len()
            invariant
                p <= self.entries.len(),
                forall|k: int| 0 <= k < p ==> text_before(#[trigger] self@[k].0, name@),
            decreases self.entries.len() - p,
        {
            if !precedes(self.entries[p].name.as_str(), name) {
                return p;
            }
            p += 1;
        }
        p
    }

    /// The declaration under `name`, if the set has one.
    pub fn get(&self, name: &str) -> (r: Option<&DependencySpec>)
        ensures
            strictly_ordered(self@),
            match r {
                Some(s) => self.declarations().contains_key(name@) && self.declarations()[name@]
                    == s@,
                None => !self.declarations().contains_key(name@),
            },
    {
        proof {
            use_type_invariant(self);
            lemma_as_map_names(self@);
        }
        let p = self.position(name);
        if p < self.entries.len() && text_eq(self.entries[p].name.as_str(), name) {
            proof {
                lemma_as_map_entry(self@, p as int);
            }
            Some(&self.entries[p].spec)
        } else {
            proof {
                if lists(self@, name@) {
                    let i = choose|i: int| 0 <= i < self@.len() && (#[trigger] self@[i]).0 == name@;
                    lemma_before_irreflexive(name@);
                    if i > p {
                        assert(text_before(self@[p as int].0, self@[i].0));
                    }
                }
            }
            None
        }
    }

    /// Declares `name` as `spec`, in place of what the set held under that
    /// name, if anything.
    pub fn insert(&mut self, name: String, spec: DependencySpec)
        ensures
            final(self).declarations() == old(self).declarations().insert(name@, spec@),
            strictly_ordered(final(self)@),
    {
        proof {
            use_type_invariant(&*self);
        }
        let ghost l = self@;
        let ghost n = name@;
        let ghost v = spec@;
        let ghost m = as_map(l).insert(n, v);
        let p = self.position(name.as_str());
        let replace = p < self.entries.len() && text_eq(self.entries[p].name.as_str(), name.as_str());
        let ghost l2 = if replace {
            l.update(p as int, (n, v))
        } else {
            l.insert(p as int, (n, v))
        };
        proof {
            lemma_before_irreflexive(n);
            lemma_as_map_names(l);
            if !replace && p < l.len() {
                lemma_before_total(n, l[p as int].0);
            }
            let shift: int = if replace { 0 } else { 1 };
            assert forall|i: int| 0 <= i < l2.len() implies (i < p ==> l2[i] == l[i]) && (i > p
                ==> l2[i] == l[i - shift]) && (i == p ==> l2[i] == (n, v)) by {}
            assert forall|a: int, b: int| 0 <= a < b < l2.len() implies text_before(
                #[trigger] l2[a].0,
                #[trigger] l2[b].0,
            ) by {
                if b < p {
                    assert(text_before(l[a].0, l[b].0));
                } else if b == p {
                    assert(text_before(l[a].0, n));
                } else if a > p {
                    assert(text_before(l[a - shift].0, l[b - shift].0));
                } else if a == p {
                    if b - shift > p {
                        assert(text_before(l[p as int].0, l[b - shift].0));
                        if !replace {
                            lemma_before_transitive(n, l[p as int].0, l[b - shift].0);
                        }
                    }
                } else {
                    assert(text_before(l[a].0, n));
                    if b - shift > p {
                        assert(text_before(l[p as int].0, l[b - shift].0));
                        if !replace {
                            lemma_before_transitive(n, l[p as int].0, l[b - shift].0);
                        }
                    }
                    lemma_before_transitive(l[a].0, n, l[b - shift].0);
                }
            }
            assert forall|i: int| 0 <= i < l2.len() implies m.contains_key((#[trigger] l2[i]).0)
                && m[l2[i].0] == l2[i].1 by {
                if i < p {
                    lemma_as_map_entry(l, i);
                    assert(text_before(l[i].0, n));
                } else if i > p {
                    lemma_as_map_entry(l, i - shift);
                    assert(text_before(l2[p as int].0, l2[i].0));
                }
            }
            assert forall|x: Seq<char>| #[trigger] m.contains_key(x) implies lists(l2, x) by {
                if x == n {
                    assert(l2[p as int].0 == x);
                } else {
                    let q = choose|q: int| 0 <= q < l.len() && (#[trigger] l[q]).0 == x;
                    if q < p {
                        assert(l2[q].0 == x);
                    } else {
                        assert(l2[q + shift].0 == x);
                    }
                }
            }
            lemma_as_map_is(l2, m);
        }
        // The entries are taken out, changed, and put back in order.
        let mut entries: Vec<Dependency> = Vec::new();
        std::mem::swap(&mut entries, &mut self.entries);
        if replace {
            entries.set(p, Dependency { name, spec });
        } else {
            entries.insert(p, Dependency { name, spec });
        }
        assert(listing_of(entries@) =~= l2);
        self.entries = entries;
    }

    /// Whether the set has a declaration under `name`.
    pub fn contains(&self, name: &str) -> (r: bool)
        ensures
            r == self.declarations().contains_key(name@),
    {
        self.get(name).is_some()
    }
}

} // verus!
