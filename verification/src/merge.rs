//! Merging the dependency sets of several starters into one.

use vstd::prelude::*;
use crate::dependency::{combined, conflict_between, specs_agree, DependencySpecView};
use crate::dependency_set::{as_map, lemma_absent, lemma_as_map_entry, lemma_as_map_is, lemma_as_map_names, listing_of, lists, strictly_ordered, Declarations, Dependency, DependencySet, Listing};
use crate::error::{DependencyConflict, DependencyConflictView, ProjectGeneratingServiceError};
use crate::text::{copy_opt_text, lemma_before_irreflexive, lemma_before_total, lemma_before_transitive, precedes, text_before};

verus! {

/// Whether both `a` and `b` declare `n`, in ways that cannot be combined.
pub open spec fn conflicting(a: Declarations, b: Declarations, n: Seq<char>) -> bool {
    a.contains_key(n) && b.contains_key(n) && !specs_agree(a[n], b[n])
}

/// Whether no name is declared by both `a` and `b` in conflicting ways.
pub open spec fn compatible(a: Declarations, b: Declarations) -> bool {
    forall|n: Seq<char>| !#[trigger] conflicting(a, b, n)
}

/// The declarations of `a` and `b` together: a name that only one side
/// declares keeps its declaration, a name that both declare gets the
/// combination of the two.
pub open spec fn merged(a: Declarations, b: Declarations) -> Declarations {
    Map::new(
        |n: Seq<char>| a.contains_key(n) || b.contains_key(n),
        |n: Seq<char>|
            if a.contains_key(n) && b.contains_key(n) {
                combined(a[n], b[n])
            } else if a.contains_key(n) {
                a[n]
            } else {
                b[n]
            },
    )
}

/// Whether `n` is the first name, in the order of names, that `a` and `b`
/// declare in conflicting ways.
pub open spec fn first_conflict(a: Declarations, b: Declarations, n: Seq<char>) -> bool {
    conflicting(a, b, n) && forall|m: Seq<char>| #[trigger]
        conflicting(a, b, m) ==> !text_before(m, n)
}

/// What is reported of the conflict under `n`: the name, the kind of the
/// disagreement, and the version constraint of either side.
pub open spec fn conflict_report(a: Declarations, b: Declarations, n: Seq<char>) -> DependencyConflictView {
    DependencyConflictView {
        name: n,
        kind: conflict_between(a[n], b[n])->0,
        left: a[n].version,
        right: b[n].version,
    }
}

/// An entry that is listed stays listed when another entry is appended.
proof fn lemma_lists_push(l: Listing, e: (Seq<char>, DependencySpecView), n: Seq<char>)
    requires
        lists(l, n) || e.0 == n,
    ensures
        lists(l.push(e), n),
{
    let l2 = l.push(e);
    if e.0 == n {
        assert(l2[l.len() as int].0 == n);
    } else {
        let i = choose|i: int| 0 <= i < l.len() && (#[trigger] l[i]).0 == n;
        assert(l2[i].0 == n);
    }
}

/// A copy of an entry.
fn copy_entry(e: &Dependency) -> (r: Dependency)
    ensures
        r.name@ == e.name@,
        r.spec@ == e.spec@,
{
    Dependency { name: e.name.clone(), spec: e.spec.duplicate() }
}

/// Merges the dependency sets of two starters.
///
/// A name that one side alone declares keeps its declaration; a name that
/// both declare gets the combination of the two declarations. The merge
/// fails on the first name, in the order of names, whose two declarations
/// cannot be combined.
pub fn proceed_starters(starter_a: &DependencySet, starter_b: &DependencySet) -> (r: Result<
    DependencySet,
    ProjectGeneratingServiceError,
>)
    ensures
        match r {
            Ok(s) => {
                &&& compatible(starter_a.declarations(), starter_b.declarations())
                &&& s.declarations() == merged(starter_a.declarations(), starter_b.declarations())
                &&& strictly_ordered(s@)
            },
            Err(ProjectGeneratingServiceError::DependencyConflict(c)) => {
                &&& first_conflict(starter_a.declarations(), starter_b.declarations(), c.name@)
                &&& c@ == conflict_report(
                    starter_a.declarations(),
                    starter_b.declarations(),
                    c.name@,
                )
            },
            Err(_) => false,
        },
{
    let n_a = starter_a.len();
    let n_b = starter_b.len();
    let ghost la = starter_a@;
    let ghost lb = starter_b@;
    let ghost ma = as_map(la);
    let ghost mb = as_map(lb);
    let ghost m = merged(ma, mb);
    let mut out: Vec<Dependency> = Vec::new();
    let mut i: usize = 0;
    let mut j: usize = 0;
    proof {
        lemma_as_map_names(la);
        lemma_as_map_names(lb);
    }
    while i < n_a || j < n_b
        invariant
            i <= n_a,
            j <= n_b,
            n_a == la.len(),
            n_b == lb.len(),
            la == starter_a@,
            lb == starter_b@,
            ma == as_map(la),
            mb == as_map(lb),
            m == merged(ma, mb),
            strictly_ordered(la),
            strictly_ordered(lb),
            strictly_ordered(listing_of(out@)),
            forall|n: Seq<char>| #[trigger] ma.contains_key(n) <==> lists(la, n),
            forall|n: Seq<char>| #[trigger] mb.contains_key(n) <==> lists(lb, n),
            forall|k: int|
                0 <= k < out@.len() ==> {
                    &&& (i < n_a ==> text_before((#[trigger] listing_of(out@)[k]).0, la[i as int].0))
                    &&& (j < n_b ==> text_before(listing_of(out@)[k].0, lb[j as int].0))
                    &&& m.contains_key(listing_of(out@)[k].0)
                    &&& m[listing_of(out@)[k].0] == listing_of(out@)[k].1
                    &&& !conflicting(ma, mb, listing_of(out@)[k].0)
                },
            forall|k: int| 0 <= k < i && j < n_b ==> text_before((#[trigger] la[k]).0, lb[j as int].0),
            forall|k: int| 0 <= k < j && i < n_a ==> text_before((#[trigger] lb[k]).0, la[i as int].0),
            forall|k: int| 0 <= k < i ==> lists(listing_of(out@), (#[trigger] la[k]).0),
            forall|k: int| 0 <= k < j ==> lists(listing_of(out@), (#[trigger] lb[k]).0),
        decreases (n_a - i) + (n_b - j),
    {
        let ghost o = listing_of(out@);
        let take_a = j >= n_b || (i < n_a && precedes(
            starter_a.entry(i).name.as_str(),
            starter_b.entry(j).name.as_str(),
        ));
        let take_b = !take_a && (i >= n_a || precedes(
            starter_b.entry(j).name.as_str(),
            starter_a.entry(i).name.as_str(),
        ));
        if take_a {
            let e = copy_entry(starter_a.entry(i));
            let ghost n = la[i as int].0;
            proof {
                lemma_absent(lb, j as int, n);
                lemma_as_map_entry(la, i as int);
            }
            out.push(e);
            proof {
                let o2 = listing_of(out@);
                assert(o2 =~= o.push(la[i as int]));
                lemma_step(la, lb, o, i as int, j as int, la[i as int], 1, 0);
            }
            i += 1;
        } else if take_b {
            let e = copy_entry(starter_b.entry(j));
            let ghost n = lb[j as int].0;
            proof {
                lemma_absent(la, i as int, n);
                lemma_as_map_entry(lb, j as int);
            }
            out.push(e);
            proof {
                let o2 = listing_of(out@);
                assert(o2 =~= o.push(lb[j as int]));
                lemma_step(la, lb, o, i as int, j as int, lb[j as int], 0, 1);
            }
            j += 1;
        } else {
            let ea = starter_a.entry(i);
            let eb = starter_b.entry(j);
            let ghost n = la[i as int].0;
            proof {
                lemma_before_total(la[i as int].0, lb[j as int].0);
                lemma_as_map_entry(la, i as int);
                lemma_as_map_entry(lb, j as int);
            }
            match ea.spec.combine_dependencies(&eb.spec) {
                Ok(spec) => {
                    let e = Dependency { name: ea.name.clone(), spec };
                    out.push(e);
                    proof {
                        let o2 = listing_of(out@);
                        let pair = (n, combined(la[i as int].1, lb[j as int].1));
                        assert(o2 =~= o.push(pair));
                        lemma_step(la, lb, o, i as int, j as int, pair, 1, 1);
                    }
                    i += 1;
                    j += 1;
                },
                Err(kind) => {
                    let c = DependencyConflict {
                        name: ea.name.clone(),
                        kind,
                        left: copy_opt_text(&ea.spec.version),
                        right: copy_opt_text(&eb.spec.version),
                    };
                    proof {
                        assert(conflicting(ma, mb, n));
                        assert forall|x: Seq<char>| #[trigger] conflicting(ma, mb, x) implies !text_before(x, n) by {
                            if text_before(x, n) {
                                let p = choose|p: int| 0 <= p < la.len() && (#[trigger] la[p]).0 == x;
                                lemma_before_irreflexive(x);
                                if p > i {
                                    assert(text_before(la[i as int].0, la[p].0));
                                    lemma_before_transitive(x, n, x);
                                }
                                assert(p < i);
                                assert(lists(o, la[p].0));
                                let k = choose|k: int| 0 <= k < o.len() && (#[trigger] o[k]).0 == x;
                                assert(!conflicting(ma, mb, o[k].0));
                            }
                        }
                    }
                    return Err(ProjectGeneratingServiceError::DependencyConflict(c));
                },
            }
        }
    }
    proof {
        let o = listing_of(out@);
        assert forall|n: Seq<char>| #[trigger] m.contains_key(n) implies lists(o, n) by {
            if ma.contains_key(n) {
                let p = choose|p: int| 0 <= p < la.len() && (#[trigger] la[p]).0 == n;
                assert(lists(o, la[p].0));
            } else {
                let q = choose|q: int| 0 <= q < lb.len() && (#[trigger] lb[q]).0 == n;
                assert(lists(o, lb[q].0));
            }
        }
        lemma_as_map_is(o, m);
        assert forall|n: Seq<char>| !#[trigger] conflicting(ma, mb, n) by {
            if conflicting(ma, mb, n) {
                assert(m.contains_key(n));
                let k = choose|k: int| 0 <= k < o.len() && (#[trigger] o[k]).0 == n;
                assert(!conflicting(ma, mb, o[k].0));
            }
        }
    }
    Ok(DependencySet::from_ordered(out))
}

/// One step of the merge keeps what the merge maintains: `e` is appended
/// to the output `o`, and the positions in `la` and `lb` advance by `da`
/// and `db`.
proof fn lemma_step(
    la: Listing,
    lb: Listing,
    o: Listing,
    i: int,
    j: int,
    e: (Seq<char>, DependencySpecView),
    da: int,
    db: int,
)
    requires
        0 <= i <= la.len(),
        0 <= j <= lb.len(),
        0 <= da <= 1,
        0 <= db <= 1,
        da + db >= 1,
        i + da <= la.len(),
        j + db <= lb.len(),
        strictly_ordered(la),
        strictly_ordered(lb),
        strictly_ordered(o),
        da == 1 ==> e.0 == la[i].0,
        db == 1 ==> e.0 == lb[j].0,
        da == 0 && i < la.len() ==> text_before(e.0, la[i].0),
        db == 0 && j < lb.len() ==> text_before(e.0, lb[j].0),
        forall|k: int|
            0 <= k < o.len() ==> {
                &&& (i < la.len() ==> text_before((#[trigger] o[k]).0, la[i].0))
                &&& (j < lb.len() ==> text_before(o[k].0, lb[j].0))
            },
        forall|k: int| 0 <= k < i && j < lb.len() ==> text_before((#[trigger] la[k]).0, lb[j].0),
        forall|k: int| 0 <= k < j && i < la.len() ==> text_before((#[trigger] lb[k]).0, la[i].0),
        forall|k: int| 0 <= k < i ==> lists(o, (#[trigger] la[k]).0),
        forall|k: int| 0 <= k < j ==> lists(o, (#[trigger] lb[k]).0),
    ensures
        strictly_ordered(o.push(e)),
        forall|k: int|
            0 <= k < o.len() + 1 ==> {
                &&& (i + da < la.len() ==> text_before((#[trigger] o.push(e)[k]).0, la[i + da].0))
                &&& (j + db < lb.len() ==> text_before(o.push(e)[k].0, lb[j + db].0))
            },
        forall|k: int|
            0 <= k < i + da && j + db < lb.len() ==> text_before((#[trigger] la[k]).0, lb[j + db].0),
        forall|k: int|
            0 <= k < j + db && i + da < la.len() ==> text_before((#[trigger] lb[k]).0, la[i + da].0),
        forall|k: int| 0 <= k < i + da ==> lists(o.push(e), (#[trigger] la[k]).0),
        forall|k: int| 0 <= k < j + db ==> lists(o.push(e), (#[trigger] lb[k]).0),
{
    let o2 = o.push(e);
    // every entry of the output stands before the appended one
    assert forall|k: int| 0 <= k < o.len() implies text_before((#[trigger] o[k]).0, e.0) by {}
    assert forall|a: int, b: int| 0 <= a < b < o2.len() implies text_before(
        #[trigger] o2[a].0,
        #[trigger] o2[b].0,
    ) by {
        if b < o.len() {
            assert(text_before(o[a].0, o[b].0));
        } else {
            assert(text_before(o[a].0, e.0));
        }
    }
    // the appended entry stands before what is still to come
    if i + da < la.len() {
        if da == 1 {
            assert(text_before(la[i].0, la[i + 1].0));
        }
        assert(text_before(e.0, la[i + da].0));
    }
    if j + db < lb.len() {
        if db == 1 {
            assert(text_before(lb[j].0, lb[j + 1].0));
        }
        assert(text_before(e.0, lb[j + db].0));
    }
    assert forall|k: int| 0 <= k < o.len() + 1 implies {
        &&& (i + da < la.len() ==> text_before((#[trigger] o2[k]).0, la[i + da].0))
        &&& (j + db < lb.len() ==> text_before(o2[k].0, lb[j + db].0))
    } by {
        if k < o.len() {
            assert(text_before(o[k].0, e.0));
            if i + da < la.len() {
                lemma_before_transitive(o[k].0, e.0, la[i + da].0);
            }
            if j + db < lb.len() {
                lemma_before_transitive(o[k].0, e.0, lb[j + db].0);
            }
        }
    }
    assert forall|k: int| 0 <= k < i + da && j + db < lb.len() implies text_before(
        (#[trigger] la[k]).0,
        lb[j + db].0,
    ) by {
        if k < i {
            if db == 1 {
                assert(text_before(la[k].0, lb[j].0));
                assert(text_before(lb[j].0, lb[j + 1].0));
                lemma_before_transitive(la[k].0, lb[j].0, lb[j + 1].0);
            }
        } else {
            assert(la[k].0 == e.0);
        }
    }
    assert forall|k: int| 0 <= k < j + db && i + da < la.len() implies text_before(
        (#[trigger] lb[k]).0,
        la[i + da].0,
    ) by {
        if k < j {
            if da == 1 {
                assert(text_before(lb[k].0, la[i].0));
                assert(text_before(la[i].0, la[i + 1].0));
                lemma_before_transitive(lb[k].0, la[i].0, la[i + 1].0);
            }
        } else {
            assert(lb[k].0 == e.0);
        }
    }
    assert forall|k: int| 0 <= k < i + da implies lists(o2, (#[trigger] la[k]).0) by {
        lemma_lists_push(o, e, la[k].0);
    }
    assert forall|k: int| 0 <= k < j + db implies lists(o2, (#[trigger] lb[k]).0) by {
        lemma_lists_push(o, e, lb[k].0);
    }
}

/// The mappings that the sets of `sets` stand for.
pub open spec fn declarations_of(sets: Seq<DependencySet>) -> Seq<Declarations> {
    Seq::new(sets.len(), |i: int| sets[i].declarations())
}

/// The merge of all of `sets`, from the left and starting with no
/// declaration at all; `None` where a set conflicts with the merge of
/// those before it.
pub open spec fn merged_all(sets: Seq<Declarations>) -> Option<Declarations>
    decreases sets.len(),
{
    if sets.len() == 0 {
        Some(Map::empty())
    } else {
        match merged_all(sets.drop_last()) {
            Some(acc) => if compatible(acc, sets.last()) {
                Some(merged(acc, sets.last()))
            } else {
                None
            },
            None => None,
        }
    }
}

/// Once the merge of the first `k` sets has failed, the merge of all fails.
pub proof fn lemma_merged_all_fails(sets: Seq<Declarations>, k: int)
    requires
        0 <= k <= sets.len(),
        merged_all(sets.take(k)) is None,
    ensures
        merged_all(sets) is None,
    decreases sets.len() - k,
{
    if k < sets.len() {
        assert(sets.take(k + 1).drop_last() =~= sets.take(k));
        lemma_merged_all_fails(sets, k + 1);
    } else {
        assert(sets.take(k) =~= sets);
    }
}

/// Merges the dependency sets of the starters, in the order of `sets`.
///
/// The merge starts with the empty set and takes in one set after the
/// other with [`proceed_starters`]; it fails with the conflict of the
/// first set that cannot be taken in.
pub fn merge_starters(sets: &Vec<DependencySet>) -> (r: Result<
    DependencySet,
    ProjectGeneratingServiceError,
>)
    ensures
        match r {
            Ok(s) => {
                &&& merged_all(declarations_of(sets@)) == Some(s.declarations())
                &&& strictly_ordered(s@)
            },
            Err(ProjectGeneratingServiceError::DependencyConflict(c)) => {
                &&& merged_all(declarations_of(sets@)) is None
                &&& exists|k: int|
                    {
                        &&& 0 <= k < sets@.len()
                        &&& #[trigger] merged_all(declarations_of(sets@).take(k)) is Some
                        &&& first_conflict(
                            merged_all(declarations_of(sets@).take(k))->0,
                            sets@[k].declarations(),
                            c.name@,
                        )
                        &&& c@ == conflict_report(
                            merged_all(declarations_of(sets@).take(k))->0,
                            sets@[k].declarations(),
                            c.name@,
                        )
                    }
            },
            Err(_) => false,
        },
{
    let ghost all = declarations_of(sets@);
    let mut acc = DependencySet::new();
    let mut k: usize = 0;
    assert(all.take(0) =~= Seq::<Declarations>::empty());
    while k < sets.len()
        invariant
            k <= sets.len(),
            all == declarations_of(sets@),
            merged_all(all.take(k as int)) == Some(acc.declarations()),
            strictly_ordered(acc@),
        decreases sets.len() - k,
    {
        proof {
            assert(all.take(k as int + 1).drop_last() =~= all.take(k as int));
            assert(all.take(k as int + 1).last() == sets@[k as int].declarations());
        }
        match proceed_starters(&acc, &sets[k]) {
            Ok(next) => {
                acc = next;
            },
            Err(e) => {
                proof {
                    assert(!compatible(acc.declarations(), sets@[k as int].declarations()));
                    assert(merged_all(all.take(k as int + 1)) is None);
                    lemma_merged_all_fails(all, k as int + 1);
                }
                return Err(e);
            },
        }
        k += 1;
    }
    assert(all.take(sets@.len() as int) =~= all);
    Ok(acc)
}

} // verus!
