//! What holds of every merge, of identities chosen one after the other,
//! and of a manifest without starters.

use vstd::prelude::*;
use crate::dependency::{combined, conflict_between, feature_union, incompatible, same_source, specs_agree, unconstrained, with_feature, with_features, ConflictKind, DependencySpecView};
use crate::description::ProjectDescriptionView;
use crate::generation::{manifest_is, manifest_text, StarterContent};
use crate::manifest::{all_verbatim, author_text, description_text, package_section, package_template};
use crate::dependency_set::{strictly_ordered, Declarations, Listing};
use crate::merge::{compatible, conflict_report, conflicting, first_conflict, merged, merged_all};
use crate::text::{lemma_before_irreflexive, lemma_before_total, text_before};

verus! {

/// Taking features in adds those that are new and loses none.
pub proof fn lemma_with_features_holds(acc: Seq<Seq<char>>, fs: Seq<Seq<char>>)
    ensures
        forall|f: Seq<char>|
            #[trigger] with_features(acc, fs).contains(f) <==> acc.contains(f) || fs.contains(f),
    decreases fs.len(),
{
    if fs.len() > 0 {
        let init = fs.drop_last();
        let last = fs.last();
        let mid = with_features(acc, init);
        lemma_with_features_holds(acc, init);
        assert forall|f: Seq<char>| #[trigger]
            with_features(acc, fs).contains(f) <==> acc.contains(f) || fs.contains(f) by {
            let out = with_feature(mid, last);
            if fs.contains(f) {
                let i = choose|i: int| 0 <= i < fs.len() && fs[i] == f;
                if i < fs.len() - 1 {
                    assert(init[i] == f);
                    assert(init.contains(f));
                }
            }
            if init.contains(f) {
                let i = choose|i: int| 0 <= i < init.len() && init[i] == f;
                assert(fs[i] == f);
            }
            assert(fs[fs.len() - 1] == last);
            if mid.contains(last) {
                assert(out == mid);
            } else {
                assert(out == mid.push(last));
                assert(out[mid.len() as int] == last);
                if mid.contains(f) {
                    let k = choose|k: int| 0 <= k < mid.len() && mid[k] == f;
                    assert(out[k] == f);
                }
                if out.contains(f) {
                    let k = choose|k: int| 0 <= k < out.len() && out[k] == f;
                    if k < mid.len() {
                        assert(mid[k] == f);
                    }
                }
            }
        }
    }
}

/// Taking features in brings no feature in twice.
pub proof fn lemma_with_features_once(acc: Seq<Seq<char>>, fs: Seq<Seq<char>>)
    requires
        acc.no_duplicates(),
    ensures
        with_features(acc, fs).no_duplicates(),
    decreases fs.len(),
{
    if fs.len() > 0 {
        lemma_with_features_once(acc, fs.drop_last());
    }
}

/// The features of a combination are those of the two sides together,
/// each once.
pub proof fn law_feature_union(a: Seq<Seq<char>>, b: Seq<Seq<char>>)
    ensures
        forall|f: Seq<char>| #[trigger] feature_union(a, b).contains(f) <==> a.contains(f) || b.contains(f),
        feature_union(a, b).no_duplicates(),
{
    let none = Seq::<Seq<char>>::empty();
    lemma_with_features_holds(none, a);
    lemma_with_features_holds(with_features(none, a), b);
    lemma_with_features_once(none, a);
    lemma_with_features_once(with_features(none, a), b);
}

/// Two sets that share no name merge into their union: each name keeps
/// the declaration of the side that has it, and no other name comes in.
pub proof fn law_disjoint_merge(a: Declarations, b: Declarations)
    requires
        a.dom().disjoint(b.dom()),
    ensures
        compatible(a, b),
        merged(a, b) == a.union_prefer_right(b),
        merged(a, b).dom() == a.dom().union(b.dom()),
        forall|n: Seq<char>| a.contains_key(n) ==> #[trigger] merged(a, b)[n] == a[n],
        forall|n: Seq<char>| b.contains_key(n) ==> #[trigger] merged(a, b)[n] == b[n],
        merged_all(seq![a, b]) == Some(a.union_prefer_right(b)),
{
    assert forall|n: Seq<char>| !#[trigger] conflicting(a, b, n) by {
        if a.contains_key(n) && b.contains_key(n) {
            assert(a.dom().contains(n) && b.dom().contains(n));
        }
    }
    assert forall|n: Seq<char>| b.contains_key(n) implies !a.contains_key(n) by {
        if a.contains_key(n) {
            assert(a.dom().contains(n) && b.dom().contains(n));
        }
    }
    assert(merged(a, b) =~= a.union_prefer_right(b));
    assert(merged(a, b).dom() =~= a.dom().union(b.dom()));
    law_merge_of_two(a, b);
}

/// The merge of two sets from the empty set is their merge, where the two
/// are compatible, and fails where they are not.
pub proof fn law_merge_of_two(a: Declarations, b: Declarations)
    ensures
        merged_all(seq![a]) == Some(a),
        compatible(a, b) ==> merged_all(seq![a, b]) == Some(merged(a, b)),
        !compatible(a, b) ==> merged_all(seq![a, b]) is None,
{
    let none = Map::<Seq<char>, DependencySpecView>::empty();
    let one = seq![a];
    let two = seq![a, b];
    assert(one.drop_last() =~= Seq::<Declarations>::empty());
    assert(merged_all(one.drop_last()) == Some(none));
    assert forall|n: Seq<char>| !#[trigger] conflicting(none, a, n) by {}
    assert(merged(none, a) =~= a);
    assert(one.last() == a);
    assert(merged_all(one) == Some(a));
    assert(two.drop_last() =~= one);
    assert(two.last() == b);
}

/// A name that both sets declare, in ways that agree, has one declaration
/// in the merge: the combination of the two, which enables the features
/// of either side.
pub proof fn law_shared_merge(a: Declarations, b: Declarations, n: Seq<char>)
    requires
        a.contains_key(n),
        b.contains_key(n),
        specs_agree(a[n], b[n]),
    ensures
        merged(a, b).contains_key(n),
        merged(a, b)[n] == combined(a[n], b[n]),
        forall|f: Seq<char>| a[n].features.contains(f) ==> #[trigger] merged(a, b)[n].features.contains(f),
        forall|f: Seq<char>| b[n].features.contains(f) ==> #[trigger] merged(a, b)[n].features.contains(f),
        forall|f: Seq<char>| #[trigger]
            merged(a, b)[n].features.contains(f) ==> a[n].features.contains(f) || b[n].features.contains(f),
        merged(a, b)[n].features.no_duplicates(),
{
    law_feature_union(a[n].features, b[n].features);
}

/// A strictly ordered listing has at most one entry under each name.
pub proof fn law_one_entry_per_name(l: Listing, i: int, j: int)
    requires
        strictly_ordered(l),
        0 <= i < l.len(),
        0 <= j < l.len(),
        l[i].0 == l[j].0,
    ensures
        i == j,
{
    lemma_before_irreflexive(l[i].0);
    if i < j {
        assert(text_before(l[i].0, l[j].0));
    } else if j < i {
        assert(text_before(l[j].0, l[i].0));
    }
}

/// A name that both sets declare with two different version constraints
/// fails the merge; the conflict that is reported is that of a name which
/// the two sets declare in conflicting ways, and it is that of `n` where
/// no name before `n` is such a name.
pub proof fn law_conflict_fails(a: Declarations, b: Declarations, n: Seq<char>)
    requires
        a.contains_key(n),
        b.contains_key(n),
        conflict_between(a[n], b[n]) == Some(ConflictKind::Version),
    ensures
        !compatible(a, b),
        merged_all(seq![a, b]) is None,
        (forall|m: Seq<char>| #[trigger] conflicting(a, b, m) ==> !text_before(m, n))
            ==> {
            &&& first_conflict(a, b, n)
            &&& conflict_report(a, b, n).name == n
            &&& conflict_report(a, b, n).kind == ConflictKind::Version
            &&& conflict_report(a, b, n).left == a[n].version
            &&& conflict_report(a, b, n).right == b[n].version
        },
        forall|m: Seq<char>| #[trigger] first_conflict(a, b, m) && first_conflict(a, b, n) ==> m == n,
{
    assert(conflicting(a, b, n));
    law_merge_of_two(a, b);
    assert forall|m: Seq<char>| #[trigger] first_conflict(a, b, m) && first_conflict(a, b, n) implies m
        == n by {
        assert(conflicting(a, b, m));
        assert(!text_before(m, n));
        assert(!text_before(n, m));
        lemma_before_total(m, n);
    }
}

/// An identity that is free once the earlier one has joined the existing
/// names is free among the existing names, and is not the earlier one: of
/// two generations in a row the second never gets the identity of the
/// first.
pub proof fn law_identities_in_a_row_differ(
    existing: Seq<Seq<char>>,
    first: Seq<char>,
    second: Seq<char>,
)
    requires
        !existing.push(first).contains(second),
    ensures
        second != first,
        !existing.contains(second),
{
    let grown = existing.push(first);
    assert(grown[existing.len() as int] == first);
    if existing.contains(second) {
        let i = choose|i: int| 0 <= i < existing.len() && existing[i] == second;
        assert(grown[i] == second);
    }
}

/// Two declarations of one dependency agree exactly when their
/// constraints do not pin different versions, both are optional or
/// neither is, and both name the same source. Two constraints of
/// different text that do not both pin a version agree, and their
/// combination asks for both.
pub proof fn law_agreement(a: DependencySpecView, b: DependencySpecView)
    ensures
        specs_agree(a, b) <==> !incompatible(a.version, b.version) && a.optional == b.optional
            && same_source(a, b),
        specs_agree(a, b) && !unconstrained(a.version) && !unconstrained(b.version) && a.version
            != b.version ==> combined(a, b).version == Some(
            a.version->0 + ", "@ + b.version->0,
        ),
        specs_agree(a, b) && a.version == b.version ==> combined(a, b).version == a.version,
{
}

/// Without starters in the request the manifest is the mark, the label
/// and the package section, and nothing after; where each value of the
/// metadata is written as it is, the package section is that of the
/// name, the version `0.1.0`, the description and the author, and ends
/// with the heading of the dependencies.
pub proof fn law_manifest_without_starters(
    d: ProjectDescriptionView,
    label: Seq<char>,
    fetched: Seq<StarterContent>,
    manifest: String,
)
    requires
        d.starters.len() == 0,
        manifest_is(d, label, fetched, Ok(manifest)),
    ensures
        manifest@ == "#"@ + label + package_section(d.package),
        all_verbatim(d.package) ==> manifest@ == "#"@ + label + package_template(
            d.package.name,
            "0.1.0"@,
            description_text(d.package),
            author_text(d.package),
        ),
{
    assert(manifest_text(label, package_section(d.package), Seq::empty()) =~= "#"@ + label
        + package_section(d.package));
}

} // verus!
