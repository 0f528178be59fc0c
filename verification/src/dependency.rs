//! One dependency declaration, and how two declarations of the same name
//! are combined into one.

use vstd::prelude::*;
use crate::text::{chars_of, copy_opt_text, copy_texts, glue, opt_text, opt_text_eq, text_eq, texts};

verus! {

/// What a starter declares about one dependency.
#[derive(Debug)]
pub struct DependencySpec {
    /// The version constraint; `None` where the declaration gives none.
    pub version: Option<String>,
    /// The enabled features, in the order of the declaration.
    pub features: Vec<String>,
    /// Whether the dependency is optional.
    pub optional: bool,
    /// Whether the default features of the dependency are enabled.
    pub default_features: bool,
    /// Whether the declaration is taken over from the workspace.
    pub workspace: bool,
    /// The registry that the dependency comes from, if not the default one.
    pub registry: Option<String>,
    /// The index of that registry.
    pub registry_index: Option<String>,
    /// A local path that replaces the registry as the source.
    pub path: Option<String>,
    /// A remote repository that replaces the registry as the source.
    pub git: Option<String>,
    /// The branch of the repository.
    pub branch: Option<String>,
    /// The tag of the repository.
    pub tag: Option<String>,
    /// The revision of the repository.
    pub rev: Option<String>,
    /// The name of the package, where it differs from the declared name.
    pub package: Option<String>,
}

/// The mathematical content of a [`DependencySpec`].
pub ghost struct DependencySpecView {
    pub version: Option<Seq<char>>,
    pub features: Seq<Seq<char>>,
    pub optional: bool,
    pub default_features: bool,
    pub workspace: bool,
    pub registry: Option<Seq<char>>,
    pub registry_index: Option<Seq<char>>,
    pub path: Option<Seq<char>>,
    pub git: Option<Seq<char>>,
    pub branch: Option<Seq<char>>,
    pub tag: Option<Seq<char>>,
    pub rev: Option<Seq<char>>,
    pub package: Option<Seq<char>>,
}

impl View for DependencySpec {
    type V = DependencySpecView;

    open spec fn view(&self) -> DependencySpecView {
        DependencySpecView {
            version: opt_text(self.version),
            features: texts(self.features@),
            optional: self.optional,
            default_features: self.default_features,
            workspace: self.workspace,
            registry: opt_text(self.registry),
            registry_index: opt_text(self.registry_index),
            path: opt_text(self.path),
            git: opt_text(self.git),
            branch: opt_text(self.branch),
            tag: opt_text(self.tag),
            rev: opt_text(self.rev),
            package: opt_text(self.package),
        }
    }
}

/// The declaration of a version constraint alone.
pub open spec fn simple_spec(version: Seq<char>) -> DependencySpecView {
    DependencySpecView {
        version: Some(version),
        features: Seq::empty(),
        optional: false,
        default_features: true,
        workspace: false,
        registry: None,
        registry_index: None,
        path: None,
        git: None,
        branch: None,
        tag: None,
        rev: None,
        package: None,
    }
}

/// Why two declarations of one dependency cannot be combined.
#[derive(Clone, Copy, Debug, PartialEq, Eq, Structural)]
pub enum ConflictKind {
    /// The two version constraints pin different versions.
    Version,
    /// One is optional and the other is not.
    Optional,
    /// They name different sources.
    Source,
}

/// A constraint that accepts every version: none at all, or `*`.
pub open spec fn unconstrained(v: Option<Seq<char>>) -> bool {
    v is None || v == Some(seq!['*'])
}

/// Whether `c` is a decimal digit.
pub open spec fn is_digit(c: char) -> bool {
    '0' <= c && c <= '9'
}

/// The end of the run of digits of `s` that starts at `from`.
pub open spec fn digits_end(s: Seq<char>, from: int) -> int
    decreases s.len() - from,
{
    if from < 0 || from >= s.len() || !is_digit(s[from]) {
        from
    } else {
        digits_end(s, from + 1)
    }
}

/// Whether the digits of `s` from `from` up to `to` are a number as a
/// version writes it: at least one digit, and no zero before another.
pub open spec fn numeral_at(s: Seq<char>, from: int, to: int) -> bool {
    from < to && (to == from + 1 || s[from] != '0')
}

/// Whether `v` pins one version: `=` and three numbers with a dot between
/// each two, and nothing else. Two such constraints of different text
/// accept no version in common.
pub open spec fn exact_pin(v: Seq<char>) -> bool {
    let a = digits_end(v, 1);
    let b = digits_end(v, a + 1);
    let c = digits_end(v, b + 1);
    &&& v.len() > 0
    &&& v[0] == '='
    &&& numeral_at(v, 1, a)
    &&& a < v.len()
    &&& v[a] == '.'
    &&& numeral_at(v, a + 1, b)
    &&& b < v.len()
    &&& v[b] == '.'
    &&& numeral_at(v, b + 1, c)
    &&& c == v.len()
}

/// Whether the two constraints can be shown to accept no version in
/// common: each pins one version, and the two differ.
pub open spec fn incompatible(a: Option<Seq<char>>, b: Option<Seq<char>>) -> bool {
    a matches Some(x) && b matches Some(y) && exact_pin(x) && exact_pin(y) && x != y
}

/// The constraint that accepts the versions which both `a` and `b`
/// accept: the other one where one of them accepts every version, the
/// one text where the two are the same, else both with a comma between
/// them, which asks for both.
pub open spec fn combined_version(a: Option<Seq<char>>, b: Option<Seq<char>>) -> Option<
    Seq<char>,
> {
    if unconstrained(a) {
        b
    } else if unconstrained(b) || a == b {
        a
    } else {
        Some(a->0 + ", "@ + b->0)
    }
}

/// `acc`, followed by `f` unless `acc` holds it already.
pub open spec fn with_feature(acc: Seq<Seq<char>>, f: Seq<char>) -> Seq<Seq<char>> {
    if acc.contains(f) {
        acc
    } else {
        acc.push(f)
    }
}

/// `acc`, followed by those of `fs` that it does not hold yet, each once
/// and in the order of `fs`.
pub open spec fn with_features(acc: Seq<Seq<char>>, fs: Seq<Seq<char>>) -> Seq<Seq<char>>
    decreases fs.len(),
{
    if fs.len() == 0 {
        acc
    } else {
        with_feature(with_features(acc, fs.drop_last()), fs.last())
    }
}

/// The features of either side, each once: those of `a` in their order,
/// then those that only `b` enables.
pub open spec fn feature_union(a: Seq<Seq<char>>, b: Seq<Seq<char>>) -> Seq<Seq<char>> {
    with_features(with_features(Seq::empty(), a), b)
}

/// Whether `a` and `b` name the same source: registry, path, repository
/// with its branch, tag and revision, package, and whether the
/// declaration is taken over from the workspace.
pub open spec fn same_source(a: DependencySpecView, b: DependencySpecView) -> bool {
    &&& a.workspace == b.workspace
    &&& a.registry == b.registry
    &&& a.registry_index == b.registry_index
    &&& a.path == b.path
    &&& a.git == b.git
    &&& a.branch == b.branch
    &&& a.tag == b.tag
    &&& a.rev == b.rev
    &&& a.package == b.package
}

/// The first reason, if any, for which `a` and `b` cannot be combined.
pub open spec fn conflict_between(a: DependencySpecView, b: DependencySpecView) -> Option<
    ConflictKind,
> {
    if incompatible(a.version, b.version) {
        Some(ConflictKind::Version)
    } else if a.optional != b.optional {
        Some(ConflictKind::Optional)
    } else if !same_source(a, b) {
        Some(ConflictKind::Source)
    } else {
        None
    }
}

/// Whether `a` and `b` can be combined.
pub open spec fn specs_agree(a: DependencySpecView, b: DependencySpecView) -> bool {
    conflict_between(a, b) is None
}

/// The declaration that stands for both `a` and `b`, where the two agree:
/// the constraint of both, the features of both, the default features
/// where either side enables them, and the source that both name.
pub open spec fn combined(a: DependencySpecView, b: DependencySpecView) -> DependencySpecView {
    DependencySpecView {
        version: combined_version(a.version, b.version),
        features: feature_union(a.features, b.features),
        optional: a.optional,
        default_features: a.default_features || b.default_features,
        workspace: a.workspace,
        registry: a.registry,
        registry_index: a.registry_index,
        path: a.path,
        git: a.git,
        branch: a.branch,
        tag: a.tag,
        rev: a.rev,
        package: a.package,
    }
}

/// The end of the run of digits of `s` that starts at `from`.
fn scan_digits(s: &Vec<char>, from: usize) -> (r: usize)
    ensures
        r == digits_end(s@, from as int),
        from <= r,
        from <= s@.len() ==> r <= s@.len(),
{
    let mut i: usize = from;
    while i < s.len() && '0' <= s[i] && s[i] <= '9'
        invariant
            from <= i,
            from <= s@.len() ==> i <= s@.len(),
            digits_end(s@, from as int) == digits_end(s@, i as int),
        decreases s@.len() - i,
    {
        i += 1;
    }
    i
}

/// Whether the constraint pins one version.
pub fn is_exact_pin(version: &str) -> (r: bool)
    ensures
        r == exact_pin(version@),
{
    let v = chars_of(version);
    if v.len() == 0 || v[0] != '=' {
        return false;
    }
    let a = scan_digits(&v, 1);
    if !(1 < a && (a == 2 || v[1] != '0') && a < v.len() && v[a] == '.') {
        return false;
    }
    let b = scan_digits(&v, a + 1);
    if !(a + 1 < b && (b == a + 2 || v[a + 1] != '0') && b < v.len() && v[b] == '.') {
        return false;
    }
    let c = scan_digits(&v, b + 1);
    b + 1 < c && (c == b + 2 || v[b + 1] != '0') && c == v.len()
}

/// Whether an optional constraint pins one version.
fn is_opt_exact_pin(version: &Option<String>) -> (r: bool)
    ensures
        r == (opt_text(*version) matches Some(x) && exact_pin(x)),
{
    match version {
        Some(v) => is_exact_pin(v.as_str()),
        None => false,
    }
}

/// Whether `list` holds the feature `f`.
pub fn has_feature(list: &Vec<String>, f: &str) -> (r: bool)
    ensures
        r == texts(list@).contains(f@),
{
    let mut i: usize = 0;
    while i < list.len()
        invariant
            i <= list.len(),
            forall|k: int| 0 <= k < i ==> list@[k]@ != f@,
        decreases list.len() - i,
    {
        if text_eq(list[i].as_str(), f) {
            assert(texts(list@)[i as int] == f@);
            return true;
        }
        i += 1;
    }
    false
}

/// Appends to `acc` those of `fs` that it does not hold yet.
pub fn add_features(acc: &mut Vec<String>, fs: &Vec<String>)
    ensures
        texts(final(acc)@) == with_features(texts(old(acc)@), texts(fs@)),
{
    let ghost start = texts(acc@);
    let mut i: usize = 0;
    assert(texts(fs@).take(0) =~= Seq::<Seq<char>>::empty());
    while i < fs.len()
        invariant
            i <= fs.len(),
            texts(acc@) == with_features(start, texts(fs@).take(i as int)),
        decreases fs.len() - i,
    {
        let ghost before = texts(acc@);
        proof {
            let t = texts(fs@).take(i as int + 1);
            assert(t.drop_last() =~= texts(fs@).take(i as int));
            assert(t.last() == fs@[i as int]@);
        }
        if !has_feature(acc, fs[i].as_str()) {
            acc.push(fs[i].clone());
            assert(texts(acc@) =~= before.push(fs@[i as int]@));
        }
        i += 1;
    }
    assert(texts(fs@).take(fs.len() as int) =~= texts(fs@));
}

impl DependencySpec {
    /// A declaration of a version constraint alone.
    pub fn simple(version: String) -> (r: DependencySpec)
        ensures
            r@ == simple_spec(version@),
    {
        let r = DependencySpec {
            version: Some(version),
            features: Vec::new(),
            optional: false,
            default_features: true,
            workspace: false,
            registry: None,
            registry_index: None,
            path: None,
            git: None,
            branch: None,
            tag: None,
            rev: None,
            package: None,
        };
        assert(texts(r.features@) =~= Seq::empty());
        r
    }

    /// A copy of this declaration.
    pub fn duplicate(&self) -> (r: DependencySpec)
        ensures
            r@ == self@,
    {
        DependencySpec {
            version: copy_opt_text(&self.version),
            features: copy_texts(&self.features),
            optional: self.optional,
            default_features: self.default_features,
            workspace: self.workspace,
            registry: copy_opt_text(&self.registry),
            registry_index: copy_opt_text(&self.registry_index),
            path: copy_opt_text(&self.path),
            git: copy_opt_text(&self.git),
            branch: copy_opt_text(&self.branch),
            tag: copy_opt_text(&self.tag),
            rev: copy_opt_text(&self.rev),
            package: copy_opt_text(&self.package),
        }
    }

    /// Whether the version constraint accepts every version.
    pub fn is_unconstrained(&self) -> (r: bool)
        ensures
            r == unconstrained(self@.version),
    {
        match &self.version {
            None => true,
            Some(v) => {
                let c = chars_of(v.as_str());
                let r = c.len() == 1 && c[0] == '*';
                proof {
                    if r {
                        assert(v@ =~= seq!['*']);
                    }
                }
                r
            },
        }
    }

    /// Whether this declaration and `other` name the same source.
    pub fn has_source_of(&self, other: &DependencySpec) -> (r: bool)
        ensures
            r == same_source(self@, other@),
    {
        self.workspace == other.workspace && opt_text_eq(&self.registry, &other.registry)
            && opt_text_eq(&self.registry_index, &other.registry_index) && opt_text_eq(
            &self.path,
            &other.path,
        ) && opt_text_eq(&self.git, &other.git) && opt_text_eq(&self.branch, &other.branch)
            && opt_text_eq(&self.tag, &other.tag) && opt_text_eq(&self.rev, &other.rev)
            && opt_text_eq(&self.package, &other.package)
    }

    /// The constraint of this declaration and `other` together.
    fn combine_versions(&self, other: &DependencySpec) -> (r: Option<String>)
        ensures
            opt_text(r) == combined_version(self@.version, other@.version),
    {
        if self.is_unconstrained() {
            return copy_opt_text(&other.version);
        }
        if other.is_unconstrained() || opt_text_eq(&self.version, &other.version) {
            return copy_opt_text(&self.version);
        }
        match (&self.version, &other.version) {
            (Some(a), Some(b)) => Some(glue(a.as_str(), ", ", b.as_str())),
            _ => None,
        }
    }

    /// Combines this declaration with another one of the same dependency.
    ///
    /// The result asks for what both constraints ask for, and enables the
    /// features of both sides. Two constraints that pin different
    /// versions, a disagreement on whether the dependency is optional,
    /// and a disagreement on its source are each a conflict.
    pub fn combine_dependencies(&self, other: &DependencySpec) -> (r: Result<
        DependencySpec,
        ConflictKind,
    >)
        ensures
            match r {
                Ok(c) => specs_agree(self@, other@) && c@ == combined(self@, other@),
                Err(k) => conflict_between(self@, other@) == Some(k),
            },
    {
        if is_opt_exact_pin(&self.version) && is_opt_exact_pin(&other.version) && !opt_text_eq(
            &self.version,
            &other.version,
        ) {
            return Err(ConflictKind::Version);
        }
        if self.optional != other.optional {
            return Err(ConflictKind::Optional);
        }
        if !self.has_source_of(other) {
            return Err(ConflictKind::Source);
        }
        let mut features: Vec<String> = Vec::new();
        assert(texts(features@) =~= Seq::empty());
        add_features(&mut features, &self.features);
        add_features(&mut features, &other.features);
        Ok(
            DependencySpec {
                version: self.combine_versions(other),
                features,
                optional: self.optional,
                default_features: self.default_features || other.default_features,
                workspace: self.workspace,
                registry: copy_opt_text(&self.registry),
                registry_index: copy_opt_text(&self.registry_index),
                path: copy_opt_text(&self.path),
                git: copy_opt_text(&self.git),
                branch: copy_opt_text(&self.branch),
                tag: copy_opt_text(&self.tag),
                rev: copy_opt_text(&self.rev),
                package: copy_opt_text(&self.package),
            },
        )
    }
}

} // verus!
