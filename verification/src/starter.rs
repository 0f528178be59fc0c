//! Reading the dependency declarations of a starter's manifest text.

use cargo_toml::Manifest;
use vstd::prelude::*;
use crate::dependency::{simple_spec, DependencySpec, DependencySpecView};
use crate::dependency_set::{as_map, strictly_ordered, DependencySet, Listing};
use crate::error::ProjectGeneratingServiceError;
use crate::text::{copy_opt_text, copy_texts, opt_text, texts};

verus! {

/// One entry of a `[dependencies]` table, in one of the three forms in
/// which a manifest writes it.
#[derive(Debug)]
pub enum Declaration {
    /// `name = "version"`.
    Simple(String),
    /// `name = { workspace = true, .. }`: taken over from the workspace.
    Inherited { features: Vec<String>, optional: bool, workspace: bool },
    /// `name = { .. }` with the keys of a full declaration.
    Detailed {
        version: Option<String>,
        registry: Option<String>,
        registry_index: Option<String>,
        path: Option<String>,
        git: Option<String>,
        branch: Option<String>,
        tag: Option<String>,
        rev: Option<String>,
        features: Vec<String>,
        optional: bool,
        default_features: bool,
        package: Option<String>,
    },
}

/// What `cargo_toml` reads from the `[dependencies]` table of the manifest
/// text `text`: the declared names in their order, each with its
/// declaration; `None` where the text is not a manifest.
pub uninterp spec fn parsed_dependencies(text: Seq<char>) -> Option<Seq<(String, Declaration)>>;

/// Calls `cargo_toml::Manifest::from_str` and hands out the entries of the
/// manifest's `dependencies` table, each field as it was read.
///
/// The parser is a function of the text alone; the contract claims no
/// more than that, by naming its result.
#[verifier::external_body]
fn parse_dependencies(text: &str) -> (r: Result<Vec<(String, Declaration)>, cargo_toml::Error>)
    ensures
        match r {
            Ok(v) => parsed_dependencies(text@) == Some(v@),
            Err(_) => parsed_dependencies(text@) is None,
        },
{
    let manifest = Manifest::from_str(text)?;
    Ok(manifest.dependencies.into_iter().map(|(name, d)| (name, match d {
        cargo_toml::Dependency::Simple(v) => Declaration::Simple(v),
        cargo_toml::Dependency::Inherited(x) => Declaration::Inherited {
            features: x.features, optional: x.optional, workspace: x.workspace },
        cargo_toml::Dependency::Detailed(x) => Declaration::Detailed {
            version: x.version, registry: x.registry, registry_index: x.registry_index,
            path: x.path, git: x.git, branch: x.branch, tag: x.tag, rev: x.rev,
            features: x.features, optional: x.optional,
            default_features: x.default_features, package: x.package },
    })).collect())
}

/// What a declaration says, whatever its form: the short form is a
/// version constraint alone, and a declaration that is taken over from
/// the workspace has its features and flags and nothing else.
pub open spec fn declared_spec(d: Declaration) -> DependencySpecView {
    match d {
        Declaration::Simple(v) => simple_spec(v@),
        Declaration::Inherited { features, optional, workspace } => DependencySpecView {
            version: None,
            features: texts(features@),
            optional,
            default_features: true,
            workspace,
            registry: None,
            registry_index: None,
            path: None,
            git: None,
            branch: None,
            tag: None,
            rev: None,
            package: None,
        },
        Declaration::Detailed {
            version,
            registry,
            registry_index,
            path,
            git,
            branch,
            tag,
            rev,
            features,
            optional,
            default_features,
            package,
        } => DependencySpecView {
            version: opt_text(version),
            features: texts(features@),
            optional,
            default_features,
            workspace: false,
            registry: opt_text(registry),
            registry_index: opt_text(registry_index),
            path: opt_text(path),
            git: opt_text(git),
            branch: opt_text(branch),
            tag: opt_text(tag),
            rev: opt_text(rev),
            package: opt_text(package),
        },
    }
}

/// The entries of `declared` as names and what each declares.
pub open spec fn declared_listing(declared: Seq<(String, Declaration)>) -> Listing {
    Seq::new(declared.len(), |i: int| (declared[i].0@, declared_spec(declared[i].1)))
}

/// What a declaration says, whatever its form.
pub fn spec_of(d: &Declaration) -> (r: DependencySpec)
    ensures
        r@ == declared_spec(*d),
{
    match d {
        Declaration::Simple(v) => DependencySpec::simple(v.clone()),
        Declaration::Inherited { features, optional, workspace } => DependencySpec {
            version: None,
            features: copy_texts(features),
            optional: *optional,
            default_features: true,
            workspace: *workspace,
            registry: None,
            registry_index: None,
            path: None,
            git: None,
            branch: None,
            tag: None,
            rev: None,
            package: None,
        },
        Declaration::Detailed {
            version,
            registry,
            registry_index,
            path,
            git,
            branch,
            tag,
            rev,
            features,
            optional,
            default_features,
            package,
        } => DependencySpec {
            version: copy_opt_text(version),
            features: copy_texts(features),
            optional: *optional,
            default_features: *default_features,
            workspace: false,
            registry: copy_opt_text(registry),
            registry_index: copy_opt_text(registry_index),
            path: copy_opt_text(path),
            git: copy_opt_text(git),
            branch: copy_opt_text(branch),
            tag: copy_opt_text(tag),
            rev: copy_opt_text(rev),
            package: copy_opt_text(package),
        },
    }
}

/// The set that holds the declarations of `declared`; of two declarations
/// under one name the later one counts.
pub fn collect_declarations(declared: &Vec<(String, Declaration)>) -> (r: DependencySet)
    ensures
        r.declarations() == as_map(declared_listing(declared@)),
        strictly_ordered(r@),
{
    let ghost l = declared_listing(declared@);
    let mut set = DependencySet::new();
    let mut i: usize = 0;
    assert(l.take(0) =~= Seq::<(Seq<char>, DependencySpecView)>::empty());
    while i < declared.len()
        invariant
            i <= declared.len(),
            l == declared_listing(declared@),
            set.declarations() == as_map(l.take(i as int)),
            strictly_ordered(set@),
        decreases declared.len() - i,
    {
        proof {
            assert(l.take(i as int + 1).drop_last() =~= l.take(i as int));
            assert(l.take(i as int + 1).last() == l[i as int]);
        }
        set.insert(declared[i].0.clone(), spec_of(&declared[i].1));
        i += 1;
    }
    assert(l.take(declared@.len() as int) =~= l);
    set
}

/// What the manifest text `text` declares, as a mapping; `None` where the
/// text is not a manifest.
pub open spec fn starter_declarations(text: Seq<char>) -> Option<
    Map<Seq<char>, DependencySpecView>,
> {
    match parsed_dependencies(text) {
        Some(declared) => Some(as_map(declared_listing(declared))),
        None => None,
    }
}

/// The dependency set that the manifest text of a starter declares.
pub fn starter_dependencies(text: &str) -> (r: Result<
    DependencySet,
    ProjectGeneratingServiceError,
>)
    ensures
        match r {
            Ok(s) => starter_declarations(text@) == Some(s.declarations()) && strictly_ordered(
                s@,
            ),
            Err(ProjectGeneratingServiceError::CouldNotParseStarterManifest(_)) => starter_declarations(
                text@,
            ) is None,
            Err(_) => false,
        },
{
    match parse_dependencies(text) {
        Ok(declared) => Ok(collect_declarations(&declared)),
        Err(e) => Err(ProjectGeneratingServiceError::CouldNotParseStarterManifest(e)),
    }
}

} // verus!
