//! Generating a project: from the description, the configuration, the
//! names of the existing project directories and the texts of the
//! starters to the file tree of the project.

use vstd::prelude::*;
use vstd::string::StringExecFns;
use crate::dependency_set::{lemma_ordered_listing, ordered_listing, Declarations, DependencySet};
use crate::description::{ProjectDescription, ProjectDescriptionView};
use crate::error::{DescriptionFault, ProjectGeneratingServiceError};
use crate::identity::{exhausted, first_free, get_project_hash};
use crate::manifest::{all_renderable, all_verbatim, author_text, description_text, generate_package_section, malformed_field, package_section, package_template, render_dependency_section, renderable, section_text};
use crate::merge::{conflict_report, declarations_of, first_conflict, merge_starters, merged_all};
use crate::project::{assemble, entry_point_content, entry_point_path, manifest_path, AssembledProject};
use crate::starter::{starter_declarations, starter_dependencies};
use crate::text::texts;

verus! {

/// What the lookup of one starter gave.
#[derive(Debug)]
pub enum StarterContent {
    /// The manifest text of the starter.
    Found(String),
    /// The starter could not be fetched; the text says why.
    Missing(String),
}

/// What stays the same from one generation to the next.
#[derive(Debug)]
pub struct GenerationConfig {
    /// The label that the first line of each manifest bears.
    pub label: String,
    /// How many identities are tried before a generation is given up.
    pub max_attempts: usize,
}

/// Whether each starter was fetched.
pub open spec fn all_found(fetched: Seq<StarterContent>) -> bool {
    forall|i: int| 0 <= i < fetched.len() ==> #[trigger] fetched[i] is Found
}

/// The manifest texts of the starters that were fetched, in order.
pub open spec fn found_texts(fetched: Seq<StarterContent>) -> Seq<Seq<char>> {
    Seq::new(
        fetched.len(),
        |i: int|
            match fetched[i] {
                StarterContent::Found(t) => t@,
                StarterContent::Missing(_) => Seq::empty(),
            },
    )
}

/// Whether each of `starters` is a manifest.
pub open spec fn all_parsed(starters: Seq<Seq<char>>) -> bool {
    forall|i: int| 0 <= i < starters.len() ==> starter_declarations(#[trigger] starters[i]) is Some
}

/// What each of `starters` declares.
pub open spec fn parsed_declarations(starters: Seq<Seq<char>>) -> Seq<Declarations> {
    Seq::new(starters.len(), |i: int| starter_declarations(starters[i])->0)
}

/// The merge of what the starters declare; `None` where it fails.
pub open spec fn starters_merge(fetched: Seq<StarterContent>) -> Option<Declarations> {
    merged_all(parsed_declarations(found_texts(fetched)))
}

/// Whether the dependency section can be rendered from what the lookups
/// of the starters gave: each starter was fetched and is a manifest, the
/// merge has no conflict, and each entry of the merged set can be written
/// as a line.
pub open spec fn section_succeeds(fetched: Seq<StarterContent>) -> bool {
    &&& all_found(fetched)
    &&& all_parsed(found_texts(fetched))
    &&& starters_merge(fetched) is Some
    &&& all_renderable(ordered_listing(starters_merge(fetched)->0))
}

/// The dependency section: the lines of the merged set, in the order of
/// the names.
pub open spec fn dependency_section_text(fetched: Seq<StarterContent>) -> Seq<char> {
    section_text(ordered_listing(starters_merge(fetched)->0))
}

/// Whether `r` is the outcome of rendering the dependency section from
/// what the lookups of the starters gave.
///
/// The first starter that is missing fails the rendering, then the first
/// that is not a manifest, then the first conflict of the merge, then the
/// first entry of the merged set that cannot be written as a line. Where
/// nothing fails, the section holds the lines of the merged set in the
/// order of the names.
pub open spec fn dependency_section_is(
    fetched: Seq<StarterContent>,
    r: Result<String, ProjectGeneratingServiceError>,
) -> bool {
    let starters = found_texts(fetched);
    let merge = starters_merge(fetched);
    match r {
        Ok(s) => section_succeeds(fetched) && s@ == dependency_section_text(fetched),
        Err(ProjectGeneratingServiceError::CouldNotGetStarterContent(reason)) => exists|i: int|
            {
                &&& 0 <= i < fetched.len()
                &&& (#[trigger] fetched[i]) matches StarterContent::Missing(t)
                &&& t@ == reason@
                &&& all_found(fetched.take(i))
            },
        Err(ProjectGeneratingServiceError::CouldNotParseStarterManifest(_)) => {
            &&& all_found(fetched)
            &&& !all_parsed(starters)
        },
        Err(ProjectGeneratingServiceError::DependencyConflict(c)) => {
            &&& all_found(fetched)
            &&& all_parsed(starters)
            &&& merge is None
            &&& exists|k: int|
                {
                    &&& 0 <= k < starters.len()
                    &&& #[trigger] merged_all(parsed_declarations(starters).take(k)) is Some
                    &&& first_conflict(
                        merged_all(parsed_declarations(starters).take(k))->0,
                        parsed_declarations(starters)[k],
                        c.name@,
                    )
                    &&& c@ == conflict_report(
                        merged_all(parsed_declarations(starters).take(k))->0,
                        parsed_declarations(starters)[k],
                        c.name@,
                    )
                }
        },
        Err(ProjectGeneratingServiceError::DependencySection(name)) => {
            &&& all_found(fetched)
            &&& all_parsed(starters)
            &&& merge is Some
            &&& exists|i: int|
                {
                    &&& 0 <= i < ordered_listing(merge->0).len()
                    &&& (#[trigger] ordered_listing(merge->0)[i]).0 == name@
                    &&& !renderable(ordered_listing(merge->0)[i].0, ordered_listing(merge->0)[i].1)
                    &&& all_renderable(ordered_listing(merge->0).take(i))
                }
        },
        Err(_) => false,
    }
}

/// The manifest texts of the starters, where each was fetched; else the
/// reason that the first missing one gives.
fn fetched_texts(fetched: &Vec<StarterContent>) -> (r: Result<Vec<String>, String>)
    ensures
        match r {
            Ok(v) => all_found(fetched@) && texts(v@) == found_texts(fetched@),
            Err(reason) => exists|i: int|
                {
                    &&& 0 <= i < fetched@.len()
                    &&& (#[trigger] fetched@[i]) matches StarterContent::Missing(t)
                    &&& t@ == reason@
                    &&& all_found(fetched@.take(i))
                },
        },
{
    let mut out: Vec<String> = Vec::new();
    let mut i: usize = 0;
    while i < fetched.len()
        invariant
            i <= fetched.len(),
            out@.len() == i,
            forall|k: int| 0 <= k < i ==> #[trigger] fetched@[k] is Found,
            forall|k: int| 0 <= k < i ==> (#[trigger] out@[k])@ == found_texts(fetched@)[k],
        decreases fetched.len() - i,
    {
        match &fetched[i] {
            StarterContent::Found(t) => {
                out.push(t.clone());
            },
            StarterContent::Missing(reason) => {
                proof {
                    let t = fetched@.take(i as int);
                    assert forall|k: int| 0 <= k < t.len() implies #[trigger] t[k] is Found by {
                        assert(fetched@[k] is Found);
                    }
                }
                return Err(reason.clone());
            },
        }
        i += 1;
    }
    assert(texts(out@) =~= found_texts(fetched@));
    Ok(out)
}

/// The dependency sets that the manifest texts of the starters declare.
fn parse_starters(starters: &Vec<String>) -> (r: Result<
    Vec<DependencySet>,
    ProjectGeneratingServiceError,
>)
    ensures
        match r {
            Ok(sets) => all_parsed(texts(starters@)) && declarations_of(sets@)
                == parsed_declarations(texts(starters@)),
            Err(ProjectGeneratingServiceError::CouldNotParseStarterManifest(_)) => !all_parsed(
                texts(starters@),
            ),
            Err(_) => false,
        },
{
    let ghost all = texts(starters@);
    let mut sets: Vec<DependencySet> = Vec::new();
    let mut i: usize = 0;
    while i < starters.len()
        invariant
            i <= starters.len(),
            all == texts(starters@),
            sets@.len() == i,
            forall|k: int| 0 <= k < i ==> starter_declarations(#[trigger] all[k]) is Some,
            forall|k: int|
                0 <= k < i ==> Some((#[trigger] sets@[k]).declarations()) == starter_declarations(
                    all[k],
                ),
        decreases starters.len() - i,
    {
        match starter_dependencies(starters[i].as_str()) {
            Ok(set) => {
                sets.push(set);
            },
            Err(e) => {
                assert(starter_declarations(all[i as int]) is None);
                return Err(e);
            },
        }
        i += 1;
    }
    assert(declarations_of(sets@) =~= parsed_declarations(all));
    Ok(sets)
}

/// Renders the dependency section of the manifest from what the lookups
/// of the starters gave: the texts are read as manifests, the sets that
/// they declare are merged in the order of the starters, and each entry
/// of the merged set is written as one line.
pub fn generate_dependency_section(fetched: &Vec<StarterContent>) -> (r: Result<
    String,
    ProjectGeneratingServiceError,
>)
    ensures
        dependency_section_is(fetched@, r),
{
    let starters = match fetched_texts(fetched) {
        Ok(v) => v,
        Err(reason) => {
            return Err(ProjectGeneratingServiceError::CouldNotGetStarterContent(reason));
        },
    };
    let sets = match parse_starters(&starters) {
        Ok(s) => s,
        Err(e) => {
            return Err(e);
        },
    };
    let merged = match merge_starters(&sets) {
        Ok(m) => m,
        Err(e) => {
            return Err(e);
        },
    };
    let r = render_dependency_section(&merged);
    proof {
        let parsed = parsed_declarations(found_texts(fetched@));
        assert(merged_all(parsed) == Some(merged.declarations()));
        lemma_ordered_listing(merged@);
        assert(ordered_listing(merged_all(parsed)->0) == merged@);
    }
    r
}

/// The manifest: the label behind its mark, then the package section,
/// then the dependency section.
pub open spec fn manifest_text(
    label: Seq<char>,
    package: Seq<char>,
    dependencies: Seq<char>,
) -> Seq<char> {
    "#"@ + label + package + dependencies
}

/// Puts the manifest together from its label and its two sections.
pub fn compose_manifest(label: &str, package: &str, dependencies: &str) -> (r: String)
    ensures
        r@ == manifest_text(label@, package@, dependencies@),
{
    let mut out = String::new();
    out.append("#");
    out.append(label);
    out.append(package);
    out.append(dependencies);
    assert(out@ =~= manifest_text(label@, package@, dependencies@));
    out
}

/// Whether `r` is the outcome of rendering the manifest of a request.
///
/// Package metadata that cannot be written fails the rendering; then,
/// where the request names starters, a failure of the dependency section.
/// Where nothing fails, the manifest is the label, the package section
/// and, where the request names starters, the dependency section. The
/// package section is known where each value of the metadata is written
/// as it is.
pub open spec fn manifest_is(
    d: ProjectDescriptionView,
    label: Seq<char>,
    fetched: Seq<StarterContent>,
    r: Result<String, ProjectGeneratingServiceError>,
) -> bool {
    match r {
        Ok(s) => {
            &&& malformed_field(d.package) is None
            &&& all_verbatim(d.package) ==> package_section(d.package) == package_template(
                d.package.name,
                "0.1.0"@,
                description_text(d.package),
                author_text(d.package),
            )
            &&& if d.starters.len() == 0 {
                s@ == manifest_text(label, package_section(d.package), Seq::empty())
            } else {
                &&& section_succeeds(fetched)
                &&& s@ == manifest_text(
                    label,
                    package_section(d.package),
                    dependency_section_text(fetched),
                )
            }
        },
        Err(ProjectGeneratingServiceError::DescriptionSection(DescriptionFault::Malformed(f))) => {
            malformed_field(d.package) == Some(f)
        },
        Err(ProjectGeneratingServiceError::DescriptionSection(DescriptionFault::Builder(_))) => false,
        Err(e) => {
            &&& malformed_field(d.package) is None
            &&& d.starters.len() > 0
            &&& dependency_section_is(fetched, Err(e))
        },
    }
}

/// Renders the manifest of a request: the label, the package section and,
/// where the request names starters, the dependency section of what their
/// lookups gave.
pub fn generate_manifest(
    description: &ProjectDescription,
    label: &str,
    fetched: &Vec<StarterContent>,
) -> (r: Result<String, ProjectGeneratingServiceError>)
    ensures
        manifest_is(description@, label@, fetched@, r),
{
    let package = match generate_package_section(&description.package_description) {
        Ok(s) => s,
        Err(e) => {
            return Err(e);
        },
    };
    if description.starters.len() == 0 {
        let nothing = String::new();
        return Ok(compose_manifest(label, package.as_str(), nothing.as_str()));
    }
    let dependencies = match generate_dependency_section(fetched) {
        Ok(s) => s,
        Err(e) => {
            return Err(e);
        },
    };
    Ok(compose_manifest(label, package.as_str(), dependencies.as_str()))
}

/// Generates a project.
///
/// `existing` holds the names of what the workspace holds already, and
/// `fetched` what the lookup of each starter of the request gave, in the
/// order of the request. The project gets the first identity, of at most
/// `config.max_attempts`, that nothing in the workspace bears, the entry
/// point of its target kind, and the manifest of the request.
///
/// The first failure ends the generation: no free identity, then a
/// failure of the manifest.
pub fn generate(
    description: &ProjectDescription,
    config: &GenerationConfig,
    existing: &Vec<String>,
    fetched: &Vec<StarterContent>,
) -> (r: Result<AssembledProject, ProjectGeneratingServiceError>)
    ensures
        match r {
            Ok(p) => {
                &&& config.max_attempts > 0
                &&& !texts(existing@).contains(p.identity@)
                &&& first_free(
                    p.identity@,
                    description@,
                    texts(existing@),
                    config.max_attempts as int,
                )
                &&& p.entry_point.path@ == entry_point_path(description.target_kind)
                &&& p.entry_point.content@ == entry_point_content(description.target_kind)
                &&& p.manifest.path@ == manifest_path()
                &&& manifest_is(description@, config.label@, fetched@, Ok(p.manifest.content))
            },
            Err(ProjectGeneratingServiceError::IdentityExhausted) => exhausted(
                description@,
                texts(existing@),
                config.max_attempts as int,
            ),
            Err(e) => manifest_is(description@, config.label@, fetched@, Err(e)),
        },
{
    let identity = match get_project_hash(description, existing, config.max_attempts) {
        Ok(id) => id,
        Err(e) => {
            return Err(e);
        },
    };
    let content = match generate_manifest(description, config.label.as_str(), fetched) {
        Ok(s) => s,
        Err(e) => {
            return Err(e);
        },
    };
    Ok(assemble(identity, description.target_kind, content))
}

} // verus!
