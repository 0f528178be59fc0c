//! Rendering the manifest: the package section, and one line for each
//! dependency.

use vstd::prelude::*;
use vstd::string::StringExecFns;
use crate::dependency::{simple_spec, DependencySpec, DependencySpecView};
use crate::dependency_set::{DependencySet, Listing};
use crate::description::{PackageDescription, PackageDescriptionView};
use crate::error::{DescriptionFault, PackageField, ProjectGeneratingServiceError};
use crate::text::{bare_key, escape, escaped, glue, is_bare_key, is_writable, join, joined, opt_text, plain_text, texts, writable};

verus! {

/// The text that `cargo_toml_builder` writes for a manifest with the given
/// name, version, description and single author and nothing else.
pub uninterp spec fn built_package_section(
    name: Seq<char>,
    version: Seq<char>,
    description: Seq<char>,
    author: Seq<char>,
) -> Seq<char>;

/// Whether the builder writes `s` between double quotes as it is: `s` is
/// plain and does not begin with an apostrophe.
pub open spec fn verbatim(s: Seq<char>) -> bool {
    plain_text(s) && (s.len() == 0 || s[0] != '\'')
}

/// The manifest of a package with the given name, version, description
/// and author, each between double quotes, and with no dependency.
pub open spec fn package_template(
    name: Seq<char>,
    version: Seq<char>,
    description: Seq<char>,
    author: Seq<char>,
) -> Seq<char> {
    "\n[package]\nname = \""@ + name + "\"\nversion = \""@ + version + "\"\nauthors = [\""@
        + author + "\"]\ndescription = \""@ + description + "\"\n\n[dependencies]\n"@
}

/// Calls `cargo_toml_builder::CargoToml::builder`, sets the four values,
/// calls `build` and writes the document out as text.
///
/// The builder fails only without a name or an author, and both are set.
/// It panics on a value that it can write in none of the forms of a
/// string; a plain value can be written between double quotes, and a
/// block text between three apostrophes or between three double quotes. The text is a function of the
/// four values alone, which the contract says by naming it. A plain value
/// that does not begin with an apostrophe is written between double
/// quotes as it is, so that for four such values the text is known.
#[verifier::external_body]
fn build_package_section(name: &str, version: &str, description: &str, author: &str) -> (r: Result<
    String,
    cargo_toml_builder::Error,
>)
    requires
        writable(name@),
        writable(version@),
        writable(description@),
        writable(author@),
    ensures
        r is Ok,
        r->Ok_0@ == built_package_section(name@, version@, description@, author@),
        verbatim(name@) && verbatim(version@) && verbatim(description@) && verbatim(author@)
            ==> r->Ok_0@ == package_template(name@, version@, description@, author@),
{
    let document = cargo_toml_builder::CargoToml::builder()
        .name(name)
        .version(version)
        .description(description)
        .author(author)
        .build()?;
    Ok(document.to_string())
}

/// The description that goes into the manifest.
pub open spec fn description_text(p: PackageDescriptionView) -> Seq<char> {
    match p.description {
        Some(t) => t,
        None => "No description"@,
    }
}

/// The author that goes into the manifest.
pub open spec fn author_text(p: PackageDescriptionView) -> Seq<char> {
    match p.author {
        Some(t) => t,
        None => "Unspecified Author"@,
    }
}

/// The first value of the package metadata, if any, that cannot be
/// written as a string of a manifest.
pub open spec fn malformed_field(p: PackageDescriptionView) -> Option<PackageField> {
    if !writable(p.name) {
        Some(PackageField::Name)
    } else if !writable(description_text(p)) {
        Some(PackageField::Description)
    } else if !writable(author_text(p)) {
        Some(PackageField::Author)
    } else {
        None
    }
}

/// The package section of a package, as the manifest builder writes it.
pub open spec fn package_section(p: PackageDescriptionView) -> Seq<char> {
    built_package_section(p.name, "0.1.0"@, description_text(p), author_text(p))
}

/// Whether the builder writes each value of the metadata between double
/// quotes as it is.
pub open spec fn all_verbatim(p: PackageDescriptionView) -> bool {
    verbatim(p.name) && verbatim(description_text(p)) && verbatim(author_text(p))
}

/// Renders the package section of the manifest: the name, the initial
/// version `0.1.0`, the description and the author, with a placeholder
/// for a description or an author that is not given. The section ends
/// with the heading of the dependencies.
///
/// Fails where a value of the metadata cannot be written as a string of a
/// manifest, and only there.
pub fn generate_package_section(package: &PackageDescription) -> (r: Result<
    String,
    ProjectGeneratingServiceError,
>)
    ensures
        match r {
            Ok(s) => {
                &&& malformed_field(package@) is None
                &&& s@ == package_section(package@)
                &&& all_verbatim(package@) ==> s@ == package_template(
                    package@.name,
                    "0.1.0"@,
                    description_text(package@),
                    author_text(package@),
                )
            },
            Err(ProjectGeneratingServiceError::DescriptionSection(DescriptionFault::Malformed(f))) => malformed_field(
                package@,
            ) == Some(f),
            Err(_) => false,
        },
{
    let description: &str = match &package.description {
        Some(t) => t.as_str(),
        None => "No description",
    };
    let author: &str = match &package.author {
        Some(t) => t.as_str(),
        None => "Unspecified Author",
    };
    let version: &str = "0.1.0";
    if !is_writable(package.name.as_str()) {
        return Err(
            ProjectGeneratingServiceError::DescriptionSection(
                DescriptionFault::Malformed(PackageField::Name),
            ),
        );
    }
    if !is_writable(description) {
        return Err(
            ProjectGeneratingServiceError::DescriptionSection(
                DescriptionFault::Malformed(PackageField::Description),
            ),
        );
    }
    if !is_writable(author) {
        return Err(
            ProjectGeneratingServiceError::DescriptionSection(
                DescriptionFault::Malformed(PackageField::Author),
            ),
        );
    }
    proof {
        reveal_strlit("0.1.0");
        assert(verbatim(version@));
    }
    match build_package_section(package.name.as_str(), version, description, author) {
        Ok(s) => Ok(s),
        Err(e) => Err(
            ProjectGeneratingServiceError::DescriptionSection(DescriptionFault::Builder(e)),
        ),
    }
}

/// `s` between double quotes, each character written as such a string
/// takes it.
pub open spec fn quoted(s: Seq<char>) -> Seq<char> {
    "\""@ + escaped(s) + "\""@
}

/// Each of `items` between double quotes.
pub open spec fn quoted_all(items: Seq<Seq<char>>) -> Seq<Seq<char>> {
    Seq::new(items.len(), |i: int| quoted(items[i]))
}

/// `key = value`.
pub open spec fn key_value(key: Seq<char>, value: Seq<char>) -> Seq<char> {
    key + " = "@ + value
}

/// `items`, followed by `key = "value"` where there is a value.
pub open spec fn with_field(items: Seq<Seq<char>>, key: Seq<char>, value: Option<Seq<char>>) -> Seq<
    Seq<char>,
> {
    match value {
        Some(v) => items.push(key_value(key, quoted(v))),
        None => items,
    }
}

/// `items`, followed by `text` where `flag` holds.
pub open spec fn with_flag(items: Seq<Seq<char>>, flag: bool, text: Seq<char>) -> Seq<Seq<char>> {
    if flag {
        items.push(text)
    } else {
        items
    }
}

/// The feature list of a declaration: `["a", "b"]`.
pub open spec fn feature_list(features: Seq<Seq<char>>) -> Seq<char> {
    "["@ + joined(quoted_all(features), ", "@) + "]"@
}

/// The fields of the inline table of a declaration that name where the
/// dependency comes from, in the order in which they are written; each
/// only where the declaration has it.
pub open spec fn source_fields(spec: DependencySpecView) -> Seq<Seq<char>> {
    let a = with_field(Seq::empty(), "version"@, spec.version);
    let b = with_field(a, "registry"@, spec.registry);
    let c = with_field(b, "registry-index"@, spec.registry_index);
    let d = with_field(c, "path"@, spec.path);
    let e = with_field(d, "git"@, spec.git);
    let f = with_field(e, "branch"@, spec.branch);
    let g = with_field(f, "tag"@, spec.tag);
    let h = with_field(g, "rev"@, spec.rev);
    with_field(h, "package"@, spec.package)
}

/// The fields of the inline table of a declaration, in the order in which
/// they are written: those of the source, then the features, then
/// whether it is optional, whether the default features are switched
/// off, and whether it is taken over from the workspace.
pub open spec fn fields(spec: DependencySpecView) -> Seq<Seq<char>> {
    let a = source_fields(spec);
    let b = with_flag(
        a,
        spec.features.len() > 0,
        key_value("features"@, feature_list(spec.features)),
    );
    let c = with_flag(b, spec.optional, "optional = true"@);
    let d = with_flag(c, !spec.default_features, "default-features = false"@);
    with_flag(d, spec.workspace, "workspace = true"@)
}

/// Whether a declaration is a version constraint and nothing else.
pub open spec fn version_only(spec: DependencySpecView) -> bool {
    spec.version is Some && spec == simple_spec(spec.version->0)
}

/// Whether the declaration of `name` can be written as a manifest line:
/// the name needs no quotes, and the declaration says where the
/// dependency comes from: a version, a path, a repository or the
/// workspace.
pub open spec fn renderable(name: Seq<char>, spec: DependencySpecView) -> bool {
    &&& bare_key(name)
    &&& (spec.version is Some || spec.path is Some || spec.git is Some || spec.workspace)
}

/// The manifest line of a declaration: `name = "version"` for a version
/// constraint alone, else `name = { .. }` with the fields of the
/// declaration.
pub open spec fn dependency_line(name: Seq<char>, spec: DependencySpecView) -> Seq<char> {
    if version_only(spec) {
        key_value(name, quoted(spec.version->0))
    } else {
        key_value(name, "{ "@ + joined(fields(spec), ", "@) + " }"@)
    }
}

/// `s` between double quotes.
fn quote(s: &str) -> (r: String)
    ensures
        r@ == quoted(s@),
{
    let inner = escape(s);
    glue("\"", inner.as_str(), "\"")
}

/// Appends `key = "value"` to `items` where there is a value.
fn push_field(items: &mut Vec<String>, key: &str, value: &Option<String>)
    ensures
        texts(final(items)@) == with_field(texts(old(items)@), key@, opt_text(*value)),
{
    let ghost before = texts(items@);
    match value {
        Some(v) => {
            let q = quote(v.as_str());
            let f = glue(key, " = ", q.as_str());
            items.push(f);
            assert(texts(items@) =~= before.push(key_value(key@, quoted(v@))));
        },
        None => {},
    }
}

/// Appends `text` to `items` where `flag` holds.
fn push_flag(items: &mut Vec<String>, flag: bool, text: &str)
    ensures
        texts(final(items)@) == with_flag(texts(old(items)@), flag, text@),
{
    let ghost before = texts(items@);
    if flag {
        items.push(text.to_string());
        assert(texts(items@) =~= before.push(text@));
    }
}

/// Each of `items` between double quotes.
fn quote_all(items: &Vec<String>) -> (r: Vec<String>)
    ensures
        texts(r@) == quoted_all(texts(items@)),
{
    let mut out: Vec<String> = Vec::new();
    let mut i: usize = 0;
    while i < items.len()
        invariant
            i <= items.len(),
            out@.len() == i,
            forall|k: int| 0 <= k < i ==> out@[k]@ == quoted(items@[k]@),
        decreases items.len() - i,
    {
        out.push(quote(items[i].as_str()));
        i += 1;
    }
    assert(texts(out@) =~= quoted_all(texts(items@)));
    out
}

/// Whether a declaration is a version constraint and nothing else.
fn is_version_only(spec: &DependencySpec) -> (r: bool)
    ensures
        r == version_only(spec@),
{
    let r = spec.version.is_some() && spec.features.len() == 0 && !spec.optional
        && spec.default_features && !spec.workspace && spec.registry.is_none()
        && spec.registry_index.is_none() && spec.path.is_none() && spec.git.is_none()
        && spec.branch.is_none() && spec.tag.is_none() && spec.rev.is_none()
        && spec.package.is_none();
    proof {
        assert(spec@.features.len() == spec.features@.len());
        if r {
            assert(spec@.features =~= Seq::<Seq<char>>::empty());
            assert(spec@ == simple_spec(spec@.version->0));
        }
    }
    r
}

/// Renders the manifest line of one dependency.
///
/// Returns `None` where the declaration cannot be written as a line.
pub fn render_dependency(name: &str, spec: &DependencySpec) -> (r: Option<String>)
    ensures
        match r {
            Some(s) => renderable(name@, spec@) && s@ == dependency_line(name@, spec@),
            None => !renderable(name@, spec@),
        },
{
    let sourced = spec.version.is_some() || spec.path.is_some() || spec.git.is_some()
        || spec.workspace;
    if !is_bare_key(name) || !sourced {
        return None;
    }
    let simple = is_version_only(spec);
    match (&spec.version, simple) {
        (Some(v), true) => {
            let q = quote(v.as_str());
            Some(glue(name, " = ", q.as_str()))
        },
        _ => {
            let mut items: Vec<String> = Vec::new();
            assert(texts(items@) =~= Seq::<Seq<char>>::empty());
            push_field(&mut items, "version", &spec.version);
            push_field(&mut items, "registry", &spec.registry);
            push_field(&mut items, "registry-index", &spec.registry_index);
            push_field(&mut items, "path", &spec.path);
            push_field(&mut items, "git", &spec.git);
            push_field(&mut items, "branch", &spec.branch);
            push_field(&mut items, "tag", &spec.tag);
            push_field(&mut items, "rev", &spec.rev);
            push_field(&mut items, "package", &spec.package);
            let quoted_features = quote_all(&spec.features);
            let list = join(&quoted_features, ", ");
            let bracketed = glue("[", list.as_str(), "]");
            let features = glue("features", " = ", bracketed.as_str());
            push_flag(&mut items, spec.features.len() > 0, features.as_str());
            push_flag(&mut items, spec.optional, "optional = true");
            push_flag(&mut items, !spec.default_features, "default-features = false");
            push_flag(&mut items, spec.workspace, "workspace = true");
            let body = join(&items, ", ");
            let table = glue("{ ", body.as_str(), " }");
            Some(glue(name, " = ", table.as_str()))
        },
    }
}

/// The dependency section: the lines of the entries of `l`, in order,
/// each closed by a line break.
pub open spec fn section_text(l: Listing) -> Seq<char>
    decreases l.len(),
{
    if l.len() == 0 {
        Seq::empty()
    } else {
        section_text(l.drop_last()) + dependency_line(l.last().0, l.last().1) + "\n"@
    }
}

/// Whether each entry of `l` can be written as a manifest line.
pub open spec fn all_renderable(l: Listing) -> bool {
    forall|i: int| 0 <= i < l.len() ==> renderable((#[trigger] l[i]).0, l[i].1)
}

/// Renders the dependency section of the manifest: one line for each
/// entry of `set`, in the order of the names.
///
/// Fails on the first entry, in that order, that cannot be written as a
/// line, and names it; nothing of the section is handed out then.
pub fn render_dependency_section(set: &DependencySet) -> (r: Result<
    String,
    ProjectGeneratingServiceError,
>)
    ensures
        match r {
            Ok(s) => all_renderable(set@) && s@ == section_text(set@),
            Err(ProjectGeneratingServiceError::DependencySection(name)) => exists|i: int|
                {
                    &&& 0 <= i < set@.len()
                    &&& (#[trigger] set@[i]).0 == name@
                    &&& !renderable(set@[i].0, set@[i].1)
                    &&& all_renderable(set@.take(i))
                },
            Err(_) => false,
        },
{
    let mut out = String::new();
    let mut i: usize = 0;
    let n = set.len();
    assert(set@.take(0) =~= Seq::<(Seq<char>, DependencySpecView)>::empty());
    while i < n
        invariant
            i <= n,
            n == set@.len(),
            all_renderable(set@.take(i as int)),
            out@ == section_text(set@.take(i as int)),
        decreases n - i,
    {
        let e = set.entry(i);
        proof {
            assert(set@.take(i as int + 1).drop_last() =~= set@.take(i as int));
            assert(set@.take(i as int + 1).last() == set@[i as int]);
        }
        match render_dependency(e.name.as_str(), &e.spec) {
            Some(line) => {
                out.append(line.as_str());
                out.append("\n");
                proof {
                    let t = set@.take(i as int + 1);
                    assert forall|k: int| 0 <= k < t.len() implies renderable(
                        (#[trigger] t[k]).0,
                        t[k].1,
                    ) by {
                        if k < i {
                            assert(set@.take(i as int)[k] == t[k]);
                        }
                    }
                    assert(out@ =~= section_text(t));
                }
            },
            None => {
                return Err(ProjectGeneratingServiceError::DependencySection(e.name.clone()));
            },
        }
        i += 1;
    }
    assert(set@.take(n as int) =~= set@);
    Ok(out)
}

} // verus!
