//! The errors of project generation.

use vstd::prelude::*;
use crate::dependency::ConflictKind;
use crate::text::opt_text;

verus! {

/// The error type of `cargo_toml`, as an opaque value.
#[verifier::external_type_specification]
#[verifier::external_body]
pub struct ExManifestParseError(cargo_toml::Error);

/// The error type of `cargo_toml_builder`, as an opaque value.
#[verifier::external_type_specification]
#[verifier::external_body]
pub struct ExManifestBuildError(cargo_toml_builder::Error);

/// Two starters declare one dependency in ways that cannot be combined.
#[derive(Debug)]
pub struct DependencyConflict {
    /// The name of the dependency.
    pub name: String,
    /// In what the two declarations disagree.
    pub kind: ConflictKind,
    /// The version constraint of the earlier declaration.
    pub left: Option<String>,
    /// The version constraint of the later declaration.
    pub right: Option<String>,
}

/// The mathematical content of a [`DependencyConflict`].
pub ghost struct DependencyConflictView {
    pub name: Seq<char>,
    pub kind: ConflictKind,
    pub left: Option<Seq<char>>,
    pub right: Option<Seq<char>>,
}

impl View for DependencyConflict {
    type V = DependencyConflictView;

    open spec fn view(&self) -> DependencyConflictView {
        DependencyConflictView {
            name: self.name@,
            kind: self.kind,
            left: opt_text(self.left),
            right: opt_text(self.right),
        }
    }
}

/// A value of the package metadata.
#[derive(Clone, Copy, Debug, PartialEq, Eq, Structural)]
pub enum PackageField {
    /// The package name.
    Name,
    /// The description.
    Description,
    /// The author.
    Author,
}

/// Why the package section could not be built.
#[derive(Debug)]
pub enum DescriptionFault {
    /// This value holds a character that cannot be written between double
    /// quotes as it is.
    Malformed(PackageField),
    /// The manifest builder refused the metadata.
    Builder(cargo_toml_builder::Error),
}

/// Why a project could not be generated.
#[derive(Debug)]
pub enum ProjectGeneratingServiceError {
    /// The package section could not be built.
    DescriptionSection(DescriptionFault),
    /// The dependency of this name cannot be written as a manifest line.
    DependencySection(String),
    /// Two starters declare one dependency in ways that cannot be combined.
    DependencyConflict(DependencyConflict),
    /// The starter of this name could not be fetched.
    CouldNotGetStarterContent(String),
    /// The text of a starter is not a manifest.
    CouldNotParseStarterManifest(cargo_toml::Error),
    /// Every identity that was tried names a directory that exists already.
    IdentityExhausted,
}

} // verus!
