//! What a caller asks for: the package, the kind of target and the starters.

use vstd::prelude::*;
use crate::text::{opt_text, texts};

verus! {

/// What the generated project builds into.
#[derive(Clone, Copy, Debug, PartialEq, Eq, Structural, Hash)]
pub enum TargetKind {
    /// A runnable program.
    Bin,
    /// A library.
    Lib,
}

/// The package metadata of the project.
#[derive(Debug)]
pub struct PackageDescription {
    /// The package name.
    pub name: String,
    /// What the package is for, if the caller says so.
    pub description: Option<String>,
    /// Who wrote it, if the caller says so.
    pub author: Option<String>,
}

/// The mathematical content of a [`PackageDescription`].
pub ghost struct PackageDescriptionView {
    pub name: Seq<char>,
    pub description: Option<Seq<char>>,
    pub author: Option<Seq<char>>,
}

impl View for PackageDescription {
    type V = PackageDescriptionView;

    open spec fn view(&self) -> PackageDescriptionView {
        PackageDescriptionView {
            name: self.name@,
            description: opt_text(self.description),
            author: opt_text(self.author),
        }
    }
}

/// A request for one project.
#[derive(Debug)]
pub struct ProjectDescription {
    /// The package metadata.
    pub package_description: PackageDescription,
    /// Whether a program or a library is asked for.
    pub target_kind: TargetKind,
    /// The names of the starters, in the order of the request; a name may
    /// occur more than once.
    pub starters: Vec<String>,
}

/// The mathematical content of a [`ProjectDescription`].
pub ghost struct ProjectDescriptionView {
    pub package: PackageDescriptionView,
    pub target_kind: TargetKind,
    pub starters: Seq<Seq<char>>,
}

impl View for ProjectDescription {
    type V = ProjectDescriptionView;

    open spec fn view(&self) -> ProjectDescriptionView {
        ProjectDescriptionView {
            package: self.package_description@,
            target_kind: self.target_kind,
            starters: texts(self.starters@),
        }
    }
}

} // verus!
