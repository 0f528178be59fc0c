//! The file tree of a generated project.

use vstd::prelude::*;
use crate::description::TargetKind;

verus! {

/// One file of the project: its path below the project's directory, and
/// its content.
#[derive(Debug)]
pub struct ProjectFile {
    /// The path, with `/` between its parts.
    pub path: String,
    /// The content.
    pub content: String,
}

/// A project as it is to be written: a directory that bears the identity
/// of the generation and holds the manifest and the entry point.
#[derive(Debug)]
pub struct AssembledProject {
    /// The identity, which names the directory.
    pub identity: String,
    /// The source file that the target is built from.
    pub entry_point: ProjectFile,
    /// The manifest.
    pub manifest: ProjectFile,
}

/// The path of the manifest.
pub open spec fn manifest_path() -> Seq<char> {
    "Cargo.toml"@
}

/// The path of the entry point of a target.
pub open spec fn entry_point_path(kind: TargetKind) -> Seq<char> {
    match kind {
        TargetKind::Bin => "src/main.rs"@,
        TargetKind::Lib => "src/lib.rs"@,
    }
}

/// The content of the entry point of a target: a program that prints a
/// greeting, or a library of one function with its test.
pub open spec fn entry_point_content(kind: TargetKind) -> Seq<char> {
    match kind {
        TargetKind::Bin => "fn main() {\n    println!(\"Hello, world!\");\n}"@,
        TargetKind::Lib => "pub fn add(left: usize, right: usize) -> usize {\n    left + right\n}\n\n#[cfg(test)]\nmod tests {\n    use super::*;\n\n    #[test]\n    fn it_works() {\n        let result = add(2, 2);\n        assert_eq!(result, 4);\n    }\n}\n"@,
    }
}

/// The entry point of a target.
pub fn entry_point(kind: TargetKind) -> (r: ProjectFile)
    ensures
        r.path@ == entry_point_path(kind),
        r.content@ == entry_point_content(kind),
{
    match kind {
        TargetKind::Bin => ProjectFile {
            path: "src/main.rs".to_string(),
            content: "fn main() {\n    println!(\"Hello, world!\");\n}".to_string(),
        },
        TargetKind::Lib => ProjectFile {
            path: "src/lib.rs".to_string(),
            content: "pub fn add(left: usize, right: usize) -> usize {\n    left + right\n}\n\n#[cfg(test)]\nmod tests {\n    use super::*;\n\n    #[test]\n    fn it_works() {\n        let result = add(2, 2);\n        assert_eq!(result, 4);\n    }\n}\n".to_string(),
        },
    }
}

/// The entry point of a program and that of a library differ, in path and
/// in content.
pub proof fn lemma_entry_points_differ()
    ensures
        entry_point_content(TargetKind::Bin) != entry_point_content(TargetKind::Lib),
        entry_point_path(TargetKind::Bin) != entry_point_path(TargetKind::Lib),
{
    reveal_strlit("fn main() {\n    println!(\"Hello, world!\");\n}");
    reveal_strlit(
        "pub fn add(left: usize, right: usize) -> usize {\n    left + right\n}\n\n#[cfg(test)]\nmod tests {\n    use super::*;\n\n    #[test]\n    fn it_works() {\n        let result = add(2, 2);\n        assert_eq!(result, 4);\n    }\n}\n",
    );
    reveal_strlit("src/main.rs");
    reveal_strlit("src/lib.rs");
    assert(entry_point_content(TargetKind::Bin)[0] == 'f');
    assert(entry_point_content(TargetKind::Lib)[0] == 'p');
    assert(entry_point_path(TargetKind::Bin).len() == 11);
    assert(entry_point_path(TargetKind::Lib).len() == 10);
}

/// Puts a project together: the directory named by `identity`, with the
/// entry point of the target and a manifest of the given content.
pub fn assemble(identity: String, kind: TargetKind, manifest_content: String) -> (r:
    AssembledProject)
    ensures
        r.identity@ == identity@,
        r.entry_point.path@ == entry_point_path(kind),
        r.entry_point.content@ == entry_point_content(kind),
        r.manifest.path@ == manifest_path(),
        r.manifest.content@ == manifest_content@,
{
    AssembledProject {
        identity,
        entry_point: entry_point(kind),
        manifest: ProjectFile { path: "Cargo.toml".to_string(), content: manifest_content },
    }
}

} // verus!
