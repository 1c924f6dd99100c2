//! Semantic-release engine: inspects a commit history, classifies each commit
//! by the conventional-commit convention, and derives the next semantic
//! version, a changelog and release notes.
//!
//! The library works on a plain-value model of the repository: commits,
//! release tags and the project's current version. All repository and file
//! I/O lives outside it.
use vstd::prelude::*;

pub mod changelog;
pub mod classify;
pub mod history;
pub mod languages;
pub mod notes;
pub mod release;
pub mod version;

verus! {

/// The closed error taxonomy the engine surfaces to its caller.
#[derive(Clone, Copy, Debug, PartialEq, Eq, Structural)]
pub enum SemanticError {
    BumpError,
    VersionError,
    NotesError,
    ChangelogError,
    ReleaseError,
    IOError,
}

/// The result of a whole command.
pub type SemanticResult = Result<(), SemanticError>;

/// Severity of the version increment implied by a set of commits, in
/// ascending order: `Nothing < Prerelease < Patch < Minor < Major`.
#[derive(Clone, Copy, Debug, PartialEq, Eq, Structural)]
pub enum Bump {
    Nothing,
    Prerelease,
    Patch,
    Minor,
    Major,
}

/// Numeric severity of a bump; the order on `Bump` is the order of levels.
pub open spec fn bump_level(b: Bump) -> int {
    match b {
        Bump::Nothing => 0,
        Bump::Prerelease => 1,
        Bump::Patch => 2,
        Bump::Minor => 3,
        Bump::Major => 4,
    }
}

/// The louder of two bumps; `Bump::Nothing` is its identity element.
pub open spec fn bump_max(a: Bump, b: Bump) -> Bump {
    if bump_level(b) > bump_level(a) {
        b
    } else {
        a
    }
}

/// Lowercase name of a bump level, as the bump command reports it.
pub open spec fn bump_label(b: Bump) -> Seq<char> {
    match b {
        Bump::Nothing => "none"@,
        Bump::Prerelease => "prerelease"@,
        Bump::Patch => "patch"@,
        Bump::Minor => "minor"@,
        Bump::Major => "major"@,
    }
}

impl Bump {
    /// Numeric severity, usable from executable code.
    pub fn level(&self) -> (n: u8)
        ensures
            n as int == bump_level(*self),
    {
        match self {
            Bump::Nothing => 0,
            Bump::Prerelease => 1,
            Bump::Patch => 2,
            Bump::Minor => 3,
            Bump::Major => 4,
        }
    }

    /// Lowercase name of the level.
    pub fn label(&self) -> (s: String)
        ensures
            s@ == bump_label(*self),
    {
        match self {
            Bump::Nothing => String::from_str("none"),
            Bump::Prerelease => String::from_str("prerelease"),
            Bump::Patch => String::from_str("patch"),
            Bump::Minor => String::from_str("minor"),
            Bump::Major => String::from_str("major"),
        }
    }
}

} // verus!
