//! The errors of the library, one variant per kind of failure.

use vstd::prelude::*;
use crate::manifest::BuildSystem;
use crate::text::{push_str, string_from};

verus! {

/// Why an operation failed.
#[derive(Clone, Debug, PartialEq, Eq)]
pub enum VersionError {
    /// The named file (a file name relative to the project root) is absent.
    MissingFile(String),
    /// The text (trimmed) is not a semantic version.
    InvalidVersionFormat(String),
    /// The file named first holds the text named second where a version belongs.
    InvalidVersionInFile(String, String),
    /// The manifest is not valid TOML or JSON.
    ManifestParseError(BuildSystem),
    /// The manifest is well formed but has no version string where one belongs.
    VersionFieldMissing(BuildSystem),
    /// No quoted `version = "..."` assignment in the named TOML section.
    SectionVersionMissing(String),
    /// The root of package.json is not a JSON object.
    NotAnObject,
    /// One line per manifest that differs from the canonical version or cannot be read.
    VersionMismatch(Vec<String>),
    /// The bumped component would not fit in 64 bits.
    VersionOverflow,
    /// A canonical version file below the root, at this path.
    NestedCanonicalFile(String),
    /// A symbolic link at this path.
    SymlinkNotSupported(String),
    /// A release candidate was asked of a version that already has a pre-release.
    CleanVersionRequired,
    /// The version-control query failed; its diagnostic.
    VcsQueryError(String),
}

/// Each line preceded by a newline.
pub open spec fn lines_text(lines: Seq<String>) -> Seq<char>
    decreases lines.len(),
{
    if lines.len() == 0 {
        Seq::empty()
    } else {
        lines_text(lines.drop_last()) + "\n"@ + lines.last()@
    }
}

/// The section name of a TOML manifest as the messages show it.
pub open spec fn section_note(b: BuildSystem) -> Seq<char> {
    match b {
        BuildSystem::Cargo => " [package] section"@,
        BuildSystem::PyProject => " [project] section"@,
        BuildSystem::PackageJson => Seq::empty(),
    }
}

impl VersionError {
    /// The text of `message`.
    pub open spec fn message_spec(&self) -> Seq<char> {
        match self {
            VersionError::MissingFile(f) => "Failed to read "@ + f@ + ": file not found"@,
            VersionError::InvalidVersionFormat(t) => "Invalid semantic version format: '"@ + t@ + "'"@,
            VersionError::InvalidVersionInFile(f, t) => "Invalid version format in "@ + f@ + ": "@ + t@,
            VersionError::ManifestParseError(b) => "Failed to parse "@ + b.file_name_spec(),
            VersionError::VersionFieldMissing(b) => "No version found in "@ + b.file_name_spec()
                + section_note(*b),
            VersionError::SectionVersionMissing(sec) => "No version field found in ["@ + sec@
                + "] section"@,
            VersionError::NotAnObject => "package.json root is not a JSON object"@,
            VersionError::VersionMismatch(lines) => "Version files are not synchronized:"@
                + lines_text(lines@) + "\n\nRun 'versioneer sync' to synchronize all version files."@,
            VersionError::VersionOverflow => "The bumped version component does not fit in 64 bits"@,
            VersionError::NestedCanonicalFile(p) => "Nested VERSION file found at "@ + p@
                + ": only one at the project root is allowed"@,
            VersionError::SymlinkNotSupported(p) => "Symbolic links are not supported: "@ + p@,
            VersionError::CleanVersionRequired => "The current version already has a pre-release suffix; a release candidate needs a clean version"@,
            VersionError::VcsQueryError(d) => "Version-control query failed: "@ + d@,
        }
    }

    /// A one-paragraph description for people.
    pub fn message(&self) -> (r: String)
        ensures
            r@ == self.message_spec(),
    {
        let mut m: Vec<char> = Vec::new();
        match self {
            VersionError::MissingFile(f) => {
                push_str(&mut m, "Failed to read ");
                push_str(&mut m, f.as_str());
                push_str(&mut m, ": file not found");
            },
            VersionError::InvalidVersionFormat(t) => {
                push_str(&mut m, "Invalid semantic version format: '");
                push_str(&mut m, t.as_str());
                push_str(&mut m, "'");
            },
            VersionError::InvalidVersionInFile(f, t) => {
                push_str(&mut m, "Invalid version format in ");
                push_str(&mut m, f.as_str());
                push_str(&mut m, ": ");
                push_str(&mut m, t.as_str());
            },
            VersionError::ManifestParseError(b) => {
                push_str(&mut m, "Failed to parse ");
                push_str(&mut m, b.file_name());
            },
            VersionError::VersionFieldMissing(b) => {
                push_str(&mut m, "No version found in ");
                push_str(&mut m, b.file_name());
                match b {
                    BuildSystem::Cargo => push_str(&mut m, " [package] section"),
                    BuildSystem::PyProject => push_str(&mut m, " [project] section"),
                    BuildSystem::PackageJson => {
                        assert(m@ =~= m@ + Seq::<char>::empty());
                    },
                }
            },
            VersionError::SectionVersionMissing(s) => {
                push_str(&mut m, "No version field found in [");
                push_str(&mut m, s.as_str());
                push_str(&mut m, "] section");
            },
            VersionError::NotAnObject => {
                push_str(&mut m, "package.json root is not a JSON object");
            },
            VersionError::VersionMismatch(lines) => {
                push_str(&mut m, "Version files are not synchronized:");
                let ghost head = m@;
                let mut i: usize = 0;
                while i < lines.len()
                    invariant
                        i <= lines@.len(),
                        m@ == head + lines_text(lines@.subrange(0, i as int)),
                    decreases lines@.len() - i,
                {
                    push_str(&mut m, "\n");
                    push_str(&mut m, lines[i].as_str());
                    i = i + 1;
                    assert(lines@.subrange(0, i as int).drop_last() == lines@.subrange(0, i - 1));
                }
                assert(lines@.subrange(0, i as int) == lines@);
                push_str(&mut m, "\n\nRun 'versioneer sync' to synchronize all version files.");
            },
            VersionError::VersionOverflow => {
                push_str(&mut m, "The bumped version component does not fit in 64 bits");
            },
            VersionError::NestedCanonicalFile(p) => {
                push_str(&mut m, "Nested VERSION file found at ");
                push_str(&mut m, p.as_str());
                push_str(&mut m, ": only one at the project root is allowed");
            },
            VersionError::SymlinkNotSupported(p) => {
                push_str(&mut m, "Symbolic links are not supported: ");
                push_str(&mut m, p.as_str());
            },
            VersionError::CleanVersionRequired => {
                push_str(
                    &mut m,
                    "The current version already has a pre-release suffix; a release candidate needs a clean version",
                );
            },
            VersionError::VcsQueryError(d) => {
                push_str(&mut m, "Version-control query failed: ");
                push_str(&mut m, d.as_str());
            },
        }
        string_from(m.as_slice())
    }
}

} // verus!
