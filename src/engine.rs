//! The synchronization engine for the files at a project root.
//!
//! Every operation takes a snapshot of the root's files ([`RootFiles`]) and,
//! where it changes something, returns the snapshot that should be written
//! back. An operation that fails changes nothing.

use vstd::prelude::*;
use crate::canonical::{canonical_content, canonical_text, read_canonical, version_part};
use crate::error::VersionError;
use crate::manifest::BuildSystem;
use crate::text::{chars_of, push_str, string_from, trim};
use crate::version::{bumped, can_bump, parse_spec, render_of, same_precedence, BumpType, Parts, Version};

verus! {

/// The contents of the canonical `VERSION` file and of the three manifests at
/// a project root; `None` for a file that is absent.
#[derive(Clone, Debug)]
pub struct RootFiles {
    pub version_file: Option<String>,
    pub cargo: Option<String>,
    pub pyproject: Option<String>,
    pub package_json: Option<String>,
}

pub open spec fn opt_view(o: Option<String>) -> Option<Seq<char>> {
    match o {
        Some(s) => Some(s@),
        None => None,
    }
}

impl RootFiles {
    /// The manifest of kind `b`, where present.
    pub open spec fn contents(&self, b: BuildSystem) -> Option<Seq<char>> {
        match b {
            BuildSystem::Cargo => opt_view(self.cargo),
            BuildSystem::PyProject => opt_view(self.pyproject),
            BuildSystem::PackageJson => opt_view(self.package_json),
        }
    }

    /// The canonical version as its file declares it, where that parses.
    pub open spec fn canonical(&self) -> Option<Parts> {
        match self.version_file {
            Some(c) => parse_spec(version_part(c@)),
            None => None,
        }
    }

    /// The canonical version's text (trimmed, without comment), where it parses.
    pub open spec fn canonical_value(&self) -> Option<Seq<char>> {
        match self.version_file {
            Some(c) => if parse_spec(version_part(c@)) is Some {
                Some(trim(version_part(c@)))
            } else {
                None
            },
            None => None,
        }
    }

    /// The version that the manifest of kind `b` declares, where present and valid.
    pub open spec fn declared(&self, b: BuildSystem) -> Option<Parts> {
        match self.contents(b) {
            Some(c) => match b.field(c) {
                Some(Some(t)) => parse_spec(t),
                _ => None,
            },
            None => None,
        }
    }

    /// Every manifest present declares a valid version equal to `v`.
    pub open spec fn in_sync_with(&self, v: Parts) -> bool {
        forall|b: BuildSystem| #[trigger] self.contents(b) is Some ==> (self.declared(b) matches Some(
            p,
        ) && same_precedence(p, v))
    }

    /// Every manifest present can take the rendered version `value`.
    pub open spec fn writable(&self, value: Seq<char>) -> bool {
        forall|b: BuildSystem| #[trigger] self.contents(b) matches Some(c) ==> b.updated(
            c,
            value,
        ) is Some
    }

    /// `n` holds the manifests of `self` set to `value`, and no others.
    pub open spec fn manifests_written(&self, value: Seq<char>, n: &RootFiles) -> bool {
        forall|b: BuildSystem| #[trigger]
            n.contents(b) == match self.contents(b) {
                Some(c) => b.updated(c, value),
                None => None,
            }
    }

    /// The manifest of kind `b`, where present.
    pub fn manifest(&self, b: BuildSystem) -> (r: Option<&String>)
        ensures
            match r {
                Some(s) => self.contents(b) == Some(s@),
                None => self.contents(b) is None,
            },
    {
        match b {
            BuildSystem::Cargo => self.cargo.as_ref(),
            BuildSystem::PyProject => self.pyproject.as_ref(),
            BuildSystem::PackageJson => self.package_json.as_ref(),
        }
    }
}

/// The kinds of manifest present, in the order Cargo, PyProject, PackageJson.
pub open spec fn detected(files: &RootFiles) -> Seq<BuildSystem> {
    (if files.cargo is Some {
        seq![BuildSystem::Cargo]
    } else {
        Seq::empty()
    }) + (if files.pyproject is Some {
        seq![BuildSystem::PyProject]
    } else {
        Seq::empty()
    }) + (if files.package_json is Some {
        seq![BuildSystem::PackageJson]
    } else {
        Seq::empty()
    })
}

/// The kinds of manifest present whose version is missing, invalid or not
/// equal to `v`, in the order of `detected`.
pub open spec fn offending(files: &RootFiles, v: Parts) -> Seq<BuildSystem> {
    (if offends(files, BuildSystem::Cargo, v) {
        seq![BuildSystem::Cargo]
    } else {
        Seq::empty()
    }) + (if offends(files, BuildSystem::PyProject, v) {
        seq![BuildSystem::PyProject]
    } else {
        Seq::empty()
    }) + (if offends(files, BuildSystem::PackageJson, v) {
        seq![BuildSystem::PackageJson]
    } else {
        Seq::empty()
    })
}

/// The manifest of kind `b` is present and does not declare `v`.
pub open spec fn offends(files: &RootFiles, b: BuildSystem, v: Parts) -> bool {
    files.contents(b) is Some && !(files.declared(b) matches Some(p) && same_precedence(p, v))
}

/// The present canonical file, or nothing.
pub open spec fn old_canonical(files: &RootFiles) -> Seq<char> {
    match files.version_file {
        Some(c) => c@,
        None => Seq::empty(),
    }
}

/// `n` is `files` with the canonical file replaced by `canonical` and every
/// manifest set to the rendered version `value`.
pub open spec fn rewritten(files: &RootFiles, canonical: Seq<char>, value: Seq<char>, n: &RootFiles) -> bool {
    &&& files.writable(value)
    &&& files.manifests_written(value, n)
    &&& n.version_file matches Some(c) && c@ == canonical
}

/// Core version management functionality
pub struct VersionManager {
    /// The project root that the snapshots come from
    pub base_path: String,
}

impl VersionManager {
    /// Create a new `VersionManager` for the given directory
    pub fn new(base_path: &str) -> (r: VersionManager)
        ensures
            r.base_path@ == base_path@,
    {
        VersionManager { base_path: string_from(chars_of(base_path).as_slice()) }
    }

    /// Read the current version from the VERSION file
    pub fn read_version_file(&self, files: &RootFiles) -> (r: Result<Version, VersionError>)
        ensures
            match files.version_file {
                None => r matches Err(VersionError::MissingFile(f)) && f@ == "VERSION"@,
                Some(c) => match files.canonical() {
                    Some(p) => r matches Ok(v) && v.parts() == p && v.wf() && Some(v.render())
                        == files.canonical_value(),
                    None => r matches Err(VersionError::InvalidVersionInFile(_, _)),
                },
            },
    {
        match &files.version_file {
            None => Err(VersionError::MissingFile("VERSION".to_string())),
            Some(c) => read_canonical(c.as_str()),
        }
    }

    /// The new VERSION file for `version`, keeping the comment of the present one
    pub fn write_version_file(&self, files: &RootFiles, version: &Version) -> (r: String)
        ensures
            r@ == canonical_text(
                match files.version_file {
                    Some(c) => c@,
                    None => Seq::empty(),
                },
                version.render(),
            ),
    {
        match &files.version_file {
            Some(c) => canonical_content(c.as_str(), version),
            None => {
                proof {
                    reveal_strlit("");
                }
                assert(""@ =~= Seq::<char>::empty());
                canonical_content("", version)
            },
        }
    }

    /// Detect which build system files are present
    pub fn detect_build_systems(&self, files: &RootFiles) -> (r: Vec<BuildSystem>)
        ensures
            r@ == detected(files),
    {
        let mut systems: Vec<BuildSystem> = Vec::new();
        if files.cargo.is_some() {
            systems.push(BuildSystem::Cargo);
        }
        if files.pyproject.is_some() {
            systems.push(BuildSystem::PyProject);
        }
        if files.package_json.is_some() {
            systems.push(BuildSystem::PackageJson);
        }
        assert(systems@ == detected(files));
        systems
    }

    /// Adds a line to `lines` where the manifest of kind `b` is present and
    /// does not declare `cv`.
    fn check_one(
        &self,
        files: &RootFiles,
        b: BuildSystem,
        cv: &Version,
        lines: &mut Vec<String>,
    )
        ensures
            if offends(files, b, cv.parts()) {
                final(lines)@.len() == old(lines)@.len() + 1
            } else {
                final(lines)@ == old(lines)@
            },
    {
        if files.manifest(b).is_none() {
            return;
        }
        match self.read_build_system_version(files, &b) {
            Ok(v) => {
                if !v.same_precedence_as(cv) {
                    let mut m: Vec<char> = Vec::new();
                    push_str(&mut m, b.name());
                    push_str(&mut m, " has version ");
                    push_str(&mut m, v.to_string().as_str());
                    push_str(&mut m, " but VERSION file has ");
                    push_str(&mut m, cv.to_string().as_str());
                    lines.push(string_from(m.as_slice()));
                }
            },
            Err(e) => {
                let mut m: Vec<char> = Vec::new();
                push_str(&mut m, "Failed to read ");
                push_str(&mut m, b.name());
                push_str(&mut m, " version: ");
                push_str(&mut m, e.message().as_str());
                lines.push(string_from(m.as_slice()));
            },
        }
    }

    /// Verify that all version files are synchronized
    ///
    /// Fails where the canonical version cannot be read, and otherwise with
    /// one line for each manifest that is unreadable or declares another
    /// version (build metadata aside).
    pub fn verify_versions_in_sync(&self, files: &RootFiles) -> (r: Result<(), VersionError>)
        ensures
            match files.canonical() {
                None => r is Err && !(r matches Err(VersionError::VersionMismatch(_))),
                Some(cv) => (r is Ok <==> files.in_sync_with(cv)) && (r matches Err(e) ==> (
                e matches VersionError::VersionMismatch(lines) && lines@.len() == offending(
                    files,
                    cv,
                ).len())),
            },
    {
        let cv = match self.read_version_file(files) {
            Ok(v) => v,
            Err(e) => {
                return Err(e);
            },
        };
        let ghost p = cv.parts();
        let mut lines: Vec<String> = Vec::new();
        self.check_one(files, BuildSystem::Cargo, &cv, &mut lines);
        self.check_one(files, BuildSystem::PyProject, &cv, &mut lines);
        self.check_one(files, BuildSystem::PackageJson, &cv, &mut lines);
        if lines.len() > 0 {
            assert(offends(files, BuildSystem::Cargo, p) || offends(files, BuildSystem::PyProject, p)
                || offends(files, BuildSystem::PackageJson, p));
            Err(VersionError::VersionMismatch(lines))
        } else {
            assert forall|b: BuildSystem| #[trigger] files.contents(b) is Some implies (files.declared(b) matches Some(q) && same_precedence(q, p)) by {
                match b {
                    BuildSystem::Cargo => {},
                    BuildSystem::PyProject => {},
                    BuildSystem::PackageJson => {},
                }
            }
            Ok(())
        }
    }

    /// Sets every manifest present to `version`; the canonical file becomes
    /// `canonical`.
    fn write_all(&self, files: &RootFiles, canonical: Option<String>, version: &Version) -> (r:
        Result<RootFiles, VersionError>)
        ensures
            match r {
                Ok(n) => files.writable(version.render()) && files.manifests_written(
                    version.render(),
                    &n,
                ) && n.version_file == canonical,
                Err(_) => !files.writable(version.render()),
            },
    {
        let ghost t = version.render();
        let cargo = match files.manifest(BuildSystem::Cargo) {
            None => None,
            Some(c) => match BuildSystem::Cargo.update_version(c.as_str(), version) {
                Ok(u) => Some(u),
                Err(e) => {
                    assert(files.contents(BuildSystem::Cargo) is Some);
                    return Err(e);
                },
            },
        };
        let pyproject = match files.manifest(BuildSystem::PyProject) {
            None => None,
            Some(c) => match BuildSystem::PyProject.update_version(c.as_str(), version) {
                Ok(u) => Some(u),
                Err(e) => {
                    assert(files.contents(BuildSystem::PyProject) is Some);
                    return Err(e);
                },
            },
        };
        let package_json = match files.manifest(BuildSystem::PackageJson) {
            None => None,
            Some(c) => match BuildSystem::PackageJson.update_version(c.as_str(), version) {
                Ok(u) => Some(u),
                Err(e) => {
                    assert(files.contents(BuildSystem::PackageJson) is Some);
                    return Err(e);
                },
            },
        };
        let n = RootFiles { version_file: canonical, cargo, pyproject, package_json };
        assert forall|b: BuildSystem| #[trigger] files.contents(b) is Some implies b.updated(
            files.contents(b)->0,
            t,
        ) is Some by {
            match b {
                BuildSystem::Cargo => {},
                BuildSystem::PyProject => {},
                BuildSystem::PackageJson => {},
            }
        }
        assert forall|b: BuildSystem| #[trigger]
            n.contents(b) == match files.contents(b) {
                Some(c) => b.updated(c, t),
                None => None,
            } by {
            match b {
                BuildSystem::Cargo => {},
                BuildSystem::PyProject => {},
                BuildSystem::PackageJson => {},
            }
        }
        Ok(n)
    }

    /// Synchronize all version files to match the VERSION file
    ///
    /// The canonical file stays as it is; every manifest present takes its
    /// version.
    pub fn sync_versions(&self, files: &RootFiles) -> (r: Result<RootFiles, VersionError>)
        ensures
            match files.canonical_value() {
                None => r is Err,
                Some(t) => match r {
                    Ok(n) => files.writable(t) && files.manifests_written(t, &n) && n.version_file
                        == files.version_file,
                    Err(_) => !files.writable(t),
                },
            },
            // A second sync leaves every TOML manifest as this one wrote it.
            r matches Ok(n) ==> n.canonical_value() == files.canonical_value() && forall|
                b: BuildSystem,
            |
                b != BuildSystem::PackageJson && #[trigger] n.contents(b) is Some ==> b.updated(
                    n.contents(b)->0,
                    files.canonical_value()->0,
                ) == n.contents(b),
    {
        let version = match self.read_version_file(files) {
            Ok(v) => v,
            Err(e) => {
                return Err(e);
            },
        };
        let canonical = match &files.version_file {
            Some(c) => Some(c.clone()),
            None => None,
        };
        let r = self.write_all(files, canonical, &version);
        proof {
            if r is Ok {
                let n = r->Ok_0;
                let t = version.render();
                crate::version::lemma_render_plain(&version);
                reveal_strlit("package");
                reveal_strlit("project");
                assert forall|b: BuildSystem|
                    b != BuildSystem::PackageJson && #[trigger] n.contents(b) is Some implies b.updated(
                    n.contents(b)->0,
                    t,
                ) == n.contents(b) by {
                    let sec = b.section_spec();
                    assert(forall|i: int| 0 <= i < sec.len() ==> #[trigger] sec[i] != '[');
                    crate::toml_edit::lemma_toml_update_idempotent(files.contents(b)->0, sec, t);
                }
            }
        }
        r
    }

    /// Bump version according to semantic versioning rules
    ///
    /// Refused where the manifests are not in sync with the canonical file;
    /// otherwise the canonical file (its comment kept) and every manifest take
    /// the bumped release version.
    pub fn bump_version(&self, files: &RootFiles, bump_type: BumpType) -> (r: Result<
        RootFiles,
        VersionError,
    >)
        ensures
            match files.canonical() {
                None => r is Err,
                Some(cv) => if !files.in_sync_with(cv) {
                    r matches Err(VersionError::VersionMismatch(_))
                } else if !can_bump(cv, bump_type) {
                    r matches Err(VersionError::VersionOverflow)
                } else {
                    let t = render_of(bumped(cv, bump_type));
                    match r {
                        Ok(n) => rewritten(files, canonical_text(old_canonical(files), t), t, &n),
                        Err(_) => !files.writable(t),
                    }
                },
            },
    {
        match self.verify_versions_in_sync(files) {
            Ok(()) => {},
            Err(e) => {
                return Err(e);
            },
        }
        let current = match self.read_version_file(files) {
            Ok(v) => v,
            Err(e) => {
                return Err(e);
            },
        };
        let new_version = match current.bump(bump_type) {
            Some(v) => v,
            None => {
                return Err(VersionError::VersionOverflow);
            },
        };
        assert(new_version.parts() == bumped(current.parts(), bump_type));
        let canonical = self.write_version_file(files, &new_version);
        self.write_all(files, Some(canonical), &new_version)
    }

    /// Reset the version to a specific version string
    ///
    /// Needs no prior sync: the canonical file (its comment kept) and every
    /// manifest take the given version.
    pub fn reset_version(&self, files: &RootFiles, version_str: &str) -> (r: Result<
        RootFiles,
        VersionError,
    >)
        ensures
            match parse_spec(version_str@) {
                None => r matches Err(VersionError::InvalidVersionFormat(_)),
                Some(p) => {
                    let t = trim(version_str@);
                    match r {
                        Ok(n) => rewritten(files, canonical_text(old_canonical(files), t), t, &n),
                        Err(_) => !files.writable(t),
                    }
                },
            },
    {
        let new_version = match Version::parse(version_str) {
            Ok(v) => v,
            Err(e) => {
                return Err(e);
            },
        };
        let canonical = self.write_version_file(files, &new_version);
        self.write_all(files, Some(canonical), &new_version)
    }

    /// Read version from a specific build system file
    pub fn read_build_system_version(&self, files: &RootFiles, system: &BuildSystem) -> (r: Result<
        Version,
        VersionError,
    >)
        ensures
            match files.declared(*system) {
                Some(p) => r matches Ok(v) && v.parts() == p && v.wf(),
                None => r is Err,
            },
            files.contents(*system) is None ==> (r matches Err(VersionError::MissingFile(f))
                && f@ == system.file_name_spec()),
    {
        match files.manifest(*system) {
            None => {
                let mut f: Vec<char> = Vec::new();
                push_str(&mut f, system.file_name());
                Err(VersionError::MissingFile(string_from(f.as_slice())))
            },
            Some(c) => system.read_version(c.as_str()),
        }
    }

    /// The manifest of kind `system` with its version set to `version`
    pub fn update_build_system_version(
        &self,
        files: &RootFiles,
        system: &BuildSystem,
        version: &Version,
    ) -> (r: Result<String, VersionError>)
        ensures
            match files.contents(*system) {
                Some(c) => match system.updated(c, version.render()) {
                    Some(t) => r matches Ok(s) && s@ == t,
                    None => r is Err,
                },
                None => r is Err,
            },
    {
        match files.manifest(*system) {
            None => {
                let mut f: Vec<char> = Vec::new();
                push_str(&mut f, system.file_name());
                Err(VersionError::MissingFile(string_from(f.as_slice())))
            },
            Some(c) => system.update_version(c.as_str(), version),
        }
    }
}

} // verus!
