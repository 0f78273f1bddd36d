use versioneer::canonical::{canonical_content, read_canonical};
use versioneer::cascade::{
    bump_cascade, bump_cascade_dry_run, reset_cascade, reset_cascade_dry_run, rollback_writes,
    sync_cascade, sync_cascade_dry_run, CascadeFiles, FileWrite, ManifestFile,
};
use versioneer::discovery::{find_manifests, EntryKind, TreeEntry};
use versioneer::engine::{RootFiles, VersionManager};
use versioneer::error::VersionError;
use versioneer::manifest::{update_toml_version, BuildSystem};
use versioneer::release::{
    default_tag_format, extract_repo_name_from_url, format_tag, next_rc_version, rc_tag_pattern,
};
use versioneer::version::{BumpType, Version};

fn cargo(version: &str) -> String {
    format!("[package]\nname = \"demo\"\nversion = \"{version}\"\n")
}

fn manifest(path: &str, kind: BuildSystem, content: String) -> ManifestFile {
    ManifestFile { path: path.to_string(), kind, content }
}

fn tree(canonical: &str, manifests: Vec<ManifestFile>) -> CascadeFiles {
    CascadeFiles {
        canonical_path: "VERSION".to_string(),
        canonical: canonical.to_string(),
        manifests,
    }
}

fn entry(path: &str, kind: EntryKind) -> TreeEntry {
    TreeEntry { components: path.split('/').map(|s| s.to_string()).collect(), kind }
}

#[test]
fn parse_round_trips() {
    for text in ["1.2.3", "0.0.0", "10.20.30-rc.1+build.5", "1.0.0-alpha.beta", "  4.5.6\n"] {
        let v = Version::parse(text).unwrap();
        let again = Version::parse(&v.to_string()).unwrap();
        assert_eq!(again, v);
        assert_eq!(again.build, v.build);
        assert_eq!(v.to_string(), text.trim());
    }
}

#[test]
fn parse_rejects_malformed_versions() {
    for text in ["", "1.2", "01.2.3", "1.2.3-", "v1.2.3", "1.2.3 extra", "1.2.3-01"] {
        match Version::parse(text) {
            Err(VersionError::InvalidVersionFormat(t)) => assert_eq!(t, text.trim()),
            other => panic!("{text:?} gave {other:?}"),
        }
    }
}

#[test]
fn to_string_renders_all_parts() {
    let v = Version::parse("1.2.3-rc.1+sha.abc").unwrap();
    assert_eq!(v.to_string(), "1.2.3-rc.1+sha.abc");
    assert_eq!(Version::new(18446744073709551615, 0, 7).to_string(), "18446744073709551615.0.7");
}

#[test]
fn bump_arithmetic() {
    let v = Version::new(1, 2, 3);
    assert_eq!(v.bump(BumpType::Patch).unwrap(), Version::new(1, 2, 4));
    assert_eq!(v.bump(BumpType::Minor).unwrap(), Version::new(1, 3, 0));
    assert_eq!(v.bump(BumpType::Major).unwrap(), Version::new(2, 0, 0));
    let pre = Version::parse("1.2.3-beta.1+b7").unwrap();
    let next = pre.bump(BumpType::Patch).unwrap();
    assert_eq!(next.to_string(), "1.2.4");
}

#[test]
fn bump_overflow_is_refused() {
    let v = Version::new(u64::MAX, 0, 0);
    assert!(v.bump(BumpType::Major).is_none());
    assert!(v.bump(BumpType::Minor).is_some());
}

#[test]
fn equality_ignores_build_metadata() {
    let a = Version::parse("1.0.0+a").unwrap();
    let b = Version::parse("1.0.0+b").unwrap();
    let c = Version::parse("1.0.0-rc.1").unwrap();
    assert_eq!(a, b);
    assert!(a != c);
}

#[test]
fn canonical_comment_is_preserved() {
    let out = canonical_content("1.0.0 # x-release-please-version\n", &Version::new(2, 3, 4));
    assert_eq!(out, "2.3.4 # x-release-please-version\n");
}

#[test]
fn canonical_without_comment_gets_newline() {
    assert_eq!(canonical_content("1.0.0\n", &Version::new(3, 0, 0)), "3.0.0\n");
    assert_eq!(canonical_content("", &Version::new(0, 1, 0)), "0.1.0\n");
}

#[test]
fn canonical_read_strips_comment() {
    let v = read_canonical("1.4.2 # keep me\n").unwrap();
    assert_eq!(v, Version::new(1, 4, 2));
    match read_canonical("# only a comment\n") {
        Err(VersionError::InvalidVersionInFile(f, t)) => {
            assert_eq!(f, "VERSION");
            assert_eq!(t, "");
        }
        other => panic!("unexpected {other:?}"),
    }
}

#[test]
fn toml_edit_keeps_everything_else() {
    let content = "# top comment\n[package]\nname = \"x\" # the name\nversion   =  \"0.1.0\" # bumped by tools\nedition = \"2021\"\n\n[dependencies]\nversion = \"9.9.9\"\n";
    let out = update_toml_version(content, &Version::new(1, 2, 3), "package").unwrap();
    assert_eq!(
        out,
        "# top comment\n[package]\nname = \"x\" # the name\nversion   =  \"1.2.3\" # bumped by tools\nedition = \"2021\"\n\n[dependencies]\nversion = \"9.9.9\"\n"
    );
}

#[test]
fn toml_edit_stops_at_next_section() {
    let content = "[package]\nname = \"x\"\n[dependencies]\nversion = \"1.0.0\"\n";
    let result = update_toml_version(content, &Version::new(2, 0, 0), "package");
    assert!(matches!(result, Err(VersionError::SectionVersionMissing(s)) if s == "package"));
}

#[test]
fn toml_edit_same_version_succeeds() {
    let content = "[project]\nversion = \"1.0.0\"\n";
    let out = update_toml_version(content, &Version::new(1, 0, 0), "project").unwrap();
    assert_eq!(out, content);
}

#[test]
fn sync_twice_is_idempotent() {
    let files = RootFiles {
        version_file: Some("2.1.0 # marker\n".to_string()),
        cargo: Some(cargo("1.0.0")),
        pyproject: Some("[project]\nname = \"p\"\nversion = \"0.9.0\"\n".to_string()),
        package_json: Some("{\n  \"name\": \"n\",\n  \"version\": \"1.0.0\"\n}\n".to_string()),
    };
    let m = VersionManager::new(".");
    let once = m.sync_versions(&files).unwrap();
    let twice = m.sync_versions(&once).unwrap();
    assert_eq!(once.cargo, twice.cargo);
    assert_eq!(once.pyproject, twice.pyproject);
    assert_eq!(once.package_json, twice.package_json);
    assert_eq!(twice.version_file, files.version_file);
    assert_eq!(once.cargo.unwrap(), cargo("2.1.0"));
}

#[test]
fn bump_refused_when_out_of_sync() {
    let files = RootFiles {
        version_file: Some("1.0.0\n".to_string()),
        cargo: Some(cargo("2.0.0")),
        pyproject: None,
        package_json: None,
    };
    let m = VersionManager::new(".");
    match m.bump_version(&files, BumpType::Minor) {
        Err(VersionError::VersionMismatch(lines)) => {
            assert_eq!(lines.len(), 1);
            assert!(lines[0].contains("Cargo has version 2.0.0 but VERSION file has 1.0.0"));
        }
        other => panic!("unexpected {other:?}"),
    }
    assert_eq!(files.version_file.as_deref(), Some("1.0.0\n"));
    assert_eq!(files.cargo, Some(cargo("2.0.0")));
}

#[test]
fn bump_keeps_canonical_comment() {
    let files = RootFiles {
        version_file: Some("1.0.0 # x-release-please-version\n".to_string()),
        cargo: Some(cargo("1.0.0")),
        pyproject: None,
        package_json: None,
    };
    let out = VersionManager::new(".").bump_version(&files, BumpType::Major).unwrap();
    assert_eq!(out.version_file.as_deref(), Some("2.0.0 # x-release-please-version\n"));
    assert_eq!(out.cargo, Some(cargo("2.0.0")));
}

#[test]
fn verify_lists_every_offender() {
    let files = RootFiles {
        version_file: Some("1.0.0".to_string()),
        cargo: Some(cargo("1.0.1")),
        pyproject: Some("not toml [[".to_string()),
        package_json: Some("{\"version\": \"1.0.0+meta\"}".to_string()),
    };
    match VersionManager::new(".").verify_versions_in_sync(&files) {
        Err(VersionError::VersionMismatch(lines)) => {
            assert_eq!(lines.len(), 2);
            assert!(lines[1].starts_with("Failed to read PyProject version"));
        }
        other => panic!("unexpected {other:?}"),
    }
}

#[test]
fn missing_version_file_is_reported() {
    let files = RootFiles { version_file: None, cargo: Some(cargo("1.0.0")), pyproject: None, package_json: None };
    let m = VersionManager::new(".");
    assert!(matches!(m.read_version_file(&files), Err(VersionError::MissingFile(f)) if f == "VERSION"));
    assert!(matches!(m.sync_versions(&files), Err(VersionError::MissingFile(_))));
}

#[test]
fn reset_writes_new_canonical_file() {
    let files = RootFiles { version_file: None, cargo: Some(cargo("1.0.0")), pyproject: None, package_json: None };
    let out = VersionManager::new(".").reset_version(&files, " 0.3.0-rc.2 ").unwrap();
    assert_eq!(out.version_file.as_deref(), Some("0.3.0-rc.2\n"));
    assert_eq!(out.cargo, Some(cargo("0.3.0-rc.2")));
}

fn three_manifest_tree() -> CascadeFiles {
    tree(
        "1.2.0\n",
        vec![
            manifest("Cargo.toml", BuildSystem::Cargo, cargo("1.2.0")),
            manifest("web/package.json", BuildSystem::PackageJson, "{\"name\":\"w\",\"version\":\"1.2.0\"}".to_string()),
            manifest("py/pyproject.toml", BuildSystem::PyProject, "[project]\nversion = \"1.2.0\"\n".to_string()),
        ],
    )
}

#[test]
fn cascade_bump_plans_all_files() {
    let files = three_manifest_tree();
    let plan = bump_cascade(&files, BumpType::Minor).unwrap();
    assert_eq!(plan.len(), 4);
    assert_eq!(plan[0].path, "VERSION");
    assert_eq!(plan[0].content, "1.3.0\n");
    assert_eq!(plan[1].content, cargo("1.3.0"));
    assert_eq!(plan[2].content, "{\n  \"name\": \"w\",\n  \"version\": \"1.3.0\"\n}\n");
    assert_eq!(plan[3].content, "[project]\nversion = \"1.3.0\"\n");
    assert_eq!(plan[3].original, "[project]\nversion = \"1.2.0\"\n");
}

#[test]
fn cascade_rollback_restores_written_files() {
    let files = three_manifest_tree();
    let plan = bump_cascade(&files, BumpType::Minor).unwrap();
    let undo = rollback_writes(&plan, 2);
    assert_eq!(undo.len(), 3);
    assert_eq!(undo[0].path, "VERSION");
    assert_eq!(undo[0].content, "1.2.0\n");
    assert_eq!(undo[1].path, "Cargo.toml");
    assert_eq!(undo[1].content, cargo("1.2.0"));
    assert_eq!(undo[2].path, "web/package.json");
    assert_eq!(undo[2].content, "{\"name\":\"w\",\"version\":\"1.2.0\"}");
}

#[test]
fn rollback_of_first_write() {
    let plan = vec![FileWrite { path: "VERSION".to_string(), original: "1.0.0\n".to_string(), content: "2.0.0\n".to_string() }];
    let undo = rollback_writes(&plan, 0);
    assert_eq!(undo.len(), 1);
    assert_eq!(undo[0].content, "1.0.0\n");
    assert_eq!(undo[0].original, "2.0.0\n");
}

#[test]
fn cascade_dry_run_matches_real_bump() {
    let files = three_manifest_tree();
    let preview = bump_cascade_dry_run(&files, BumpType::Major).unwrap();
    assert_eq!(preview.new_version, Version::new(2, 0, 0));
    assert_eq!(
        preview.files_to_update,
        vec!["VERSION", "Cargo.toml", "web/package.json", "py/pyproject.toml"]
    );
    let plan = bump_cascade(&files, BumpType::Major).unwrap();
    assert_eq!(plan[0].content, format!("{}\n", preview.new_version.to_string()));
    assert_eq!(files.canonical, "1.2.0\n");
}

#[test]
fn cascade_bump_refused_out_of_sync() {
    let mut files = three_manifest_tree();
    files.manifests[1].content = "{\"version\":\"9.0.0\"}".to_string();
    match bump_cascade(&files, BumpType::Patch) {
        Err(VersionError::VersionMismatch(lines)) => assert_eq!(lines, vec!["web/package.json".to_string()]),
        other => panic!("unexpected {other:?}"),
    }
    assert!(bump_cascade_dry_run(&files, BumpType::Patch).is_err());
}

#[test]
fn cascade_failure_reports_unwritable_manifest() {
    let mut files = three_manifest_tree();
    files.manifests[2].content = "[project]\nname = \"no version\"\n".to_string();
    assert!(matches!(sync_cascade(&files), Err(VersionError::SectionVersionMissing(s)) if s == "project"));
}

#[test]
fn cascade_sync_and_reset() {
    let mut files = three_manifest_tree();
    files.canonical = "1.5.0 # note\n".to_string();
    let writes = sync_cascade(&files).unwrap();
    assert_eq!(writes.len(), 3);
    assert_eq!(writes[0].content, cargo("1.5.0"));
    let preview = sync_cascade_dry_run(&files).unwrap();
    assert_eq!(preview.new_version, Version::new(1, 5, 0));
    assert_eq!(preview.files_to_update.len(), 3);
    let reset = reset_cascade(&files, "3.0.0").unwrap();
    assert_eq!(reset[0].content, "3.0.0 # note\n");
    assert_eq!(reset.len(), 4);
    let preview = reset_cascade_dry_run(&files, "3.0.0").unwrap();
    assert_eq!(preview.files_to_update[0], "VERSION");
    assert!(matches!(reset_cascade(&files, "three"), Err(VersionError::InvalidVersionFormat(_))));
}

#[test]
fn discovery_finds_manifests_in_order() {
    let entries = vec![
        entry("VERSION", EntryKind::File),
        entry("Cargo.toml", EntryKind::File),
        entry("crates", EntryKind::Directory),
        entry("crates/core/Cargo.toml", EntryKind::File),
        entry("web/package.json", EntryKind::File),
        entry("web/README.md", EntryKind::File),
        entry("py/pyproject.toml", EntryKind::File),
    ];
    let found = find_manifests(&entries, "", "VERSION").unwrap();
    let got: Vec<(String, BuildSystem)> =
        found.iter().map(|r| (r.components.join("/"), r.kind)).collect();
    assert_eq!(
        got,
        vec![
            ("Cargo.toml".to_string(), BuildSystem::Cargo),
            ("crates/core/Cargo.toml".to_string(), BuildSystem::Cargo),
            ("web/package.json".to_string(), BuildSystem::PackageJson),
            ("py/pyproject.toml".to_string(), BuildSystem::PyProject),
        ]
    );
}

#[test]
fn discovery_rejects_nested_canonical_file() {
    let entries = vec![entry("VERSION", EntryKind::File), entry("sub/VERSION", EntryKind::File)];
    match find_manifests(&entries, "", "VERSION") {
        Err(VersionError::NestedCanonicalFile(p)) => assert_eq!(p, "sub/VERSION"),
        other => panic!("unexpected {other:?}"),
    }
}

#[test]
fn discovery_rejects_symlinks() {
    let entries = vec![entry("Cargo.toml", EntryKind::File), entry("linked", EntryKind::Symlink)];
    match find_manifests(&entries, "", "VERSION") {
        Err(VersionError::SymlinkNotSupported(p)) => assert_eq!(p, "linked"),
        other => panic!("unexpected {other:?}"),
    }
}

#[test]
fn discovery_respects_ignore_file() {
    let entries = vec![
        entry("Cargo.toml", EntryKind::File),
        entry("target/package/Cargo.toml", EntryKind::File),
        entry("node_modules/dep/package.json", EntryKind::File),
        entry("node_modules/link", EntryKind::Symlink),
        entry(".hidden/pyproject.toml", EntryKind::File),
        entry("vendored/VERSION", EntryKind::File),
        entry("app/package.json", EntryKind::File),
    ];
    let ignore = "# build output\n/target/\n  node_modules  \r\nvendored\n";
    let found = find_manifests(&entries, ignore, "VERSION").unwrap();
    let got: Vec<String> = found.iter().map(|r| r.components.join("/")).collect();
    assert_eq!(got, vec!["Cargo.toml", "app/package.json"]);
}

#[test]
fn discovery_comment_line_names_nothing() {
    let entries = vec![entry("#keep/Cargo.toml", EntryKind::File)];
    let found = find_manifests(&entries, "#keep\n", "VERSION").unwrap();
    assert_eq!(found.len(), 1);
}

#[test]
fn next_rc_counts_existing_candidates() {
    let current = Version::new(1, 4, 0);
    let tags = vec![
        "v1.4.0-rc.1".to_string(),
        "v1.4.0-rc.7".to_string(),
        "v1.4.0-rc.x".to_string(),
        "v1.3.0-rc.9".to_string(),
        "v1.4.0-rc.3".to_string(),
    ];
    let next = next_rc_version(&current, &tags).unwrap();
    assert_eq!(next.to_string(), "1.4.0-rc.8");
    let first = next_rc_version(&current, &Vec::new()).unwrap();
    assert_eq!(first.to_string(), "1.4.0-rc.1");
    assert_eq!(rc_tag_pattern(&current), "v1.4.0-rc.*");
}

#[test]
fn next_rc_needs_clean_version() {
    let current = Version::parse("1.4.0-rc.2").unwrap();
    assert_eq!(next_rc_version(&current, &Vec::new()), Err(VersionError::CleanVersionRequired));
}

#[test]
fn tag_template_expansion() {
    let v = Version::parse("2.5.1-rc.1").unwrap();
    assert_eq!(format_tag("{repository_name}-v{version}", "tool", &v), "tool-v2.5.1-rc.1");
    assert_eq!(format_tag("{major}.{minor}/{patch} {unknown} {", "tool", &v), "2.5/1 {unknown} {");
    assert_eq!(format_tag("", "tool", &v), "");
}

#[test]
fn repo_name_from_urls() {
    assert_eq!(extract_repo_name_from_url("https://github.com/acme/widget.git").as_deref(), Some("widget"));
    assert_eq!(extract_repo_name_from_url("git@github.com:acme/widget.git").as_deref(), Some("widget"));
    assert_eq!(extract_repo_name_from_url("git@host:widget").as_deref(), Some("widget"));
    assert_eq!(extract_repo_name_from_url("https://host/widget/"), None);
    assert_eq!(default_tag_format(Some("https://h/a/b.git"), "dir"), "b-v{version}");
    assert_eq!(default_tag_format(None, "dir"), "dir-v{version}");
}

#[test]
fn error_messages_name_the_problem() {
    assert_eq!(
        VersionError::VersionMismatch(vec!["a".to_string()]).message(),
        "Version files are not synchronized:\na\n\nRun 'versioneer sync' to synchronize all version files."
    );
    assert_eq!(VersionError::ManifestParseError(BuildSystem::Cargo).message(), "Failed to parse Cargo.toml");
}

#[test]
fn precedence_follows_semver_order() {
    let chain = [
        "1.0.0-alpha",
        "1.0.0-alpha.1",
        "1.0.0-alpha.beta",
        "1.0.0-beta",
        "1.0.0-beta.2",
        "1.0.0-beta.11",
        "1.0.0-rc.1",
        "1.0.0",
        "1.0.1",
        "1.2.0",
        "2.0.0",
    ];
    for pair in chain.windows(2) {
        let a = Version::parse(pair[0]).unwrap();
        let b = Version::parse(pair[1]).unwrap();
        assert_eq!(a.cmp_precedence(&b), std::cmp::Ordering::Less, "{} < {}", pair[0], pair[1]);
        assert_eq!(b.cmp_precedence(&a), std::cmp::Ordering::Greater);
        assert!(a < b);
    }
    let x = Version::parse("1.0.0+build.1").unwrap();
    let y = Version::parse("1.0.0+build.2").unwrap();
    assert_eq!(x.cmp_precedence(&y), std::cmp::Ordering::Equal);
}
