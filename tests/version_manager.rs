use versioneer::engine::{RootFiles, VersionManager};
use versioneer::manifest::{update_toml_version, BuildSystem};
use versioneer::version::{BumpType, Version};

fn cargo_toml(version: &str) -> String {
    format!(
        r#"[package]
name = "test"
version = "{version}"
edition = "2021"

[dependencies]
"#
    )
}

fn pyproject_toml(version: &str) -> String {
    format!(
        r#"[project]
name = "test"
version = "{version}"
description = "Test project"

[build-system]
requires = ["setuptools"]
build-backend = "setuptools.build_meta"
"#
    )
}

fn package_json(version: &str, with_dependencies: bool) -> String {
    if with_dependencies {
        format!(
            r#"{{
  "name": "test-package",
  "version": "{version}",
  "description": "A test package",
  "main": "index.js",
  "scripts": {{
    "test": "jest",
    "build": "tsc"
  }},
  "dependencies": {{
    "express": "^4.18.0"
  }},
  "devDependencies": {{
    "typescript": "^5.0.0"
  }}
}}
"#
        )
    } else {
        format!(
            r#"{{
  "name": "test-package",
  "version": "{version}"
}}
"#
        )
    }
}

fn empty_root() -> RootFiles {
    RootFiles { version_file: None, cargo: None, pyproject: None, package_json: None }
}

fn create_test_files(version: &str) -> RootFiles {
    RootFiles {
        version_file: Some(version.to_string()),
        cargo: Some(cargo_toml(version)),
        pyproject: Some(pyproject_toml(version)),
        package_json: None,
    }
}

fn manager() -> VersionManager {
    VersionManager::new("/project")
}

fn read(files: &RootFiles, system: BuildSystem) -> Version {
    manager().read_build_system_version(files, &system).unwrap()
}

#[test]
fn test_read_version_file() {
    let files = create_test_files("1.2.3");
    let version = manager().read_version_file(&files).unwrap();
    assert_eq!(version, Version::new(1, 2, 3));
}

#[test]
fn test_detect_build_systems() {
    let files = create_test_files("1.0.0");
    let systems = manager().detect_build_systems(&files);
    assert!(systems.contains(&BuildSystem::Cargo));
    assert!(systems.contains(&BuildSystem::PyProject));
}

#[test]
fn test_bump_major() {
    let files = create_test_files("1.2.3");
    let m = manager();
    let files = m.bump_version(&files, BumpType::Major).unwrap();
    assert_eq!(m.read_version_file(&files).unwrap(), Version::new(2, 0, 0));
    assert_eq!(read(&files, BuildSystem::Cargo), Version::new(2, 0, 0));
    assert_eq!(read(&files, BuildSystem::PyProject), Version::new(2, 0, 0));
}

#[test]
fn test_bump_minor() {
    let files = create_test_files("1.2.3");
    let m = manager();
    let files = m.bump_version(&files, BumpType::Minor).unwrap();
    assert_eq!(m.read_version_file(&files).unwrap(), Version::new(1, 3, 0));
}

#[test]
fn test_bump_patch() {
    let files = create_test_files("1.2.3");
    let m = manager();
    let files = m.bump_version(&files, BumpType::Patch).unwrap();
    assert_eq!(m.read_version_file(&files).unwrap(), Version::new(1, 2, 4));
}

#[test]
fn test_reset_version_to_default() {
    let files = create_test_files("1.2.3");
    let m = manager();
    let files = m.reset_version(&files, "0.0.0").unwrap();
    assert_eq!(m.read_version_file(&files).unwrap(), Version::new(0, 0, 0));
    assert_eq!(read(&files, BuildSystem::Cargo), Version::new(0, 0, 0));
    assert_eq!(read(&files, BuildSystem::PyProject), Version::new(0, 0, 0));
}

#[test]
fn test_reset_version_to_specific_version() {
    let files = create_test_files("1.2.3");
    let m = manager();
    let files = m.reset_version(&files, "3.5.7").unwrap();
    assert_eq!(m.read_version_file(&files).unwrap(), Version::new(3, 5, 7));
    assert_eq!(read(&files, BuildSystem::Cargo), Version::new(3, 5, 7));
    assert_eq!(read(&files, BuildSystem::PyProject), Version::new(3, 5, 7));
}

#[test]
fn test_reset_version_with_prerelease() {
    let files = create_test_files("1.0.0");
    let m = manager();
    let files = m.reset_version(&files, "2.0.0-alpha.1").unwrap();
    let version = m.read_version_file(&files).unwrap();
    assert_eq!(version.major, 2);
    assert_eq!(version.minor, 0);
    assert_eq!(version.patch, 0);
    assert_eq!(version.pre.as_str(), "alpha.1");
}

#[test]
fn test_reset_version_invalid_format() {
    let files = create_test_files("1.0.0");
    let m = manager();
    let result = m.reset_version(&files, "invalid-version");
    assert!(result.is_err());
    assert!(result.unwrap_err().message().contains("Invalid semantic version format"));
    let version = m.read_version_file(&files).unwrap();
    assert_eq!(version, Version::new(1, 0, 0));
}

#[test]
fn test_reset_version_empty_string() {
    let files = create_test_files("1.0.0");
    let result = manager().reset_version(&files, "");
    assert!(result.is_err());
    assert!(result.unwrap_err().message().contains("Invalid semantic version format"));
}

#[test]
fn test_detect_package_json() {
    let mut files = empty_root();
    files.version_file = Some("1.0.0".to_string());
    files.package_json = Some(package_json("1.0.0", false));
    let systems = manager().detect_build_systems(&files);
    assert!(systems.contains(&BuildSystem::PackageJson));
}

#[test]
fn test_read_package_json_version() {
    let mut files = empty_root();
    files.package_json = Some(package_json("2.3.4", false));
    assert_eq!(read(&files, BuildSystem::PackageJson), Version::new(2, 3, 4));
}

#[test]
fn test_read_package_json_version_with_dependencies() {
    let mut files = empty_root();
    files.package_json = Some(package_json("1.5.0", true));
    assert_eq!(read(&files, BuildSystem::PackageJson), Version::new(1, 5, 0));
}

#[test]
fn test_update_package_json_version() {
    let mut files = empty_root();
    files.package_json = Some(package_json("1.0.0", false));
    let m = manager();
    let new_version = Version::new(2, 0, 0);
    let updated = m
        .update_build_system_version(&files, &BuildSystem::PackageJson, &new_version)
        .unwrap();
    files.package_json = Some(updated);
    assert_eq!(read(&files, BuildSystem::PackageJson), Version::new(2, 0, 0));
}

#[test]
fn test_update_package_json_preserves_other_fields() {
    let mut files = empty_root();
    files.package_json = Some(package_json("1.0.0", true));
    let new_version = Version::new(3, 2, 1);
    let content = manager()
        .update_build_system_version(&files, &BuildSystem::PackageJson, &new_version)
        .unwrap();
    let json: serde_json::Value = serde_json::from_str(&content).unwrap();
    assert_eq!(json["version"], "3.2.1");
    assert_eq!(json["name"], "test-package");
    assert_eq!(json["description"], "A test package");
    assert!(json["dependencies"].is_object());
    assert!(json["devDependencies"].is_object());
}

#[test]
fn test_bump_version_with_package_json() {
    let mut files = empty_root();
    files.version_file = Some("1.2.3".to_string());
    files.package_json = Some(package_json("1.2.3", true));
    let m = manager();
    let files = m.bump_version(&files, BumpType::Minor).unwrap();
    assert_eq!(m.read_version_file(&files).unwrap(), Version::new(1, 3, 0));
    assert_eq!(read(&files, BuildSystem::PackageJson), Version::new(1, 3, 0));
}

#[test]
fn test_detect_all_build_systems() {
    let mut files = create_test_files("1.0.0");
    files.package_json = Some(package_json("1.0.0", false));
    let systems = manager().detect_build_systems(&files);
    assert_eq!(systems.len(), 3);
    assert!(systems.contains(&BuildSystem::Cargo));
    assert!(systems.contains(&BuildSystem::PyProject));
    assert!(systems.contains(&BuildSystem::PackageJson));
}

#[test]
fn test_sync_versions_with_package_json() {
    let mut files = empty_root();
    files.version_file = Some("2.0.0".to_string());
    files.package_json = Some(package_json("1.0.0", true));
    let files = manager().sync_versions(&files).unwrap();
    assert_eq!(read(&files, BuildSystem::PackageJson), Version::new(2, 0, 0));
}

#[test]
fn test_verify_versions_with_package_json_mismatch() {
    let mut files = empty_root();
    files.version_file = Some("2.0.0".to_string());
    files.package_json = Some(package_json("1.0.0", false));
    let result = manager().verify_versions_in_sync(&files);
    assert!(result.is_err());
    assert!(result.unwrap_err().message().contains("Version files are not synchronized"));
}

#[test]
fn test_package_json_with_prerelease() {
    let mut files = empty_root();
    files.package_json = Some(package_json("1.0.0-beta.2", false));
    let version = read(&files, BuildSystem::PackageJson);
    assert_eq!(version.major, 1);
    assert_eq!(version.minor, 0);
    assert_eq!(version.patch, 0);
    assert_eq!(version.pre.as_str(), "beta.2");
}

#[test]
fn test_package_json_missing_version_field() {
    let mut files = empty_root();
    files.package_json = Some(r#"{"name": "test-package"}"#.to_string());
    let result = manager().read_build_system_version(&files, &BuildSystem::PackageJson);
    assert!(result.is_err());
    assert!(result.unwrap_err().message().contains("No version found in package.json"));
}

#[test]
fn test_pyproject_toml_missing_version_field() {
    let mut files = empty_root();
    files.pyproject = Some("[project]\nname = \"test\"\n".to_string());
    let result = manager().read_build_system_version(&files, &BuildSystem::PyProject);
    assert!(result.is_err());
    assert!(result.unwrap_err().message().contains("No version found in pyproject.toml"));
}

#[test]
fn test_cargo_toml_missing_version_field() {
    let mut files = empty_root();
    files.cargo = Some("[package]\nname = \"test\"\n".to_string());
    let result = manager().read_build_system_version(&files, &BuildSystem::Cargo);
    assert!(result.is_err());
    assert!(result.unwrap_err().message().contains("No version found in Cargo.toml"));
}

#[test]
fn test_package_json_invalid_json() {
    let mut files = empty_root();
    files.package_json = Some("not valid json {{".to_string());
    let result = manager().read_build_system_version(&files, &BuildSystem::PackageJson);
    assert!(result.is_err());
    assert!(result.unwrap_err().message().contains("Failed to parse package.json"));
}

#[test]
fn test_pyproject_toml_invalid_toml() {
    let mut files = empty_root();
    files.pyproject = Some("invalid toml [[[".to_string());
    let result = manager().read_build_system_version(&files, &BuildSystem::PyProject);
    assert!(result.is_err());
    assert!(result.unwrap_err().message().contains("Failed to parse pyproject.toml"));
}

#[test]
fn test_cargo_toml_invalid_toml() {
    let mut files = empty_root();
    files.cargo = Some("invalid toml [[[".to_string());
    let result = manager().read_build_system_version(&files, &BuildSystem::Cargo);
    assert!(result.is_err());
    assert!(result.unwrap_err().message().contains("Failed to parse Cargo.toml"));
}

#[test]
fn test_version_file_invalid_semver() {
    let mut files = empty_root();
    files.version_file = Some("not-a-version".to_string());
    let result = manager().read_version_file(&files);
    assert!(result.is_err());
    assert!(result.unwrap_err().message().contains("Invalid version format"));
}

#[test]
fn test_version_file_with_whitespace() {
    let mut files = empty_root();
    files.version_file = Some("  1.2.3  \n".to_string());
    let version = manager().read_version_file(&files).unwrap();
    assert_eq!(version, Version::new(1, 2, 3));
}

#[test]
fn test_bump_version_with_out_of_sync_error() {
    let mut files = create_test_files("1.0.0");
    files.cargo = Some("[package]\nname = \"test\"\nversion = \"2.0.0\"\n".to_string());
    let result = manager().bump_version(&files, BumpType::Patch);
    assert!(result.is_err());
    assert!(result.unwrap_err().message().contains("Version files are not synchronized"));
}

#[test]
fn test_sync_versions_with_all_three_build_systems() {
    let mut files = create_test_files("1.0.0");
    files.package_json = Some(package_json("1.0.0", false));
    files.version_file = Some("5.0.0".to_string());
    let files = manager().sync_versions(&files).unwrap();
    assert_eq!(read(&files, BuildSystem::Cargo), Version::new(5, 0, 0));
    assert_eq!(read(&files, BuildSystem::PyProject), Version::new(5, 0, 0));
    assert_eq!(read(&files, BuildSystem::PackageJson), Version::new(5, 0, 0));
}

#[test]
fn test_verify_versions_with_all_systems_in_sync() {
    let mut files = create_test_files("3.2.1");
    files.package_json = Some(package_json("3.2.1", false));
    let result = manager().verify_versions_in_sync(&files);
    assert!(result.is_ok());
}

#[test]
fn test_semver_with_build_metadata() {
    let files = create_test_files("1.0.0");
    let m = manager();
    let files = m.reset_version(&files, "1.0.0+build.123").unwrap();
    let version = m.read_version_file(&files).unwrap();
    assert_eq!(version.major, 1);
    assert_eq!(version.minor, 0);
    assert_eq!(version.patch, 0);
    assert_eq!(version.build.as_str(), "build.123");
}

#[test]
fn test_package_json_not_an_object() {
    let mut files = empty_root();
    files.package_json = Some("[]".to_string());
    let result = manager().read_build_system_version(&files, &BuildSystem::PackageJson);
    assert!(result.is_err());
}

#[test]
fn test_update_package_json_not_an_object() {
    let mut files = empty_root();
    files.package_json = Some("[]".to_string());
    let result = manager().update_build_system_version(
        &files,
        &BuildSystem::PackageJson,
        &Version::new(1, 0, 0),
    );
    assert!(result.is_err());
    assert!(result.unwrap_err().message().contains("package.json root is not a JSON object"));
}

#[test]
fn test_toml_version_update_no_version_field() {
    let content = "[package]\nname = \"test\"\n";
    let result = update_toml_version(content, &Version::new(1, 0, 0), "package");
    assert!(result.is_err());
    assert!(result.unwrap_err().message().contains("No version field found"));
}

#[test]
fn test_cargo_toml_with_workspace() {
    let mut files = empty_root();
    files.cargo = Some(
        r#"[workspace]
members = ["member1", "member2"]

[package]
name = "test"
version = "1.2.3"
"#
        .to_string(),
    );
    assert_eq!(read(&files, BuildSystem::Cargo), Version::new(1, 2, 3));
}
