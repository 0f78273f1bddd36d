use versioneer::doctor::run_doctor;
use versioneer::engine::{RootFiles, VersionManager};

fn files(
    version: Option<&str>,
    cargo: Option<&str>,
    pyproject: Option<&str>,
    package_json: Option<&str>,
) -> RootFiles {
    RootFiles {
        version_file: version.map(str::to_string),
        cargo: cargo.map(str::to_string),
        pyproject: pyproject.map(str::to_string),
        package_json: package_json.map(str::to_string),
    }
}

fn exit_code(f: &RootFiles) -> i32 {
    run_doctor(&VersionManager::new("."), f).exit_code
}

#[test]
fn test_run_doctor_returns_zero() {
    let f = files(Some("1.0.0\n"), Some("[package]\nname = \"test\"\nversion = \"1.0.0\"\n"), None, None);
    let exit_code = exit_code(&f);
    assert!(exit_code == 0 || exit_code == 1);
    assert_eq!(exit_code, 0);
}

#[test]
fn test_doctor_with_missing_version_file() {
    let f = files(None, Some("[package]\nname = \"test\"\nversion = \"1.0.0\"\n"), None, None);
    assert_eq!(exit_code(&f), 1);
}

#[test]
fn test_doctor_with_corrupted_version_file() {
    let f = files(Some("not-a-version\n"), Some("[package]\nname = \"test\"\nversion = \"1.0.0\"\n"), None, None);
    assert_eq!(exit_code(&f), 1);
}

#[test]
fn test_doctor_with_no_build_systems() {
    let f = files(Some("1.0.0\n"), None, None, None);
    assert_eq!(exit_code(&f), 1);
}

#[test]
fn test_doctor_with_invalid_cargo_toml() {
    let f = files(Some("1.0.0\n"), Some("invalid toml syntax [[["), None, None);
    assert_eq!(exit_code(&f), 1);
}

#[test]
fn test_doctor_with_missing_version_in_cargo_toml() {
    let f = files(Some("1.0.0\n"), Some("[package]\nname = \"test\"\n"), None, None);
    assert_eq!(exit_code(&f), 1);
}

#[test]
fn test_doctor_with_version_mismatch() {
    let f = files(Some("1.0.0\n"), Some("[package]\nname = \"test\"\nversion = \"2.0.0\"\n"), None, None);
    assert_eq!(exit_code(&f), 1);
}

#[test]
fn test_doctor_with_invalid_pyproject_toml() {
    let f = files(Some("1.0.0\n"), None, Some("invalid toml syntax [[["), None);
    assert_eq!(exit_code(&f), 1);
}

#[test]
fn test_doctor_with_invalid_package_json() {
    let f = files(Some("1.0.0\n"), None, None, Some("invalid json {{{"));
    assert_eq!(exit_code(&f), 1);
}

#[test]
fn test_doctor_with_multiple_build_systems_in_sync() {
    let f = files(
        Some("1.0.0\n"),
        Some("[package]\nname = \"test\"\nversion = \"1.0.0\"\n"),
        Some("[project]\nname = \"test\"\nversion = \"1.0.0\"\n"),
        None,
    );
    let exit_code = exit_code(&f);
    assert!(exit_code == 0 || exit_code == 1);
    assert_eq!(exit_code, 0);
}

#[test]
fn test_doctor_with_multiple_build_systems_out_of_sync() {
    let f = files(
        Some("1.0.0\n"),
        Some("[package]\nname = \"test\"\nversion = \"1.0.0\"\n"),
        Some("[project]\nname = \"test\"\nversion = \"2.0.0\"\n"),
        None,
    );
    assert_eq!(exit_code(&f), 1);
}

#[test]
fn doctor_report_lists_each_system() {
    let f = files(Some("1.0.0\n"), Some("[package]\nversion = \"1.0.0\"\n"), None, None);
    let report = run_doctor(&VersionManager::new("."), &f);
    assert!(report.lines.iter().any(|l| l == "  ✅ Cargo: 1.0.0"));
    assert!(report.lines.iter().any(|l| l == "✨ Everything looks healthy!"));
}
