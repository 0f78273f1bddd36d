//! Health check and diagnostics.

use vstd::prelude::*;
use crate::engine::{detected, RootFiles, VersionManager};
use crate::manifest::BuildSystem;
use crate::text::{chars_of, push_str, string_from};

verus! {

/// The outcome of a health check: the lines to show, and the exit code.
pub struct DoctorReport {
    pub lines: Vec<String>,
    pub exit_code: i32,
}

/// The canonical version reads, some manifest is present, and every manifest
/// present declares the canonical version.
pub open spec fn healthy(files: &RootFiles) -> bool {
    &&& files.canonical() is Some
    &&& detected(files).len() > 0
    &&& files.in_sync_with(files.canonical()->0)
}

fn line(parts: &[&str]) -> (r: String) {
    let mut m: Vec<char> = Vec::new();
    let mut i: usize = 0;
    while i < parts.len()
        decreases parts@.len() - i,
    {
        push_str(&mut m, parts[i]);
        i = i + 1;
    }
    string_from(m.as_slice())
}

/// Run doctor command to check health and configuration.
///
/// Exit code 0 if healthy, 1 if issues found.
pub fn run_doctor(manager: &VersionManager, files: &RootFiles) -> (r: DoctorReport)
    ensures
        r.exit_code == (if healthy(files) {
            0i32
        } else {
            1i32
        }),
{
    let mut lines: Vec<String> = Vec::new();
    lines.push(line(&["🏥 versioneer health check"]));
    lines.push(line(&["=========================="]));
    lines.push(line(&[]));
    lines.push(line(&["Version Files:"]));
    match manager.read_version_file(files) {
        Ok(v) => lines.push(line(&["  ✅ VERSION file: ", v.to_string().as_str()])),
        Err(e) => {
            lines.push(line(&["  ❌ VERSION file error: ", e.message().as_str()]));
        },
    }
    lines.push(line(&[]));
    lines.push(line(&["Build Systems:"]));
    let systems = manager.detect_build_systems(files);
    if systems.len() == 0 {
        lines.push(line(&["  ❌ No build system files detected"]));
        lines.push(
            line(
                &[
                    "  ℹ️  At least one build system file (Cargo.toml, pyproject.toml, package.json) is required",
                ],
            ),
        );
    } else {
        let mut i: usize = 0;
        while i < systems.len()
            decreases systems@.len() - i,
        {
            let system = systems[i];
            match manager.read_build_system_version(files, &system) {
                Ok(v) => lines.push(line(&["  ✅ ", system.name(), ": ", v.to_string().as_str()])),
                Err(e) => {
                    lines.push(line(&["  ❌ ", system.name(), ": ", e.message().as_str()]));
                },
            }
            i = i + 1;
        }
    }
    lines.push(line(&[]));
    lines.push(line(&["Synchronization:"]));
    let in_sync = manager.verify_versions_in_sync(files);
    match &in_sync {
        Ok(()) => lines.push(line(&["  ✅ All versions are synchronized"])),
        Err(e) => {
            lines.push(line(&["  ❌ Versions are out of sync"]));
            lines.push(line(&["  ℹ️  ", e.message().as_str()]));
        },
    }
    lines.push(line(&[]));
    // Reading errors of the files all show up as a failed verification.
    let ok = in_sync.is_ok() && systems.len() > 0;
    if ok {
        lines.push(line(&["✨ Everything looks healthy!"]));
    } else {
        lines.push(line(&["❌ Issues found - see above for details"]));
    }
    let exit_code: i32 = if ok {
        0
    } else {
        1
    };
    DoctorReport { lines, exit_code }
}

} // verus!
