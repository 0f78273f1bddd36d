//! Cascading operations: the canonical file and every manifest found below
//! the root change together, or not at all.
//!
//! The library plans the writes; the caller captures the original contents
//! (they travel in the plan), applies the writes in order, and on the first
//! failure writes back what [`rollback_writes`] returns.

use vstd::prelude::*;
use crate::canonical::{canonical_content, canonical_text, read_canonical, version_part};
use crate::error::VersionError;
use crate::manifest::BuildSystem;
use crate::text::{chars_of, string_from, trim};
use crate::version::{bumped, can_bump, parse_spec, render_of, same_precedence, BumpType, Parts, Version};

verus! {

/// One manifest of the tree: its path (as the caller names it), kind and content.
#[derive(Clone, Debug)]
pub struct ManifestFile {
    pub path: String,
    pub kind: BuildSystem,
    pub content: String,
}

/// The canonical file and every manifest found under the root.
#[derive(Clone, Debug)]
pub struct CascadeFiles {
    /// Path of the canonical file, as the caller names it.
    pub canonical_path: String,
    /// Content of the canonical file.
    pub canonical: String,
    pub manifests: Vec<ManifestFile>,
}

/// A planned write: the file at `path` goes from `original` to `content`.
#[derive(Clone, Debug)]
pub struct FileWrite {
    pub path: String,
    pub original: String,
    pub content: String,
}

/// What a cascade would do, without doing it.
#[derive(Clone, Debug)]
pub struct DryRunPlan {
    pub new_version: Version,
    pub files_to_update: Vec<String>,
}

impl CascadeFiles {
    pub open spec fn canonical_version(&self) -> Option<Parts> {
        parse_spec(version_part(self.canonical@))
    }

    /// The version that manifest `i` declares, where it is valid.
    pub open spec fn declared(&self, i: int) -> Option<Parts> {
        let m = self.manifests@[i];
        match m.kind.field(m.content@) {
            Some(Some(t)) => parse_spec(t),
            _ => None,
        }
    }

    pub open spec fn in_sync_with(&self, v: Parts) -> bool {
        forall|i: int|
            0 <= i < self.manifests@.len() ==> (#[trigger] self.declared(i) matches Some(p)
                && same_precedence(p, v))
    }

    /// Every manifest can take the rendered version `value`.
    pub open spec fn writable(&self, value: Seq<char>) -> bool {
        forall|i: int|
            0 <= i < self.manifests@.len() ==> (#[trigger] self.manifests@[i]).kind.updated(
                self.manifests@[i].content@,
                value,
            ) is Some
    }

    /// `ws` sets every manifest, in order, to `value`.
    pub open spec fn manifest_writes(&self, value: Seq<char>, ws: Seq<FileWrite>) -> bool {
        &&& ws.len() == self.manifests@.len()
        &&& forall|i: int|
            0 <= i < ws.len() ==> {
                let m = self.manifests@[i];
                &&& (#[trigger] ws[i]).path@ == m.path@
                &&& ws[i].original@ == m.content@
                &&& m.kind.updated(m.content@, value) == Some(ws[i].content@)
            }
    }

    /// `ws` first rewrites the canonical file to `canonical`, then every
    /// manifest to `value`.
    pub open spec fn full_writes(&self, canonical: Seq<char>, value: Seq<char>, ws: Seq<FileWrite>) -> bool {
        &&& ws.len() >= 1
        &&& ws[0].path@ == self.canonical_path@
        &&& ws[0].original@ == self.canonical@
        &&& ws[0].content@ == canonical
        &&& self.manifest_writes(value, ws.drop_first())
    }
}

fn copy_string(s: &String) -> (r: String)
    ensures
        r@ == s@,
{
    string_from(chars_of(s.as_str()).as_slice())
}

/// Appends to `out` one write per manifest, setting its version to `version`.
fn push_manifest_writes(files: &CascadeFiles, version: &Version, out: &mut Vec<FileWrite>) -> (r:
    Result<(), VersionError>)
    ensures
        match r {
            Ok(()) => files.writable(version.render()) && final(out)@.len() == old(out)@.len()
                + files.manifests@.len() && final(out)@.subrange(0, old(out)@.len() as int)
                == old(out)@ && files.manifest_writes(
                version.render(),
                final(out)@.subrange(old(out)@.len() as int, final(out)@.len() as int),
            ),
            Err(_) => !files.writable(version.render()),
        },
{
    let ghost t = version.render();
    let ghost start = out@.len();
    let mut i: usize = 0;
    while i < files.manifests.len()
        invariant
            i <= files.manifests@.len(),
            t == version.render(),
            out@.len() == start + i,
            start == old(out)@.len(),
            out@.subrange(0, start as int) == old(out)@,
            forall|j: int|
                0 <= j < i ==> {
                    let m = files.manifests@[j];
                    &&& (#[trigger] out@[start + j]).path@ == m.path@
                    &&& out@[start + j].original@ == m.content@
                    &&& m.kind.updated(m.content@, t) == Some(out@[start + j].content@)
                },
        decreases files.manifests@.len() - i,
    {
        let m = &files.manifests[i];
        match m.kind.update_version(m.content.as_str(), version) {
            Ok(u) => {
                out.push(FileWrite { path: copy_string(&m.path), original: copy_string(&m.content), content: u });
                assert(out@.subrange(0, start as int) == old(out)@);
            },
            Err(e) => {
                return Err(e);
            },
        }
        i = i + 1;
    }
    let ghost tail = out@.subrange(start as int, out@.len() as int);
    assert forall|j: int| 0 <= j < tail.len() implies {
        let m = files.manifests@[j];
        &&& (#[trigger] tail[j]).path@ == m.path@
        &&& tail[j].original@ == m.content@
        &&& m.kind.updated(m.content@, t) == Some(tail[j].content@)
    } by {
        assert(tail[j] == out@[start + j]);
    }
    assert forall|j: int| 0 <= j < files.manifests@.len() implies (#[trigger] files.manifests@[j]).kind.updated(
        files.manifests@[j].content@,
        t,
    ) is Some by {
        assert(tail[j] == out@[start + j]);
    }
    Ok(())
}

/// The writes of a cascade to `version`: the canonical file first (its
/// comment kept), then every manifest.
fn full_cascade(files: &CascadeFiles, version: &Version) -> (r: Result<Vec<FileWrite>, VersionError>)
    ensures
        match r {
            Ok(ws) => files.writable(version.render()) && files.full_writes(
                canonical_text(files.canonical@, version.render()),
                version.render(),
                ws@,
            ),
            Err(_) => !files.writable(version.render()),
        },
{
    let mut out: Vec<FileWrite> = Vec::new();
    out.push(
        FileWrite {
            path: copy_string(&files.canonical_path),
            original: copy_string(&files.canonical),
            content: canonical_content(files.canonical.as_str(), version),
        },
    );
    let ghost first = out@;
    match push_manifest_writes(files, version, &mut out) {
        Ok(()) => {
            assert(out@[0] == out@.subrange(0, 1)[0]);
            assert(out@[0] == first[0]);
            assert(out@.drop_first() == out@.subrange(1, out@.len() as int));
            Ok(out)
        },
        Err(e) => Err(e),
    }
}

/// Whether every manifest declares `cv`.
fn all_in_sync(files: &CascadeFiles, cv: &Version) -> (r: bool)
    ensures
        r == files.in_sync_with(cv.parts()),
{
    let mut i: usize = 0;
    while i < files.manifests.len()
        invariant
            i <= files.manifests@.len(),
            forall|j: int|
                0 <= j < i ==> (#[trigger] files.declared(j) matches Some(p) && same_precedence(
                    p,
                    cv.parts(),
                )),
        decreases files.manifests@.len() - i,
    {
        let m = &files.manifests[i];
        match m.kind.read_version(m.content.as_str()) {
            Ok(v) => {
                if !v.same_precedence_as(cv) {
                    assert(!(files.declared(i as int) matches Some(p) && same_precedence(p, cv.parts())));
                    return false;
                }
            },
            Err(_) => {
                assert(files.declared(i as int) is None);
                return false;
            },
        }
        i = i + 1;
    }
    true
}

/// The version a cascading bump leads to, where the tree is in sync and the
/// bump fits.
pub open spec fn cascade_bump_target(files: &CascadeFiles, kind: BumpType) -> Option<Parts> {
    match files.canonical_version() {
        Some(cv) => if files.in_sync_with(cv) && can_bump(cv, kind) {
            Some(bumped(cv, kind))
        } else {
            None
        },
        None => None,
    }
}

fn cascade_bump_version(files: &CascadeFiles, kind: BumpType) -> (r: Result<Version, VersionError>)
    ensures
        match cascade_bump_target(files, kind) {
            Some(p) => r matches Ok(v) && v.parts() == p && v.wf(),
            None => r is Err,
        },
        files.canonical_version() matches Some(cv) && !files.in_sync_with(cv) ==> r matches Err(
            VersionError::VersionMismatch(_),
        ),
{
    let cv = match read_canonical(files.canonical.as_str()) {
        Ok(v) => v,
        Err(e) => {
            return Err(e);
        },
    };
    if !all_in_sync(files, &cv) {
        let mut lines: Vec<String> = Vec::new();
        let mut i: usize = 0;
        while i < files.manifests.len()
            decreases files.manifests@.len() - i,
        {
            let m = &files.manifests[i];
            let ok = match m.kind.read_version(m.content.as_str()) {
                Ok(v) => v.same_precedence_as(&cv),
                Err(_) => false,
            };
            if !ok {
                lines.push(copy_string(&m.path));
            }
            i = i + 1;
        }
        return Err(VersionError::VersionMismatch(lines));
    }
    match cv.bump(kind) {
        Some(v) => Ok(v),
        None => Err(VersionError::VersionOverflow),
    }
}

/// Bumps the canonical file and every manifest of the tree, which must be in
/// sync; the plan of writes starts with the canonical file.
pub fn bump_cascade(files: &CascadeFiles, kind: BumpType) -> (r: Result<Vec<FileWrite>, VersionError>)
    ensures
        match cascade_bump_target(files, kind) {
            Some(p) => match r {
                Ok(ws) => files.writable(render_of(p)) && files.full_writes(
                    canonical_text(files.canonical@, render_of(p)),
                    render_of(p),
                    ws@,
                ),
                Err(_) => !files.writable(render_of(p)),
            },
            None => r is Err,
        },
        files.canonical_version() matches Some(cv) && !files.in_sync_with(cv) ==> r matches Err(
            VersionError::VersionMismatch(_),
        ),
{
    let v = match cascade_bump_version(files, kind) {
        Ok(v) => v,
        Err(e) => {
            return Err(e);
        },
    };
    full_cascade(files, &v)
}

/// What [`bump_cascade`] would write, without planning the contents.
pub fn bump_cascade_dry_run(files: &CascadeFiles, kind: BumpType) -> (r: Result<DryRunPlan, VersionError>)
    ensures
        match cascade_bump_target(files, kind) {
            Some(p) => r matches Ok(plan) && plan.new_version.parts() == p
                && plan.files_to_update@.map_values(|s: String| s@) == seq![files.canonical_path@]
                + files.manifests@.map_values(|m: ManifestFile| m.path@),
            None => r is Err,
        },
{
    let v = match cascade_bump_version(files, kind) {
        Ok(v) => v,
        Err(e) => {
            return Err(e);
        },
    };
    let paths = planned_paths(files, true);
    Ok(DryRunPlan { new_version: v, files_to_update: paths })
}

/// The paths a cascade touches: the canonical file (where `with_canonical`),
/// then every manifest.
fn planned_paths(files: &CascadeFiles, with_canonical: bool) -> (r: Vec<String>)
    ensures
        r@.map_values(|s: String| s@) == (if with_canonical {
            seq![files.canonical_path@]
        } else {
            Seq::empty()
        }) + files.manifests@.map_values(|m: ManifestFile| m.path@),
{
    let mut out: Vec<String> = Vec::new();
    if with_canonical {
        out.push(copy_string(&files.canonical_path));
    }
    let ghost head = out@.map_values(|s: String| s@);
    let mut i: usize = 0;
    while i < files.manifests.len()
        invariant
            i <= files.manifests@.len(),
            head == (if with_canonical {
                seq![files.canonical_path@]
            } else {
                Seq::empty()
            }),
            out@.map_values(|s: String| s@) == head + files.manifests@.subrange(0, i as int).map_values(
                |m: ManifestFile| m.path@,
            ),
        decreases files.manifests@.len() - i,
    {
        let ghost prev = out@;
        out.push(copy_string(&files.manifests[i].path));
        i = i + 1;
        assert(out@.map_values(|s: String| s@) =~= prev.map_values(|s: String| s@).push(
            files.manifests@[i - 1].path@,
        ));
        assert(files.manifests@.subrange(0, i as int).map_values(|m: ManifestFile| m.path@)
            =~= files.manifests@.subrange(0, i - 1).map_values(|m: ManifestFile| m.path@).push(
            files.manifests@[i - 1].path@,
        ));
        assert(out@.map_values(|s: String| s@) =~= head + files.manifests@.subrange(0, i as int).map_values(
            |m: ManifestFile| m.path@,
        ));
    }
    assert(files.manifests@.subrange(0, i as int) == files.manifests@);
    out
}

/// Sets every manifest of the tree to the canonical version; the canonical
/// file itself stays as it is.
pub fn sync_cascade(files: &CascadeFiles) -> (r: Result<Vec<FileWrite>, VersionError>)
    ensures
        match files.canonical_version() {
            Some(_) => {
                let t = trim(version_part(files.canonical@));
                match r {
                    Ok(ws) => files.writable(t) && files.manifest_writes(t, ws@),
                    Err(_) => !files.writable(t),
                }
            },
            None => r is Err,
        },
{
    let cv = match read_canonical(files.canonical.as_str()) {
        Ok(v) => v,
        Err(e) => {
            return Err(e);
        },
    };
    let mut out: Vec<FileWrite> = Vec::new();
    match push_manifest_writes(files, &cv, &mut out) {
        Ok(()) => {
            assert(out@.subrange(0, out@.len() as int) == out@);
            Ok(out)
        },
        Err(e) => Err(e),
    }
}

/// What [`sync_cascade`] would write, without planning the contents.
pub fn sync_cascade_dry_run(files: &CascadeFiles) -> (r: Result<DryRunPlan, VersionError>)
    ensures
        match files.canonical_version() {
            Some(p) => r matches Ok(plan) && plan.new_version.parts() == p
                && plan.files_to_update@.map_values(|s: String| s@) == files.manifests@.map_values(
                |m: ManifestFile| m.path@,
            ),
            None => r is Err,
        },
{
    let cv = match read_canonical(files.canonical.as_str()) {
        Ok(v) => v,
        Err(e) => {
            return Err(e);
        },
    };
    let paths = planned_paths(files, false);
    assert(Seq::<Seq<char>>::empty() + files.manifests@.map_values(|m: ManifestFile| m.path@)
        =~= files.manifests@.map_values(|m: ManifestFile| m.path@));
    Ok(DryRunPlan { new_version: cv, files_to_update: paths })
}

/// Sets the canonical file (its comment kept) and every manifest of the tree
/// to the version `version_str`, in sync or not.
pub fn reset_cascade(files: &CascadeFiles, version_str: &str) -> (r: Result<Vec<FileWrite>, VersionError>)
    ensures
        match parse_spec(version_str@) {
            Some(_) => {
                let t = trim(version_str@);
                match r {
                    Ok(ws) => files.writable(t) && files.full_writes(
                        canonical_text(files.canonical@, t),
                        t,
                        ws@,
                    ),
                    Err(_) => !files.writable(t),
                }
            },
            None => r matches Err(VersionError::InvalidVersionFormat(_)),
        },
{
    let v = match Version::parse(version_str) {
        Ok(v) => v,
        Err(e) => {
            return Err(e);
        },
    };
    full_cascade(files, &v)
}

/// What [`reset_cascade`] would write, without planning the contents.
pub fn reset_cascade_dry_run(files: &CascadeFiles, version_str: &str) -> (r: Result<
    DryRunPlan,
    VersionError,
>)
    ensures
        match parse_spec(version_str@) {
            Some(p) => r matches Ok(plan) && plan.new_version.parts() == p
                && plan.files_to_update@.map_values(|s: String| s@) == seq![files.canonical_path@]
                + files.manifests@.map_values(|m: ManifestFile| m.path@),
            None => r matches Err(VersionError::InvalidVersionFormat(_)),
        },
{
    let v = match Version::parse(version_str) {
        Ok(v) => v,
        Err(e) => {
            return Err(e);
        },
    };
    let paths = planned_paths(files, true);
    Ok(DryRunPlan { new_version: v, files_to_update: paths })
}

/// The writes that undo `plan[0..=failed]`: each of those files goes back to
/// its original content, in the same order.
pub fn rollback_writes(plan: &Vec<FileWrite>, failed: usize) -> (r: Vec<FileWrite>)
    requires
        failed < plan@.len(),
    ensures
        r@.len() == failed + 1,
        forall|i: int|
            0 <= i <= failed ==> (#[trigger] r@[i]).path@ == plan@[i].path@ && r@[i].content@
                == plan@[i].original@ && r@[i].original@ == plan@[i].content@,
{
    let mut out: Vec<FileWrite> = Vec::new();
    let mut i: usize = 0;
    while i <= failed
        invariant
            failed < plan.len(),
            i <= failed + 1,
            out@.len() == i,
            forall|j: int|
                0 <= j < i ==> (#[trigger] out@[j]).path@ == plan@[j].path@ && out@[j].content@
                    == plan@[j].original@ && out@[j].original@ == plan@[j].content@,
        decreases failed + 1 - i,
    {
        let w = &plan[i];
        out.push(FileWrite { path: copy_string(&w.path), original: copy_string(&w.content), content: copy_string(&w.original) });
        i = i + 1;
    }
    out
}

/// A file system as a map from path to content, after `ws` (path, content)
/// are written in order.
pub open spec fn apply_writes(m: Map<Seq<char>, Seq<char>>, ws: Seq<(Seq<char>, Seq<char>)>) -> Map<
    Seq<char>,
    Seq<char>,
>
    decreases ws.len(),
{
    if ws.len() == 0 {
        m
    } else {
        apply_writes(m.insert(ws[0].0, ws[0].1), ws.drop_first())
    }
}

/// The (path, new content) pairs of a plan.
pub open spec fn forward(ws: Seq<FileWrite>) -> Seq<(Seq<char>, Seq<char>)> {
    ws.map_values(|w: FileWrite| (w.path@, w.content@))
}

/// The (path, original content) pairs of a plan.
pub open spec fn backward(ws: Seq<FileWrite>) -> Seq<(Seq<char>, Seq<char>)> {
    ws.map_values(|w: FileWrite| (w.path@, w.original@))
}

pub open spec fn writes_key(ws: Seq<(Seq<char>, Seq<char>)>, k: Seq<char>) -> bool {
    exists|i: int| 0 <= i < ws.len() && (#[trigger] ws[i]).0 == k
}

proof fn lemma_apply_outside(m: Map<Seq<char>, Seq<char>>, ws: Seq<(Seq<char>, Seq<char>)>, k: Seq<char>)
    ensures
        !writes_key(ws, k) ==> apply_writes(m, ws).contains_key(k) == m.contains_key(k)
            && apply_writes(m, ws)[k] == m[k],
        writes_key(ws, k) ==> apply_writes(m, ws).contains_key(k),
    decreases ws.len(),
{
    if ws.len() > 0 {
        let m2 = m.insert(ws[0].0, ws[0].1);
        let rest = ws.drop_first();
        lemma_apply_outside(m2, rest, k);
        if writes_key(rest, k) {
            let i = choose|i: int| 0 <= i < rest.len() && (#[trigger] rest[i]).0 == k;
            assert(ws[i + 1] == rest[i]);
        }
        if writes_key(ws, k) && !writes_key(rest, k) {
            let i = choose|i: int| 0 <= i < ws.len() && (#[trigger] ws[i]).0 == k;
            if i > 0 {
                assert(rest[i - 1] == ws[i]);
            }
        }
        if !writes_key(ws, k) {
            assert(ws[0].0 != k);
            if writes_key(rest, k) {
                let i = choose|i: int| 0 <= i < rest.len() && (#[trigger] rest[i]).0 == k;
                assert(ws[i + 1] == rest[i]);
            }
        }
    }
}

proof fn lemma_apply_restores(
    m: Map<Seq<char>, Seq<char>>,
    ws: Seq<(Seq<char>, Seq<char>)>,
    fs: Map<Seq<char>, Seq<char>>,
    k: Seq<char>,
)
    requires
        forall|i: int| 0 <= i < ws.len() ==> fs.contains_key((#[trigger] ws[i]).0) && fs[ws[i].0] == ws[i].1,
        writes_key(ws, k),
    ensures
        apply_writes(m, ws)[k] == fs[k],
    decreases ws.len(),
{
    let m2 = m.insert(ws[0].0, ws[0].1);
    let rest = ws.drop_first();
    assert forall|i: int| 0 <= i < rest.len() implies fs.contains_key((#[trigger] rest[i]).0) && fs[rest[i].0] == rest[i].1 by {
        assert(rest[i] == ws[i + 1]);
    }
    if writes_key(rest, k) {
        lemma_apply_restores(m2, rest, fs, k);
    } else {
        lemma_apply_outside(m2, rest, k);
        let i = choose|i: int| 0 <= i < ws.len() && (#[trigger] ws[i]).0 == k;
        if i > 0 {
            assert(rest[i - 1] == ws[i]);
        }
        assert(ws[0].0 == k);
    }
}

/// Rollback restores the tree: where a plan whose originals were read from
/// `fs` fails at write `failed` (after writes `0..failed` succeeded, and with
/// the failed file left in any state), writing back `rollback_writes` yields
/// `fs` again.
pub proof fn lemma_rollback_restores(
    fs: Map<Seq<char>, Seq<char>>,
    plan: Seq<FileWrite>,
    failed: int,
    partial: Seq<char>,
)
    requires
        0 <= failed < plan.len(),
        forall|i: int|
            0 <= i < plan.len() ==> fs.contains_key((#[trigger] plan[i]).path@) && fs[plan[i].path@]
                == plan[i].original@,
    ensures
        apply_writes(
            apply_writes(fs, forward(plan.subrange(0, failed))).insert(plan[failed].path@, partial),
            backward(plan.subrange(0, failed + 1)),
        ) == fs,
{
    let done = forward(plan.subrange(0, failed));
    let undo = backward(plan.subrange(0, failed + 1));
    let broken = apply_writes(fs, done).insert(plan[failed].path@, partial);
    let restored = apply_writes(broken, undo);
    assert forall|i: int| 0 <= i < undo.len() implies fs.contains_key((#[trigger] undo[i]).0) && fs[undo[i].0] == undo[i].1 by {
        assert(undo[i] == (plan[i].path@, plan[i].original@));
    }
    assert forall|k: Seq<char>| #[trigger] restored.contains_key(k) == fs.contains_key(k) by {
        lemma_apply_outside(broken, undo, k);
        lemma_apply_outside(fs, done, k);
        if writes_key(done, k) {
            let i = choose|i: int| 0 <= i < done.len() && (#[trigger] done[i]).0 == k;
            assert(done[i].0 == plan[i].path@);
            assert(undo[i].0 == plan[i].path@);
        }
        if k == plan[failed].path@ {
            assert(undo[failed].0 == k);
        }
    }
    assert forall|k: Seq<char>| #[trigger] restored.contains_key(k) implies restored[k] == fs[k] by {
        lemma_apply_outside(broken, undo, k);
        lemma_apply_outside(fs, done, k);
        if writes_key(undo, k) {
            lemma_apply_restores(broken, undo, fs, k);
        } else {
            if writes_key(done, k) {
                let i = choose|i: int| 0 <= i < done.len() && (#[trigger] done[i]).0 == k;
                assert(done[i].0 == plan[i].path@);
                assert(undo[i].0 == plan[i].path@);
            }
            assert(k != plan[failed].path@) by {
                if k == plan[failed].path@ {
                    assert(undo[failed].0 == k);
                }
            }
        }
    }
    assert(restored =~= fs);
}

} // verus!
