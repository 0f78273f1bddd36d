//! Finding the manifests of a tree, from a listing of its entries.
//!
//! The caller walks the directory tree (without following links) and hands
//! over every entry with its path split into components. Names starting with
//! `.` are hidden and skipped with everything below them, as is every name
//! that a line of the root's ignore file names (one literal name per line,
//! surrounding `/` and white space ignored, `#` starting a comment line).

use vstd::prelude::*;
use crate::error::VersionError;
use crate::manifest::BuildSystem;
use crate::text::{chars_of, is_space, push_all, same_chars, string_from, trim, trim_range};

verus! {

/// What an entry of the tree is.
#[derive(Clone, Copy, Debug, PartialEq, Eq, Structural)]
pub enum EntryKind {
    File,
    Directory,
    Symlink,
}

/// An entry of the tree: its path below the root, one component per element.
#[derive(Clone, Debug)]
pub struct TreeEntry {
    pub components: Vec<String>,
    pub kind: EntryKind,
}

/// A manifest found in the tree.
#[derive(Clone, Debug)]
pub struct ManifestRecord {
    pub components: Vec<String>,
    pub kind: BuildSystem,
}

/// `s[i..j]` is a whole line of `s`.
pub open spec fn line_at(s: Seq<char>, i: int, j: int) -> bool {
    &&& 0 <= i <= j <= s.len()
    &&& (i == 0 || s[i - 1] == '\n')
    &&& (j == s.len() || s[j] == '\n')
    &&& forall|k: int| i <= k < j ==> s[k] != '\n'
}

/// A line without surrounding white space and without one leading and one
/// trailing `/`.
pub open spec fn pattern_of(line: Seq<char>) -> Seq<char> {
    let t = trim(line);
    let a = if t.len() > 0 && t[0] == '/' { 1int } else { 0int };
    let b = if t.len() > a && t.last() == '/' { t.len() - 1 } else { t.len() as int };
    t.subrange(a, b)
}

pub open spec fn is_comment(line: Seq<char>) -> bool {
    trim(line).len() > 0 && trim(line)[0] == '#'
}

/// The ignore file `ignore` names `name` on a line of its own.
pub open spec fn ignores_name(ignore: Seq<char>, name: Seq<char>) -> bool {
    name.len() > 0 && exists|i: int, j: int|
        #[trigger] line_at(ignore, i, j) && !is_comment(ignore.subrange(i, j)) && pattern_of(
            ignore.subrange(i, j),
        ) == name
}

pub open spec fn hidden(name: Seq<char>) -> bool {
    name.len() > 0 && name[0] == '.'
}

pub open spec fn names(cs: Seq<String>) -> Seq<Seq<char>> {
    cs.map_values(|c: String| c@)
}

/// Some component of the path is hidden or ignored.
pub open spec fn excluded(ignore: Seq<char>, cs: Seq<Seq<char>>) -> bool {
    exists|k: int| 0 <= k < cs.len() && (hidden(#[trigger] cs[k]) || ignores_name(ignore, cs[k]))
}

/// The kind of manifest that a file of this name is.
pub open spec fn manifest_kind(name: Seq<char>) -> Option<BuildSystem> {
    if name == BuildSystem::Cargo.file_name_spec() {
        Some(BuildSystem::Cargo)
    } else if name == BuildSystem::PyProject.file_name_spec() {
        Some(BuildSystem::PyProject)
    } else if name == BuildSystem::PackageJson.file_name_spec() {
        Some(BuildSystem::PackageJson)
    } else {
        None
    }
}

/// The entry is visible and makes discovery fail: a link, or a canonical
/// file below the root.
pub open spec fn rejects(ignore: Seq<char>, canonical: Seq<char>, e: TreeEntry) -> bool {
    let cs = names(e.components@);
    &&& !excluded(ignore, cs)
    &&& cs.len() > 0
    &&& (e.kind == EntryKind::Symlink || (e.kind == EntryKind::File && cs.len() > 1 && cs.last()
        == canonical))
}

/// The manifest kind of a visible file entry, if it is one.
pub open spec fn record_kind(ignore: Seq<char>, canonical: Seq<char>, e: TreeEntry) -> Option<
    BuildSystem,
> {
    let cs = names(e.components@);
    if !excluded(ignore, cs) && cs.len() > 0 && e.kind == EntryKind::File && cs.last() != canonical {
        manifest_kind(cs.last())
    } else {
        None
    }
}

/// The manifests among `es`, in order.
pub open spec fn records(ignore: Seq<char>, canonical: Seq<char>, es: Seq<TreeEntry>) -> Seq<
    (Seq<Seq<char>>, BuildSystem),
>
    decreases es.len(),
{
    if es.len() == 0 {
        Seq::empty()
    } else {
        let e = es.last();
        records(ignore, canonical, es.drop_last()) + match record_kind(ignore, canonical, e) {
            Some(k) => seq![(names(e.components@), k)],
            None => Seq::empty(),
        }
    }
}

/// No manifest that discovery reports lies under a hidden path or a path
/// that the ignore file names.
pub proof fn lemma_ignored_paths_absent(ignore: Seq<char>, canonical: Seq<char>, es: Seq<TreeEntry>)
    ensures
        forall|i: int|
            0 <= i < records(ignore, canonical, es).len() ==> !excluded(
                ignore,
                (#[trigger] records(ignore, canonical, es)[i]).0,
            ),
    decreases es.len(),
{
    if es.len() > 0 {
        lemma_ignored_paths_absent(ignore, canonical, es.drop_last());
        let prev = records(ignore, canonical, es.drop_last());
        let all = records(ignore, canonical, es);
        assert forall|i: int| 0 <= i < all.len() implies !excluded(ignore, (#[trigger] all[i]).0) by {
            if i < prev.len() {
                assert(all[i] == prev[i]);
            }
        }
    }
}

/// Components joined with `/`.
pub open spec fn join_path(cs: Seq<Seq<char>>) -> Seq<char>
    decreases cs.len(),
{
    if cs.len() == 0 {
        Seq::empty()
    } else if cs.len() == 1 {
        cs[0]
    } else {
        join_path(cs.drop_last()) + seq!['/'] + cs.last()
    }
}

/// Whether `s[i..j]`, a line, names `name`.
fn line_names(s: &Vec<char>, i: usize, j: usize, name: &Vec<char>) -> (r: bool)
    requires
        i <= j <= s@.len(),
    ensures
        r == (!is_comment(s@.subrange(i as int, j as int)) && pattern_of(s@.subrange(i as int, j as int))
            == name@),
{
    let t = trim_range(s, i, j);
    if t.len() > 0 && t[0] == '#' {
        return false;
    }
    let a: usize = if t.len() > 0 && t[0] == '/' { 1 } else { 0 };
    let b: usize = if t.len() > a && t[t.len() - 1] == '/' { t.len() - 1 } else { t.len() };
    let p: &[char] = &t.as_slice()[a..b];
    assert(p@ == pattern_of(s@.subrange(i as int, j as int)));
    same_chars(p, name.as_slice())
}

/// Whether the ignore file `s` names `name`.
fn ignored_name(s: &Vec<char>, name: &Vec<char>) -> (r: bool)
    ensures
        r == ignores_name(s@, name@),
{
    if name.len() == 0 {
        return false;
    }
    let mut start: usize = 0;
    loop
        invariant
            start <= s@.len(),
            name@.len() > 0,
            start == 0 || s@[start - 1] == '\n',
            forall|i: int, j: int|
                i < start && #[trigger] line_at(s@, i, j) ==> !(!is_comment(s@.subrange(i, j))
                    && pattern_of(s@.subrange(i, j)) == name@),
        decreases s@.len() - start,
    {
        let mut end: usize = start;
        while end < s.len() && s[end] != '\n'
            invariant
                start <= end <= s@.len(),
                forall|k: int| start <= k < end ==> s@[k] != '\n',
            decreases s@.len() - end,
        {
            end = end + 1;
        }
        assert(line_at(s@, start as int, end as int));
        if line_names(s, start, end, name) {
            return true;
        }
        assert forall|i: int, j: int|
            i <= end && #[trigger] line_at(s@, i, j) implies !(!is_comment(s@.subrange(i, j))
            && pattern_of(s@.subrange(i, j)) == name@) by {
            if start < i <= end {
                assert(s@[i - 1] != '\n');
            }
            if i == start {
                if j < end {
                    assert(s@[j] != '\n');
                }
                if j > end {
                    assert(s@[end as int] != '\n');
                }
            }
        }
        if end == s.len() {
            assert forall|i: int, j: int| #[trigger] line_at(s@, i, j) implies !(!is_comment(
                s@.subrange(i, j),
            ) && pattern_of(s@.subrange(i, j)) == name@) by {}
            return false;
        }
        start = end + 1;
    }
}

/// Whether some component of `cs` is hidden or named by the ignore file `s`.
fn is_excluded(s: &Vec<char>, cs: &Vec<String>) -> (r: bool)
    ensures
        r == excluded(s@, names(cs@)),
{
    let mut k: usize = 0;
    while k < cs.len()
        invariant
            k <= cs@.len(),
            forall|m: int|
                0 <= m < k ==> !(hidden(#[trigger] names(cs@)[m]) || ignores_name(s@, names(cs@)[m])),
        decreases cs@.len() - k,
    {
        let c = chars_of(cs[k].as_str());
        assert(c@ == names(cs@)[k as int]);
        if c.len() > 0 && c[0] == '.' {
            return true;
        }
        if ignored_name(s, &c) {
            return true;
        }
        k = k + 1;
    }
    false
}

/// The components joined with `/`.
fn join_components(cs: &Vec<String>) -> (r: String)
    ensures
        r@ == join_path(names(cs@)),
{
    let mut out: Vec<char> = Vec::new();
    let mut k: usize = 0;
    while k < cs.len()
        invariant
            k <= cs@.len(),
            out@ == join_path(names(cs@).subrange(0, k as int)),
        decreases cs@.len() - k,
    {
        if k > 0 {
            out.push('/');
        }
        let c = chars_of(cs[k].as_str());
        push_all(&mut out, c.as_slice());
        k = k + 1;
        assert(names(cs@).subrange(0, k as int).drop_last() == names(cs@).subrange(0, k - 1));
    }
    assert(names(cs@).subrange(0, cs@.len() as int) == names(cs@));
    string_from(out.as_slice())
}

fn manifest_kind_exec(name: &Vec<char>) -> (r: Option<BuildSystem>)
    ensures
        r == manifest_kind(name@),
{
    if same_chars(name.as_slice(), chars_of(BuildSystem::Cargo.file_name()).as_slice()) {
        Some(BuildSystem::Cargo)
    } else if same_chars(name.as_slice(), chars_of(BuildSystem::PyProject.file_name()).as_slice()) {
        Some(BuildSystem::PyProject)
    } else if same_chars(name.as_slice(), chars_of(BuildSystem::PackageJson.file_name()).as_slice()) {
        Some(BuildSystem::PackageJson)
    } else {
        None
    }
}

fn copy_components(cs: &Vec<String>) -> (r: Vec<String>)
    ensures
        names(r@) == names(cs@),
{
    let mut out: Vec<String> = Vec::new();
    let mut k: usize = 0;
    while k < cs.len()
        invariant
            k <= cs@.len(),
            names(out@) == names(cs@).subrange(0, k as int),
        decreases cs@.len() - k,
    {
        let ghost prev = out@;
        out.push(string_from(chars_of(cs[k].as_str()).as_slice()));
        k = k + 1;
        assert(names(out@) =~= names(prev).push(cs@[k - 1]@));
        assert(names(out@) =~= names(cs@).subrange(0, k as int));
    }
    assert(names(cs@).subrange(0, k as int) == names(cs@));
    out
}

/// Finds the manifests of a tree, in the order of `entries`. Fails on the
/// first visible symbolic link, and on the first visible file named like the
/// canonical file below the root; the one at the root is no manifest.
pub fn find_manifests(entries: &Vec<TreeEntry>, ignore_file: &str, canonical_name: &str) -> (r:
    Result<Vec<ManifestRecord>, VersionError>)
    ensures
        match r {
            Ok(rs) => (forall|i: int|
                0 <= i < entries@.len() ==> !rejects(ignore_file@, canonical_name@, #[trigger] entries@[i]))
                && rs@.map_values(|m: ManifestRecord| (names(m.components@), m.kind)) == records(
                ignore_file@,
                canonical_name@,
                entries@,
            ),
            Err(e) => exists|i: int|
                0 <= i < entries@.len() && rejects(ignore_file@, canonical_name@, #[trigger] entries@[i])
                    && (forall|j: int| 0 <= j < i ==> !rejects(ignore_file@, canonical_name@, #[trigger] entries@[j]))
                    && if entries@[i].kind == EntryKind::Symlink {
                    e matches VersionError::SymlinkNotSupported(p) && p@ == join_path(names(entries@[i].components@))
                } else {
                    e matches VersionError::NestedCanonicalFile(p) && p@ == join_path(names(entries@[i].components@))
                },
        },
{
    let ign = chars_of(ignore_file);
    let canon = chars_of(canonical_name);
    let mut out: Vec<ManifestRecord> = Vec::new();
    let mut i: usize = 0;
    while i < entries.len()
        invariant
            i <= entries@.len(),
            ign@ == ignore_file@,
            canon@ == canonical_name@,
            forall|j: int| 0 <= j < i ==> !rejects(ignore_file@, canonical_name@, #[trigger] entries@[j]),
            out@.map_values(|m: ManifestRecord| (names(m.components@), m.kind)) == records(
                ignore_file@,
                canonical_name@,
                entries@.subrange(0, i as int),
            ),
        decreases entries@.len() - i,
    {
        let e = &entries[i];
        let ghost prev = out@;
        assert(entries@.subrange(0, i + 1).drop_last() == entries@.subrange(0, i as int));
        assert(entries@.subrange(0, i + 1).last() == entries@[i as int]);
        if e.components.len() > 0 && !is_excluded(&ign, &e.components) {
            let ghost cs = names(e.components@);
            if e.kind == EntryKind::Symlink {
                return Err(VersionError::SymlinkNotSupported(join_components(&e.components)));
            }
            if e.kind == EntryKind::File {
                let last = chars_of(e.components[e.components.len() - 1].as_str());
                assert(last@ == cs.last());
                if same_chars(last.as_slice(), canon.as_slice()) {
                    if e.components.len() > 1 {
                        return Err(VersionError::NestedCanonicalFile(join_components(&e.components)));
                    }
                } else {
                    match manifest_kind_exec(&last) {
                        Some(k) => {
                            out.push(ManifestRecord { components: copy_components(&e.components), kind: k });
                            assert(out@.map_values(|m: ManifestRecord| (names(m.components@), m.kind))
                                =~= prev.map_values(|m: ManifestRecord| (names(m.components@), m.kind)).push(
                                (cs, k),
                            ));
                        },
                        None => {},
                    }
                }
            }
        }
        i = i + 1;
        assert(out@.map_values(|m: ManifestRecord| (names(m.components@), m.kind)) =~= records(
            ignore_file@,
            canonical_name@,
            entries@.subrange(0, i as int),
        ));
    }
    assert(entries@.subrange(0, i as int) == entries@);
    Ok(out)
}

} // verus!
