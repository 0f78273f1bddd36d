//! The canonical version file: one version, optionally followed by a
//! `# comment` that survives every rewrite.

use vstd::prelude::*;
use crate::error::VersionError;
use crate::text::{chars_of, push_all, push_str, string_from};
use crate::version::{parse_spec, Version};

verus! {

/// The characters of `s` before its first `c` (all of `s` where there is none).
pub open spec fn before_char(s: Seq<char>, c: char) -> Seq<char>
    decreases s.len(),
{
    if s.len() == 0 || s[0] == c {
        Seq::empty()
    } else {
        seq![s[0]] + before_char(s.drop_first(), c)
    }
}

/// The characters of `s` from its first `c` on (empty where there is none).
pub open spec fn from_char(s: Seq<char>, c: char) -> Seq<char>
    decreases s.len(),
{
    if s.len() == 0 || s[0] == c {
        s
    } else {
        from_char(s.drop_first(), c)
    }
}

/// The version part of the canonical file: everything before a `#`.
pub open spec fn version_part(content: Seq<char>) -> Seq<char> {
    before_char(content, '#')
}

/// The comment of the canonical file: from the first `#` to the end.
pub open spec fn comment_part(content: Seq<char>) -> Seq<char> {
    from_char(content, '#')
}

/// The canonical file that holds the rendered version `value`, keeping the
/// comment of the `existing` file verbatim.
pub open spec fn canonical_text(existing: Seq<char>, value: Seq<char>) -> Seq<char> {
    if comment_part(existing).len() > 0 {
        value + seq![' '] + comment_part(existing)
    } else {
        value + seq!['\n']
    }
}

proof fn lemma_split_at(s: Seq<char>, c: char, i: int)
    requires
        0 <= i <= s.len(),
        forall|k: int| 0 <= k < i ==> #[trigger] s[k] != c,
        i == s.len() || s[i] == c,
    ensures
        before_char(s, c) == s.subrange(0, i),
        from_char(s, c) == s.subrange(i, s.len() as int),
    decreases i,
{
    if i == 0 {
        assert(s.subrange(0, 0) =~= Seq::<char>::empty());
        assert(s.subrange(0, s.len() as int) == s);
    } else {
        let t = s.drop_first();
        assert forall|k: int| 0 <= k < i - 1 implies #[trigger] t[k] != c by {
            assert(t[k] == s[k + 1]);
        }
        lemma_split_at(t, c, i - 1);
        assert(s.subrange(0, i) == seq![s[0]] + t.subrange(0, i - 1));
        assert(t.subrange(i - 1, t.len() as int) == s.subrange(i, s.len() as int));
    }
}

/// The index of the first `#` of `s`, or its length.
fn comment_start(s: &Vec<char>) -> (r: usize)
    ensures
        r <= s@.len(),
        version_part(s@) == s@.subrange(0, r as int),
        comment_part(s@) == s@.subrange(r as int, s@.len() as int),
{
    let mut i: usize = 0;
    while i < s.len() && s[i] != '#'
        invariant
            i <= s@.len(),
            forall|k: int| 0 <= k < i ==> #[trigger] s@[k] != '#',
        decreases s@.len() - i,
    {
        i = i + 1;
    }
    proof {
        lemma_split_at(s@, '#', i as int);
    }
    i
}

/// Reads the version of the canonical file `content`, ignoring a trailing
/// `# comment` and surrounding white space.
pub fn read_canonical(content: &str) -> (r: Result<Version, VersionError>)
    ensures
        match parse_spec(version_part(content@)) {
            Some(p) => r matches Ok(v) && v.parts() == p && v.wf() && v.render() == crate::text::trim(
                version_part(content@),
            ),
            None => r matches Err(VersionError::InvalidVersionInFile(f, _)) && f@ == "VERSION"@,
        },
{
    let c = chars_of(content);
    let end = comment_start(&c);
    let head = string_from(&c.as_slice()[0..end]);
    assert(c@.subrange(0, end as int) == version_part(content@));
    match Version::parse(head.as_str()) {
        Ok(v) => Ok(v),
        Err(VersionError::InvalidVersionFormat(t)) => Err(
            VersionError::InvalidVersionInFile("VERSION".to_string(), t),
        ),
        Err(e) => Err(e),
    }
}

/// The new canonical file for `version`, given the `existing` one (empty
/// where there is none): `"{version} {comment}"` where it has a comment,
/// `"{version}\n"` otherwise.
pub fn canonical_content(existing: &str, version: &Version) -> (r: String)
    ensures
        r@ == canonical_text(existing@, version.render()),
{
    let c = chars_of(existing);
    let start = comment_start(&c);
    let mut out = chars_of(version.to_string().as_str());
    if start < c.len() {
        out.push(' ');
        push_all(&mut out, &c.as_slice()[start..c.len()]);
        assert(c@.subrange(start as int, c@.len() as int) == comment_part(existing@));
    } else {
        push_str(&mut out, "\n");
        assert(comment_part(existing@).len() == 0);
        assert("\n"@ == seq!['\n']) by {
            reveal_strlit("\n");
        }
    }
    string_from(out.as_slice())
}

} // verus!
