//! Release tags: the next release candidate from existing tags, and tag
//! names from templates.

use vstd::prelude::*;
use crate::error::VersionError;
use crate::text::{chars_of, dec, decimal, push_all, push_str, string_from};
use crate::version::{render_of, Parts, Version};

verus! {

pub open spec fn is_digit(c: char) -> bool {
    '0' <= c && c <= '9'
}

/// The number that a string of decimal digits denotes.
pub open spec fn digits_value(s: Seq<char>) -> nat
    decreases s.len(),
{
    if s.len() == 0 {
        0
    } else {
        digits_value(s.drop_last()) * 10 + (s.last() as nat - '0' as nat) as nat
    }
}

pub open spec fn has_prefix(s: Seq<char>, p: Seq<char>) -> bool {
    p.len() <= s.len() && s.subrange(0, p.len() as int) == p
}

/// The tag prefix of the release candidates of `v`: `v{M}.{m}.{p}-rc.`.
pub open spec fn rc_prefix(v: Parts) -> Seq<char> {
    seq!['v'] + render_of((v.0, v.1, v.2, Seq::empty(), Seq::empty())) + "-rc."@
}

/// The ordinal of a release-candidate tag: the prefix, then digits whose value fits 64 bits.
pub open spec fn rc_ordinal(tag: Seq<char>, prefix: Seq<char>) -> Option<nat> {
    let rest = tag.subrange(prefix.len() as int, tag.len() as int);
    if has_prefix(tag, prefix) && rest.len() > 0 && (forall|i: int| 0 <= i < rest.len() ==> is_digit(
        #[trigger] rest[i],
    )) && digits_value(rest) <= u64::MAX {
        Some(digits_value(rest))
    } else {
        None
    }
}

/// The highest ordinal among `tags`, 0 where there is none.
pub open spec fn max_rc(tags: Seq<Seq<char>>, prefix: Seq<char>) -> nat
    decreases tags.len(),
{
    if tags.len() == 0 {
        0
    } else {
        let m = max_rc(tags.drop_last(), prefix);
        match rc_ordinal(tags.last(), prefix) {
            Some(n) => if n > m {
                n
            } else {
                m
            },
            None => m,
        }
    }
}

pub open spec fn views(ss: Seq<String>) -> Seq<Seq<char>> {
    ss.map_values(|s: String| s@)
}

/// The digits of `s` as a number, where all are digits and the value fits.
fn parse_ordinal(s: &[char]) -> (r: Option<u64>)
    ensures
        match r {
            Some(n) => s@.len() > 0 && (forall|i: int| 0 <= i < s@.len() ==> is_digit(#[trigger] s@[i]))
                && n as nat == digits_value(s@),
            None => !(s@.len() > 0 && (forall|i: int| 0 <= i < s@.len() ==> is_digit(#[trigger] s@[i]))
                && digits_value(s@) <= u64::MAX),
        },
{
    if s.len() == 0 {
        return None;
    }
    let mut v: u64 = 0;
    let mut i: usize = 0;
    while i < s.len()
        invariant
            i <= s@.len(),
            forall|k: int| 0 <= k < i ==> is_digit(#[trigger] s@[k]),
            v as nat == digits_value(s@.subrange(0, i as int)),
        decreases s@.len() - i,
    {
        let c = s[i];
        assert(s@.subrange(0, i + 1).drop_last() == s@.subrange(0, i as int));
        if !('0' <= c && c <= '9') {
            return None;
        }
        let d = (c as u32 - '0' as u32) as u64;
        if v > (u64::MAX - d) / 10 {
            proof {
                lemma_digits_grow(s@, i as int);
            }
            return None;
        }
        v = v * 10 + d;
        i = i + 1;
    }
    assert(s@.subrange(0, i as int) == s@);
    Some(v)
}

/// A prefix's value never exceeds the whole's, for all-digit strings.
proof fn lemma_digits_prefix_le(s: Seq<char>, j: int)
    requires
        0 <= j <= s.len(),
        forall|i: int| 0 <= i < s.len() ==> is_digit(#[trigger] s[i]),
    ensures
        digits_value(s.subrange(0, j)) <= digits_value(s),
    decreases s.len() - j,
{
    if j < s.len() {
        lemma_digits_prefix_le(s, j + 1);
        assert(s.subrange(0, j + 1).drop_last() == s.subrange(0, j));
    } else {
        assert(s.subrange(0, j) == s);
    }
}

proof fn lemma_digits_grow(s: Seq<char>, i: int)
    requires
        0 <= i < s.len(),
        digits_value(s.subrange(0, i)) * 10 + (s[i] as nat - '0' as nat) > u64::MAX,
    ensures
        !(forall|k: int| 0 <= k < s.len() ==> is_digit(#[trigger] s[k])) || digits_value(s) > u64::MAX,
{
    if forall|k: int| 0 <= k < s.len() ==> is_digit(#[trigger] s[k]) {
        lemma_digits_prefix_le(s, i + 1);
        assert(s.subrange(0, i + 1).drop_last() == s.subrange(0, i));
    }
}

/// The tag-name prefix `v{M}.{m}.{p}-rc.` of the release candidates of `v`.
fn rc_prefix_exec(v: &Version) -> (r: Vec<char>)
    ensures
        r@ == rc_prefix(v.parts()),
{
    let core = Version::new(v.major, v.minor, v.patch);
    let mut out: Vec<char> = vec!['v'];
    push_str(&mut out, core.to_string().as_str());
    push_str(&mut out, "-rc.");
    out
}

/// The version-control tag pattern that lists the release candidates of `v`.
pub fn rc_tag_pattern(v: &Version) -> (r: String)
    ensures
        r@ == rc_prefix(v.parts()) + seq!['*'],
{
    let mut out = rc_prefix_exec(v);
    out.push('*');
    string_from(out.as_slice())
}

/// The next release candidate of `current`, given the existing tags: the
/// highest `v{M}.{m}.{p}-rc.{n}` among them (0 where none) plus one, as the
/// pre-release `rc.{n+1}`. Refused where `current` already has a pre-release.
pub fn next_rc_version(current: &Version, tags: &Vec<String>) -> (r: Result<Version, VersionError>)
    ensures
        current.pre@.len() > 0 ==> r == Err::<Version, VersionError>(VersionError::CleanVersionRequired),
        current.pre@.len() == 0 ==> {
            let n = max_rc(views(tags@), rc_prefix(current.parts()));
            if n < u64::MAX {
                r matches Ok(v) && v.major == current.major && v.minor == current.minor && v.patch
                    == current.patch && v.pre@ == "rc."@ + dec(n + 1) && v.build@.len() == 0
            } else {
                r == Err::<Version, VersionError>(VersionError::VersionOverflow)
            }
        },
{
    if chars_of(current.pre.as_str()).len() > 0 {
        return Err(VersionError::CleanVersionRequired);
    }
    let prefix = rc_prefix_exec(current);
    let ghost pv = prefix@;
    let mut best: u64 = 0;
    let mut i: usize = 0;
    while i < tags.len()
        invariant
            i <= tags@.len(),
            pv == prefix@,
            best as nat == max_rc(views(tags@).subrange(0, i as int), pv),
        decreases tags@.len() - i,
    {
        let t = chars_of(tags[i].as_str());
        let ghost ts = views(tags@).subrange(0, i + 1);
        assert(ts.drop_last() == views(tags@).subrange(0, i as int));
        assert(ts.last() == t@);
        if prefix.len() <= t.len() && same_prefix(&t, &prefix) {
            let rest: &[char] = &t.as_slice()[prefix.len()..t.len()];
            assert(rest@ == t@.subrange(prefix@.len() as int, t@.len() as int));
            match parse_ordinal(rest) {
                Some(n) => {
                    if n > best {
                        best = n;
                    }
                },
                None => {},
            }
        }
        i = i + 1;
    }
    assert(views(tags@).subrange(0, i as int) == views(tags@));
    if best == u64::MAX {
        return Err(VersionError::VersionOverflow);
    }
    let mut pre: Vec<char> = Vec::new();
    push_str(&mut pre, "rc.");
    let digits = decimal(best + 1);
    push_all(&mut pre, digits.as_slice());
    Ok(
        Version {
            major: current.major,
            minor: current.minor,
            patch: current.patch,
            pre: string_from(pre.as_slice()),
            build: String::new(),
        },
    )
}

/// Whether `t` starts with `p`.
fn same_prefix(t: &Vec<char>, p: &Vec<char>) -> (r: bool)
    requires
        p@.len() <= t@.len(),
    ensures
        r == has_prefix(t@, p@),
{
    let mut i: usize = 0;
    while i < p.len()
        invariant
            p@.len() <= t@.len(),
            i <= p@.len(),
            forall|k: int| 0 <= k < i ==> t@[k] == p@[k],
        decreases p@.len() - i,
    {
        if t[i] != p[i] {
            assert(t@.subrange(0, p@.len() as int)[i as int] != p@[i as int]);
            return false;
        }
        i = i + 1;
    }
    assert(t@.subrange(0, p@.len() as int) =~= p@);
    true
}

/// The template `t` with each placeholder replaced, in one pass from left to
/// right: `{repository_name}`, `{version}`, `{major}`, `{minor}`, `{patch}`.
/// Anything else, unknown placeholders included, stays as it is.
pub open spec fn expand(t: Seq<char>, repo: Seq<char>, v: Parts) -> Seq<char>
    decreases t.len(),
{
    if t.len() == 0 {
        Seq::empty()
    } else if has_prefix(t, "{repository_name}"@) && "{repository_name}"@.len() > 0 {
        repo + expand(t.subrange("{repository_name}"@.len() as int, t.len() as int), repo, v)
    } else if has_prefix(t, "{version}"@) && "{version}"@.len() > 0 {
        render_of(v) + expand(t.subrange("{version}"@.len() as int, t.len() as int), repo, v)
    } else if has_prefix(t, "{major}"@) && "{major}"@.len() > 0 {
        dec(v.0 as nat) + expand(t.subrange("{major}"@.len() as int, t.len() as int), repo, v)
    } else if has_prefix(t, "{minor}"@) && "{minor}"@.len() > 0 {
        dec(v.1 as nat) + expand(t.subrange("{minor}"@.len() as int, t.len() as int), repo, v)
    } else if has_prefix(t, "{patch}"@) && "{patch}"@.len() > 0 {
        dec(v.2 as nat) + expand(t.subrange("{patch}"@.len() as int, t.len() as int), repo, v)
    } else {
        seq![t[0]] + expand(t.drop_first(), repo, v)
    }
}

/// Whether `t[i..]` starts with `p`.
fn prefix_at(t: &Vec<char>, i: usize, p: &Vec<char>) -> (r: bool)
    requires
        i <= t@.len(),
    ensures
        r == has_prefix(t@.subrange(i as int, t@.len() as int), p@),
{
    let ghost rest = t@.subrange(i as int, t@.len() as int);
    if p.len() > t.len() - i {
        return false;
    }
    let mut k: usize = 0;
    while k < p.len()
        invariant
            i + p.len() <= t.len(),
            rest == t@.subrange(i as int, t@.len() as int),
            k <= p@.len(),
            forall|m: int| 0 <= m < k ==> rest[m] == p@[m],
        decreases p@.len() - k,
    {
        if t[i + k] != p[k] {
            assert(rest.subrange(0, p@.len() as int)[k as int] != p@[k as int]);
            return false;
        }
        k = k + 1;
    }
    assert(rest.subrange(0, p@.len() as int) =~= p@);
    true
}

/// The placeholders and what each stands for.
struct Placeholders {
    names: Vec<Vec<char>>,
    values: Vec<Vec<char>>,
}

pub open spec fn placeholder_names() -> Seq<Seq<char>> {
    seq!["{repository_name}"@, "{version}"@, "{major}"@, "{minor}"@, "{patch}"@]
}

pub open spec fn placeholder_values(repo: Seq<char>, v: Parts) -> Seq<Seq<char>> {
    seq![repo, render_of(v), dec(v.0 as nat), dec(v.1 as nat), dec(v.2 as nat)]
}

impl Placeholders {
    spec fn wf(&self, repo: Seq<char>, v: Parts) -> bool {
        &&& self.names@.len() == 5
        &&& self.values@.len() == 5
        &&& forall|k: int| 0 <= k < 5 ==> (#[trigger] self.names@[k])@ == placeholder_names()[k]
        &&& forall|k: int| 0 <= k < 5 ==> (#[trigger] self.values@[k])@ == placeholder_values(repo, v)[k]
    }
}

/// Expands the placeholder or character at `t[i..]`: what it becomes, and
/// how many characters it takes.
fn expand_step(t: &Vec<char>, i: usize, ph: &Placeholders, Ghost(repo): Ghost<Seq<char>>, Ghost(v): Ghost<Parts>) -> (r: (usize, usize))
    requires
        i < t@.len(),
        ph.wf(repo, v),
    ensures
        i < i + r.1 <= t@.len(),
        r.0 <= 5,
        expand(t@.subrange(i as int, t@.len() as int), repo, v) == (if r.0 < 5 {
            placeholder_values(repo, v)[r.0 as int]
        } else {
            seq![t@[i as int]]
        }) + expand(t@.subrange(i + r.1, t@.len() as int), repo, v),
{
    let ghost rest = t@.subrange(i as int, t@.len() as int);
    let mut k: usize = 0;
    while k < 5
        invariant
            k <= 5,
            i < t@.len(),
            ph.wf(repo, v),
            rest == t@.subrange(i as int, t@.len() as int),
            forall|m: int| 0 <= m < k ==> !(has_prefix(rest, #[trigger] placeholder_names()[m]) && placeholder_names()[m].len() > 0),
        decreases 5 - k,
    {
        let n = &ph.names[k];
        if n.len() > 0 && prefix_at(t, i, n) {
            assert(rest.subrange(n@.len() as int, rest.len() as int) == t@.subrange(i + n@.len(), t@.len() as int));
            assert(placeholder_names()[k as int] == n@);
            return (k, n.len());
        }
        k = k + 1;
    }
    assert(rest.drop_first() == t@.subrange(i + 1, t@.len() as int));
    assert(rest[0] == t@[i as int]);
    assert(!(has_prefix(rest, placeholder_names()[0]) && placeholder_names()[0].len() > 0));
    assert(!(has_prefix(rest, placeholder_names()[1]) && placeholder_names()[1].len() > 0));
    assert(!(has_prefix(rest, placeholder_names()[2]) && placeholder_names()[2].len() > 0));
    assert(!(has_prefix(rest, placeholder_names()[3]) && placeholder_names()[3].len() > 0));
    assert(!(has_prefix(rest, placeholder_names()[4]) && placeholder_names()[4].len() > 0));
    (5, 1)
}

/// Expands the placeholders of a tag template for `version` in a repository
/// named `repository_name` (see `expand`).
pub fn format_tag(template: &str, repository_name: &str, version: &Version) -> (r: String)
    ensures
        r@ == expand(template@, repository_name@, version.parts()),
{
    let ghost repo = repository_name@;
    let ghost v = version.parts();
    let t = chars_of(template);
    let ph = Placeholders {
        names: vec![
            chars_of("{repository_name}"),
            chars_of("{version}"),
            chars_of("{major}"),
            chars_of("{minor}"),
            chars_of("{patch}"),
        ],
        values: vec![
            chars_of(repository_name),
            chars_of(version.to_string().as_str()),
            decimal(version.major),
            decimal(version.minor),
            decimal(version.patch),
        ],
    };
    assert(ph.wf(repo, v)) by {
        assert forall|k: int| 0 <= k < 5 implies (#[trigger] ph.names@[k])@ == placeholder_names()[k] by {}
        assert forall|k: int| 0 <= k < 5 implies (#[trigger] ph.values@[k])@ == placeholder_values(repo, v)[k] by {}
    }
    let ghost e = expand(template@, repo, v);
    let mut out: Vec<char> = Vec::new();
    let mut i: usize = 0;
    assert(t@.subrange(0, t@.len() as int) == t@);
    while i < t.len()
        invariant
            i <= t@.len(),
            ph.wf(repo, v),
            e == expand(t@, repo, v),
            out@ + expand(t@.subrange(i as int, t@.len() as int), repo, v) == e,
        decreases t@.len() - i,
    {
        let (k, step) = expand_step(&t, i, &ph, Ghost(repo), Ghost(v));
        if k < 5 {
            push_all(&mut out, ph.values[k].as_slice());
        } else {
            out.push(t[i]);
        }
        i = i + step;
    }
    assert(t@.subrange(i as int, t@.len() as int) =~= Seq::<char>::empty());
    assert(out@ =~= e);
    string_from(out.as_slice())
}

/// The characters of `s` after its last `c` (all of `s` where there is none).
pub open spec fn after_last(s: Seq<char>, c: char) -> Seq<char>
    decreases s.len(),
{
    if s.len() == 0 || s.last() == c {
        Seq::empty()
    } else {
        after_last(s.drop_last(), c).push(s.last())
    }
}

pub open spec fn has_suffix(s: Seq<char>, p: Seq<char>) -> bool {
    p.len() <= s.len() && s.subrange(s.len() - p.len(), s.len() as int) == p
}

/// The repository name in a remote URL: without a trailing `.git`, the part
/// after the last `/`, or where there is no `/`, after the last `:`.
pub open spec fn repo_name_of(url: Seq<char>) -> Seq<char> {
    let s = if has_suffix(url, ".git"@) {
        url.subrange(0, url.len() - ".git"@.len())
    } else {
        url
    };
    if s.contains('/') {
        after_last(s, '/')
    } else {
        after_last(s, ':')
    }
}

/// The characters of `s[0..end]` after its last `c`.
fn after_last_exec(s: &Vec<char>, end: usize, c: char) -> (r: (Vec<char>, bool))
    requires
        end <= s@.len(),
    ensures
        r.0@ == after_last(s@.subrange(0, end as int), c),
        r.1 == s@.subrange(0, end as int).contains(c),
{
    let mut j: usize = end;
    while j > 0 && s[j - 1] != c
        invariant
            j <= end <= s@.len(),
            after_last(s@.subrange(0, end as int), c) == after_last(s@.subrange(0, j as int), c)
                + s@.subrange(j as int, end as int),
            forall|k: int| j <= k < end ==> s@[k] != c,
        decreases j,
    {
        let ghost pre = s@.subrange(0, j as int);
        assert(pre.drop_last() == s@.subrange(0, j - 1));
        assert(s@.subrange(j - 1, end as int) == seq![s@[j - 1]] + s@.subrange(j as int, end as int));
        j = j - 1;
        assert(after_last(pre, c) == after_last(s@.subrange(0, j as int), c).push(s@[j as int]));
    }
    let ghost pre = s@.subrange(0, j as int);
    assert(after_last(pre, c) =~= Seq::<char>::empty());
    let mut out: Vec<char> = Vec::new();
    push_all(&mut out, &s.as_slice()[j..end]);
    assert(out@ =~= after_last(s@.subrange(0, end as int), c));
    let found = j > 0;
    proof {
        let whole = s@.subrange(0, end as int);
        if found {
            assert(whole[j - 1] == c);
        } else {
            assert forall|k: int| 0 <= k < whole.len() implies whole[k] != c by {
                assert(whole[k] == s@[k]);
            }
        }
    }
    (out, found)
}

/// The repository name that a remote URL gives, where it is not empty.
pub fn extract_repo_name_from_url(url: &str) -> (r: Option<String>)
    ensures
        match r {
            Some(n) => n@ == repo_name_of(url@) && n@.len() > 0,
            None => repo_name_of(url@).len() == 0,
        },
{
    let s = chars_of(url);
    let suffix = chars_of(".git");
    let ghost stripped = if has_suffix(url@, ".git"@) {
        url@.subrange(0, url@.len() - ".git"@.len())
    } else {
        url@
    };
    let mut end: usize = s.len();
    if suffix.len() <= s.len() && prefix_at(&s, s.len() - suffix.len(), &suffix) {
        end = s.len() - suffix.len();
        assert(s@.subrange(end as int, s@.len() as int).subrange(0, suffix@.len() as int)
            == s@.subrange(end as int, s@.len() as int));
        assert(has_suffix(url@, ".git"@));
    } else {
        proof {
            if suffix@.len() <= s@.len() {
                assert(s@.subrange(s@.len() - suffix@.len(), s@.len() as int).subrange(
                    0,
                    suffix@.len() as int,
                ) == s@.subrange(s@.len() - suffix@.len(), s@.len() as int));
            }
            assert(!has_suffix(url@, ".git"@));
        }
    }
    assert(s@.subrange(0, end as int) == stripped);
    let (slash, has_slash) = after_last_exec(&s, end, '/');
    let name = if has_slash {
        slash
    } else {
        let (colon, _) = after_last_exec(&s, end, ':');
        colon
    };
    if name.len() == 0 {
        None
    } else {
        Some(string_from(name.as_slice()))
    }
}

/// The default tag template: `{name}-v{version}`, where the name comes from
/// the remote URL where one gives it, and is the root directory's name
/// otherwise.
pub fn default_tag_format(remote_url: Option<&str>, root_name: &str) -> (r: String)
    ensures
        r@ == (match remote_url {
            Some(u) => if repo_name_of(u@).len() > 0 {
                repo_name_of(u@)
            } else {
                root_name@
            },
            None => root_name@,
        }) + "-v{version}"@,
{
    let mut out: Vec<char> = Vec::new();
    let from_url = match remote_url {
        Some(u) => extract_repo_name_from_url(u),
        None => None,
    };
    match from_url {
        Some(n) => push_str(&mut out, n.as_str()),
        None => push_str(&mut out, root_name),
    }
    push_str(&mut out, "-v{version}");
    string_from(out.as_slice())
}

} // verus!
