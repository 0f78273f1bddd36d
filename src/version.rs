//! Semantic versions: parsing, rendering and bumping.

use vstd::prelude::*;
use crate::error::VersionError;
use crate::precedence::{pre_cmp_exec, precedence};
use std::cmp::Ordering;
use crate::text::{chars_of, dec, decimal, push_all, string_from, trim, trim_range};

verus! {

/// Which component of a version a bump increments.
#[derive(Clone, Copy, Debug, PartialEq, Eq, Structural)]
pub enum BumpType {
    /// Increment major version, reset minor and patch to 0
    Major,
    /// Increment minor version, reset patch to 0
    Minor,
    /// Increment patch version
    Patch,
}

/// A semantic version `major.minor.patch[-pre][+build]`.
///
/// `pre` and `build` are empty when absent.
#[derive(Clone, Debug)]
pub struct Version {
    pub major: u64,
    pub minor: u64,
    pub patch: u64,
    pub pre: String,
    pub build: String,
}

/// The version that `semver::Version::parse` reads from `text`, as
/// (major, minor, patch, pre-release, build metadata); `None` where it
/// refuses the text.
pub uninterp spec fn semver_parse(text: Seq<char>) -> Option<Parts>;

/// Version parts: major, minor, patch, pre-release, build metadata.
pub type Parts = (u64, u64, u64, Seq<char>, Seq<char>);

/// Equal under semantic-version precedence: build metadata does not count.
pub open spec fn same_precedence(a: Parts, b: Parts) -> bool {
    a.0 == b.0 && a.1 == b.1 && a.2 == b.2 && a.3 == b.3
}

/// The canonical text of version parts.
pub open spec fn render_of(p: Parts) -> Seq<char> {
    render_parts(p.0, p.1, p.2, p.3, p.4)
}

/// Whether the component that `kind` increments is below `u64::MAX`.
pub open spec fn can_bump(p: Parts, kind: BumpType) -> bool {
    match kind {
        BumpType::Major => p.0 < u64::MAX,
        BumpType::Minor => p.1 < u64::MAX,
        BumpType::Patch => p.2 < u64::MAX,
    }
}

/// The release version that a bump of `kind` leads to.
pub open spec fn bumped(p: Parts, kind: BumpType) -> Parts {
    match kind {
        BumpType::Major => ((p.0 + 1) as u64, 0, 0, Seq::empty(), Seq::empty()),
        BumpType::Minor => (p.0, (p.1 + 1) as u64, 0, Seq::empty(), Seq::empty()),
        BumpType::Patch => (p.0, p.1, (p.2 + 1) as u64, Seq::empty(), Seq::empty()),
    }
}

/// A character that may appear in pre-release or build identifiers.
pub open spec fn is_ident_char(c: char) -> bool {
    ('0' <= c && c <= '9') || ('a' <= c && c <= 'z') || ('A' <= c && c <= 'Z') || c == '-' || c
        == '.'
}

pub open spec fn ident_chars(s: Seq<char>) -> bool {
    forall|i: int| 0 <= i < s.len() ==> is_ident_char(#[trigger] s[i])
}

/// `tag` followed by `s` where `s` is not empty; nothing otherwise.
pub open spec fn tagged(tag: char, s: Seq<char>) -> Seq<char> {
    if s.len() == 0 {
        Seq::empty()
    } else {
        seq![tag] + s
    }
}

/// The canonical text of a version.
pub open spec fn render_parts(major: u64, minor: u64, patch: u64, pre: Seq<char>, build: Seq<char>) -> Seq<char> {
    dec(major as nat) + seq!['.'] + dec(minor as nat) + seq!['.'] + dec(patch as nat) + tagged(
        '-',
        pre,
    ) + tagged('+', build)
}

/// What `Version::parse` yields for `text`.
pub open spec fn parse_spec(text: Seq<char>) -> Option<Parts> {
    semver_parse(trim(text))
}

/// Relies on `semver::Version::parse`: it accepts `major.minor.patch[-pre][+build]`
/// and nothing around it, so the accepted text is exactly what `Display` writes
/// back for the result; identifiers hold only ASCII alphanumerics, `-` and `.`.
#[verifier::external_body]
fn semver_parse_exec(text: &str) -> (r: Option<Version>)
    ensures
        match r {
            Some(v) => semver_parse(text@) == Some(v.parts()) && v.wf() && v.render() == text@,
            None => semver_parse(text@) is None,
        },
{
    match semver::Version::parse(text) {
        Ok(v) => Some(
            Version {
                major: v.major,
                minor: v.minor,
                patch: v.patch,
                pre: v.pre.as_str().to_string(),
                build: v.build.as_str().to_string(),
            },
        ),
        Err(_) => None,
    }
}

impl Version {
    pub open spec fn parts(&self) -> Parts {
        (self.major, self.minor, self.patch, self.pre@, self.build@)
    }

    /// Pre-release and build identifiers use only identifier characters.
    pub open spec fn wf(&self) -> bool {
        ident_chars(self.pre@) && ident_chars(self.build@)
    }

    pub open spec fn render(&self) -> Seq<char> {
        render_parts(self.major, self.minor, self.patch, self.pre@, self.build@)
    }

    /// The release version `major.minor.patch`.
    pub fn new(major: u64, minor: u64, patch: u64) -> (r: Version)
        ensures
            r.major == major,
            r.minor == minor,
            r.patch == patch,
            r.pre@.len() == 0,
            r.build@.len() == 0,
            r.wf(),
    {
        Version { major, minor, patch, pre: String::new(), build: String::new() }
    }

    /// Parses `text`, ignoring leading and trailing white space.
    ///
    /// A version that parses renders back to the trimmed text, and that
    /// rendering parses to the same version again.
    pub fn parse(text: &str) -> (r: Result<Version, VersionError>)
        ensures
            match r {
                Ok(v) => parse_spec(text@) == Some(v.parts()) && v.wf() && v.render() == trim(
                    text@,
                ) && parse_spec(v.render()) == Some(v.parts()),
                Err(e) => parse_spec(text@) is None && (e matches VersionError::InvalidVersionFormat(
                    t,
                ) && t@ == trim(text@)),
            },
    {
        let chars = chars_of(text);
        let trimmed = trim_range(&chars, 0, chars.len());
        assert(chars@.subrange(0, chars@.len() as int) == chars@);
        let t = string_from(trimmed.as_slice());
        match semver_parse_exec(t.as_str()) {
            Some(v) => {
                proof {
                    lemma_render_trimmed(&v);
                }
                Ok(v)
            },
            None => Err(VersionError::InvalidVersionFormat(t)),
        }
    }

    /// The canonical text `major.minor.patch[-pre][+build]`.
    pub fn to_string(&self) -> (r: String)
        ensures
            r@ == self.render(),
    {
        let mut out = decimal(self.major);
        out.push('.');
        let minor = decimal(self.minor);
        push_all(&mut out, minor.as_slice());
        out.push('.');
        let patch = decimal(self.patch);
        push_all(&mut out, patch.as_slice());
        let pre = chars_of(self.pre.as_str());
        if pre.len() > 0 {
            out.push('-');
            push_all(&mut out, pre.as_slice());
        }
        let build = chars_of(self.build.as_str());
        if build.len() > 0 {
            out.push('+');
            push_all(&mut out, build.as_slice());
        }
        let r = string_from(out.as_slice());
        assert(r@ == self.render());
        r
    }

    /// Major: `(M+1).0.0`; minor: `M.(m+1).0`; patch: `M.m.(p+1)`. Pre-release
    /// and build metadata are dropped. `None` where the component would overflow.
    pub fn bump(&self, kind: BumpType) -> (r: Option<Version>)
        ensures
            match r {
                Some(v) => can_bump(self.parts(), kind) && v.parts() == bumped(self.parts(), kind) && v.wf(),
                None => !can_bump(self.parts(), kind),
            },
    {
        match kind {
            BumpType::Major => if self.major < u64::MAX {
                Some(Version::new(self.major + 1, 0, 0))
            } else {
                None
            },
            BumpType::Minor => if self.minor < u64::MAX {
                Some(Version::new(self.major, self.minor + 1, 0))
            } else {
                None
            },
            BumpType::Patch => if self.patch < u64::MAX {
                Some(Version::new(self.major, self.minor, self.patch + 1))
            } else {
                None
            },
        }
    }

    /// Equality under semantic-version precedence (build metadata ignored).
    pub fn same_precedence_as(&self, other: &Version) -> (r: bool)
        ensures
            r == same_precedence(self.parts(), other.parts()),
    {
        self.major == other.major && self.minor == other.minor && self.patch == other.patch
            && self.pre == other.pre
    }
}

impl Version {
    /// The semantic-version precedence order of `self` and `other`; build
    /// metadata does not count.
    pub fn cmp_precedence(&self, other: &Version) -> (r: Ordering)
        ensures
            r == precedence(self.parts(), other.parts()),
    {
        if self.major != other.major {
            if self.major < other.major {
                Ordering::Less
            } else {
                Ordering::Greater
            }
        } else if self.minor != other.minor {
            if self.minor < other.minor {
                Ordering::Less
            } else {
                Ordering::Greater
            }
        } else if self.patch != other.patch {
            if self.patch < other.patch {
                Ordering::Less
            } else {
                Ordering::Greater
            }
        } else {
            pre_cmp_exec(&chars_of(self.pre.as_str()), &chars_of(other.pre.as_str()))
        }
    }
}

impl PartialOrd for Version {
    fn partial_cmp(&self, other: &Version) -> (r: Option<Ordering>) {
        Some(self.cmp_precedence(other))
    }
}

impl vstd::std_specs::cmp::PartialOrdSpecImpl for Version {
    open spec fn obeys_partial_cmp_spec() -> bool {
        true
    }

    open spec fn partial_cmp_spec(&self, other: &Version) -> Option<Ordering> {
        Some(precedence(self.parts(), other.parts()))
    }
}

impl PartialEq for Version {
    /// Equality under semantic-version precedence: build metadata does not count.
    fn eq(&self, other: &Version) -> (r: bool) {
        self.same_precedence_as(other)
    }
}

impl vstd::std_specs::cmp::PartialEqSpecImpl for Version {
    open spec fn obeys_eq_spec() -> bool {
        true
    }

    open spec fn eq_spec(&self, other: &Version) -> bool {
        same_precedence(self.parts(), other.parts())
    }
}

proof fn lemma_digit_char(d: nat)
    requires
        d < 10,
    ensures
        '0' <= crate::text::digit_char(d) <= '9',
{
    let ds = seq!['0', '1', '2', '3', '4', '5', '6', '7', '8', '9'];
    assert(ds[0] == '0' && ds[1] == '1' && ds[2] == '2' && ds[3] == '3' && ds[4] == '4');
    assert(ds[5] == '5' && ds[6] == '6' && ds[7] == '7' && ds[8] == '8' && ds[9] == '9');
}

/// Decimal renderings hold only digits.
pub proof fn lemma_dec_digits(n: nat)
    ensures
        forall|i: int| 0 <= i < dec(n).len() ==> '0' <= #[trigger] dec(n)[i] <= '9',
    decreases n,
{
    if n < 10 {
        lemma_digit_char(n);
        assert(dec(n) == seq![crate::text::digit_char(n)]);
    } else {
        lemma_dec_digits(n / 10);
        lemma_digit_char(n % 10);
        let d = dec(n);
        let h = dec(n / 10);
        assert(d == h.push(crate::text::digit_char(n % 10)));
        assert forall|i: int| 0 <= i < d.len() implies '0' <= #[trigger] d[i] <= '9' by {
            if i < h.len() {
                assert(d[i] == h[i]);
            }
        }
    }
}

/// A rendered version holds no quote and no bracket.
pub proof fn lemma_render_plain(v: &Version)
    requires
        v.wf(),
    ensures
        forall|i: int| 0 <= i < v.render().len() ==> #[trigger] v.render()[i] != '"' && v.render()[i] != '[',
{
    lemma_dec_digits(v.major as nat);
    lemma_dec_digits(v.minor as nat);
    lemma_dec_digits(v.patch as nat);
    let a = dec(v.major as nat) + seq!['.'] + dec(v.minor as nat) + seq!['.'] + dec(v.patch as nat);
    let b = tagged('-', v.pre@);
    let c = tagged('+', v.build@);
    assert forall|i: int| 0 <= i < a.len() implies #[trigger] a[i] != '"' && a[i] != '[' by {
        let m = dec(v.major as nat);
        let n = dec(v.minor as nat);
        if i < m.len() {
        } else if i == m.len() {
        } else if i < m.len() + 1 + n.len() {
            assert(a[i] == n[i - m.len() - 1]);
        } else if i == m.len() + 1 + n.len() {
        } else {
            assert(a[i] == dec(v.patch as nat)[i - m.len() - 2 - n.len()]);
        }
    }
    assert forall|i: int| 0 <= i < b.len() implies #[trigger] b[i] != '"' && b[i] != '[' by {
        if i > 0 {
            assert(b[i] == v.pre@[i - 1]);
            assert(is_ident_char(v.pre@[i - 1]));
        }
    }
    assert forall|i: int| 0 <= i < c.len() implies #[trigger] c[i] != '"' && c[i] != '[' by {
        if i > 0 {
            assert(c[i] == v.build@[i - 1]);
            assert(is_ident_char(v.build@[i - 1]));
        }
    }
    assert(v.render() == a + b + c);
    assert forall|i: int| 0 <= i < v.render().len() implies #[trigger] v.render()[i] != '"' && v.render()[i] != '[' by {
        if i < a.len() {
            assert(v.render()[i] == a[i]);
        } else if i < a.len() + b.len() {
            assert(v.render()[i] == b[i - a.len()]);
        } else {
            assert(v.render()[i] == c[i - a.len() - b.len()]);
        }
    }
}

proof fn lemma_dec_no_space(n: nat)
    ensures
        forall|i: int| 0 <= i < dec(n).len() ==> !crate::text::is_space(#[trigger] dec(n)[i]),
        dec(n).len() > 0,
    decreases n,
{
    if n >= 10 {
        lemma_dec_no_space(n / 10);
    }
}

/// A rendered version has no white space at either end, so trimming keeps it.
proof fn lemma_render_trimmed(v: &Version)
    requires
        v.wf(),
    ensures
        trim(v.render()) == v.render(),
{
    let s = v.render();
    lemma_dec_no_space(v.major as nat);
    lemma_dec_no_space(v.patch as nat);
    lemma_dec_no_space(v.minor as nat);
    assert(s.len() > 0);
    assert(!crate::text::is_space(s[0])) by {
        assert(s[0] == dec(v.major as nat)[0]);
    }
    assert(crate::text::trim_start(s) == s);
    assert(!crate::text::is_space(s.last())) by {
        if v.build@.len() > 0 {
            assert(s.last() == v.build@.last());
            assert(is_ident_char(v.build@[v.build@.len() - 1]));
        } else if v.pre@.len() > 0 {
            assert(s.last() == v.pre@.last());
            assert(is_ident_char(v.pre@[v.pre@.len() - 1]));
        } else {
            let d = dec(v.patch as nat);
            assert(s.last() == d.last());
            assert(!crate::text::is_space(d[d.len() - 1]));
        }
    }
}

} // verus!
