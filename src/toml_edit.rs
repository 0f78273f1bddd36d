//! In-place edit of the quoted `version = "..."` value inside one `[section]`
//! of a TOML document, leaving every other character as it was.
//!
//! The edit replaces the first match of
//! `\[section\][^\[]*?version\s*=\s*"([^"]*)"`: the leftmost section header
//! that is followed, before any `[`, by a `version` assignment with a quoted
//! value; within it the nearest such assignment.

use vstd::prelude::*;
use crate::text::{is_space, is_space_exec, push_all};

verus! {

pub open spec fn header(section: Seq<char>) -> Seq<char> {
    seq!['['] + section + seq![']']
}

pub open spec fn version_key() -> Seq<char> {
    seq!['v', 'e', 'r', 's', 'i', 'o', 'n']
}

/// `t` occurs in `s` at index `i`.
pub open spec fn has_at(s: Seq<char>, i: int, t: Seq<char>) -> bool {
    0 <= i && i + t.len() <= s.len() && s.subrange(i, i + t.len()) == t
}

/// The first index at or after `i` that holds no white space.
pub open spec fn skip_space(s: Seq<char>, i: int) -> int
    decreases s.len() - i,
{
    if 0 <= i < s.len() && is_space(s[i]) {
        skip_space(s, i + 1)
    } else {
        i
    }
}

/// The first index at or after `i` that holds `"` (or the length).
pub open spec fn next_quote(s: Seq<char>, i: int) -> int
    decreases s.len() - i,
{
    if 0 <= i < s.len() && s[i] != '"' {
        next_quote(s, i + 1)
    } else {
        i
    }
}

/// Where `version <ws>= <ws>"` starts at `k`, the index just after the quote.
pub open spec fn value_start(s: Seq<char>, k: int) -> Option<int> {
    if has_at(s, k, version_key()) {
        let a = skip_space(s, k + 7);
        if 0 <= a < s.len() && s[a] == '=' {
            let b = skip_space(s, a + 1);
            if 0 <= b < s.len() && s[b] == '"' {
                Some(b + 1)
            } else {
                None
            }
        } else {
            None
        }
    } else {
        None
    }
}

pub open spec fn no_bracket(s: Seq<char>, from: int, to: int) -> bool {
    forall|j: int| from <= j < to ==> s[j] != '['
}

/// The pattern matches with the header at `p` and the assignment at `k`.
pub open spec fn match_at(s: Seq<char>, section: Seq<char>, p: int, k: int) -> bool {
    let q = p + section.len() + 2;
    &&& has_at(s, p, header(section))
    &&& q <= k
    &&& no_bracket(s, q, k)
    &&& value_start(s, k) is Some
    &&& next_quote(s, value_start(s, k)->0) < s.len()
}

/// `(p, k)` is the match that a leftmost, lazy search finds first.
pub open spec fn first_match(s: Seq<char>, section: Seq<char>, p: int, k: int) -> bool {
    &&& match_at(s, section, p, k)
    &&& forall|pb: int, kb: int| pb < p ==> !#[trigger] match_at(s, section, pb, kb)
    &&& forall|kb: int| kb < k ==> !#[trigger] match_at(s, section, p, kb)
}

/// `s` with the quoted value of the assignment at `k` replaced by `value`.
pub open spec fn replace_value(s: Seq<char>, k: int, value: Seq<char>) -> Seq<char> {
    let a = value_start(s, k)->0;
    s.subrange(0, a) + value + s.subrange(next_quote(s, a), s.len() as int)
}

/// The document after the edit, or `None` where the pattern does not match.
pub open spec fn toml_updated(s: Seq<char>, section: Seq<char>, value: Seq<char>) -> Option<
    Seq<char>,
> {
    if exists|p: int, k: int| #[trigger] first_match(s, section, p, k) {
        let (p, k) = choose|p: int, k: int| #[trigger] first_match(s, section, p, k);
        Some(replace_value(s, k, value))
    } else {
        None
    }
}

/// There is at most one first match.
pub proof fn lemma_first_match_unique(s: Seq<char>, section: Seq<char>, pa: int, ka: int, pb: int, kb: int)
    requires
        first_match(s, section, pa, ka),
        first_match(s, section, pb, kb),
    ensures
        pa == pb && ka == kb,
{
    if pa < pb {
        assert(!match_at(s, section, pa, ka));
    } else if pb < pa {
        assert(!match_at(s, section, pb, kb));
    } else if ka < kb {
        assert(!match_at(s, section, pb, ka));
    } else if kb < ka {
        assert(!match_at(s, section, pa, kb));
    }
}

fn has_at_exec(s: &Vec<char>, i: usize, t: &Vec<char>) -> (r: bool)
    ensures
        r == has_at(s@, i as int, t@),
{
    if i > s.len() || t.len() > s.len() - i {
        return false;
    }
    let mut j: usize = 0;
    while j < t.len()
        invariant
            i + t.len() <= s.len(),
            j <= t@.len(),
            forall|m: int| 0 <= m < j ==> s@[i + m] == t@[m],
        decreases t@.len() - j,
    {
        assert(i + j < s.len());
        if s[i + j] != t[j] {
            assert(s@.subrange(i as int, i + t@.len())[j as int] != t@[j as int]);
            return false;
        }
        j = j + 1;
    }
    assert(s@.subrange(i as int, i + t@.len()) == t@);
    true
}

fn skip_space_exec(s: &Vec<char>, i: usize) -> (r: usize)
    requires
        i <= s@.len(),
    ensures
        r as int == skip_space(s@, i as int),
        i <= r <= s@.len(),
{
    let mut j: usize = i;
    while j < s.len() && is_space_exec(s[j])
        invariant
            i <= j <= s@.len(),
            skip_space(s@, i as int) == skip_space(s@, j as int),
        decreases s@.len() - j,
    {
        j = j + 1;
    }
    j
}

fn next_quote_exec(s: &Vec<char>, i: usize) -> (r: usize)
    requires
        i <= s@.len(),
    ensures
        r as int == next_quote(s@, i as int),
        i <= r <= s@.len(),
{
    let mut j: usize = i;
    while j < s.len() && s[j] != '"'
        invariant
            i <= j <= s@.len(),
            next_quote(s@, i as int) == next_quote(s@, j as int),
        decreases s@.len() - j,
    {
        j = j + 1;
    }
    j
}

fn value_start_exec(s: &Vec<char>, k: usize, key: &Vec<char>) -> (r: Option<usize>)
    requires
        key@ == version_key(),
    ensures
        match r {
            Some(a) => value_start(s@, k as int) == Some(a as int) && a <= s@.len(),
            None => value_start(s@, k as int) is None,
        },
{
    if !has_at_exec(s, k, key) {
        return None;
    }
    assert(version_key().len() == 7);
    assert(k + 7 <= s.len());
    let a = skip_space_exec(s, k + 7);
    if a < s.len() && s[a] == '=' {
        let b = skip_space_exec(s, a + 1);
        if b < s.len() && s[b] == '"' {
            Some(b + 1)
        } else {
            None
        }
    } else {
        None
    }
}

proof fn lemma_bracket_blocks(s: Seq<char>, section: Seq<char>, p: int, j: int)
    requires
        p + section.len() + 2 <= j < s.len(),
        s[j] == '[',
    ensures
        forall|kb: int| kb > j ==> !#[trigger] match_at(s, section, p, kb),
{
    assert forall|kb: int| kb > j implies !#[trigger] match_at(s, section, p, kb) by {
        if match_at(s, section, p, kb) {
            assert(no_bracket(s, p + section.len() + 2, kb));
            assert(s[j] != '[');
        }
    }
}

/// Replaces the quoted value of the first `version = "..."` assignment of
/// `[section]` (as described for this module) with `value`; `None` where the
/// pattern does not match.
pub fn replace_section_version(s: &Vec<char>, section: &Vec<char>, value: &Vec<char>) -> (r:
    Option<Vec<char>>)
    ensures
        match r {
            Some(t) => exists|p: int, k: int|
                #[trigger] first_match(s@, section@, p, k) && t@ == replace_value(
                    s@,
                    k,
                    value@,
                ),
            None => forall|p: int, k: int| !match_at(s@, section@, p, k),
        },
        match r {
            Some(t) => toml_updated(s@, section@, value@) == Some(t@),
            None => toml_updated(s@, section@, value@) is None,
        },
{
    let mut head: Vec<char> = vec!['['];
    push_all(&mut head, section.as_slice());
    head.push(']');
    let key: Vec<char> = vec!['v', 'e', 'r', 's', 'i', 'o', 'n'];
    assert(head@ == header(section@));
    assert(key@ == version_key());
    let mut p: usize = 0;
    while p < s.len()
        invariant
            p <= s@.len(),
            head@ == header(section@),
            key@ == version_key(),
            forall|pb: int, kb: int| pb < p ==> !#[trigger] match_at(s@, section@, pb, kb),
        decreases s@.len() - p,
    {
        if has_at_exec(s, p, &head) {
            let q = p + head.len();
            let mut k: usize = q;
            while k < s.len() && s[k] != '['
                invariant
                    q == p + section@.len() + 2,
                    q <= k <= s@.len(),
                    has_at(s@, p as int, header(section@)),
                    key@ == version_key(),
                    no_bracket(s@, q as int, k as int),
                    forall|pb: int, kb: int|
                        pb < p ==> !#[trigger] match_at(s@, section@, pb, kb),
                    forall|kb: int| kb < k ==> !#[trigger] match_at(s@, section@, p as int, kb),
                decreases s@.len() - k,
            {
                match value_start_exec(s, k, &key) {
                    Some(a) => {
                        let e = next_quote_exec(s, a);
                        if e < s.len() {
                            assert(match_at(s@, section@, p as int, k as int));
                            let mut out: Vec<char> = Vec::new();
                            let mut i: usize = 0;
                            while i < a
                                invariant
                                    a <= s@.len(),
                                    i <= a,
                                    out@ == s@.subrange(0, i as int),
                                decreases a - i,
                            {
                                out.push(s[i]);
                                i = i + 1;
                                assert(out@ == s@.subrange(0, i as int));
                            }
                            push_all(&mut out, value.as_slice());
                            let ghost before = out@;
                            let mut j: usize = e;
                            while j < s.len()
                                invariant
                                    e <= j <= s@.len(),
                                    out@ == before + s@.subrange(e as int, j as int),
                                decreases s@.len() - j,
                            {
                                out.push(s[j]);
                                j = j + 1;
                                assert(out@ == before + s@.subrange(e as int, j as int));
                            }
                            assert(first_match(s@, section@, p as int, k as int));
                            assert(out@ == replace_value(s@, k as int, value@));
                            assert(exists|pb: int, kb: int|
                                #[trigger] first_match(s@, section@, pb, kb) && out@
                                    == replace_value(s@, kb, value@)) by {
                                assert(first_match(s@, section@, p as int, k as int));
                            }
                            proof {
                                let (pc, kc) = choose|pc: int, kc: int|
                                    #[trigger] first_match(s@, section@, pc, kc);
                                lemma_first_match_unique(s@, section@, p as int, k as int, pc, kc);
                            }
                            return Some(out);
                        }
                    },
                    None => {},
                }
                assert(!match_at(s@, section@, p as int, k as int));
                k = k + 1;
                assert forall|kb: int| kb < k implies !#[trigger] match_at(
                    s@,
                    section@,
                    p as int,
                    kb,
                ) by {
                    if kb < k - 1 {
                    }
                }
            }
            proof {
                if k < s@.len() {
                    lemma_bracket_blocks(s@, section@, p as int, k as int);
                }
                assert forall|kb: int| true implies !#[trigger] match_at(
                    s@,
                    section@,
                    p as int,
                    kb,
                ) by {
                    if kb >= k && kb < s@.len() + 1 && match_at(s@, section@, p as int, kb) {
                        if k < s@.len() {
                            if kb > k {
                            } else {
                                assert(!has_at(s@, k as int, version_key())) by {
                                    assert(s@.subrange(k as int, k + 7)[0] == '[');
                                }
                            }
                        } else {
                            assert(value_start(s@, kb) is None);
                        }
                    }
                }
            }
        }
        p = p + 1;
        assert forall|pb: int, kb: int| pb < p implies !#[trigger] match_at(
            s@,
            section@,
            pb,
            kb,
        ) by {
            if pb < p - 1 {
            }
        }
    }
    assert forall|pb: int, kb: int| true implies !#[trigger] match_at(s@, section@, pb, kb) by {
        if pb >= p {
            assert(!has_at(s@, pb, header(section@)));
        }
    }
    assert(!exists|pb: int, kb: int| #[trigger] first_match(s@, section@, pb, kb));
    None
}

/// `s` and `t` hold the same characters below `m`.
pub open spec fn agree(s: Seq<char>, t: Seq<char>, m: int) -> bool {
    &&& 0 <= m <= s.len()
    &&& m <= t.len()
    &&& forall|i: int| 0 <= i < m ==> s[i] == t[i]
}

proof fn lemma_skip_space_agree(s: Seq<char>, t: Seq<char>, m: int, i: int)
    requires
        agree(s, t, m),
        0 <= i,
        skip_space(s, i) < m,
    ensures
        skip_space(t, i) == skip_space(s, i),
    decreases s.len() - i,
{
    if i < s.len() && is_space(s[i]) {
        lemma_skip_space_ge(s, i + 1);
        lemma_skip_space_agree(s, t, m, i + 1);
    }
}

proof fn lemma_skip_space_ge(s: Seq<char>, i: int)
    ensures
        skip_space(s, i) >= i,
        forall|z: int| i <= z < skip_space(s, i) ==> is_space(#[trigger] s[z]),
        0 <= i ==> skip_space(s, i) <= s.len() || skip_space(s, i) == i,
    decreases s.len() - i,
{
    if 0 <= i < s.len() && is_space(s[i]) {
        lemma_skip_space_ge(s, i + 1);
    }
}

proof fn lemma_next_quote_bounds(s: Seq<char>, i: int)
    ensures
        next_quote(s, i) >= i,
        0 <= i && next_quote(s, i) < s.len() ==> s[next_quote(s, i)] == '"',
        forall|z: int| i <= z < next_quote(s, i) ==> #[trigger] s[z] != '"',
    decreases s.len() - i,
{
    if 0 <= i < s.len() && s[i] != '"' {
        lemma_next_quote_bounds(s, i + 1);
    }
}

/// The first quote at or after `i` is no later than any quote there.
proof fn lemma_next_quote_at_most(s: Seq<char>, i: int, y: int)
    requires
        0 <= i <= y < s.len(),
        s[y] == '"',
    ensures
        next_quote(s, i) <= y,
    decreases y - i,
{
    if s[i] != '"' {
        lemma_next_quote_at_most(s, i + 1, y);
    }
}

proof fn lemma_next_quote_exact(s: Seq<char>, i: int, x: int)
    requires
        0 <= i <= x < s.len(),
        s[x] == '"',
        forall|z: int| i <= z < x ==> #[trigger] s[z] != '"',
    ensures
        next_quote(s, i) == x,
    decreases x - i,
{
    if i < x {
        lemma_next_quote_exact(s, i + 1, x);
    }
}

proof fn lemma_value_start_agree(s: Seq<char>, t: Seq<char>, m: int, k: int, x: int)
    requires
        agree(s, t, m),
        value_start(s, k) == Some(x),
        x <= m,
    ensures
        value_start(t, k) == Some(x),
{
    assert(version_key().len() == 7);
    let a = skip_space(s, k + 7);
    let b = skip_space(s, a + 1);
    lemma_skip_space_ge(s, k + 7);
    lemma_skip_space_ge(s, a + 1);
    assert(t.subrange(k, k + 7) =~= s.subrange(k, k + 7));
    lemma_skip_space_agree(s, t, m, k + 7);
    lemma_skip_space_agree(s, t, m, a + 1);
}

/// Between an assignment's start and its value, only the key, white space,
/// `=` and the opening quote occur.
proof fn lemma_value_start_chars(s: Seq<char>, k: int, z: int)
    requires
        value_start(s, k) matches Some(x) && k <= z < x,
    ensures
        (z < k + 7 && s[z] == version_key()[z - k]) || is_space(s[z]) || s[z] == '=' || s[z] == '"',
{
    assert(version_key().len() == 7);
    let a = skip_space(s, k + 7);
    let b = skip_space(s, a + 1);
    lemma_skip_space_ge(s, k + 7);
    lemma_skip_space_ge(s, a + 1);
    if z < k + 7 {
        assert(s.subrange(k, k + 7)[z - k] == s[z]);
    }
}

/// A match in `t` whose value starts before `m`, where `s` agrees with `t`
/// and has a quote at `y`, is a match in `s` too.
proof fn lemma_match_transfer(s: Seq<char>, t: Seq<char>, section: Seq<char>, m: int, y: int, p: int, k: int)
    requires
        agree(s, t, m),
        match_at(t, section, p, k),
        value_start(t, k)->0 <= y < m,
        s[y] == '"',
    ensures
        match_at(s, section, p, k),
{
    let x = value_start(t, k)->0;
    let h = header(section);
    assert(version_key().len() == 7);
    lemma_skip_space_ge(t, k + 7);
    lemma_skip_space_ge(t, skip_space(t, k + 7) + 1);
    assert(p + h.len() <= k < x);
    assert(agree(t, s, m));
    lemma_value_start_agree(t, s, m, k, x);
    assert(s.subrange(p, p + h.len()) =~= t.subrange(p, p + h.len()));
    assert(no_bracket(s, p + section.len() + 2, k));
    lemma_next_quote_at_most(s, x, y);
}

/// The document after the edit: `s` up to the value, the value, then the
/// closing quote and the rest of `s`.
proof fn lemma_replaced_shape(s: Seq<char>, k: int, value: Seq<char>)
    requires
        value_start(s, k) is Some,
        next_quote(s, value_start(s, k)->0) < s.len(),
    ensures
        ({
            let a = value_start(s, k)->0;
            let t = replace_value(s, k, value);
            &&& k + 8 <= a
            &&& s[a - 1] == '"'
            &&& agree(s, t, a)
            &&& a + value.len() < t.len()
            &&& forall|j: int| 0 <= j < value.len() ==> t[a + j] == value[j]
            &&& t[a + value.len()] == '"'
        }),
{
    let a = value_start(s, k)->0;
    let e = next_quote(s, a);
    let t = replace_value(s, k, value);
    assert(version_key().len() == 7);
    lemma_skip_space_ge(s, k + 7);
    lemma_skip_space_ge(s, skip_space(s, k + 7) + 1);
    lemma_next_quote_bounds(s, a);
    assert(t[a + value.len()] == s[e]);
}

proof fn lemma_no_earlier_header(
    s: Seq<char>,
    t: Seq<char>,
    section: Seq<char>,
    p: int,
    a: int,
    pb: int,
    kb: int,
)
    requires
        agree(s, t, a),
        p + 1 < a,
        s[a - 1] == '"',
        t[p] == '[',
        pb < p,
        forall|i: int| 0 <= i < section.len() ==> #[trigger] section[i] != '[',
        !match_at(s, section, pb, kb),
    ensures
        !match_at(t, section, pb, kb),
{
    if match_at(t, section, pb, kb) {
        let h = header(section);
        let qb = pb + section.len() + 2;
        if p < qb {
            assert(t.subrange(pb, pb + h.len())[p - pb] == t[p]);
            if p - pb <= section.len() {
                assert(h[p - pb] == section[p - pb - 1]);
            }
        }
        if kb > p {
            assert(t[p] != '[');
        }
        let xb = value_start(t, kb)->0;
        if p < xb {
            lemma_value_start_chars(t, kb, p);
            assert(version_key() == seq!['v', 'e', 'r', 's', 'i', 'o', 'n']);
        }
        lemma_match_transfer(s, t, section, a, a - 1, pb, kb);
    }
}

proof fn lemma_no_earlier_key(
    s: Seq<char>,
    t: Seq<char>,
    section: Seq<char>,
    p: int,
    k: int,
    a: int,
    kb: int,
)
    requires
        agree(s, t, a),
        k + 7 < a,
        s[a - 1] == '"',
        t[k] == 'v',
        kb < k,
        !match_at(s, section, p, kb),
    ensures
        !match_at(t, section, p, kb),
{
    if match_at(t, section, p, kb) {
        let xb = value_start(t, kb)->0;
        if k < xb {
            lemma_value_start_chars(t, kb, k);
            assert(version_key() == seq!['v', 'e', 'r', 's', 'i', 'o', 'n']);
        }
        lemma_match_transfer(s, t, section, a, a - 1, p, kb);
    }
}

/// Setting the version a second time, to the same value, changes nothing:
/// the edit finds the same assignment, which already holds the value.
pub proof fn lemma_toml_update_idempotent(s: Seq<char>, section: Seq<char>, value: Seq<char>)
    requires
        toml_updated(s, section, value) is Some,
        forall|i: int| 0 <= i < section.len() ==> #[trigger] section[i] != '[',
        forall|i: int| 0 <= i < value.len() ==> #[trigger] value[i] != '"' && value[i] != '[',
    ensures
        toml_updated(toml_updated(s, section, value)->0, section, value) == toml_updated(
            s,
            section,
            value,
        ),
{
    let (p, k) = choose|p: int, k: int| #[trigger] first_match(s, section, p, k);
    let a = value_start(s, k)->0;
    let t = replace_value(s, k, value);
    let h = header(section);
    lemma_replaced_shape(s, k, value);
    assert(version_key().len() == 7);
    lemma_value_start_agree(s, t, a, k, a);
    assert forall|z: int| a <= z < a + value.len() implies #[trigger] t[z] != '"' by {
        assert(t[z] == value[z - a]);
    }
    lemma_next_quote_exact(t, a, a + value.len());
    assert(t.subrange(p, p + h.len()) =~= s.subrange(p, p + h.len()));
    assert(match_at(t, section, p, k));
    assert(t[p] == '[') by {
        assert(s.subrange(p, p + h.len())[0] == h[0]);
    }
    assert(t[k] == 'v') by {
        assert(s.subrange(k, k + 7)[0] == version_key()[0]);
    }
    assert forall|pb: int, kb: int| pb < p implies !#[trigger] match_at(t, section, pb, kb) by {
        lemma_no_earlier_header(s, t, section, p, a, pb, kb);
    }
    assert forall|kb: int| kb < k implies !#[trigger] match_at(t, section, p, kb) by {
        lemma_no_earlier_key(s, t, section, p, k, a, kb);
    }
    assert(first_match(t, section, p, k));
    let (pc, kc) = choose|pc: int, kc: int| #[trigger] first_match(t, section, pc, kc);
    lemma_first_match_unique(t, section, p, k, pc, kc);
    assert(replace_value(t, k, value) =~= t);
}

} // verus!
