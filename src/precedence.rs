//! Semantic-version precedence: the order of versions, build metadata aside.
//!
//! Major, minor and patch compare numerically, in that order. A version with
//! a pre-release comes before the same version without one. Pre-releases
//! compare identifier by identifier (split at `.`): numeric identifiers by
//! length and then digit by digit (their numeric order, as they have no
//! leading zeros), other identifiers in ASCII order, numeric ones before the
//! others; where one list is a prefix of the other, the shorter comes first.

use vstd::prelude::*;
use std::cmp::Ordering;
use crate::release::is_digit;
use crate::version::Parts;

verus! {

pub open spec fn cmp_u64(a: u64, b: u64) -> Ordering {
    if a < b {
        Ordering::Less
    } else if a > b {
        Ordering::Greater
    } else {
        Ordering::Equal
    }
}

/// Lexicographic order of characters, a prefix first.
pub open spec fn lex_cmp(x: Seq<char>, y: Seq<char>) -> Ordering
    decreases x.len(),
{
    if x.len() == 0 && y.len() == 0 {
        Ordering::Equal
    } else if x.len() == 0 {
        Ordering::Less
    } else if y.len() == 0 {
        Ordering::Greater
    } else if x[0] < y[0] {
        Ordering::Less
    } else if x[0] > y[0] {
        Ordering::Greater
    } else {
        lex_cmp(x.drop_first(), y.drop_first())
    }
}

pub open spec fn numeric(x: Seq<char>) -> bool {
    x.len() > 0 && forall|i: int| 0 <= i < x.len() ==> is_digit(#[trigger] x[i])
}

/// The order of two pre-release identifiers.
pub open spec fn ident_cmp(x: Seq<char>, y: Seq<char>) -> Ordering {
    if numeric(x) && numeric(y) {
        if x.len() < y.len() {
            Ordering::Less
        } else if x.len() > y.len() {
            Ordering::Greater
        } else {
            lex_cmp(x, y)
        }
    } else if numeric(x) {
        Ordering::Less
    } else if numeric(y) {
        Ordering::Greater
    } else {
        lex_cmp(x, y)
    }
}

/// The order of two lists of identifiers, a prefix first.
pub open spec fn ids_cmp(xs: Seq<Seq<char>>, ys: Seq<Seq<char>>) -> Ordering
    decreases xs.len(),
{
    if xs.len() == 0 && ys.len() == 0 {
        Ordering::Equal
    } else if xs.len() == 0 {
        Ordering::Less
    } else if ys.len() == 0 {
        Ordering::Greater
    } else if ident_cmp(xs[0], ys[0]) != Ordering::Equal {
        ident_cmp(xs[0], ys[0])
    } else {
        ids_cmp(xs.drop_first(), ys.drop_first())
    }
}

/// The identifiers of `s`, split at each `.`.
pub open spec fn split_dots(s: Seq<char>) -> Seq<Seq<char>>
    decreases s.len(),
{
    if s.len() == 0 {
        seq![Seq::empty()]
    } else if s.last() == '.' {
        split_dots(s.drop_last()).push(Seq::empty())
    } else {
        let p = split_dots(s.drop_last());
        p.update(p.len() - 1, p.last().push(s.last()))
    }
}

/// The order of two pre-releases; the empty one (none) comes last.
pub open spec fn pre_cmp(a: Seq<char>, b: Seq<char>) -> Ordering {
    if a.len() == 0 && b.len() == 0 {
        Ordering::Equal
    } else if a.len() == 0 {
        Ordering::Greater
    } else if b.len() == 0 {
        Ordering::Less
    } else {
        ids_cmp(split_dots(a), split_dots(b))
    }
}

/// The precedence order of two versions.
pub open spec fn precedence(a: Parts, b: Parts) -> Ordering {
    if a.0 != b.0 {
        cmp_u64(a.0, b.0)
    } else if a.1 != b.1 {
        cmp_u64(a.1, b.1)
    } else if a.2 != b.2 {
        cmp_u64(a.2, b.2)
    } else {
        pre_cmp(a.3, b.3)
    }
}

fn lex_cmp_exec(x: &Vec<char>, y: &Vec<char>) -> (r: Ordering)
    ensures
        r == lex_cmp(x@, y@),
{
    let mut i: usize = 0;
    assert(x@.subrange(0, x@.len() as int) == x@);
    assert(y@.subrange(0, y@.len() as int) == y@);
    while i < x.len() && i < y.len() && x[i] == y[i]
        invariant
            i <= x@.len(),
            i <= y@.len(),
            lex_cmp(x@, y@) == lex_cmp(
                x@.subrange(i as int, x@.len() as int),
                y@.subrange(i as int, y@.len() as int),
            ),
        decreases x@.len() - i,
    {
        let ghost xs = x@.subrange(i as int, x@.len() as int);
        let ghost ys = y@.subrange(i as int, y@.len() as int);
        assert(xs.drop_first() == x@.subrange(i + 1, x@.len() as int));
        assert(ys.drop_first() == y@.subrange(i + 1, y@.len() as int));
        assert(xs[0] == x@[i as int] && ys[0] == y@[i as int]);
        i = i + 1;
    }
    let ghost xs = x@.subrange(i as int, x@.len() as int);
    let ghost ys = y@.subrange(i as int, y@.len() as int);
    if i == x.len() && i == y.len() {
        Ordering::Equal
    } else if i == x.len() {
        Ordering::Less
    } else if i == y.len() {
        Ordering::Greater
    } else {
        assert(xs[0] == x@[i as int] && ys[0] == y@[i as int]);
        if x[i] < y[i] {
            Ordering::Less
        } else {
            Ordering::Greater
        }
    }
}

fn numeric_exec(x: &Vec<char>) -> (r: bool)
    ensures
        r == numeric(x@),
{
    if x.len() == 0 {
        return false;
    }
    let mut i: usize = 0;
    while i < x.len()
        invariant
            i <= x@.len(),
            forall|k: int| 0 <= k < i ==> is_digit(#[trigger] x@[k]),
        decreases x@.len() - i,
    {
        if !('0' <= x[i] && x[i] <= '9') {
            return false;
        }
        i = i + 1;
    }
    true
}

fn ident_cmp_exec(x: &Vec<char>, y: &Vec<char>) -> (r: Ordering)
    ensures
        r == ident_cmp(x@, y@),
{
    let nx = numeric_exec(x);
    let ny = numeric_exec(y);
    if nx && ny {
        if x.len() < y.len() {
            Ordering::Less
        } else if x.len() > y.len() {
            Ordering::Greater
        } else {
            lex_cmp_exec(x, y)
        }
    } else if nx {
        Ordering::Less
    } else if ny {
        Ordering::Greater
    } else {
        lex_cmp_exec(x, y)
    }
}

pub open spec fn views_of(vs: Seq<Vec<char>>) -> Seq<Seq<char>> {
    vs.map_values(|v: Vec<char>| v@)
}

fn split_exec(s: &Vec<char>) -> (r: Vec<Vec<char>>)
    ensures
        views_of(r@) == split_dots(s@),
{
    let mut done: Vec<Vec<char>> = Vec::new();
    let mut cur: Vec<char> = Vec::new();
    let mut i: usize = 0;
    while i < s.len()
        invariant
            i <= s@.len(),
            views_of(done@).push(cur@) == split_dots(s@.subrange(0, i as int)),
        decreases s@.len() - i,
    {
        let ghost prefix = s@.subrange(0, i + 1);
        assert(prefix.drop_last() == s@.subrange(0, i as int));
        assert(prefix.last() == s@[i as int]);
        if s[i] == '.' {
            let ghost old_done = done@;
            let finished = cur;
            done.push(finished);
            cur = Vec::new();
            assert(views_of(done@) =~= views_of(old_done).push(finished@));
            assert(views_of(done@).push(cur@) =~= split_dots(prefix));
        } else {
            let ghost before = views_of(done@).push(cur@);
            cur.push(s[i]);
            assert(views_of(done@).push(cur@) =~= before.update(
                before.len() - 1,
                before.last().push(s@[i as int]),
            ));
        }
        i = i + 1;
    }
    assert(s@.subrange(0, i as int) == s@);
    let ghost old_done = done@;
    done.push(cur);
    assert(views_of(done@) =~= views_of(old_done).push(cur@));
    done
}

fn ids_cmp_exec(xs: &Vec<Vec<char>>, ys: &Vec<Vec<char>>) -> (r: Ordering)
    ensures
        r == ids_cmp(views_of(xs@), views_of(ys@)),
{
    let ghost xv = views_of(xs@);
    let ghost yv = views_of(ys@);
    let mut k: usize = 0;
    assert(xv.subrange(0, xv.len() as int) == xv);
    assert(yv.subrange(0, yv.len() as int) == yv);
    while k < xs.len() && k < ys.len()
        invariant
            xv.len() == xs@.len(),
            yv.len() == ys@.len(),
            k <= xs@.len(),
            k <= ys@.len(),
            xv == views_of(xs@),
            yv == views_of(ys@),
            ids_cmp(xv, yv) == ids_cmp(
                xv.subrange(k as int, xv.len() as int),
                yv.subrange(k as int, yv.len() as int),
            ),
        decreases xs@.len() - k,
    {
        let ghost xr = xv.subrange(k as int, xv.len() as int);
        let ghost yr = yv.subrange(k as int, yv.len() as int);
        assert(xr[0] == xs@[k as int]@ && yr[0] == ys@[k as int]@);
        let c = ident_cmp_exec(&xs[k], &ys[k]);
        match c {
            Ordering::Equal => {},
            _ => {
                return c;
            },
        }
        assert(xr.drop_first() == xv.subrange(k + 1, xv.len() as int));
        assert(yr.drop_first() == yv.subrange(k + 1, yv.len() as int));
        k = k + 1;
    }
    if k == xs.len() && k == ys.len() {
        Ordering::Equal
    } else if k == xs.len() {
        Ordering::Less
    } else {
        Ordering::Greater
    }
}

/// The order of two pre-releases (see `pre_cmp`).
pub fn pre_cmp_exec(a: &Vec<char>, b: &Vec<char>) -> (r: Ordering)
    ensures
        r == pre_cmp(a@, b@),
{
    if a.len() == 0 && b.len() == 0 {
        Ordering::Equal
    } else if a.len() == 0 {
        Ordering::Greater
    } else if b.len() == 0 {
        Ordering::Less
    } else {
        let xs = split_exec(a);
        let ys = split_exec(b);
        ids_cmp_exec(&xs, &ys)
    }
}

pub open spec fn reversed(o: Ordering) -> Ordering {
    match o {
        Ordering::Less => Ordering::Greater,
        Ordering::Equal => Ordering::Equal,
        Ordering::Greater => Ordering::Less,
    }
}

proof fn lemma_lex_reverse(x: Seq<char>, y: Seq<char>)
    ensures
        lex_cmp(y, x) == reversed(lex_cmp(x, y)),
    decreases x.len(),
{
    if x.len() > 0 && y.len() > 0 && x[0] == y[0] {
        lemma_lex_reverse(x.drop_first(), y.drop_first());
    }
}

proof fn lemma_ids_reverse(xs: Seq<Seq<char>>, ys: Seq<Seq<char>>)
    ensures
        ids_cmp(ys, xs) == reversed(ids_cmp(xs, ys)),
    decreases xs.len(),
{
    if xs.len() > 0 && ys.len() > 0 {
        lemma_lex_reverse(xs[0], ys[0]);
        lemma_ids_reverse(xs.drop_first(), ys.drop_first());
    }
}

/// Precedence is antisymmetric: swapping the versions reverses their order.
pub proof fn lemma_precedence_reverse(a: Parts, b: Parts)
    ensures
        precedence(b, a) == reversed(precedence(a, b)),
{
    lemma_ids_reverse(split_dots(a.3), split_dots(b.3));
}

} // verus!
