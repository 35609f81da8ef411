//! Glob patterns of the build's exclusion list.
//!
//! `*` matches any run of characters without `/`, `**` any run at all
//! (across directories), `?` one character other than `/`; every other
//! character matches itself.

use vstd::prelude::*;

verus! {

/// No character of `s` is `/`.
pub open spec fn no_slash(s: Seq<char>) -> bool {
    forall|i: int| 0 <= i < s.len() ==> s[i] != '/'
}

/// `p` without its leading `*` characters.
pub open spec fn strip_stars(p: Seq<char>) -> Seq<char>
    decreases p.len(),
{
    if p.len() > 0 && p[0] == '*' {
        strip_stars(p.drop_first())
    } else {
        p
    }
}

/// Stripping stars never makes a pattern longer.
pub proof fn lemma_strip_stars_len(p: Seq<char>)
    ensures
        strip_stars(p).len() <= p.len(),
        strip_stars(p).len() == 0 || strip_stars(p)[0] != '*',
        strip_stars(p) == p.subrange(p.len() - strip_stars(p).len(), p.len() as int),
    decreases p.len(),
{
    if p.len() > 0 && p[0] == '*' {
        lemma_strip_stars_len(p.drop_first());
        let q = strip_stars(p.drop_first());
        assert(p.drop_first().subrange(p.drop_first().len() - q.len(), p.drop_first().len() as int)
            =~= p.subrange(p.len() - q.len(), p.len() as int));
    } else {
        assert(p.subrange(0, p.len() as int) =~= p);
    }
}

/// Whether the whole of `t` matches the pattern `p`.
pub open spec fn glob_spec(p: Seq<char>, t: Seq<char>) -> bool
    decreases p.len(), 0int, 0int,
    via glob_spec_decreases
{
    if p.len() >= 2 && p[0] == '*' && p[1] == '*' {
        strip_stars(p).len() == 0 || glob_any_suffix(strip_stars(p), t)
    } else if p.len() == 0 {
        t.len() == 0
    } else if p[0] == '*' {
        glob_after_segment(p.drop_first(), t)
    } else if p[0] == '?' {
        t.len() > 0 && t[0] != '/' && glob_spec(p.drop_first(), t.drop_first())
    } else {
        t.len() > 0 && t[0] == p[0] && glob_spec(p.drop_first(), t.drop_first())
    }
}

/// Some suffix of `t` (possibly all of it, possibly empty) matches `q`:
/// what `**` leaves to the rest of the pattern.
pub open spec fn glob_any_suffix(q: Seq<char>, t: Seq<char>) -> bool
    decreases q.len(), 1int, t.len(),
{
    glob_spec(q, t) || (t.len() > 0 && glob_any_suffix(q, t.drop_first()))
}

/// After dropping a prefix of `t` that holds no `/`, the rest matches `q`:
/// what `*` leaves to the rest of the pattern.
pub open spec fn glob_after_segment(q: Seq<char>, t: Seq<char>) -> bool
    decreases q.len(), 1int, t.len(),
{
    glob_spec(q, t) || (t.len() > 0 && t[0] != '/' && glob_after_segment(q, t.drop_first()))
}

#[via_fn]
proof fn glob_spec_decreases(p: Seq<char>, t: Seq<char>) {
    lemma_strip_stars_len(p);
    lemma_strip_stars_len(p.drop_first());
}

/// Whether `text` matches the glob `pattern`.
pub fn glob_match(pattern: &str, text: &str) -> (r: bool)
    ensures
        r == glob_spec(pattern@, text@),
{
    let p = crate::text::chars_of(pattern);
    let t = crate::text::chars_of(text);
    let r = match_glob(p.as_slice(), t.as_slice(), 0, 0);
    assert(p@.subrange(0, p@.len() as int) =~= p@);
    assert(t@.subrange(0, t@.len() as int) =~= t@);
    r
}

/// Whether `t[ti..]` matches `p[pi..]`, by backtracking.
pub fn match_glob(p: &[char], t: &[char], pi: usize, ti: usize) -> (r: bool)
    requires
        pi <= p@.len(),
        ti <= t@.len(),
    ensures
        r == glob_spec(
            p@.subrange(pi as int, p@.len() as int),
            t@.subrange(ti as int, t@.len() as int),
        ),
    decreases p@.len() - pi,
{
    let ghost ps = p@.subrange(pi as int, p@.len() as int);
    let ghost ts = t@.subrange(ti as int, t@.len() as int);
    let plen = p.len();
    let tlen = t.len();
    if pi < plen && plen - pi >= 2 && p[pi] == '*' && p[pi + 1] == '*' {
        assert(ps[0] == '*' && ps[1] == '*');
        let mut pj = pi;
        while pj < plen && p[pj] == '*'
            invariant
                pi <= pj <= p@.len(),
                plen == p@.len(),
                ps == p@.subrange(pi as int, p@.len() as int),
                strip_stars(ps) == strip_stars(p@.subrange(pj as int, p@.len() as int)),
            decreases p@.len() - pj,
        {
            let ghost s = p@.subrange(pj as int, p@.len() as int);
            assert(s.drop_first() =~= p@.subrange(pj + 1, p@.len() as int));
            pj = pj + 1;
        }
        proof {
            let s = p@.subrange(pj as int, p@.len() as int);
            if pj < p@.len() {
                assert(s[0] == p@[pj as int]);
            }
            assert(strip_stars(s) == s);
            lemma_strip_stars_len(ps);
            lemma_strip_stars_len(ps.drop_first());
            assert(pj >= pi + 2);
        }
        if pj >= plen {
            return true;
        }
        let ghost q = strip_stars(ps);
        let mut k = ti;
        loop
            invariant
                pi + 2 <= pj < p@.len(),
                ti <= k <= t@.len(),
                tlen == t@.len(),
                q == p@.subrange(pj as int, p@.len() as int),
                q.len() > 0,
                ps == p@.subrange(pi as int, p@.len() as int),
                ts == t@.subrange(ti as int, t@.len() as int),
                glob_spec(ps, ts) == glob_any_suffix(q, t@.subrange(k as int, t@.len() as int)),
            decreases t@.len() - k,
        {
            let ghost sk = t@.subrange(k as int, t@.len() as int);
            let m = match_glob(p, t, pj, k);
            if m {
                return true;
            }
            if k == tlen {
                return false;
            }
            assert(sk.drop_first() =~= t@.subrange(k + 1, t@.len() as int));
            k = k + 1;
        }
    }
    if pi >= plen {
        return ti >= tlen;
    }
    let c = p[pi];
    assert(ps[0] == c);
    assert(ps.drop_first() =~= p@.subrange(pi + 1, p@.len() as int));
    if c == '*' {
        let ghost q = ps.drop_first();
        let mut k = ti;
        loop
            invariant
                pi < p@.len(),
                ti <= k <= t@.len(),
                tlen == t@.len(),
                q == p@.subrange(pi + 1, p@.len() as int),
                plen == p@.len(),
                ps == p@.subrange(pi as int, p@.len() as int),
                ts == t@.subrange(ti as int, t@.len() as int),
                glob_spec(ps, ts) == glob_after_segment(q, t@.subrange(k as int, t@.len() as int)),
            decreases t@.len() - k,
        {
            let ghost sk = t@.subrange(k as int, t@.len() as int);
            let m = match_glob(p, t, pi + 1, k);
            if m {
                return true;
            }
            if k == tlen {
                return false;
            }
            assert(sk[0] == t@[k as int]);
            if t[k] == '/' {
                return false;
            }
            assert(sk.drop_first() =~= t@.subrange(k + 1, t@.len() as int));
            k = k + 1;
        }
    }
    if ti >= tlen {
        return false;
    }
    assert(ts[0] == t@[ti as int]);
    assert(ts.drop_first() =~= t@.subrange(ti + 1, t@.len() as int));
    if c == '?' {
        if t[ti] != '/' {
            match_glob(p, t, pi + 1, ti + 1)
        } else {
            false
        }
    } else {
        if t[ti] == c {
            match_glob(p, t, pi + 1, ti + 1)
        } else {
            false
        }
    }
}

} // verus!
