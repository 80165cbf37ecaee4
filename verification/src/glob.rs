//! The meaning of a `*`/`?` glob pattern, the backtracking scan that decides
//! it, and the proof that the two agree.

use vstd::prelude::*;

verus! {

/// Whether `p[i..]` matches `t[j..]`, where `*` matches any run of characters
/// (including `/`) and `?` matches exactly one.
pub open spec fn glob_from(p: Seq<char>, t: Seq<char>, i: int, j: int) -> bool
    decreases p.len() - i, t.len() - j,
{
    if i < 0 || j < 0 || j > t.len() {
        false
    } else if i >= p.len() {
        j == t.len()
    } else if p[i] == '*' {
        glob_from(p, t, i + 1, j) || (j < t.len() && glob_from(p, t, i, j + 1))
    } else {
        j < t.len() && (p[i] == '?' || p[i] == t[j]) && glob_from(p, t, i + 1, j + 1)
    }
}

/// Whether the whole of `t` matches the glob `p`.
pub open spec fn glob_matches(p: Seq<char>, t: Seq<char>) -> bool {
    glob_from(p, t, 0, 0)
}

/// Whether `p[i..]` matches `t[k..]` for some `k` with `lo <= k <= t.len()`.
pub open spec fn glob_from_any(p: Seq<char>, t: Seq<char>, i: int, lo: int) -> bool
    decreases t.len() + 1 - lo,
{
    if lo < 0 || lo > t.len() {
        false
    } else {
        glob_from(p, t, i, lo) || glob_from_any(p, t, i, lo + 1)
    }
}

/// Every character of `p` from index `i` on is `*`.
pub open spec fn only_stars_from(p: Seq<char>, i: int) -> bool {
    forall|k: int| i <= k < p.len() ==> p[k] == '*'
}

/// No character of `p` in `[lo, hi)` is `*`.
pub open spec fn no_star_between(p: Seq<char>, lo: int, hi: int) -> bool {
    forall|k: int| lo <= k < hi ==> p[k] != '*'
}

/// The outcome of the single-pass scan with one backtracking point that
/// `glob_match` runs, from pattern position `pi`, text position `ti`, the
/// position `star` of the last `*` seen (`-1` for none) and the text position
/// `resume` at which that `*` started absorbing.
///
/// A `*` in the pattern is always taken as a wildcard, whatever the text
/// holds; the scan decides exactly [`glob_matches`] (see
/// `lemma_scan_agrees`).
pub open spec fn glob_scan(p: Seq<char>, t: Seq<char>, pi: int, ti: int, star: int, resume: int) -> bool
    decreases t.len() - resume, (t.len() - ti) + (p.len() - pi),
{
    if !(0 <= resume <= ti && ti <= t.len() && 0 <= pi <= p.len() && -1 <= star < p.len()) {
        false
    } else if ti < t.len() {
        if pi < p.len() && p[pi] == '*' {
            glob_scan(p, t, pi + 1, ti, pi, ti)
        } else if pi < p.len() && (p[pi] == '?' || p[pi] == t[ti]) {
            glob_scan(p, t, pi + 1, ti + 1, star, resume)
        } else if star >= 0 {
            glob_scan(p, t, star + 1, resume + 1, star, resume + 1)
        } else {
            false
        }
    } else {
        only_stars_from(p, pi)
    }
}

/// What the scan state stands for: a match from the
/// current positions, or one from the last `*` at a later resume point.
pub open spec fn scan_meaning(p: Seq<char>, t: Seq<char>, pi: int, ti: int, star: int, resume: int) -> bool {
    glob_from(p, t, pi, ti) || (star >= 0 && glob_from_any(p, t, star + 1, resume + 1))
}

/// The bookkeeping the scan keeps about its last `*`.
pub open spec fn scan_state_ok(p: Seq<char>, t: Seq<char>, pi: int, ti: int, star: int, resume: int) -> bool {
    &&& 0 <= pi <= p.len()
    &&& 0 <= ti <= t.len()
    &&& -1 <= star < p.len()
    &&& 0 <= resume <= ti
    &&& star >= 0 ==> {
        &&& star < pi
        &&& p[star] == '*'
        &&& no_star_between(p, star + 1, pi)
        &&& ti - resume == pi - (star + 1)
    }
}

/// A `*` at `i` matches from `j` exactly when the rest matches from some later point.
proof fn lemma_star_expands(p: Seq<char>, t: Seq<char>, i: int, j: int)
    requires
        0 <= i < p.len(),
        p[i] == '*',
        0 <= j <= t.len(),
    ensures
        glob_from(p, t, i, j) == glob_from_any(p, t, i + 1, j),
    decreases t.len() - j,
{
    if j < t.len() {
        lemma_star_expands(p, t, i, j + 1);
    } else {
        assert(!glob_from_any(p, t, i + 1, j + 1));
    }
}

/// Matching a star-free stretch `p[a..a+len)` consumes exactly `len` characters.
proof fn lemma_literal_run(p: Seq<char>, t: Seq<char>, a: int, len: int, k: int)
    requires
        0 <= a,
        0 <= len,
        a + len <= p.len(),
        0 <= k,
        no_star_between(p, a, a + len),
        glob_from(p, t, a, k),
    ensures
        k + len <= t.len(),
        glob_from(p, t, a + len, k + len),
    decreases len,
{
    if len > 0 {
        assert(p[a] != '*');
        lemma_literal_run(p, t, a + 1, len - 1, k + 1);
    }
}

/// Once the text is used up, what is left of the pattern matches only if it is all stars.
proof fn lemma_end_of_text(p: Seq<char>, t: Seq<char>, i: int)
    requires
        0 <= i <= p.len(),
    ensures
        glob_from(p, t, i, t.len() as int) == only_stars_from(p, i),
    decreases p.len() - i,
{
    if i < p.len() {
        lemma_end_of_text(p, t, i + 1);
        if p[i] == '*' {
            assert(only_stars_from(p, i + 1) ==> only_stars_from(p, i)) by {
                assert forall|k: int| i <= k < p.len() && only_stars_from(p, i + 1) implies p[k] == '*' by {
                    if k > i {
                        assert(p[k] == '*');
                    }
                }
            }
        } else {
            assert(!only_stars_from(p, i));
        }
    }
}

/// A match through the recorded `*` at a resume point beyond `resume` implies a
/// match from the current position `pi`, which is itself a `*`.
proof fn lemma_backtrack_subsumed(p: Seq<char>, t: Seq<char>, pi: int, ti: int, star: int, resume: int, lo: int)
    requires
        scan_state_ok(p, t, pi, ti, star, resume),
        star >= 0,
        pi < p.len(),
        p[pi] == '*',
        resume < lo,
        glob_from_any(p, t, star + 1, lo),
    ensures
        glob_from(p, t, pi, ti),
    decreases t.len() + 1 - lo,
{
    let len = pi - (star + 1);
    if glob_from(p, t, star + 1, lo) {
        lemma_literal_run(p, t, star + 1, len, lo);
        lemma_star_expands(p, t, pi, lo + len);
        lemma_star_expands(p, t, pi, ti);
        lemma_any_from_later(p, t, pi + 1, ti, lo + len);
    } else {
        lemma_backtrack_subsumed(p, t, pi, ti, star, resume, lo + 1);
    }
}

/// A match from some point at or after `b` is a match from some point at or after `a <= b`.
proof fn lemma_any_from_later(p: Seq<char>, t: Seq<char>, i: int, a: int, b: int)
    requires
        0 <= a <= b,
        glob_from_any(p, t, i, b),
    ensures
        glob_from_any(p, t, i, a),
    decreases b - a,
{
    if a < b {
        lemma_any_from_later(p, t, i, a + 1, b);
    }
}

/// When the text is used up, no resume point after `resume` can lead to a match.
proof fn lemma_no_late_resume(p: Seq<char>, t: Seq<char>, pi: int, star: int, resume: int, lo: int)
    requires
        scan_state_ok(p, t, pi, t.len() as int, star, resume),
        star >= 0,
        resume < lo,
    ensures
        !glob_from_any(p, t, star + 1, lo),
    decreases t.len() + 1 - lo,
{
    if 0 <= lo <= t.len() {
        let len = pi - (star + 1);
        if glob_from(p, t, star + 1, lo) {
            lemma_literal_run(p, t, star + 1, len, lo);
        }
        lemma_no_late_resume(p, t, pi, star, resume, lo + 1);
    }
}

/// The scan from a well-kept state decides exactly its meaning.
proof fn lemma_scan_means(p: Seq<char>, t: Seq<char>, pi: int, ti: int, star: int, resume: int)
    requires
        scan_state_ok(p, t, pi, ti, star, resume),
    ensures
        glob_scan(p, t, pi, ti, star, resume) == scan_meaning(p, t, pi, ti, star, resume),
    decreases t.len() - resume, (t.len() - ti) + (p.len() - pi),
{
    if ti < t.len() {
        if pi < p.len() && p[pi] == '*' {
            lemma_star_expands(p, t, pi, ti);
            if star >= 0 && glob_from_any(p, t, star + 1, resume + 1) {
                lemma_backtrack_subsumed(p, t, pi, ti, star, resume, resume + 1);
            }
            assert(no_star_between(p, pi + 1, pi + 1));
            lemma_scan_means(p, t, pi + 1, ti, pi, ti);
        } else if pi < p.len() && (p[pi] == '?' || p[pi] == t[ti]) {
            if star >= 0 {
                assert(no_star_between(p, star + 1, pi + 1));
            }
            lemma_scan_means(p, t, pi + 1, ti + 1, star, resume);
        } else if star >= 0 {
            assert(!glob_from(p, t, pi, ti));
            assert(no_star_between(p, star + 1, star + 1));
            lemma_scan_means(p, t, star + 1, resume + 1, star, resume + 1);
        } else {
            assert(!glob_from(p, t, pi, ti));
        }
    } else {
        lemma_end_of_text(p, t, pi);
        if star >= 0 {
            lemma_no_late_resume(p, t, pi, star, resume, resume + 1);
        }
    }
}

/// The backtracking scan decides exactly [`glob_matches`], on every pattern
/// and every text.
pub proof fn lemma_scan_agrees(p: Seq<char>, t: Seq<char>)
    ensures
        glob_scan(p, t, 0, 0, -1, 0) == glob_matches(p, t),
{
    lemma_scan_means(p, t, 0, 0, -1, 0);
}

} // verus!
