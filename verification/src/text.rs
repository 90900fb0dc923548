//! Byte-string searching and replacement, verified against sequence specs.

use vstd::prelude::*;

verus! {

/// `i` marks the start of an occurrence of `pat` inside `s`.
pub open spec fn matches_at(s: Seq<u8>, pat: Seq<u8>, i: int) -> bool {
    &&& 0 <= i
    &&& i + pat.len() <= s.len()
    &&& s.subrange(i, i + pat.len() as int) == pat
}

/// `pat` occurs somewhere inside `s`.
pub open spec fn contains_seq(s: Seq<u8>, pat: Seq<u8>) -> bool {
    exists|i: int| matches_at(s, pat, i)
}

/// Leftmost, non-overlapping replacement of every occurrence of `pat` in
/// `s` by `rep`, scanning left to right; an empty pattern leaves `s`
/// unchanged.
pub open spec fn replace_all(s: Seq<u8>, pat: Seq<u8>, rep: Seq<u8>) -> Seq<u8>
    decreases s.len(),
{
    if pat.len() == 0 || s.len() < pat.len() {
        s
    } else if s.subrange(0, pat.len() as int) == pat {
        rep + replace_all(s.skip(pat.len() as int), pat, rep)
    } else {
        seq![s[0]] + replace_all(s.skip(1), pat, rep)
    }
}

/// `p` is a prefix of `s`.
pub open spec fn prefix_of(p: Seq<u8>, s: Seq<u8>) -> bool {
    p.len() <= s.len() && s.subrange(0, p.len() as int) == p
}

/// `p` is a suffix of `s`.
pub open spec fn suffix_of(p: Seq<u8>, s: Seq<u8>) -> bool {
    p.len() <= s.len() && s.subrange(s.len() - p.len(), s.len() as int) == p
}

/// No nonempty proper prefix of `pat` ends `rep`, so pattern text can
/// never start inside an inserted replacement and finish after it.
pub open spec fn no_head_overlap(pat: Seq<u8>, rep: Seq<u8>) -> bool {
    forall|k: int| 1 <= k < pat.len() ==> !suffix_of(#[trigger] pat.take(k), rep)
}

/// No nonempty proper suffix of `pat` starts `rep`, so pattern text can
/// never start before an inserted replacement and finish inside it.
pub open spec fn no_tail_overlap(pat: Seq<u8>, rep: Seq<u8>) -> bool {
    forall|k: int| 1 <= k < pat.len() ==> !prefix_of(#[trigger] pat.skip(k), rep)
}

/// `rep` does not sit strictly inside `pat`, so pattern text can never
/// start before an inserted replacement and finish after it.  An empty
/// `rep` sits inside every `pat` of two or more bytes: deleting
/// occurrences can splice surrounding text into a fresh one.
pub open spec fn not_inner_factor(rep: Seq<u8>, pat: Seq<u8>) -> bool {
    forall|j: int|
        1 <= j && j + rep.len() + 1 <= pat.len() ==> #[trigger] pat.subrange(j, j + rep.len() as int)
            != rep
}

/// Substituting `rep` for `pat` can create no fresh occurrence of `pat`:
/// `rep` does not contain `pat`, and no occurrence of `pat` can straddle
/// an inserted copy of `rep`.
pub open spec fn replacement_safe(pat: Seq<u8>, rep: Seq<u8>) -> bool {
    &&& !contains_seq(rep, pat)
    &&& no_head_overlap(pat, rep)
    &&& no_tail_overlap(pat, rep)
    &&& not_inner_factor(rep, pat)
}

/// Whether `pat` occurs in `s` starting at position `i`.
pub fn is_match_at(s: &[u8], pat: &[u8], i: usize) -> (b: bool)
    ensures
        b == matches_at(s@, pat@, i as int),
{
    let n = s.len();
    let m = pat.len();
    if i > n || m > n - i {
        return false;
    }
    let mut j: usize = 0;
    while j < m
        invariant
            n == s@.len(),
            m == pat@.len(),
            i + m <= n,
            0 <= j <= m,
            forall|k: int| 0 <= k < j ==> s@[i + k] == pat@[k],
        decreases m - j,
    {
        if s[i + j] != pat[j] {
            proof {
                if matches_at(s@, pat@, i as int) {
                    assert(s@.subrange(i as int, i + pat@.len() as int)[j as int] == pat@[j as int]);
                }
            }
            return false;
        }
        j += 1;
    }
    proof {
        assert(s@.subrange(i as int, i + pat@.len() as int) =~= pat@);
    }
    true
}

/// Whether `pat` occurs anywhere in `s`.
pub fn contains_bytes(s: &[u8], pat: &[u8]) -> (b: bool)
    ensures
        b == contains_seq(s@, pat@),
{
    let n = s.len();
    let m = pat.len();
    if m == 0 {
        proof {
            assert(s@.subrange(0, 0) =~= pat@);
            assert(matches_at(s@, pat@, 0));
        }
        return true;
    }
    if m > n {
        return false;
    }
    let last = n - m;
    let mut i: usize = 0;
    while i <= last
        invariant
            n == s@.len(),
            m == pat@.len(),
            0 < m <= n,
            last == n - m,
            0 <= i <= last + 1,
            forall|k: int| 0 <= k < i ==> !matches_at(s@, pat@, k),
        decreases last + 1 - i,
    {
        if is_match_at(s, pat, i) {
            return true;
        }
        i += 1;
    }
    proof {
        assert forall|k: int| !matches_at(s@, pat@, k) by {
            if 0 <= k <= last {
                assert(!matches_at(s@, pat@, k));
            }
        }
    }
    false
}

/// Appends every byte of `src` to `dst`.
pub fn push_all(dst: &mut Vec<u8>, src: &[u8])
    ensures
        final(dst)@ == old(dst)@ + src@,
{
    let mut j: usize = 0;
    while j < src.len()
        invariant
            0 <= j <= src@.len(),
            dst@ == old(dst)@ + src@.take(j as int),
        decreases src@.len() - j,
    {
        dst.push(src[j]);
        proof {
            assert(old(dst)@ + src@.take(j as int) + seq![src@[j as int]]
                =~= old(dst)@ + src@.take(j + 1));
        }
        j += 1;
    }
    proof {
        assert(old(dst)@ + src@.take(src@.len() as int) =~= old(dst)@ + src@);
    }
}

/// Replaces every occurrence of `pat` in `s` by `rep`, left to right.
pub fn replace_all_bytes(s: &[u8], pat: &[u8], rep: &[u8]) -> (r: Vec<u8>)
    requires
        pat@.len() > 0,
    ensures
        r@ == replace_all(s@, pat@, rep@),
{
    let n = s.len();
    let m = pat.len();
    let mut out: Vec<u8> = Vec::new();
    let mut i: usize = 0;
    proof {
        assert(s@.skip(0) =~= s@);
        assert(out@ + replace_all(s@, pat@, rep@) =~= replace_all(s@, pat@, rep@));
    }
    while m <= n - i
        invariant
            n == s@.len(),
            m == pat@.len(),
            m > 0,
            0 <= i <= n,
            out@ + replace_all(s@.skip(i as int), pat@, rep@) == replace_all(s@, pat@, rep@),
        decreases n - i,
    {
        let ghost t = s@.skip(i as int);
        let ghost prev = out@;
        if is_match_at(s, pat, i) {
            proof {
                assert(t.subrange(0, pat@.len() as int)
                    =~= s@.subrange(i as int, i + pat@.len() as int));
                assert(t.skip(pat@.len() as int) =~= s@.skip(i + pat@.len()));
                assert(replace_all(t, pat@, rep@)
                    == rep@ + replace_all(s@.skip(i + pat@.len()), pat@, rep@));
            }
            push_all(&mut out, rep);
            proof {
                assert((prev + rep@) + replace_all(s@.skip(i + pat@.len()), pat@, rep@)
                    =~= prev + (rep@ + replace_all(s@.skip(i + pat@.len()), pat@, rep@)));
            }
            i += m;
        } else {
            proof {
                assert(t.subrange(0, pat@.len() as int)
                    =~= s@.subrange(i as int, i + pat@.len() as int));
                assert(t.skip(1) =~= s@.skip(i + 1));
                assert(t[0] == s@[i as int]);
                assert(replace_all(t, pat@, rep@)
                    == seq![s@[i as int]] + replace_all(s@.skip(i + 1), pat@, rep@));
            }
            out.push(s[i]);
            proof {
                assert((prev + seq![s@[i as int]]) + replace_all(s@.skip(i + 1), pat@, rep@)
                    =~= prev + (seq![s@[i as int]] + replace_all(s@.skip(i + 1), pat@, rep@)));
                assert(out@ == prev + seq![s@[i as int]]);
            }
            i += 1;
        }
    }
    proof {
        assert(replace_all(s@.skip(i as int), pat@, rep@) == s@.skip(i as int));
    }
    while i < n
        invariant
            n == s@.len(),
            0 <= i <= n,
            out@ + s@.skip(i as int) == replace_all(s@, pat@, rep@),
        decreases n - i,
    {
        let ghost prev = out@;
        out.push(s[i]);
        proof {
            assert(out@ + s@.skip(i + 1) =~= prev + s@.skip(i as int));
        }
        i += 1;
    }
    proof {
        assert(out@ + s@.skip(i as int) =~= out@);
    }
    out
}

/// An occurrence of `pat` inside a tail of `s` is an occurrence in `s`.
pub proof fn lemma_contains_skip(s: Seq<u8>, pat: Seq<u8>, a: int)
    requires
        0 <= a <= s.len(),
        contains_seq(s.skip(a), pat),
    ensures
        contains_seq(s, pat),
{
    let k = choose|k: int| matches_at(s.skip(a), pat, k);
    assert(s.subrange(a + k, a + k + pat.len() as int) =~= s.skip(a).subrange(
        k,
        k + pat.len() as int,
    ));
    assert(matches_at(s, pat, a + k));
}

/// A text that held the pattern holds the replacement after rewriting:
/// the leftmost occurrence of `pat` is turned into a copy of `rep`.
pub proof fn lemma_replace_all_inserts(s: Seq<u8>, pat: Seq<u8>, rep: Seq<u8>)
    requires
        pat.len() > 0,
        contains_seq(s, pat),
    ensures
        contains_seq(replace_all(s, pat, rep), rep),
    decreases s.len(),
{
    let rs = replace_all(s, pat, rep);
    if s.len() < pat.len() {
        let q = choose|q: int| matches_at(s, pat, q);
        assert(false);
    } else if s.subrange(0, pat.len() as int) == pat {
        let t = replace_all(s.skip(pat.len() as int), pat, rep);
        assert(rs == rep + t);
        assert(rs.subrange(0, rep.len() as int) =~= rep);
        assert(matches_at(rs, rep, 0));
    } else {
        let q = choose|q: int| matches_at(s, pat, q);
        assert(q != 0);
        assert(s.skip(1).subrange(q - 1, q - 1 + pat.len() as int) =~= s.subrange(
            q,
            q + pat.len() as int,
        ));
        assert(matches_at(s.skip(1), pat, q - 1));
        lemma_replace_all_inserts(s.skip(1), pat, rep);
        let t = replace_all(s.skip(1), pat, rep);
        assert(rs == seq![s[0]] + t);
        let k = choose|k: int| matches_at(t, rep, k);
        assert(rs.subrange(k + 1, k + 1 + rep.len() as int) =~= t.subrange(
            k,
            k + rep.len() as int,
        ));
        assert(matches_at(rs, rep, k + 1));
    }
}

/// A front region of `s` that no occurrence of `pat` reaches into is
/// copied to the front of the rewritten text unchanged.
proof fn lemma_prefix_region_preserved(s: Seq<u8>, pat: Seq<u8>, rep: Seq<u8>, l: int)
    requires
        pat.len() > 0,
        0 <= l <= s.len(),
        forall|q: int| matches_at(s, pat, q) ==> q >= l,
    ensures
        prefix_of(s.take(l), replace_all(s, pat, rep)),
    decreases s.len(),
{
    let rs = replace_all(s, pat, rep);
    if l == 0 {
        assert(rs.subrange(0, 0) =~= s.take(0));
    } else if s.len() < pat.len() {
        assert(rs.subrange(0, l) =~= s.take(l));
    } else if s.subrange(0, pat.len() as int) == pat {
        assert(matches_at(s, pat, 0));
        assert(false);
    } else {
        let s1 = s.skip(1);
        assert forall|k: int| matches_at(s1, pat, k) implies k >= l - 1 by {
            assert(s.subrange(k + 1, k + 1 + pat.len() as int) =~= s1.subrange(
                k,
                k + pat.len() as int,
            ));
            assert(matches_at(s, pat, k + 1));
        }
        lemma_prefix_region_preserved(s1, pat, rep, l - 1);
        let t = replace_all(s1, pat, rep);
        assert(rs == seq![s[0]] + t);
        assert forall|i: int| 1 <= i < l implies rs[i] == s[i] by {
            assert(t.subrange(0, l - 1)[i - 1] == t[i - 1]);
            assert(s1.take(l - 1)[i - 1] == s[i]);
        }
        assert(rs.subrange(0, l) =~= s.take(l));
    }
}

/// An occurrence of `p1` that no occurrence of `p2` overlaps survives the
/// replacement of `p2` by `r2`: the rewritten text still holds `p1`.
pub proof fn lemma_occurrence_preserved(s: Seq<u8>, p1: Seq<u8>, p2: Seq<u8>, r2: Seq<u8>, q: int)
    requires
        p1.len() > 0,
        p2.len() > 0,
        matches_at(s, p1, q),
        forall|k: int| matches_at(s, p2, k) ==> k + p2.len() <= q || k >= q + p1.len(),
    ensures
        contains_seq(replace_all(s, p2, r2), p1),
    decreases s.len(),
{
    let rs = replace_all(s, p2, r2);
    if s.len() < p2.len() {
        assert(rs == s);
        assert(matches_at(rs, p1, q));
    } else if s.subrange(0, p2.len() as int) == p2 {
        assert(matches_at(s, p2, 0));
        let s2 = s.skip(p2.len() as int);
        let qn = q - p2.len();
        assert(s2.subrange(qn, qn + p1.len() as int) =~= s.subrange(q, q + p1.len() as int));
        assert(matches_at(s2, p1, qn));
        assert forall|k: int| matches_at(s2, p2, k) implies k + p2.len() <= qn || k >= qn
            + p1.len() by {
            assert(s.subrange(
                k + p2.len(),
                k + p2.len() + p2.len() as int,
            ) =~= s2.subrange(k, k + p2.len() as int));
            assert(matches_at(s, p2, k + p2.len()));
        }
        lemma_occurrence_preserved(s2, p1, p2, r2, qn);
        let t = replace_all(s2, p2, r2);
        assert(rs == r2 + t);
        let w = choose|w: int| matches_at(t, p1, w);
        assert(rs.subrange(w + r2.len(), w + r2.len() + p1.len() as int) =~= t.subrange(
            w,
            w + p1.len() as int,
        ));
        assert(matches_at(rs, p1, w + r2.len()));
    } else if q == 0 {
        assert forall|k: int| matches_at(s, p2, k) implies k >= p1.len() by {}
        lemma_prefix_region_preserved(s, p2, r2, p1.len() as int);
        assert(s.take(p1.len() as int) =~= p1);
        assert(matches_at(rs, p1, 0));
    } else {
        let s2 = s.skip(1);
        let qn = q - 1;
        assert(s2.subrange(qn, qn + p1.len() as int) =~= s.subrange(q, q + p1.len() as int));
        assert(matches_at(s2, p1, qn));
        assert forall|k: int| matches_at(s2, p2, k) implies k + p2.len() <= qn || k >= qn
            + p1.len() by {
            assert(s.subrange(k + 1, k + 1 + p2.len() as int) =~= s2.subrange(
                k,
                k + p2.len() as int,
            ));
            assert(matches_at(s, p2, k + 1));
        }
        lemma_occurrence_preserved(s2, p1, p2, r2, qn);
        let t = replace_all(s2, p2, r2);
        assert(rs == seq![s[0]] + t);
        let w = choose|w: int| matches_at(t, p1, w);
        assert(rs.subrange(w + 1, w + 1 + p1.len() as int) =~= t.subrange(
            w,
            w + p1.len() as int,
        ));
        assert(matches_at(rs, p1, w + 1));
    }
}

/// If the rewritten text of `x` starts with a nonempty proper suffix `t`
/// of `p1`, that suffix was already at the front of `x`: a safe
/// replacement for `p2` can contribute no front part of `p1`.
proof fn lemma_replaced_prefix(x: Seq<u8>, t: Seq<u8>, p1: Seq<u8>, p2: Seq<u8>, r2: Seq<u8>)
    requires
        p1.len() > 0,
        p2.len() > 0,
        replacement_safe(p1, r2),
        1 <= t.len() < p1.len(),
        t == p1.skip(p1.len() - t.len()),
        prefix_of(t, replace_all(x, p2, r2)),
    ensures
        prefix_of(t, x),
    decreases x.len(),
{
    let rx = replace_all(x, p2, r2);
    if x.len() < p2.len() {
        // rx == x, so the prefix is already there.
    } else if x.subrange(0, p2.len() as int) == p2 {
        let rest = replace_all(x.skip(p2.len() as int), p2, r2);
        assert(rx == r2 + rest);
        if t.len() <= r2.len() {
            // t would be a nonempty proper suffix of p1 starting r2.
            assert(r2.subrange(0, t.len() as int) =~= rx.subrange(0, t.len() as int));
            assert(prefix_of(p1.skip(p1.len() - t.len()), r2));
            assert(false);
        } else {
            // r2 would sit strictly inside p1.
            let j = p1.len() - t.len();
            assert(t.subrange(0, r2.len() as int) =~= rx.subrange(0, r2.len() as int));
            assert(p1.subrange(j, j + r2.len() as int) =~= t.subrange(0, r2.len() as int));
            assert(p1.subrange(j, j + r2.len() as int) == r2);
            assert(false);
        }
    } else {
        let rest = replace_all(x.skip(1), p2, r2);
        assert(rx == seq![x[0]] + rest);
        if t.len() == 1 {
            assert(x.subrange(0, 1) =~= t);
        } else {
            let t2 = t.skip(1);
            assert(t2 =~= p1.skip(p1.len() - t2.len()));
            assert(rest.subrange(0, t2.len() as int) =~= t2);
            lemma_replaced_prefix(x.skip(1), t2, p1, p2, r2);
            assert(x.skip(1).subrange(0, t2.len() as int) == t2);
            assert forall|i: int| 1 <= i < t.len() implies x[i] == t[i] by {
                assert(x.skip(1).subrange(0, t2.len() as int)[i - 1] == x.skip(1)[i - 1]);
                assert(t2[i - 1] == t[i]);
            }
            assert(x[0] == rx[0] && rx[0] == t[0]);
            assert(x.subrange(0, t.len() as int) =~= t);
        }
    }
}

/// After a safe replacement of `p2` by `r2`, the text holds no occurrence
/// of `p1` — neither a surviving one (when `p1` is `p2` itself, every
/// occurrence is consumed; otherwise `s` held none to begin with) nor one
/// conjured out of inserted replacement text.
pub proof fn lemma_replace_all_absent(s: Seq<u8>, p1: Seq<u8>, p2: Seq<u8>, r2: Seq<u8>)
    requires
        p1.len() > 0,
        p2.len() > 0,
        replacement_safe(p1, r2),
        p1 == p2 || !contains_seq(s, p1),
    ensures
        !contains_seq(replace_all(s, p2, r2), p1),
    decreases s.len(),
{
    let rs = replace_all(s, p2, r2);
    if s.len() < p2.len() {
        assert(rs == s);
        if contains_seq(rs, p1) {
            let q = choose|q: int| matches_at(rs, p1, q);
            assert(false);
        }
    } else if s.subrange(0, p2.len() as int) == p2 {
        let s2 = s.skip(p2.len() as int);
        if p1 != p2 && contains_seq(s2, p1) {
            lemma_contains_skip(s, p1, p2.len() as int);
        }
        lemma_replace_all_absent(s2, p1, p2, r2);
        let t = replace_all(s2, p2, r2);
        assert(rs == r2 + t);
        if contains_seq(rs, p1) {
            let q = choose|q: int| matches_at(rs, p1, q);
            if q + p1.len() <= r2.len() {
                assert(r2.subrange(q, q + p1.len() as int) =~= rs.subrange(
                    q,
                    q + p1.len() as int,
                ));
                assert(matches_at(r2, p1, q));
                assert(false);
            } else if q >= r2.len() {
                assert(t.subrange(q - r2.len(), q - r2.len() + p1.len() as int) =~= rs.subrange(
                    q,
                    q + p1.len() as int,
                ));
                assert(matches_at(t, p1, q - r2.len()));
                assert(false);
            } else {
                let k = r2.len() - q;
                assert(r2.subrange(r2.len() - k, r2.len() as int) =~= p1.take(k));
                assert(suffix_of(p1.take(k), r2));
                assert(false);
            }
        }
    } else {
        let s2 = s.skip(1);
        if p1 != p2 && contains_seq(s2, p1) {
            lemma_contains_skip(s, p1, 1);
        }
        lemma_replace_all_absent(s2, p1, p2, r2);
        let t = replace_all(s2, p2, r2);
        assert(rs == seq![s[0]] + t);
        if contains_seq(rs, p1) {
            let q = choose|q: int| matches_at(rs, p1, q);
            if q >= 1 {
                assert(t.subrange(q - 1, q - 1 + p1.len() as int) =~= rs.subrange(
                    q,
                    q + p1.len() as int,
                ));
                assert(matches_at(t, p1, q - 1));
                assert(false);
            } else if p1.len() == 1 {
                assert(s.subrange(0, 1) =~= p1);
                assert(matches_at(s, p1, 0));
                assert(false);
            } else {
                let t1 = p1.skip(1);
                assert(t1 =~= p1.skip(p1.len() - t1.len()));
                assert(t.subrange(0, t1.len() as int) =~= t1);
                lemma_replaced_prefix(s2, t1, p1, p2, r2);
                assert(s2.subrange(0, t1.len() as int) == t1);
                assert forall|i: int| 1 <= i < p1.len() implies s[i] == p1[i] by {
                    assert(s2.subrange(0, t1.len() as int)[i - 1] == s2[i - 1]);
                    assert(t1[i - 1] == p1[i]);
                }
                assert(s[0] == rs[0] && rs[0] == p1[0]);
                assert(s.subrange(0, p1.len() as int) =~= p1);
                assert(matches_at(s, p1, 0));
                assert(false);
            }
        }
    }
}

} // verus!
