//! Header folding: a header may run over several lines, each continuation
//! line opening with blanks. Unfolding joins them into one logical line.

use vstd::prelude::*;

verus! {

/// Space or tab.
pub open spec fn is_ws(b: u8) -> bool {
    b == 32 || b == 9
}

/// Length of the line break at `i` that a continuation line follows: 2 for
/// CRLF, 1 for LF, 0 where no fold starts at `i`.
pub open spec fn fold_at(s: Seq<u8>, i: int) -> int {
    if 0 <= i && i + 2 < s.len() && s[i] == 13 && s[i + 1] == 10 && is_ws(s[i + 2]) {
        2
    } else if 0 <= i && i + 1 < s.len() && s[i] == 10 && is_ws(s[i + 1]) {
        1
    } else {
        0
    }
}

/// The bytes from `i` on with every fold replaced by one space: the line
/// break and the blanks that open the continuation line collapse into it.
/// `folding` says that the blanks of a continuation line are being skipped.
pub open spec fn unfold_from(s: Seq<u8>, i: int, folding: bool) -> Seq<u8>
    decreases s.len() - i,
{
    if i < 0 || i >= s.len() {
        Seq::empty()
    } else if folding && is_ws(s[i]) {
        unfold_from(s, i + 1, true)
    } else if fold_at(s, i) > 0 {
        seq![32u8] + unfold_from(s, i + fold_at(s, i), true)
    } else {
        seq![s[i]] + unfold_from(s, i + 1, false)
    }
}

/// A header block with its continuation lines joined to the lines they continue.
pub open spec fn unfolded(s: Seq<u8>) -> Seq<u8> {
    unfold_from(s, 0, false)
}

/// A byte that is neither a blank nor part of a line break.
pub open spec fn is_plain(b: u8) -> bool {
    !is_ws(b) && b != 10 && b != 13
}

/// Joins continuation lines to the lines they continue.
pub fn unfold(block: &[u8]) -> (r: Vec<u8>)
    ensures
        r@ == unfolded(block@),
{
    let n: usize = block.len();
    let mut out: Vec<u8> = Vec::new();
    let mut i: usize = 0;
    let mut folding = false;
    assert(out@ + unfold_from(block@, 0, false) =~= unfolded(block@));
    while i < n
        invariant
            i <= n,
            n == block@.len(),
            unfolded(block@) == out@ + unfold_from(block@, i as int, folding),
        decreases n - i,
    {
        let ghost before = out@;
        let ghost rest = unfold_from(block@, i as int, folding);
        let b: u8 = block[i];
        if folding && (b == 32 || b == 9) {
            i += 1;
        } else if n - i > 2 && b == 13 && block[i + 1] == 10 && (block[i + 2] == 32 || block[i + 2] == 9) {
            out.push(32);
            i += 2;
            folding = true;
            assert(out@ + unfold_from(block@, i as int, true) =~= before + rest);
        } else if n - i > 1 && b == 10 && (block[i + 1] == 32 || block[i + 1] == 9) {
            out.push(32);
            i += 1;
            folding = true;
            assert(out@ + unfold_from(block@, i as int, true) =~= before + rest);
        } else {
            out.push(b);
            i += 1;
            folding = false;
            assert(out@ + unfold_from(block@, i as int, false) =~= before + rest);
        }
    }
    assert(out@ + Seq::<u8>::empty() =~= out@);
    out
}

/// Unfolding from an index depends only on the bytes from that index on.
pub proof fn unfolding_reads_the_suffix(s: Seq<u8>, i: int, t: Seq<u8>, j: int, folding: bool)
    requires
        0 <= i <= s.len(),
        0 <= j <= t.len(),
        s.subrange(i, s.len() as int) == t.subrange(j, t.len() as int),
    ensures
        unfold_from(s, i, folding) == unfold_from(t, j, folding),
    decreases s.len() - i,
{
    let u = s.subrange(i, s.len() as int);
    let v = t.subrange(j, t.len() as int);
    assert(u.len() == s.len() - i);
    assert(v.len() == t.len() - j);
    if i < s.len() {
        assert(u[0] == s[i]);
        assert(v[0] == t[j]);
        if i + 1 < s.len() {
            assert(u[1] == s[i + 1]);
            assert(v[1] == t[j + 1]);
        }
        if i + 2 < s.len() {
            assert(u[2] == s[i + 2]);
            assert(v[2] == t[j + 2]);
        }
        assert(fold_at(s, i) == fold_at(t, j));
        assert(s.subrange(i + 1, s.len() as int) =~= u.subrange(1, u.len() as int));
        assert(t.subrange(j + 1, t.len() as int) =~= v.subrange(1, v.len() as int));
        unfolding_reads_the_suffix(s, i + 1, t, j + 1, true);
        unfolding_reads_the_suffix(s, i + 1, t, j + 1, false);
        if i + 2 <= s.len() {
            assert(s.subrange(i + 2, s.len() as int) =~= u.subrange(2, u.len() as int));
            assert(t.subrange(j + 2, t.len() as int) =~= v.subrange(2, v.len() as int));
            unfolding_reads_the_suffix(s, i + 2, t, j + 2, true);
        }
    }
}

/// The blanks of a continuation line leave nothing behind.
pub proof fn blanks_are_skipped(s: Seq<u8>, i: int, j: int)
    requires
        0 <= i <= j <= s.len(),
        forall|k: int| i <= k < j ==> is_ws(#[trigger] s[k]),
    ensures
        unfold_from(s, i, true) == unfold_from(s, j, true),
    decreases j - i,
{
    if i < j {
        blanks_are_skipped(s, i + 1, j);
    }
}

/// What stands before a plain byte unfolds the same whatever follows it,
/// as long as what follows unfolds the same.
pub proof fn unfolding_of_a_prefix(a: Seq<u8>, r1: Seq<u8>, r2: Seq<u8>, i: int, folding: bool)
    requires
        a.len() > 0,
        is_plain(a[a.len() - 1]),
        0 <= i <= a.len(),
        i < a.len() || !folding,
        unfold_from(a + r1, a.len() as int, false) == unfold_from(a + r2, a.len() as int, false),
    ensures
        unfold_from(a + r1, i, folding) == unfold_from(a + r2, i, folding),
    decreases a.len() - i,
{
    let s1 = a + r1;
    let s2 = a + r2;
    if i < a.len() {
        assert(s1[i] == a[i] && s2[i] == a[i]);
        if i + 1 < a.len() {
            assert(s1[i + 1] == a[i + 1] && s2[i + 1] == a[i + 1]);
        }
        if i + 2 < a.len() {
            assert(s1[i + 2] == a[i + 2] && s2[i + 2] == a[i + 2]);
        }
        assert(fold_at(s1, i) == fold_at(s2, i));
        if folding && is_ws(a[i]) {
            unfolding_of_a_prefix(a, r1, r2, i + 1, true);
        } else if fold_at(s1, i) > 0 {
            unfolding_of_a_prefix(a, r1, r2, i + fold_at(s1, i), true);
        } else {
            unfolding_of_a_prefix(a, r1, r2, i + 1, false);
        }
    }
}

/// A header whose value is split over a continuation line unfolds to the
/// same bytes as the header written on one line: for a line that ends in a
/// plain byte, a line break followed by blanks and the rest reads as one
/// space followed by the rest.
pub proof fn folded_header_reads_as_unfolded(a: Seq<u8>, line_break: Seq<u8>, blanks: Seq<u8>, rest: Seq<u8>)
    requires
        a.len() > 0,
        is_plain(a[a.len() - 1]),
        line_break == seq![13u8, 10u8] || line_break == seq![10u8],
        blanks.len() > 0,
        forall|k: int| 0 <= k < blanks.len() ==> is_ws(#[trigger] blanks[k]),
        rest.len() == 0 || !is_ws(rest[0]),
    ensures
        unfolded(a + line_break + blanks + rest) == unfolded(a + seq![32u8] + rest),
{
    let r1 = line_break + blanks + rest;
    let r2 = seq![32u8] + rest;
    let s1 = a + r1;
    let s2 = a + r2;
    let at = a.len() as int;
    let n = line_break.len() as int;
    let resume = at + n + blanks.len();
    assert(s1 =~= a + line_break + blanks + rest);
    assert(s2 =~= a + seq![32u8] + rest);
    assert(forall|k: int| 0 <= k < n ==> s1[at + k] == line_break[k]);
    assert(forall|k: int| 0 <= k < blanks.len() ==> s1[at + n + k] == blanks[k]);
    assert(s1[at + n] == blanks[0]);
    assert(fold_at(s1, at) == n);
    assert forall|k: int| at + n <= k < resume implies is_ws(#[trigger] s1[k]) by {
        assert(s1[k] == blanks[k - at - n]);
    }
    blanks_are_skipped(s1, at + n, resume);
    assert(s1.subrange(resume, s1.len() as int) =~= rest);
    assert(s2.subrange(at + 1, s2.len() as int) =~= rest);
    if rest.len() > 0 {
        assert(s1[resume] == rest[0]);
    }
    assert(unfold_from(s1, resume, true) == unfold_from(s1, resume, false));
    unfolding_reads_the_suffix(s1, resume, s2, at + 1, false);
    assert(s2[at] == 32u8);
    assert(fold_at(s2, at) == 0);
    assert(unfold_from(s1, at, false) == unfold_from(s2, at, false));
    unfolding_of_a_prefix(a, r1, r2, 0, false);
}

} // verus!
