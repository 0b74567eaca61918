//! Delta coding: running sums and the dense tag-stream cursor.

use vstd::prelude::*;

verus! {

/// The running sum of the first `n` deltas, in wrapping 64-bit arithmetic.
pub open spec fn delta_sum(d: Seq<i64>, n: nat) -> i64
    decreases n,
{
    if n == 0 {
        0
    } else {
        delta_sum(d, (n - 1) as nat).wrapping_add(d[n - 1])
    }
}

/// The running sum of the first `n` deltas, in wrapping 32-bit arithmetic.
pub open spec fn delta_sum32(d: Seq<i32>, n: nat) -> i32
    decreases n,
{
    if n == 0 {
        0
    } else {
        delta_sum32(d, (n - 1) as nat).wrapping_add(d[n - 1])
    }
}

/// The sum of the first `n` deltas of `d`.
pub fn running_sum(d: &Vec<i64>, n: usize) -> (r: i64)
    requires
        n <= d@.len(),
    ensures
        r == delta_sum(d@, n as nat),
{
    let mut acc: i64 = 0;
    let mut i: usize = 0;
    while i < n
        invariant
            i <= n <= d@.len(),
            acc == delta_sum(d@, i as nat),
        decreases n - i,
    {
        acc = acc.wrapping_add(d[i]);
        i = i + 1;
    }
    acc
}

/// The sum of the first `n` deltas of `d`, in 32 bits.
pub fn running_sum32(d: &Vec<i32>, n: usize) -> (r: i32)
    requires
        n <= d@.len(),
    ensures
        r == delta_sum32(d@, n as nat),
{
    let mut acc: i32 = 0;
    let mut i: usize = 0;
    while i < n
        invariant
            i <= n <= d@.len(),
            acc == delta_sum32(d@, i as nat),
        decreases n - i,
    {
        acc = acc.wrapping_add(d[i]);
        i = i + 1;
    }
    acc
}

/// The end of the tag list that starts at `p` in a dense key/value stream:
/// the index of its `0` terminator, or the stream's length when none follows.
pub open spec fn tag_end(kv: Seq<i32>, p: int) -> int
    decreases kv.len() - p,
{
    if p < 0 || p >= kv.len() {
        kv.len() as int
    } else if kv[p] == 0 {
        p
    } else if p + 2 >= kv.len() {
        kv.len() as int
    } else {
        tag_end(kv, p + 2)
    }
}

/// Where the next tag list starts: just past the terminator, or at the end.
pub open spec fn after_tags(kv: Seq<i32>, p: int) -> int {
    let e = tag_end(kv, p);
    if e < kv.len() {
        e + 1
    } else {
        kv.len() as int
    }
}

/// Where the tag list of the `i`-th dense node starts.
pub open spec fn kv_cursor(kv: Seq<i32>, i: nat) -> int
    decreases i,
{
    if i == 0 {
        0
    } else {
        after_tags(kv, kv_cursor(kv, (i - 1) as nat))
    }
}

pub proof fn lemma_tag_end_bounds(kv: Seq<i32>, p: int)
    requires
        0 <= p,
    ensures
        p <= kv.len() ==> p <= tag_end(kv, p),
        tag_end(kv, p) <= kv.len(),
        tag_end(kv, p) < kv.len() ==> kv[tag_end(kv, p)] == 0,
        p <= kv.len() && tag_end(kv, p) < kv.len() ==> (tag_end(kv, p) - p) % 2 == 0,
    decreases kv.len() - p,
{
    if p < kv.len() && kv[p] != 0 && p + 2 < kv.len() {
        lemma_tag_end_bounds(kv, p + 2);
    }
}

pub proof fn lemma_kv_cursor_bounds(kv: Seq<i32>, i: nat)
    ensures
        0 <= kv_cursor(kv, i) <= kv.len(),
    decreases i,
{
    if i > 0 {
        lemma_kv_cursor_bounds(kv, (i - 1) as nat);
        lemma_tag_end_bounds(kv, kv_cursor(kv, (i - 1) as nat));
    }
}

/// Scans the tag list that starts at `p`: returns its end (exclusive) and
/// where the next list starts.
pub fn scan_tags(kv: &[i32], p: usize) -> (r: (usize, usize))
    requires
        p <= kv@.len(),
    ensures
        r.0 == tag_end(kv@, p as int),
        r.1 == after_tags(kv@, p as int),
{
    let mut q: usize = p;
    while q < kv.len() && kv[q] != 0
        invariant
            p <= q <= kv@.len(),
            tag_end(kv@, q as int) == tag_end(kv@, p as int),
        decreases kv@.len() - q,
    {
        if kv.len() - q <= 2 {
            q = kv.len();
        } else {
            q = q + 2;
        }
    }
    if q < kv.len() {
        (q, q + 1)
    } else {
        (q, q)
    }
}

} // verus!
