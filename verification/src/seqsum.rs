use vstd::prelude::*;

verus! {

/// Sum of the entries of `s` with indices in the half-open range `[a, b)`.
pub open spec fn seg_sum(s: Seq<usize>, a: int, b: int) -> int
    decreases b - a,
{
    if a < b && 0 <= a && b <= s.len() {
        s[a] + seg_sum(s, a + 1, b)
    } else {
        0
    }
}

pub proof fn lemma_seg_sum_split(s: Seq<usize>, a: int, b: int, c: int)
    requires
        0 <= a <= b <= c <= s.len(),
    ensures
        seg_sum(s, a, c) == seg_sum(s, a, b) + seg_sum(s, b, c),
    decreases b - a,
{
    if a < b {
        lemma_seg_sum_split(s, a + 1, b, c);
    }
}

pub proof fn lemma_seg_sum_last(s: Seq<usize>, a: int, b: int)
    requires
        0 <= a <= b < s.len(),
    ensures
        seg_sum(s, a, b + 1) == seg_sum(s, a, b) + s[b],
    decreases b - a,
{
    if a < b {
        lemma_seg_sum_last(s, a + 1, b);
    } else {
        assert(seg_sum(s, b, b) == 0);
        assert(seg_sum(s, b + 1, b + 1) == 0);
        assert(seg_sum(s, b, b + 1) == s[b] + seg_sum(s, b + 1, b + 1));
    }
}

pub proof fn lemma_seg_sum_nonneg(s: Seq<usize>, a: int, b: int)
    ensures
        seg_sum(s, a, b) >= 0,
    decreases b - a,
{
    if a < b && 0 <= a && b <= s.len() {
        lemma_seg_sum_nonneg(s, a + 1, b);
    }
}

/// Entries that are all at least one make the sum at least the entry count.
pub proof fn lemma_seg_sum_lower_bound(s: Seq<usize>, a: int, b: int)
    requires
        0 <= a <= b <= s.len(),
        forall|i: int| a <= i < b ==> 1 <= #[trigger] s[i],
    ensures
        seg_sum(s, a, b) >= b - a,
    decreases b - a,
{
    if a < b {
        lemma_seg_sum_lower_bound(s, a + 1, b);
    }
}

/// Shifting the index range by `d` into a sequence with equal entries keeps the sum.
pub proof fn lemma_seg_sum_shift(s: Seq<usize>, t: Seq<usize>, a: int, b: int, d: int)
    requires
        0 <= a <= b,
        b <= t.len(),
        0 <= a + d,
        b + d <= s.len(),
        forall|i: int| a <= i < b ==> #[trigger] t[i] == s[i + d],
    ensures
        seg_sum(s, a + d, b + d) == seg_sum(t, a, b),
    decreases b - a,
{
    if a < b {
        lemma_seg_sum_shift(s, t, a + 1, b, d);
    }
}

/// Two sequences that agree on `[a, b)` have the same sum there.
pub proof fn lemma_seg_sum_congruence(s: Seq<usize>, t: Seq<usize>, a: int, b: int)
    requires
        0 <= a <= b <= s.len(),
        b <= t.len(),
        forall|i: int| a <= i < b ==> #[trigger] s[i] == t[i],
    ensures
        seg_sum(s, a, b) == seg_sum(t, a, b),
    decreases b - a,
{
    if a < b {
        lemma_seg_sum_congruence(s, t, a + 1, b);
    }
}

/// Pushing an entry adds its value to the whole-sequence sum.
pub proof fn lemma_seg_sum_push(s: Seq<usize>, v: usize)
    ensures
        seg_sum(s.push(v), 0, s.len() as int + 1) == seg_sum(s, 0, s.len() as int) + v,
{
    lemma_seg_sum_last(s.push(v), 0, s.len() as int);
    lemma_seg_sum_congruence(s.push(v), s, 0, s.len() as int);
}

/// Updating one entry changes the whole-sequence sum by the difference.
pub proof fn lemma_seg_sum_update(s: Seq<usize>, k: int, v: usize)
    requires
        0 <= k < s.len(),
    ensures
        seg_sum(s.update(k, v), 0, s.len() as int) == seg_sum(s, 0, s.len() as int) - s[k] + v,
{
    let n = s.len() as int;
    lemma_seg_sum_split(s, 0, k, n);
    lemma_seg_sum_split(s, k, k + 1, n);
    let t = s.update(k, v);
    lemma_seg_sum_split(t, 0, k, n);
    lemma_seg_sum_split(t, k, k + 1, n);
    lemma_seg_sum_congruence(s, t, 0, k);
    lemma_seg_sum_congruence(s, t, k + 1, n);
    assert(seg_sum(t, k, k + 1) == t[k] + seg_sum(t, k + 1, k + 1));
    assert(seg_sum(s, k, k + 1) == s[k] + seg_sum(s, k + 1, k + 1));
    assert(seg_sum(t, k + 1, k + 1) == 0);
    assert(seg_sum(s, k + 1, k + 1) == 0);
}

/// Removing one entry subtracts its value from the whole-sequence sum.
pub proof fn lemma_seg_sum_remove(s: Seq<usize>, k: int)
    requires
        0 <= k < s.len(),
    ensures
        seg_sum(s.remove(k), 0, s.len() - 1) == seg_sum(s, 0, s.len() as int) - s[k],
{
    let n = s.len() as int;
    let t = s.remove(k);
    lemma_seg_sum_split(s, 0, k, n);
    lemma_seg_sum_split(s, k, k + 1, n);
    assert(seg_sum(s, k, k + 1) == s[k] + seg_sum(s, k + 1, k + 1));
    assert(seg_sum(s, k + 1, k + 1) == 0);
    lemma_seg_sum_split(t, 0, k, n - 1);
    lemma_seg_sum_congruence(s, t, 0, k);
    lemma_seg_sum_shift(s, t, k, n - 1, 1);
}

} // verus!
