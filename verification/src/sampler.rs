use vstd::prelude::*;
use vstd::pervasive::VecAdditionalExecFns;
use crate::hash::hash_of;
use crate::sentence::Sentence;
use crate::seqsum::{seg_sum, lemma_seg_sum_last, lemma_seg_sum_push};

verus! {

/// The id of the length-`k` substring ending at position `t`, one-indexed at
/// its end: the characters with indices `t - k` to `t - 1`.
pub open spec fn substring_id(chars: Seq<char>, t: int, k: int) -> u64 {
    hash_of(chars.subrange(t - k, t))
}

/// The memo of substring ids used by the segmentation lattice: entry `[t][k]`
/// caches the id of the length-`k` substring ending at `t`, with zero
/// standing for a slot not yet filled. The memo must be reset before a new
/// sentence is processed, so that ids of an earlier sentence never leak in.
pub struct Sampler {
    pub substring_word_id_cache: Vec<Vec<u64>>,
    pub max_word_length: usize,
    pub max_sentence_length: usize,
}

/// A grid of `rows` by `cols` zeroes.
fn zero_grid(rows: usize, cols: usize) -> (r: Vec<Vec<u64>>)
    ensures
        r@.len() == rows,
        forall|i: int| 0 <= i < rows ==> (#[trigger] r@[i])@.len() == cols,
        forall|i: int, j: int| 0 <= i < rows && 0 <= j < cols ==> (#[trigger] r@[i]@[j]) == 0,
{
    let mut grid: Vec<Vec<u64>> = Vec::new();
    let mut i: usize = 0;
    while i < rows
        invariant
            0 <= i <= rows,
            grid@.len() == i,
            forall|a: int| 0 <= a < i ==> (#[trigger] grid@[a])@.len() == cols,
            forall|a: int, b: int| 0 <= a < i && 0 <= b < cols ==> (#[trigger] grid@[a]@[b]) == 0,
        decreases rows - i,
    {
        let row: Vec<u64> = vec![0u64; cols];
        grid.push(row);
        i += 1;
    }
    grid
}

impl Sampler {
    /// The memo has one row per sentence position and one column per word
    /// length, within the current bounds.
    pub open spec fn dims_ok(self) -> bool {
        &&& self.substring_word_id_cache@.len() == self.max_sentence_length + 1
        &&& forall|i: int|
            0 <= i < self.substring_word_id_cache@.len() ==> (
            #[trigger] self.substring_word_id_cache@[i])@.len() == self.max_word_length + 1
    }

    /// Every filled slot of the memo holds the id of its substring of this
    /// sentence; empty slots hold zero.
    pub open spec fn cache_ok(self, chars: Seq<char>) -> bool {
        forall|t: int, k: int|
            1 <= k <= t <= chars.len() && t < self.substring_word_id_cache@.len() && k
                < self.substring_word_id_cache@[t]@.len() ==> {
                ||| (#[trigger] self.substring_word_id_cache@[t]@[k]) == 0
                ||| self.substring_word_id_cache@[t]@[k] == substring_id(chars, t, k)
            }
    }

    pub fn new(max_word_length: usize, max_sentence_length: usize) -> (r: Sampler)
        requires
            max_word_length < usize::MAX,
            max_sentence_length < usize::MAX,
        ensures
            r.dims_ok(),
            r.max_word_length == max_word_length,
            r.max_sentence_length == max_sentence_length,
            forall|chars: Seq<char>| r.cache_ok(chars),
    {
        Sampler {
            substring_word_id_cache: zero_grid(max_sentence_length + 1, max_word_length + 1),
            max_word_length,
            max_sentence_length,
        }
    }

    /// Forgets every memoised id; afterwards the memo is clean for any
    /// sentence.
    pub fn clear_substring_cache(&mut self)
        requires
            old(self).dims_ok(),
            old(self).max_word_length < usize::MAX,
            old(self).max_sentence_length < usize::MAX,
        ensures
            final(self).dims_ok(),
            final(self).max_word_length == old(self).max_word_length,
            final(self).max_sentence_length == old(self).max_sentence_length,
            forall|chars: Seq<char>| final(self).cache_ok(chars),
    {
        let rows = self.max_sentence_length + 1;
        let cols = self.max_word_length + 1;
        self.substring_word_id_cache = zero_grid(rows, cols);
    }

    /// Grows the bounds to cover a longer sentence or word length; the
    /// bounds never shrink, and the memo starts out clean again.
    pub fn extend_capacity(&mut self, max_word_length: usize, max_sentence_length: usize)
        requires
            old(self).dims_ok(),
            old(self).max_word_length < usize::MAX,
            old(self).max_sentence_length < usize::MAX,
            max_word_length < usize::MAX,
            max_sentence_length < usize::MAX,
        ensures
            final(self).dims_ok(),
            final(self).max_word_length == if max_word_length > old(self).max_word_length {
                max_word_length
            } else {
                old(self).max_word_length
            },
            final(self).max_sentence_length == if max_sentence_length > old(
                self,
            ).max_sentence_length {
                max_sentence_length
            } else {
                old(self).max_sentence_length
            },
            forall|chars: Seq<char>| final(self).cache_ok(chars),
    {
        if max_word_length > self.max_word_length {
            self.max_word_length = max_word_length;
        }
        if max_sentence_length > self.max_sentence_length {
            self.max_sentence_length = max_sentence_length;
        }
        let rows = self.max_sentence_length + 1;
        let cols = self.max_word_length + 1;
        self.substring_word_id_cache = zero_grid(rows, cols);
    }

    /// The id of the length-`k` substring ending at `t`, memoised: a filled
    /// slot is returned as it stands, an empty one is computed from the
    /// sentence and filled.
    pub fn get_substring_word_id_at_t_k(&mut self, sentence: &Sentence, t: usize, k: usize) -> (r:
        u64)
        requires
            old(self).dims_ok(),
            old(self).cache_ok(sentence.characters@),
            1 <= k <= t <= sentence.characters@.len(),
            t <= old(self).max_sentence_length,
            k <= old(self).max_word_length,
        ensures
            final(self).dims_ok(),
            final(self).cache_ok(sentence.characters@),
            final(self).max_word_length == old(self).max_word_length,
            final(self).max_sentence_length == old(self).max_sentence_length,
            r == substring_id(sentence.characters@, t as int, k as int),
    {
        let word_id = self.substring_word_id_cache[t][k];
        if word_id == 0 {
            let id = sentence.get_substr_word_id(t - k, t - 1);
            let mut row: Vec<u64> = Vec::new();
            self.substring_word_id_cache.set_and_swap(t, &mut row);
            row.set(k, id);
            self.substring_word_id_cache.set_and_swap(t, &mut row);
            proof {
                assert(sentence.characters@.subrange(t - k, t as int) == sentence.characters@
                    .subrange(t - k, (t - 1) + 1));
                assert forall|a: int, b: int|
                    1 <= b <= a <= sentence.characters@.len() && a
                        < self.substring_word_id_cache@.len() && b
                        < self.substring_word_id_cache@[a]@.len() implies {
                    ||| (#[trigger] self.substring_word_id_cache@[a]@[b]) == 0
                    ||| self.substring_word_id_cache@[a]@[b] == substring_id(
                        sentence.characters@,
                        a,
                        b,
                    )
                } by {
                    if a != t as int {
                        assert(self.substring_word_id_cache@[a] == old(
                            self,
                        ).substring_word_id_cache@[a]);
                    }
                }
            }
            id
        } else {
            proof {
                assert(self.substring_word_id_cache@[t as int]@[k as int] == substring_id(
                    sentence.characters@,
                    t as int,
                    k as int,
                ));
            }
            word_id
        }
    }
}

/// Follows the argmax indices recorded by the Viterbi forward pass from the
/// sentence end back to the start, starting from the best final word pair
/// `(k0, j0)` at position `t0`. Collects the word lengths in sentence order,
/// ending on `k0` with `j0` before it. The recorded index at `[t][k][j]`
/// names the length of the word preceding the pair `(k, j)` ending at `t`;
/// it is zero exactly where nothing precedes, so the recovered lengths
/// always partition the sentence: they are positive, they sum to `t0`, and
/// none exceeds the word-length bound the table was built under.
pub fn viterbi_backtrace(
    indices: &Vec<Vec<Vec<usize>>>,
    t0: usize,
    k0: usize,
    j0: usize,
    max_word_length: usize,
) -> (r: Vec<usize>)
    requires
        1 <= k0 <= t0,
        k0 <= max_word_length,
        j0 <= max_word_length,
        j0 <= t0 - k0,
        j0 == 0 ==> k0 == t0,
        t0 < indices@.len(),
        forall|a: int| 0 <= a < indices@.len() ==> t0 < (#[trigger] indices@[a])@.len(),
        forall|a: int, b: int|
            0 <= a < indices@.len() && 0 <= b < indices@[a]@.len() ==> t0 < (
            #[trigger] indices@[a]@[b])@.len(),
        forall|a: int, b: int, c: int|
            0 <= a < indices@.len() && 0 <= b < indices@[a]@.len() && 0 <= c
                < indices@[a]@[b]@.len() && b + c <= a ==> {
                &&& (#[trigger] indices@[a]@[b]@[c]) <= a - b - c
                &&& indices@[a]@[b]@[c] <= max_word_length
                &&& (a - b - c > 0 ==> 1 <= indices@[a]@[b]@[c])
                &&& (a - b - c == 0 ==> indices@[a]@[b]@[c] == 0)
            },
    ensures
        seg_sum(r@, 0, r@.len() as int) == t0,
        forall|m: int| 0 <= m < r@.len() ==> 1 <= #[trigger] r@[m],
        forall|m: int| 0 <= m < r@.len() ==> #[trigger] r@[m] <= max_word_length,
        1 <= r@.len(),
        r@[r@.len() - 1] == k0,
        2 <= r@.len() ==> r@[r@.len() - 2] == j0,
{
    let mut reversed_lengths: Vec<usize> = Vec::new();
    reversed_lengths.push(k0);
    proof {
        assert(seg_sum(reversed_lengths@, 1, 1) == 0);
        assert(seg_sum(reversed_lengths@, 0, 1) == k0 + seg_sum(reversed_lengths@, 1, 1));
    }
    if !(j0 == 0 && k0 == t0) {
        let ghost v1 = reversed_lengths@;
        reversed_lengths.push(j0);
        proof {
            lemma_seg_sum_push(v1, j0);
            assert(v1.push(j0) =~= reversed_lengths@);
            assert(seg_sum(reversed_lengths@, 0, 2) == k0 + j0);
        }
        let mut t: usize = t0 - k0;
        let mut k: usize = j0;
        let mut j: usize = indices[t0][k0][j0];
        proof {
            assert(indices@[t0 as int]@[k0 as int]@[j0 as int] <= t0 - k0 - j0);
            assert(t0 - k0 - j0 > 0 ==> 1 <= indices@[t0 as int]@[k0 as int]@[j0 as int]);
            assert(t0 - k0 - j0 == 0 ==> indices@[t0 as int]@[k0 as int]@[j0 as int] == 0);
        }
        if j != 0 {
            let ghost v2 = reversed_lengths@;
            reversed_lengths.push(j);
            proof {
                lemma_seg_sum_push(v2, j);
                assert(v2.push(j) =~= reversed_lengths@);
                assert(seg_sum(reversed_lengths@, 0, 3) == k0 + j0 + j);
            }
            while t > 0
                invariant
                    t0 < indices@.len(),
                    forall|a: int| 0 <= a < indices@.len() ==> t0 < (#[trigger] indices@[a])@.len(),
                    forall|a: int, b: int|
                        0 <= a < indices@.len() && 0 <= b < indices@[a]@.len() ==> t0 < (
                        #[trigger] indices@[a]@[b])@.len(),
                    forall|a: int, b: int, c: int|
                        0 <= a < indices@.len() && 0 <= b < indices@[a]@.len() && 0 <= c
                            < indices@[a]@[b]@.len() && b + c <= a ==> {
                            &&& (#[trigger] indices@[a]@[b]@[c]) <= a - b - c
                            &&& indices@[a]@[b]@[c] <= max_word_length
                            &&& (a - b - c > 0 ==> 1 <= indices@[a]@[b]@[c])
                            &&& (a - b - c == 0 ==> indices@[a]@[b]@[c] == 0)
                        },
                    t <= t0,
                    k + j <= t,
                    k <= max_word_length,
                    j <= max_word_length,
                    t > 0 ==> 1 <= k,
                    j == 0 ==> t == k,
                    seg_sum(reversed_lengths@, 0, reversed_lengths@.len() as int) == (t0 - t) + k
                        + j,
                    forall|m: int|
                        0 <= m < reversed_lengths@.len() ==> 1 <= #[trigger] reversed_lengths@[m],
                    forall|m: int|
                        0 <= m < reversed_lengths@.len() ==> #[trigger] reversed_lengths@[m]
                            <= max_word_length,
                    2 <= reversed_lengths@.len(),
                    reversed_lengths@[0] == k0,
                    reversed_lengths@[1] == j0,
                decreases t,
            {
                let i = indices[t][k][j];
                if i != 0 {
                    let ghost before = reversed_lengths@;
                    reversed_lengths.push(i);
                    proof {
                        lemma_seg_sum_push(before, i);
                        assert(before.push(i) =~= reversed_lengths@);
                    }
                }
                t = t - k;
                k = j;
                j = i;
            }
        }
    }
    // Reverse into sentence order; the sum is carried across one move at a
    // time.
    let total = reversed_lengths.len();
    let ghost full = reversed_lengths@;
    let mut out: Vec<usize> = Vec::new();
    proof {
        assert(seg_sum(out@, 0, 0) == 0);
    }
    while reversed_lengths.len() > 0
        invariant
            full.len() == total,
            reversed_lengths@ == full.take(reversed_lengths@.len() as int),
            seg_sum(reversed_lengths@, 0, reversed_lengths@.len() as int) + seg_sum(
                out@,
                0,
                out@.len() as int,
            ) == t0,
            forall|m: int| 0 <= m < full.len() ==> 1 <= #[trigger] full[m],
            forall|m: int| 0 <= m < full.len() ==> #[trigger] full[m] <= max_word_length,
            forall|m: int| 0 <= m < out@.len() ==> #[trigger] out@[m] == full[total - 1 - m],
            out@.len() + reversed_lengths@.len() == total,
        decreases reversed_lengths@.len(),
    {
        let ghost before = reversed_lengths@;
        let ghost out_before = out@;
        let x = match reversed_lengths.pop() {
            Option::Some(x) => x,
            Option::None => {
                proof {
                    assert(false);
                }
                0
            },
        };
        proof {
            assert(reversed_lengths@ =~= before.drop_last());
            assert(reversed_lengths@ =~= full.take(reversed_lengths@.len() as int));
            lemma_seg_sum_last(before, 0, before.len() - 1);
            crate::seqsum::lemma_seg_sum_congruence(
                reversed_lengths@,
                before,
                0,
                before.len() - 1,
            );
            assert(x == full[before.len() - 1]);
        }
        out.push(x);
        proof {
            lemma_seg_sum_push(out_before, x);
            assert(out_before.push(x) =~= out@);
        }
    }
    proof {
        assert(seg_sum(reversed_lengths@, 0, 0) == 0);
        assert(1 <= total);
        assert(out@[out@.len() - 1] == full[0]);
        if 2 <= total {
            assert(out@[out@.len() - 2] == full[1]);
        }
    }
    out
}

} // verus!
