use vstd::prelude::*;
use vstd::pervasive::VecAdditionalExecFns;
use crate::defs::{BOS, EOS};
use crate::hash::{calculate_hash, hash_of, push_char};
use crate::seqsum::{seg_sum, lemma_seg_sum_split, lemma_seg_sum_last, lemma_seg_sum_nonneg, lemma_seg_sum_lower_bound, lemma_seg_sum_shift};

verus! {

/// A sentence: an immutable character sequence together with a mutable
/// segmentation. The segmentation arrays are bracketed by two begin-of-sentence
/// sentinel segments in front and one end-of-sentence sentinel segment behind
/// the words; `num_segments` counts the active prefix of the arrays, sentinels
/// included. Entries beyond the active prefix are stale and carry no meaning.
#[derive(Clone)]
pub struct Sentence {
    pub num_segments: usize,
    pub segment_lengths: Vec<usize>,
    pub segment_begin_positions: Vec<usize>,
    pub supervised: bool,
    pub characters: Vec<char>,
    pub word_ids: Vec<u64>,
}

impl Sentence {
    /// Structural invariant: the two leading sentinels and the closing
    /// end-of-sentence sentinel are in place, every active word segment is
    /// non-empty, the non-sentinel segment lengths sum to the character count,
    /// and each active segment begins where the previous one ended.
    pub open spec fn wf(self) -> bool {
        &&& 1 <= self.characters@.len()
        &&& self.segment_lengths@.len() == self.characters@.len() + 3
        &&& self.segment_begin_positions@.len() == self.characters@.len() + 3
        &&& self.word_ids@.len() == self.characters@.len() + 3
        &&& 4 <= self.num_segments <= self.characters@.len() + 3
        &&& self.word_ids@[0] == BOS
        &&& self.word_ids@[1] == BOS
        &&& self.segment_lengths@[0] == 1
        &&& self.segment_lengths@[1] == 1
        &&& self.word_ids@[self.num_segments - 1] == EOS
        &&& self.segment_lengths@[self.num_segments - 1] == 1
        &&& forall|n: int|
            2 <= n < self.num_segments - 1 ==> 1 <= #[trigger] self.segment_lengths@[n]
        &&& seg_sum(self.segment_lengths@, 2, self.num_segments - 1) == self.characters@.len()
        &&& forall|n: int|
            2 <= n < self.num_segments - 1 ==> #[trigger] self.segment_begin_positions@[n]
                == seg_sum(self.segment_lengths@, 2, n)
    }

    /// Each active word's stored id is the hash of the characters that its
    /// stored boundaries select.
    pub open spec fn ids_consistent(self) -> bool {
        forall|n: int|
            2 <= n < self.num_segments - 1 ==> #[trigger] self.word_ids@[n] == hash_of(
                self.characters@.subrange(
                    self.segment_begin_positions@[n] as int,
                    self.segment_begin_positions@[n] + self.segment_lengths@[n],
                ),
            )
    }

    /// A fresh sentence holds the whole character sequence as its single word,
    /// between the sentinel segments.
    pub fn new(characters: Vec<char>, supervised: bool) -> (r: Sentence)
        requires
            1 <= characters@.len(),
            characters@.len() + 3 <= usize::MAX,
        ensures
            r.wf(),
            r.num_segments == 4,
            r.characters == characters,
            r.supervised == supervised,
            r.segment_lengths@[2] == characters@.len(),
            r.segment_lengths@[3] == 1,
            r.word_ids@[2] == 0,
            r.segment_begin_positions@[0] == 0,
            r.segment_begin_positions@[1] == 0,
            r.segment_begin_positions@[2] == 0,
            r.segment_begin_positions@[3] == characters@.len(),
            forall|i: int|
                4 <= i < characters@.len() + 3 ==> #[trigger] r.segment_lengths@[i] == 0
                    && r.segment_begin_positions@[i] == 0 && r.word_ids@[i] == 0,
    {
        let n = characters.len();
        let mut word_ids: Vec<u64> = vec![0u64; n + 3];
        word_ids.set(0, BOS);
        word_ids.set(1, BOS);
        word_ids.set(3, EOS);

        let mut segment_lengths: Vec<usize> = vec![0usize; n + 3];
        segment_lengths.set(0, 1);
        segment_lengths.set(1, 1);
        segment_lengths.set(2, n);
        segment_lengths.set(3, 1);

        let mut segment_begin_positions: Vec<usize> = vec![0usize; n + 3];
        segment_begin_positions.set(3, n);

        let r = Sentence {
            num_segments: 4,
            segment_lengths,
            segment_begin_positions,
            supervised,
            characters,
            word_ids,
        };
        proof {
            assert(seg_sum(r.segment_lengths@, 3, 3) == 0);
            assert(seg_sum(r.segment_lengths@, 2, 3) == n);
            assert(seg_sum(r.segment_lengths@, 2, 2) == 0);
        }
        r
    }

    /// The sentence's length in characters.
    pub fn length(&self) -> (r: usize)
        ensures
            r == self.characters@.len(),
    {
        self.characters.len()
    }

    /// How many real words the active segmentation holds.
    pub fn get_num_segments_without_special_tokens(&self) -> (r: usize)
        requires
            self.wf(),
        ensures
            r == self.num_segments - 3,
    {
        self.num_segments - 3
    }

    pub fn get_nth_segment_length(&self, n: usize) -> (r: usize)
        requires
            n < self.segment_lengths@.len(),
        ensures
            r == self.segment_lengths@[n as int],
    {
        self.segment_lengths[n]
    }

    pub fn get_nth_word_id(&self, n: usize) -> (r: u64)
        requires
            n < self.word_ids@.len(),
        ensures
            r == self.word_ids@[n as int],
    {
        self.word_ids[n]
    }

    /// The id of the substring spanning the characters from `start_index` to
    /// `end_index`, both inclusive.
    pub fn get_substr_word_id(&self, start_index: usize, end_index: usize) -> (r: u64)
        requires
            start_index <= end_index,
            end_index < self.characters@.len(),
        ensures
            r == hash_of(self.characters@.subrange(start_index as int, end_index + 1)),
    {
        let num_chars = self.characters.len();
        let mut sub: Vec<char> = Vec::new();
        let mut i: usize = start_index;
        while i <= end_index
            invariant
                start_index <= i <= end_index + 1,
                end_index < num_chars == self.characters@.len(),
                sub@ =~= self.characters@.subrange(start_index as int, i as int),
            decreases end_index + 1 - i,
        {
            sub.push(self.characters[i]);
            i += 1;
        }
        calculate_hash(&sub)
    }

    /// The characters of the `n`th segment as a string; the two leading
    /// sentinel segments read as a begin-of-sentence marker.
    pub fn get_nth_word_string(&self, n: usize) -> (r: String)
        requires
            self.wf(),
            n < self.num_segments - 1,
        ensures
            n < 2 ==> r@ == "<BOS>"@,
            2 <= n ==> r@ == self.characters@.subrange(
                self.segment_begin_positions@[n as int] as int,
                self.segment_begin_positions@[n as int] + self.segment_lengths@[n as int],
            ),
    {
        if n < 2 {
            return "<BOS>".to_owned();
        }
        let num_chars = self.characters.len();
        let start_position = self.segment_begin_positions[n];
        proof {
            lemma_seg_sum_last(self.segment_lengths@, 2, n as int);
            lemma_seg_sum_split(
                self.segment_lengths@,
                2,
                n as int + 1,
                self.num_segments - 1,
            );
            lemma_seg_sum_nonneg(self.segment_lengths@, n as int + 1, self.num_segments - 1);
            lemma_seg_sum_nonneg(self.segment_lengths@, 2, n as int);
        }
        let end_position = start_position + self.segment_lengths[n];
        let mut out = String::new();
        let mut i: usize = start_position;
        while i < end_position
            invariant
                start_position <= i <= end_position,
                end_position <= self.characters@.len(),
                out@ =~= self.characters@.subrange(start_position as int, i as int),
            decreases end_position - i,
        {
            push_char(&mut out, self.characters[i]);
            i += 1;
        }
        proof {
            assert(out@ =~= self.characters@.subrange(
                start_position as int,
                end_position as int,
            ));
        }
        out
    }

    /// Replaces the active segmentation with the given word lengths, appending
    /// the end-of-sentence sentinel. The lengths must be positive and sum to
    /// the character count; every word id is recomputed from the new
    /// boundaries.
    pub fn split_sentence_with_num_segments(
        &mut self,
        segment_lengths: Vec<usize>,
        num_segments_without_special_tokens: usize,
    )
        requires
            old(self).wf(),
            1 <= num_segments_without_special_tokens <= segment_lengths@.len(),
            forall|i: int|
                0 <= i < num_segments_without_special_tokens ==> 1 <= #[trigger] segment_lengths@[i],
            seg_sum(segment_lengths@, 0, num_segments_without_special_tokens as int)
                == old(self).characters@.len(),
        ensures
            final(self).wf(),
            final(self).ids_consistent(),
            final(self).num_segments == num_segments_without_special_tokens + 3,
            final(self).characters == old(self).characters,
            final(self).supervised == old(self).supervised,
            forall|n: int|
                0 <= n < num_segments_without_special_tokens ==> #[trigger] final(self).segment_lengths@[n + 2] == segment_lengths@[n],
            forall|n: int|
                0 <= n < num_segments_without_special_tokens ==> #[trigger] final(self).segment_begin_positions@[n + 2] == seg_sum(segment_lengths@, 0, n),
    {
        let k = num_segments_without_special_tokens;
        let _arrays_len = self.segment_lengths.len();
        let _given_len = segment_lengths.len();
        proof {
            lemma_seg_sum_lower_bound(segment_lengths@, 0, k as int);
        }
        let mut cur_start: usize = 0;
        let mut index: usize = 0;
        while index < k
            invariant
                old(self).wf(),
                1 <= k <= segment_lengths@.len(),
                forall|i: int| 0 <= i < k ==> 1 <= #[trigger] segment_lengths@[i],
                seg_sum(segment_lengths@, 0, k as int) == old(self).characters@.len(),
                k <= old(self).characters@.len(),
                old(self).characters@.len() + 3 <= usize::MAX,
                0 <= index <= k,
                cur_start == seg_sum(segment_lengths@, 0, index as int),
                self.characters == old(self).characters,
                self.supervised == old(self).supervised,
                self.num_segments == old(self).num_segments,
                self.segment_lengths@.len() == old(self).segment_lengths@.len(),
                self.segment_begin_positions@.len() == old(self).segment_begin_positions@.len(),
                self.word_ids@.len() == old(self).word_ids@.len(),
                self.word_ids@[0] == BOS,
                self.word_ids@[1] == BOS,
                self.segment_lengths@[0] == 1,
                self.segment_lengths@[1] == 1,
                forall|n: int|
                    0 <= n < index ==> #[trigger] self.segment_lengths@[n + 2]
                        == segment_lengths@[n],
                forall|n: int|
                    0 <= n < index ==> #[trigger] self.segment_begin_positions@[n + 2]
                        == seg_sum(segment_lengths@, 0, n),
                forall|n: int|
                    0 <= n < index ==> #[trigger] self.word_ids@[n + 2] == hash_of(
                        self.characters@.subrange(
                            self.segment_begin_positions@[n + 2] as int,
                            self.segment_begin_positions@[n + 2] + self.segment_lengths@[n + 2],
                        ),
                    ),
            decreases k - index,
        {
            let cur_length = segment_lengths[index];
            proof {
                lemma_seg_sum_last(segment_lengths@, 0, index as int);
                lemma_seg_sum_split(segment_lengths@, 0, index as int + 1, k as int);
                lemma_seg_sum_nonneg(segment_lengths@, index as int + 1, k as int);
            }
            let wid = self.get_substr_word_id(cur_start, cur_start + cur_length - 1);
            self.segment_lengths.set(index + 2, cur_length);
            self.word_ids.set(index + 2, wid);
            self.segment_begin_positions.set(index + 2, cur_start);
            cur_start += cur_length;
            index += 1;
        }

        let ghost after_words = *self;
        self.segment_lengths.set(k + 2, 1);
        self.word_ids.set(k + 2, EOS);
        let eos_begin = self.segment_begin_positions[k + 1];
        self.segment_begin_positions.set(k + 2, eos_begin);

        let ghost mid = *self;
        let mut j: usize = k + 1;
        while j < self.characters.len()
            invariant
                k + 1 <= j <= self.characters@.len() + 1,
                k <= self.characters@.len(),
                self.characters@.len() + 3 <= usize::MAX,
                self.segment_begin_positions@.len() == self.characters@.len() + 3,
                self.characters == mid.characters,
                self.supervised == mid.supervised,
                self.num_segments == mid.num_segments,
                self.word_ids == mid.word_ids,
                self.segment_lengths@.len() == mid.segment_lengths@.len(),
                self.segment_begin_positions@.len() == mid.segment_begin_positions@.len(),
                self.segment_lengths@.len() == self.characters@.len() + 3,
                forall|n: int|
                    0 <= n <= k + 2 ==> #[trigger] self.segment_lengths@[n]
                        == mid.segment_lengths@[n],
                forall|n: int|
                    0 <= n <= k + 2 ==> #[trigger] self.segment_begin_positions@[n]
                        == mid.segment_begin_positions@[n],
            decreases self.characters@.len() - j,
        {
            self.segment_lengths.set(j + 2, 0);
            self.segment_begin_positions.set(j + 2, 0);
            j += 1;
        }
        self.num_segments = k + 3;

        proof {
            assert forall|n: int| 2 <= n < k + 2 implies {
                &&& 1 <= #[trigger] self.segment_lengths@[n]
                &&& self.segment_lengths@[n] == segment_lengths@[n - 2]
                &&& self.segment_begin_positions@[n] == seg_sum(segment_lengths@, 0, n - 2)
                &&& self.word_ids@[n] == hash_of(
                    self.characters@.subrange(
                        self.segment_begin_positions@[n] as int,
                        self.segment_begin_positions@[n] + self.segment_lengths@[n],
                    ),
                )
            } by {
                let m = n - 2;
                assert(after_words.segment_lengths@[m + 2] == segment_lengths@[m]);
                assert(after_words.segment_begin_positions@[m + 2] == seg_sum(
                    segment_lengths@,
                    0,
                    m,
                ));
                assert(after_words.word_ids@[m + 2] == hash_of(
                    after_words.characters@.subrange(
                        after_words.segment_begin_positions@[m + 2] as int,
                        after_words.segment_begin_positions@[m + 2]
                            + after_words.segment_lengths@[m + 2],
                    ),
                ));
            }
            lemma_seg_sum_shift(self.segment_lengths@, segment_lengths@, 0, k as int, 2);
            assert(seg_sum(self.segment_lengths@, 2, k + 2) == old(self).characters@.len());
            assert forall|n: int| 2 <= n < self.num_segments - 1 implies #[trigger] self
                .segment_begin_positions@[n] == seg_sum(self.segment_lengths@, 2, n) by {
                lemma_seg_sum_shift(self.segment_lengths@, segment_lengths@, 0, n - 2, 2);
            }
            assert(self.wf());
        }
    }

    /// Replaces the active segmentation with exactly the given word lengths.
    pub fn split_sentence(&mut self, segment_lengths: Vec<usize>)
        requires
            old(self).wf(),
            1 <= segment_lengths@.len(),
            forall|i: int|
                0 <= i < segment_lengths@.len() ==> 1 <= #[trigger] segment_lengths@[i],
            seg_sum(segment_lengths@, 0, segment_lengths@.len() as int)
                == old(self).characters@.len(),
        ensures
            final(self).wf(),
            final(self).ids_consistent(),
            final(self).num_segments == segment_lengths@.len() + 3,
            final(self).characters == old(self).characters,
            final(self).supervised == old(self).supervised,
            forall|n: int|
                0 <= n < segment_lengths@.len() ==> #[trigger] final(self).segment_lengths@[n + 2]
                    == segment_lengths@[n],
            forall|n: int|
                0 <= n < segment_lengths@.len() ==> #[trigger] final(self).segment_begin_positions@[n + 2] == seg_sum(segment_lengths@, 0, n),
    {
        let num_segments_without_special_tokens = segment_lengths.len();
        self.split_sentence_with_num_segments(segment_lengths, num_segments_without_special_tokens);
    }
}

} // verus!
