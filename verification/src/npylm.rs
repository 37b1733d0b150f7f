use vstd::prelude::*;
use vstd::pervasive::VecAdditionalExecFns;
use crate::defs::{EOS, BOW, EOW, EOS_CHAR};
use crate::sentence::Sentence;
use crate::chpylm::{CHPYLM, prior_model, with_stop_counted, with_stop_uncounted,
    lemma_walk_links_only};
use crate::pyp::{spec_walk, add_step, remove_step, counters_have_headroom,
    lemma_headroom_from_global, NodeModel};
use crate::whpylm::WHPYLM;
use crate::pyp::{
    dish_customers, dish_tables, lemma_remove_step_counts, lemma_stop_ok_after_seating,
    pass_shifted, stop_shifted,
};

verus! {

/// The word-id context path of the `n`th segment: the previous word first,
/// then the one before it.
pub open spec fn trigram_path(word_ids: Seq<u64>, n: int) -> Seq<u64> {
    seq![word_ids[n - 1], word_ids[n - 2]]
}

/// The `n`th word can be removed from the word tree: its trigram context
/// node exists, the token is seated there and on the chain above, and the
/// stop statistics can be reversed.
pub open spec fn word_removal_applicable(t: crate::pyp::PypTree, word_ids: Seq<u64>, n: int) -> bool {
    &&& spec_walk(t, trigram_path(word_ids, n)) is Some
    &&& crate::pyp::dish_on_chain(
        t,
        spec_walk(t, trigram_path(word_ids, n))->Some_0,
        word_ids[n],
    )
    &&& crate::pyp::stop_dec_ok(t, spec_walk(t, trigram_path(word_ids, n))->Some_0)
}

pub open spec fn rec_has(recs: Seq<(u64, Vec<Vec<usize>>)>, token: u64) -> bool {
    exists|i: int| 0 <= i < recs.len() && (#[trigger] recs[i]).0 == token
}

pub open spec fn rec_idx(recs: Seq<(u64, Vec<Vec<usize>>)>, token: u64) -> int {
    choose|i: int| 0 <= i < recs.len() && (#[trigger] recs[i]).0 == token
}

pub open spec fn rec_distinct(recs: Seq<(u64, Vec<Vec<usize>>)>) -> bool {
    forall|i: int, j: int|
        0 <= i < j < recs.len() ==> (#[trigger] recs[i]).0 != (#[trigger] recs[j]).0
}

/// Under distinct tokens, any witness index for a token is the chosen one.
proof fn lemma_rec_idx_unique(recs: Seq<(u64, Vec<Vec<usize>>)>, token: u64, i: int)
    requires
        rec_distinct(recs),
        0 <= i < recs.len(),
        recs[i].0 == token,
    ensures
        rec_has(recs, token),
        rec_idx(recs, token) == i,
{
    assert(rec_has(recs, token));
    let w = rec_idx(recs, token);
    if w != i {
        if w < i {
            assert(recs[w].0 != recs[i].0);
        } else {
            assert(recs[i].0 != recs[w].0);
        }
    }
}

/// Copies the word spanning `word_begin_index` to `word_end_index`, both
/// inclusive, and brackets it with the begin-of-word and end-of-word symbols.
pub fn produce_word_with_bow_and_eow(
    sentence_as_chars: &Vec<char>,
    word_begin_index: usize,
    word_end_index: usize,
) -> (r: Vec<char>)
    requires
        word_begin_index <= word_end_index,
        word_end_index < sentence_as_chars@.len(),
        sentence_as_chars@.len() + 3 <= usize::MAX,
    ensures
        r@ =~= seq![BOW] + sentence_as_chars@.subrange(
            word_begin_index as int,
            word_end_index + 1,
        ) + seq![EOW],
        r@.len() == word_end_index - word_begin_index + 3,
{
    let num_chars = sentence_as_chars.len();
    let mut word: Vec<char> = Vec::new();
    word.push(BOW);
    let mut i: usize = word_begin_index;
    while i <= word_end_index
        invariant
            word_begin_index <= i <= word_end_index + 1,
            word_end_index < num_chars == sentence_as_chars@.len(),
            word@ =~= seq![BOW] + sentence_as_chars@.subrange(word_begin_index as int, i as int),
        decreases word_end_index + 1 - i,
    {
        word.push(sentence_as_chars[i]);
        i += 1;
    }
    word.push(EOW);
    word
}

/// The nested model's count-bearing state: the word-level trigram tree, the
/// character-level tree it backs off to, and, for every table of the word
/// model's root, the per-character context depths that were sampled when the
/// table's representative word entered the character model — kept so that a
/// removal can run the exact inverse insertions.
pub struct NPYLM {
    pub whpylm: WHPYLM,
    pub chpylm: CHPYLM,
    pub recorded_depth_arrays_for_tablegroups_of_token: Vec<(u64, Vec<Vec<usize>>)>,
    pub max_word_length: usize,
    pub max_sentence_length: usize,
}

impl NPYLM {
    pub open spec fn wf(self) -> bool {
        &&& self.whpylm.wf()
        &&& self.chpylm.wf()
        &&& rec_distinct(self.recorded_depth_arrays_for_tablegroups_of_token@)
    }

    pub fn new(max_word_length: usize, max_sentence_length: usize) -> (r: NPYLM)
        ensures
            r.wf(),
            r.max_word_length == max_word_length,
            r.max_sentence_length == max_sentence_length,
            r.whpylm.order == 3,
            r.recorded_depth_arrays_for_tablegroups_of_token@.len() == 0,
    {
        NPYLM {
            whpylm: WHPYLM::new(3),
            chpylm: CHPYLM::new(max_sentence_length),
            recorded_depth_arrays_for_tablegroups_of_token: Vec::new(),
            max_word_length,
            max_sentence_length,
        }
    }

    /// Raises the sentence-length bound; the bound never shrinks.
    pub fn extend_capacity(&mut self, max_sentence_length: usize)
        requires
            old(self).wf(),
        ensures
            final(self).wf(),
            final(self).max_sentence_length == if max_sentence_length
                > old(self).max_sentence_length {
                max_sentence_length
            } else {
                old(self).max_sentence_length
            },
            final(self).whpylm == old(self).whpylm,
            final(self).chpylm == old(self).chpylm,
            final(self).recorded_depth_arrays_for_tablegroups_of_token == old(self).recorded_depth_arrays_for_tablegroups_of_token,
            final(self).max_word_length == old(self).max_word_length,
    {
        if max_sentence_length > self.max_sentence_length {
            self.max_sentence_length = max_sentence_length;
        }
    }

    fn find_record(&self, token: u64) -> (r: Option<usize>)
        requires
            self.wf(),
        ensures
            match r {
                Option::Some(i) => rec_has(
                    self.recorded_depth_arrays_for_tablegroups_of_token@,
                    token,
                ) && i as int == rec_idx(
                    self.recorded_depth_arrays_for_tablegroups_of_token@,
                    token,
                ) && i < self.recorded_depth_arrays_for_tablegroups_of_token@.len(),
                Option::None => !rec_has(
                    self.recorded_depth_arrays_for_tablegroups_of_token@,
                    token,
                ),
            },
    {
        let recs = &self.recorded_depth_arrays_for_tablegroups_of_token;
        let n = recs.len();
        let mut j: usize = 0;
        while j < n
            invariant
                0 <= j <= n == recs@.len(),
                recs == self.recorded_depth_arrays_for_tablegroups_of_token,
                rec_distinct(recs@),
                forall|m: int| 0 <= m < j ==> (#[trigger] recs@[m]).0 != token,
            decreases n - j,
        {
            if recs[j].0 == token {
                proof {
                    lemma_rec_idx_unique(recs@, token, j as int);
                }
                return Option::Some(j);
            }
            j += 1;
        }
        Option::None
    }

    /// Files one word's per-character depth array behind its token, appended
    /// after the arrays of the token's earlier tables.
    pub fn add_recorded_depths(&mut self, token: u64, depths: Vec<usize>)
        requires
            old(self).wf(),
        ensures
            final(self).wf(),
            final(self).whpylm == old(self).whpylm,
            final(self).chpylm == old(self).chpylm,
            final(self).max_word_length == old(self).max_word_length,
            final(self).max_sentence_length == old(self).max_sentence_length,
            rec_has(final(self).recorded_depth_arrays_for_tablegroups_of_token@, token),
            ({
                let recs0 = old(self).recorded_depth_arrays_for_tablegroups_of_token@;
                let recs1 = final(self).recorded_depth_arrays_for_tablegroups_of_token@;
                if rec_has(recs0, token) {
                    let i = rec_idx(recs0, token);
                    &&& recs1.len() == recs0.len()
                    &&& recs1[i].0 == token
                    &&& recs1[i].1@ == recs0[i].1@.push(depths)
                    &&& forall|m: int| 0 <= m < recs0.len() && m != i ==> recs1[m] == recs0[m]
                } else {
                    &&& recs1.len() == recs0.len() + 1
                    &&& recs1[recs0.len() as int].0 == token
                    &&& recs1[recs0.len() as int].1@ =~= seq![depths]
                    &&& forall|m: int| 0 <= m < recs0.len() ==> recs1[m] == recs0[m]
                }
            }),
    {
        let ghost recs0 = self.recorded_depth_arrays_for_tablegroups_of_token@;
        match self.find_record(token) {
            Option::Some(i) => {
                let mut entry: (u64, Vec<Vec<usize>>) = (0, Vec::new());
                self.recorded_depth_arrays_for_tablegroups_of_token.set_and_swap(i, &mut entry);
                entry.1.push(depths);
                self.recorded_depth_arrays_for_tablegroups_of_token.set_and_swap(i, &mut entry);
                proof {
                    let recs1 = self.recorded_depth_arrays_for_tablegroups_of_token@;
                    assert(recs1[i as int].0 == token);
                    assert forall|a: int, b: int| 0 <= a < b < recs1.len() implies (
                    #[trigger] recs1[a]).0 != (#[trigger] recs1[b]).0 by {
                        assert(recs1[a].0 == recs0[a].0);
                        assert(recs1[b].0 == recs0[b].0);
                    }
                    lemma_rec_idx_unique(recs1, token, i as int);
                }
            },
            Option::None => {
                let mut list: Vec<Vec<usize>> = Vec::new();
                list.push(depths);
                self.recorded_depth_arrays_for_tablegroups_of_token.push((token, list));
                proof {
                    let recs1 = self.recorded_depth_arrays_for_tablegroups_of_token@;
                    assert forall|a: int, b: int| 0 <= a < b < recs1.len() implies (
                    #[trigger] recs1[a]).0 != (#[trigger] recs1[b]).0 by {
                        if b == recs0.len() as int {
                            assert(recs1[a] == recs0[a]);
                            if recs0[a].0 == token {
                                assert(rec_has(recs0, token));
                                assert(false);
                            }
                        } else {
                            assert(recs1[a] == recs0[a]);
                            assert(recs1[b] == recs0[b]);
                        }
                    }
                    assert(recs1[recs0.len() as int].0 == token);
                    assert(rec_has(recs1, token));
                }
            },
        }
    }

    /// Hands back and drops the depth array that was filed for the given
    /// table of the token, keeping the arrays of the other tables in order.
    pub fn take_recorded_depths(&mut self, token: u64, table_index: usize) -> (r: Option<
        Vec<usize>,
    >)
        requires
            old(self).wf(),
        ensures
            final(self).wf(),
            final(self).whpylm == old(self).whpylm,
            final(self).chpylm == old(self).chpylm,
            final(self).max_word_length == old(self).max_word_length,
            final(self).max_sentence_length == old(self).max_sentence_length,
            ({
                let recs0 = old(self).recorded_depth_arrays_for_tablegroups_of_token@;
                let recs1 = final(self).recorded_depth_arrays_for_tablegroups_of_token@;
                match r {
                    Option::Some(depths) => {
                        &&& rec_has(recs0, token)
                        &&& table_index < recs0[rec_idx(recs0, token)].1@.len()
                        &&& depths == recs0[rec_idx(recs0, token)].1@[table_index as int]
                        &&& recs1.len() == recs0.len()
                        &&& recs1[rec_idx(recs0, token)].0 == token
                        &&& recs1[rec_idx(recs0, token)].1@ == recs0[rec_idx(
                            recs0,
                            token,
                        )].1@.remove(table_index as int)
                        &&& forall|m: int|
                            0 <= m < recs0.len() && m != rec_idx(recs0, token) ==> recs1[m]
                                == recs0[m]
                    },
                    Option::None => {
                        &&& *final(self) == *old(self)
                        &&& (rec_has(recs0, token) ==> recs0[rec_idx(recs0, token)].1@.len()
                            <= table_index)
                    },
                }
            }),
    {
        let ghost recs0 = self.recorded_depth_arrays_for_tablegroups_of_token@;
        match self.find_record(token) {
            Option::None => Option::None,
            Option::Some(i) => {
                if table_index >= self.recorded_depth_arrays_for_tablegroups_of_token[i].1.len() {
                    return Option::None;
                }
                let mut entry: (u64, Vec<Vec<usize>>) = (0, Vec::new());
                self.recorded_depth_arrays_for_tablegroups_of_token.set_and_swap(i, &mut entry);
                let depths = entry.1.remove(table_index);
                self.recorded_depth_arrays_for_tablegroups_of_token.set_and_swap(i, &mut entry);
                proof {
                    let recs1 = self.recorded_depth_arrays_for_tablegroups_of_token@;
                    assert forall|a: int, b: int| 0 <= a < b < recs1.len() implies (
                    #[trigger] recs1[a]).0 != (#[trigger] recs1[b]).0 by {
                        assert(recs1[a].0 == recs0[a].0);
                        assert(recs1[b].0 == recs0[b].0);
                    }
                }
                Option::Some(depths)
            },
        }
    }

    /// Walks the trigram context of the `n`th segment, read-only.
    pub fn find_trigram_node(&self, word_ids: &Vec<u64>, n: usize) -> (r: Option<usize>)
        requires
            self.wf(),
            2 <= n < word_ids@.len(),
        ensures
            match r {
                Option::Some(c) => spec_walk(self.whpylm.tree, trigram_path(word_ids@, n as int))
                    == Option::Some(c as int) && self.whpylm.tree.live(c as int)
                    && self.whpylm.tree.nodes@[c as int].depth == 2,
                Option::None => spec_walk(self.whpylm.tree, trigram_path(word_ids@, n as int))
                    is None,
            },
    {
        let ghost path = trigram_path(word_ids@, n as int);
        let c1 = word_ids[n - 1];
        let c2 = word_ids[n - 2];
        proof {
            assert(spec_walk(self.whpylm.tree, Seq::<u64>::empty()) == Option::<int>::Some(0));
            assert(path.take(1).drop_last() =~= Seq::<u64>::empty());
            assert(path.take(1).last() == c1);
            assert(path.drop_last() =~= path.take(1));
            assert(path.last() == c2);
        }
        match self.whpylm.tree.find_child(0, c1) {
            Option::None => {
                proof {
                    assert(spec_walk(self.whpylm.tree, path.take(1)) is None);
                }
                Option::None
            },
            Option::Some(mid) => {
                proof {
                    assert(spec_walk(self.whpylm.tree, path.take(1)) == Option::Some(mid as int));
                    assert(self.whpylm.tree.node_links_ok(0));
                    assert(self.whpylm.tree.nodes@[mid as int].depth == 1);
                }
                match self.whpylm.tree.find_child(mid, c2) {
                    Option::None => Option::None,
                    Option::Some(node) => {
                        proof {
                            assert(self.whpylm.tree.node_links_ok(mid as int));
                        }
                        Option::Some(node)
                    },
                }
            },
        }
    }

    /// Walks the trigram context of the `n`th segment, creating the missing
    /// context nodes. Fails only when the arena cannot grow any more.
    pub fn find_or_create_trigram_node(&mut self, word_ids: &Vec<u64>, n: usize) -> (r: Option<
        usize,
    >)
        requires
            old(self).wf(),
            2 <= n < word_ids@.len(),
        ensures
            final(self).wf(),
            final(self).chpylm == old(self).chpylm,
            final(self).recorded_depth_arrays_for_tablegroups_of_token == old(self).recorded_depth_arrays_for_tablegroups_of_token,
            final(self).max_word_length == old(self).max_word_length,
            final(self).max_sentence_length == old(self).max_sentence_length,
            old(self).whpylm.tree.nodes@.len() <= final(self).whpylm.tree.nodes@.len(),
            forall|j: int|
                #[trigger] old(self).whpylm.tree.live(j) ==> final(self).whpylm.tree.live(j)
                    && final(self).whpylm.tree.nodes@[j].model() == old(self).whpylm.tree.nodes@[j]
                    .model(),
            forall|j: int|
                0 <= j < final(self).whpylm.tree.nodes@.len() && #[trigger] final(self).whpylm.tree.live(j) && !old(self).whpylm.tree.live(j) ==> final(self).whpylm.tree.nodes@[j].model() == prior_model(old(self).whpylm.tree, j),
            final(self).whpylm.tree.nodes@[0].model() == old(self).whpylm.tree.nodes@[0].model(),
            old(self).whpylm.tree.nodes@.len() + 2 <= usize::MAX ==> r is Some,
            match r {
                Option::Some(c) => spec_walk(
                    final(self).whpylm.tree,
                    trigram_path(word_ids@, n as int),
                ) == Option::Some(c as int) && final(self).whpylm.tree.live(c as int) && final(self).whpylm.tree.nodes@[c as int].depth == 2,
                Option::None => true,
            },
    {
        let mut path: Vec<u64> = Vec::new();
        path.push(word_ids[n - 1]);
        path.push(word_ids[n - 2]);
        proof {
            assert(path@ =~= trigram_path(word_ids@, n as int));
        }
        self.whpylm.tree.find_or_create_walk(&path)
    }
}


impl NPYLM {
    /// Seats the `n`th word of the sentence in the trigram tree under its
    /// two-word context, with the given per-depth table choices, and counts
    /// a stop observation there. Returns whether a new table opened at the
    /// word model's root — the signal that the word must also enter the
    /// character model — or nothing when a counter or the arena is exhausted.
    pub fn add_word_customer(&mut self, sentence: &Sentence, n: usize, choices: &Vec<usize>) -> (r:
        Option<bool>)
        requires
            old(self).wf(),
            sentence.wf(),
            2 <= n < sentence.num_segments,
            2 < choices@.len(),
        ensures
            final(self).wf(),
            final(self).chpylm == old(self).chpylm,
            final(self).recorded_depth_arrays_for_tablegroups_of_token == old(self).recorded_depth_arrays_for_tablegroups_of_token,
            final(self).max_word_length == old(self).max_word_length,
            final(self).max_sentence_length == old(self).max_sentence_length,
            (counters_have_headroom(old(self).whpylm.tree) && old(self).whpylm.tree.nodes@.len()
                + 2 <= usize::MAX) ==> r is Some,
            r is None ==> forall|j: int|
                #[trigger] old(self).whpylm.tree.live(j) ==> final(self).whpylm.tree.live(j)
                    && final(self).whpylm.tree.nodes@[j].model() == old(self).whpylm.tree.nodes@[j]
                    .model(),
            match r {
                Option::Some(opened) => {
                    let token = sentence.word_ids@[n as int];
                    &&& opened ==> dish_tables(
                        final(self).whpylm.tree.nodes@[0].model().tablegroups,
                        token,
                    ) == dish_tables(old(self).whpylm.tree.nodes@[0].model().tablegroups, token)
                        + 1
                    &&& !opened ==> dish_tables(
                        final(self).whpylm.tree.nodes@[0].model().tablegroups,
                        token,
                    ) == dish_tables(old(self).whpylm.tree.nodes@[0].model().tablegroups, token)
                    &&& ({
                        let path = trigram_path(sentence.word_ids@, n as int);
                        let c = spec_walk(final(self).whpylm.tree, path)->Some_0;
                        &&& spec_walk(final(self).whpylm.tree, path) is Some
                        &&& final(self).whpylm.tree.live(c)
                        &&& exists|m: NodeModel|
                            #[trigger] add_step(prior_model(old(self).whpylm.tree, c), m, token)
                                && final(self).whpylm.tree.nodes@[c].model() == with_stop_counted(
                                m,
                            )
                    })
                },
                Option::None => true,
            },
    {
        let token = sentence.get_nth_word_id(n);
        let node = match self.find_or_create_trigram_node(&sentence.word_ids, n) {
            Option::Some(c) => c,
            Option::None => {
                return Option::None;
            },
        };
        let ghost after_create = self.whpylm.tree;
        let ghost path = trigram_path(sentence.word_ids@, n as int);
        proof {
            if counters_have_headroom(old(self).whpylm.tree) {
                assert(counters_have_headroom(after_create)) by {
                    assert forall|j: int| #[trigger] after_create.live(j) implies after_create
                        .nodes@[j].ncustomers < usize::MAX && after_create.nodes@[j].ntables
                        < usize::MAX && after_create.nodes@[j].stop_count < usize::MAX
                        && after_create.nodes@[j].pass_count < usize::MAX by {
                        if old(self).whpylm.tree.live(j) {
                            assert(after_create.nodes@[j].model() == old(self).whpylm.tree
                                .nodes@[j].model());
                        } else {
                            assert(after_create.nodes@[j].model() == prior_model(
                                old(self).whpylm.tree,
                                j,
                            ));
                        }
                    }
                }
                lemma_headroom_from_global(after_create, node as int);
            }
        }
        if !self.whpylm.tree.has_chain_headroom(node) {
            return Option::None;
        }
        if !self.whpylm.tree.can_increment_stop(node) {
            return Option::None;
        }
        let opened = self.whpylm.tree.add_customer_with_choices(node, token, choices);
        let ghost after_seat = self.whpylm.tree;
        let ghost m_mid = self.whpylm.tree.model_at(node as int);
        proof {
            lemma_stop_ok_after_seating(after_create, self.whpylm.tree, node as int);
        }
        self.whpylm.tree.increment_stop_count(node);
        proof {
            assert(after_seat.nodes@[0].model().tablegroups == self.whpylm.tree.nodes@[0]
                .model().tablegroups) by {
                if self.whpylm.tree.nodes@[0] == after_seat.nodes@[0] {
                } else {
                    assert(pass_shifted(after_seat.nodes@[0], self.whpylm.tree.nodes@[0], 1)
                        || stop_shifted(after_seat.nodes@[0], self.whpylm.tree.nodes@[0], 1));
                }
            }
            assert forall|m2: int|
                0 <= m2 < after_seat.nodes@.len() implies (#[trigger] self.whpylm.tree
                .nodes@[m2]).children == after_seat.nodes@[m2].children && self.whpylm.tree
                .nodes@[m2].live == after_seat.nodes@[m2].live && self.whpylm.tree.nodes@[m2].depth
                == after_seat.nodes@[m2].depth by {
                assert(self.whpylm.tree.nodes@[m2] == after_seat.nodes@[m2] || pass_shifted(
                    after_seat.nodes@[m2],
                    self.whpylm.tree.nodes@[m2],
                    1,
                ) || stop_shifted(after_seat.nodes@[m2], self.whpylm.tree.nodes@[m2], 1));
            }
            assert forall|m2: int|
                0 <= m2 < after_create.nodes@.len() implies (#[trigger] after_seat
                .nodes@[m2]).children == after_create.nodes@[m2].children && after_seat
                .nodes@[m2].live == after_create.nodes@[m2].live && after_seat.nodes@[m2].depth
                == after_create.nodes@[m2].depth by {
                assert(after_seat.nodes@[m2] == after_create.nodes@[m2] || after_create
                    .nodes@[m2].same_shape(after_seat.nodes@[m2]));
            }
            lemma_walk_links_only(after_create, self.whpylm.tree, path);
            assert(spec_walk(self.whpylm.tree, path) == Option::Some(node as int));
            assert(stop_shifted(
                after_seat.nodes@[node as int],
                self.whpylm.tree.nodes@[node as int],
                1,
            ));
            assert(after_create.model_at(node as int) == prior_model(
                old(self).whpylm.tree,
                node as int,
            ));
            assert(add_step(prior_model(old(self).whpylm.tree, node as int), m_mid, token));
            assert(self.whpylm.tree.nodes@[node as int].model() == with_stop_counted(m_mid));
        }
        Option::Some(opened)
    }

    /// Removes the `n`th word of the sentence: one customer of its token
    /// leaves the trigram node of its two-word context, the stop observation
    /// is uncounted, and — when that closes a table at the word model's root —
    /// the word's characters leave the character model at exactly the depths
    /// recorded when that table was opened (the end-of-sentence token, having
    /// no characters, leaves the character model's root directly). A node
    /// left empty is detached. Returns whether every step found the counts it
    /// had to undo; the word-level checks run before anything changes.
    pub fn remove_customer_at_index_n(&mut self, sentence: &Sentence, n: usize) -> (r: bool)
        requires
            old(self).wf(),
            sentence.wf(),
            2 <= n < sentence.num_segments,
        ensures
            final(self).wf(),
            final(self).max_word_length == old(self).max_word_length,
            final(self).max_sentence_length == old(self).max_sentence_length,
            !word_removal_applicable(old(self).whpylm.tree, sentence.word_ids@, n as int) ==> !r
                && *final(self) == *old(self),
            r ==> word_removal_applicable(old(self).whpylm.tree, sentence.word_ids@, n as int),
            word_removal_applicable(old(self).whpylm.tree, sentence.word_ids@, n as int) ==> ({
                let path = trigram_path(sentence.word_ids@, n as int);
                let token = sentence.word_ids@[n as int];
                let c = spec_walk(old(self).whpylm.tree, path)->Some_0;
                exists|m: NodeModel|
                    #[trigger] remove_step(old(self).whpylm.tree.nodes@[c].model(), m, token) && (
                    final(self).whpylm.tree.live(c) ==> final(self).whpylm.tree.nodes@[c].model()
                        == with_stop_uncounted(m)) && (!final(self).whpylm.tree.live(c)
                        ==> with_stop_uncounted(m).tablegroups.len() == 0)
            }),
    {
        let _arrays_len = sentence.word_ids.len();
        let token = sentence.get_nth_word_id(n);
        let node = match self.find_trigram_node(&sentence.word_ids, n) {
            Option::Some(c) => c,
            Option::None => {
                return false;
            },
        };
        if !self.whpylm.tree.serves_dish_on_chain(node, token) {
            return false;
        }
        if !self.whpylm.tree.can_decrement_stop(node) {
            return false;
        }
        let ghost pre_w = self.whpylm.tree;
        let rr = self.whpylm.tree.remove_customer(node, token);
        let (root_closed, root_k) = match rr {
            Option::Some(p) => p,
            Option::None => {
                proof {
                    assert(false);
                }
                (false, 0)
            },
        };
        proof {
            lemma_stop_ok_after_seating(pre_w, self.whpylm.tree, node as int);
            lemma_remove_step_counts_at(pre_w, self.whpylm.tree, node as int, token);
        }
        let ghost after_remove = self.whpylm.tree;
        self.whpylm.tree.decrement_stop_count(node);
        proof {
            assert(stop_shifted(after_remove.nodes@[node as int], self.whpylm.tree.nodes@[node
                as int], -1));
        }
        let ghost after_stop = self.whpylm.tree;
        let mut ok = true;
        if root_closed {
            if token == EOS {
                let dish = EOS_CHAR as u64;
                if self.chpylm.tree.serves_dish_on_chain(0, dish) && self.chpylm.tree
                    .can_decrement_stop(0) {
                    let ghost pre_c = self.chpylm.tree;
                    let _ = self.chpylm.tree.remove_customer(0, dish);
                    proof {
                        lemma_stop_ok_after_seating(pre_c, self.chpylm.tree, 0);
                    }
                    self.chpylm.tree.decrement_stop_count(0);
                } else {
                    ok = false;
                }
            } else {
                match self.take_recorded_depths(token, root_k) {
                    Option::None => {
                        ok = false;
                    },
                    Option::Some(depths) => {
                        proof {
                            assert(n != sentence.num_segments - 1);
                            crate::seqsum::lemma_seg_sum_last(
                                sentence.segment_lengths@,
                                2,
                                n as int,
                            );
                            crate::seqsum::lemma_seg_sum_split(
                                sentence.segment_lengths@,
                                2,
                                n as int + 1,
                                sentence.num_segments - 1,
                            );
                            crate::seqsum::lemma_seg_sum_nonneg(
                                sentence.segment_lengths@,
                                n as int + 1,
                                sentence.num_segments - 1,
                            );
                            crate::seqsum::lemma_seg_sum_nonneg(
                                sentence.segment_lengths@,
                                2,
                                n as int,
                            );
                        }
                        let begin = sentence.segment_begin_positions[n];
                        let seg_len = sentence.segment_lengths[n];
                        let end = begin + seg_len - 1;
                        let word = produce_word_with_bow_and_eow(&sentence.characters, begin, end);
                        let word_len = word.len();
                        if depths.len() != word_len {
                            ok = false;
                        } else {
                            let mut m: usize = 0;
                            while m < word_len
                                invariant
                                    0 <= m <= word_len == word@.len(),
                                    depths@.len() == word_len,
                                    self.chpylm.wf(),
                                    self.whpylm.tree == after_stop,
                                    self.whpylm.wf(),
                                    self.max_word_length == old(self).max_word_length,
                                    self.max_sentence_length == old(self).max_sentence_length,
                                    rec_distinct(
                                        self.recorded_depth_arrays_for_tablegroups_of_token@,
                                    ),
                                decreases word_len - m,
                            {
                                if !self.chpylm.remove_customer_at_index_n(&word, m, depths[m]) {
                                    ok = false;
                                }
                                m += 1;
                            }
                        }
                    },
                }
            }
        }
        let ghost m_wit = after_remove.model_at(node as int);
        proof {
            assert(self.whpylm.tree == after_stop);
            assert(self.whpylm.tree.live(node as int));
        }
        if self.whpylm.tree.need_to_remove_from_parent(node) {
            proof {
                assert(after_stop.nodes@[node as int].tablegroups@.len() == 0);
                assert(with_stop_uncounted(m_wit).tablegroups.len() == 0);
            }
            self.whpylm.tree.remove_from_parent(node);
        }
        proof {
            let c = node as int;
            assert(remove_step(pre_w.nodes@[c].model(), m_wit, token));
            assert(after_stop.nodes@[c].model() == with_stop_uncounted(m_wit));
            if self.whpylm.tree.live(c) {
                assert(self.whpylm.tree.nodes@[c] == after_stop.nodes@[c]);
            }
        }
        ok
    }
}

/// Restates the per-dish effect of the removal chain at its entry node.
proof fn lemma_remove_step_counts_at(pre: crate::pyp::PypTree, post: crate::pyp::PypTree, i: int, dish: u64)
    requires
        pre.wf(),
        0 <= i < pre.nodes@.len(),
        pre.nodes@[i].live,
        post.nodes@.len() == pre.nodes@.len(),
        crate::pyp::remove_step(pre.nodes@[i].model(), post.nodes@[i].model(), dish),
    ensures
        dish_customers(post.nodes@[i].model().tablegroups, dish) == dish_customers(
            pre.nodes@[i].model().tablegroups,
            dish,
        ) - 1,
{
    assert(exists|k: int|
        crate::pyp::remove_at_step(pre.nodes@[i].model(), post.nodes@[i].model(), dish, k));
    let k = choose|k: int|
        crate::pyp::remove_at_step(pre.nodes@[i].model(), post.nodes@[i].model(), dish, k);
    assert(crate::pyp::remove_at_step(pre.nodes@[i].model(), post.nodes@[i].model(), dish, k));
    assert(pre.live(i));
    assert(crate::pyp::model_ok(pre.nodes@[i].model()));
    lemma_remove_step_counts(pre.nodes@[i].model(), post.nodes@[i].model(), dish, k);
}

} // verus!
