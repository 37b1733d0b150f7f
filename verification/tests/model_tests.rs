use nhpylm::pyp::PypTree;
use nhpylm::chpylm::CHPYLM;
use nhpylm::whpylm::WHPYLM;
use nhpylm::npylm::{NPYLM, produce_word_with_bow_and_eow};
use nhpylm::sampler::{Sampler, viterbi_backtrace};
use nhpylm::sentence::Sentence;
use nhpylm::hpylm::HPYLM;
use nhpylm::defs::{BOW, EOW, EOS, EOS_CHAR};

fn seating_invariant_holds(tree: &PypTree, node: usize, dish: u64) -> bool {
    // the cached totals must agree with the tables actually occupied
    let tables = tree.tables_of_dish(node, dish);
    let sum: usize = tables.iter().sum();
    sum == tree.get_num_customers_for_dish(node, dish)
        && tables.len() == tree.get_num_tables_serving_dish(node, dish)
}

#[test]
fn seating_invariant_after_interleaved_adds_and_removes() {
    let mut tree = PypTree::new(0);
    assert!(tree.seat_at_new_table(0, 7));
    assert!(tree.seat_at_existing_table(0, 7, 0));
    assert!(tree.seat_at_new_table(0, 7));
    assert!(tree.seat_at_new_table(0, 9));
    assert!(seating_invariant_holds(&tree, 0, 7));
    assert!(seating_invariant_holds(&tree, 0, 9));
    assert_eq!(tree.get_ncustomers(0), 4);
    assert_eq!(tree.get_ntables(0), 3);
    assert_eq!(tree.get_num_customers_for_dish(0, 7), 3);
    assert_eq!(tree.get_num_tables_serving_dish(0, 7), 2);
    assert!(tree.remove_customer(0, 7).is_some());
    assert!(seating_invariant_holds(&tree, 0, 7));
    assert_eq!(tree.get_ncustomers(0), 3);
    assert_eq!(tree.get_num_customers_for_dish(0, 7), 2);
}

#[test]
fn insert_remove_inverse_on_one_node() {
    let mut tree = PypTree::new(0);
    // a dish the node has never served
    assert!(!tree.serves_dish(0, 42));
    let before_customers = tree.get_ncustomers(0);
    let before_tables = tree.get_ntables(0);
    // seat five customers, some joining, some opening tables
    assert!(tree.seat_at_new_table(0, 42));
    assert!(tree.seat_at_existing_table(0, 42, 0));
    assert!(tree.seat_at_new_table(0, 42));
    assert!(tree.seat_at_existing_table(0, 42, 1));
    assert!(tree.seat_at_existing_table(0, 42, 0));
    assert_eq!(tree.get_num_customers_for_dish(0, 42), 5);
    // remove five customers, whichever tables the draw picks
    for _ in 0..5 {
        assert!(tree.remove_customer(0, 42).is_some());
    }
    // the node is back in its initial state
    assert!(!tree.serves_dish(0, 42));
    assert_eq!(tree.get_ncustomers(0), before_customers);
    assert_eq!(tree.get_ntables(0), before_tables);
}

#[test]
fn insert_remove_inverse_detaches_emptied_child() {
    let mut tree = PypTree::new(0);
    let child = tree.get_or_create_child(0, 5).unwrap();
    assert_eq!(tree.get_depth(child), 1);
    assert_eq!(tree.get_parent(child), Some(0));
    // seating at the child opens a table there, which seats a customer at
    // the root too
    let choices = vec![0usize; 4];
    let opened_root = tree.add_customer_with_choices(child, 9, &choices);
    assert!(opened_root);
    assert_eq!(tree.get_num_customers_for_dish(child, 9), 1);
    assert_eq!(tree.get_num_customers_for_dish(0, 9), 1);
    // removing cascades back up and empties both restaurants
    let (root_closed, root_index) = tree.remove_customer(child, 9).unwrap();
    assert!(root_closed);
    assert_eq!(root_index, 0);
    assert!(!tree.serves_dish(child, 9));
    assert!(!tree.serves_dish(0, 9));
    // the emptied child can now be detached
    assert!(tree.need_to_remove_from_parent(child));
    assert!(tree.remove_from_parent(child));
    assert!(tree.find_child(0, 5).is_none());
}

#[test]
fn freed_slots_are_reused() {
    let mut tree = PypTree::new(0);
    let child = tree.get_or_create_child(0, 5).unwrap();
    let grown = tree.num_nodes();
    assert!(tree.remove_from_parent(child));
    let again = tree.get_or_create_child(0, 6).unwrap();
    assert_eq!(again, child);
    assert_eq!(tree.num_nodes(), grown);
}

#[test]
fn stop_and_pass_counts_walk_the_chain() {
    let mut tree = PypTree::new(0);
    let child = tree.get_or_create_child(0, 5).unwrap();
    let grandchild = tree.get_or_create_child(child, 6).unwrap();
    tree.increment_stop_count(grandchild);
    assert_eq!(tree.get_stop_count(grandchild), 1);
    assert_eq!(tree.get_pass_count(child), 1);
    assert_eq!(tree.get_pass_count(0), 1);
    tree.decrement_stop_count(grandchild);
    assert_eq!(tree.get_stop_count(grandchild), 0);
    assert_eq!(tree.get_pass_count(child), 0);
    assert_eq!(tree.get_pass_count(0), 0);
}

#[test]
fn chpylm_add_then_remove_restores_the_tree() {
    let mut model = CHPYLM::new(8);
    let word = vec![BOW, 'a', 'b', EOW];
    let choices = vec![0usize; 8];
    let depths = vec![0usize, 1, 1, 2];
    for n in 0..word.len() {
        assert!(model.add_customer_at_index_n(&word, n, depths[n], &choices));
    }
    assert!(model.tree.get_num_customers() > 0);
    for n in 0..word.len() {
        assert!(model.remove_customer_at_index_n(&word, n, depths[n]));
    }
    assert_eq!(model.tree.get_num_customers(), 0);
    assert_eq!(model.tree.get_num_tables(), 0);
    assert_eq!(model.tree.get_stop_counts(), 0);
    assert_eq!(model.tree.get_pass_counts(), 0);
    // the walked nodes were pruned; only an emptied inner context node and
    // the root remain
    assert_eq!(model.tree.get_num_nodes(), 1);
}

#[test]
fn hpylm_diagnostics_count_the_root() {
    let chpylm = CHPYLM::new(4);
    assert_eq!(HPYLM::get_num_nodes(&chpylm), 1);
    assert_eq!(HPYLM::get_num_customers(&chpylm), 1);
    let whpylm = WHPYLM::new(3);
    assert_eq!(HPYLM::get_num_nodes(&whpylm), 1);
    assert_eq!(HPYLM::get_num_tables(&whpylm), 1);
}

#[test]
fn produced_word_carries_its_brackets() {
    let chars = vec!['x', 'a', 'b', 'y'];
    let word = produce_word_with_bow_and_eow(&chars, 1, 2);
    assert_eq!(word, vec![BOW, 'a', 'b', EOW]);
}

#[test]
fn recorded_depths_round_trip() {
    let mut model = NPYLM::new(4, 16);
    model.add_recorded_depths(42, vec![0, 1, 2]);
    model.add_recorded_depths(42, vec![0, 0, 0]);
    model.add_recorded_depths(7, vec![1]);
    assert_eq!(model.take_recorded_depths(42, 0), Some(vec![0, 1, 2]));
    assert_eq!(model.take_recorded_depths(42, 0), Some(vec![0, 0, 0]));
    assert_eq!(model.take_recorded_depths(42, 0), None);
    assert_eq!(model.take_recorded_depths(9, 0), None);
    assert_eq!(model.take_recorded_depths(7, 0), Some(vec![1]));
}

#[test]
fn word_customer_add_and_remove_round_trip() {
    let mut model = NPYLM::new(8, 16);
    let mut s = Sentence::new(vec!['a', 'b'], false);
    s.split_sentence(vec![2]);
    let token = s.get_nth_word_id(2);
    assert_ne!(token, EOS);
    let choices = vec![0usize; 4];
    // the first customer of this word opens a table at the word model's root
    let opened = model.add_word_customer(&s, 2, &choices).unwrap();
    assert!(opened);
    // so the word's characters enter the character model, at depth zero each
    let word = produce_word_with_bow_and_eow(&s.characters, 0, 1);
    let mut depths: Vec<usize> = Vec::new();
    for n in 0..word.len() {
        assert!(model.chpylm.add_customer_at_index_n(&word, n, 0, &choices));
        depths.push(0);
    }
    model.add_recorded_depths(token, depths);
    assert!(model.chpylm.tree.get_num_customers() > 0);
    // removing the word undoes all of it
    assert!(model.remove_customer_at_index_n(&s, 2));
    assert_eq!(model.whpylm.tree.get_num_customers(), 0);
    assert_eq!(model.chpylm.tree.get_num_customers(), 0);
    assert_eq!(model.take_recorded_depths(token, 0), None);
}

#[test]
fn end_of_sentence_token_bypasses_the_character_model() {
    let mut model = NPYLM::new(8, 16);
    let mut s = Sentence::new(vec!['a', 'b'], false);
    s.split_sentence(vec![2]);
    assert_eq!(s.get_nth_word_id(3), EOS);
    let choices = vec![0usize; 4];
    let opened = model.add_word_customer(&s, 3, &choices).unwrap();
    assert!(opened);
    // mirror the insertion of the sentinel at the character model's root
    assert!(model.chpylm.tree.seat_at_new_table(0, EOS_CHAR as u64));
    model.chpylm.tree.increment_stop_count(0);
    assert!(model.remove_customer_at_index_n(&s, 3));
    assert_eq!(model.whpylm.tree.get_num_customers(), 0);
    assert_eq!(model.chpylm.tree.get_num_customers(), 0);
}

#[test]
fn substring_ids_are_memoised_per_sentence() {
    let mut sampler = Sampler::new(8, 16);
    let s = Sentence::new(vec!['a', 'b', 'a', 'b'], false);
    let first = sampler.get_substring_word_id_at_t_k(&s, 2, 2);
    let again = sampler.get_substring_word_id_at_t_k(&s, 2, 2);
    assert_eq!(first, again);
    assert_eq!(first, s.get_substr_word_id(0, 1));
    // the same characters at another position give the same id
    assert_eq!(sampler.get_substring_word_id_at_t_k(&s, 4, 2), first);
    // different characters give a different id
    assert_ne!(sampler.get_substring_word_id_at_t_k(&s, 3, 2), first);
    sampler.clear_substring_cache();
    assert_eq!(sampler.get_substring_word_id_at_t_k(&s, 2, 2), first);
}

fn full_backtrace_table(size: usize) -> Vec<Vec<Vec<usize>>> {
    let mut table = vec![vec![vec![0usize; size]; size]; size];
    for a in 0..size {
        for b in 0..size {
            for c in 0..size {
                if b + c <= a {
                    table[a][b][c] = a - b - c;
                }
            }
        }
    }
    table
}

#[test]
fn viterbi_backtrace_partitions_the_sentence() {
    let table = full_backtrace_table(6);
    // one word covering everything
    assert_eq!(viterbi_backtrace(&table, 4, 4, 0, 6), vec![4]);
    // two words, nothing before them
    assert_eq!(viterbi_backtrace(&table, 4, 2, 2, 6), vec![2, 2]);
    // the recorded indices fill in the earlier words
    let lengths = viterbi_backtrace(&table, 5, 1, 1, 6);
    let total: usize = lengths.iter().sum();
    assert_eq!(total, 5);
    assert!(lengths.iter().all(|&l| l >= 1));
    assert_eq!(*lengths.last().unwrap(), 1);
}

#[test]
fn sentence_capacity_extension_is_monotone() {
    let mut model = NPYLM::new(8, 16);
    model.extend_capacity(12);
    assert_eq!(model.max_sentence_length, 16);
    model.extend_capacity(99);
    assert_eq!(model.max_sentence_length, 99);
    let mut sampler = Sampler::new(8, 16);
    sampler.extend_capacity(4, 99);
    assert_eq!(sampler.max_word_length, 8);
    assert_eq!(sampler.max_sentence_length, 99);
}

fn seat_word_with_characters(model: &mut NPYLM, s: &Sentence, n: usize) {
    let choices = vec![0usize; 8];
    let token = s.get_nth_word_id(n);
    let opened = model.add_word_customer(s, n, &choices).unwrap();
    if opened {
        if token == EOS {
            // the sentinel has no characters: it enters the character
            // model's root directly
            if model.chpylm.tree.serves_dish(0, EOS_CHAR as u64) {
                assert!(model.chpylm.tree.seat_at_existing_table(0, EOS_CHAR as u64, 0));
            } else {
                assert!(model.chpylm.tree.seat_at_new_table(0, EOS_CHAR as u64));
            }
            model.chpylm.tree.increment_stop_count(0);
        } else {
            let begin = s.segment_begin_positions[n];
            let end = begin + s.segment_lengths[n] - 1;
            let word = produce_word_with_bow_and_eow(&s.characters, begin, end);
            let mut depths: Vec<usize> = Vec::new();
            for m in 0..word.len() {
                assert!(model.chpylm.add_customer_at_index_n(&word, m, 0, &choices));
                depths.push(0);
            }
            model.add_recorded_depths(token, depths);
        }
    }
}

#[test]
fn toy_corpus_round_trip() {
    let mut model = NPYLM::new(8, 16);
    let texts = ["abab", "baba", "abab"];
    let mut sentences: Vec<Sentence> = Vec::new();
    for t in texts.iter() {
        let mut s = Sentence::new(t.chars().collect(), false);
        s.split_sentence(vec![2, 2]);
        sentences.push(s);
    }
    for s in &sentences {
        for n in 2..s.num_segments {
            seat_word_with_characters(&mut model, s, n);
        }
    }
    assert!(model.whpylm.tree.get_num_customers() > 0);
    assert!(model.chpylm.tree.get_num_customers() > 0);
    // identical words share their ids, so both instances of "abab" reuse
    // the same restaurants
    assert_eq!(sentences[0].get_nth_word_id(2), sentences[2].get_nth_word_id(2));
    // removing every seated word is the exact inverse: both trees drain
    for s in &sentences {
        for n in 2..s.num_segments {
            assert!(model.remove_customer_at_index_n(s, n));
        }
    }
    assert_eq!(model.whpylm.tree.get_num_customers(), 0);
    assert_eq!(model.whpylm.tree.get_num_tables(), 0);
    assert_eq!(model.whpylm.tree.get_stop_counts(), 0);
    assert_eq!(model.whpylm.tree.get_pass_counts(), 0);
    assert_eq!(model.chpylm.tree.get_num_customers(), 0);
    assert_eq!(model.chpylm.tree.get_num_tables(), 0);
    assert_eq!(model.chpylm.tree.get_stop_counts(), 0);
    assert_eq!(model.chpylm.tree.get_pass_counts(), 0);
}

#[test]
fn delete_child_node_detaches_only_empty_children() {
    let mut tree = PypTree::new(0);
    let child = tree.get_or_create_child(0, 5).unwrap();
    let choices = vec![0usize; 4];
    assert!(tree.add_customer_with_choices(child, 9, &choices));
    // an occupied child stays attached
    assert!(!tree.delete_child_node(0, 5));
    assert!(tree.find_child(0, 5).is_some());
    // once drained it can be detached
    assert!(tree.remove_customer(child, 9).is_some());
    assert!(tree.delete_child_node(0, 5));
    assert!(tree.find_child(0, 5).is_none());
    // a dish without a child changes nothing
    assert!(!tree.delete_child_node(0, 77));
}
