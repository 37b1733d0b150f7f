use nhpylm::ctype::{detect_ctype, get_name, CTYPE_BASIC_LATIN, CTYPE_HIRAGANA, CTYPE_KATAKANA,
    CTYPE_CJK_UNIFIED_IDEOGRAPHS, CTYPE_UNKNOWN, CTYPE_GREEK_AND_COPTIC};
use nhpylm::wtype::{is_dash, is_hiragana, is_katakana, is_kanji, is_number, is_alphabet,
    is_symbol, detect_word_type, detect_word_type_substr, WORDTYPE_ALPHABET, WORDTYPE_NUMBER,
    WORDTYPE_SYMBOL, WORDTYPE_HIRAGANA, WORDTYPE_KATAKANA, WORDTYPE_KANJI,
    WORDTYPE_KANJI_HIRAGANA, WORDTYPE_KANJI_KATAKANA, WORDTYPE_OTHER};
use nhpylm::hash::calculate_hash;
use nhpylm::sentence::Sentence;
use nhpylm::defs::{BOS, EOS};

#[test]
fn ctype_of_common_characters() {
    assert_eq!(detect_ctype('a'), CTYPE_BASIC_LATIN);
    assert_eq!(detect_ctype('Z'), CTYPE_BASIC_LATIN);
    assert_eq!(detect_ctype('\u{3042}'), CTYPE_HIRAGANA);
    assert_eq!(detect_ctype('\u{30A2}'), CTYPE_KATAKANA);
    assert_eq!(detect_ctype('\u{5B57}'), CTYPE_CJK_UNIFIED_IDEOGRAPHS);
    assert_eq!(detect_ctype('\u{0391}'), CTYPE_GREEK_AND_COPTIC);
}

#[test]
fn ctype_names() {
    assert_eq!(get_name(CTYPE_BASIC_LATIN), "Basic Latin");
    assert_eq!(get_name(CTYPE_HIRAGANA), "Hiragana");
    assert_eq!(get_name(CTYPE_UNKNOWN), "Unknown");
    assert_eq!(get_name(9999), "Unknown");
}

#[test]
fn char_classes() {
    assert!(is_alphabet('q'));
    assert!(is_alphabet('Q'));
    assert!(!is_alphabet('5'));
    assert!(is_number('5'));
    assert!(!is_number('x'));
    assert!(is_dash('\u{30FC}'));
    assert!(is_hiragana('\u{3042}'));
    assert!(is_hiragana('\u{30FC}'));
    assert!(is_katakana('\u{30A2}'));
    assert!(is_katakana('\u{30FC}'));
    assert!(is_kanji('\u{5B57}'));
    assert!(is_symbol('!'));
    assert!(!is_symbol('a'));
}

#[test]
fn word_types() {
    assert_eq!(detect_word_type(&vec!['a', 'b', 'c']), WORDTYPE_ALPHABET);
    assert_eq!(detect_word_type(&vec!['1', '2']), WORDTYPE_NUMBER);
    assert_eq!(detect_word_type(&vec!['\u{3042}', '\u{30FC}']), WORDTYPE_HIRAGANA);
    assert_eq!(detect_word_type(&vec!['\u{30A2}', '\u{30FC}']), WORDTYPE_KATAKANA);
    assert_eq!(detect_word_type(&vec!['\u{5B57}', '\u{5B57}']), WORDTYPE_KANJI);
    assert_eq!(detect_word_type(&vec!['!', '?']), WORDTYPE_SYMBOL);
    assert_eq!(detect_word_type(&vec!['\u{5B57}', '\u{3042}']), WORDTYPE_KANJI_HIRAGANA);
    assert_eq!(detect_word_type(&vec!['\u{5B57}', '\u{30A2}']), WORDTYPE_KANJI_KATAKANA);
    assert_eq!(detect_word_type(&vec!['a', '1']), WORDTYPE_OTHER);
}

#[test]
fn word_type_substring() {
    let chars = vec!['a', 'b', '1', '2'];
    assert_eq!(detect_word_type_substr(&chars, 0, 1), WORDTYPE_ALPHABET);
    assert_eq!(detect_word_type_substr(&chars, 2, 3), WORDTYPE_NUMBER);
    assert_eq!(detect_word_type_substr(&chars, 1, 2), WORDTYPE_OTHER);
}

#[test]
fn hash_is_a_function_of_the_characters() {
    let a1 = calculate_hash(&vec!['a', 'b']);
    let a2 = calculate_hash(&vec!['a', 'b']);
    let b = calculate_hash(&vec!['b', 'a']);
    assert_eq!(a1, a2);
    assert_ne!(a1, b);
}

#[test]
fn new_sentence_layout() {
    let s = Sentence::new(vec!['a', 'b', 'a', 'b'], false);
    assert_eq!(s.length(), 4);
    assert_eq!(s.num_segments, 4);
    assert_eq!(s.get_num_segments_without_special_tokens(), 1);
    assert_eq!(s.get_nth_word_id(0), BOS);
    assert_eq!(s.get_nth_word_id(1), BOS);
    assert_eq!(s.get_nth_word_id(3), EOS);
    assert_eq!(s.get_nth_segment_length(2), 4);
    assert_eq!(s.get_nth_word_string(0), "<BOS>");
    assert_eq!(s.get_nth_word_string(2), "abab");
}

#[test]
fn split_sentence_keeps_lengths_and_ids_consistent() {
    let mut s = Sentence::new(vec!['a', 'b', 'a', 'b'], false);
    s.split_sentence(vec![2, 2]);
    assert_eq!(s.num_segments, 5);
    assert_eq!(s.get_num_segments_without_special_tokens(), 2);
    // the non-sentinel lengths sum to the character count
    assert_eq!(s.get_nth_segment_length(2) + s.get_nth_segment_length(3), s.length());
    // the stored ids match ids recomputed from the stored boundaries
    assert_eq!(s.get_nth_word_id(2), s.get_substr_word_id(0, 1));
    assert_eq!(s.get_nth_word_id(3), s.get_substr_word_id(2, 3));
    // both segments spell the same word, so their ids agree
    assert_eq!(s.get_nth_word_id(2), s.get_nth_word_id(3));
    assert_eq!(s.get_nth_word_string(2), "ab");
    assert_eq!(s.get_nth_word_string(3), "ab");
    // the sentinel behind the words is the end-of-sentence token
    assert_eq!(s.get_nth_word_id(4), EOS);
    assert_eq!(s.get_nth_segment_length(4), 1);
}

#[test]
fn split_sentence_uneven() {
    let mut s = Sentence::new(vec!['b', 'a', 'b', 'a'], true);
    s.split_sentence(vec![1, 3]);
    assert_eq!(s.get_nth_segment_length(2), 1);
    assert_eq!(s.get_nth_segment_length(3), 3);
    assert_eq!(s.segment_begin_positions[2], 0);
    assert_eq!(s.segment_begin_positions[3], 1);
    assert_eq!(s.get_nth_word_string(2), "b");
    assert_eq!(s.get_nth_word_string(3), "aba");
    assert!(s.supervised);
    // resplitting replaces the segmentation completely
    s.split_sentence(vec![2, 2]);
    assert_eq!(s.get_num_segments_without_special_tokens(), 2);
    assert_eq!(s.get_nth_word_string(2), "ba");
    assert_eq!(s.get_nth_word_string(3), "ba");
    assert_eq!(s.get_nth_word_id(2), s.get_nth_word_id(3));
}
