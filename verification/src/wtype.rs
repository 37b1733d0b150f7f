use vstd::prelude::*;
use crate::ctype::{
    detect_ctype, spec_detect_ctype, CTYPE_HIRAGANA, CTYPE_KATAKANA,
    CTYPE_KATAKANA_PHONETIC_EXTENSIONS, CTYPE_CJK_UNIFIED_IDEOGRAPHS,
    CTYPE_CJK_UNIFIED_IDEOGRAPHS_EXTENSION_A, CTYPE_CJK_UNIFIED_IDEOGRAPHS_EXTENSION_B,
    CTYPE_CJK_UNIFIED_IDEOGRAPHS_EXTENSION_C, CTYPE_CJK_UNIFIED_IDEOGRAPHS_EXTENSION_D,
    CTYPE_CJK_UNIFIED_IDEOGRAPHS_EXTENSION_E, CTYPE_CJK_UNIFIED_IDEOGRAPHS_EXTENSION_F,
    CTYPE_CJK_RADICALS_SUPPLEMENT, CTYPE_BASIC_LATIN, CTYPE_NUMBER_FORMS,
    CTYPE_COMMON_INDIC_NUMBER_FORMS, CTYPE_AEGEAN_NUMBERS, CTYPE_ANCIENT_GREEK_NUMBERS,
    CTYPE_COPTIC_EPACT_NUMBERS, CTYPE_SINHALA_ARCHAIC_NUMBERS,
    CTYPE_CUNEIFORM_NUMBERS_AND_PUNCTUATION,
};

verus! {

pub const WORDTYPE_NUM_TYPES: usize = 9;

pub const WORDTYPE_ALPHABET: usize = 1;

pub const WORDTYPE_NUMBER: usize = 2;

pub const WORDTYPE_SYMBOL: usize = 3;

pub const WORDTYPE_HIRAGANA: usize = 4;

pub const WORDTYPE_KATAKANA: usize = 5;

pub const WORDTYPE_KANJI: usize = 6;

pub const WORDTYPE_KANJI_HIRAGANA: usize = 7;

pub const WORDTYPE_KANJI_KATAKANA: usize = 8;

pub const WORDTYPE_OTHER: usize = 9;

pub open spec fn spec_is_dash(c: char) -> bool {
    c as u32 == 0x30FC
}

/// The long-vowel dash, which may extend hiragana and katakana words.
pub fn is_dash(c: char) -> (r: bool)
    ensures
        r == spec_is_dash(c),
{
    c as u32 == 0x30FC
}

pub open spec fn spec_is_hiragana(c: char) -> bool {
    spec_detect_ctype(c) == CTYPE_HIRAGANA || spec_is_dash(c)
}

pub fn is_hiragana(c: char) -> (r: bool)
    ensures
        r == spec_is_hiragana(c),
{
    let t = detect_ctype(c);
    if t == CTYPE_HIRAGANA {
        return true;
    }
    is_dash(c)
}

pub open spec fn spec_is_katakana(c: char) -> bool {
    ||| spec_detect_ctype(c) == CTYPE_KATAKANA
    ||| spec_detect_ctype(c) == CTYPE_KATAKANA_PHONETIC_EXTENSIONS
    ||| spec_is_dash(c)
}

pub fn is_katakana(c: char) -> (r: bool)
    ensures
        r == spec_is_katakana(c),
{
    let t = detect_ctype(c);
    if t == CTYPE_KATAKANA {
        return true;
    }
    if t == CTYPE_KATAKANA_PHONETIC_EXTENSIONS {
        return true;
    }
    is_dash(c)
}

pub open spec fn spec_is_kanji(c: char) -> bool {
    ||| spec_detect_ctype(c) == CTYPE_CJK_UNIFIED_IDEOGRAPHS
    ||| spec_detect_ctype(c) == CTYPE_CJK_UNIFIED_IDEOGRAPHS_EXTENSION_A
    ||| spec_detect_ctype(c) == CTYPE_CJK_UNIFIED_IDEOGRAPHS_EXTENSION_B
    ||| spec_detect_ctype(c) == CTYPE_CJK_UNIFIED_IDEOGRAPHS_EXTENSION_C
    ||| spec_detect_ctype(c) == CTYPE_CJK_UNIFIED_IDEOGRAPHS_EXTENSION_D
    ||| spec_detect_ctype(c) == CTYPE_CJK_UNIFIED_IDEOGRAPHS_EXTENSION_E
    ||| spec_detect_ctype(c) == CTYPE_CJK_UNIFIED_IDEOGRAPHS_EXTENSION_F
    ||| spec_detect_ctype(c) == CTYPE_CJK_RADICALS_SUPPLEMENT
}

pub fn is_kanji(c: char) -> (r: bool)
    ensures
        r == spec_is_kanji(c),
{
    let t = detect_ctype(c);
    if t == CTYPE_CJK_UNIFIED_IDEOGRAPHS {
        return true;
    }
    if t == CTYPE_CJK_UNIFIED_IDEOGRAPHS_EXTENSION_A {
        return true;
    }
    if t == CTYPE_CJK_UNIFIED_IDEOGRAPHS_EXTENSION_B {
        return true;
    }
    if t == CTYPE_CJK_UNIFIED_IDEOGRAPHS_EXTENSION_C {
        return true;
    }
    if t == CTYPE_CJK_UNIFIED_IDEOGRAPHS_EXTENSION_D {
        return true;
    }
    if t == CTYPE_CJK_UNIFIED_IDEOGRAPHS_EXTENSION_E {
        return true;
    }
    if t == CTYPE_CJK_UNIFIED_IDEOGRAPHS_EXTENSION_F {
        return true;
    }
    if t == CTYPE_CJK_RADICALS_SUPPLEMENT {
        return true;
    }
    false
}

pub open spec fn spec_is_number(c: char) -> bool {
    ||| (spec_detect_ctype(c) == CTYPE_BASIC_LATIN && 0x30 <= c as u32 && c as u32 <= 0x39)
    ||| spec_detect_ctype(c) == CTYPE_NUMBER_FORMS
    ||| spec_detect_ctype(c) == CTYPE_COMMON_INDIC_NUMBER_FORMS
    ||| spec_detect_ctype(c) == CTYPE_AEGEAN_NUMBERS
    ||| spec_detect_ctype(c) == CTYPE_ANCIENT_GREEK_NUMBERS
    ||| spec_detect_ctype(c) == CTYPE_COPTIC_EPACT_NUMBERS
    ||| spec_detect_ctype(c) == CTYPE_SINHALA_ARCHAIC_NUMBERS
    ||| spec_detect_ctype(c) == CTYPE_CUNEIFORM_NUMBERS_AND_PUNCTUATION
}

pub fn is_number(c: char) -> (r: bool)
    ensures
        r == spec_is_number(c),
{
    let t = detect_ctype(c);
    let character = c as u32;
    if t == CTYPE_BASIC_LATIN {
        return 0x30 <= character && character <= 0x39;
    }
    if t == CTYPE_NUMBER_FORMS {
        return true;
    }
    if t == CTYPE_COMMON_INDIC_NUMBER_FORMS {
        return true;
    }
    if t == CTYPE_AEGEAN_NUMBERS {
        return true;
    }
    if t == CTYPE_ANCIENT_GREEK_NUMBERS {
        return true;
    }
    if t == CTYPE_COPTIC_EPACT_NUMBERS {
        return true;
    }
    if t == CTYPE_SINHALA_ARCHAIC_NUMBERS {
        return true;
    }
    if t == CTYPE_CUNEIFORM_NUMBERS_AND_PUNCTUATION {
        return true;
    }
    false
}

pub open spec fn spec_is_alphabet(c: char) -> bool {
    ||| (0x41 <= c as u32 && c as u32 <= 0x5a)
    ||| (0x61 <= c as u32 && c as u32 <= 0x7a)
}

pub fn is_alphabet(c: char) -> (r: bool)
    ensures
        r == spec_is_alphabet(c),
{
    let character = c as u32;
    if 0x41 <= character && character <= 0x5a {
        return true;
    }
    if 0x61 <= character && character <= 0x7a {
        return true;
    }
    false
}

pub open spec fn spec_is_symbol(c: char) -> bool {
    &&& !spec_is_alphabet(c)
    &&& !spec_is_number(c)
    &&& !spec_is_kanji(c)
    &&& !spec_is_hiragana(c)
}

/// Everything that is neither alphabetic, numeric, kanji nor hiragana.
pub fn is_symbol(c: char) -> (r: bool)
    ensures
        r == spec_is_symbol(c),
{
    if is_alphabet(c) {
        return false;
    }
    if is_number(c) {
        return false;
    }
    if is_kanji(c) {
        return false;
    }
    if is_hiragana(c) {
        return false;
    }
    true
}

/// The bucket a character falls into when word types are counted; earlier
/// buckets take priority over later ones.
pub open spec fn spec_char_bucket(c: char) -> int {
    if spec_is_alphabet(c) {
        0
    } else if spec_is_number(c) {
        1
    } else if spec_is_dash(c) {
        2
    } else if spec_is_hiragana(c) {
        3
    } else if spec_is_katakana(c) {
        4
    } else if spec_is_kanji(c) {
        5
    } else {
        6
    }
}

/// How many characters of `s` with index in `[a, b)` fall into `bucket`.
pub open spec fn bucket_count(s: Seq<char>, a: int, b: int, bucket: int) -> int
    decreases b - a,
{
    if a < b && 0 <= a && b <= s.len() {
        (if spec_char_bucket(s[a]) == bucket {
            1int
        } else {
            0int
        }) + bucket_count(s, a + 1, b, bucket)
    } else {
        0
    }
}

pub proof fn lemma_bucket_count_last(s: Seq<char>, a: int, b: int, bucket: int)
    requires
        0 <= a <= b < s.len(),
    ensures
        bucket_count(s, a, b + 1, bucket) == bucket_count(s, a, b, bucket) + (
        if spec_char_bucket(s[b]) == bucket {
            1int
        } else {
            0int
        }),
    decreases b - a,
{
    if a < b {
        lemma_bucket_count_last(s, a + 1, b, bucket);
    } else {
        assert(bucket_count(s, b, b, bucket) == 0);
        assert(bucket_count(s, b + 1, b + 1, bucket) == 0);
        assert(bucket_count(s, b, b + 1, bucket) == (
        if spec_char_bucket(s[b]) == bucket {
            1int
        } else {
            0int
        }) + bucket_count(s, b + 1, b + 1, bucket));
    }
}

/// The surface type of the substring of `s` from `start` to `end`, both
/// inclusive: a priority-ordered cascade over the per-bucket character counts.
pub open spec fn spec_detect_word_type_substr(s: Seq<char>, start: int, end: int) -> usize {
    let size = end - start + 1;
    let num_alphabet = bucket_count(s, start, end + 1, 0);
    let num_number = bucket_count(s, start, end + 1, 1);
    let num_dash = bucket_count(s, start, end + 1, 2);
    let num_hiragana = bucket_count(s, start, end + 1, 3);
    let num_katakana = bucket_count(s, start, end + 1, 4);
    let num_kanji = bucket_count(s, start, end + 1, 5);
    let num_symbol = bucket_count(s, start, end + 1, 6);
    if num_alphabet == size {
        WORDTYPE_ALPHABET
    } else if num_number == size {
        WORDTYPE_NUMBER
    } else if num_hiragana + num_dash == size {
        WORDTYPE_HIRAGANA
    } else if num_katakana + num_dash == size {
        WORDTYPE_KATAKANA
    } else if num_kanji == size {
        WORDTYPE_KANJI
    } else if num_symbol == size {
        WORDTYPE_SYMBOL
    } else if num_kanji > 0 && num_hiragana + num_kanji == size {
        WORDTYPE_KANJI_HIRAGANA
    } else if num_kanji > 0 && num_hiragana > 0 && num_hiragana + num_kanji + num_dash == size {
        WORDTYPE_KANJI_HIRAGANA
    } else if num_kanji > 0 && num_katakana + num_kanji == size {
        WORDTYPE_KANJI_KATAKANA
    } else if num_kanji > 0 && num_katakana > 0 && num_katakana + num_kanji + num_dash == size {
        WORDTYPE_KANJI_KATAKANA
    } else {
        WORDTYPE_OTHER
    }
}

/// Detects the surface type of the substring of `chars` from `start` to
/// `end`, both inclusive.
pub fn detect_word_type_substr(chars: &Vec<char>, start: usize, end: usize) -> (r: usize)
    requires
        start <= end,
        end < chars@.len(),
    ensures
        r == spec_detect_word_type_substr(chars@, start as int, end as int),
{
    let num_chars = chars.len();
    let mut num_alphabet: usize = 0;
    let mut num_number: usize = 0;
    let mut num_symbol: usize = 0;
    let mut num_hiragana: usize = 0;
    let mut num_katakana: usize = 0;
    let mut num_kanji: usize = 0;
    let mut num_dash: usize = 0;
    let size = end - start + 1;
    let mut i: usize = start;
    while i <= end
        invariant
            start <= i <= end + 1,
            end < num_chars == chars@.len(),
            num_alphabet == bucket_count(chars@, start as int, i as int, 0),
            num_number == bucket_count(chars@, start as int, i as int, 1),
            num_dash == bucket_count(chars@, start as int, i as int, 2),
            num_hiragana == bucket_count(chars@, start as int, i as int, 3),
            num_katakana == bucket_count(chars@, start as int, i as int, 4),
            num_kanji == bucket_count(chars@, start as int, i as int, 5),
            num_symbol == bucket_count(chars@, start as int, i as int, 6),
            num_alphabet + num_number + num_dash + num_hiragana + num_katakana + num_kanji
                + num_symbol == i - start,
        decreases end + 1 - i,
    {
        let target = chars[i];
        proof {
            lemma_bucket_count_last(chars@, start as int, i as int, 0);
            lemma_bucket_count_last(chars@, start as int, i as int, 1);
            lemma_bucket_count_last(chars@, start as int, i as int, 2);
            lemma_bucket_count_last(chars@, start as int, i as int, 3);
            lemma_bucket_count_last(chars@, start as int, i as int, 4);
            lemma_bucket_count_last(chars@, start as int, i as int, 5);
            lemma_bucket_count_last(chars@, start as int, i as int, 6);
        }
        if is_alphabet(target) {
            num_alphabet += 1;
        } else if is_number(target) {
            num_number += 1;
        } else if is_dash(target) {
            num_dash += 1;
        } else if is_hiragana(target) {
            num_hiragana += 1;
        } else if is_katakana(target) {
            num_katakana += 1;
        } else if is_kanji(target) {
            num_kanji += 1;
        } else {
            num_symbol += 1;
        }
        i += 1;
    }
    if num_alphabet == size {
        return WORDTYPE_ALPHABET;
    }
    if num_number == size {
        return WORDTYPE_NUMBER;
    }
    if num_hiragana + num_dash == size {
        return WORDTYPE_HIRAGANA;
    }
    if num_katakana + num_dash == size {
        return WORDTYPE_KATAKANA;
    }
    if num_kanji == size {
        return WORDTYPE_KANJI;
    }
    if num_symbol == size {
        return WORDTYPE_SYMBOL;
    }
    if num_kanji > 0 {
        if num_hiragana + num_kanji == size {
            return WORDTYPE_KANJI_HIRAGANA;
        }
        if num_hiragana > 0 && num_hiragana + num_kanji + num_dash == size {
            return WORDTYPE_KANJI_HIRAGANA;
        }
        if num_katakana + num_kanji == size {
            return WORDTYPE_KANJI_KATAKANA;
        }
        if num_katakana > 0 && num_katakana + num_kanji + num_dash == size {
            return WORDTYPE_KANJI_KATAKANA;
        }
    }
    WORDTYPE_OTHER
}

/// Detects the surface type of a whole word.
pub fn detect_word_type(word: &Vec<char>) -> (r: usize)
    requires
        1 <= word@.len(),
    ensures
        r == spec_detect_word_type_substr(word@, 0, word@.len() - 1),
{
    let end = word.len() - 1;
    detect_word_type_substr(word, 0, end)
}

} // verus!
