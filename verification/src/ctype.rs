use vstd::prelude::*;

verus! {

pub const CTYPE_UNKNOWN: usize = 0;
pub const CTYPE_BASIC_LATIN: usize = 1;
pub const CTYPE_LATIN_1_SUPPLEMENT: usize = 2;
pub const CTYPE_LATIN_EXTENDED_A: usize = 3;
pub const CTYPE_LATIN_EXTENDED_B: usize = 4;
pub const CTYPE_IPA_EXTENSIONS: usize = 5;
pub const CTYPE_SPACING_MODIFIER_LETTERS: usize = 6;
pub const CTYPE_COMBINING_DIACRITICAL_MARKS: usize = 7;
pub const CTYPE_GREEK_AND_COPTIC: usize = 8;
pub const CTYPE_CYRILLIC: usize = 9;
pub const CTYPE_CYRILLIC_SUPPLEMENT: usize = 10;
pub const CTYPE_ARMENIAN: usize = 11;
pub const CTYPE_HEBREW: usize = 12;
pub const CTYPE_ARABIC: usize = 13;
pub const CTYPE_SYRIAC: usize = 14;
pub const CTYPE_ARABIC_SUPPLEMENT: usize = 15;
pub const CTYPE_THAANA: usize = 16;
pub const CTYPE_NKO: usize = 17;
pub const CTYPE_SAMARITAN: usize = 18;
pub const CTYPE_MANDAIC: usize = 19;
pub const CTYPE_SYRIAC_SUPPLEMENT: usize = 20;
pub const CTYPE_ARABIC_EXTENDED_A: usize = 21;
pub const CTYPE_DEVANAGARI: usize = 22;
pub const CTYPE_BENGALI: usize = 23;
pub const CTYPE_GURMUKHI: usize = 24;
pub const CTYPE_GUJARATI: usize = 25;
pub const CTYPE_ORIYA: usize = 26;
pub const CTYPE_TAMIL: usize = 27;
pub const CTYPE_TELUGU: usize = 28;
pub const CTYPE_KANNADA: usize = 29;
pub const CTYPE_MALAYALAM: usize = 30;
pub const CTYPE_SINHALA: usize = 31;
pub const CTYPE_THAI: usize = 32;
pub const CTYPE_LAO: usize = 33;
pub const CTYPE_TIBETAN: usize = 34;
pub const CTYPE_MYANMAR: usize = 35;
pub const CTYPE_GEORGIAN: usize = 36;
pub const CTYPE_HANGUL_JAMO: usize = 37;
pub const CTYPE_ETHIOPIC: usize = 38;
pub const CTYPE_ETHIOPIC_SUPPLEMENT: usize = 39;
pub const CTYPE_CHEROKEE: usize = 40;
pub const CTYPE_UNIFIED_CANADIAN_ABORIGINAL_SYLLABICS: usize = 41;
pub const CTYPE_OGHAM: usize = 42;
pub const CTYPE_RUNIC: usize = 43;
pub const CTYPE_TAGALOG: usize = 44;
pub const CTYPE_HANUNOO: usize = 45;
pub const CTYPE_BUHID: usize = 46;
pub const CTYPE_TAGBANWA: usize = 47;
pub const CTYPE_KHMER: usize = 48;
pub const CTYPE_MONGOLIAN: usize = 49;
pub const CTYPE_UNIFIED_CANADIAN_ABORIGINAL_SYLLABICS_EXTENDED: usize = 50;
pub const CTYPE_LIMBU: usize = 51;
pub const CTYPE_TAI_LE: usize = 52;
pub const CTYPE_NEW_TAI_LUE: usize = 53;
pub const CTYPE_KHMER_SYMBOLS: usize = 54;
pub const CTYPE_BUGINESE: usize = 55;
pub const CTYPE_TAI_THAM: usize = 56;
pub const CTYPE_COMBINING_DIACRITICAL_MARKS_EXTENDED: usize = 57;
pub const CTYPE_BALINESE: usize = 58;
pub const CTYPE_SUNDANESE: usize = 59;
pub const CTYPE_BATAK: usize = 60;
pub const CTYPE_LEPCHA: usize = 61;
pub const CTYPE_OL_CHIKI: usize = 62;
pub const CTYPE_CYRILLIC_EXTENDED_C: usize = 63;
pub const CTYPE_SUNDANESE_SUPPLEMENT: usize = 64;
pub const CTYPE_VEDIC_EXTENSIONS: usize = 65;
pub const CTYPE_PHONETIC_EXTENSIONS: usize = 66;
pub const CTYPE_PHONETIC_EXTENSIONS_SUPPLEMENT: usize = 67;
pub const CTYPE_COMBINING_DIACRITICAL_MARKS_SUPPLEMENT: usize = 68;
pub const CTYPE_LATIN_EXTENDED_ADDITIONAL: usize = 69;
pub const CTYPE_GREEK_EXTENDED: usize = 70;
pub const CTYPE_GENERAL_PUNCTUATION: usize = 71;
pub const CTYPE_SUPERSCRIPTS_AND_SUBSCRIPTS: usize = 72;
pub const CTYPE_CURRENCY_SYMBOLS: usize = 73;
pub const CTYPE_COMBINING_DIACRITICAL_MARKS_FOR_SYMBOLS: usize = 74;
pub const CTYPE_LETTERLIKE_SYMBOLS: usize = 75;
pub const CTYPE_NUMBER_FORMS: usize = 76;
pub const CTYPE_ARROWS: usize = 77;
pub const CTYPE_MATHEMATICAL_OPERATORS: usize = 78;
pub const CTYPE_MISCELLANEOUS_TECHNICAL: usize = 79;
pub const CTYPE_CONTROL_PICTURES: usize = 80;
pub const CTYPE_OPTICAL_CHARACTER_RECOGNITION: usize = 81;
pub const CTYPE_ENCLOSED_ALPHANUMERICS: usize = 82;
pub const CTYPE_BOX_DRAWING: usize = 83;
pub const CTYPE_BLOCK_ELEMENTS: usize = 84;
pub const CTYPE_GEOMETRIC_SHAPES: usize = 85;
pub const CTYPE_MISCELLANEOUS_SYMBOLS: usize = 86;
pub const CTYPE_DINGBATS: usize = 87;
pub const CTYPE_MISCELLANEOUS_MATHEMATICAL_SYMBOLS_A: usize = 88;
pub const CTYPE_SUPPLEMENTAL_ARROWS_A: usize = 89;
pub const CTYPE_BRAILLE_PATTERNS: usize = 90;
pub const CTYPE_SUPPLEMENTAL_ARROWS_B: usize = 91;
pub const CTYPE_MISCELLANEOUS_MATHEMATICAL_SYMBOLS_B: usize = 92;
pub const CTYPE_SUPPLEMENTAL_MATHEMATICAL_OPERATORS: usize = 93;
pub const CTYPE_MISCELLANEOUS_SYMBOLS_AND_ARROWS: usize = 94;
pub const CTYPE_GLAGOLITIC: usize = 95;
pub const CTYPE_LATIN_EXTENDED_C: usize = 96;
pub const CTYPE_COPTIC: usize = 97;
pub const CTYPE_GEORGIAN_SUPPLEMENT: usize = 98;
pub const CTYPE_TIFINAGH: usize = 99;
pub const CTYPE_ETHIOPIC_EXTENDED: usize = 100;
pub const CTYPE_CYRILLIC_EXTENDED_A: usize = 101;
pub const CTYPE_SUPPLEMENTAL_PUNCTUATION: usize = 102;
pub const CTYPE_CJK_RADICALS_SUPPLEMENT: usize = 103;
pub const CTYPE_KANGXI_RADICALS: usize = 104;
pub const CTYPE_IDEOGRAPHIC_DESCRIPTION_CHARACTERS: usize = 105;
pub const CTYPE_CJK_SYMBOLS_AND_PUNCTUATION: usize = 106;
pub const CTYPE_HIRAGANA: usize = 107;
pub const CTYPE_KATAKANA: usize = 108;
pub const CTYPE_BOPOMOFO: usize = 109;
pub const CTYPE_HANGUL_COMPATIBILITY_JAMO: usize = 110;
pub const CTYPE_KANBUN: usize = 111;
pub const CTYPE_BOPOMOFO_EXTENDED: usize = 112;
pub const CTYPE_CJK_STROKES: usize = 113;
pub const CTYPE_KATAKANA_PHONETIC_EXTENSIONS: usize = 114;
pub const CTYPE_ENCLOSED_CJK_LETTERS_AND_MONTHS: usize = 115;
pub const CTYPE_CJK_COMPATIBILITY: usize = 116;
pub const CTYPE_CJK_UNIFIED_IDEOGRAPHS_EXTENSION_A: usize = 117;
pub const CTYPE_YIJING_HEXAGRAM_SYMBOLS: usize = 118;
pub const CTYPE_CJK_UNIFIED_IDEOGRAPHS: usize = 119;
pub const CTYPE_YI_SYLLABLES: usize = 120;
pub const CTYPE_YI_RADICALS: usize = 121;
pub const CTYPE_LISU: usize = 122;
pub const CTYPE_VAI: usize = 123;
pub const CTYPE_CYRILLIC_EXTENDED_B: usize = 124;
pub const CTYPE_BAMUM: usize = 125;
pub const CTYPE_MODIFIER_TONE_LETTERS: usize = 126;
pub const CTYPE_LATIN_EXTENDED_D: usize = 127;
pub const CTYPE_SYLOTI_NAGRI: usize = 128;
pub const CTYPE_COMMON_INDIC_NUMBER_FORMS: usize = 129;
pub const CTYPE_PHAGS_PA: usize = 130;
pub const CTYPE_SAURASHTRA: usize = 131;
pub const CTYPE_DEVANAGARI_EXTENDED: usize = 132;
pub const CTYPE_KAYAH_LI: usize = 133;
pub const CTYPE_REJANG: usize = 134;
pub const CTYPE_HANGUL_JAMO_EXTENDED_A: usize = 135;
pub const CTYPE_JAVANESE: usize = 136;
pub const CTYPE_MYANMAR_EXTENDED_B: usize = 137;
pub const CTYPE_CHAM: usize = 138;
pub const CTYPE_MYANMAR_EXTENDED_A: usize = 139;
pub const CTYPE_TAI_VIET: usize = 140;
pub const CTYPE_MEETEI_MAYEK_EXTENSIONS: usize = 141;
pub const CTYPE_ETHIOPIC_EXTENDED_A: usize = 142;
pub const CTYPE_LATIN_EXTENDED_E: usize = 143;
pub const CTYPE_CHEROKEE_SUPPLEMENT: usize = 144;
pub const CTYPE_MEETEI_MAYEK: usize = 145;
pub const CTYPE_HANGUL_SYLLABLES: usize = 146;
pub const CTYPE_HANGUL_JAMO_EXTENDED_B: usize = 147;
pub const CTYPE_HIGH_SURROGATES: usize = 148;
pub const CTYPE_HIGH_PRIVATE_USE_SURROGATES: usize = 149;
pub const CTYPE_LOW_SURROGATES: usize = 150;
pub const CTYPE_PRIVATE_USE_AREA: usize = 151;
pub const CTYPE_CJK_COMPATIBILITY_IDEOGRAPHS: usize = 152;
pub const CTYPE_ALPHABETIC_PRESENTATION_FORMS: usize = 153;
pub const CTYPE_ARABIC_PRESENTATION_FORMS_A: usize = 154;
pub const CTYPE_VARIATION_SELECTORS: usize = 155;
pub const CTYPE_VERTICAL_FORMS: usize = 156;
pub const CTYPE_COMBINING_HALF_MARKS: usize = 157;
pub const CTYPE_CJK_COMPATIBILITY_FORMS: usize = 158;
pub const CTYPE_SMALL_FORM_VARIANTS: usize = 159;
pub const CTYPE_ARABIC_PRESENTATION_FORMS_B: usize = 160;
pub const CTYPE_HALFWIDTH_AND_FULLWIDTH_FORMS: usize = 161;
pub const CTYPE_SPECIALS: usize = 162;
pub const CTYPE_LINEAR_B_SYLLABARY: usize = 163;
pub const CTYPE_LINEAR_B_IDEOGRAMS: usize = 164;
pub const CTYPE_AEGEAN_NUMBERS: usize = 165;
pub const CTYPE_ANCIENT_GREEK_NUMBERS: usize = 166;
pub const CTYPE_ANCIENT_SYMBOLS: usize = 167;
pub const CTYPE_PHAISTOS_DISC: usize = 168;
pub const CTYPE_LYCIAN: usize = 169;
pub const CTYPE_CARIAN: usize = 170;
pub const CTYPE_COPTIC_EPACT_NUMBERS: usize = 171;
pub const CTYPE_OLD_ITALIC: usize = 172;
pub const CTYPE_GOTHIC: usize = 173;
pub const CTYPE_OLD_PERMIC: usize = 174;
pub const CTYPE_UGARITIC: usize = 175;
pub const CTYPE_OLD_PERSIAN: usize = 176;
pub const CTYPE_DESERET: usize = 177;
pub const CTYPE_SHAVIAN: usize = 178;
pub const CTYPE_OSMANYA: usize = 179;
pub const CTYPE_OSAGE: usize = 180;
pub const CTYPE_ELBASAN: usize = 181;
pub const CTYPE_CAUCASIAN_ALBANIAN: usize = 182;
pub const CTYPE_LINEAR_A: usize = 183;
pub const CTYPE_CYPRIOT_SYLLABARY: usize = 184;
pub const CTYPE_IMPERIAL_ARAMAIC: usize = 185;
pub const CTYPE_PALMYRENE: usize = 186;
pub const CTYPE_NABATAEAN: usize = 187;
pub const CTYPE_HATRAN: usize = 188;
pub const CTYPE_PHOENICIAN: usize = 189;
pub const CTYPE_LYDIAN: usize = 190;
pub const CTYPE_MEROITIC_HIEROGLYPHS: usize = 191;
pub const CTYPE_MEROITIC_CURSIVE: usize = 192;
pub const CTYPE_KHAROSHTHI: usize = 193;
pub const CTYPE_OLD_SOUTH_ARABIAN: usize = 194;
pub const CTYPE_OLD_NORTH_ARABIAN: usize = 195;
pub const CTYPE_MANICHAEAN: usize = 196;
pub const CTYPE_AVESTAN: usize = 197;
pub const CTYPE_INSCRIPTIONAL_PARTHIAN: usize = 198;
pub const CTYPE_INSCRIPTIONAL_PAHLAVI: usize = 199;
pub const CTYPE_PSALTER_PAHLAVI: usize = 200;
pub const CTYPE_OLD_TURKIC: usize = 201;
pub const CTYPE_OLD_HUNGARIAN: usize = 202;
pub const CTYPE_RUMI_NUMERAL_SYMBOLS: usize = 203;
pub const CTYPE_BRAHMI: usize = 204;
pub const CTYPE_KAITHI: usize = 205;
pub const CTYPE_SORA_SOMPENG: usize = 206;
pub const CTYPE_CHAKMA: usize = 207;
pub const CTYPE_MAHAJANI: usize = 208;
pub const CTYPE_SHARADA: usize = 209;
pub const CTYPE_SINHALA_ARCHAIC_NUMBERS: usize = 210;
pub const CTYPE_KHOJKI: usize = 211;
pub const CTYPE_MULTANI: usize = 212;
pub const CTYPE_KHUDAWADI: usize = 213;
pub const CTYPE_GRANTHA: usize = 214;
pub const CTYPE_NEWA: usize = 215;
pub const CTYPE_TIRHUTA: usize = 216;
pub const CTYPE_SIDDHAM: usize = 217;
pub const CTYPE_MODI: usize = 218;
pub const CTYPE_MONGOLIAN_SUPPLEMENT: usize = 219;
pub const CTYPE_TAKRI: usize = 220;
pub const CTYPE_AHOM: usize = 221;
pub const CTYPE_WARANG_CITI: usize = 222;
pub const CTYPE_ZANABAZAR_SQUARE: usize = 223;
pub const CTYPE_SOYOMBO: usize = 224;
pub const CTYPE_PAU_CIN_HAU: usize = 225;
pub const CTYPE_BHAIKSUKI: usize = 226;
pub const CTYPE_MARCHEN: usize = 227;
pub const CTYPE_MASARAM_GONDI: usize = 228;
pub const CTYPE_CUNEIFORM: usize = 229;
pub const CTYPE_CUNEIFORM_NUMBERS_AND_PUNCTUATION: usize = 230;
pub const CTYPE_EARLY_DYNASTIC_CUNEIFORM: usize = 231;
pub const CTYPE_EGYPTIAN_HIEROGLYPHS: usize = 232;
pub const CTYPE_ANATOLIAN_HIEROGLYPHS: usize = 233;
pub const CTYPE_BAMUM_SUPPLEMENT: usize = 234;
pub const CTYPE_MRO: usize = 235;
pub const CTYPE_BASSA_VAH: usize = 236;
pub const CTYPE_PAHAWH_HMONG: usize = 237;
pub const CTYPE_MIAO: usize = 238;
pub const CTYPE_IDEOGRAPHIC_SYMBOLS_AND_PUNCTUATION: usize = 239;
pub const CTYPE_TANGUT: usize = 240;
pub const CTYPE_TANGUT_COMPONENTS: usize = 241;
pub const CTYPE_KANA_SUPPLEMENT: usize = 242;
pub const CTYPE_KANA_EXTENDED_A: usize = 243;
pub const CTYPE_NUSHU: usize = 244;
pub const CTYPE_DUPLOYAN: usize = 245;
pub const CTYPE_SHORTHAND_FORMAT_CONTROLS: usize = 246;
pub const CTYPE_BYZANTINE_MUSICAL_SYMBOLS: usize = 247;
pub const CTYPE_MUSICAL_SYMBOLS: usize = 248;
pub const CTYPE_ANCIENT_GREEK_MUSICAL_NOTATION: usize = 249;
pub const CTYPE_TAI_XUAN_JING_SYMBOLS: usize = 250;
pub const CTYPE_COUNTING_ROD_NUMERALS: usize = 251;
pub const CTYPE_MATHEMATICAL_ALPHANUMERIC_SYMBOLS: usize = 252;
pub const CTYPE_SUTTON_SIGNWRITING: usize = 253;
pub const CTYPE_GLAGOLITIC_SUPPLEMENT: usize = 254;
pub const CTYPE_MENDE_KIKAKUI: usize = 255;
pub const CTYPE_ADLAM: usize = 256;
pub const CTYPE_ARABIC_MATHEMATICAL_ALPHABETIC_SYMBOLS: usize = 257;
pub const CTYPE_MAHJONG_TILES: usize = 258;
pub const CTYPE_DOMINO_TILES: usize = 259;
pub const CTYPE_PLAYING_CARDS: usize = 260;
pub const CTYPE_ENCLOSED_ALPHANUMERIC_SUPPLEMENT: usize = 261;
pub const CTYPE_ENCLOSED_IDEOGRAPHIC_SUPPLEMENT: usize = 262;
pub const CTYPE_MISCELLANEOUS_SYMBOLS_AND_PICTOGRAPHS: usize = 263;
pub const CTYPE_EMOTICONS: usize = 264;
pub const CTYPE_ORNAMENTAL_DINGBATS: usize = 265;
pub const CTYPE_TRANSPORT_AND_MAP_SYMBOLS: usize = 266;
pub const CTYPE_ALCHEMICAL_SYMBOLS: usize = 267;
pub const CTYPE_GEOMETRIC_SHAPES_EXTENDED: usize = 268;
pub const CTYPE_SUPPLEMENTAL_ARROWS_C: usize = 269;
pub const CTYPE_SUPPLEMENTAL_SYMBOLS_AND_PICTOGRAPHS: usize = 270;
pub const CTYPE_CJK_UNIFIED_IDEOGRAPHS_EXTENSION_B: usize = 271;
pub const CTYPE_CJK_UNIFIED_IDEOGRAPHS_EXTENSION_C: usize = 272;
pub const CTYPE_CJK_UNIFIED_IDEOGRAPHS_EXTENSION_D: usize = 273;
pub const CTYPE_CJK_UNIFIED_IDEOGRAPHS_EXTENSION_E: usize = 274;
pub const CTYPE_CJK_UNIFIED_IDEOGRAPHS_EXTENSION_F: usize = 275;
pub const CTYPE_CJK_COMPATIBILITY_IDEOGRAPHS_SUPPLEMENT: usize = 276;
pub const CTYPE_TAGS: usize = 277;
pub const CTYPE_VARIATION_SELECTORS_SUPPLEMENT: usize = 278;
pub const CTYPE_SUPPLEMENTARY_PRIVATE_USE_AREA_A: usize = 279;
pub const CTYPE_SUPPLEMENTARY_PRIVATE_USE_AREA_B: usize = 280;

/// The Unicode block category of a character, as a chain of code-point
/// range tests; code points outside every listed block fall to the
/// unknown category.
pub open spec fn spec_detect_ctype(ch: char) -> usize {
    let c = ch as u32;
    if c <= 0x007F {
        CTYPE_BASIC_LATIN
    } else if 0x0080 <= c && c <= 0x00FF {
        CTYPE_LATIN_1_SUPPLEMENT
    } else if 0x0100 <= c && c <= 0x017F {
        CTYPE_LATIN_EXTENDED_A
    } else if 0x0180 <= c && c <= 0x024F {
        CTYPE_LATIN_EXTENDED_B
    } else if 0x0250 <= c && c <= 0x02AF {
        CTYPE_IPA_EXTENSIONS
    } else if 0x02B0 <= c && c <= 0x02FF {
        CTYPE_SPACING_MODIFIER_LETTERS
    } else if 0x0300 <= c && c <= 0x036F {
        CTYPE_COMBINING_DIACRITICAL_MARKS
    } else if 0x0370 <= c && c <= 0x03FF {
        CTYPE_GREEK_AND_COPTIC
    } else if 0x0400 <= c && c <= 0x04FF {
        CTYPE_CYRILLIC
    } else if 0x0500 <= c && c <= 0x052F {
        CTYPE_CYRILLIC_SUPPLEMENT
    } else if 0x0530 <= c && c <= 0x058F {
        CTYPE_ARMENIAN
    } else if 0x0590 <= c && c <= 0x05FF {
        CTYPE_HEBREW
    } else if 0x0600 <= c && c <= 0x06FF {
        CTYPE_ARABIC
    } else if 0x0700 <= c && c <= 0x074F {
        CTYPE_SYRIAC
    } else if 0x0750 <= c && c <= 0x077F {
        CTYPE_ARABIC_SUPPLEMENT
    } else if 0x0780 <= c && c <= 0x07BF {
        CTYPE_THAANA
    } else if 0x07C0 <= c && c <= 0x07FF {
        CTYPE_NKO
    } else if 0x0800 <= c && c <= 0x083F {
        CTYPE_SAMARITAN
    } else if 0x0840 <= c && c <= 0x085F {
        CTYPE_MANDAIC
    } else if 0x0860 <= c && c <= 0x086F {
        CTYPE_SYRIAC_SUPPLEMENT
    } else if 0x08A0 <= c && c <= 0x08FF {
        CTYPE_ARABIC_EXTENDED_A
    } else if 0x0900 <= c && c <= 0x097F {
        CTYPE_DEVANAGARI
    } else if 0x0980 <= c && c <= 0x09FF {
        CTYPE_BENGALI
    } else if 0x0A00 <= c && c <= 0x0A7F {
        CTYPE_GURMUKHI
    } else if 0x0A80 <= c && c <= 0x0AFF {
        CTYPE_GUJARATI
    } else if 0x0B00 <= c && c <= 0x0B7F {
        CTYPE_ORIYA
    } else if 0x0B80 <= c && c <= 0x0BFF {
        CTYPE_TAMIL
    } else if 0x0C00 <= c && c <= 0x0C7F {
        CTYPE_TELUGU
    } else if 0x0C80 <= c && c <= 0x0CFF {
        CTYPE_KANNADA
    } else if 0x0D00 <= c && c <= 0x0D7F {
        CTYPE_MALAYALAM
    } else if 0x0D80 <= c && c <= 0x0DFF {
        CTYPE_SINHALA
    } else if 0x0E00 <= c && c <= 0x0E7F {
        CTYPE_THAI
    } else if 0x0E80 <= c && c <= 0x0EFF {
        CTYPE_LAO
    } else if 0x0F00 <= c && c <= 0x0FFF {
        CTYPE_TIBETAN
    } else if 0x1000 <= c && c <= 0x109F {
        CTYPE_MYANMAR
    } else if 0x10A0 <= c && c <= 0x10FF {
        CTYPE_GEORGIAN
    } else if 0x1100 <= c && c <= 0x11FF {
        CTYPE_HANGUL_JAMO
    } else if 0x1200 <= c && c <= 0x137F {
        CTYPE_ETHIOPIC
    } else if 0x1380 <= c && c <= 0x139F {
        CTYPE_ETHIOPIC_SUPPLEMENT
    } else if 0x13A0 <= c && c <= 0x13FF {
        CTYPE_CHEROKEE
    } else if 0x1400 <= c && c <= 0x167F {
        CTYPE_UNIFIED_CANADIAN_ABORIGINAL_SYLLABICS
    } else if 0x1680 <= c && c <= 0x169F {
        CTYPE_OGHAM
    } else if 0x16A0 <= c && c <= 0x16FF {
        CTYPE_RUNIC
    } else if 0x1700 <= c && c <= 0x171F {
        CTYPE_TAGALOG
    } else if 0x1720 <= c && c <= 0x173F {
        CTYPE_HANUNOO
    } else if 0x1740 <= c && c <= 0x175F {
        CTYPE_BUHID
    } else if 0x1760 <= c && c <= 0x177F {
        CTYPE_TAGBANWA
    } else if 0x1780 <= c && c <= 0x17FF {
        CTYPE_KHMER
    } else if 0x1800 <= c && c <= 0x18AF {
        CTYPE_MONGOLIAN
    } else if 0x18B0 <= c && c <= 0x18FF {
        CTYPE_UNIFIED_CANADIAN_ABORIGINAL_SYLLABICS_EXTENDED
    } else if 0x1900 <= c && c <= 0x194F {
        CTYPE_LIMBU
    } else if 0x1950 <= c && c <= 0x197F {
        CTYPE_TAI_LE
    } else if 0x1980 <= c && c <= 0x19DF {
        CTYPE_NEW_TAI_LUE
    } else if 0x19E0 <= c && c <= 0x19FF {
        CTYPE_KHMER_SYMBOLS
    } else if 0x1A00 <= c && c <= 0x1A1F {
        CTYPE_BUGINESE
    } else if 0x1A20 <= c && c <= 0x1AAF {
        CTYPE_TAI_THAM
    } else if 0x1AB0 <= c && c <= 0x1AFF {
        CTYPE_COMBINING_DIACRITICAL_MARKS_EXTENDED
    } else if 0x1B00 <= c && c <= 0x1B7F {
        CTYPE_BALINESE
    } else if 0x1B80 <= c && c <= 0x1BBF {
        CTYPE_SUNDANESE
    } else if 0x1BC0 <= c && c <= 0x1BFF {
        CTYPE_BATAK
    } else if 0x1C00 <= c && c <= 0x1C4F {
        CTYPE_LEPCHA
    } else if 0x1C50 <= c && c <= 0x1C7F {
        CTYPE_OL_CHIKI
    } else if 0x1C80 <= c && c <= 0x1C8F {
        CTYPE_CYRILLIC_EXTENDED_C
    } else if 0x1CC0 <= c && c <= 0x1CCF {
        CTYPE_SUNDANESE_SUPPLEMENT
    } else if 0x1CD0 <= c && c <= 0x1CFF {
        CTYPE_VEDIC_EXTENSIONS
    } else if 0x1D00 <= c && c <= 0x1D7F {
        CTYPE_PHONETIC_EXTENSIONS
    } else if 0x1D80 <= c && c <= 0x1DBF {
        CTYPE_PHONETIC_EXTENSIONS_SUPPLEMENT
    } else if 0x1DC0 <= c && c <= 0x1DFF {
        CTYPE_COMBINING_DIACRITICAL_MARKS_SUPPLEMENT
    } else if 0x1E00 <= c && c <= 0x1EFF {
        CTYPE_LATIN_EXTENDED_ADDITIONAL
    } else if 0x1F00 <= c && c <= 0x1FFF {
        CTYPE_GREEK_EXTENDED
    } else if 0x2000 <= c && c <= 0x206F {
        CTYPE_GENERAL_PUNCTUATION
    } else if 0x2070 <= c && c <= 0x209F {
        CTYPE_SUPERSCRIPTS_AND_SUBSCRIPTS
    } else if 0x20A0 <= c && c <= 0x20CF {
        CTYPE_CURRENCY_SYMBOLS
    } else if 0x20D0 <= c && c <= 0x20FF {
        CTYPE_COMBINING_DIACRITICAL_MARKS_FOR_SYMBOLS
    } else if 0x2100 <= c && c <= 0x214F {
        CTYPE_LETTERLIKE_SYMBOLS
    } else if 0x2150 <= c && c <= 0x218F {
        CTYPE_NUMBER_FORMS
    } else if 0x2190 <= c && c <= 0x21FF {
        CTYPE_ARROWS
    } else if 0x2200 <= c && c <= 0x22FF {
        CTYPE_MATHEMATICAL_OPERATORS
    } else if 0x2300 <= c && c <= 0x23FF {
        CTYPE_MISCELLANEOUS_TECHNICAL
    } else if 0x2400 <= c && c <= 0x243F {
        CTYPE_CONTROL_PICTURES
    } else if 0x2440 <= c && c <= 0x245F {
        CTYPE_OPTICAL_CHARACTER_RECOGNITION
    } else if 0x2460 <= c && c <= 0x24FF {
        CTYPE_ENCLOSED_ALPHANUMERICS
    } else if 0x2500 <= c && c <= 0x257F {
        CTYPE_BOX_DRAWING
    } else if 0x2580 <= c && c <= 0x259F {
        CTYPE_BLOCK_ELEMENTS
    } else if 0x25A0 <= c && c <= 0x25FF {
        CTYPE_GEOMETRIC_SHAPES
    } else if 0x2600 <= c && c <= 0x26FF {
        CTYPE_MISCELLANEOUS_SYMBOLS
    } else if 0x2700 <= c && c <= 0x27BF {
        CTYPE_DINGBATS
    } else if 0x27C0 <= c && c <= 0x27EF {
        CTYPE_MISCELLANEOUS_MATHEMATICAL_SYMBOLS_A
    } else if 0x27F0 <= c && c <= 0x27FF {
        CTYPE_SUPPLEMENTAL_ARROWS_A
    } else if 0x2800 <= c && c <= 0x28FF {
        CTYPE_BRAILLE_PATTERNS
    } else if 0x2900 <= c && c <= 0x297F {
        CTYPE_SUPPLEMENTAL_ARROWS_B
    } else if 0x2980 <= c && c <= 0x29FF {
        CTYPE_MISCELLANEOUS_MATHEMATICAL_SYMBOLS_B
    } else if 0x2A00 <= c && c <= 0x2AFF {
        CTYPE_SUPPLEMENTAL_MATHEMATICAL_OPERATORS
    } else if 0x2B00 <= c && c <= 0x2BFF {
        CTYPE_MISCELLANEOUS_SYMBOLS_AND_ARROWS
    } else if 0x2C00 <= c && c <= 0x2C5F {
        CTYPE_GLAGOLITIC
    } else if 0x2C60 <= c && c <= 0x2C7F {
        CTYPE_LATIN_EXTENDED_C
    } else if 0x2C80 <= c && c <= 0x2CFF {
        CTYPE_COPTIC
    } else if 0x2D00 <= c && c <= 0x2D2F {
        CTYPE_GEORGIAN_SUPPLEMENT
    } else if 0x2D30 <= c && c <= 0x2D7F {
        CTYPE_TIFINAGH
    } else if 0x2D80 <= c && c <= 0x2DDF {
        CTYPE_ETHIOPIC_EXTENDED
    } else if 0x2DE0 <= c && c <= 0x2DFF {
        CTYPE_CYRILLIC_EXTENDED_A
    } else if 0x2E00 <= c && c <= 0x2E7F {
        CTYPE_SUPPLEMENTAL_PUNCTUATION
    } else if 0x2E80 <= c && c <= 0x2EFF {
        CTYPE_CJK_RADICALS_SUPPLEMENT
    } else if 0x2F00 <= c && c <= 0x2FDF {
        CTYPE_KANGXI_RADICALS
    } else if 0x2FF0 <= c && c <= 0x2FFF {
        CTYPE_IDEOGRAPHIC_DESCRIPTION_CHARACTERS
    } else if 0x3000 <= c && c <= 0x303F {
        CTYPE_CJK_SYMBOLS_AND_PUNCTUATION
    } else if 0x3040 <= c && c <= 0x309F {
        CTYPE_HIRAGANA
    } else if 0x30A0 <= c && c <= 0x30FF {
        CTYPE_KATAKANA
    } else if 0x3100 <= c && c <= 0x312F {
        CTYPE_BOPOMOFO
    } else if 0x3130 <= c && c <= 0x318F {
        CTYPE_HANGUL_COMPATIBILITY_JAMO
    } else if 0x3190 <= c && c <= 0x319F {
        CTYPE_KANBUN
    } else if 0x31A0 <= c && c <= 0x31BF {
        CTYPE_BOPOMOFO_EXTENDED
    } else if 0x31C0 <= c && c <= 0x31EF {
        CTYPE_CJK_STROKES
    } else if 0x31F0 <= c && c <= 0x31FF {
        CTYPE_KATAKANA_PHONETIC_EXTENSIONS
    } else if 0x3200 <= c && c <= 0x32FF {
        CTYPE_ENCLOSED_CJK_LETTERS_AND_MONTHS
    } else if 0x3300 <= c && c <= 0x33FF {
        CTYPE_CJK_COMPATIBILITY
    } else if 0x3400 <= c && c <= 0x4DBF {
        CTYPE_CJK_UNIFIED_IDEOGRAPHS_EXTENSION_A
    } else if 0x4DC0 <= c && c <= 0x4DFF {
        CTYPE_YIJING_HEXAGRAM_SYMBOLS
    } else if 0x4E00 <= c && c <= 0x9FFF {
        CTYPE_CJK_UNIFIED_IDEOGRAPHS
    } else if 0xA000 <= c && c <= 0xA48F {
        CTYPE_YI_SYLLABLES
    } else if 0xA490 <= c && c <= 0xA4CF {
        CTYPE_YI_RADICALS
    } else if 0xA4D0 <= c && c <= 0xA4FF {
        CTYPE_LISU
    } else if 0xA500 <= c && c <= 0xA63F {
        CTYPE_VAI
    } else if 0xA640 <= c && c <= 0xA69F {
        CTYPE_CYRILLIC_EXTENDED_B
    } else if 0xA6A0 <= c && c <= 0xA6FF {
        CTYPE_BAMUM
    } else if 0xA700 <= c && c <= 0xA71F {
        CTYPE_MODIFIER_TONE_LETTERS
    } else if 0xA720 <= c && c <= 0xA7FF {
        CTYPE_LATIN_EXTENDED_D
    } else if 0xA800 <= c && c <= 0xA82F {
        CTYPE_SYLOTI_NAGRI
    } else if 0xA830 <= c && c <= 0xA83F {
        CTYPE_COMMON_INDIC_NUMBER_FORMS
    } else if 0xA840 <= c && c <= 0xA87F {
        CTYPE_PHAGS_PA
    } else if 0xA880 <= c && c <= 0xA8DF {
        CTYPE_SAURASHTRA
    } else if 0xA8E0 <= c && c <= 0xA8FF {
        CTYPE_DEVANAGARI_EXTENDED
    } else if 0xA900 <= c && c <= 0xA92F {
        CTYPE_KAYAH_LI
    } else if 0xA930 <= c && c <= 0xA95F {
        CTYPE_REJANG
    } else if 0xA960 <= c && c <= 0xA97F {
        CTYPE_HANGUL_JAMO_EXTENDED_A
    } else if 0xA980 <= c && c <= 0xA9DF {
        CTYPE_JAVANESE
    } else if 0xA9E0 <= c && c <= 0xA9FF {
        CTYPE_MYANMAR_EXTENDED_B
    } else if 0xAA00 <= c && c <= 0xAA5F {
        CTYPE_CHAM
    } else if 0xAA60 <= c && c <= 0xAA7F {
        CTYPE_MYANMAR_EXTENDED_A
    } else if 0xAA80 <= c && c <= 0xAADF {
        CTYPE_TAI_VIET
    } else if 0xAAE0 <= c && c <= 0xAAFF {
        CTYPE_MEETEI_MAYEK_EXTENSIONS
    } else if 0xAB00 <= c && c <= 0xAB2F {
        CTYPE_ETHIOPIC_EXTENDED_A
    } else if 0xAB30 <= c && c <= 0xAB6F {
        CTYPE_LATIN_EXTENDED_E
    } else if 0xAB70 <= c && c <= 0xABBF {
        CTYPE_CHEROKEE_SUPPLEMENT
    } else if 0xABC0 <= c && c <= 0xABFF {
        CTYPE_MEETEI_MAYEK
    } else if 0xAC00 <= c && c <= 0xD7AF {
        CTYPE_HANGUL_SYLLABLES
    } else if 0xD7B0 <= c && c <= 0xD7FF {
        CTYPE_HANGUL_JAMO_EXTENDED_B
    } else if 0xD800 <= c && c <= 0xDB7F {
        CTYPE_HIGH_SURROGATES
    } else if 0xDB80 <= c && c <= 0xDBFF {
        CTYPE_HIGH_PRIVATE_USE_SURROGATES
    } else if 0xDC00 <= c && c <= 0xDFFF {
        CTYPE_LOW_SURROGATES
    } else if 0xE000 <= c && c <= 0xF8FF {
        CTYPE_PRIVATE_USE_AREA
    } else if 0xF900 <= c && c <= 0xFAFF {
        CTYPE_CJK_COMPATIBILITY_IDEOGRAPHS
    } else if 0xFB00 <= c && c <= 0xFB4F {
        CTYPE_ALPHABETIC_PRESENTATION_FORMS
    } else if 0xFB50 <= c && c <= 0xFDFF {
        CTYPE_ARABIC_PRESENTATION_FORMS_A
    } else if 0xFE00 <= c && c <= 0xFE0F {
        CTYPE_VARIATION_SELECTORS
    } else if 0xFE10 <= c && c <= 0xFE1F {
        CTYPE_VERTICAL_FORMS
    } else if 0xFE20 <= c && c <= 0xFE2F {
        CTYPE_COMBINING_HALF_MARKS
    } else if 0xFE30 <= c && c <= 0xFE4F {
        CTYPE_CJK_COMPATIBILITY_FORMS
    } else if 0xFE50 <= c && c <= 0xFE6F {
        CTYPE_SMALL_FORM_VARIANTS
    } else if 0xFE70 <= c && c <= 0xFEFF {
        CTYPE_ARABIC_PRESENTATION_FORMS_B
    } else if 0xFF00 <= c && c <= 0xFFEF {
        CTYPE_HALFWIDTH_AND_FULLWIDTH_FORMS
    } else if 0xFFF0 <= c && c <= 0xFFFF {
        CTYPE_SPECIALS
    } else if 0x10000 <= c && c <= 0x1007F {
        CTYPE_LINEAR_B_SYLLABARY
    } else if 0x10080 <= c && c <= 0x100FF {
        CTYPE_LINEAR_B_IDEOGRAMS
    } else if 0x10100 <= c && c <= 0x1013F {
        CTYPE_AEGEAN_NUMBERS
    } else if 0x10140 <= c && c <= 0x1018F {
        CTYPE_ANCIENT_GREEK_NUMBERS
    } else if 0x10190 <= c && c <= 0x101CF {
        CTYPE_ANCIENT_SYMBOLS
    } else if 0x101D0 <= c && c <= 0x101FF {
        CTYPE_PHAISTOS_DISC
    } else if 0x10280 <= c && c <= 0x1029F {
        CTYPE_LYCIAN
    } else if 0x102A0 <= c && c <= 0x102DF {
        CTYPE_CARIAN
    } else if 0x102E0 <= c && c <= 0x102FF {
        CTYPE_COPTIC_EPACT_NUMBERS
    } else if 0x10300 <= c && c <= 0x1032F {
        CTYPE_OLD_ITALIC
    } else if 0x10330 <= c && c <= 0x1034F {
        CTYPE_GOTHIC
    } else if 0x10350 <= c && c <= 0x1037F {
        CTYPE_OLD_PERMIC
    } else if 0x10380 <= c && c <= 0x1039F {
        CTYPE_UGARITIC
    } else if 0x103A0 <= c && c <= 0x103DF {
        CTYPE_OLD_PERSIAN
    } else if 0x10400 <= c && c <= 0x1044F {
        CTYPE_DESERET
    } else if 0x10450 <= c && c <= 0x1047F {
        CTYPE_SHAVIAN
    } else if 0x10480 <= c && c <= 0x104AF {
        CTYPE_OSMANYA
    } else if 0x104B0 <= c && c <= 0x104FF {
        CTYPE_OSAGE
    } else if 0x10500 <= c && c <= 0x1052F {
        CTYPE_ELBASAN
    } else if 0x10530 <= c && c <= 0x1056F {
        CTYPE_CAUCASIAN_ALBANIAN
    } else if 0x10600 <= c && c <= 0x1077F {
        CTYPE_LINEAR_A
    } else if 0x10800 <= c && c <= 0x1083F {
        CTYPE_CYPRIOT_SYLLABARY
    } else if 0x10840 <= c && c <= 0x1085F {
        CTYPE_IMPERIAL_ARAMAIC
    } else if 0x10860 <= c && c <= 0x1087F {
        CTYPE_PALMYRENE
    } else if 0x10880 <= c && c <= 0x108AF {
        CTYPE_NABATAEAN
    } else if 0x108E0 <= c && c <= 0x108FF {
        CTYPE_HATRAN
    } else if 0x10900 <= c && c <= 0x1091F {
        CTYPE_PHOENICIAN
    } else if 0x10920 <= c && c <= 0x1093F {
        CTYPE_LYDIAN
    } else if 0x10980 <= c && c <= 0x1099F {
        CTYPE_MEROITIC_HIEROGLYPHS
    } else if 0x109A0 <= c && c <= 0x109FF {
        CTYPE_MEROITIC_CURSIVE
    } else if 0x10A00 <= c && c <= 0x10A5F {
        CTYPE_KHAROSHTHI
    } else if 0x10A60 <= c && c <= 0x10A7F {
        CTYPE_OLD_SOUTH_ARABIAN
    } else if 0x10A80 <= c && c <= 0x10A9F {
        CTYPE_OLD_NORTH_ARABIAN
    } else if 0x10AC0 <= c && c <= 0x10AFF {
        CTYPE_MANICHAEAN
    } else if 0x10B00 <= c && c <= 0x10B3F {
        CTYPE_AVESTAN
    } else if 0x10B40 <= c && c <= 0x10B5F {
        CTYPE_INSCRIPTIONAL_PARTHIAN
    } else if 0x10B60 <= c && c <= 0x10B7F {
        CTYPE_INSCRIPTIONAL_PAHLAVI
    } else if 0x10B80 <= c && c <= 0x10BAF {
        CTYPE_PSALTER_PAHLAVI
    } else if 0x10C00 <= c && c <= 0x10C4F {
        CTYPE_OLD_TURKIC
    } else if 0x10C80 <= c && c <= 0x10CFF {
        CTYPE_OLD_HUNGARIAN
    } else if 0x10E60 <= c && c <= 0x10E7F {
        CTYPE_RUMI_NUMERAL_SYMBOLS
    } else if 0x11000 <= c && c <= 0x1107F {
        CTYPE_BRAHMI
    } else if 0x11080 <= c && c <= 0x110CF {
        CTYPE_KAITHI
    } else if 0x110D0 <= c && c <= 0x110FF {
        CTYPE_SORA_SOMPENG
    } else if 0x11100 <= c && c <= 0x1114F {
        CTYPE_CHAKMA
    } else if 0x11150 <= c && c <= 0x1117F {
        CTYPE_MAHAJANI
    } else if 0x11180 <= c && c <= 0x111DF {
        CTYPE_SHARADA
    } else if 0x111E0 <= c && c <= 0x111FF {
        CTYPE_SINHALA_ARCHAIC_NUMBERS
    } else if 0x11200 <= c && c <= 0x1124F {
        CTYPE_KHOJKI
    } else if 0x11280 <= c && c <= 0x112AF {
        CTYPE_MULTANI
    } else if 0x112B0 <= c && c <= 0x112FF {
        CTYPE_KHUDAWADI
    } else if 0x11300 <= c && c <= 0x1137F {
        CTYPE_GRANTHA
    } else if 0x11400 <= c && c <= 0x1147F {
        CTYPE_NEWA
    } else if 0x11480 <= c && c <= 0x114DF {
        CTYPE_TIRHUTA
    } else if 0x11580 <= c && c <= 0x115FF {
        CTYPE_SIDDHAM
    } else if 0x11600 <= c && c <= 0x1165F {
        CTYPE_MODI
    } else if 0x11660 <= c && c <= 0x1167F {
        CTYPE_MONGOLIAN_SUPPLEMENT
    } else if 0x11680 <= c && c <= 0x116CF {
        CTYPE_TAKRI
    } else if 0x11700 <= c && c <= 0x1173F {
        CTYPE_AHOM
    } else if 0x118A0 <= c && c <= 0x118FF {
        CTYPE_WARANG_CITI
    } else if 0x11A00 <= c && c <= 0x11A4F {
        CTYPE_ZANABAZAR_SQUARE
    } else if 0x11A50 <= c && c <= 0x11AAF {
        CTYPE_SOYOMBO
    } else if 0x11AC0 <= c && c <= 0x11AFF {
        CTYPE_PAU_CIN_HAU
    } else if 0x11C00 <= c && c <= 0x11C6F {
        CTYPE_BHAIKSUKI
    } else if 0x11C70 <= c && c <= 0x11CBF {
        CTYPE_MARCHEN
    } else if 0x11D00 <= c && c <= 0x11D5F {
        CTYPE_MASARAM_GONDI
    } else if 0x12000 <= c && c <= 0x123FF {
        CTYPE_CUNEIFORM
    } else if 0x12400 <= c && c <= 0x1247F {
        CTYPE_CUNEIFORM_NUMBERS_AND_PUNCTUATION
    } else if 0x12480 <= c && c <= 0x1254F {
        CTYPE_EARLY_DYNASTIC_CUNEIFORM
    } else if 0x13000 <= c && c <= 0x1342F {
        CTYPE_EGYPTIAN_HIEROGLYPHS
    } else if 0x14400 <= c && c <= 0x1467F {
        CTYPE_ANATOLIAN_HIEROGLYPHS
    } else if 0x16800 <= c && c <= 0x16A3F {
        CTYPE_BAMUM_SUPPLEMENT
    } else if 0x16A40 <= c && c <= 0x16A6F {
        CTYPE_MRO
    } else if 0x16AD0 <= c && c <= 0x16AFF {
        CTYPE_BASSA_VAH
    } else if 0x16B00 <= c && c <= 0x16B8F {
        CTYPE_PAHAWH_HMONG
    } else if 0x16F00 <= c && c <= 0x16F9F {
        CTYPE_MIAO
    } else if 0x16FE0 <= c && c <= 0x16FFF {
        CTYPE_IDEOGRAPHIC_SYMBOLS_AND_PUNCTUATION
    } else if 0x17000 <= c && c <= 0x187FF {
        CTYPE_TANGUT
    } else if 0x18800 <= c && c <= 0x18AFF {
        CTYPE_TANGUT_COMPONENTS
    } else if 0x1B000 <= c && c <= 0x1B0FF {
        CTYPE_KANA_SUPPLEMENT
    } else if 0x1B100 <= c && c <= 0x1B12F {
        CTYPE_KANA_EXTENDED_A
    } else if 0x1B170 <= c && c <= 0x1B2FF {
        CTYPE_NUSHU
    } else if 0x1BC00 <= c && c <= 0x1BC9F {
        CTYPE_DUPLOYAN
    } else if 0x1BCA0 <= c && c <= 0x1BCAF {
        CTYPE_SHORTHAND_FORMAT_CONTROLS
    } else if 0x1D000 <= c && c <= 0x1D0FF {
        CTYPE_BYZANTINE_MUSICAL_SYMBOLS
    } else if 0x1D100 <= c && c <= 0x1D1FF {
        CTYPE_MUSICAL_SYMBOLS
    } else if 0x1D200 <= c && c <= 0x1D24F {
        CTYPE_ANCIENT_GREEK_MUSICAL_NOTATION
    } else if 0x1D300 <= c && c <= 0x1D35F {
        CTYPE_TAI_XUAN_JING_SYMBOLS
    } else if 0x1D360 <= c && c <= 0x1D37F {
        CTYPE_COUNTING_ROD_NUMERALS
    } else if 0x1D400 <= c && c <= 0x1D7FF {
        CTYPE_MATHEMATICAL_ALPHANUMERIC_SYMBOLS
    } else if 0x1D800 <= c && c <= 0x1DAAF {
        CTYPE_SUTTON_SIGNWRITING
    } else if 0x1E000 <= c && c <= 0x1E02F {
        CTYPE_GLAGOLITIC_SUPPLEMENT
    } else if 0x1E800 <= c && c <= 0x1E8DF {
        CTYPE_MENDE_KIKAKUI
    } else if 0x1E900 <= c && c <= 0x1E95F {
        CTYPE_ADLAM
    } else if 0x1EE00 <= c && c <= 0x1EEFF {
        CTYPE_ARABIC_MATHEMATICAL_ALPHABETIC_SYMBOLS
    } else if 0x1F000 <= c && c <= 0x1F02F {
        CTYPE_MAHJONG_TILES
    } else if 0x1F030 <= c && c <= 0x1F09F {
        CTYPE_DOMINO_TILES
    } else if 0x1F0A0 <= c && c <= 0x1F0FF {
        CTYPE_PLAYING_CARDS
    } else if 0x1F100 <= c && c <= 0x1F1FF {
        CTYPE_ENCLOSED_ALPHANUMERIC_SUPPLEMENT
    } else if 0x1F200 <= c && c <= 0x1F2FF {
        CTYPE_ENCLOSED_IDEOGRAPHIC_SUPPLEMENT
    } else if 0x1F300 <= c && c <= 0x1F5FF {
        CTYPE_MISCELLANEOUS_SYMBOLS_AND_PICTOGRAPHS
    } else if 0x1F600 <= c && c <= 0x1F64F {
        CTYPE_EMOTICONS
    } else if 0x1F650 <= c && c <= 0x1F67F {
        CTYPE_ORNAMENTAL_DINGBATS
    } else if 0x1F680 <= c && c <= 0x1F6FF {
        CTYPE_TRANSPORT_AND_MAP_SYMBOLS
    } else if 0x1F700 <= c && c <= 0x1F77F {
        CTYPE_ALCHEMICAL_SYMBOLS
    } else if 0x1F780 <= c && c <= 0x1F7FF {
        CTYPE_GEOMETRIC_SHAPES_EXTENDED
    } else if 0x1F800 <= c && c <= 0x1F8FF {
        CTYPE_SUPPLEMENTAL_ARROWS_C
    } else if 0x1F900 <= c && c <= 0x1F9FF {
        CTYPE_SUPPLEMENTAL_SYMBOLS_AND_PICTOGRAPHS
    } else if 0x20000 <= c && c <= 0x2A6DF {
        CTYPE_CJK_UNIFIED_IDEOGRAPHS_EXTENSION_B
    } else if 0x2A700 <= c && c <= 0x2B73F {
        CTYPE_CJK_UNIFIED_IDEOGRAPHS_EXTENSION_C
    } else if 0x2B740 <= c && c <= 0x2B81F {
        CTYPE_CJK_UNIFIED_IDEOGRAPHS_EXTENSION_D
    } else if 0x2B820 <= c && c <= 0x2CEAF {
        CTYPE_CJK_UNIFIED_IDEOGRAPHS_EXTENSION_E
    } else if 0x2CEB0 <= c && c <= 0x2EBEF {
        CTYPE_CJK_UNIFIED_IDEOGRAPHS_EXTENSION_F
    } else if 0x2F800 <= c && c <= 0x2FA1F {
        CTYPE_CJK_COMPATIBILITY_IDEOGRAPHS_SUPPLEMENT
    } else if 0xE0000 <= c && c <= 0xE007F {
        CTYPE_TAGS
    } else if 0xE0100 <= c && c <= 0xE01EF {
        CTYPE_VARIATION_SELECTORS_SUPPLEMENT
    } else if 0xF0000 <= c && c <= 0xFFFFF {
        CTYPE_SUPPLEMENTARY_PRIVATE_USE_AREA_A
    } else if 0x100000 <= c && c <= 0x10FFFF {
        CTYPE_SUPPLEMENTARY_PRIVATE_USE_AREA_B
    } else {
        CTYPE_UNKNOWN
    }
}

/// Classifies a character into its Unicode block category.
pub fn detect_ctype(ch: char) -> (r: usize)
    ensures
        r == spec_detect_ctype(ch),
{
    let c: u32 = ch as u32;
    if c <= 0x007F {
        CTYPE_BASIC_LATIN
    } else if 0x0080 <= c && c <= 0x00FF {
        CTYPE_LATIN_1_SUPPLEMENT
    } else if 0x0100 <= c && c <= 0x017F {
        CTYPE_LATIN_EXTENDED_A
    } else if 0x0180 <= c && c <= 0x024F {
        CTYPE_LATIN_EXTENDED_B
    } else if 0x0250 <= c && c <= 0x02AF {
        CTYPE_IPA_EXTENSIONS
    } else if 0x02B0 <= c && c <= 0x02FF {
        CTYPE_SPACING_MODIFIER_LETTERS
    } else if 0x0300 <= c && c <= 0x036F {
        CTYPE_COMBINING_DIACRITICAL_MARKS
    } else if 0x0370 <= c && c <= 0x03FF {
        CTYPE_GREEK_AND_COPTIC
    } else if 0x0400 <= c && c <= 0x04FF {
        CTYPE_CYRILLIC
    } else if 0x0500 <= c && c <= 0x052F {
        CTYPE_CYRILLIC_SUPPLEMENT
    } else if 0x0530 <= c && c <= 0x058F {
        CTYPE_ARMENIAN
    } else if 0x0590 <= c && c <= 0x05FF {
        CTYPE_HEBREW
    } else if 0x0600 <= c && c <= 0x06FF {
        CTYPE_ARABIC
    } else if 0x0700 <= c && c <= 0x074F {
        CTYPE_SYRIAC
    } else if 0x0750 <= c && c <= 0x077F {
        CTYPE_ARABIC_SUPPLEMENT
    } else if 0x0780 <= c && c <= 0x07BF {
        CTYPE_THAANA
    } else if 0x07C0 <= c && c <= 0x07FF {
        CTYPE_NKO
    } else if 0x0800 <= c && c <= 0x083F {
        CTYPE_SAMARITAN
    } else if 0x0840 <= c && c <= 0x085F {
        CTYPE_MANDAIC
    } else if 0x0860 <= c && c <= 0x086F {
        CTYPE_SYRIAC_SUPPLEMENT
    } else if 0x08A0 <= c && c <= 0x08FF {
        CTYPE_ARABIC_EXTENDED_A
    } else if 0x0900 <= c && c <= 0x097F {
        CTYPE_DEVANAGARI
    } else if 0x0980 <= c && c <= 0x09FF {
        CTYPE_BENGALI
    } else if 0x0A00 <= c && c <= 0x0A7F {
        CTYPE_GURMUKHI
    } else if 0x0A80 <= c && c <= 0x0AFF {
        CTYPE_GUJARATI
    } else if 0x0B00 <= c && c <= 0x0B7F {
        CTYPE_ORIYA
    } else if 0x0B80 <= c && c <= 0x0BFF {
        CTYPE_TAMIL
    } else if 0x0C00 <= c && c <= 0x0C7F {
        CTYPE_TELUGU
    } else if 0x0C80 <= c && c <= 0x0CFF {
        CTYPE_KANNADA
    } else if 0x0D00 <= c && c <= 0x0D7F {
        CTYPE_MALAYALAM
    } else if 0x0D80 <= c && c <= 0x0DFF {
        CTYPE_SINHALA
    } else if 0x0E00 <= c && c <= 0x0E7F {
        CTYPE_THAI
    } else if 0x0E80 <= c && c <= 0x0EFF {
        CTYPE_LAO
    } else if 0x0F00 <= c && c <= 0x0FFF {
        CTYPE_TIBETAN
    } else if 0x1000 <= c && c <= 0x109F {
        CTYPE_MYANMAR
    } else if 0x10A0 <= c && c <= 0x10FF {
        CTYPE_GEORGIAN
    } else if 0x1100 <= c && c <= 0x11FF {
        CTYPE_HANGUL_JAMO
    } else if 0x1200 <= c && c <= 0x137F {
        CTYPE_ETHIOPIC
    } else if 0x1380 <= c && c <= 0x139F {
        CTYPE_ETHIOPIC_SUPPLEMENT
    } else if 0x13A0 <= c && c <= 0x13FF {
        CTYPE_CHEROKEE
    } else if 0x1400 <= c && c <= 0x167F {
        CTYPE_UNIFIED_CANADIAN_ABORIGINAL_SYLLABICS
    } else if 0x1680 <= c && c <= 0x169F {
        CTYPE_OGHAM
    } else if 0x16A0 <= c && c <= 0x16FF {
        CTYPE_RUNIC
    } else if 0x1700 <= c && c <= 0x171F {
        CTYPE_TAGALOG
    } else if 0x1720 <= c && c <= 0x173F {
        CTYPE_HANUNOO
    } else if 0x1740 <= c && c <= 0x175F {
        CTYPE_BUHID
    } else if 0x1760 <= c && c <= 0x177F {
        CTYPE_TAGBANWA
    } else if 0x1780 <= c && c <= 0x17FF {
        CTYPE_KHMER
    } else if 0x1800 <= c && c <= 0x18AF {
        CTYPE_MONGOLIAN
    } else if 0x18B0 <= c && c <= 0x18FF {
        CTYPE_UNIFIED_CANADIAN_ABORIGINAL_SYLLABICS_EXTENDED
    } else if 0x1900 <= c && c <= 0x194F {
        CTYPE_LIMBU
    } else if 0x1950 <= c && c <= 0x197F {
        CTYPE_TAI_LE
    } else if 0x1980 <= c && c <= 0x19DF {
        CTYPE_NEW_TAI_LUE
    } else if 0x19E0 <= c && c <= 0x19FF {
        CTYPE_KHMER_SYMBOLS
    } else if 0x1A00 <= c && c <= 0x1A1F {
        CTYPE_BUGINESE
    } else if 0x1A20 <= c && c <= 0x1AAF {
        CTYPE_TAI_THAM
    } else if 0x1AB0 <= c && c <= 0x1AFF {
        CTYPE_COMBINING_DIACRITICAL_MARKS_EXTENDED
    } else if 0x1B00 <= c && c <= 0x1B7F {
        CTYPE_BALINESE
    } else if 0x1B80 <= c && c <= 0x1BBF {
        CTYPE_SUNDANESE
    } else if 0x1BC0 <= c && c <= 0x1BFF {
        CTYPE_BATAK
    } else if 0x1C00 <= c && c <= 0x1C4F {
        CTYPE_LEPCHA
    } else if 0x1C50 <= c && c <= 0x1C7F {
        CTYPE_OL_CHIKI
    } else if 0x1C80 <= c && c <= 0x1C8F {
        CTYPE_CYRILLIC_EXTENDED_C
    } else if 0x1CC0 <= c && c <= 0x1CCF {
        CTYPE_SUNDANESE_SUPPLEMENT
    } else if 0x1CD0 <= c && c <= 0x1CFF {
        CTYPE_VEDIC_EXTENSIONS
    } else if 0x1D00 <= c && c <= 0x1D7F {
        CTYPE_PHONETIC_EXTENSIONS
    } else if 0x1D80 <= c && c <= 0x1DBF {
        CTYPE_PHONETIC_EXTENSIONS_SUPPLEMENT
    } else if 0x1DC0 <= c && c <= 0x1DFF {
        CTYPE_COMBINING_DIACRITICAL_MARKS_SUPPLEMENT
    } else if 0x1E00 <= c && c <= 0x1EFF {
        CTYPE_LATIN_EXTENDED_ADDITIONAL
    } else if 0x1F00 <= c && c <= 0x1FFF {
        CTYPE_GREEK_EXTENDED
    } else if 0x2000 <= c && c <= 0x206F {
        CTYPE_GENERAL_PUNCTUATION
    } else if 0x2070 <= c && c <= 0x209F {
        CTYPE_SUPERSCRIPTS_AND_SUBSCRIPTS
    } else if 0x20A0 <= c && c <= 0x20CF {
        CTYPE_CURRENCY_SYMBOLS
    } else if 0x20D0 <= c && c <= 0x20FF {
        CTYPE_COMBINING_DIACRITICAL_MARKS_FOR_SYMBOLS
    } else if 0x2100 <= c && c <= 0x214F {
        CTYPE_LETTERLIKE_SYMBOLS
    } else if 0x2150 <= c && c <= 0x218F {
        CTYPE_NUMBER_FORMS
    } else if 0x2190 <= c && c <= 0x21FF {
        CTYPE_ARROWS
    } else if 0x2200 <= c && c <= 0x22FF {
        CTYPE_MATHEMATICAL_OPERATORS
    } else if 0x2300 <= c && c <= 0x23FF {
        CTYPE_MISCELLANEOUS_TECHNICAL
    } else if 0x2400 <= c && c <= 0x243F {
        CTYPE_CONTROL_PICTURES
    } else if 0x2440 <= c && c <= 0x245F {
        CTYPE_OPTICAL_CHARACTER_RECOGNITION
    } else if 0x2460 <= c && c <= 0x24FF {
        CTYPE_ENCLOSED_ALPHANUMERICS
    } else if 0x2500 <= c && c <= 0x257F {
        CTYPE_BOX_DRAWING
    } else if 0x2580 <= c && c <= 0x259F {
        CTYPE_BLOCK_ELEMENTS
    } else if 0x25A0 <= c && c <= 0x25FF {
        CTYPE_GEOMETRIC_SHAPES
    } else if 0x2600 <= c && c <= 0x26FF {
        CTYPE_MISCELLANEOUS_SYMBOLS
    } else if 0x2700 <= c && c <= 0x27BF {
        CTYPE_DINGBATS
    } else if 0x27C0 <= c && c <= 0x27EF {
        CTYPE_MISCELLANEOUS_MATHEMATICAL_SYMBOLS_A
    } else if 0x27F0 <= c && c <= 0x27FF {
        CTYPE_SUPPLEMENTAL_ARROWS_A
    } else if 0x2800 <= c && c <= 0x28FF {
        CTYPE_BRAILLE_PATTERNS
    } else if 0x2900 <= c && c <= 0x297F {
        CTYPE_SUPPLEMENTAL_ARROWS_B
    } else if 0x2980 <= c && c <= 0x29FF {
        CTYPE_MISCELLANEOUS_MATHEMATICAL_SYMBOLS_B
    } else if 0x2A00 <= c && c <= 0x2AFF {
        CTYPE_SUPPLEMENTAL_MATHEMATICAL_OPERATORS
    } else if 0x2B00 <= c && c <= 0x2BFF {
        CTYPE_MISCELLANEOUS_SYMBOLS_AND_ARROWS
    } else if 0x2C00 <= c && c <= 0x2C5F {
        CTYPE_GLAGOLITIC
    } else if 0x2C60 <= c && c <= 0x2C7F {
        CTYPE_LATIN_EXTENDED_C
    } else if 0x2C80 <= c && c <= 0x2CFF {
        CTYPE_COPTIC
    } else if 0x2D00 <= c && c <= 0x2D2F {
        CTYPE_GEORGIAN_SUPPLEMENT
    } else if 0x2D30 <= c && c <= 0x2D7F {
        CTYPE_TIFINAGH
    } else if 0x2D80 <= c && c <= 0x2DDF {
        CTYPE_ETHIOPIC_EXTENDED
    } else if 0x2DE0 <= c && c <= 0x2DFF {
        CTYPE_CYRILLIC_EXTENDED_A
    } else if 0x2E00 <= c && c <= 0x2E7F {
        CTYPE_SUPPLEMENTAL_PUNCTUATION
    } else if 0x2E80 <= c && c <= 0x2EFF {
        CTYPE_CJK_RADICALS_SUPPLEMENT
    } else if 0x2F00 <= c && c <= 0x2FDF {
        CTYPE_KANGXI_RADICALS
    } else if 0x2FF0 <= c && c <= 0x2FFF {
        CTYPE_IDEOGRAPHIC_DESCRIPTION_CHARACTERS
    } else if 0x3000 <= c && c <= 0x303F {
        CTYPE_CJK_SYMBOLS_AND_PUNCTUATION
    } else if 0x3040 <= c && c <= 0x309F {
        CTYPE_HIRAGANA
    } else if 0x30A0 <= c && c <= 0x30FF {
        CTYPE_KATAKANA
    } else if 0x3100 <= c && c <= 0x312F {
        CTYPE_BOPOMOFO
    } else if 0x3130 <= c && c <= 0x318F {
        CTYPE_HANGUL_COMPATIBILITY_JAMO
    } else if 0x3190 <= c && c <= 0x319F {
        CTYPE_KANBUN
    } else if 0x31A0 <= c && c <= 0x31BF {
        CTYPE_BOPOMOFO_EXTENDED
    } else if 0x31C0 <= c && c <= 0x31EF {
        CTYPE_CJK_STROKES
    } else if 0x31F0 <= c && c <= 0x31FF {
        CTYPE_KATAKANA_PHONETIC_EXTENSIONS
    } else if 0x3200 <= c && c <= 0x32FF {
        CTYPE_ENCLOSED_CJK_LETTERS_AND_MONTHS
    } else if 0x3300 <= c && c <= 0x33FF {
        CTYPE_CJK_COMPATIBILITY
    } else if 0x3400 <= c && c <= 0x4DBF {
        CTYPE_CJK_UNIFIED_IDEOGRAPHS_EXTENSION_A
    } else if 0x4DC0 <= c && c <= 0x4DFF {
        CTYPE_YIJING_HEXAGRAM_SYMBOLS
    } else if 0x4E00 <= c && c <= 0x9FFF {
        CTYPE_CJK_UNIFIED_IDEOGRAPHS
    } else if 0xA000 <= c && c <= 0xA48F {
        CTYPE_YI_SYLLABLES
    } else if 0xA490 <= c && c <= 0xA4CF {
        CTYPE_YI_RADICALS
    } else if 0xA4D0 <= c && c <= 0xA4FF {
        CTYPE_LISU
    } else if 0xA500 <= c && c <= 0xA63F {
        CTYPE_VAI
    } else if 0xA640 <= c && c <= 0xA69F {
        CTYPE_CYRILLIC_EXTENDED_B
    } else if 0xA6A0 <= c && c <= 0xA6FF {
        CTYPE_BAMUM
    } else if 0xA700 <= c && c <= 0xA71F {
        CTYPE_MODIFIER_TONE_LETTERS
    } else if 0xA720 <= c && c <= 0xA7FF {
        CTYPE_LATIN_EXTENDED_D
    } else if 0xA800 <= c && c <= 0xA82F {
        CTYPE_SYLOTI_NAGRI
    } else if 0xA830 <= c && c <= 0xA83F {
        CTYPE_COMMON_INDIC_NUMBER_FORMS
    } else if 0xA840 <= c && c <= 0xA87F {
        CTYPE_PHAGS_PA
    } else if 0xA880 <= c && c <= 0xA8DF {
        CTYPE_SAURASHTRA
    } else if 0xA8E0 <= c && c <= 0xA8FF {
        CTYPE_DEVANAGARI_EXTENDED
    } else if 0xA900 <= c && c <= 0xA92F {
        CTYPE_KAYAH_LI
    } else if 0xA930 <= c && c <= 0xA95F {
        CTYPE_REJANG
    } else if 0xA960 <= c && c <= 0xA97F {
        CTYPE_HANGUL_JAMO_EXTENDED_A
    } else if 0xA980 <= c && c <= 0xA9DF {
        CTYPE_JAVANESE
    } else if 0xA9E0 <= c && c <= 0xA9FF {
        CTYPE_MYANMAR_EXTENDED_B
    } else if 0xAA00 <= c && c <= 0xAA5F {
        CTYPE_CHAM
    } else if 0xAA60 <= c && c <= 0xAA7F {
        CTYPE_MYANMAR_EXTENDED_A
    } else if 0xAA80 <= c && c <= 0xAADF {
        CTYPE_TAI_VIET
    } else if 0xAAE0 <= c && c <= 0xAAFF {
        CTYPE_MEETEI_MAYEK_EXTENSIONS
    } else if 0xAB00 <= c && c <= 0xAB2F {
        CTYPE_ETHIOPIC_EXTENDED_A
    } else if 0xAB30 <= c && c <= 0xAB6F {
        CTYPE_LATIN_EXTENDED_E
    } else if 0xAB70 <= c && c <= 0xABBF {
        CTYPE_CHEROKEE_SUPPLEMENT
    } else if 0xABC0 <= c && c <= 0xABFF {
        CTYPE_MEETEI_MAYEK
    } else if 0xAC00 <= c && c <= 0xD7AF {
        CTYPE_HANGUL_SYLLABLES
    } else if 0xD7B0 <= c && c <= 0xD7FF {
        CTYPE_HANGUL_JAMO_EXTENDED_B
    } else if 0xD800 <= c && c <= 0xDB7F {
        CTYPE_HIGH_SURROGATES
    } else if 0xDB80 <= c && c <= 0xDBFF {
        CTYPE_HIGH_PRIVATE_USE_SURROGATES
    } else if 0xDC00 <= c && c <= 0xDFFF {
        CTYPE_LOW_SURROGATES
    } else if 0xE000 <= c && c <= 0xF8FF {
        CTYPE_PRIVATE_USE_AREA
    } else if 0xF900 <= c && c <= 0xFAFF {
        CTYPE_CJK_COMPATIBILITY_IDEOGRAPHS
    } else if 0xFB00 <= c && c <= 0xFB4F {
        CTYPE_ALPHABETIC_PRESENTATION_FORMS
    } else if 0xFB50 <= c && c <= 0xFDFF {
        CTYPE_ARABIC_PRESENTATION_FORMS_A
    } else if 0xFE00 <= c && c <= 0xFE0F {
        CTYPE_VARIATION_SELECTORS
    } else if 0xFE10 <= c && c <= 0xFE1F {
        CTYPE_VERTICAL_FORMS
    } else if 0xFE20 <= c && c <= 0xFE2F {
        CTYPE_COMBINING_HALF_MARKS
    } else if 0xFE30 <= c && c <= 0xFE4F {
        CTYPE_CJK_COMPATIBILITY_FORMS
    } else if 0xFE50 <= c && c <= 0xFE6F {
        CTYPE_SMALL_FORM_VARIANTS
    } else if 0xFE70 <= c && c <= 0xFEFF {
        CTYPE_ARABIC_PRESENTATION_FORMS_B
    } else if 0xFF00 <= c && c <= 0xFFEF {
        CTYPE_HALFWIDTH_AND_FULLWIDTH_FORMS
    } else if 0xFFF0 <= c && c <= 0xFFFF {
        CTYPE_SPECIALS
    } else if 0x10000 <= c && c <= 0x1007F {
        CTYPE_LINEAR_B_SYLLABARY
    } else if 0x10080 <= c && c <= 0x100FF {
        CTYPE_LINEAR_B_IDEOGRAMS
    } else if 0x10100 <= c && c <= 0x1013F {
        CTYPE_AEGEAN_NUMBERS
    } else if 0x10140 <= c && c <= 0x1018F {
        CTYPE_ANCIENT_GREEK_NUMBERS
    } else if 0x10190 <= c && c <= 0x101CF {
        CTYPE_ANCIENT_SYMBOLS
    } else if 0x101D0 <= c && c <= 0x101FF {
        CTYPE_PHAISTOS_DISC
    } else if 0x10280 <= c && c <= 0x1029F {
        CTYPE_LYCIAN
    } else if 0x102A0 <= c && c <= 0x102DF {
        CTYPE_CARIAN
    } else if 0x102E0 <= c && c <= 0x102FF {
        CTYPE_COPTIC_EPACT_NUMBERS
    } else if 0x10300 <= c && c <= 0x1032F {
        CTYPE_OLD_ITALIC
    } else if 0x10330 <= c && c <= 0x1034F {
        CTYPE_GOTHIC
    } else if 0x10350 <= c && c <= 0x1037F {
        CTYPE_OLD_PERMIC
    } else if 0x10380 <= c && c <= 0x1039F {
        CTYPE_UGARITIC
    } else if 0x103A0 <= c && c <= 0x103DF {
        CTYPE_OLD_PERSIAN
    } else if 0x10400 <= c && c <= 0x1044F {
        CTYPE_DESERET
    } else if 0x10450 <= c && c <= 0x1047F {
        CTYPE_SHAVIAN
    } else if 0x10480 <= c && c <= 0x104AF {
        CTYPE_OSMANYA
    } else if 0x104B0 <= c && c <= 0x104FF {
        CTYPE_OSAGE
    } else if 0x10500 <= c && c <= 0x1052F {
        CTYPE_ELBASAN
    } else if 0x10530 <= c && c <= 0x1056F {
        CTYPE_CAUCASIAN_ALBANIAN
    } else if 0x10600 <= c && c <= 0x1077F {
        CTYPE_LINEAR_A
    } else if 0x10800 <= c && c <= 0x1083F {
        CTYPE_CYPRIOT_SYLLABARY
    } else if 0x10840 <= c && c <= 0x1085F {
        CTYPE_IMPERIAL_ARAMAIC
    } else if 0x10860 <= c && c <= 0x1087F {
        CTYPE_PALMYRENE
    } else if 0x10880 <= c && c <= 0x108AF {
        CTYPE_NABATAEAN
    } else if 0x108E0 <= c && c <= 0x108FF {
        CTYPE_HATRAN
    } else if 0x10900 <= c && c <= 0x1091F {
        CTYPE_PHOENICIAN
    } else if 0x10920 <= c && c <= 0x1093F {
        CTYPE_LYDIAN
    } else if 0x10980 <= c && c <= 0x1099F {
        CTYPE_MEROITIC_HIEROGLYPHS
    } else if 0x109A0 <= c && c <= 0x109FF {
        CTYPE_MEROITIC_CURSIVE
    } else if 0x10A00 <= c && c <= 0x10A5F {
        CTYPE_KHAROSHTHI
    } else if 0x10A60 <= c && c <= 0x10A7F {
        CTYPE_OLD_SOUTH_ARABIAN
    } else if 0x10A80 <= c && c <= 0x10A9F {
        CTYPE_OLD_NORTH_ARABIAN
    } else if 0x10AC0 <= c && c <= 0x10AFF {
        CTYPE_MANICHAEAN
    } else if 0x10B00 <= c && c <= 0x10B3F {
        CTYPE_AVESTAN
    } else if 0x10B40 <= c && c <= 0x10B5F {
        CTYPE_INSCRIPTIONAL_PARTHIAN
    } else if 0x10B60 <= c && c <= 0x10B7F {
        CTYPE_INSCRIPTIONAL_PAHLAVI
    } else if 0x10B80 <= c && c <= 0x10BAF {
        CTYPE_PSALTER_PAHLAVI
    } else if 0x10C00 <= c && c <= 0x10C4F {
        CTYPE_OLD_TURKIC
    } else if 0x10C80 <= c && c <= 0x10CFF {
        CTYPE_OLD_HUNGARIAN
    } else if 0x10E60 <= c && c <= 0x10E7F {
        CTYPE_RUMI_NUMERAL_SYMBOLS
    } else if 0x11000 <= c && c <= 0x1107F {
        CTYPE_BRAHMI
    } else if 0x11080 <= c && c <= 0x110CF {
        CTYPE_KAITHI
    } else if 0x110D0 <= c && c <= 0x110FF {
        CTYPE_SORA_SOMPENG
    } else if 0x11100 <= c && c <= 0x1114F {
        CTYPE_CHAKMA
    } else if 0x11150 <= c && c <= 0x1117F {
        CTYPE_MAHAJANI
    } else if 0x11180 <= c && c <= 0x111DF {
        CTYPE_SHARADA
    } else if 0x111E0 <= c && c <= 0x111FF {
        CTYPE_SINHALA_ARCHAIC_NUMBERS
    } else if 0x11200 <= c && c <= 0x1124F {
        CTYPE_KHOJKI
    } else if 0x11280 <= c && c <= 0x112AF {
        CTYPE_MULTANI
    } else if 0x112B0 <= c && c <= 0x112FF {
        CTYPE_KHUDAWADI
    } else if 0x11300 <= c && c <= 0x1137F {
        CTYPE_GRANTHA
    } else if 0x11400 <= c && c <= 0x1147F {
        CTYPE_NEWA
    } else if 0x11480 <= c && c <= 0x114DF {
        CTYPE_TIRHUTA
    } else if 0x11580 <= c && c <= 0x115FF {
        CTYPE_SIDDHAM
    } else if 0x11600 <= c && c <= 0x1165F {
        CTYPE_MODI
    } else if 0x11660 <= c && c <= 0x1167F {
        CTYPE_MONGOLIAN_SUPPLEMENT
    } else if 0x11680 <= c && c <= 0x116CF {
        CTYPE_TAKRI
    } else if 0x11700 <= c && c <= 0x1173F {
        CTYPE_AHOM
    } else if 0x118A0 <= c && c <= 0x118FF {
        CTYPE_WARANG_CITI
    } else if 0x11A00 <= c && c <= 0x11A4F {
        CTYPE_ZANABAZAR_SQUARE
    } else if 0x11A50 <= c && c <= 0x11AAF {
        CTYPE_SOYOMBO
    } else if 0x11AC0 <= c && c <= 0x11AFF {
        CTYPE_PAU_CIN_HAU
    } else if 0x11C00 <= c && c <= 0x11C6F {
        CTYPE_BHAIKSUKI
    } else if 0x11C70 <= c && c <= 0x11CBF {
        CTYPE_MARCHEN
    } else if 0x11D00 <= c && c <= 0x11D5F {
        CTYPE_MASARAM_GONDI
    } else if 0x12000 <= c && c <= 0x123FF {
        CTYPE_CUNEIFORM
    } else if 0x12400 <= c && c <= 0x1247F {
        CTYPE_CUNEIFORM_NUMBERS_AND_PUNCTUATION
    } else if 0x12480 <= c && c <= 0x1254F {
        CTYPE_EARLY_DYNASTIC_CUNEIFORM
    } else if 0x13000 <= c && c <= 0x1342F {
        CTYPE_EGYPTIAN_HIEROGLYPHS
    } else if 0x14400 <= c && c <= 0x1467F {
        CTYPE_ANATOLIAN_HIEROGLYPHS
    } else if 0x16800 <= c && c <= 0x16A3F {
        CTYPE_BAMUM_SUPPLEMENT
    } else if 0x16A40 <= c && c <= 0x16A6F {
        CTYPE_MRO
    } else if 0x16AD0 <= c && c <= 0x16AFF {
        CTYPE_BASSA_VAH
    } else if 0x16B00 <= c && c <= 0x16B8F {
        CTYPE_PAHAWH_HMONG
    } else if 0x16F00 <= c && c <= 0x16F9F {
        CTYPE_MIAO
    } else if 0x16FE0 <= c && c <= 0x16FFF {
        CTYPE_IDEOGRAPHIC_SYMBOLS_AND_PUNCTUATION
    } else if 0x17000 <= c && c <= 0x187FF {
        CTYPE_TANGUT
    } else if 0x18800 <= c && c <= 0x18AFF {
        CTYPE_TANGUT_COMPONENTS
    } else if 0x1B000 <= c && c <= 0x1B0FF {
        CTYPE_KANA_SUPPLEMENT
    } else if 0x1B100 <= c && c <= 0x1B12F {
        CTYPE_KANA_EXTENDED_A
    } else if 0x1B170 <= c && c <= 0x1B2FF {
        CTYPE_NUSHU
    } else if 0x1BC00 <= c && c <= 0x1BC9F {
        CTYPE_DUPLOYAN
    } else if 0x1BCA0 <= c && c <= 0x1BCAF {
        CTYPE_SHORTHAND_FORMAT_CONTROLS
    } else if 0x1D000 <= c && c <= 0x1D0FF {
        CTYPE_BYZANTINE_MUSICAL_SYMBOLS
    } else if 0x1D100 <= c && c <= 0x1D1FF {
        CTYPE_MUSICAL_SYMBOLS
    } else if 0x1D200 <= c && c <= 0x1D24F {
        CTYPE_ANCIENT_GREEK_MUSICAL_NOTATION
    } else if 0x1D300 <= c && c <= 0x1D35F {
        CTYPE_TAI_XUAN_JING_SYMBOLS
    } else if 0x1D360 <= c && c <= 0x1D37F {
        CTYPE_COUNTING_ROD_NUMERALS
    } else if 0x1D400 <= c && c <= 0x1D7FF {
        CTYPE_MATHEMATICAL_ALPHANUMERIC_SYMBOLS
    } else if 0x1D800 <= c && c <= 0x1DAAF {
        CTYPE_SUTTON_SIGNWRITING
    } else if 0x1E000 <= c && c <= 0x1E02F {
        CTYPE_GLAGOLITIC_SUPPLEMENT
    } else if 0x1E800 <= c && c <= 0x1E8DF {
        CTYPE_MENDE_KIKAKUI
    } else if 0x1E900 <= c && c <= 0x1E95F {
        CTYPE_ADLAM
    } else if 0x1EE00 <= c && c <= 0x1EEFF {
        CTYPE_ARABIC_MATHEMATICAL_ALPHABETIC_SYMBOLS
    } else if 0x1F000 <= c && c <= 0x1F02F {
        CTYPE_MAHJONG_TILES
    } else if 0x1F030 <= c && c <= 0x1F09F {
        CTYPE_DOMINO_TILES
    } else if 0x1F0A0 <= c && c <= 0x1F0FF {
        CTYPE_PLAYING_CARDS
    } else if 0x1F100 <= c && c <= 0x1F1FF {
        CTYPE_ENCLOSED_ALPHANUMERIC_SUPPLEMENT
    } else if 0x1F200 <= c && c <= 0x1F2FF {
        CTYPE_ENCLOSED_IDEOGRAPHIC_SUPPLEMENT
    } else if 0x1F300 <= c && c <= 0x1F5FF {
        CTYPE_MISCELLANEOUS_SYMBOLS_AND_PICTOGRAPHS
    } else if 0x1F600 <= c && c <= 0x1F64F {
        CTYPE_EMOTICONS
    } else if 0x1F650 <= c && c <= 0x1F67F {
        CTYPE_ORNAMENTAL_DINGBATS
    } else if 0x1F680 <= c && c <= 0x1F6FF {
        CTYPE_TRANSPORT_AND_MAP_SYMBOLS
    } else if 0x1F700 <= c && c <= 0x1F77F {
        CTYPE_ALCHEMICAL_SYMBOLS
    } else if 0x1F780 <= c && c <= 0x1F7FF {
        CTYPE_GEOMETRIC_SHAPES_EXTENDED
    } else if 0x1F800 <= c && c <= 0x1F8FF {
        CTYPE_SUPPLEMENTAL_ARROWS_C
    } else if 0x1F900 <= c && c <= 0x1F9FF {
        CTYPE_SUPPLEMENTAL_SYMBOLS_AND_PICTOGRAPHS
    } else if 0x20000 <= c && c <= 0x2A6DF {
        CTYPE_CJK_UNIFIED_IDEOGRAPHS_EXTENSION_B
    } else if 0x2A700 <= c && c <= 0x2B73F {
        CTYPE_CJK_UNIFIED_IDEOGRAPHS_EXTENSION_C
    } else if 0x2B740 <= c && c <= 0x2B81F {
        CTYPE_CJK_UNIFIED_IDEOGRAPHS_EXTENSION_D
    } else if 0x2B820 <= c && c <= 0x2CEAF {
        CTYPE_CJK_UNIFIED_IDEOGRAPHS_EXTENSION_E
    } else if 0x2CEB0 <= c && c <= 0x2EBEF {
        CTYPE_CJK_UNIFIED_IDEOGRAPHS_EXTENSION_F
    } else if 0x2F800 <= c && c <= 0x2FA1F {
        CTYPE_CJK_COMPATIBILITY_IDEOGRAPHS_SUPPLEMENT
    } else if 0xE0000 <= c && c <= 0xE007F {
        CTYPE_TAGS
    } else if 0xE0100 <= c && c <= 0xE01EF {
        CTYPE_VARIATION_SELECTORS_SUPPLEMENT
    } else if 0xF0000 <= c && c <= 0xFFFFF {
        CTYPE_SUPPLEMENTARY_PRIVATE_USE_AREA_A
    } else if 0x100000 <= c && c <= 0x10FFFF {
        CTYPE_SUPPLEMENTARY_PRIVATE_USE_AREA_B
    } else {
        CTYPE_UNKNOWN
    }
}

/// The display name of a Unicode block category.
pub open spec fn spec_ctype_name(ctype: usize) -> Seq<char> {
    if ctype == 1 {
        "Basic Latin"@
    } else if ctype == 2 {
        "Latin 1 Supplement"@
    } else if ctype == 3 {
        "Latin Extended A"@
    } else if ctype == 4 {
        "Latin Extended B"@
    } else if ctype == 5 {
        "Ipa Extensions"@
    } else if ctype == 6 {
        "Spacing Modifier Letters"@
    } else if ctype == 7 {
        "Combining Diacritical Marks"@
    } else if ctype == 8 {
        "Greek And Coptic"@
    } else if ctype == 9 {
        "Cyrillic"@
    } else if ctype == 10 {
        "Cyrillic Supplement"@
    } else if ctype == 11 {
        "Armenian"@
    } else if ctype == 12 {
        "Hebrew"@
    } else if ctype == 13 {
        "Arabic"@
    } else if ctype == 14 {
        "Syriac"@
    } else if ctype == 15 {
        "Arabic Supplement"@
    } else if ctype == 16 {
        "Thaana"@
    } else if ctype == 17 {
        "Nko"@
    } else if ctype == 18 {
        "Samaritan"@
    } else if ctype == 19 {
        "Mandaic"@
    } else if ctype == 20 {
        "Syriac Supplement"@
    } else if ctype == 21 {
        "Arabic Extended A"@
    } else if ctype == 22 {
        "Devanagari"@
    } else if ctype == 23 {
        "Bengali"@
    } else if ctype == 24 {
        "Gurmukhi"@
    } else if ctype == 25 {
        "Gujarati"@
    } else if ctype == 26 {
        "Oriya"@
    } else if ctype == 27 {
        "Tamil"@
    } else if ctype == 28 {
        "Telugu"@
    } else if ctype == 29 {
        "Kannada"@
    } else if ctype == 30 {
        "Malayalam"@
    } else if ctype == 31 {
        "Sinhala"@
    } else if ctype == 32 {
        "Thai"@
    } else if ctype == 33 {
        "Lao"@
    } else if ctype == 34 {
        "Tibetan"@
    } else if ctype == 35 {
        "Myanmar"@
    } else if ctype == 36 {
        "Georgian"@
    } else if ctype == 37 {
        "Hangul Jamo"@
    } else if ctype == 38 {
        "Ethiopic"@
    } else if ctype == 39 {
        "Ethiopic Supplement"@
    } else if ctype == 40 {
        "Cherokee"@
    } else if ctype == 41 {
        "Unified Canadian Aboriginal Syllabics"@
    } else if ctype == 42 {
        "Ogham"@
    } else if ctype == 43 {
        "Runic"@
    } else if ctype == 44 {
        "Tagalog"@
    } else if ctype == 45 {
        "Hanunoo"@
    } else if ctype == 46 {
        "Buhid"@
    } else if ctype == 47 {
        "Tagbanwa"@
    } else if ctype == 48 {
        "Khmer"@
    } else if ctype == 49 {
        "Mongolian"@
    } else if ctype == 50 {
        "Unified Canadian Aboriginal Syllabics Extended"@
    } else if ctype == 51 {
        "Limbu"@
    } else if ctype == 52 {
        "Tai Le"@
    } else if ctype == 53 {
        "New Tai Lue"@
    } else if ctype == 54 {
        "Khmer Symbols"@
    } else if ctype == 55 {
        "Buginese"@
    } else if ctype == 56 {
        "Tai Tham"@
    } else if ctype == 57 {
        "Combining Diacritical Marks Extended"@
    } else if ctype == 58 {
        "Balinese"@
    } else if ctype == 59 {
        "Sundanese"@
    } else if ctype == 60 {
        "Batak"@
    } else if ctype == 61 {
        "Lepcha"@
    } else if ctype == 62 {
        "Ol Chiki"@
    } else if ctype == 63 {
        "Cyrillic Extended C"@
    } else if ctype == 64 {
        "Sundanese Supplement"@
    } else if ctype == 65 {
        "Vedic Extensions"@
    } else if ctype == 66 {
        "Phonetic Extensions"@
    } else if ctype == 67 {
        "Phonetic Extensions Supplement"@
    } else if ctype == 68 {
        "Combining Diacritical Marks Supplement"@
    } else if ctype == 69 {
        "Latin Extended Additional"@
    } else if ctype == 70 {
        "Greek Extended"@
    } else if ctype == 71 {
        "General Punctuation"@
    } else if ctype == 72 {
        "Superscripts And Subscripts"@
    } else if ctype == 73 {
        "Currency Symbols"@
    } else if ctype == 74 {
        "Combining Diacritical Marks For Symbols"@
    } else if ctype == 75 {
        "Letterlike Symbols"@
    } else if ctype == 76 {
        "Number Forms"@
    } else if ctype == 77 {
        "Arrows"@
    } else if ctype == 78 {
        "Mathematical Operators"@
    } else if ctype == 79 {
        "Miscellaneous Technical"@
    } else if ctype == 80 {
        "Control Pictures"@
    } else if ctype == 81 {
        "Optical Character Recognition"@
    } else if ctype == 82 {
        "Enclosed Alphanumerics"@
    } else if ctype == 83 {
        "Box Drawing"@
    } else if ctype == 84 {
        "Block Elements"@
    } else if ctype == 85 {
        "Geometric Shapes"@
    } else if ctype == 86 {
        "Miscellaneous Symbols"@
    } else if ctype == 87 {
        "Dingbats"@
    } else if ctype == 88 {
        "Miscellaneous Mathematical Symbols A"@
    } else if ctype == 89 {
        "Supplemental Arrows A"@
    } else if ctype == 90 {
        "Braille Patterns"@
    } else if ctype == 91 {
        "Supplemental Arrows B"@
    } else if ctype == 92 {
        "Miscellaneous Mathematical Symbols B"@
    } else if ctype == 93 {
        "Supplemental Mathematical Operators"@
    } else if ctype == 94 {
        "Miscellaneous Symbols And Arrows"@
    } else if ctype == 95 {
        "Glagolitic"@
    } else if ctype == 96 {
        "Latin Extended C"@
    } else if ctype == 97 {
        "Coptic"@
    } else if ctype == 98 {
        "Georgian Supplement"@
    } else if ctype == 99 {
        "Tifinagh"@
    } else if ctype == 100 {
        "Ethiopic Extended"@
    } else if ctype == 101 {
        "Cyrillic Extended A"@
    } else if ctype == 102 {
        "Supplemental Punctuation"@
    } else if ctype == 103 {
        "CJK Radicals Supplement"@
    } else if ctype == 104 {
        "Kangxi Radicals"@
    } else if ctype == 105 {
        "Ideographic Description Characters"@
    } else if ctype == 106 {
        "CJK Symbols And Punctuation"@
    } else if ctype == 107 {
        "Hiragana"@
    } else if ctype == 108 {
        "Katakana"@
    } else if ctype == 109 {
        "Bopomofo"@
    } else if ctype == 110 {
        "Hangul Compatibility Jamo"@
    } else if ctype == 111 {
        "Kanbun"@
    } else if ctype == 112 {
        "Bopomofo Extended"@
    } else if ctype == 113 {
        "CJK Strokes"@
    } else if ctype == 114 {
        "Katakana Phonetic Extensions"@
    } else if ctype == 115 {
        "Enclosed CJK Letters And Months"@
    } else if ctype == 116 {
        "CJK Compatibility"@
    } else if ctype == 117 {
        "CJK Unified Ideographs Extension A"@
    } else if ctype == 118 {
        "Yijing Hexagram Symbols"@
    } else if ctype == 119 {
        "CJK Unified Ideographs"@
    } else if ctype == 120 {
        "Yi Syllables"@
    } else if ctype == 121 {
        "Yi Radicals"@
    } else if ctype == 122 {
        "Lisu"@
    } else if ctype == 123 {
        "Vai"@
    } else if ctype == 124 {
        "Cyrillic Extended B"@
    } else if ctype == 125 {
        "Bamum"@
    } else if ctype == 126 {
        "Modifier Tone Letters"@
    } else if ctype == 127 {
        "Latin Extended D"@
    } else if ctype == 128 {
        "Syloti Nagri"@
    } else if ctype == 129 {
        "Common Indic Number Forms"@
    } else if ctype == 130 {
        "Phags Pa"@
    } else if ctype == 131 {
        "Saurashtra"@
    } else if ctype == 132 {
        "Devanagari Extended"@
    } else if ctype == 133 {
        "Kayah Li"@
    } else if ctype == 134 {
        "Rejang"@
    } else if ctype == 135 {
        "Hangul Jamo Extended A"@
    } else if ctype == 136 {
        "Javanese"@
    } else if ctype == 137 {
        "Myanmar Extended B"@
    } else if ctype == 138 {
        "Cham"@
    } else if ctype == 139 {
        "Myanmar Extended A"@
    } else if ctype == 140 {
        "Tai Viet"@
    } else if ctype == 141 {
        "Meetei Mayek Extensions"@
    } else if ctype == 142 {
        "Ethiopic Extended A"@
    } else if ctype == 143 {
        "Latin Extended E"@
    } else if ctype == 144 {
        "Cherokee Supplement"@
    } else if ctype == 145 {
        "Meetei Mayek"@
    } else if ctype == 146 {
        "Hangul Syllables"@
    } else if ctype == 147 {
        "Hangul Jamo Extended B"@
    } else if ctype == 148 {
        "High Surrogates"@
    } else if ctype == 149 {
        "High Private Use Surrogates"@
    } else if ctype == 150 {
        "Low Surrogates"@
    } else if ctype == 151 {
        "Private Use Area"@
    } else if ctype == 152 {
        "CJK Compatibility Ideographs"@
    } else if ctype == 153 {
        "Alphabetic Presentation Forms"@
    } else if ctype == 154 {
        "Arabic Presentation Forms A"@
    } else if ctype == 155 {
        "Variation Selectors"@
    } else if ctype == 156 {
        "Vertical Forms"@
    } else if ctype == 157 {
        "Combining Half Marks"@
    } else if ctype == 158 {
        "CJK Compatibility Forms"@
    } else if ctype == 159 {
        "Small Form Variants"@
    } else if ctype == 160 {
        "Arabic Presentation Forms B"@
    } else if ctype == 161 {
        "Halfwidth And Fullwidth Forms"@
    } else if ctype == 162 {
        "Specials"@
    } else if ctype == 163 {
        "Linear B Syllabary"@
    } else if ctype == 164 {
        "Linear B Ideograms"@
    } else if ctype == 165 {
        "Aegean Numbers"@
    } else if ctype == 166 {
        "Ancient Greek Numbers"@
    } else if ctype == 167 {
        "Ancient Symbols"@
    } else if ctype == 168 {
        "Phaistos Disc"@
    } else if ctype == 169 {
        "Lycian"@
    } else if ctype == 170 {
        "Carian"@
    } else if ctype == 171 {
        "Coptic Epact Numbers"@
    } else if ctype == 172 {
        "Old Italic"@
    } else if ctype == 173 {
        "Gothic"@
    } else if ctype == 174 {
        "Old Permic"@
    } else if ctype == 175 {
        "Ugaritic"@
    } else if ctype == 176 {
        "Old Persian"@
    } else if ctype == 177 {
        "Deseret"@
    } else if ctype == 178 {
        "Shavian"@
    } else if ctype == 179 {
        "Osmanya"@
    } else if ctype == 180 {
        "Osage"@
    } else if ctype == 181 {
        "Elbasan"@
    } else if ctype == 182 {
        "Caucasian Albanian"@
    } else if ctype == 183 {
        "Linear A"@
    } else if ctype == 184 {
        "Cypriot Syllabary"@
    } else if ctype == 185 {
        "Imperial Aramaic"@
    } else if ctype == 186 {
        "Palmyrene"@
    } else if ctype == 187 {
        "Nabataean"@
    } else if ctype == 188 {
        "Hatran"@
    } else if ctype == 189 {
        "Phoenician"@
    } else if ctype == 190 {
        "Lydian"@
    } else if ctype == 191 {
        "Meroitic Hieroglyphs"@
    } else if ctype == 192 {
        "Meroitic Cursive"@
    } else if ctype == 193 {
        "Kharoshthi"@
    } else if ctype == 194 {
        "Old South Arabian"@
    } else if ctype == 195 {
        "Old North Arabian"@
    } else if ctype == 196 {
        "Manichaean"@
    } else if ctype == 197 {
        "Avestan"@
    } else if ctype == 198 {
        "Inscriptional Parthian"@
    } else if ctype == 199 {
        "Inscriptional Pahlavi"@
    } else if ctype == 200 {
        "Psalter Pahlavi"@
    } else if ctype == 201 {
        "Old Turkic"@
    } else if ctype == 202 {
        "Old Hungarian"@
    } else if ctype == 203 {
        "Rumi Numeral Symbols"@
    } else if ctype == 204 {
        "Brahmi"@
    } else if ctype == 205 {
        "Kaithi"@
    } else if ctype == 206 {
        "Sora Sompeng"@
    } else if ctype == 207 {
        "Chakma"@
    } else if ctype == 208 {
        "Mahajani"@
    } else if ctype == 209 {
        "Sharada"@
    } else if ctype == 210 {
        "Sinhala Archaic Numbers"@
    } else if ctype == 211 {
        "Khojki"@
    } else if ctype == 212 {
        "Multani"@
    } else if ctype == 213 {
        "Khudawadi"@
    } else if ctype == 214 {
        "Grantha"@
    } else if ctype == 215 {
        "Newa"@
    } else if ctype == 216 {
        "Tirhuta"@
    } else if ctype == 217 {
        "Siddham"@
    } else if ctype == 218 {
        "Modi"@
    } else if ctype == 219 {
        "Mongolian Supplement"@
    } else if ctype == 220 {
        "Takri"@
    } else if ctype == 221 {
        "Ahom"@
    } else if ctype == 222 {
        "Warang Citi"@
    } else if ctype == 223 {
        "Zanabazar Square"@
    } else if ctype == 224 {
        "Soyombo"@
    } else if ctype == 225 {
        "Pau Cin Hau"@
    } else if ctype == 226 {
        "Bhaiksuki"@
    } else if ctype == 227 {
        "Marchen"@
    } else if ctype == 228 {
        "Masaram Gondi"@
    } else if ctype == 229 {
        "Cuneiform"@
    } else if ctype == 230 {
        "Cuneiform Numbers And Punctuation"@
    } else if ctype == 231 {
        "Early Dynastic Cuneiform"@
    } else if ctype == 232 {
        "Egyptian Hieroglyphs"@
    } else if ctype == 233 {
        "Anatolian Hieroglyphs"@
    } else if ctype == 234 {
        "Bamum Supplement"@
    } else if ctype == 235 {
        "Mro"@
    } else if ctype == 236 {
        "Bassa Vah"@
    } else if ctype == 237 {
        "Pahawh Hmong"@
    } else if ctype == 238 {
        "Miao"@
    } else if ctype == 239 {
        "Ideographic Symbols And Punctuation"@
    } else if ctype == 240 {
        "Tangut"@
    } else if ctype == 241 {
        "Tangut Components"@
    } else if ctype == 242 {
        "Kana Supplement"@
    } else if ctype == 243 {
        "Kana Extended A"@
    } else if ctype == 244 {
        "Nushu"@
    } else if ctype == 245 {
        "Duployan"@
    } else if ctype == 246 {
        "Shorthand Format Controls"@
    } else if ctype == 247 {
        "Byzantine Musical Symbols"@
    } else if ctype == 248 {
        "Musical Symbols"@
    } else if ctype == 249 {
        "Ancient Greek Musical Notation"@
    } else if ctype == 250 {
        "Tai Xuan Jing Symbols"@
    } else if ctype == 251 {
        "Counting Rod Numerals"@
    } else if ctype == 252 {
        "Mathematical Alphanumeric Symbols"@
    } else if ctype == 253 {
        "Sutton Signwriting"@
    } else if ctype == 254 {
        "Glagolitic Supplement"@
    } else if ctype == 255 {
        "Mende Kikakui"@
    } else if ctype == 256 {
        "Adlam"@
    } else if ctype == 257 {
        "Arabic Mathematical Alphabetic Symbols"@
    } else if ctype == 258 {
        "Mahjong Tiles"@
    } else if ctype == 259 {
        "Domino Tiles"@
    } else if ctype == 260 {
        "Playing Cards"@
    } else if ctype == 261 {
        "Enclosed Alphanumeric Supplement"@
    } else if ctype == 262 {
        "Enclosed Ideographic Supplement"@
    } else if ctype == 263 {
        "Miscellaneous Symbols And Pictographs"@
    } else if ctype == 264 {
        "Emoticons"@
    } else if ctype == 265 {
        "Ornamental Dingbats"@
    } else if ctype == 266 {
        "Transport And Map Symbols"@
    } else if ctype == 267 {
        "Alchemical Symbols"@
    } else if ctype == 268 {
        "Geometric Shapes Extended"@
    } else if ctype == 269 {
        "Supplemental Arrows C"@
    } else if ctype == 270 {
        "Supplemental Symbols And Pictographs"@
    } else if ctype == 271 {
        "CJK Unified Ideographs Extension B"@
    } else if ctype == 272 {
        "CJK Unified Ideographs Extension C"@
    } else if ctype == 273 {
        "CJK Unified Ideographs Extension D"@
    } else if ctype == 274 {
        "CJK Unified Ideographs Extension E"@
    } else if ctype == 275 {
        "CJK Unified Ideographs Extension F"@
    } else if ctype == 276 {
        "CJK Compatibility Ideographs Supplement"@
    } else if ctype == 277 {
        "Tags"@
    } else if ctype == 278 {
        "Variation Selectors Supplement"@
    } else if ctype == 279 {
        "Supplementary Private Use Area A"@
    } else if ctype == 280 {
        "Supplementary Private Use Area B"@
    } else {
        "Unknown"@
    }
}

/// The display name of a Unicode block category.
pub fn get_name(ctype: usize) -> (r: &'static str)
    ensures
        r@ == spec_ctype_name(ctype),
{
    if ctype == 1 {
        "Basic Latin"
    } else if ctype == 2 {
        "Latin 1 Supplement"
    } else if ctype == 3 {
        "Latin Extended A"
    } else if ctype == 4 {
        "Latin Extended B"
    } else if ctype == 5 {
        "Ipa Extensions"
    } else if ctype == 6 {
        "Spacing Modifier Letters"
    } else if ctype == 7 {
        "Combining Diacritical Marks"
    } else if ctype == 8 {
        "Greek And Coptic"
    } else if ctype == 9 {
        "Cyrillic"
    } else if ctype == 10 {
        "Cyrillic Supplement"
    } else if ctype == 11 {
        "Armenian"
    } else if ctype == 12 {
        "Hebrew"
    } else if ctype == 13 {
        "Arabic"
    } else if ctype == 14 {
        "Syriac"
    } else if ctype == 15 {
        "Arabic Supplement"
    } else if ctype == 16 {
        "Thaana"
    } else if ctype == 17 {
        "Nko"
    } else if ctype == 18 {
        "Samaritan"
    } else if ctype == 19 {
        "Mandaic"
    } else if ctype == 20 {
        "Syriac Supplement"
    } else if ctype == 21 {
        "Arabic Extended A"
    } else if ctype == 22 {
        "Devanagari"
    } else if ctype == 23 {
        "Bengali"
    } else if ctype == 24 {
        "Gurmukhi"
    } else if ctype == 25 {
        "Gujarati"
    } else if ctype == 26 {
        "Oriya"
    } else if ctype == 27 {
        "Tamil"
    } else if ctype == 28 {
        "Telugu"
    } else if ctype == 29 {
        "Kannada"
    } else if ctype == 30 {
        "Malayalam"
    } else if ctype == 31 {
        "Sinhala"
    } else if ctype == 32 {
        "Thai"
    } else if ctype == 33 {
        "Lao"
    } else if ctype == 34 {
        "Tibetan"
    } else if ctype == 35 {
        "Myanmar"
    } else if ctype == 36 {
        "Georgian"
    } else if ctype == 37 {
        "Hangul Jamo"
    } else if ctype == 38 {
        "Ethiopic"
    } else if ctype == 39 {
        "Ethiopic Supplement"
    } else if ctype == 40 {
        "Cherokee"
    } else if ctype == 41 {
        "Unified Canadian Aboriginal Syllabics"
    } else if ctype == 42 {
        "Ogham"
    } else if ctype == 43 {
        "Runic"
    } else if ctype == 44 {
        "Tagalog"
    } else if ctype == 45 {
        "Hanunoo"
    } else if ctype == 46 {
        "Buhid"
    } else if ctype == 47 {
        "Tagbanwa"
    } else if ctype == 48 {
        "Khmer"
    } else if ctype == 49 {
        "Mongolian"
    } else if ctype == 50 {
        "Unified Canadian Aboriginal Syllabics Extended"
    } else if ctype == 51 {
        "Limbu"
    } else if ctype == 52 {
        "Tai Le"
    } else if ctype == 53 {
        "New Tai Lue"
    } else if ctype == 54 {
        "Khmer Symbols"
    } else if ctype == 55 {
        "Buginese"
    } else if ctype == 56 {
        "Tai Tham"
    } else if ctype == 57 {
        "Combining Diacritical Marks Extended"
    } else if ctype == 58 {
        "Balinese"
    } else if ctype == 59 {
        "Sundanese"
    } else if ctype == 60 {
        "Batak"
    } else if ctype == 61 {
        "Lepcha"
    } else if ctype == 62 {
        "Ol Chiki"
    } else if ctype == 63 {
        "Cyrillic Extended C"
    } else if ctype == 64 {
        "Sundanese Supplement"
    } else if ctype == 65 {
        "Vedic Extensions"
    } else if ctype == 66 {
        "Phonetic Extensions"
    } else if ctype == 67 {
        "Phonetic Extensions Supplement"
    } else if ctype == 68 {
        "Combining Diacritical Marks Supplement"
    } else if ctype == 69 {
        "Latin Extended Additional"
    } else if ctype == 70 {
        "Greek Extended"
    } else if ctype == 71 {
        "General Punctuation"
    } else if ctype == 72 {
        "Superscripts And Subscripts"
    } else if ctype == 73 {
        "Currency Symbols"
    } else if ctype == 74 {
        "Combining Diacritical Marks For Symbols"
    } else if ctype == 75 {
        "Letterlike Symbols"
    } else if ctype == 76 {
        "Number Forms"
    } else if ctype == 77 {
        "Arrows"
    } else if ctype == 78 {
        "Mathematical Operators"
    } else if ctype == 79 {
        "Miscellaneous Technical"
    } else if ctype == 80 {
        "Control Pictures"
    } else if ctype == 81 {
        "Optical Character Recognition"
    } else if ctype == 82 {
        "Enclosed Alphanumerics"
    } else if ctype == 83 {
        "Box Drawing"
    } else if ctype == 84 {
        "Block Elements"
    } else if ctype == 85 {
        "Geometric Shapes"
    } else if ctype == 86 {
        "Miscellaneous Symbols"
    } else if ctype == 87 {
        "Dingbats"
    } else if ctype == 88 {
        "Miscellaneous Mathematical Symbols A"
    } else if ctype == 89 {
        "Supplemental Arrows A"
    } else if ctype == 90 {
        "Braille Patterns"
    } else if ctype == 91 {
        "Supplemental Arrows B"
    } else if ctype == 92 {
        "Miscellaneous Mathematical Symbols B"
    } else if ctype == 93 {
        "Supplemental Mathematical Operators"
    } else if ctype == 94 {
        "Miscellaneous Symbols And Arrows"
    } else if ctype == 95 {
        "Glagolitic"
    } else if ctype == 96 {
        "Latin Extended C"
    } else if ctype == 97 {
        "Coptic"
    } else if ctype == 98 {
        "Georgian Supplement"
    } else if ctype == 99 {
        "Tifinagh"
    } else if ctype == 100 {
        "Ethiopic Extended"
    } else if ctype == 101 {
        "Cyrillic Extended A"
    } else if ctype == 102 {
        "Supplemental Punctuation"
    } else if ctype == 103 {
        "CJK Radicals Supplement"
    } else if ctype == 104 {
        "Kangxi Radicals"
    } else if ctype == 105 {
        "Ideographic Description Characters"
    } else if ctype == 106 {
        "CJK Symbols And Punctuation"
    } else if ctype == 107 {
        "Hiragana"
    } else if ctype == 108 {
        "Katakana"
    } else if ctype == 109 {
        "Bopomofo"
    } else if ctype == 110 {
        "Hangul Compatibility Jamo"
    } else if ctype == 111 {
        "Kanbun"
    } else if ctype == 112 {
        "Bopomofo Extended"
    } else if ctype == 113 {
        "CJK Strokes"
    } else if ctype == 114 {
        "Katakana Phonetic Extensions"
    } else if ctype == 115 {
        "Enclosed CJK Letters And Months"
    } else if ctype == 116 {
        "CJK Compatibility"
    } else if ctype == 117 {
        "CJK Unified Ideographs Extension A"
    } else if ctype == 118 {
        "Yijing Hexagram Symbols"
    } else if ctype == 119 {
        "CJK Unified Ideographs"
    } else if ctype == 120 {
        "Yi Syllables"
    } else if ctype == 121 {
        "Yi Radicals"
    } else if ctype == 122 {
        "Lisu"
    } else if ctype == 123 {
        "Vai"
    } else if ctype == 124 {
        "Cyrillic Extended B"
    } else if ctype == 125 {
        "Bamum"
    } else if ctype == 126 {
        "Modifier Tone Letters"
    } else if ctype == 127 {
        "Latin Extended D"
    } else if ctype == 128 {
        "Syloti Nagri"
    } else if ctype == 129 {
        "Common Indic Number Forms"
    } else if ctype == 130 {
        "Phags Pa"
    } else if ctype == 131 {
        "Saurashtra"
    } else if ctype == 132 {
        "Devanagari Extended"
    } else if ctype == 133 {
        "Kayah Li"
    } else if ctype == 134 {
        "Rejang"
    } else if ctype == 135 {
        "Hangul Jamo Extended A"
    } else if ctype == 136 {
        "Javanese"
    } else if ctype == 137 {
        "Myanmar Extended B"
    } else if ctype == 138 {
        "Cham"
    } else if ctype == 139 {
        "Myanmar Extended A"
    } else if ctype == 140 {
        "Tai Viet"
    } else if ctype == 141 {
        "Meetei Mayek Extensions"
    } else if ctype == 142 {
        "Ethiopic Extended A"
    } else if ctype == 143 {
        "Latin Extended E"
    } else if ctype == 144 {
        "Cherokee Supplement"
    } else if ctype == 145 {
        "Meetei Mayek"
    } else if ctype == 146 {
        "Hangul Syllables"
    } else if ctype == 147 {
        "Hangul Jamo Extended B"
    } else if ctype == 148 {
        "High Surrogates"
    } else if ctype == 149 {
        "High Private Use Surrogates"
    } else if ctype == 150 {
        "Low Surrogates"
    } else if ctype == 151 {
        "Private Use Area"
    } else if ctype == 152 {
        "CJK Compatibility Ideographs"
    } else if ctype == 153 {
        "Alphabetic Presentation Forms"
    } else if ctype == 154 {
        "Arabic Presentation Forms A"
    } else if ctype == 155 {
        "Variation Selectors"
    } else if ctype == 156 {
        "Vertical Forms"
    } else if ctype == 157 {
        "Combining Half Marks"
    } else if ctype == 158 {
        "CJK Compatibility Forms"
    } else if ctype == 159 {
        "Small Form Variants"
    } else if ctype == 160 {
        "Arabic Presentation Forms B"
    } else if ctype == 161 {
        "Halfwidth And Fullwidth Forms"
    } else if ctype == 162 {
        "Specials"
    } else if ctype == 163 {
        "Linear B Syllabary"
    } else if ctype == 164 {
        "Linear B Ideograms"
    } else if ctype == 165 {
        "Aegean Numbers"
    } else if ctype == 166 {
        "Ancient Greek Numbers"
    } else if ctype == 167 {
        "Ancient Symbols"
    } else if ctype == 168 {
        "Phaistos Disc"
    } else if ctype == 169 {
        "Lycian"
    } else if ctype == 170 {
        "Carian"
    } else if ctype == 171 {
        "Coptic Epact Numbers"
    } else if ctype == 172 {
        "Old Italic"
    } else if ctype == 173 {
        "Gothic"
    } else if ctype == 174 {
        "Old Permic"
    } else if ctype == 175 {
        "Ugaritic"
    } else if ctype == 176 {
        "Old Persian"
    } else if ctype == 177 {
        "Deseret"
    } else if ctype == 178 {
        "Shavian"
    } else if ctype == 179 {
        "Osmanya"
    } else if ctype == 180 {
        "Osage"
    } else if ctype == 181 {
        "Elbasan"
    } else if ctype == 182 {
        "Caucasian Albanian"
    } else if ctype == 183 {
        "Linear A"
    } else if ctype == 184 {
        "Cypriot Syllabary"
    } else if ctype == 185 {
        "Imperial Aramaic"
    } else if ctype == 186 {
        "Palmyrene"
    } else if ctype == 187 {
        "Nabataean"
    } else if ctype == 188 {
        "Hatran"
    } else if ctype == 189 {
        "Phoenician"
    } else if ctype == 190 {
        "Lydian"
    } else if ctype == 191 {
        "Meroitic Hieroglyphs"
    } else if ctype == 192 {
        "Meroitic Cursive"
    } else if ctype == 193 {
        "Kharoshthi"
    } else if ctype == 194 {
        "Old South Arabian"
    } else if ctype == 195 {
        "Old North Arabian"
    } else if ctype == 196 {
        "Manichaean"
    } else if ctype == 197 {
        "Avestan"
    } else if ctype == 198 {
        "Inscriptional Parthian"
    } else if ctype == 199 {
        "Inscriptional Pahlavi"
    } else if ctype == 200 {
        "Psalter Pahlavi"
    } else if ctype == 201 {
        "Old Turkic"
    } else if ctype == 202 {
        "Old Hungarian"
    } else if ctype == 203 {
        "Rumi Numeral Symbols"
    } else if ctype == 204 {
        "Brahmi"
    } else if ctype == 205 {
        "Kaithi"
    } else if ctype == 206 {
        "Sora Sompeng"
    } else if ctype == 207 {
        "Chakma"
    } else if ctype == 208 {
        "Mahajani"
    } else if ctype == 209 {
        "Sharada"
    } else if ctype == 210 {
        "Sinhala Archaic Numbers"
    } else if ctype == 211 {
        "Khojki"
    } else if ctype == 212 {
        "Multani"
    } else if ctype == 213 {
        "Khudawadi"
    } else if ctype == 214 {
        "Grantha"
    } else if ctype == 215 {
        "Newa"
    } else if ctype == 216 {
        "Tirhuta"
    } else if ctype == 217 {
        "Siddham"
    } else if ctype == 218 {
        "Modi"
    } else if ctype == 219 {
        "Mongolian Supplement"
    } else if ctype == 220 {
        "Takri"
    } else if ctype == 221 {
        "Ahom"
    } else if ctype == 222 {
        "Warang Citi"
    } else if ctype == 223 {
        "Zanabazar Square"
    } else if ctype == 224 {
        "Soyombo"
    } else if ctype == 225 {
        "Pau Cin Hau"
    } else if ctype == 226 {
        "Bhaiksuki"
    } else if ctype == 227 {
        "Marchen"
    } else if ctype == 228 {
        "Masaram Gondi"
    } else if ctype == 229 {
        "Cuneiform"
    } else if ctype == 230 {
        "Cuneiform Numbers And Punctuation"
    } else if ctype == 231 {
        "Early Dynastic Cuneiform"
    } else if ctype == 232 {
        "Egyptian Hieroglyphs"
    } else if ctype == 233 {
        "Anatolian Hieroglyphs"
    } else if ctype == 234 {
        "Bamum Supplement"
    } else if ctype == 235 {
        "Mro"
    } else if ctype == 236 {
        "Bassa Vah"
    } else if ctype == 237 {
        "Pahawh Hmong"
    } else if ctype == 238 {
        "Miao"
    } else if ctype == 239 {
        "Ideographic Symbols And Punctuation"
    } else if ctype == 240 {
        "Tangut"
    } else if ctype == 241 {
        "Tangut Components"
    } else if ctype == 242 {
        "Kana Supplement"
    } else if ctype == 243 {
        "Kana Extended A"
    } else if ctype == 244 {
        "Nushu"
    } else if ctype == 245 {
        "Duployan"
    } else if ctype == 246 {
        "Shorthand Format Controls"
    } else if ctype == 247 {
        "Byzantine Musical Symbols"
    } else if ctype == 248 {
        "Musical Symbols"
    } else if ctype == 249 {
        "Ancient Greek Musical Notation"
    } else if ctype == 250 {
        "Tai Xuan Jing Symbols"
    } else if ctype == 251 {
        "Counting Rod Numerals"
    } else if ctype == 252 {
        "Mathematical Alphanumeric Symbols"
    } else if ctype == 253 {
        "Sutton Signwriting"
    } else if ctype == 254 {
        "Glagolitic Supplement"
    } else if ctype == 255 {
        "Mende Kikakui"
    } else if ctype == 256 {
        "Adlam"
    } else if ctype == 257 {
        "Arabic Mathematical Alphabetic Symbols"
    } else if ctype == 258 {
        "Mahjong Tiles"
    } else if ctype == 259 {
        "Domino Tiles"
    } else if ctype == 260 {
        "Playing Cards"
    } else if ctype == 261 {
        "Enclosed Alphanumeric Supplement"
    } else if ctype == 262 {
        "Enclosed Ideographic Supplement"
    } else if ctype == 263 {
        "Miscellaneous Symbols And Pictographs"
    } else if ctype == 264 {
        "Emoticons"
    } else if ctype == 265 {
        "Ornamental Dingbats"
    } else if ctype == 266 {
        "Transport And Map Symbols"
    } else if ctype == 267 {
        "Alchemical Symbols"
    } else if ctype == 268 {
        "Geometric Shapes Extended"
    } else if ctype == 269 {
        "Supplemental Arrows C"
    } else if ctype == 270 {
        "Supplemental Symbols And Pictographs"
    } else if ctype == 271 {
        "CJK Unified Ideographs Extension B"
    } else if ctype == 272 {
        "CJK Unified Ideographs Extension C"
    } else if ctype == 273 {
        "CJK Unified Ideographs Extension D"
    } else if ctype == 274 {
        "CJK Unified Ideographs Extension E"
    } else if ctype == 275 {
        "CJK Unified Ideographs Extension F"
    } else if ctype == 276 {
        "CJK Compatibility Ideographs Supplement"
    } else if ctype == 277 {
        "Tags"
    } else if ctype == 278 {
        "Variation Selectors Supplement"
    } else if ctype == 279 {
        "Supplementary Private Use Area A"
    } else if ctype == 280 {
        "Supplementary Private Use Area B"
    } else {
        "Unknown"
    }
}

} // verus!
