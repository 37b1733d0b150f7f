use vstd::prelude::*;

verus! {

/// Sentinel character standing for the beginning of a sentence.
pub const BOS_CHAR: char = '\u{0391}';

/// Sentinel character standing for the end of a sentence.
pub const EOS_CHAR: char = '\u{03A9}';

/// Sentinel character standing for the beginning of a word.
pub const BOW: char = '\u{03B1}';

/// Sentinel character standing for the end of a word.
pub const EOW: char = '\u{03C9}';

/// Token id of the begin-of-sentence sentinel word.
pub const BOS: u64 = 3902801122696021506;

/// Token id of the end-of-sentence sentinel word.
pub const EOS: u64 = 13786557304133791402;

} // verus!
