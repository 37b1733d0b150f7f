use vstd::prelude::*;
use std::collections::hash_map::DefaultHasher;
use std::hash::{Hash, Hasher};

verus! {

/// The 64-bit identifier that the standard library's default hasher assigns
/// to a word; it depends on the word's characters alone.
pub uninterp spec fn hash_of(word: Seq<char>) -> u64;

/// Relies on std's DefaultHasher (created with fixed keys, so the digest is a
/// function of the hashed bytes alone): hashes the word's characters, collected
/// into a string, and returns the 64-bit digest.
#[verifier::external_body]
pub fn calculate_hash(word: &Vec<char>) -> (r: u64)
    ensures
        r == hash_of(word@),
{
    let text: String = word.iter().collect();
    let mut hasher = DefaultHasher::new();
    text.hash(&mut hasher);
    hasher.finish()
}

/// Relies on String::push: appends the given character to the end of the string.
#[verifier::external_body]
pub fn push_char(text: &mut String, c: char)
    ensures
        final(text)@ == old(text)@.push(c),
{
    text.push(c);
}

} // verus!
