//! The metadata normalisation used by the search index: the same rules as
//! the duplicate lookup, trigram tokens included.
use vstd::prelude::*;
use crate::storage::duplicata;
use crate::storage::data::trigrams;
use crate::storage::duplicata::{normalized, title_normalized, trigram_tokenizable};
use crate::storage::words::utf8_of_strings;

verus! {

/// Lower-cases `s`, removes the punctuation `, . - : ; / # \ ` ( )` and turns
/// line feeds, carriage returns and tabs into spaces.
pub fn normalize_str(s: &str) -> (r: String)
    ensures
        r@ == normalized(s@),
{
    duplicata::normalize_str(s)
}

/// Normalises a song title: `normalize_str`, then removes "feat",
/// "remastered", "remaster", "live" and turns "and" into "&".
pub fn normalize_title(s: &str) -> (r: String)
    ensures
        r@ == title_normalized(s@),
{
    duplicata::normalize_title(s)
}

/// Cuts the space-separated words of `s` into trigram tokens (see
/// `duplicata::tokenize`).
pub fn tokenize(s: &String) -> (r: Vec<String>)
    requires
        trigram_tokenizable(s@),
    ensures
        utf8_of_strings(r@) == trigrams(s@),
{
    duplicata::tokenize(s)
}

} // verus!
