//! Unicode character properties and case mappings, taken from `core::char`, and the word
//! class of regular expressions, taken from the `regex` crate.
use vstd::prelude::*;
use crate::text::{lower_char, upper_char};

verus! {

/// Whether `c` is in the `regex` crate's Unicode word class `\w`: `Alphabetic`, a mark, a
/// decimal digit, connector punctuation or a joiner.
pub uninterp spec fn regex_word(c: char) -> bool;

/// `char::is_uppercase`: the Unicode `Uppercase` property.
pub uninterp spec fn unicode_uppercase(c: char) -> bool;

/// `char::to_uppercase`: the full upper-case mapping of a character.
pub uninterp spec fn unicode_upper(c: char) -> Seq<char>;

/// `char::to_lowercase`: the full lower-case mapping of a character.
pub uninterp spec fn unicode_lower(c: char) -> Seq<char>;

/// `str::to_lowercase`: the lower-case mapping of a string (with the final-sigma rule).
pub uninterp spec fn unicode_lower_str(s: Seq<char>) -> Seq<char>;

pub open spec fn is_ascii_char(c: char) -> bool {
    (c as u32) < 128
}

pub open spec fn is_ascii_alnum(c: char) -> bool {
    ('a' <= c && c <= 'z') || ('A' <= c && c <= 'Z') || ('0' <= c && c <= '9')
}

/// Matches one character against `\A\w\z` with `regex::Regex`, whose `\w` is Unicode by
/// default. On ASCII the class is `[0-9A-Za-z_]`, as the crate documents for `[[:word:]]`.
#[verifier::external_body]
pub(crate) fn is_regex_word(c: char) -> (r: bool)
    ensures
        r == regex_word(c),
        is_ascii_char(c) ==> (r == (c == '_' || is_ascii_alnum(c))),
{
    let mut buf = [0u8; 4];
    match regex::Regex::new(r"\A\w\z") {
        Ok(re) => re.is_match(c.encode_utf8(&mut buf)),
        Err(_) => false,
    }
}

/// Calls `char::is_uppercase`. On ASCII it is `'A'..='Z'`.
#[verifier::external_body]
pub(crate) fn is_uppercase(c: char) -> (r: bool)
    ensures
        r == unicode_uppercase(c),
        is_ascii_char(c) ==> (r == ('A' <= c && c <= 'Z')),
{
    c.is_uppercase()
}

/// Collects `char::to_uppercase`. On ASCII it is the ASCII mapping.
#[verifier::external_body]
pub(crate) fn to_uppercase(c: char) -> (r: Vec<char>)
    ensures
        r@ == unicode_upper(c),
        is_ascii_char(c) ==> r@ == seq![upper_char(c)],
{
    c.to_uppercase().collect()
}

/// Collects `char::to_lowercase`. On ASCII it is the ASCII mapping.
#[verifier::external_body]
pub(crate) fn to_lowercase(c: char) -> (r: Vec<char>)
    ensures
        r@ == unicode_lower(c),
        is_ascii_char(c) ==> r@ == seq![lower_char(c)],
{
    c.to_lowercase().collect()
}

/// Calls `str::to_lowercase`.
#[verifier::external_body]
pub(crate) fn str_to_lowercase(s: &str) -> (r: String)
    ensures
        r@ == unicode_lower_str(s@),
{
    s.to_lowercase()
}

} // verus!
