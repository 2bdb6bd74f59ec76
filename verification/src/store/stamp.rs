//! Time stamps and fresh identifiers for new records, from `chrono` and `nanoid`.
use vstd::prelude::*;

verus! {

/// A character of `nanoid::alphabet::SAFE`: ASCII letters, digits, `_` and `-`.
pub open spec fn is_id_char(c: char) -> bool {
    ||| ('a' <= c && c <= 'z')
    ||| ('A' <= c && c <= 'Z')
    ||| ('0' <= c && c <= '9')
    ||| c == '_'
    ||| c == '-'
}

/// `size` characters of `nanoid::alphabet::SAFE`.
pub open spec fn is_id_of_len(s: Seq<char>, size: nat) -> bool {
    s.len() == size && forall|i: int| 0 <= i < s.len() ==> is_id_char(#[trigger] s[i])
}

/// A fresh identifier as `nanoid!(10)` makes it.
pub open spec fn is_short_id(s: Seq<char>) -> bool {
    is_id_of_len(s, 10)
}

/// Calls `chrono::Utc::now().timestamp_millis()`: the current time in milliseconds since
/// the Unix epoch. Nothing is stated of the value: it depends on the clock.
#[verifier::external_body]
pub(crate) fn now_millis() -> (r: i64) {
    chrono::Utc::now().timestamp_millis()
}

/// Calls `nanoid::format(nanoid::rngs::default, &nanoid::alphabet::SAFE, size)`, what
/// `nanoid!(size)` expands to: `size` characters drawn at random from the 64-character
/// `SAFE` alphabet. Which characters come out is left open; that there are `size` of them,
/// each from that alphabet, is what the function's loop guarantees. With `size` zero the
/// loop never ends, hence the bound.
#[verifier::external_body]
pub(crate) fn random_id(size: usize) -> (r: String)
    requires
        0 < size <= 64,
    ensures
        is_id_of_len(r@, size as nat),
{
    nanoid::format(nanoid::rngs::default, &nanoid::alphabet::SAFE, size)
}

/// Ten random characters, as `nanoid!(10)`.
pub fn short_id() -> (r: String)
    ensures
        is_short_id(r@),
{
    random_id(10)
}

} // verus!
