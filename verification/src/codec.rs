//! Reversible mapping between non-negative integers and short codes.
//!
//! A code is a salted, deterministic rendering of one `u64`, at least
//! `min_length` characters long, produced by the `harsh` crate (a hashids
//! implementation). Decoding inverts encoding and rejects every string that
//! encoding did not produce for the given salt and minimum length.

use vstd::prelude::*;

verus! {

/// The code that the `harsh` crate produces for one value, with its default
/// alphabet, the given salt and the given minimum length. The result is a
/// function of these three arguments alone.
pub uninterp spec fn harsh_code(salt: Seq<char>, min_length: int, value: u64) -> Seq<char>;

/// A character of the encoder's fixed alphabet: an ASCII alphanumeric.
pub open spec fn is_code_char(c: char) -> bool {
    ('0' <= c && c <= '9') || ('A' <= c && c <= 'Z') || ('a' <= c && c <= 'z')
}

/// Relies on `harsh::HarshBuilder` (`salt`, `length`, `build`) and
/// `harsh::Harsh::encode`: with the default alphabet, `build` succeeds for
/// every salt and minimum length, and `encode` returns a code that depends on
/// the salt, the minimum length and the encoded values alone, padded to at
/// least the minimum length, every character drawn from the default
/// alphanumeric alphabet (guards and separators are carved out of it).
#[verifier::external_body]
fn harsh_encode(salt: &str, min_length: usize, value: u64) -> (r: String)
    ensures
        r@ == harsh_code(salt@, min_length as int, value),
        r@.len() >= min_length,
        forall|i: int| 0 <= i < r@.len() ==> is_code_char(#[trigger] r@[i]),
{
    let harsh = harsh::Harsh::builder()
        .salt(salt)
        .length(min_length)
        .build()
        .unwrap();
    harsh.encode(&[value])
}

/// Relies on `harsh::HarshBuilder` (as in `harsh_encode`) and
/// `harsh::Harsh::decode`: decoding recovers the values a code was encoded
/// from, and rejects every other string (before returning, it re-encodes its
/// candidate result and compares it with the input).
#[verifier::external_body]
fn harsh_decode(salt: &str, min_length: usize, code: &str) -> (r: Option<u64>)
    ensures
        forall|v: u64| code@ == harsh_code(salt@, min_length as int, v) ==> r == Some(v),
        r matches Some(v) ==> code@ == harsh_code(salt@, min_length as int, v),
{
    let harsh = harsh::Harsh::builder()
        .salt(salt)
        .length(min_length)
        .build()
        .unwrap();
    match harsh.decode(code) {
        Ok(values) if values.len() == 1 => Some(values[0]),
        _ => None,
    }
}

/// Encodes a value as a short code: deterministic in the salt, the minimum
/// length and the value, at least `min_length` characters long, and drawn
/// from a fixed alphanumeric alphabet.
pub fn encode(salt: &str, min_length: usize, value: u64) -> (r: String)
    requires
        min_length >= 1,
    ensures
        r@ == harsh_code(salt@, min_length as int, value),
        r@.len() >= min_length,
        forall|i: int| 0 <= i < r@.len() ==> is_code_char(#[trigger] r@[i]),
{
    harsh_encode(salt, min_length, value)
}

/// Decodes a code back to the value it was encoded from, or `None` when the
/// code was not produced by this salt and minimum length.
pub fn decode(salt: &str, min_length: usize, code: &str) -> (r: Option<u64>)
    requires
        min_length >= 1,
    ensures
        forall|v: u64| code@ == harsh_code(salt@, min_length as int, v) ==> r == Some(v),
        r matches Some(v) ==> code@ == harsh_code(salt@, min_length as int, v),
{
    harsh_decode(salt, min_length, code)
}

/// Law (round trip): decoding the code that `encode` produced returns exactly
/// the encoded value, for every salt, minimum length and value.
pub fn encode_decode_round_trip(salt: &str, min_length: usize, value: u64) -> (r: Option<u64>)
    requires
        min_length >= 1,
    ensures
        r == Some(value),
{
    let code = encode(salt, min_length, value);
    decode(salt, min_length, code.as_str())
}

/// Law (uniqueness): distinct values are encoded as distinct codes under the
/// same salt and minimum length.
pub fn encode_distinct_values(salt: &str, min_length: usize, v1: u64, v2: u64) -> (r: (
    String,
    String,
))
    requires
        min_length >= 1,
        v1 != v2,
    ensures
        r.0@ == harsh_code(salt@, min_length as int, v1),
        r.1@ == harsh_code(salt@, min_length as int, v2),
        r.0@ != r.1@,
{
    let c1 = encode(salt, min_length, v1);
    let c2 = encode(salt, min_length, v2);
    let probe = decode(salt, min_length, c1.as_str());
    proof {
        assert(probe == Some(v1));
        if c1@ == c2@ {
            assert(probe == Some(v2));
            assert(false);
        }
    }
    (c1, c2)
}

} // verus!
