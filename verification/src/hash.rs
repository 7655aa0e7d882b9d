//! The hash engine: the fingerprint of a block's fields.
//!
//! A fingerprint is the SHA-256 digest of the six hashed fields written one
//! after the other as text, rendered as 64 lower-case hexadecimal digits.

use crate::text::{
    append_decimal, append_signed_decimal, decimal_text, digit_char, digit_str,
    signed_decimal_text,
};
use sha2::Digest;
use vstd::prelude::*;
use vstd::string::StringExecFns;
use vstd::utf8::encode_utf8;

verus! {

/// The SHA-256 digest of `input`, as the `sha2` crate computes it.
pub uninterp spec fn sha256_digest(input: Seq<u8>) -> Seq<u8>;

/// Calls `sha2::Sha256::digest`.
///
/// Trusted: the result is the SHA-256 digest of `input`, a function of the
/// input bytes alone, and it is 32 bytes long.
#[verifier::external_body]
fn sha256(input: &[u8]) -> (digest: Vec<u8>)
    ensures
        digest@ == sha256_digest(input@),
        digest@.len() == 32,
{
    sha2::Sha256::digest(input).to_vec()
}

/// The digit, from 0 to 15, at position `i` of the hexadecimal rendering of
/// `bytes`: the high half of a byte comes before its low half.
pub open spec fn hex_digit_at(bytes: Seq<u8>, i: int) -> int {
    if i % 2 == 0 {
        bytes[i / 2] as int / 16
    } else {
        bytes[i / 2] as int % 16
    }
}

/// `bytes` in lower-case hexadecimal, two digits for each byte.
pub open spec fn hex_text(bytes: Seq<u8>) -> Seq<char> {
    Seq::new(2 * bytes.len(), |i: int| digit_char(hex_digit_at(bytes, i)))
}

/// Whether `c` is one of `0`-`9`, `a`-`f`.
pub open spec fn is_lower_hex(c: char) -> bool {
    exists|d: int| 0 <= d < 16 && c == digit_char(d)
}

/// Two byte sequences with the same hexadecimal rendering are the same.
pub proof fn lemma_hex_text_is_injective(a: Seq<u8>, b: Seq<u8>)
    requires
        hex_text(a) == hex_text(b),
    ensures
        a == b,
{
    assert(hex_text(a).len() == 2 * a.len());
    assert(hex_text(b).len() == 2 * b.len());
    assert forall|i: int| 0 <= i < a.len() implies a[i] == b[i] by {
        assert(hex_text(a)[2 * i] == digit_char(hex_digit_at(a, 2 * i)));
        assert(hex_text(b)[2 * i] == digit_char(hex_digit_at(b, 2 * i)));
        assert(hex_text(a)[2 * i + 1] == digit_char(hex_digit_at(a, 2 * i + 1)));
        assert(hex_text(b)[2 * i + 1] == digit_char(hex_digit_at(b, 2 * i + 1)));
        assert(a[i] as int / 16 == b[i] as int / 16);
        assert(a[i] as int % 16 == b[i] as int % 16);
    }
    assert(a =~= b);
}

/// Renders `bytes` in lower-case hexadecimal.
pub fn to_hex(bytes: &[u8]) -> (text: String)
    ensures
        text@ == hex_text(bytes@),
{
    let mut text = String::new();
    let mut i: usize = 0;
    while i < bytes.len()
        invariant
            i <= bytes.len(),
            text@.len() == 2 * i,
            forall|j: int| 0 <= j < 2 * i ==> text@[j] == digit_char(hex_digit_at(bytes@, j)),
        decreases bytes.len() - i,
    {
        let byte = bytes[i];
        let ghost before = text@;
        text.append(digit_str(byte / 16));
        text.append(digit_str(byte % 16));
        proof {
            assert(text@ =~= before.push(digit_char(byte as int / 16)).push(
                digit_char(byte as int % 16),
            ));
            assert(hex_digit_at(bytes@, 2 * i) == byte as int / 16);
            assert(hex_digit_at(bytes@, 2 * i + 1) == byte as int % 16);
        }
        i += 1;
    }
    assert(text@ =~= hex_text(bytes@));
    text
}

/// The text that is hashed: the six fields in their fixed order, integers in
/// decimal, nothing between them.
pub open spec fn preimage_text(
    index: u64,
    timestamp_seconds: i64,
    data: Seq<char>,
    previous_hash: Seq<char>,
    nonce: u64,
    difficulty: u32,
) -> Seq<char> {
    decimal_text(index as nat) + signed_decimal_text(timestamp_seconds as int) + data
        + previous_hash + decimal_text(nonce as nat) + decimal_text(difficulty as nat)
}

/// The fingerprint of the six fields.
pub open spec fn fingerprint_text(
    index: u64,
    timestamp_seconds: i64,
    data: Seq<char>,
    previous_hash: Seq<char>,
    nonce: u64,
    difficulty: u32,
) -> Seq<char> {
    hex_text(
        sha256_digest(
            encode_utf8(
                preimage_text(index, timestamp_seconds, data, previous_hash, nonce, difficulty),
            ),
        ),
    )
}

/// Builds the text that is hashed.
pub fn preimage(
    index: u64,
    timestamp_seconds: i64,
    data: &str,
    previous_hash: &str,
    nonce: u64,
    difficulty: u32,
) -> (text: String)
    ensures
        text@ == preimage_text(index, timestamp_seconds, data@, previous_hash@, nonce, difficulty),
{
    let mut text = String::new();
    append_decimal(&mut text, index);
    append_signed_decimal(&mut text, timestamp_seconds);
    text.append(data);
    text.append(previous_hash);
    append_decimal(&mut text, nonce);
    append_decimal(&mut text, difficulty as u64);
    assert(text@ =~= preimage_text(
        index,
        timestamp_seconds,
        data@,
        previous_hash@,
        nonce,
        difficulty,
    ));
    text
}

/// Computes the fingerprint of the six fields: 64 lower-case hexadecimal digits.
pub fn fingerprint(
    index: u64,
    timestamp_seconds: i64,
    data: &str,
    previous_hash: &str,
    nonce: u64,
    difficulty: u32,
) -> (hash: String)
    ensures
        hash@ == fingerprint_text(
            index,
            timestamp_seconds,
            data@,
            previous_hash@,
            nonce,
            difficulty,
        ),
        hash@.len() == 64,
        forall|i: int| 0 <= i < 64 ==> is_lower_hex(#[trigger] hash@[i]),
{
    let text = preimage(index, timestamp_seconds, data, previous_hash, nonce, difficulty);
    let digest = sha256(text.as_str().as_bytes());
    let hash = to_hex(digest.as_slice());
    proof {
        assert forall|i: int| 0 <= i < 64 implies is_lower_hex(#[trigger] hash@[i]) by {
            let d = hex_digit_at(digest@, i);
            assert(0 <= d < 16);
            assert(hash@[i] == digit_char(d));
        }
    }
    hash
}

} // verus!
