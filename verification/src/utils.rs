//! Helpers for showing a chain to a reader.

use vstd::prelude::*;
use vstd::string::StringExecFns;
use vstd::utf8::{
    decode_utf8, encode_utf8, encode_utf8_decode_utf8, encode_utf8_valid_utf8, is_ascii_chars,
    is_ascii_chars_encode_utf8, is_char_boundary, is_char_boundary_iff_not_is_continuation_byte,
    is_char_boundary_start_end_of_seq,
};

verus! {

/// How many bytes of the end of a text are kept when it is shortened to
/// `max_length` bytes: what the first half and the three dots leave.
pub open spec fn kept_tail(max_length: int) -> int {
    max_length - max_length / 2 - 3
}

/// A text of these UTF-8 bytes can be shortened to `max_length` bytes:
/// there is room for the dots, and neither cut falls inside a character.
pub open spec fn can_shorten(bytes: Seq<u8>, max_length: int) -> bool {
    &&& max_length >= 5
    &&& is_char_boundary(bytes, max_length / 2)
    &&& is_char_boundary(bytes, bytes.len() - kept_tail(max_length))
}

/// The text of these UTF-8 bytes shortened to `max_length` bytes: its first
/// `max_length / 2` bytes, three dots, and its last `kept_tail(max_length)`
/// bytes.
pub open spec fn shortened(bytes: Seq<u8>, max_length: int) -> Seq<char> {
    decode_utf8(bytes.subrange(0, max_length / 2)) + "..."@ + decode_utf8(
        bytes.subrange(bytes.len() - kept_tail(max_length), bytes.len() as int),
    )
}

/// `text` can be shown in `max_length` bytes: it is that short, or it can be
/// shortened.
pub open spec fn can_format(text: Seq<char>, max_length: int) -> bool {
    encode_utf8(text).len() <= max_length || can_shorten(encode_utf8(text), max_length)
}

/// `text` as it is shown in `max_length` bytes: whole if it has no more
/// bytes than that, else shortened.
pub open spec fn formatted(text: Seq<char>, max_length: int) -> Seq<char> {
    if encode_utf8(text).len() <= max_length {
        text
    } else {
        shortened(encode_utf8(text), max_length)
    }
}

/// A text of ASCII characters can be cut at any place.
pub proof fn lemma_ascii_text_has_boundaries(text: Seq<char>, index: int)
    requires
        is_ascii_chars(text),
        0 <= index <= text.len(),
    ensures
        encode_utf8(text).len() == text.len(),
        is_char_boundary(encode_utf8(text), index),
{
    let bytes = encode_utf8(text);
    is_ascii_chars_encode_utf8(text);
    encode_utf8_valid_utf8(text);
    if index == text.len() {
        is_char_boundary_start_end_of_seq(bytes);
    } else {
        assert(bytes[index] == text[index] as u8);
        is_char_boundary_iff_not_is_continuation_byte(bytes, index);
    }
}

/// A text of ASCII characters, such as a hash in hexadecimal, can be shown
/// in any number of bytes from five on.
pub proof fn lemma_ascii_text_can_be_formatted(text: Seq<char>, max_length: int)
    requires
        is_ascii_chars(text),
        max_length >= 5,
    ensures
        can_format(text, max_length),
{
    lemma_ascii_text_has_boundaries(text, 0);
    if text.len() > max_length {
        lemma_ascii_text_has_boundaries(text, max_length / 2);
        lemma_ascii_text_has_boundaries(text, text.len() - kept_tail(max_length));
    }
}

/// A hash for display: as it is if it has at most `max_length` bytes, else
/// its beginning and its end with three dots between them, `max_length`
/// bytes in all.
pub fn format_hash(hash: &str, max_length: usize) -> (shown: String)
    requires
        can_format(hash@, max_length as int),
    ensures
        shown@ == formatted(hash@, max_length as int),
{
    let length = hash.as_bytes().len();
    if length <= max_length {
        return String::from_str(hash);
    }
    let half = max_length / 2;
    let tail = max_length - half - 3;
    let (head, _) = hash.split_at(half);
    let (_, end) = hash.split_at(length - tail);
    let mut shown = String::from_str(head);
    shown.append("...");
    shown.append(end);
    proof {
        encode_utf8_decode_utf8(head@);
        encode_utf8_decode_utf8(end@);
    }
    shown
}

/// A hash for display, as `format_hash` gives it; `None` for a hash that is
/// longer than `max_length` bytes and cannot be shortened to that.
pub fn checked_format_hash(hash: &str, max_length: usize) -> (shown: Option<String>)
    ensures
        match shown {
            Some(text) => can_format(hash@, max_length as int) && text@ == formatted(
                hash@,
                max_length as int,
            ),
            None => !can_format(hash@, max_length as int),
        },
{
    let length = hash.as_bytes().len();
    if length > max_length {
        if max_length < 5 {
            return None;
        }
        let half = max_length / 2;
        let tail = max_length - half - 3;
        if !hash.is_char_boundary(half) || !hash.is_char_boundary(length - tail) {
            return None;
        }
    }
    Some(format_hash(hash, max_length))
}

} // verus!
