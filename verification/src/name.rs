//! Which byte strings may name a cached file.
//!
//! A file's name is a plain path component that reads as text and holds at
//! least one character that is not white space.

use vstd::prelude::*;
use vstd::string::StringSliceAdditionalSpecFns;
use vstd::utf8::{
    decode_first_scalar, decode_utf8, encode_utf8_decode_utf8, length_of_first_scalar,
    pop_first_scalar, valid_utf8,
};

use crate::path::{is_plain, DOT, SEPARATOR};

verus! {

/// Whether `c` has the Unicode property `White_Space`.
pub open spec fn is_white_space(c: char) -> bool {
    let code = c as u32;
    ||| 0x09 <= code <= 0x0d
    ||| code == 0x20
    ||| code == 0x85
    ||| code == 0xa0
    ||| code == 0x1680
    ||| 0x2000 <= code <= 0x200a
    ||| code == 0x2028
    ||| code == 0x2029
    ||| code == 0x202f
    ||| code == 0x205f
    ||| code == 0x3000
}

/// Whether `text` holds nothing but white space; the empty text does.
pub open spec fn is_blank(text: Seq<char>) -> bool {
    forall|i: int| 0 <= i < text.len() ==> is_white_space(#[trigger] text[i])
}

/// Whether the bytes `name` read as text that is not blank.
pub open spec fn is_legible(name: Seq<u8>) -> bool {
    valid_utf8(name) && !is_blank(decode_utf8(name))
}

/// Whether `component` may name a cached file: it is a plain name and legible.
pub open spec fn is_file_name(component: Seq<u8>) -> bool {
    is_plain(component) && is_legible(component)
}

/// The text that `bytes` are the UTF-8 encoding of, by
/// `core::str::from_utf8`.  Taken on trust of that function: it finds a text
/// exactly where `bytes` are valid UTF-8, and the text it finds is made of
/// the very bytes it was given.
#[verifier::external_body]
fn text_of(bytes: &[u8]) -> (text: Option<&str>)
    ensures
        text is Some <==> valid_utf8(bytes@),
        text matches Some(t) ==> t.spec_bytes() == bytes@,
{
    core::str::from_utf8(bytes).ok()
}

/// Whether `c` is white space.
pub fn white_space(c: char) -> (white: bool)
    ensures
        white == is_white_space(c),
{
    let code: u32 = c as u32;
    (0x09 <= code && code <= 0x0d) || code == 0x20 || code == 0x85 || code == 0xa0
        || code == 0x1680 || (0x2000 <= code && code <= 0x200a) || code == 0x2028
        || code == 0x2029 || code == 0x202f || code == 0x205f || code == 0x3000
}

/// Whether the bytes `name` read as text that is not blank.
pub fn legible(name: &[u8]) -> (legible: bool)
    ensures
        legible == is_legible(name@),
{
    match text_of(name) {
        None => false,
        Some(text) => {
            proof {
                encode_utf8_decode_utf8(text@);
            }
            let mut blank = true;
            for c in it: text.chars()
                invariant
                    it.seq() == text@,
                    blank == is_blank(text@.take(it.index() as int)),
            {
                proof {
                    let seen = text@.take(it.index() as int);
                    let next = text@.take(it.index() + 1);
                    assert(c == text@[it.index() as int]);
                    assert(next[it.index() as int] == c);
                    assert(forall|i: int| 0 <= i < seen.len() ==> seen[i] == next[i]);
                }
                if !white_space(c) {
                    blank = false;
                }
            }
            proof {
                assert(text@.take(text@.len() as int) =~= text@);
            }
            !blank
        },
    }
}

/// A byte below `0x80` in well-formed text is a character of that text: no
/// longer encoding holds such a byte.
pub proof fn lemma_ascii_byte_is_a_character(bytes: Seq<u8>, i: int)
    requires
        valid_utf8(bytes),
        0 <= i < bytes.len(),
        bytes[i] < 0x80,
    ensures
        exists|k: int|
            0 <= k < decode_utf8(bytes).len() && #[trigger] decode_utf8(bytes)[k] as u32
                == bytes[i] as u32,
    decreases bytes.len(),
{
    let width = length_of_first_scalar(bytes);
    let rest = pop_first_scalar(bytes);
    let text = decode_utf8(bytes);
    assert(text == seq![decode_first_scalar(bytes) as char] + decode_utf8(rest));
    if i < width {
        assert(i == 0 && width == 1);
        let byte = bytes[0];
        assert(byte & 0x7F == byte) by (bit_vector)
            requires
                byte < 0x80,
        ;
        assert(decode_first_scalar(bytes) == byte as u32);
        assert(text[0] == decode_first_scalar(bytes) as char);
        assert(text[0] as u32 == bytes[i] as u32);
    } else {
        assert(rest[i - width] == bytes[i]);
        lemma_ascii_byte_is_a_character(rest, i - width);
        let k = choose|k: int|
            0 <= k < decode_utf8(rest).len() && #[trigger] decode_utf8(rest)[k] as u32 == bytes[i] as u32;
        assert(text[k + 1] == decode_utf8(rest)[k]);
    }
}

/// Blank text holds neither a separator nor a dot.
pub proof fn lemma_blank_text_is_bare(bytes: Seq<u8>)
    requires
        valid_utf8(bytes),
        is_blank(decode_utf8(bytes)),
    ensures
        forall|i: int|
            0 <= i < bytes.len() ==> #[trigger] bytes[i] != SEPARATOR && bytes[i]
                != DOT,
{
    assert forall|i: int| 0 <= i < bytes.len() implies #[trigger] bytes[i]
        != SEPARATOR && bytes[i] != DOT by {
        if bytes[i] == SEPARATOR || bytes[i] == DOT {
            lemma_ascii_byte_is_a_character(bytes, i);
            let k = choose|k: int|
                0 <= k < decode_utf8(bytes).len() && #[trigger] decode_utf8(bytes)[k] as u32
                    == bytes[i] as u32;
            assert(is_white_space(decode_utf8(bytes)[k]));
        }
    }
}

} // verus!
