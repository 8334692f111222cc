//! The wire grammar, as functions on byte sequences.
//!
//! | construct   | bytes                         |
//! |-------------|-------------------------------|
//! | integer     | `i` [`-`] 1\*DIGIT `e`        |
//! | byte string | 1\*DIGIT `:` then that many bytes |
//! | list        | `l` value\* `e`               |
//! | dictionary  | `d` (key value)\* `e`         |
//!
//! Every function here takes the whole input and a position in it, and
//! says what one scan from that position comes to and where it stops.

use vstd::prelude::*;
use crate::error::{ErrorView, bad_integer_detail, bad_length_detail, not_text_detail};
use crate::text::{decimal_digits, decimal_i64, decimal_text};
use crate::token::TokenView;

verus! {

/// What one scan came to, and the position of the first byte that it did
/// not consume. A failed scan consumes bytes too.
pub struct Scanned<T> {
    pub outcome: Result<T, ErrorView>,
    pub rest: int,
}

/// The characters that a run of bytes stands for, byte by byte.
pub open spec fn text_of(bytes: Seq<u8>) -> Seq<char> {
    Seq::new(bytes.len(), |i: int| bytes[i] as char)
}

/// The bytes that a run of ASCII characters is written as, character by
/// character.
pub open spec fn bytes_of(text: Seq<char>) -> Seq<u8> {
    Seq::new(text.len(), |i: int| text[i] as u8)
}

/// The encoding of the integer `n`: `i`, its text form, `e`.
pub open spec fn encode_integer(n: i64) -> Seq<u8> {
    seq![0x69u8] + bytes_of(decimal_text(n as int)) + seq![0x65u8]
}

/// The encoding of the byte string `bytes`: the decimal digits of its
/// length, `:`, the bytes themselves.
pub open spec fn encode_byte_string(bytes: Seq<u8>) -> Seq<u8> {
    bytes_of(decimal_digits(bytes.len())) + seq![0x3au8] + bytes
}

/// Whether `input` holds `piece` at the position `from`.
pub open spec fn holds_at(input: Seq<u8>, from: int, piece: Seq<u8>) -> bool {
    &&& 0 <= from
    &&& from + piece.len() <= input.len()
    &&& input.subrange(from, from + piece.len()) == piece
}

/// Whether `b` is an ASCII byte, that is, a text character on its own.
pub open spec fn is_ascii_byte(b: u8) -> bool {
    b < 0x80
}

/// Where a run of text that starts at `from` ends: the position of the
/// first byte that is `stop` or is outside ASCII, or the end of the input
/// if there is no such byte.
pub open spec fn text_end(input: Seq<u8>, from: int, stop: u8) -> int
    decreases input.len() - from,
{
    if from >= input.len() {
        from
    } else if input[from] == stop || !is_ascii_byte(input[from]) {
        from
    } else {
        text_end(input, from + 1, stop)
    }
}

/// A run of text ends at `end` if no byte before `end` stops it and the
/// byte at `end`, if there is one, does.
pub proof fn lemma_text_end(input: Seq<u8>, from: int, stop: u8, end: int)
    requires
        0 <= from <= end <= input.len(),
        forall|i: int| from <= i < end ==> #[trigger] input[i] != stop && is_ascii_byte(input[i]),
        end < input.len() ==> input[end] == stop || !is_ascii_byte(input[end]),
    ensures
        text_end(input, from, stop) == end,
    decreases end - from,
{
    if from < end {
        lemma_text_end(input, from + 1, stop, end);
    }
}

/// The scan of an integer whose `i` has been consumed: the text up to the
/// closing `e`, read as a decimal `i64`.
pub open spec fn scan_integer(input: Seq<u8>, from: int) -> Scanned<TokenView> {
    let end = text_end(input, from, 0x65);
    if end >= input.len() {
        Scanned { outcome: Err(ErrorView::EndOfStream), rest: end }
    } else if input[end] != 0x65 {
        Scanned { outcome: Err(ErrorView::InvalidValue(not_text_detail())), rest: end + 1 }
    } else {
        let text = text_of(input.subrange(from, end));
        match decimal_i64(text) {
            Some(value) => Scanned { outcome: Ok(TokenView::Integer(value)), rest: end + 1 },
            None => Scanned {
                outcome: Err(ErrorView::InvalidValue(bad_integer_detail(text))),
                rest: end + 1,
            },
        }
    }
}

/// The scan of a byte-string length whose first character, `first`, has
/// been consumed: `first` and the text up to the `:`, read as a decimal
/// `i64`.
pub open spec fn scan_length(input: Seq<u8>, from: int, first: char) -> Scanned<i64> {
    let end = text_end(input, from, 0x3a);
    if end >= input.len() {
        Scanned { outcome: Err(ErrorView::EndOfStream), rest: end }
    } else if input[end] != 0x3a {
        Scanned { outcome: Err(ErrorView::InvalidValue(not_text_detail())), rest: end + 1 }
    } else {
        let text = seq![first] + text_of(input.subrange(from, end));
        match decimal_i64(text) {
            Some(length) => Scanned { outcome: Ok(length), rest: end + 1 },
            None => Scanned {
                outcome: Err(ErrorView::InvalidValue(bad_length_detail(text))),
                rest: end + 1,
            },
        }
    }
}

/// The scan of `len` raw bytes. A length of zero or less asks for no
/// byte. A length beyond what is left fails and consumes what is left.
pub open spec fn scan_body(input: Seq<u8>, from: int, len: i64) -> Scanned<Seq<u8>> {
    if len <= 0 {
        Scanned { outcome: Ok(Seq::<u8>::empty()), rest: from }
    } else if from + len <= input.len() {
        Scanned { outcome: Ok(input.subrange(from, from + len)), rest: from + len }
    } else {
        Scanned { outcome: Err(ErrorView::EndOfStream), rest: input.len() as int }
    }
}

/// The scan of a byte string whose first length character, `first`, has
/// been consumed: the length, then the body.
pub open spec fn scan_byte_string(input: Seq<u8>, from: int, first: char) -> Scanned<TokenView> {
    let length = scan_length(input, from, first);
    match length.outcome {
        Err(error) => Scanned { outcome: Err(error), rest: length.rest },
        Ok(len) => {
            let body = scan_body(input, length.rest, len);
            match body.outcome {
                Err(error) => Scanned { outcome: Err(error), rest: body.rest },
                Ok(bytes) => Scanned { outcome: Ok(TokenView::ByteString(bytes)), rest: body.rest },
            }
        },
    }
}

/// The scan of one token. The marker byte decides: `l`, `d` and `e` are
/// tokens by themselves, `i` starts an integer, a digit starts a byte
/// string. No byte left, or any other byte, is the end of the stream.
pub open spec fn scan_token(input: Seq<u8>, from: int) -> Scanned<TokenView> {
    if from >= input.len() {
        Scanned { outcome: Err(ErrorView::EndOfStream), rest: from }
    } else {
        let marker = input[from];
        if marker == 0x6c {
            Scanned { outcome: Ok(TokenView::ListOpen), rest: from + 1 }
        } else if marker == 0x64 {
            Scanned { outcome: Ok(TokenView::DictOpen), rest: from + 1 }
        } else if marker == 0x65 {
            Scanned { outcome: Ok(TokenView::End), rest: from + 1 }
        } else if marker == 0x69 {
            scan_integer(input, from + 1)
        } else if 0x30 <= marker <= 0x39 {
            scan_byte_string(input, from + 1, marker as char)
        } else {
            Scanned { outcome: Err(ErrorView::EndOfStream), rest: from + 1 }
        }
    }
}

} // verus!
