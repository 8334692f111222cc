//! What holds of the decoder on every input.

use vstd::prelude::*;
use crate::decoder::BencodeDecoder;
use crate::error::ErrorView;
use crate::grammar::{
    encode_byte_string, encode_integer, holds_at, lemma_text_end, scan_body, scan_length,
    scan_token, text_of, Scanned,
};
use crate::error::{crowded_union_detail, empty_union_detail};
use crate::model::{DecoderView, Frame, Step, MAX_DEPTH};
use crate::text::{
    decimal_digits, decimal_i64, decimal_text, is_digit, is_integer_char, lemma_decimal_digits,
    lemma_decimal_text_round_trip,
};
use crate::token::TokenView;
use crate::visit::{IdentifierView, VisitView};

verus! {

/// Wherever the input holds the encoding of an integer `n`, one scan from
/// there gives the token of `n` and stops right behind the encoding.
pub proof fn law_scan_integer(input: Seq<u8>, from: int, n: i64)
    requires
        holds_at(input, from, encode_integer(n)),
    ensures
        scan_token(input, from) == (Scanned {
            outcome: Ok::<TokenView, ErrorView>(TokenView::Integer(n)),
            rest: from + encode_integer(n).len(),
        }),
{
    let text = decimal_text(n as int);
    let piece = encode_integer(n);
    let end = from + 1 + text.len();
    lemma_decimal_text_round_trip(n);
    assert forall|i: int| 0 <= i < piece.len() implies input[from + i] == #[trigger] piece[i] by {
        assert(input.subrange(from, from + piece.len())[i] == input[from + i]);
    }
    assert(input[from] == piece[0]);
    assert(input[end] == piece[end - from]);
    assert forall|i: int| from + 1 <= i < end implies #[trigger] input[i] == text[i - from - 1] as u8
        && is_integer_char(text[i - from - 1]) by {
        assert(input[i] == piece[i - from]);
    }
    lemma_text_end(input, from + 1, 0x65, end);
    assert(text_of(input.subrange(from + 1, end)) =~= text);
}

/// Wherever the input holds the encoding of a byte string `bytes`, one
/// scan from there gives the token of `bytes` and stops right behind the
/// encoding. The length has to fit the 64 bits that a length is read into.
pub proof fn law_scan_byte_string(input: Seq<u8>, from: int, bytes: Seq<u8>)
    requires
        bytes.len() <= i64::MAX,
        holds_at(input, from, encode_byte_string(bytes)),
    ensures
        scan_token(input, from) == (Scanned {
            outcome: Ok::<TokenView, ErrorView>(TokenView::ByteString(bytes)),
            rest: from + encode_byte_string(bytes).len(),
        }),
{
    let digits = decimal_digits(bytes.len());
    let piece = encode_byte_string(bytes);
    let colon = from + digits.len();
    lemma_decimal_digits(bytes.len());
    assert forall|i: int| 0 <= i < piece.len() implies input[from + i] == #[trigger] piece[i] by {
        assert(input.subrange(from, from + piece.len())[i] == input[from + i]);
    }
    assert(input[from] == piece[0]);
    assert(is_digit(digits[0]));
    assert(input[colon] == piece[colon - from]);
    assert forall|i: int| from <= i < colon implies #[trigger] input[i] == digits[i - from] as u8
        && is_digit(digits[i - from]) by {
        assert(input[i] == piece[i - from]);
    }
    lemma_text_end(input, from + 1, 0x3a, colon);
    let first = input[from] as char;
    let text = seq![first] + text_of(input.subrange(from + 1, colon));
    assert(text =~= digits);
    assert(decimal_i64(text) == Some(bytes.len() as i64));
    assert(scan_length(input, from + 1, first) == (Scanned {
        outcome: Ok::<i64, ErrorView>(bytes.len() as i64),
        rest: colon + 1,
    }));
    assert(input.subrange(colon + 1, colon + 1 + bytes.len()) =~= bytes) by {
        assert forall|i: int| 0 <= i < bytes.len() implies input[colon + 1 + i] == bytes[i] by {
            assert(input[colon + 1 + i] == piece[colon + 1 + i - from]);
        }
    }
    if bytes.len() == 0 {
        assert(bytes =~= Seq::<u8>::empty());
    }
    assert(scan_body(input, colon + 1, bytes.len() as i64) == (Scanned {
        outcome: Ok::<Seq<u8>, ErrorView>(bytes),
        rest: colon + 1 + bytes.len(),
    }));
}

/// Decoding the text form of any 64-bit integer gives that integer: a
/// fresh decoder over `i<n>e`, asked for a value, answers with `n`, has
/// then consumed the whole input, and holds no token back.
pub proof fn law_integer_round_trip(n: i64)
    ensures
        DecoderView::fresh(encode_integer(n)).any() == (Step {
            next: DecoderView::fresh(encode_integer(n)).at(encode_integer(n).len() as int),
            answer: Ok::<VisitView, ErrorView>(VisitView::Integer(n)),
        }),
{
    let input = encode_integer(n);
    assert(input.subrange(0, input.len() as int) =~= input);
    law_scan_integer(input, 0, n);
    let fresh = DecoderView::fresh(input);
    let ready = fresh.ensured().next;
    assert(ready.stack =~= seq![TokenView::Integer(n)]);
    assert(ready.discarded().stack =~= fresh.stack);
}

/// Decoding the encoding of any byte string gives those bytes: a fresh
/// decoder over `<length>:<bytes>`, asked for a value, answers with the
/// bytes, has then consumed the whole input, and holds no token back. The
/// length has to fit the 64 bits that a length is read into.
pub proof fn law_byte_string_round_trip(bytes: Seq<u8>)
    requires
        bytes.len() <= i64::MAX,
    ensures
        DecoderView::fresh(encode_byte_string(bytes)).any() == (Step {
            next: DecoderView::fresh(encode_byte_string(bytes)).at(
                encode_byte_string(bytes).len() as int,
            ),
            answer: Ok::<VisitView, ErrorView>(VisitView::Bytes(bytes)),
        }),
{
    let input = encode_byte_string(bytes);
    assert(input.subrange(0, input.len() as int) =~= input);
    law_scan_byte_string(input, 0, bytes);
    let fresh = DecoderView::fresh(input);
    let ready = fresh.ensured().next;
    assert(ready.stack =~= seq![TokenView::ByteString(bytes)]);
    assert(ready.discarded().stack =~= fresh.stack);
}

/// A scan that fails is what a request for a value fails with: whatever
/// is staged or open, where no token is staged and the scan at the
/// position fails, the answer is the error of that scan.
pub proof fn law_scan_failure_is_reported(state: DecoderView, error: ErrorView)
    requires
        state.stack.len() == 0,
        scan_token(state.input, state.pos).outcome == Err::<TokenView, ErrorView>(error),
    ensures
        state.any().answer == Err::<VisitView, ErrorView>(error),
        state.structure().answer == Err::<VisitView, ErrorView>(error),
        state.option().answer == Err::<VisitView, ErrorView>(error),
        state.union().answer == Err::<(), ErrorView>(error),
        state.probed().answer == Err::<bool, ErrorView>(error),
{
}

/// Nothing but `End` ends a container: the probe for the next element or
/// key answers `false` exactly where the token that is staged for it is
/// `End`, and it then has closed the container.
pub proof fn law_only_end_exhausts(state: DecoderView)
    ensures
        state.probed().answer == Ok::<bool, ErrorView>(false) <==> state.ensured().next.top()
            == Some(TokenView::End),
        state.probed().answer == Ok::<bool, ErrorView>(false) ==> state.probed().next
            == state.ensured().next.closed(),
{
}

/// A tagged union is named by the sole key of its dictionary. Wherever
/// the input holds `d` and the encoding of a byte string `key`, a request
/// for a tagged union consumes both, opens the union and stages the key;
/// the identifier is then `key`; and the step to the payload drops the
/// key, so that the payload is decoded from right behind it.
pub proof fn law_union_is_named_by_its_key(state: DecoderView, key: Seq<u8>)
    requires
        state.stack.len() == 0,
        state.frames.len() < MAX_DEPTH,
        key.len() <= i64::MAX,
        holds_at(state.input, state.pos, seq![0x64u8] + encode_byte_string(key)),
    ensures
        state.union() == (Step {
            next: DecoderView {
                pos: state.pos + 1 + encode_byte_string(key).len(),
                stack: seq![TokenView::ByteString(key)],
                frames: state.frames.push(Frame::Union),
                ..state
            },
            answer: Ok::<(), ErrorView>(()),
        }),
        state.union().next.identifier() == Ok::<IdentifierView, ErrorView>(
            IdentifierView::Field(key),
        ),
        state.union().next.valued() == (DecoderView {
            pos: state.pos + 1 + encode_byte_string(key).len(),
            frames: state.frames.push(Frame::Union),
            ..state
        }).ensured(),
{
    let input = state.input;
    let piece = seq![0x64u8] + encode_byte_string(key);
    assert(input[state.pos] == piece[0]) by {
        assert(input.subrange(state.pos, state.pos + piece.len())[0] == input[state.pos]);
    }
    assert(input.subrange(state.pos + 1, state.pos + 1 + encode_byte_string(key).len())
        =~= encode_byte_string(key)) by {
        assert forall|i: int| 0 <= i < encode_byte_string(key).len() implies input[state.pos + 1
            + i] == encode_byte_string(key)[i] by {
            assert(input.subrange(state.pos, state.pos + piece.len())[i + 1] == input[state.pos
                + 1 + i]);
            assert(piece[i + 1] == encode_byte_string(key)[i]);
        }
    }
    law_scan_byte_string(input, state.pos + 1, key);
    let ready = state.ensured().next;
    assert(ready.stack =~= seq![TokenView::DictOpen]);
    let rest = ready.discarded();
    assert(rest.stack =~= Seq::<TokenView>::empty());
    let open = rest.opened(Frame::Union, VisitView::Dict).next;
    let staged = open.ensured().next;
    assert(staged.stack =~= seq![TokenView::ByteString(key)]);
    assert(staged.discarded().stack =~= state.stack);
}

/// A tagged union without entry is unknown. Wherever the input holds
/// `de`, a request for a tagged union consumes both bytes, fails with
/// `UnknownVariant`, and leaves nothing staged and nothing open.
pub proof fn law_union_without_entry_is_unknown(state: DecoderView)
    requires
        state.stack.len() == 0,
        state.frames.len() < MAX_DEPTH,
        holds_at(state.input, state.pos, seq![0x64u8, 0x65u8]),
    ensures
        state.union() == (Step {
            next: state.at(state.pos + 2),
            answer: Err::<(), ErrorView>(ErrorView::UnknownVariant(empty_union_detail())),
        }),
{
    let input = state.input;
    assert(input[state.pos] == 0x64 && input[state.pos + 1] == 0x65) by {
        assert(input.subrange(state.pos, state.pos + 2)[0] == input[state.pos]);
        assert(input.subrange(state.pos, state.pos + 2)[1] == input[state.pos + 1]);
    }
    let ready = state.ensured().next;
    assert(ready.stack =~= seq![TokenView::DictOpen]);
    let rest = ready.discarded();
    assert(rest.stack =~= Seq::<TokenView>::empty());
    let open = rest.opened(Frame::Union, VisitView::Dict).next;
    let staged = open.ensured().next;
    assert(staged.stack =~= seq![TokenView::End]);
    assert(staged.closed().stack =~= state.stack);
    assert(staged.closed().frames =~= state.frames);
}

/// A tagged union holds one entry. Behind its payload, `End` closes it:
/// the `End` is consumed and the union's frame is dropped. Any other
/// token there starts a second entry and makes the variant unknown.
pub proof fn law_union_holds_one_entry(state: DecoderView)
    requires
        state.stack.len() == 0,
        state.frames.len() > 0,
    ensures
        scan_token(state.input, state.pos).outcome == Ok::<TokenView, ErrorView>(TokenView::End)
            ==> state.sealed() == (Step {
            next: DecoderView {
                pos: scan_token(state.input, state.pos).rest,
                frames: state.frames.drop_last(),
                ..state
            },
            answer: Ok::<(), ErrorView>(()),
        }),
        forall|token: TokenView|
            scan_token(state.input, state.pos).outcome == Ok::<TokenView, ErrorView>(token)
                && token != TokenView::End ==> state.sealed().answer == Err::<(), ErrorView>(
                ErrorView::UnknownVariant(crowded_union_detail()),
            ),
{
    let ready = state.ensured().next;
    if scan_token(state.input, state.pos).outcome == Ok::<TokenView, ErrorView>(TokenView::End) {
        assert(ready.stack =~= seq![TokenView::End]);
        assert(ready.closed().stack =~= state.stack);
    }
    assert forall|token: TokenView|
        scan_token(state.input, state.pos).outcome == Ok::<TokenView, ErrorView>(token) && token
            != TokenView::End implies state.sealed().answer == Err::<(), ErrorView>(
        ErrorView::UnknownVariant(crowded_union_detail()),
    ) by {
        assert(ready.stack =~= seq![token]);
    }
}

/// A struct leaves nothing behind. Where the name of a field is staged in
/// struct mode, the step to the value drops it before anything is
/// scanned; and where `End` is staged for the probe of the next key, the
/// probe pops it and closes the struct, so that the stack and the open
/// containers are as they were before the struct was opened.
pub proof fn law_struct_leaves_nothing_staged(before: DecoderView, name: Seq<u8>, pos: int)
    requires
        before.stack.len() == 0,
    ensures
        (DecoderView {
            pos,
            stack: seq![TokenView::ByteString(name)],
            frames: before.frames.push(Frame::Struct),
            ..before
        }).valued() == (DecoderView {
            pos,
            frames: before.frames.push(Frame::Struct),
            ..before
        }).ensured(),
        (DecoderView {
            pos,
            stack: seq![TokenView::End],
            frames: before.frames.push(Frame::Struct),
            ..before
        }).probed() == (Step { next: before.at(pos), answer: Ok::<bool, ErrorView>(false) }),
{
    let keyed = DecoderView {
        pos,
        stack: seq![TokenView::ByteString(name)],
        frames: before.frames.push(Frame::Struct),
        ..before
    };
    assert(keyed.discarded().stack =~= before.stack);
    let ended = DecoderView {
        pos,
        stack: seq![TokenView::End],
        frames: before.frames.push(Frame::Struct),
        ..before
    };
    assert(ended.closed().stack =~= before.stack);
    assert(ended.closed().frames =~= before.frames);
}

/// The stack is for one token of lookahead: where at most one token is
/// staged before a request, at most one is staged after it, and none
/// after a request that delivered a value.
pub proof fn law_lookahead_is_one_token(state: DecoderView)
    requires
        state.stack.len() <= 1,
    ensures
        state.ensured().next.stack.len() <= 1,
        state.any().next.stack.len() <= 1,
        state.any().answer is Ok ==> state.any().next.stack.len() == 0,
        state.structure().next.stack.len() <= 1,
        state.structure().answer is Ok ==> state.structure().next.stack.len() == 0,
        state.option().next.stack.len() <= 1,
        state.union().next.stack.len() <= 1,
        state.probed().next.stack.len() <= 1,
        state.probed().answer == Ok::<bool, ErrorView>(false) ==> state.probed().next.stack.len()
            == 0,
        state.valued().next.stack.len() <= 1,
        state.sealed().next.stack.len() <= 1,
        state.sealed().answer is Ok ==> state.sealed().next.stack.len() == 0,
{
}

/// No more than [`MAX_DEPTH`] containers are ever open: a request made
/// within the limit leaves the decoder within the limit.
pub proof fn law_depth_is_bounded(state: DecoderView)
    requires
        state.frames.len() <= MAX_DEPTH,
    ensures
        state.any().next.frames.len() <= MAX_DEPTH,
        state.structure().next.frames.len() <= MAX_DEPTH,
        state.option().next.frames.len() <= MAX_DEPTH,
        state.union().next.frames.len() <= MAX_DEPTH,
        state.probed().next.frames.len() <= MAX_DEPTH,
        state.valued().next.frames.len() <= MAX_DEPTH,
        state.sealed().next.frames.len() <= MAX_DEPTH,
{
}

/// Two decoders over equal input, neither of which has consumed, staged
/// or opened anything, stand alike, and answer every request alike.
pub proof fn law_decoders_over_equal_input_agree(first: BencodeDecoder, second: BencodeDecoder)
    requires
        first@.input == second@.input,
        first@.pos == 0 && second@.pos == 0,
        first@.stack.len() == 0 && second@.stack.len() == 0,
        first@.frames.len() == 0 && second@.frames.len() == 0,
    ensures
        first@ == second@,
        first@ == DecoderView::fresh(first@.input),
        first@.any() == second@.any(),
        first@.option() == second@.option(),
        first@.structure() == second@.structure(),
        first@.union() == second@.union(),
        first@.identifier() == second@.identifier(),
        first@.probed() == second@.probed(),
        first@.valued() == second@.valued(),
        first@.sealed() == second@.sealed(),
{
    assert(first@.stack =~= second@.stack);
    assert(first@.frames =~= second@.frames);
    assert(first@.stack =~= Seq::<TokenView>::empty());
    assert(first@.frames =~= Seq::<Frame>::empty());
}

} // verus!
