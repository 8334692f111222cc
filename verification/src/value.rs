//! Whole values: what a sequence of requests reads from the encoding of a
//! value, however deeply its lists and dictionaries nest.

use vstd::prelude::*;
use crate::error::ErrorView;
use crate::grammar::{encode_byte_string, encode_integer, holds_at, scan_token};
use crate::laws::{law_scan_byte_string, law_scan_integer};
use crate::model::{DecoderView, Frame, Step, MAX_DEPTH};
use crate::token::TokenView;
use crate::visit::VisitView;

verus! {

/// A value of the format.
pub enum Value {
    /// An integer.
    Integer(i64),
    /// A byte string.
    Bytes(Seq<u8>),
    /// A list of values.
    List(Seq<Value>),
    /// A dictionary: keys with their values, in the order of the input.
    Dict(Seq<(Seq<u8>, Value)>),
}

/// The number of elements of a list, or of entries of a dictionary.
pub open spec fn width(v: Value) -> nat {
    match v {
        Value::List(items) => items.len(),
        Value::Dict(entries) => entries.len(),
        _ => 0,
    }
}

/// The encoding of `v`.
pub open spec fn encode(v: Value) -> Seq<u8>
    decreases v, width(v) + 1,
{
    match v {
        Value::Integer(n) => encode_integer(n),
        Value::Bytes(bytes) => encode_byte_string(bytes),
        Value::List(_) => seq![0x6cu8] + encode_tail(v, 0),
        Value::Dict(_) => seq![0x64u8] + encode_tail(v, 0),
    }
}

/// The encoding of the container `v` from its element or entry `i` on,
/// with the closing `e`.
pub open spec fn encode_tail(v: Value, i: nat) -> Seq<u8>
    decreases v, width(v) - i,
{
    match v {
        Value::List(items) => if i < items.len() {
            encode(items[i as int]) + encode_tail(v, i + 1)
        } else {
            seq![0x65u8]
        },
        Value::Dict(entries) => if i < entries.len() {
            encode_byte_string(entries[i as int].0) + encode(entries[i as int].1) + encode_tail(
                v,
                i + 1,
            )
        } else {
            seq![0x65u8]
        },
        _ => Seq::<u8>::empty(),
    }
}

/// Whether `v` can be decoded with `room` more containers to open: no
/// byte string in it is longer than a length can say, and its containers
/// nest no deeper than `room`.
pub open spec fn fits(v: Value, room: int) -> bool
    decreases v, width(v) + 1,
{
    match v {
        Value::Integer(_) => true,
        Value::Bytes(bytes) => bytes.len() <= i64::MAX,
        Value::List(_) => room > 0 && fits_tail(v, 0, room),
        Value::Dict(_) => room > 0 && fits_tail(v, 0, room),
    }
}

/// Whether the container `v` fits from its element or entry `i` on.
pub open spec fn fits_tail(v: Value, i: nat, room: int) -> bool
    decreases v, width(v) - i,
{
    match v {
        Value::List(items) => i < items.len() ==> fits(items[i as int], room - 1) && fits_tail(
            v,
            i + 1,
            room,
        ),
        Value::Dict(entries) => i < entries.len() ==> entries[i as int].0.len() <= i64::MAX
            && fits(entries[i as int].1, room - 1) && fits_tail(v, i + 1, room),
        _ => true,
    }
}

/// The state in which reading `v` leaves the decoder, where the requests
/// that a target of the shape of `v` makes are all answered as `v` says:
/// a request for a value; and for a container the probe before each
/// element or key, the key, the step to the value, and the probe that
/// finds the end. `None` where an answer is another.
pub open spec fn read(state: DecoderView, v: Value) -> Option<DecoderView>
    decreases v, width(v) + 1,
{
    let first = state.any();
    match v {
        Value::Integer(n) => if first.answer == Ok::<VisitView, ErrorView>(VisitView::Integer(n)) {
            Some(first.next)
        } else {
            None
        },
        Value::Bytes(bytes) => if first.answer == Ok::<VisitView, ErrorView>(
            VisitView::Bytes(bytes),
        ) {
            Some(first.next)
        } else {
            None
        },
        Value::List(_) => if first.answer == Ok::<VisitView, ErrorView>(VisitView::List) {
            read_tail(first.next, v, 0)
        } else {
            None
        },
        Value::Dict(_) => if first.answer == Ok::<VisitView, ErrorView>(VisitView::Dict) {
            read_tail(first.next, v, 0)
        } else {
            None
        },
    }
}

/// Reading the container `v` from its element or entry `i` on.
pub open spec fn read_tail(state: DecoderView, v: Value, i: nat) -> Option<DecoderView>
    decreases v, width(v) - i,
{
    let probe = state.probed();
    match v {
        Value::List(items) => if i < items.len() {
            if probe.answer == Ok::<bool, ErrorView>(true) {
                match read(probe.next, items[i as int]) {
                    Some(next) => read_tail(next, v, i + 1),
                    None => None,
                }
            } else {
                None
            }
        } else if probe.answer == Ok::<bool, ErrorView>(false) {
            Some(probe.next)
        } else {
            None
        },
        Value::Dict(entries) => if i < entries.len() {
            let key = probe.next.any();
            let value = key.next.valued();
            if probe.answer == Ok::<bool, ErrorView>(true) && key.answer == Ok::<
                VisitView,
                ErrorView,
            >(VisitView::Bytes(entries[i as int].0)) && value.answer is Ok {
                match read(value.next, entries[i as int].1) {
                    Some(next) => read_tail(next, v, i + 1),
                    None => None,
                }
            } else {
                None
            }
        } else if probe.answer == Ok::<bool, ErrorView>(false) {
            Some(probe.next)
        } else {
            None
        },
        _ => None,
    }
}

/// Where the input holds two pieces one behind the other, it holds each.
pub proof fn lemma_holds_at_split(input: Seq<u8>, from: int, first: Seq<u8>, second: Seq<u8>)
    requires
        holds_at(input, from, first + second),
    ensures
        holds_at(input, from, first),
        holds_at(input, from + first.len(), second),
{
    let whole = first + second;
    assert(input.subrange(from, from + first.len()) =~= first) by {
        assert forall|i: int| 0 <= i < first.len() implies input[from + i] == first[i] by {
            assert(input.subrange(from, from + whole.len())[i] == whole[i]);
        }
    }
    assert(input.subrange(from + first.len(), from + first.len() + second.len()) =~= second) by {
        assert forall|i: int| 0 <= i < second.len() implies input[from + first.len() + i]
            == second[i] by {
            assert(input.subrange(from, from + whole.len())[first.len() + i] == whole[first.len()
                + i]);
        }
    }
}

/// A request for a value that is answered with a value found a token
/// that is no `End`. The probe before it would have found the same token
/// and left it staged, and with that token staged the request is
/// answered alike.
pub proof fn lemma_answered(state: DecoderView)
    requires
        state.any().answer is Ok,
    ensures
        state.ensured().answer is Ok,
        state.probed() == (Step { next: state.ensured().next, answer: Ok::<bool, ErrorView>(true) }),
        state.ensured().next.any() == state.any(),
        state.ensured().next.ensured() == (Step {
            next: state.ensured().next,
            answer: Ok::<(), ErrorView>(()),
        }),
{
}

/// Reading starts with a request for a value, and depends on the state
/// through the answer to that request alone.
pub proof fn lemma_read_follows_first_answer(first: DecoderView, second: DecoderView, v: Value)
    requires
        first.any() == second.any(),
    ensures
        read(first, v) == read(second, v),
{
}

/// The encoding of a value is consumed exactly. Wherever the input holds
/// the encoding of `v`, with nothing staged and room for the containers
/// of `v`, reading `v` finds every answer as `v` says, ends right behind
/// the encoding, and leaves nothing staged and no container open that was
/// not open before.
pub proof fn law_value_is_consumed_exactly(state: DecoderView, v: Value)
    requires
        state.stack.len() == 0,
        holds_at(state.input, state.pos, encode(v)),
        fits(v, MAX_DEPTH - state.frames.len()),
    ensures
        read(state, v) == Some(state.at(state.pos + encode(v).len())),
        state.any().answer is Ok,
    decreases v, width(v) + 1,
{
    let input = state.input;
    let ready = state.ensured().next;
    match v {
        Value::Integer(n) => {
            law_scan_integer(input, state.pos, n);
            assert(ready.stack =~= seq![TokenView::Integer(n)]);
            assert(ready.discarded().stack =~= state.stack);
        },
        Value::Bytes(bytes) => {
            law_scan_byte_string(input, state.pos, bytes);
            assert(ready.stack =~= seq![TokenView::ByteString(bytes)]);
            assert(ready.discarded().stack =~= state.stack);
        },
        Value::List(_) => {
            lemma_holds_at_split(input, state.pos, seq![0x6cu8], encode_tail(v, 0));
            assert(input[state.pos] == 0x6c) by {
                assert(input.subrange(state.pos, state.pos + 1)[0] == input[state.pos]);
            }
            assert(ready.stack =~= seq![TokenView::ListOpen]);
            assert(ready.discarded().stack =~= state.stack);
            let open = state.any().next;
            assert(open == DecoderView {
                pos: state.pos + 1,
                frames: state.frames.push(Frame::List),
                ..state
            });
            lemma_read_tail(open, v, 0, state.frames);
        },
        Value::Dict(_) => {
            lemma_holds_at_split(input, state.pos, seq![0x64u8], encode_tail(v, 0));
            assert(input[state.pos] == 0x64) by {
                assert(input.subrange(state.pos, state.pos + 1)[0] == input[state.pos]);
            }
            assert(ready.stack =~= seq![TokenView::DictOpen]);
            assert(ready.discarded().stack =~= state.stack);
            let open = state.any().next;
            assert(open == DecoderView {
                pos: state.pos + 1,
                frames: state.frames.push(Frame::Dict),
                ..state
            });
            lemma_read_tail(open, v, 0, state.frames);
        },
    }
}

/// The rest of a container is consumed exactly: from the element or entry
/// `i` on, reading ends right behind the closing `e` and has closed the
/// container, so that the containers in `outer` are open as before.
pub proof fn lemma_read_tail(state: DecoderView, v: Value, i: nat, outer: Seq<Frame>)
    requires
        v is List || v is Dict,
        i <= width(v),
        state.stack.len() == 0,
        state.frames == outer.push(
            if v is List {
                Frame::List
            } else {
                Frame::Dict
            },
        ),
        holds_at(state.input, state.pos, encode_tail(v, i)),
        fits_tail(v, i, MAX_DEPTH - outer.len()),
    ensures
        read_tail(state, v, i) == Some(
            DecoderView { pos: state.pos + encode_tail(v, i).len(), frames: outer, ..state },
        ),
    decreases v, width(v) - i,
{
    let input = state.input;
    assert(state.frames.drop_last() =~= outer);
    if i >= width(v) {
        assert(encode_tail(v, i) =~= seq![0x65u8]);
        assert(input[state.pos] == 0x65) by {
            assert(input.subrange(state.pos, state.pos + 1)[0] == input[state.pos]);
        }
        let ready = state.ensured().next;
        assert(ready.stack =~= seq![TokenView::End]);
        assert(ready.closed().stack =~= state.stack);
    } else {
        match v {
            Value::List(items) => {
                let item = items[i as int];
                lemma_holds_at_split(input, state.pos, encode(item), encode_tail(v, i + 1));
                law_value_is_consumed_exactly(state, item);
                lemma_answered(state);
                lemma_read_follows_first_answer(state.probed().next, state, item);
                let next = state.at(state.pos + encode(item).len());
                lemma_read_tail(next, v, i + 1, outer);
            },
            Value::Dict(entries) => {
                let name = entries[i as int].0;
                let item = entries[i as int].1;
                lemma_holds_at_split(
                    input,
                    state.pos,
                    encode_byte_string(name) + encode(item),
                    encode_tail(v, i + 1),
                );
                lemma_holds_at_split(input, state.pos, encode_byte_string(name), encode(item));
                law_scan_byte_string(input, state.pos, name);
                let ready = state.ensured().next;
                assert(ready.stack =~= seq![TokenView::ByteString(name)]);
                assert(ready.discarded().stack =~= state.stack);
                lemma_answered(state);
                let keyed = state.at(state.pos + encode_byte_string(name).len());
                assert(state.probed().next.any().next == keyed);
                assert(!keyed.in_struct_mode());
                law_value_is_consumed_exactly(keyed, item);
                lemma_answered(keyed);
                lemma_read_follows_first_answer(keyed.valued().next, keyed, item);
                let next = keyed.at(keyed.pos + encode(item).len());
                lemma_read_tail(next, v, i + 1, outer);
            },
            _ => {},
        }
    }
}

} // verus!
