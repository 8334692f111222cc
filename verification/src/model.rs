//! The decoder as a state machine: its state as plain values, and each
//! request as a function from the state before to the state after and the
//! answer.

use vstd::prelude::*;
use crate::error::{
    bare_union_detail, crowded_union_detail, empty_union_detail, too_deep_detail, ErrorView,
};
use crate::grammar::scan_token;
use crate::token::TokenView;
use crate::visit::{IdentifierView, VisitView};

verus! {

/// The number of containers that may be open at once.
pub const MAX_DEPTH: usize = 256;

/// The kind of an open container. It says how the keys of the container
/// are read, and is forgotten when the container closes.
#[derive(Debug, Clone, Copy, PartialEq, Eq)]
pub enum Frame {
    /// A list.
    List,
    /// A dictionary with keys of any content.
    Dict,
    /// A dictionary read as a struct: its keys are the names of fields.
    Struct,
    /// A dictionary read as a tagged union: its one key is the name of
    /// the variant, its one value the payload.
    Union,
}

/// The state of a decoder.
pub struct DecoderView {
    /// The whole input.
    pub input: Seq<u8>,
    /// The position of the first byte that has not been consumed.
    pub pos: int,
    /// The tokens that were scanned and not delivered yet, the latest last.
    pub stack: Seq<TokenView>,
    /// The containers that are open, the innermost last.
    pub frames: Seq<Frame>,
}

/// The state after a request, and the answer to it.
pub struct Step<T> {
    pub next: DecoderView,
    pub answer: T,
}

impl DecoderView {
    /// A decoder that has consumed nothing of `input`: no token staged, no
    /// container open.
    pub open spec fn fresh(input: Seq<u8>) -> DecoderView {
        DecoderView {
            input,
            pos: 0,
            stack: Seq::<TokenView>::empty(),
            frames: Seq::<Frame>::empty(),
        }
    }

    /// This state with the position moved to `pos`.
    pub open spec fn at(self, pos: int) -> DecoderView {
        DecoderView { pos, ..self }
    }

    /// The token on top of the stack, if there is one.
    pub open spec fn top(self) -> Option<TokenView> {
        if self.stack.len() > 0 {
            Some(self.stack.last())
        } else {
            None
        }
    }

    /// Struct mode: the innermost open container is read as a struct or as
    /// a tagged union, so that its keys are handed out as names.
    pub open spec fn in_struct_mode(self) -> bool {
        self.frames.len() > 0 && (self.frames.last() == Frame::Struct || self.frames.last()
            == Frame::Union)
    }

    /// This state without the token on top of the stack. An empty stack
    /// stays empty.
    pub open spec fn discarded(self) -> DecoderView {
        if self.stack.len() > 0 {
            DecoderView { stack: self.stack.drop_last(), ..self }
        } else {
            self
        }
    }

    /// This state with the innermost container closed: the token on top of
    /// the stack, which is its `End`, is dropped, and so is its frame.
    pub open spec fn closed(self) -> DecoderView {
        let rest = self.discarded();
        if rest.frames.len() > 0 {
            DecoderView { frames: rest.frames.drop_last(), ..rest }
        } else {
            rest
        }
    }

    /// The state after one scan whose error is dropped: the token is
    /// pushed if the scan gave one. A failed scan pushes nothing; the
    /// bytes that it consumed stay consumed.
    pub open spec fn staged(self) -> DecoderView {
        let scan = scan_token(self.input, self.pos);
        match scan.outcome {
            Ok(token) => DecoderView { pos: scan.rest, stack: self.stack.push(token), ..self },
            Err(_) => DecoderView { pos: scan.rest, ..self },
        }
    }

    /// Making sure that a token is staged: nothing if one is, one scan if
    /// none is. The failure of that scan is the answer.
    pub open spec fn ensured(self) -> Step<Result<(), ErrorView>> {
        if self.stack.len() > 0 {
            Step { next: self, answer: Ok(()) }
        } else {
            Step {
                next: self.staged(),
                answer: match scan_token(self.input, self.pos).outcome {
                    Ok(_) => Ok(()),
                    Err(error) => Err(error),
                },
            }
        }
    }

    /// Opening a container of the kind `frame`, answered with `visit`.
    /// With [`MAX_DEPTH`] containers open already, no more is opened.
    pub open spec fn opened(self, frame: Frame, visit: VisitView) -> Step<
        Result<VisitView, ErrorView>,
    > {
        if self.frames.len() >= MAX_DEPTH {
            Step { next: self, answer: Err(ErrorView::InvalidValue(too_deep_detail())) }
        } else {
            Step { next: DecoderView { frames: self.frames.push(frame), ..self }, answer: Ok(visit) }
        }
    }

    /// Delivering the token on top of the stack: it is popped, and an
    /// integer or a byte string is the answer; a list is opened; a
    /// dictionary is opened as a container of the kind `dictionary`.
    /// `End`, or no token, is the end of the stream.
    pub open spec fn delivered(self, dictionary: Frame) -> Step<Result<VisitView, ErrorView>> {
        let rest = self.discarded();
        match self.top() {
            Some(TokenView::Integer(value)) => Step {
                next: rest,
                answer: Ok(VisitView::Integer(value)),
            },
            Some(TokenView::ByteString(bytes)) => Step {
                next: rest,
                answer: Ok(VisitView::Bytes(bytes)),
            },
            Some(TokenView::ListOpen) => rest.opened(Frame::List, VisitView::List),
            Some(TokenView::DictOpen) => rest.opened(dictionary, VisitView::Dict),
            _ => Step { next: rest, answer: Err(ErrorView::EndOfStream) },
        }
    }

    /// A request for a value of any shape: a token is staged if none is,
    /// and delivered. A scan that fails is the answer.
    pub open spec fn any(self) -> Step<Result<VisitView, ErrorView>> {
        let ready = self.ensured();
        match ready.answer {
            Err(error) => Step { next: ready.next, answer: Err(error) },
            Ok(_) => ready.next.delivered(Frame::Dict),
        }
    }

    /// A request for an optional value: a token is staged if none is, and
    /// the value is announced as present. Nothing is popped.
    pub open spec fn option(self) -> Step<Result<VisitView, ErrorView>> {
        let ready = self.ensured();
        match ready.answer {
            Err(error) => Step { next: ready.next, answer: Err(error) },
            Ok(_) => Step { next: ready.next, answer: Ok(VisitView::Present) },
        }
    }

    /// A request for a struct: as for a value of any shape, but a
    /// dictionary is opened as a struct.
    pub open spec fn structure(self) -> Step<Result<VisitView, ErrorView>> {
        let ready = self.ensured();
        match ready.answer {
            Err(error) => Step { next: ready.next, answer: Err(error) },
            Ok(_) => ready.next.delivered(Frame::Struct),
        }
    }

    /// A request for a tagged union. The token at the position is popped.
    /// It has to open a dictionary, which is opened as a tagged union, and
    /// the key of its entry is staged. A dictionary without entry is
    /// closed again and is an unknown variant; so is any value that is no
    /// dictionary.
    pub open spec fn union(self) -> Step<Result<(), ErrorView>> {
        let ready = self.ensured();
        match ready.answer {
            Err(error) => Step { next: ready.next, answer: Err(error) },
            Ok(_) => {
                let rest = ready.next.discarded();
                match ready.next.top() {
                    Some(TokenView::DictOpen) => {
                        let open = rest.opened(Frame::Union, VisitView::Dict);
                        match open.answer {
                            Err(error) => Step { next: open.next, answer: Err(error) },
                            Ok(_) => {
                                let key = open.next.ensured();
                                match key.answer {
                                    Err(error) => Step { next: key.next, answer: Err(error) },
                                    Ok(_) => if key.next.top() == Some(TokenView::End) {
                                        Step {
                                            next: key.next.closed(),
                                            answer: Err(
                                                ErrorView::UnknownVariant(empty_union_detail()),
                                            ),
                                        }
                                    } else {
                                        Step { next: key.next, answer: Ok(()) }
                                    },
                                }
                            },
                        }
                    },
                    Some(TokenView::End) => Step { next: rest, answer: Err(ErrorView::EndOfStream) },
                    _ => Step {
                        next: rest,
                        answer: Err(ErrorView::UnknownVariant(bare_union_detail())),
                    },
                }
            },
        }
    }

    /// A request for an identifier. The state stays as it is. In struct
    /// mode the byte string on top of the stack is the name of a field or
    /// of a variant. Out of struct mode the shape of the top token gives a
    /// tag. Any other top token, or none, is the end of the stream.
    pub open spec fn identifier(self) -> Result<IdentifierView, ErrorView> {
        if self.in_struct_mode() {
            match self.top() {
                Some(TokenView::ByteString(name)) => Ok(IdentifierView::Field(name)),
                _ => Err(ErrorView::EndOfStream),
            }
        } else {
            match self.top() {
                Some(TokenView::Integer(_)) => Ok(IdentifierView::Tag("Integer"@)),
                Some(TokenView::ByteString(_)) => Ok(IdentifierView::Tag("ByteString"@)),
                Some(TokenView::DictOpen) => Ok(IdentifierView::Tag("Dict"@)),
                Some(TokenView::ListOpen) => Ok(IdentifierView::Tag("List"@)),
                _ => Err(ErrorView::EndOfStream),
            }
        }
    }

    /// The probe for the next element of a list or the next key of a
    /// dictionary: a token is staged if none is. If it is `End`, the
    /// container is closed and the answer is `false`. Any other token
    /// stays staged and the answer is `true`. A scan that fails is the
    /// answer.
    pub open spec fn probed(self) -> Step<Result<bool, ErrorView>> {
        let ready = self.ensured();
        match ready.answer {
            Err(error) => Step { next: ready.next, answer: Err(error) },
            Ok(_) => if ready.next.top() == Some(TokenView::End) {
                Step { next: ready.next.closed(), answer: Ok(false) }
            } else {
                Step { next: ready.next, answer: Ok(true) }
            },
        }
    }

    /// The step to the value of an entry: in struct mode the key that is
    /// still staged is dropped; then a token is staged if none is. A scan
    /// that fails is the answer.
    pub open spec fn valued(self) -> Step<Result<(), ErrorView>> {
        if self.in_struct_mode() {
            self.discarded().ensured()
        } else {
            self.ensured()
        }
    }

    /// The end of a tagged union behind its payload: a token is staged if
    /// none is. `End` closes the union. Any other token starts a second
    /// entry, which makes the variant unknown. A scan that fails is the
    /// answer.
    pub open spec fn sealed(self) -> Step<Result<(), ErrorView>> {
        let ready = self.ensured();
        match ready.answer {
            Err(error) => Step { next: ready.next, answer: Err(error) },
            Ok(_) => if ready.next.top() == Some(TokenView::End) {
                Step { next: ready.next.closed(), answer: Ok(()) }
            } else {
                Step {
                    next: ready.next,
                    answer: Err(ErrorView::UnknownVariant(crowded_union_detail())),
                }
            },
        }
    }
}

} // verus!
