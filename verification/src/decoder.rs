//! The decoder: the scanner and the dispatch of tokens.

use vstd::prelude::*;
use vstd::string::StringSliceAdditionalSpecFns;
use crate::error::{BencodeError, outcome};
use crate::grammar::{
    scan_body, scan_byte_string, scan_integer, scan_length, scan_token, text_end, text_of,
};
use crate::model::{DecoderView, Frame, Step, MAX_DEPTH};
use crate::stream::ByteStream;
use crate::text::parse_i64;
use crate::token::{Token, TokenView};
use crate::visit::{Identifier, Visit};

verus! {

/// The tokens of a stack as contracts see them.
pub open spec fn stack_view(stack: Seq<Token>) -> Seq<TokenView> {
    Seq::new(stack.len(), |i: int| stack[i]@)
}

/// A decoder over one input. It owns the input, the position in it, the
/// stack of staged tokens and the record of the containers that are open.
#[derive(Debug)]
pub struct BencodeDecoder {
    reader: ByteStream,
    state: Vec<Token>,
    frames: Vec<Frame>,
}

impl View for BencodeDecoder {
    type V = DecoderView;

    closed spec fn view(&self) -> DecoderView {
        DecoderView {
            input: self.reader@.input,
            pos: self.reader@.pos,
            stack: stack_view(self.state@),
            frames: self.frames@,
        }
    }
}

impl BencodeDecoder {
    /// The position of a decoder lies within its input.
    pub proof fn lemma_in_bounds(&self)
        ensures
            0 <= self@.pos <= self@.input.len(),
    {
        self.reader.lemma_in_bounds();
    }

    /// A decoder that has consumed nothing of `input`.
    pub fn new(input: Vec<u8>) -> (decoder: BencodeDecoder)
        ensures
            decoder@ == DecoderView::fresh(input@),
    {
        let decoder = BencodeDecoder {
            reader: ByteStream::new(input),
            state: Vec::new(),
            frames: Vec::new(),
        };
        assert(stack_view(decoder.state@) =~= Seq::<TokenView>::empty());
        decoder
    }

    /// The number of bytes of the input that have been consumed.
    pub fn position(&self) -> (pos: usize)
        ensures
            pos == self@.pos,
    {
        self.reader.position()
    }

    /// The number of tokens that are staged.
    pub fn pending(&self) -> (depth: usize)
        ensures
            depth == self@.stack.len(),
    {
        self.state.len()
    }

    /// The number of containers that are open.
    pub fn depth(&self) -> (depth: usize)
        ensures
            depth == self@.frames.len(),
    {
        self.frames.len()
    }

    /// Whether struct mode is on: whether the innermost open container is
    /// read as a struct or as a tagged union.
    pub fn in_struct_mode(&self) -> (on: bool)
        ensures
            on == self@.in_struct_mode(),
    {
        let depth: usize = self.frames.len();
        if depth == 0 {
            false
        } else {
            match self.frames[depth - 1] {
                Frame::Struct => true,
                Frame::Union => true,
                _ => false,
            }
        }
    }

    /// Scans an integer whose `i` has been consumed.
    pub fn parse_int(&mut self) -> (r: Result<Token, BencodeError>)
        ensures
            outcome(r) == scan_integer(old(self)@.input, old(self)@.pos).outcome,
            final(self)@ == old(self)@.at(scan_integer(old(self)@.input, old(self)@.pos).rest),
    {
        let ghost input: Seq<u8> = self.reader@.input;
        let ghost from: int = self.reader@.pos;
        proof {
            self.reader.lemma_in_bounds();
        }
        let mut text: Vec<char> = Vec::new();
        loop
            invariant
                self.reader@.input == input,
                self.state == old(self).state,
                self.frames == old(self).frames,
                input == old(self)@.input,
                from == old(self)@.pos,
                0 <= from <= self.reader@.pos <= input.len(),
                text_end(input, from, 0x65) == text_end(input, self.reader@.pos, 0x65),
                text@ == text_of(input.subrange(from, self.reader@.pos)),
            decreases input.len() - self.reader@.pos,
        {
            let b: u8 = match self.reader.read() {
                Some(b) => b,
                None => {
                    return Err(BencodeError::EndOfStream);
                },
            };
            if b == 0x65 {
                return match parse_i64(&text) {
                    Some(value) => Ok(Token::Integer(value)),
                    None => Err(BencodeError::bad_integer(&text)),
                };
            }
            if b >= 0x80 {
                return Err(BencodeError::not_text());
            }
            text.push(b as char);
            assert(text@ == text_of(input.subrange(from, self.reader@.pos)));
        }
    }

    /// Reads `len` raw bytes. A length of zero or less reads nothing. A
    /// length beyond what is left of the input fails, and consumes what is
    /// left.
    pub fn parse_byte_string_body(&mut self, len: i64) -> (r: Result<Vec<u8>, BencodeError>)
        ensures
            outcome(r) == scan_body(old(self)@.input, old(self)@.pos, len).outcome,
            final(self)@ == old(self)@.at(scan_body(old(self)@.input, old(self)@.pos, len).rest),
    {
        let ghost input: Seq<u8> = self.reader@.input;
        let ghost from: int = self.reader@.pos;
        proof {
            self.reader.lemma_in_bounds();
        }
        let mut body: Vec<u8> = Vec::new();
        let mut count: i64 = 0;
        while count < len
            invariant
                self.reader@.input == input,
                self.state == old(self).state,
                self.frames == old(self).frames,
                input == old(self)@.input,
                from == old(self)@.pos,
                0 <= count,
                len > 0 ==> count <= len,
                len <= 0 ==> count == 0,
                self.reader@.pos == from + count,
                0 <= from <= self.reader@.pos <= input.len(),
                body@ == input.subrange(from, from + count),
            decreases len - count,
        {
            match self.reader.read() {
                Some(b) => {
                    body.push(b);
                },
                None => {
                    return Err(BencodeError::EndOfStream);
                },
            }
            count = count + 1;
            assert(body@ == input.subrange(from, from + count));
        }
        assert(len <= 0 ==> body@ =~= Seq::<u8>::empty());
        Ok(body)
    }

    /// Scans the length of a byte string whose first character, `len_char`,
    /// has been consumed.
    pub fn parse_byte_string_len(&mut self, len_char: char) -> (r: Result<i64, BencodeError>)
        ensures
            outcome(r) == scan_length(old(self)@.input, old(self)@.pos, len_char).outcome,
            final(self)@ == old(self)@.at(
                scan_length(old(self)@.input, old(self)@.pos, len_char).rest,
            ),
    {
        let ghost input: Seq<u8> = self.reader@.input;
        let ghost from: int = self.reader@.pos;
        proof {
            self.reader.lemma_in_bounds();
        }
        let mut text: Vec<char> = Vec::new();
        text.push(len_char);
        loop
            invariant
                self.reader@.input == input,
                self.state == old(self).state,
                self.frames == old(self).frames,
                input == old(self)@.input,
                from == old(self)@.pos,
                0 <= from <= self.reader@.pos <= input.len(),
                text_end(input, from, 0x3a) == text_end(input, self.reader@.pos, 0x3a),
                text@ == seq![len_char] + text_of(input.subrange(from, self.reader@.pos)),
            decreases input.len() - self.reader@.pos,
        {
            let b: u8 = match self.reader.read() {
                Some(b) => b,
                None => {
                    return Err(BencodeError::EndOfStream);
                },
            };
            if b == 0x3a {
                return match parse_i64(&text) {
                    Some(len) => Ok(len),
                    None => Err(BencodeError::bad_length(&text)),
                };
            }
            if b >= 0x80 {
                return Err(BencodeError::not_text());
            }
            text.push(b as char);
            assert(text@ == seq![len_char] + text_of(input.subrange(from, self.reader@.pos)));
        }
    }

    /// Scans a byte string whose first length character, `len_char`, has
    /// been consumed: the rest of the length, then the body.
    pub fn parse_byte_string(&mut self, len_char: char) -> (r: Result<Token, BencodeError>)
        ensures
            outcome(r) == scan_byte_string(old(self)@.input, old(self)@.pos, len_char).outcome,
            final(self)@ == old(self)@.at(
                scan_byte_string(old(self)@.input, old(self)@.pos, len_char).rest,
            ),
    {
        match self.parse_byte_string_len(len_char) {
            Ok(len) => match self.parse_byte_string_body(len) {
                Ok(body) => Ok(Token::ByteString(body)),
                Err(error) => Err(error),
            },
            Err(error) => Err(error),
        }
    }

    /// Scans one token from the current position.
    pub fn parse_state(&mut self) -> (r: Result<Token, BencodeError>)
        ensures
            outcome(r) == scan_token(old(self)@.input, old(self)@.pos).outcome,
            final(self)@ == old(self)@.at(scan_token(old(self)@.input, old(self)@.pos).rest),
    {
        match self.reader.read() {
            Some(marker) => {
                if marker == 0x6c {
                    Ok(Token::ListOpen)
                } else if marker == 0x64 {
                    Ok(Token::DictOpen)
                } else if marker == 0x65 {
                    Ok(Token::End)
                } else if marker == 0x69 {
                    self.parse_int()
                } else if 0x30 <= marker && marker <= 0x39 {
                    self.parse_byte_string(marker as char)
                } else {
                    Err(BencodeError::EndOfStream)
                }
            },
            None => Err(BencodeError::EndOfStream),
        }
    }

    /// Scans one token and pushes it on the stack. A failed scan pushes
    /// nothing and its error is dropped; what it consumed stays consumed.
    pub fn update_state(&mut self)
        ensures
            final(self)@ == old(self)@.staged(),
    {
        match self.parse_state() {
            Ok(token) => {
                self.state.push(token);
                assert(stack_view(self.state@) =~= stack_view(old(self).state@).push(token@));
            },
            Err(_) => {},
        }
    }

    /// Makes sure that a token is staged: scans one if the stack is empty.
    /// Where that scan fails, its error is returned and nothing is staged.
    pub fn ensure_token(&mut self) -> (r: Result<(), BencodeError>)
        ensures
            (Step { next: final(self)@, answer: outcome(r) }) == old(self)@.ensured(),
    {
        if self.state.len() == 0 {
            match self.parse_state() {
                Ok(token) => {
                    self.state.push(token);
                    assert(stack_view(self.state@) =~= stack_view(old(self).state@).push(token@));
                    Ok(())
                },
                Err(error) => Err(error),
            }
        } else {
            Ok(())
        }
    }

    /// The token on top of the stack, if there is one.
    pub fn peek(&self) -> (top: Option<&Token>)
        ensures
            match top {
                Some(token) => self@.top() == Some(token@),
                None => self@.top().is_none(),
            },
    {
        let depth: usize = self.state.len();
        if depth == 0 {
            None
        } else {
            Some(&self.state[depth - 1])
        }
    }

    /// Whether `End` is on top of the stack.
    pub fn at_end(&self) -> (end: bool)
        ensures
            end == (self@.top() == Some(TokenView::End)),
    {
        match self.peek() {
            Some(Token::End) => true,
            _ => false,
        }
    }

    /// Drops the token on top of the stack, if there is one.
    pub fn discard(&mut self)
        ensures
            final(self)@ == old(self)@.discarded(),
    {
        let dropped: Option<Token> = self.state.pop();
        assert(dropped.is_some() ==> stack_view(self.state@) =~= stack_view(
            old(self).state@,
        ).drop_last());
    }

    /// Closes the innermost open container: drops the token on top of the
    /// stack, which is the container's `End`, and the container's frame.
    pub fn close(&mut self)
        ensures
            final(self)@ == old(self)@.closed(),
    {
        self.discard();
        let frame: Option<Frame> = self.frames.pop();
    }

    /// Opens a container of the kind `frame`, unless [`MAX_DEPTH`]
    /// containers are open already.
    fn open(&mut self, frame: Frame, visit: Visit) -> (r: Result<Visit, BencodeError>)
        ensures
            (Step { next: final(self)@, answer: outcome(r) }) == old(self)@.opened(frame, visit@),
    {
        if self.frames.len() >= MAX_DEPTH {
            Err(BencodeError::too_deep())
        } else {
            self.frames.push(frame);
            Ok(visit)
        }
    }

    /// Pops the token on top of the stack and delivers it; a dictionary is
    /// opened as a container of the kind `dictionary`.
    fn deliver(&mut self, dictionary: Frame) -> (r: Result<Visit, BencodeError>)
        ensures
            (Step { next: final(self)@, answer: outcome(r) }) == old(self)@.delivered(dictionary),
    {
        let ghost before: DecoderView = self@;
        let popped: Option<Token> = self.state.pop();
        assert(popped.is_some() ==> self@ == before.discarded() && before.top() == Some(
            popped.unwrap()@,
        )) by {
            if popped.is_some() {
                assert(self@.stack =~= before.stack.drop_last());
            }
        }
        match popped {
            Some(Token::Integer(value)) => Ok(Visit::Integer(value)),
            Some(Token::ByteString(bytes)) => Ok(Visit::Bytes(bytes)),
            Some(Token::ListOpen) => self.open(Frame::List, Visit::List),
            Some(Token::DictOpen) => self.open(dictionary, Visit::Dict),
            _ => Err(BencodeError::EndOfStream),
        }
    }

    /// Answers a request for a value of any shape. A token is staged if
    /// none is; where that scan fails, its error is the answer. The token
    /// is popped and delivered: an integer, a byte string, or the opening
    /// of a list or of a dictionary, which is then open. `End` is the end
    /// of the stream. With [`MAX_DEPTH`] containers open, the opening of
    /// one more is an invalid value.
    pub fn deserialize_any(&mut self) -> (r: Result<Visit, BencodeError>)
        ensures
            (Step { next: final(self)@, answer: outcome(r) }) == old(self)@.any(),
    {
        match self.ensure_token() {
            Ok(_) => self.deliver(Frame::Dict),
            Err(error) => Err(error),
        }
    }

    /// Answers a request for an optional value. The format has no marker
    /// for an absent value, so the value is announced as present: a token
    /// is staged if none is, and nothing is popped. The request that
    /// follows decodes the value.
    pub fn deserialize_option(&mut self) -> (r: Result<Visit, BencodeError>)
        ensures
            (Step { next: final(self)@, answer: outcome(r) }) == old(self)@.option(),
    {
        match self.ensure_token() {
            Ok(_) => Ok(Visit::Present),
            Err(error) => Err(error),
        }
    }

    /// Answers a request for a struct: as for a value of any shape, but a
    /// dictionary is opened in struct mode, in which its keys are handed
    /// out as names of fields. The mode ends when the dictionary closes.
    pub fn deserialize_struct(&mut self) -> (r: Result<Visit, BencodeError>)
        ensures
            (Step { next: final(self)@, answer: outcome(r) }) == old(self)@.structure(),
    {
        match self.ensure_token() {
            Ok(_) => self.deliver(Frame::Struct),
            Err(error) => Err(error),
        }
    }

    /// Answers a request for an identifier, and leaves the decoder as it
    /// is. In struct mode the byte string on top of the stack is the name
    /// of a field, or of the variant of a tagged union. Out of struct mode
    /// the shape of the top token gives one of the tags `Integer`,
    /// `ByteString`, `Dict`, `List`. Any other top token, or none, is the
    /// end of the stream.
    pub fn deserialize_identifier(&self) -> (r: Result<Identifier, BencodeError>)
        ensures
            outcome(r) == self@.identifier(),
    {
        if self.in_struct_mode() {
            match self.peek() {
                Some(Token::ByteString(name)) => Ok(Identifier::Field(name.clone())),
                _ => Err(BencodeError::EndOfStream),
            }
        } else {
            match self.peek() {
                Some(Token::Integer(_)) => Ok(Identifier::Tag("Integer")),
                Some(Token::ByteString(_)) => Ok(Identifier::Tag("ByteString")),
                Some(Token::DictOpen) => Ok(Identifier::Tag("Dict")),
                Some(Token::ListOpen) => Ok(Identifier::Tag("List")),
                _ => Err(BencodeError::EndOfStream),
            }
        }
    }

    /// Answers a request for a tagged union. The one shape that the format
    /// has for it is a dictionary of one entry: the key names the variant,
    /// the value is the payload. The token at the position is popped. If
    /// it opens a dictionary, the dictionary is opened as a tagged union
    /// and the key is staged. A dictionary without entry is closed again
    /// and is an unknown variant; so is a value that is no dictionary.
    pub fn deserialize_enum(&mut self) -> (r: Result<(), BencodeError>)
        ensures
            (Step { next: final(self)@, answer: outcome(r) }) == old(self)@.union(),
    {
        match self.ensure_token() {
            Ok(_) => {},
            Err(error) => {
                return Err(error);
            },
        }
        let ghost ready: DecoderView = self@;
        let popped: Option<Token> = self.state.pop();
        assert(popped.is_some() ==> self@ == ready.discarded() && ready.top() == Some(
            popped.unwrap()@,
        )) by {
            if popped.is_some() {
                assert(self@.stack =~= ready.stack.drop_last());
            }
        }
        match popped {
            Some(Token::DictOpen) => {
                match self.open(Frame::Union, Visit::Dict) {
                    Ok(_) => {},
                    Err(error) => {
                        return Err(error);
                    },
                }
                match self.ensure_token() {
                    Ok(_) => {},
                    Err(error) => {
                        return Err(error);
                    },
                }
                if self.at_end() {
                    self.close();
                    Err(BencodeError::empty_union())
                } else {
                    Ok(())
                }
            },
            Some(Token::End) => Err(BencodeError::EndOfStream),
            _ => Err(BencodeError::bare_union()),
        }
    }
}

/// A decoder over the bytes of `b`.
pub fn from_bytes(b: &[u8]) -> (decoder: BencodeDecoder)
    ensures
        decoder@ == DecoderView::fresh(b@),
{
    BencodeDecoder::new(vstd::slice::slice_to_vec(b))
}

/// A decoder over the bytes of `s` in UTF-8.
pub fn from_str(s: &str) -> (decoder: BencodeDecoder)
    ensures
        decoder@ == DecoderView::fresh(s.spec_bytes()),
{
    from_bytes(s.as_bytes())
}

} // verus!
