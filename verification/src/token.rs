//! Tokens: the units that the scanner cuts the input into.

use vstd::prelude::*;

verus! {

/// One scanned unit of the input that has not been delivered yet.
#[derive(Debug, PartialEq, Eq)]
pub enum Token {
    /// A byte string, `<length>:<bytes>`.
    ByteString(Vec<u8>),
    /// An integer, `i<digits>e`.
    Integer(i64),
    /// The opening `l` of a list.
    ListOpen,
    /// The opening `d` of a dictionary.
    DictOpen,
    /// The closing `e` of a list or of a dictionary.
    End,
}

/// A [`Token`] as contracts see it.
pub enum TokenView {
    ByteString(Seq<u8>),
    Integer(i64),
    ListOpen,
    DictOpen,
    End,
}

impl View for Token {
    type V = TokenView;

    open spec fn view(&self) -> TokenView {
        match self {
            Token::ByteString(bytes) => TokenView::ByteString(bytes@),
            Token::Integer(value) => TokenView::Integer(*value),
            Token::ListOpen => TokenView::ListOpen,
            Token::DictOpen => TokenView::DictOpen,
            Token::End => TokenView::End,
        }
    }
}

} // verus!
