//! What the decoder hands to its caller in answer to a request.

use vstd::prelude::*;

verus! {

/// What the decoder found at the current position when it was asked for a
/// value of any shape.
#[derive(Debug, PartialEq, Eq)]
pub enum Visit {
    /// The answer to a request for an optional value: a value is present.
    /// Its token is staged, and the next request decodes the value itself.
    Present,
    /// An integer.
    Integer(i64),
    /// A byte string.
    Bytes(Vec<u8>),
    /// The opening of a list, which is now open. Its elements are read
    /// through a [`BencodeVisitor`](crate::visitor::BencodeVisitor).
    List,
    /// The opening of a dictionary, which is now open. Its entries are
    /// read through a [`BencodeVisitor`](crate::visitor::BencodeVisitor).
    Dict,
}

/// A [`Visit`] as contracts see it.
pub enum VisitView {
    Present,
    Integer(i64),
    Bytes(Seq<u8>),
    List,
    Dict,
}

impl View for Visit {
    type V = VisitView;

    open spec fn view(&self) -> VisitView {
        match self {
            Visit::Present => VisitView::Present,
            Visit::Integer(value) => VisitView::Integer(*value),
            Visit::Bytes(bytes) => VisitView::Bytes(bytes@),
            Visit::List => VisitView::List,
            Visit::Dict => VisitView::Dict,
        }
    }
}

/// What the decoder found when it was asked for an identifier.
#[derive(Debug, PartialEq, Eq)]
pub enum Identifier {
    /// Struct mode: the key on top of the stack, as the name of a field
    /// of a struct or of the variant of a tagged union.
    Field(Vec<u8>),
    /// Out of struct mode, for a target without a type of its own: a tag
    /// that describes the shape of the token on top of the stack.
    Tag(&'static str),
}

/// An [`Identifier`] as contracts see it.
pub enum IdentifierView {
    Field(Seq<u8>),
    Tag(Seq<char>),
}

impl View for Identifier {
    type V = IdentifierView;

    open spec fn view(&self) -> IdentifierView {
        match self {
            Identifier::Field(name) => IdentifierView::Field(name@),
            Identifier::Tag(tag) => IdentifierView::Tag(tag@),
        }
    }
}

} // verus!
