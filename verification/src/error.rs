//! The ways a decode can fail.

use vstd::prelude::*;
use vstd::string::StringExecFns;

verus! {

/// Why a decode failed.
#[derive(Debug, PartialEq, Eq)]
pub enum BencodeError {
    /// The input ran out, or held a byte that starts no value, while a
    /// value, a length or a terminator was still expected.
    EndOfStream,
    /// Malformed integer text, a malformed length, or a byte that is no
    /// text where text was expected. The string says which.
    InvalidValue(String),
    /// A tagged-union shape that the format cannot express. The string
    /// names the shape.
    UnknownVariant(String),
}

/// A [`BencodeError`] as contracts see it: the kind, and the detail as a
/// sequence of characters.
pub enum ErrorView {
    EndOfStream,
    InvalidValue(Seq<char>),
    UnknownVariant(Seq<char>),
}

impl View for BencodeError {
    type V = ErrorView;

    open spec fn view(&self) -> ErrorView {
        match self {
            BencodeError::EndOfStream => ErrorView::EndOfStream,
            BencodeError::InvalidValue(detail) => ErrorView::InvalidValue(detail@),
            BencodeError::UnknownVariant(detail) => ErrorView::UnknownVariant(detail@),
        }
    }
}

/// What a fallible step came to, error or value, each by its view.
pub open spec fn outcome<T: View>(r: Result<T, BencodeError>) -> Result<T::V, ErrorView> {
    match r {
        Ok(value) => Ok(value@),
        Err(error) => Err(error@),
    }
}

/// Whether `r` is the failure `error`.
pub open spec fn fails_with<T>(r: Result<T, BencodeError>, error: ErrorView) -> bool {
    match r {
        Ok(_) => false,
        Err(e) => e@ == error,
    }
}

/// The detail of the error for a byte outside ASCII inside a number.
pub open spec fn not_text_detail() -> Seq<char> {
    "Non UTF-8 integer encoding"@
}

/// The detail of the error for integer text that denotes no `i64`.
pub open spec fn bad_integer_detail(text: Seq<char>) -> Seq<char> {
    "Can't parse `"@ + text + "` as i64"@
}

/// The detail of the error for length text that denotes no length.
pub open spec fn bad_length_detail(text: Seq<char>) -> Seq<char> {
    "Can't parse `"@ + text + "` as string length"@
}

/// The detail of the error for a container inside too many others.
pub open spec fn too_deep_detail() -> Seq<char> {
    "Too many nested containers"@
}

/// The detail of the error for a tagged union whose dictionary is empty.
pub open spec fn empty_union_detail() -> Seq<char> {
    "Variant without entry not supported."@
}

/// The detail of the error for a tagged union whose dictionary holds more
/// than one entry.
pub open spec fn crowded_union_detail() -> Seq<char> {
    "Variant with more than one entry not supported."@
}

/// The detail of the error for a tagged union that is no dictionary.
pub open spec fn bare_union_detail() -> Seq<char> {
    "Variant outside a dictionary not supported."@
}

/// The detail of the error for a tagged-union variant without payload.
pub open spec fn unit_variant_detail() -> Seq<char> {
    "Unit variant not supported."@
}

/// The detail of the error for a tagged-union variant with positional fields.
pub open spec fn tuple_variant_detail() -> Seq<char> {
    "Tuple variant not supported."@
}

/// The detail of the error for a tagged-union variant with named fields.
pub open spec fn struct_variant_detail() -> Seq<char> {
    "Struct variant not supported."@
}

/// Trusted: `String::from_iter` over the characters of `text`, which std
/// documents as the string made of exactly those characters, in order.
#[verifier::external_body]
fn collect_text(text: &Vec<char>) -> (s: String)
    ensures
        s@ == text@,
{
    String::from_iter(text.iter())
}

impl BencodeError {
    /// The error for a byte outside ASCII inside a number.
    pub fn not_text() -> (e: BencodeError)
        ensures
            e@ == ErrorView::InvalidValue(not_text_detail()),
    {
        BencodeError::InvalidValue(String::from_str("Non UTF-8 integer encoding"))
    }

    /// The error for a container inside too many others.
    pub fn too_deep() -> (e: BencodeError)
        ensures
            e@ == ErrorView::InvalidValue(too_deep_detail()),
    {
        BencodeError::InvalidValue(String::from_str("Too many nested containers"))
    }

    /// The error for a tagged union whose dictionary is empty.
    pub fn empty_union() -> (e: BencodeError)
        ensures
            e@ == ErrorView::UnknownVariant(empty_union_detail()),
    {
        BencodeError::UnknownVariant(String::from_str("Variant without entry not supported."))
    }

    /// The error for a tagged union whose dictionary holds more than one
    /// entry.
    pub fn crowded_union() -> (e: BencodeError)
        ensures
            e@ == ErrorView::UnknownVariant(crowded_union_detail()),
    {
        BencodeError::UnknownVariant(
            String::from_str("Variant with more than one entry not supported."),
        )
    }

    /// The error for a tagged union that is no dictionary.
    pub fn bare_union() -> (e: BencodeError)
        ensures
            e@ == ErrorView::UnknownVariant(bare_union_detail()),
    {
        BencodeError::UnknownVariant(
            String::from_str("Variant outside a dictionary not supported."),
        )
    }

    /// The error for a tagged-union variant without payload.
    pub fn unit_variant() -> (e: BencodeError)
        ensures
            e@ == ErrorView::UnknownVariant(unit_variant_detail()),
    {
        BencodeError::UnknownVariant(String::from_str("Unit variant not supported."))
    }

    /// The error for a tagged-union variant with positional fields.
    pub fn tuple_variant() -> (e: BencodeError)
        ensures
            e@ == ErrorView::UnknownVariant(tuple_variant_detail()),
    {
        BencodeError::UnknownVariant(String::from_str("Tuple variant not supported."))
    }

    /// The error for a tagged-union variant with named fields.
    pub fn struct_variant() -> (e: BencodeError)
        ensures
            e@ == ErrorView::UnknownVariant(struct_variant_detail()),
    {
        BencodeError::UnknownVariant(String::from_str("Struct variant not supported."))
    }

    /// The error for integer text that denotes no `i64`; it quotes the text.
    pub fn bad_integer(text: &Vec<char>) -> (e: BencodeError)
        ensures
            e@ == ErrorView::InvalidValue(bad_integer_detail(text@)),
    {
        let quoted: String = collect_text(text);
        let mut detail: String = String::from_str("Can't parse `");
        detail.append(quoted.as_str());
        detail.append("` as i64");
        BencodeError::InvalidValue(detail)
    }

    /// The error for length text that denotes no length; it quotes the text.
    pub fn bad_length(text: &Vec<char>) -> (e: BencodeError)
        ensures
            e@ == ErrorView::InvalidValue(bad_length_detail(text@)),
    {
        let quoted: String = collect_text(text);
        let mut detail: String = String::from_str("Can't parse `");
        detail.append(quoted.as_str());
        detail.append("` as string length");
        BencodeError::InvalidValue(detail)
    }
}

} // verus!
