//! The container adapter: access to the elements of a list, to the
//! entries of a dictionary, and to the tag and payload of a tagged union.
//!
//! The format carries no count of elements, only the closing `e`. The
//! adapter therefore looks one token ahead: before each element or key it
//! stages the next token and compares it with `End`. Nothing but `End`
//! ends a container; a failure of a scan or of a decode is handed to the
//! caller as it is. Each access is split in two around the caller's
//! decode: a `begin_` step before it, and the step that takes what the
//! decode came to.

use vstd::prelude::*;
use crate::decoder::BencodeDecoder;
use crate::error::{
    fails_with, outcome, struct_variant_detail, tuple_variant_detail, unit_variant_detail,
    BencodeError, ErrorView,
};
use crate::model::Step;

verus! {

/// What the decode of an element or of a key is handed on as: the value
/// as `Some`, a failure as it is.
pub open spec fn settled<T>(decoded: Result<T, BencodeError>) -> Result<Option<T>, BencodeError> {
    match decoded {
        Ok(value) => Ok(Some(value)),
        Err(error) => Err(error),
    }
}

/// What the tag of a tagged union and the adapter come to together.
pub open spec fn tagged<'a, T>(tag: Result<T, BencodeError>, rest: BencodeVisitor<'a>) -> Result<
    (T, BencodeVisitor<'a>),
    BencodeError,
> {
    match tag {
        Ok(value) => Ok((value, rest)),
        Err(error) => Err(error),
    }
}

/// An adapter bound to one decoder, for one open container.
pub struct BencodeVisitor<'a> {
    /// The decoder that the container is read from.
    pub de: &'a mut BencodeDecoder,
}

impl<'a> BencodeVisitor<'a> {
    /// An adapter over `de`.
    pub fn new(de: &'a mut BencodeDecoder) -> (visitor: BencodeVisitor<'a>)
        ensures
            *visitor.de == *old(de),
            *final(visitor.de) == *final(de),
    {
        BencodeVisitor { de }
    }

    /// Looks for the next element of a list: stages a token if none is
    /// staged. `Ok(false)` says that the token was `End`: it is popped and
    /// the list is closed. `Ok(true)` says that an element follows; its
    /// token stays staged for the decode of the element. A scan that fails
    /// is returned as it failed.
    pub fn begin_element(&mut self) -> (r: Result<bool, BencodeError>)
        ensures
            (Step { next: final(self).de@, answer: outcome(r) }) == old(self).de@.probed(),
            *final(final(self).de) == *final(old(self).de),
    {
        match self.de.ensure_token() {
            Ok(_) => {
                if self.de.at_end() {
                    self.de.close();
                    Ok(false)
                } else {
                    Ok(true)
                }
            },
            Err(error) => Err(error),
        }
    }

    /// Hands on what the decode of an element came to: the element as
    /// `Some`, a failure as it is. The decoder is left as it is.
    pub fn next_element_seed<T>(&mut self, element: Result<T, BencodeError>) -> (r: Result<
        Option<T>,
        BencodeError,
    >)
        ensures
            r == settled(element),
            *final(self).de == *old(self).de,
            *final(final(self).de) == *final(old(self).de),
    {
        match element {
            Ok(value) => Ok(Some(value)),
            Err(error) => Err(error),
        }
    }

    /// Looks for the next key of a dictionary: stages a token if none is
    /// staged. `Ok(false)` says that the token was `End`: it is popped and
    /// the dictionary is closed. `Ok(true)` says that a key follows; its
    /// token stays staged for the decode of the key. A scan that fails is
    /// returned as it failed.
    pub fn begin_key(&mut self) -> (r: Result<bool, BencodeError>)
        ensures
            (Step { next: final(self).de@, answer: outcome(r) }) == old(self).de@.probed(),
            *final(final(self).de) == *final(old(self).de),
    {
        match self.de.ensure_token() {
            Ok(_) => {
                if self.de.at_end() {
                    self.de.close();
                    Ok(false)
                } else {
                    Ok(true)
                }
            },
            Err(error) => Err(error),
        }
    }

    /// Hands on what the decode of a key came to: the key as `Some`, a
    /// failure as it is. The decoder is left as it is.
    pub fn next_key_seed<K>(&mut self, key: Result<K, BencodeError>) -> (r: Result<
        Option<K>,
        BencodeError,
    >)
        ensures
            r == settled(key),
            *final(self).de == *old(self).de,
            *final(final(self).de) == *final(old(self).de),
    {
        match key {
            Ok(value) => Ok(Some(value)),
            Err(error) => Err(error),
        }
    }

    /// Steps to the value of an entry. In struct mode the key was read
    /// without being popped; it is dropped now. Then a token is staged if
    /// none is; a scan that fails is returned as it failed.
    pub fn begin_value(&mut self) -> (r: Result<(), BencodeError>)
        ensures
            (Step { next: final(self).de@, answer: outcome(r) }) == old(self).de@.valued(),
            *final(final(self).de) == *final(old(self).de),
    {
        if self.de.in_struct_mode() {
            self.de.discard();
        }
        self.de.ensure_token()
    }

    /// Hands on what the decode of the value of an entry came to. The
    /// decoder is left as it is.
    pub fn next_value_seed<V>(&mut self, value: Result<V, BencodeError>) -> (r: Result<
        V,
        BencodeError,
    >)
        ensures
            r == value,
            *final(self).de == *old(self).de,
            *final(final(self).de) == *final(old(self).de),
    {
        value
    }

    /// Hands on the tag of a tagged union, given what its decode came to,
    /// together with the adapter, through which the payload is read next.
    pub fn variant_seed<V>(self, tag: Result<V, BencodeError>) -> (r: Result<
        (V, BencodeVisitor<'a>),
        BencodeError,
    >)
        ensures
            r == tagged(tag, self),
    {
        let value: V = tag?;
        Ok((value, self))
    }

    /// Ends a tagged union behind its single payload, given what the
    /// decode of the payload came to. A failed decode is handed on and the
    /// decoder is left as it is. Behind a decoded payload the closing
    /// `End` is looked for: it is popped, the union is closed and the
    /// payload handed on. Any other token starts a second entry, which
    /// makes the variant unknown; a scan that fails is returned as it
    /// failed.
    pub fn newtype_variant_seed<T>(self, payload: Result<T, BencodeError>) -> (r: Result<
        T,
        BencodeError,
    >)
        ensures
            match payload {
                Err(_) => r == payload && *final(self.de) == *old(self.de),
                Ok(value) => final(self.de)@ == old(self.de)@.sealed().next && match old(
                    self.de,
                )@.sealed().answer {
                    Ok(_) => r == Ok::<T, BencodeError>(value),
                    Err(error) => fails_with(r, error),
                },
            },
    {
        let de: &mut BencodeDecoder = self.de;
        match payload {
            Err(error) => Err(error),
            Ok(value) => match de.ensure_token() {
                Ok(_) => {
                    if de.at_end() {
                        de.close();
                        Ok(value)
                    } else {
                        Err(BencodeError::crowded_union())
                    }
                },
                Err(error) => Err(error),
            },
        }
    }

    /// Rejects a variant without payload.
    pub fn unit_variant(self) -> (r: Result<(), BencodeError>)
        ensures
            fails_with(r, ErrorView::UnknownVariant(unit_variant_detail())),
            *final(self.de) == *old(self.de),
    {
        Err(BencodeError::unit_variant())
    }

    /// Rejects a variant with `len` positional fields.
    pub fn tuple_variant<T>(self, len: usize) -> (r: Result<T, BencodeError>)
        ensures
            fails_with(r, ErrorView::UnknownVariant(tuple_variant_detail())),
            *final(self.de) == *old(self.de),
    {
        Err(BencodeError::tuple_variant())
    }

    /// Rejects a variant with the named fields `fields`.
    pub fn struct_variant<T>(self, fields: &[&str]) -> (r: Result<T, BencodeError>)
        ensures
            fails_with(r, ErrorView::UnknownVariant(struct_variant_detail())),
            *final(self.de) == *old(self.de),
    {
        Err(BencodeError::struct_variant())
    }
}

} // verus!
