//! A verified decoder engine for the bencode wire format.
//!
//! Bencode has four primitives: signed integers (`i42e`), byte strings
//! (`4:spam`), lists (`l...e`) and dictionaries (`d...e`). The engine turns
//! the bytes into tokens one at a time, keeps the tokens that were scanned
//! but not yet delivered on a small stack, keeps a record of the containers
//! that are open, and tells its caller, request by request, what the input
//! holds at the current position.

pub mod decoder;
pub mod error;
pub mod grammar;
pub mod laws;
pub mod model;
pub mod stream;
pub mod text;
pub mod token;
pub mod value;
pub mod visit;
pub mod visitor;

pub use decoder::{from_bytes, from_str, BencodeDecoder};
pub use error::BencodeError;
pub use model::{Frame, MAX_DEPTH};
pub use text::parse_i64;
pub use token::Token;
pub use visit::{Identifier, Visit};
pub use visitor::BencodeVisitor;
