//! Decoder for a length-prefixed, type-tagged wire format.
//!
//! Every value on the wire is framed as `<decimal-length>:<payload><sigil>`.
//! The block lexer ([`lexer::take_block`]) extracts one frame at a time;
//! the value builder ([`decode::deconstruct`]) interprets each frame by its
//! sigil, recursing into array and object payloads, and yields a tree of
//! [`value::Value`] nodes.

pub mod decode;
pub mod errors;
pub mod foreign;
pub mod lexer;
pub mod value;
