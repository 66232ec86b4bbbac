//! Decode errors: a kind that says what went wrong, and a chain of
//! context notes that grows as the error propagates out of nested
//! decodes, so a deep failure reports its whole causal chain.

use vstd::prelude::*;

use crate::value::Value;
use crate::value::ValueModel;

verus! {

/// What a decode error reports, at the level of the mathematical model.
pub enum ErrorModel {
    /// No decimal digits where a length was expected, or digits that
    /// overflow the machine's length type; carries a snippet of nearby
    /// input.
    BadLength { near: Seq<u8> },
    /// No `:` separator after the length, or the stream ended there.
    MissingColon,
    /// The declared payload length exceeds what remains of the stream.
    ShortRead { wanted: nat, got: nat },
    /// The stream ended before the trailing sigil byte.
    MissingSigil { len: nat },
    /// Bytes that must be text are not valid UTF-8; carries a window
    /// of bytes around the first invalid position.
    BadText { window: Seq<u8> },
    /// A number payload is not a valid decimal literal.
    BadNumber { text: Seq<char> },
    /// A boolean payload is neither `true` nor `false`.
    BadBool { text: Seq<char> },
    /// An object body decoded to an odd number of parts.
    OddObjectCount { count: nat },
    /// An even-indexed part of an object body is not a string.
    NonStringKey { key: ValueModel },
    /// A sigil outside the fixed table; carries the raw payload.
    UnknownSigil { sigil: u8, payload: Seq<u8> },
}

/// What a decode error reports.
#[derive(Debug, PartialEq, Eq)]
pub enum ErrorKind {
    BadLength { near: Vec<u8> },
    MissingColon,
    ShortRead { wanted: usize, got: usize },
    MissingSigil { len: usize },
    BadText { window: Vec<u8> },
    BadNumber { text: String },
    BadBool { text: String },
    OddObjectCount { count: usize },
    NonStringKey { key: Value },
    UnknownSigil { sigil: u8, payload: Vec<u8> },
}

impl ErrorKind {
    /// The abstract report this kind stands for.
    pub open spec fn model(self) -> ErrorModel {
        match self {
            ErrorKind::BadLength { near } => ErrorModel::BadLength { near: near@ },
            ErrorKind::MissingColon => ErrorModel::MissingColon,
            ErrorKind::ShortRead { wanted, got } => ErrorModel::ShortRead {
                wanted: wanted as nat,
                got: got as nat,
            },
            ErrorKind::MissingSigil { len } => ErrorModel::MissingSigil { len: len as nat },
            ErrorKind::BadText { window } => ErrorModel::BadText { window: window@ },
            ErrorKind::BadNumber { text } => ErrorModel::BadNumber { text: text@ },
            ErrorKind::BadBool { text } => ErrorModel::BadBool { text: text@ },
            ErrorKind::OddObjectCount { count } => ErrorModel::OddObjectCount {
                count: count as nat,
            },
            ErrorKind::NonStringKey { key } => ErrorModel::NonStringKey { key: key.model() },
            ErrorKind::UnknownSigil { sigil, payload } => ErrorModel::UnknownSigil {
                sigil,
                payload: payload@,
            },
        }
    }
}

/// A fatal decode error: its kind, and the context notes pushed while
/// it propagated outward (innermost note first).
#[derive(Debug, PartialEq, Eq)]
pub struct DecodeError {
    pub kind: ErrorKind,
    pub context: Vec<String>,
}

impl DecodeError {
    /// A fresh error with no context yet.
    pub fn new(kind: ErrorKind) -> (r: DecodeError)
        ensures
            r.kind == kind,
            r.context@.len() == 0,
    {
        DecodeError { kind, context: Vec::new() }
    }

    /// Note one more enclosing decode step on the causal chain.
    pub fn in_context(self, note: &str) -> (r: DecodeError)
        ensures
            r.kind == self.kind,
            r.context.deep_view() == self.context.deep_view().push(note@),
    {
        let DecodeError { kind, mut context } = self;
        let ghost inner = context;
        context.push(note.to_owned());
        proof {
            assert(context.deep_view() =~= inner.deep_view().push(note@));
        }
        DecodeError { kind, context }
    }
}

} // verus!
