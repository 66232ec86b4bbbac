//! The block lexer: extracts one framed unit — `<decimal-length>:<payload><sigil>`
//! — from a byte range, or reports end of input.

use vstd::prelude::*;

use crate::errors::DecodeError;
use crate::errors::ErrorKind;
use crate::errors::ErrorModel;

verus! {

/// The newline sentinel that separates top-level documents.
pub const NEWLINE: u8 = 10;

/// The `:` separator between a length and its payload.
pub const COLON: u8 = 58;

/// One framed unit of the wire format: the payload bytes and the sigil
/// byte that says how to interpret them.
#[derive(Debug)]
pub struct Block {
    pub sigil: u8,
    pub data: Vec<u8>,
}

/// Whether a byte is a decimal digit.
pub open spec fn is_length_digit(b: u8) -> bool {
    48 <= b <= 57
}

/// The end of the run of decimal digits that starts at `pos`.
pub open spec fn digits_end(s: Seq<u8>, pos: int) -> int
    decreases s.len() - pos when 0 <= pos <= s.len()
{
    if pos < s.len() && is_length_digit(s[pos]) {
        digits_end(s, pos + 1)
    } else {
        pos
    }
}

/// The number written by the digits `s[i..j]`, most significant first.
pub open spec fn digits_value(s: Seq<u8>, i: int, j: int) -> nat
    decreases j - i when i <= j
{
    if i >= j {
        0
    } else {
        digits_value(s, i, j - 1) * 10 + (s[j - 1] - 48) as nat
    }
}

/// The snippet of nearby input that a length-parse error reports: up
/// to fifty bytes from the start of the failing block.
pub open spec fn spec_near_snippet(s: Seq<u8>, pos: int) -> Seq<u8> {
    let end = if pos + 50 <= s.len() {
        pos + 50
    } else {
        s.len() as int
    };
    s.subrange(pos, end)
}

/// What the lexer finds at a position: the natural end of the range (or
/// the newline sentinel), one well-formed frame, or a framing fault.
pub enum LexOutcome {
    End,
    Frame { sigil: u8, data: Seq<u8>, next: int },
    Fail(ErrorModel),
}

/// What `take_block` returns on `s` at `pos`: the whole lexing step as
/// one mathematical function.
pub open spec fn spec_take_block(s: Seq<u8>, pos: int) -> LexOutcome {
    if pos >= s.len() || s[pos] == NEWLINE {
        LexOutcome::End
    } else {
        let de = digits_end(s, pos);
        let n = digits_value(s, pos, de);
        if de == pos || n > usize::MAX as nat {
            LexOutcome::Fail(ErrorModel::BadLength { near: spec_near_snippet(s, pos) })
        } else if de == s.len() || s[de] != COLON {
            LexOutcome::Fail(ErrorModel::MissingColon)
        } else if n > s.len() - de - 1 {
            LexOutcome::Fail(
                ErrorModel::ShortRead { wanted: n, got: (s.len() - de - 1) as nat },
            )
        } else if de + 1 + n == s.len() {
            LexOutcome::Fail(ErrorModel::MissingSigil { len: n })
        } else {
            LexOutcome::Frame {
                sigil: s[de + 1 + n],
                data: s.subrange(de + 1, de + 1 + n),
                next: de + 1 + n + 1,
            }
        }
    }
}

/// The digit run stays inside the range, holds digits only, and ends at
/// a non-digit or at the end of the range.
pub proof fn lemma_digits_end_bounds(s: Seq<u8>, pos: int)
    requires
        0 <= pos <= s.len(),
    ensures
        pos <= digits_end(s, pos) <= s.len(),
        forall|k: int| pos <= k < digits_end(s, pos) ==> is_length_digit(s[k]),
        digits_end(s, pos) == s.len() || !is_length_digit(s[digits_end(s, pos)]),
    decreases s.len() - pos,
{
    if pos < s.len() && is_length_digit(s[pos]) {
        lemma_digits_end_bounds(s, pos + 1);
    }
}

/// A lexed frame sits strictly inside the range: its payload is at
/// least three bytes shorter than what the frame consumes, and the
/// next position stays in bounds.
pub proof fn lemma_frame_bounds(s: Seq<u8>, pos: int)
    requires
        0 <= pos <= s.len(),
    ensures
        spec_take_block(s, pos) matches LexOutcome::Frame { sigil, data, next } ==> pos + data.len()
            + 3 <= next <= s.len(),
{
    if pos < s.len() && s[pos] != NEWLINE {
        lemma_digits_end_bounds(s, pos);
    }
}

/// Length invariant: a lexed frame's payload has exactly the length its
/// header declared, and a range whose remainder is shorter than the
/// declared length is refused as a short read, never silently cut.
pub proof fn lemma_block_length(s: Seq<u8>, pos: int)
    requires
        0 <= pos <= s.len(),
    ensures
        spec_take_block(s, pos) matches LexOutcome::Frame { sigil, data, next } ==> data.len()
            == digits_value(s, pos, digits_end(s, pos)),
        ({
            let de = digits_end(s, pos);
            let n = digits_value(s, pos, de);
            (pos < s.len() && s[pos] != NEWLINE && de != pos && n <= usize::MAX as nat && de
                < s.len() && s[de] == COLON && n > s.len() - de - 1) ==> spec_take_block(s, pos)
                == LexOutcome::Fail(
                ErrorModel::ShortRead { wanted: n, got: (s.len() - de - 1) as nat },
            )
        }),
{
    lemma_digits_end_bounds(s, pos);
}

/// Copy `bytes[from..to]` out into a vector of its own.
pub fn copy_byte_range(bytes: &Vec<u8>, from: usize, to: usize) -> (r: Vec<u8>)
    requires
        from <= to <= bytes@.len(),
    ensures
        r@ == bytes@.subrange(from as int, to as int),
{
    let mut r: Vec<u8> = Vec::new();
    let mut j: usize = from;
    while j < to
        invariant
            from <= j <= to <= bytes@.len(),
            r@ == bytes@.subrange(from as int, j as int),
        decreases to - j,
    {
        r.push(bytes[j]);
        j = j + 1;
        proof {
            assert(r@ =~= bytes@.subrange(from as int, j as int));
        }
    }
    r
}

/// Extract the next frame from `input` at `pos`, per `spec_take_block`:
/// `Ok(None)` at the end of input or at the newline sentinel, otherwise
/// the block and the position just past its sigil byte.
pub fn take_block(input: &Vec<u8>, pos: usize) -> (r: Result<Option<(Block, usize)>, DecodeError>)
    requires
        pos <= input@.len(),
    ensures
        (match spec_take_block(input@, pos as int) {
            LexOutcome::End => r matches Ok(None),
            LexOutcome::Frame { sigil, data, next } => r matches Ok(Some((b, np)))
                && b.sigil == sigil && b.data@ == data && np == next,
            LexOutcome::Fail(m) => r matches Err(e) && e.kind.model() == m,
        }),
        r matches Ok(Some((b, np))) ==> pos + b.data@.len() + 3 <= np <= input@.len(),
{
    let len = input.len();
    if pos == len || input[pos] == NEWLINE {
        return Ok(None);
    }

    // Scan the run of decimal digits that spells the payload length.
    let mut de: usize = pos;
    while de < len && 48 <= input[de] && input[de] <= 57
        invariant
            pos <= de <= len,
            len == input@.len(),
            digits_end(input@, pos as int) == digits_end(input@, de as int),
        decreases len - de,
    {
        de = de + 1;
    }
    proof {
        assert(digits_end(input@, pos as int) == de as int);
        lemma_digits_end_bounds(input@, pos as int);
    }

    // Read the digits as a number, watching for overflow.
    let mut n: usize = 0;
    let mut i: usize = pos;
    let mut overflowed = false;
    while i < de
        invariant
            pos <= i <= de <= len,
            len == input@.len(),
            forall|k: int| pos <= k < de ==> is_length_digit(input@[k]),
            !overflowed ==> n as nat == digits_value(input@, pos as int, i as int),
            overflowed ==> digits_value(input@, pos as int, i as int) > usize::MAX as nat,
        decreases de - i,
    {
        let d = input[i] - 48;
        if !overflowed {
            match n.checked_mul(10) {
                Some(m) => match m.checked_add(d as usize) {
                    Some(v) => {
                        n = v;
                    },
                    None => {
                        overflowed = true;
                    },
                },
                None => {
                    overflowed = true;
                },
            }
        }
        proof {
            assert(digits_value(input@, pos as int, i + 1) == digits_value(
                input@,
                pos as int,
                i as int,
            ) * 10 + (input@[i as int] - 48) as nat);
        }
        i = i + 1;
    }
    if de == pos || overflowed {
        let near_end = if len - pos <= 50 {
            len
        } else {
            pos + 50
        };
        let near = copy_byte_range(input, pos, near_end);
        return Err(DecodeError::new(ErrorKind::BadLength { near }).in_context("reading length"));
    }

    // The separating colon.
    if de == len {
        return Err(DecodeError::new(ErrorKind::MissingColon).in_context(
            "end of input where the colon after a length was expected",
        ));
    }
    if input[de] != COLON {
        return Err(DecodeError::new(ErrorKind::MissingColon).in_context(
            "missing colon after length",
        ));
    }

    // Exactly `n` payload bytes.
    let body = de + 1;
    if n > len - body {
        return Err(DecodeError::new(ErrorKind::ShortRead { wanted: n, got: len - body }));
    }
    let mut data: Vec<u8> = Vec::new();
    let mut j: usize = body;
    while j < body + n
        invariant
            body <= j <= body + n <= len,
            len == input@.len(),
            data@ == input@.subrange(body as int, j as int),
        decreases body + n - j,
    {
        data.push(input[j]);
        j = j + 1;
        proof {
            assert(data@ =~= input@.subrange(body as int, j as int));
        }
    }

    // The trailing sigil byte.
    if body + n == len {
        return Err(DecodeError::new(ErrorKind::MissingSigil { len: n }));
    }
    let sigil = input[body + n];
    Ok(Some((Block { sigil, data }, body + n + 1)))
}

} // verus!
