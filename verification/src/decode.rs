//! The value builder: drives the lexer over a byte range, interprets
//! each block per its sigil, and recurses into the payload of array and
//! object blocks.

use vstd::prelude::*;

use crate::errors::DecodeError;
use crate::errors::ErrorKind;
use crate::errors::ErrorModel;
use crate::foreign::base64_of;
use crate::foreign::bytes_to_text;
use crate::foreign::encode_base64;
use crate::foreign::is_json_number;
use crate::foreign::is_number_literal;
use crate::foreign::utf8_valid_prefix;
use crate::lexer::copy_byte_range;
use crate::lexer::lemma_frame_bounds;
use crate::lexer::spec_take_block;
use crate::lexer::take_block;
use crate::lexer::LexOutcome;
use crate::value::lemma_models_of;
use crate::value::lemma_models_of_push;
use crate::value::lemma_pair_models_of;
use crate::value::lemma_pair_models_of_push;
use crate::value::models_of;
use crate::value::pair_models_of;
use crate::value::Value;
use crate::value::ValueModel;

verus! {

/// `]`: the payload is a nested block sequence; an array of its values.
pub const SIGIL_ARRAY: u8 = 93;

/// `}`: the payload is a nested block sequence; pairs of its values.
pub const SIGIL_OBJECT: u8 = 125;

/// `,`: a plain string, with the base64 fallback for invalid text.
pub const SIGIL_PLAIN: u8 = 44;

/// `;`: a well-known value; text, invalid text is a hard error.
pub const SIGIL_KNOWN: u8 = 59;

/// `^`: a timestamp; text, invalid text is a hard error.
pub const SIGIL_STAMP: u8 = 94;

/// `~`: an empty string; text, invalid text is a hard error.
pub const SIGIL_EMPTY: u8 = 126;

/// `#`: a decimal number literal.
pub const SIGIL_NUMBER: u8 = 35;

/// `!`: exactly the literal `true` or `false`.
pub const SIGIL_BOOL: u8 = 33;

/// The window of payload bytes that an encoding error reports: up to
/// twenty bytes before the first invalid position, sixty bytes in all.
pub open spec fn spec_text_window(bytes: Seq<u8>, valid_up_to: int) -> Seq<u8> {
    let vu = if valid_up_to <= bytes.len() {
        valid_up_to
    } else {
        bytes.len() as int
    };
    let start = if vu > 20 {
        vu - 20
    } else {
        0
    };
    let end = if bytes.len() - start <= 60 {
        bytes.len() as int
    } else {
        start + 60
    };
    bytes.subrange(start, end)
}

/// The encoding-error report for a payload that must be text but is
/// not valid UTF-8.
pub open spec fn spec_bad_text(bytes: Seq<u8>) -> ErrorModel {
    ErrorModel::BadText { window: spec_text_window(bytes, utf8_valid_prefix(bytes) as int) }
}

/// Pair up a flat object body: even-indexed values are the keys and
/// must be strings. Callers reject odd-length bodies beforehand.
pub open spec fn spec_pair_up(vs: Seq<ValueModel>) -> Result<
    Seq<(Seq<char>, ValueModel)>,
    ErrorModel,
>
    decreases vs.len(),
{
    if vs.len() < 2 {
        Ok(Seq::empty())
    } else {
        match vs[0] {
            ValueModel::Text(k) => match spec_pair_up(vs.subrange(2, vs.len() as int)) {
                Ok(rest) => Ok(seq![(k, vs[1])] + rest),
                Err(e) => Err(e),
            },
            _ => Err(ErrorModel::NonStringKey { key: vs[0] }),
        }
    }
}

/// The value a block with this sigil and payload decodes to, or the
/// error that decoding it reports: the whole sigil table as one
/// mathematical function.
pub open spec fn spec_build_value(sigil: u8, data: Seq<u8>) -> Result<ValueModel, ErrorModel>
    decreases data.len(), 1int,
{
    if sigil == SIGIL_ARRAY {
        match spec_decode_blocks(data, 0) {
            Ok(r) => Ok(ValueModel::Array(r.0)),
            Err(e) => Err(e),
        }
    } else if sigil == SIGIL_OBJECT {
        match spec_decode_blocks(data, 0) {
            Ok(r) => if r.0.len() % 2 != 0 {
                Err(ErrorModel::OddObjectCount { count: r.0.len() })
            } else {
                match spec_pair_up(r.0) {
                    Ok(ps) => Ok(ValueModel::Object(ps)),
                    Err(e) => Err(e),
                }
            },
            Err(e) => Err(e),
        }
    } else if sigil == SIGIL_PLAIN {
        if vstd::utf8::valid_utf8(data) {
            Ok(ValueModel::Text(vstd::utf8::decode_utf8(data)))
        } else {
            Ok(
                ValueModel::Object(
                    seq![(("base64")@, ValueModel::Text(base64_of(data)))],
                ),
            )
        }
    } else if sigil == SIGIL_KNOWN || sigil == SIGIL_STAMP || sigil == SIGIL_EMPTY {
        if vstd::utf8::valid_utf8(data) {
            Ok(ValueModel::Text(vstd::utf8::decode_utf8(data)))
        } else {
            Err(spec_bad_text(data))
        }
    } else if sigil == SIGIL_NUMBER {
        if !vstd::utf8::valid_utf8(data) {
            Err(spec_bad_text(data))
        } else if is_json_number(vstd::utf8::decode_utf8(data)) {
            Ok(ValueModel::Number(vstd::utf8::decode_utf8(data)))
        } else {
            Err(ErrorModel::BadNumber { text: vstd::utf8::decode_utf8(data) })
        }
    } else if sigil == SIGIL_BOOL {
        if !vstd::utf8::valid_utf8(data) {
            Err(spec_bad_text(data))
        } else if vstd::utf8::decode_utf8(data) == ("true")@ {
            Ok(ValueModel::Bool(true))
        } else if vstd::utf8::decode_utf8(data) == ("false")@ {
            Ok(ValueModel::Bool(false))
        } else {
            Err(ErrorModel::BadBool { text: vstd::utf8::decode_utf8(data) })
        }
    } else {
        Err(ErrorModel::UnknownSigil { sigil, payload: data })
    }
}

/// The values of every block of `s` from `pos` up to the newline
/// sentinel or the end of the range, with the position where decoding
/// stopped — or the first error met, fail-fast.
pub open spec fn spec_decode_blocks(s: Seq<u8>, pos: int) -> Result<
    (Seq<ValueModel>, int),
    ErrorModel,
>
    decreases s.len() - pos, 0int
        when 0 <= pos <= s.len()
        via spec_decode_blocks_decreases
{
    match spec_take_block(s, pos) {
        LexOutcome::End => Ok((Seq::empty(), pos)),
        LexOutcome::Fail(m) => Err(m),
        LexOutcome::Frame { sigil, data, next } => match spec_build_value(sigil, data) {
            Err(e) => Err(e),
            Ok(v) => match spec_decode_blocks(s, next) {
                Err(e) => Err(e),
                Ok(r) => Ok((seq![v] + r.0, r.1)),
            },
        },
    }
}

#[via_fn]
proof fn spec_decode_blocks_decreases(s: Seq<u8>, pos: int) {
    lemma_frame_bounds(s, pos);
}

/// Pair up a decoded object body, per `spec_pair_up`: even-indexed
/// values become the keys and must be strings.
pub fn pair_up(items: &mut Vec<Value>) -> (r: Result<Vec<(String, Value)>, DecodeError>)
    requires
        old(items)@.len() % 2 == 0,
    ensures
        (match spec_pair_up(models_of(old(items)@)) {
            Ok(ps) => r matches Ok(v) && pair_models_of(v@) == ps,
            Err(m) => r matches Err(e) && e.kind.model() == m,
        }),
{
    let ghost all = models_of(items@);
    let mut out: Vec<(String, Value)> = Vec::new();
    proof {
        lemma_models_of(items@);
        if spec_pair_up(all) is Ok {
            assert(pair_models_of(out@) + spec_pair_up(all)->Ok_0 =~= spec_pair_up(all)->Ok_0);
        }
    }
    while items.len() >= 2
        invariant
            all == models_of(old(items)@),
            items@.len() % 2 == 0,
            ({
                let cur = spec_pair_up(models_of(items@));
                match spec_pair_up(all) {
                    Ok(ps) => cur matches Ok(rest) && ps == pair_models_of(out@) + rest,
                    Err(m) => cur matches Err(m2) && m == m2,
                }
            }),
        decreases items@.len(),
    {
        let ghost before = items@;
        let key = items.remove(0);
        let val = items.remove(0);
        proof {
            assert(items@ =~= before.subrange(2, before.len() as int));
            lemma_models_of(before);
            lemma_models_of(items@);
            assert(models_of(items@) =~= models_of(before).subrange(
                2,
                models_of(before).len() as int,
            ));
        }
        match key {
            Value::Text(k) => {
                proof {
                    lemma_pair_models_of_push(out@, k, val);
                    if spec_pair_up(all) is Ok && spec_pair_up(models_of(items@)) is Ok {
                        let rest = spec_pair_up(models_of(items@))->Ok_0;
                        assert(pair_models_of(out@) + (seq![(k@, val.model())] + rest)
                            =~= pair_models_of(out@.push((k, val))) + rest);
                    }
                }
                out.push((k, val));
            },
            other => {
                proof {
                    assert(models_of(before)[0] == before[0].model());
                }
                return Err(DecodeError::new(ErrorKind::NonStringKey { key: other }));
            },
        }
    }
    proof {
        assert(pair_models_of(out@) + Seq::<(Seq<char>, ValueModel)>::empty() =~= pair_models_of(
            out@,
        ));
    }
    Ok(out)
}

/// The encoding-error report for bytes that are not valid text: a
/// bounded window of the bytes around the first invalid position.
pub fn string_error(bytes: &Vec<u8>, valid_up_to: usize) -> (k: ErrorKind)
    requires
        valid_up_to <= bytes@.len(),
    ensures
        k.model() == (ErrorModel::BadText {
            window: spec_text_window(bytes@, valid_up_to as int),
        }),
{
    let start = if valid_up_to > 20 {
        valid_up_to - 20
    } else {
        0
    };
    let end = if bytes.len() - start <= 60 {
        bytes.len()
    } else {
        start + 60
    };
    let window = copy_byte_range(bytes, start, end);
    ErrorKind::BadText { window }
}

/// Interpret one block per the sigil table, per `spec_build_value`.
pub fn build_value(sigil: u8, data: Vec<u8>) -> (r: Result<Value, DecodeError>)
    ensures
        (match spec_build_value(sigil, data@) {
            Ok(m) => r matches Ok(v) && v.model() == m,
            Err(em) => r matches Err(e) && e.kind.model() == em,
        }),
    decreases data@.len(), 1int,
{
    if sigil == SIGIL_ARRAY {
        match decode_blocks(&data, 0) {
            Ok(vs) => Ok(Value::Array(vs.0)),
            Err(e) => Err(e.in_context("destructuring array")),
        }
    } else if sigil == SIGIL_OBJECT {
        match decode_blocks(&data, 0) {
            Err(e) => Err(e.in_context("destructuring object")),
            Ok(vs) => {
                let mut contents = vs.0;
                proof {
                    lemma_models_of(contents@);
                }
                if contents.len() % 2 != 0 {
                    Err(DecodeError::new(ErrorKind::OddObjectCount { count: contents.len() }))
                } else {
                    match pair_up(&mut contents) {
                        Ok(ps) => Ok(Value::Object(ps)),
                        Err(e) => Err(e),
                    }
                }
            },
        }
    } else if sigil == SIGIL_PLAIN {
        let ghost raw = data@;
        match bytes_to_text(data) {
            Ok(s) => Ok(Value::Text(s)),
            Err((bytes, _valid_up_to)) => {
                let encoded = encode_base64(&bytes);
                let mut pairs: Vec<(String, Value)> = Vec::new();
                pairs.push(("base64".to_owned(), Value::Text(encoded)));
                proof {
                    lemma_pair_models_of(pairs@);
                    assert(pair_models_of(pairs@) =~= seq![
                        (("base64")@, ValueModel::Text(base64_of(raw))),
                    ]);
                }
                Ok(Value::Object(pairs))
            },
        }
    } else if sigil == SIGIL_KNOWN || sigil == SIGIL_STAMP || sigil == SIGIL_EMPTY {
        let note: &str = if sigil == SIGIL_KNOWN {
            "reading well-known value"
        } else if sigil == SIGIL_STAMP {
            "reading timestamp"
        } else {
            "reading empty-string value"
        };
        match bytes_to_text(data) {
            Ok(s) => Ok(Value::Text(s)),
            Err((raw, valid_up_to)) => Err(
                DecodeError::new(string_error(&raw, valid_up_to)).in_context(note),
            ),
        }
    } else if sigil == SIGIL_NUMBER {
        match bytes_to_text(data) {
            Err((raw, valid_up_to)) => Err(
                DecodeError::new(string_error(&raw, valid_up_to)).in_context("reading number"),
            ),
            Ok(s) => {
                if is_number_literal(s.as_str()) {
                    Ok(Value::Number(s))
                } else {
                    Err(DecodeError::new(ErrorKind::BadNumber { text: s }))
                }
            },
        }
    } else if sigil == SIGIL_BOOL {
        match bytes_to_text(data) {
            Err((raw, valid_up_to)) => Err(
                DecodeError::new(string_error(&raw, valid_up_to)).in_context("reading boolean"),
            ),
            Ok(s) => {
                let yes = "true".to_owned();
                let no = "false".to_owned();
                if s == yes {
                    Ok(Value::Bool(true))
                } else if s == no {
                    Ok(Value::Bool(false))
                } else {
                    Err(DecodeError::new(ErrorKind::BadBool { text: s }))
                }
            },
        }
    } else {
        Err(DecodeError::new(ErrorKind::UnknownSigil { sigil, payload: data }))
    }
}

/// Decode every block of `input` from `start` up to the newline
/// sentinel or the end of input, per `spec_decode_blocks`: the decoded
/// values in encounter order, and the position where decoding stopped.
pub fn decode_blocks(input: &Vec<u8>, start: usize) -> (r: Result<
    (Vec<Value>, usize),
    DecodeError,
>)
    requires
        start <= input@.len(),
    ensures
        (match spec_decode_blocks(input@, start as int) {
            Ok(m) => r matches Ok(p) && models_of(p.0@) == m.0 && p.1 == m.1,
            Err(em) => r matches Err(e) && e.kind.model() == em,
        }),
    decreases input@.len() - start, 0int,
{
    let mut pos: usize = start;
    let mut out: Vec<Value> = Vec::new();
    loop
        invariant
            start <= pos <= input@.len(),
            ({
                let whole = spec_decode_blocks(input@, start as int);
                let here = spec_decode_blocks(input@, pos as int);
                match whole {
                    Ok(m) => here matches Ok(h) && m.0 == models_of(out@) + h.0 && m.1 == h.1,
                    Err(em) => here matches Err(e2) && em == e2,
                }
            }),
        decreases input@.len() - pos,
    {
        match take_block(input, pos) {
            Err(e) => {
                return Err(e.in_context("reading block"));
            },
            Ok(None) => {
                proof {
                    assert(models_of(out@) + Seq::<ValueModel>::empty() =~= models_of(out@));
                }
                return Ok((out, pos));
            },
            Ok(Some((block, next))) => {
                match build_value(block.sigil, block.data) {
                    Err(e) => {
                        return Err(e);
                    },
                    Ok(v) => {
                        proof {
                            lemma_models_of_push(out@, v);
                            let here = spec_decode_blocks(input@, pos as int);
                            let after = spec_decode_blocks(input@, next as int);
                            if after is Ok {
                                let rest = after->Ok_0.0;
                                assert(models_of(out@) + (seq![v.model()] + rest) =~= models_of(
                                    out@.push(v),
                                ) + rest);
                            }
                        }
                        out.push(v);
                        pos = next;
                    },
                }
            },
        }
    }
}

/// Decode every top-level block of `input`, up to the newline sentinel
/// or the end of input, into a sequence of values.
pub fn deconstruct(input: &Vec<u8>) -> (r: Result<Vec<Value>, DecodeError>)
    ensures
        (match spec_decode_blocks(input@, 0) {
            Ok(m) => r matches Ok(vs) && models_of(vs@) == m.0,
            Err(em) => r matches Err(e) && e.kind.model() == em,
        }),
{
    match decode_blocks(input, 0) {
        Ok(p) => Ok(p.0),
        Err(e) => Err(e),
    }
}

/// Pairing halves an even-length body.
proof fn lemma_pair_up_len(vs: Seq<ValueModel>)
    requires
        vs.len() % 2 == 0,
    ensures
        spec_pair_up(vs) matches Ok(ps) ==> ps.len() * 2 == vs.len(),
    decreases vs.len(),
{
    if vs.len() >= 2 {
        lemma_pair_up_len(vs.subrange(2, vs.len() as int));
    }
}

/// Object parity: an object block only decodes when its body holds an
/// even number of parts, and it yields exactly half as many pairs; an
/// odd body is refused as a structural error.
pub proof fn lemma_object_parity(data: Seq<u8>)
    ensures
        spec_build_value(SIGIL_OBJECT, data) matches Ok(m) ==> ({
            &&& spec_decode_blocks(data, 0) matches Ok(body)
            &&& body.0.len() % 2 == 0
            &&& m matches ValueModel::Object(ps) && ps.len() * 2 == body.0.len()
        }),
        (spec_decode_blocks(data, 0) matches Ok(body) && body.0.len() % 2 != 0)
            ==> spec_build_value(SIGIL_OBJECT, data) == Err::<ValueModel, ErrorModel>(
            ErrorModel::OddObjectCount { count: spec_decode_blocks(data, 0)->Ok_0.0.len() },
        ),
{
    if spec_decode_blocks(data, 0) is Ok {
        let body = spec_decode_blocks(data, 0)->Ok_0.0;
        if body.len() % 2 == 0 {
            lemma_pair_up_len(body);
        }
    }
}

/// The plain-string sigil never fails: invalid text degrades to the
/// base64 fallback object instead of an error.
pub proof fn lemma_plain_string_total(data: Seq<u8>)
    ensures
        spec_build_value(SIGIL_PLAIN, data) is Ok,
        !vstd::utf8::valid_utf8(data) ==> spec_build_value(SIGIL_PLAIN, data) == Ok::<
            ValueModel,
            ErrorModel,
        >(ValueModel::Object(seq![(("base64")@, ValueModel::Text(base64_of(data)))])),
{
}

/// Boolean exactness: a boolean block decodes to `true` or `false`
/// exactly for the payloads that spell those two literals; every other
/// payload is refused.
pub proof fn lemma_bool_exactness(data: Seq<u8>)
    ensures
        spec_build_value(SIGIL_BOOL, data) == Ok::<ValueModel, ErrorModel>(ValueModel::Bool(true))
            <==> (vstd::utf8::valid_utf8(data) && vstd::utf8::decode_utf8(data) == ("true")@),
        spec_build_value(SIGIL_BOOL, data) == Ok::<ValueModel, ErrorModel>(ValueModel::Bool(false))
            <==> (vstd::utf8::valid_utf8(data) && vstd::utf8::decode_utf8(data) == ("false")@),
{
    reveal_strlit("true");
    reveal_strlit("false");
    assert(("true")@.len() == 4);
    assert(("false")@.len() == 5);
}

} // verus!
