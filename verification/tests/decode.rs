use base64::Engine;

use netblock::decode::decode_blocks;
use netblock::decode::deconstruct;
use netblock::errors::ErrorKind;
use netblock::value::Value;

fn text(s: &str) -> Value {
    Value::Text(s.to_owned())
}

#[test]
fn trivial() {
    let input: Vec<u8> =
        b"75:7:headers;61:33:13:Cache-Control,12:no-transform,]20:6:Pragma,8:no-cache,]]}"
            .to_vec();
    let bodies = deconstruct(&input).unwrap();
    let expected = vec![Value::Object(vec![(
        "headers".to_owned(),
        Value::Array(vec![
            Value::Array(vec![text("Cache-Control"), text("no-transform")]),
            Value::Array(vec![text("Pragma"), text("no-cache")]),
        ]),
    )])];
    assert_eq!(expected, bodies);
}

#[test]
fn empty_input_yields_no_values() {
    let bodies = deconstruct(&Vec::new()).unwrap();
    assert_eq!(bodies, Vec::<Value>::new());
}

#[test]
fn plain_string_decodes() {
    let bodies = deconstruct(&b"5:hello,".to_vec()).unwrap();
    assert_eq!(bodies, vec![text("hello")]);
}

#[test]
fn known_value_string_decodes() {
    let bodies = deconstruct(&b"5:hello;".to_vec()).unwrap();
    assert_eq!(bodies, vec![text("hello")]);
}

#[test]
fn empty_length_block_is_empty_string() {
    let bodies = deconstruct(&b"0:~".to_vec()).unwrap();
    assert_eq!(bodies, vec![text("")]);
}

#[test]
fn timestamp_requires_valid_text() {
    let err = deconstruct(&b"2:\xff\xfe^".to_vec()).unwrap_err();
    assert_eq!(err.kind, ErrorKind::BadText { window: vec![0xff, 0xfe] });
}

#[test]
fn plain_string_falls_back_to_base64() {
    let raw: Vec<u8> = vec![0xff, 0xfe, 0x00, 0x7f];
    let mut input: Vec<u8> = b"4:".to_vec();
    input.extend_from_slice(&raw);
    input.push(b',');
    let bodies = deconstruct(&input).unwrap();
    assert_eq!(bodies.len(), 1);
    match &bodies[0] {
        Value::Object(pairs) => {
            assert_eq!(pairs.len(), 1);
            assert_eq!(pairs[0].0, "base64");
            match &pairs[0].1 {
                Value::Text(encoded) => {
                    let decoded = base64::engine::general_purpose::STANDARD
                        .decode(encoded)
                        .unwrap();
                    assert_eq!(decoded, raw);
                },
                other => panic!("expected base64 text, got {:?}", other),
            }
        },
        other => panic!("expected fallback object, got {:?}", other),
    }
}

#[test]
fn bool_true_decodes() {
    let bodies = deconstruct(&b"4:true!".to_vec()).unwrap();
    assert_eq!(bodies, vec![Value::Bool(true)]);
}

#[test]
fn bool_false_decodes() {
    let bodies = deconstruct(&b"5:false!".to_vec()).unwrap();
    assert_eq!(bodies, vec![Value::Bool(false)]);
}

#[test]
fn bool_rejects_other_literals() {
    let err = deconstruct(&b"3:yes!".to_vec()).unwrap_err();
    assert_eq!(err.kind, ErrorKind::BadBool { text: "yes".to_owned() });
}

#[test]
fn number_keeps_its_literal() {
    let bodies = deconstruct(&b"4:-1.5#".to_vec()).unwrap();
    assert_eq!(bodies, vec![Value::Number("-1.5".to_owned())]);
}

#[test]
fn number_rejects_bad_literal() {
    let err = deconstruct(&b"5:hello#".to_vec()).unwrap_err();
    assert_eq!(err.kind, ErrorKind::BadNumber { text: "hello".to_owned() });
}

#[test]
fn number_requires_valid_text() {
    let err = deconstruct(&b"1:\xff#".to_vec()).unwrap_err();
    assert_eq!(err.kind, ErrorKind::BadText { window: vec![0xff] });
}

#[test]
fn truncated_payload_is_a_short_read() {
    let err = deconstruct(&b"10:abc,".to_vec()).unwrap_err();
    assert_eq!(err.kind, ErrorKind::ShortRead { wanted: 10, got: 4 });
}

#[test]
fn missing_length_digits_is_rejected() {
    let err = deconstruct(&b"abc".to_vec()).unwrap_err();
    assert_eq!(err.kind, ErrorKind::BadLength { near: b"abc".to_vec() });
}

#[test]
fn overflowing_length_is_rejected() {
    let input: Vec<u8> = b"99999999999999999999999:x,".to_vec();
    let err = deconstruct(&input).unwrap_err();
    assert_eq!(err.kind, ErrorKind::BadLength { near: input });
}

#[test]
fn missing_colon_is_rejected() {
    let err = deconstruct(&b"1x".to_vec()).unwrap_err();
    assert_eq!(err.kind, ErrorKind::MissingColon);
}

#[test]
fn input_ending_at_length_is_rejected() {
    let err = deconstruct(&b"12".to_vec()).unwrap_err();
    assert_eq!(err.kind, ErrorKind::MissingColon);
}

#[test]
fn missing_sigil_is_rejected() {
    let err = deconstruct(&b"1:a".to_vec()).unwrap_err();
    assert_eq!(err.kind, ErrorKind::MissingSigil { len: 1 });
}

#[test]
fn unknown_sigil_is_rejected() {
    let err = deconstruct(&b"2:ab?".to_vec()).unwrap_err();
    assert_eq!(err.kind, ErrorKind::UnknownSigil { sigil: b'?', payload: b"ab".to_vec() });
}

#[test]
fn odd_object_body_is_rejected() {
    // `}` wrapping a single string block: one part, which is odd.
    let err = deconstruct(&b"6:3:abc,}".to_vec()).unwrap_err();
    assert_eq!(err.kind, ErrorKind::OddObjectCount { count: 1 });
}

#[test]
fn non_string_key_is_rejected() {
    // An object whose first (key) part is a boolean.
    let err = deconstruct(&b"13:4:true!3:abc,}".to_vec()).unwrap_err();
    assert_eq!(err.kind, ErrorKind::NonStringKey { key: Value::Bool(true) });
}

#[test]
fn duplicate_keys_are_all_preserved() {
    let bodies = deconstruct(&b"16:1:a,1:x,1:a,1:y,}".to_vec()).unwrap();
    let expected = vec![Value::Object(vec![
        ("a".to_owned(), text("x")),
        ("a".to_owned(), text("y")),
    ])];
    assert_eq!(expected, bodies);
}

#[test]
fn nested_error_reports_its_context_chain() {
    // A bad boolean inside an array: the error names the enclosing steps.
    let err = deconstruct(&b"6:3:yes!]".to_vec()).unwrap_err();
    assert_eq!(err.kind, ErrorKind::BadBool { text: "yes".to_owned() });
    assert!(err.context.contains(&"destructuring array".to_owned()));
}

#[test]
fn framing_error_inside_object_keeps_its_kind() {
    // A truncated block inside an object body.
    let err = deconstruct(&b"4:9:ab}".to_vec()).unwrap_err();
    assert_eq!(err.kind, ErrorKind::ShortRead { wanted: 9, got: 2 });
    assert!(err.context.contains(&"reading block".to_owned()));
    assert!(err.context.contains(&"destructuring object".to_owned()));
}

#[test]
fn deep_nesting_decodes_and_terminates() {
    let mut encoded = String::from("0:~");
    let depth: usize = 200;
    for _ in 0..depth {
        encoded = format!("{}:{}]", encoded.len(), encoded);
    }
    let bodies = deconstruct(&encoded.into_bytes()).unwrap();
    assert_eq!(bodies.len(), 1);
    let mut node = &bodies[0];
    let mut seen: usize = 0;
    loop {
        match node {
            Value::Array(inner) => {
                assert_eq!(inner.len(), 1);
                seen += 1;
                node = &inner[0];
            },
            Value::Text(s) => {
                assert_eq!(s, "");
                break;
            },
            other => panic!("unexpected node {:?}", other),
        }
    }
    assert_eq!(seen, depth);
}

#[test]
fn newline_separates_documents() {
    let input: Vec<u8> = b"4:true!\n5:false!".to_vec();
    let (first, stop) = decode_blocks(&input, 0).unwrap();
    assert_eq!(first, vec![Value::Bool(true)]);
    assert_eq!(stop, 7);
    assert_eq!(input[stop], b'\n');
    let (second, end) = decode_blocks(&input, stop + 1).unwrap();
    assert_eq!(second, vec![Value::Bool(false)]);
    assert_eq!(end, input.len());
}

#[test]
fn several_blocks_decode_in_order() {
    let bodies = deconstruct(&b"1:a,4:true!2:42#".to_vec()).unwrap();
    assert_eq!(bodies, vec![text("a"), Value::Bool(true), Value::Number("42".to_owned())]);
}

#[test]
fn take_block_extracts_one_frame() {
    let input: Vec<u8> = b"5:hello,4:true!".to_vec();
    let (block, next) = netblock::lexer::take_block(&input, 0).unwrap().unwrap();
    assert_eq!(block.sigil, b',');
    assert_eq!(block.data, b"hello".to_vec());
    assert_eq!(next, 8);
    let (block, next) = netblock::lexer::take_block(&input, next).unwrap().unwrap();
    assert_eq!(block.sigil, b'!');
    assert_eq!(block.data, b"true".to_vec());
    assert_eq!(next, input.len());
    assert!(netblock::lexer::take_block(&input, next).unwrap().is_none());
}

#[test]
fn take_block_stops_at_newline() {
    let input: Vec<u8> = b"\n5:hello,".to_vec();
    assert!(netblock::lexer::take_block(&input, 0).unwrap().is_none());
}

#[test]
fn encoding_error_window_is_bounded() {
    // Thirty valid bytes, then an invalid one: the window starts twenty
    // bytes before the invalid position, not at the payload's start.
    let mut payload: Vec<u8> = vec![b'a'; 30];
    payload.push(0xff);
    let mut input: Vec<u8> = b"31:".to_vec();
    input.extend_from_slice(&payload);
    input.push(b';');
    let err = netblock::decode::deconstruct(&input).unwrap_err();
    let mut expected: Vec<u8> = vec![b'a'; 20];
    expected.push(0xff);
    assert_eq!(err.kind, ErrorKind::BadText { window: expected });
}

#[test]
fn build_value_interprets_sigils_directly() {
    let v = netblock::decode::build_value(b'!', b"true".to_vec()).unwrap();
    assert_eq!(v, Value::Bool(true));
    let v = netblock::decode::build_value(b'~', Vec::new()).unwrap();
    assert_eq!(v, text(""));
    let err = netblock::decode::build_value(b'?', b"xy".to_vec()).unwrap_err();
    assert_eq!(err.kind, ErrorKind::UnknownSigil { sigil: b'?', payload: b"xy".to_vec() });
}

#[test]
fn pair_up_pairs_in_encounter_order() {
    let mut items = vec![text("k1"), Value::Bool(true), text("k2"), Value::Bool(false)];
    let pairs = netblock::decode::pair_up(&mut items).unwrap();
    assert_eq!(
        pairs,
        vec![
            ("k1".to_owned(), Value::Bool(true)),
            ("k2".to_owned(), Value::Bool(false)),
        ]
    );
}
