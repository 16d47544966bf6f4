use tagged_decode::DecodeError;
use tagged_decode::FieldDef;
use tagged_decode::JsonError;
use tagged_decode::JsonVariantDecoder;
use tagged_decode::Number;
use tagged_decode::NumberHint;
use tagged_decode::TagMethod;
use tagged_decode::TagValue;
use tagged_decode::Token;
use tagged_decode::TokenKind;
use tagged_decode::TokenParser;
use tagged_decode::TypeHint;
use tagged_decode::Value;
use tagged_decode::ValueDecoder;
use tagged_decode::resolve;

fn u32v(n: u32) -> Value {
    Value::Number(Number::U32(n))
}

fn text(s: &str) -> Value {
    Value::Text(s.to_string())
}

#[test]
fn scalar_decoders_are_exact() {
    assert_eq!(ValueDecoder::new(Value::Bool(true)).decode_bool().unwrap(), true);
    assert_eq!(ValueDecoder::new(Value::Char('x')).decode_char().unwrap(), 'x');
    assert_eq!(ValueDecoder::new(Value::Unit).decode_unit().unwrap(), ());
    assert_eq!(
        ValueDecoder::new(u32v(7)).decode_number(NumberHint::U32).unwrap(),
        Number::U32(7)
    );
    assert_eq!(
        ValueDecoder::new(text("hi")).decode_string().unwrap(),
        "hi".to_string()
    );
}

#[test]
fn width_exact_decoders() {
    assert_eq!(ValueDecoder::new(Value::Number(Number::U8(9))).decode_u8().unwrap(), 9);
    assert_eq!(
        ValueDecoder::new(Value::Number(Number::I64(-3))).decode_i64().unwrap(),
        -3
    );
    assert_eq!(
        ValueDecoder::new(Value::Number(Number::Usize(4))).decode_usize().unwrap(),
        4
    );
    let err = ValueDecoder::new(Value::Number(Number::U16(1))).decode_u8().unwrap_err();
    assert_eq!(
        err,
        DecodeError::TypeMismatch {
            expected: TypeHint::Number(NumberHint::U8),
            actual: TypeHint::Number(NumberHint::U16),
        }
    );
}

#[test]
fn bytes_decode_in_full() {
    let b = ValueDecoder::new(Value::Bytes(vec![3, 4])).decode_bytes().unwrap();
    assert_eq!(b, vec![3, 4]);
}

#[test]
fn scalar_width_mismatch_is_reported() {
    let err = ValueDecoder::new(u32v(7)).decode_number(NumberHint::U8).unwrap_err();
    assert_eq!(
        err,
        DecodeError::TypeMismatch {
            expected: TypeHint::Number(NumberHint::U8),
            actual: TypeHint::Number(NumberHint::U32),
        }
    );
}

#[test]
fn bool_of_map_is_a_mismatch() {
    let err = ValueDecoder::new(Value::Mapping(Vec::new())).decode_bool().unwrap_err();
    assert_eq!(
        err,
        DecodeError::TypeMismatch { expected: TypeHint::Bool, actual: TypeHint::Mapping }
    );
}

#[test]
fn option_reads_unit_as_absent() {
    assert!(ValueDecoder::new(Value::Unit).decode_option().is_none());
    let inner = ValueDecoder::new(u32v(3)).decode_option().unwrap();
    assert_eq!(inner.decode_number(NumberHint::U32).unwrap(), Number::U32(3));
}

#[test]
fn array_length_must_match() {
    let ok = ValueDecoder::new(Value::Bytes(vec![1, 2, 3])).decode_array(3).unwrap();
    assert_eq!(ok, vec![1, 2, 3]);
    let err = ValueDecoder::new(Value::Bytes(vec![1, 2, 3])).decode_array(4).unwrap_err();
    assert_eq!(err, DecodeError::ArrayOutOfBounds);
}

#[test]
fn sequence_cursor_walks_in_order() {
    let mut cursor =
        ValueDecoder::new(Value::Sequence(vec![u32v(1), u32v(2)])).decode_sequence().unwrap();
    assert_eq!(cursor.size_hint(), 2);
    let first = cursor.next().unwrap();
    assert_eq!(first.decode_number(NumberHint::U32).unwrap(), Number::U32(1));
    let second = cursor.next().unwrap();
    assert_eq!(second.decode_number(NumberHint::U32).unwrap(), Number::U32(2));
    assert!(cursor.next().is_none());
    assert_eq!(cursor.end().unwrap(), ());
}

#[test]
fn pack_cursor_fails_when_exhausted() {
    let mut cursor = ValueDecoder::new(Value::Sequence(Vec::new())).decode_pack().unwrap();
    let err = cursor.next_value().unwrap_err();
    assert_eq!(err, DecodeError::ExpectedPackValue);
}

#[test]
fn end_on_exhausted_pair_cursor_is_fine() {
    let mut cursor = ValueDecoder::new(Value::Mapping(Vec::new())).decode_struct().unwrap();
    assert!(cursor.next().is_none());
    assert!(cursor.next().is_none());
    assert_eq!(cursor.end().unwrap(), ());
}

#[test]
fn pair_cursor_splits_key_and_value() {
    let mut pairs = ValueDecoder::new(Value::Mapping(vec![(text("k"), u32v(1))]))
        .decode_struct()
        .unwrap();
    let pair = pairs.next().unwrap();
    let k = pair.first().decode_string().unwrap();
    assert_eq!(k, "k".to_string());
    let k_again = pair.first().decode_string().unwrap();
    assert_eq!(k_again, "k".to_string());
    let v = pair.second().decode_number(NumberHint::U32).unwrap();
    assert_eq!(v, Number::U32(1));
    assert_eq!(pairs.end().unwrap(), ());
}

#[test]
fn variant_cursor_ends_after_skip() {
    let mut cursor = ValueDecoder::new(Value::Variant(Box::new((text("tag"), u32v(1)))))
        .decode_variant()
        .unwrap();
    let tag = cursor.tag().decode_string().unwrap();
    assert_eq!(tag, "tag".to_string());
    assert_eq!(cursor.skip_variant().unwrap(), true);
    assert_eq!(cursor.end().unwrap(), ());
}

#[test]
fn duplicate_makes_an_equal_deep_copy() {
    let original = Value::Mapping(vec![
        (text("k"), Value::Sequence(vec![u32v(1), Value::Bytes(vec![9])])),
    ]);
    let copy = original.duplicate();
    assert_eq!(copy, original);
}

#[test]
fn resolver_uses_indices_without_renames() {
    let fields = vec![
        FieldDef { name: "a".to_string(), rename: None, default_value: None },
        FieldDef { name: "b".to_string(), rename: None, default_value: None },
    ];
    let table = resolve(&"T".to_string(), &fields).unwrap();
    assert_eq!(table.method, TagMethod::Default);
    assert_eq!(table.tags, vec![TagValue::Index(0), TagValue::Index(1)]);
}

#[test]
fn one_rename_forces_names_for_all() {
    let fields = vec![
        FieldDef { name: "a".to_string(), rename: Some("A".to_string()), default_value: None },
        FieldDef { name: "b".to_string(), rename: None, default_value: None },
    ];
    let table = resolve(&"T".to_string(), &fields).unwrap();
    assert_eq!(table.method, TagMethod::Named);
    assert_eq!(
        table.tags,
        vec![TagValue::Name("A".to_string()), TagValue::Name("b".to_string())]
    );
}

#[test]
fn json_variant_frame_walks_tag_and_value() {
    let tokens = vec![
        Token::OpenBrace,
        Token::Text("choice".to_string()),
        Token::Colon,
        Token::Digits(7),
        Token::CloseBrace,
    ];
    let mut cursor = JsonVariantDecoder::new(TokenParser::new(tokens)).unwrap();
    assert_eq!(cursor.decode_tag().unwrap(), "choice".to_string());
    assert_eq!(cursor.decode_value().unwrap(), Value::Number(Number::U64(7)));
    assert_eq!(cursor.end().unwrap(), ());
}

#[test]
fn json_variant_frame_skips_value() {
    let tokens = vec![
        Token::OpenBrace,
        Token::Text("choice".to_string()),
        Token::Colon,
        Token::Text("payload".to_string()),
        Token::CloseBrace,
    ];
    let mut cursor = JsonVariantDecoder::new(TokenParser::new(tokens)).unwrap();
    assert_eq!(cursor.decode_tag().unwrap(), "choice".to_string());
    assert_eq!(cursor.skip_value().unwrap(), true);
    assert_eq!(cursor.end().unwrap(), ());
}

#[test]
fn json_variant_frame_requires_open_brace() {
    let err = JsonVariantDecoder::new(TokenParser::new(vec![Token::Colon])).unwrap_err();
    assert_eq!(
        err,
        JsonError::UnexpectedToken {
            expected: TokenKind::OpenBrace,
            found: Some(TokenKind::Colon),
        }
    );
    let err = JsonVariantDecoder::new(TokenParser::new(Vec::new())).unwrap_err();
    assert_eq!(
        err,
        JsonError::UnexpectedToken { expected: TokenKind::OpenBrace, found: None }
    );
}

#[test]
fn json_variant_end_requires_close_brace() {
    let tokens = vec![
        Token::OpenBrace,
        Token::Text("choice".to_string()),
        Token::Colon,
        Token::Digits(7),
        Token::Comma,
    ];
    let mut cursor = JsonVariantDecoder::new(TokenParser::new(tokens)).unwrap();
    let _ = cursor.decode_tag().unwrap();
    let _ = cursor.decode_value().unwrap();
    let err = cursor.end().unwrap_err();
    assert_eq!(
        err,
        JsonError::UnexpectedToken {
            expected: TokenKind::CloseBrace,
            found: Some(TokenKind::Comma),
        }
    );
}
