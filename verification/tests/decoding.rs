use tagged_decode::DecodeError;
use tagged_decode::DecodedVariant;
use tagged_decode::EnumDef;
use tagged_decode::FieldDef;
use tagged_decode::Number;
use tagged_decode::Packing;
use tagged_decode::StructDef;
use tagged_decode::TagValue;
use tagged_decode::Value;
use tagged_decode::ValueDecoder;
use tagged_decode::VariantDef;
use tagged_decode::decode_enum;
use tagged_decode::decode_struct;
use tagged_decode::encode_struct;

fn field(name: &str) -> FieldDef {
    FieldDef { name: name.to_string(), rename: None, default_value: None }
}

fn field_renamed(name: &str, rename: &str) -> FieldDef {
    FieldDef { name: name.to_string(), rename: Some(rename.to_string()), default_value: None }
}

fn field_defaulted(name: &str, default_value: Value) -> FieldDef {
    FieldDef { name: name.to_string(), rename: None, default_value: Some(default_value) }
}

fn u32v(n: u32) -> Value {
    Value::Number(Number::U32(n))
}

fn key(i: usize) -> Value {
    Value::Number(Number::Usize(i))
}

fn text(s: &str) -> Value {
    Value::Text(s.to_string())
}

fn tagged_xy() -> StructDef {
    StructDef::new("Point".to_string(), Packing::Tagged, vec![field("x"), field("y")]).unwrap()
}

fn variant(name: &str, fields: Vec<FieldDef>) -> VariantDef {
    VariantDef { name: name.to_string(), rename: None, packing: None, fields, fallback: false }
}

fn fallback_variant(name: &str) -> VariantDef {
    VariantDef {
        name: name.to_string(),
        rename: None,
        packing: None,
        fields: Vec::new(),
        fallback: true,
    }
}

#[test]
fn round_trip_tagged() {
    let def = tagged_xy();
    let values = vec![u32v(1), u32v(2)];
    let encoded = encode_struct(&def, &values);
    let decoded = decode_struct(&def, ValueDecoder::new(encoded)).unwrap();
    assert_eq!(decoded, values);
}

#[test]
fn round_trip_packed() {
    let def =
        StructDef::new("Pair".to_string(), Packing::Packed, vec![field("x"), field("y")]).unwrap();
    let values = vec![u32v(7), text("seven")];
    let encoded = encode_struct(&def, &values);
    assert_eq!(
        encoded,
        Value::Sequence(vec![u32v(7), text("seven")])
    );
    let decoded = decode_struct(&def, ValueDecoder::new(encoded)).unwrap();
    assert_eq!(decoded, values);
}

#[test]
fn round_trip_transparent() {
    let def =
        StructDef::new("Wrapper".to_string(), Packing::Transparent, vec![field("inner")]).unwrap();
    let values = vec![text("bare")];
    let encoded = encode_struct(&def, &values);
    assert_eq!(encoded, text("bare"));
    let decoded = decode_struct(&def, ValueDecoder::new(encoded)).unwrap();
    assert_eq!(decoded, values);
}

#[test]
fn round_trip_tagged_string_method() {
    let def = StructDef::new(
        "Named".to_string(),
        Packing::Tagged,
        vec![field_renamed("a", "A"), field("b")],
    )
    .unwrap();
    let values = vec![u32v(1), u32v(2)];
    let encoded = encode_struct(&def, &values);
    assert_eq!(
        encoded,
        Value::Mapping(vec![(text("A"), u32v(1)), (text("b"), u32v(2))])
    );
    let decoded = decode_struct(&def, ValueDecoder::new(encoded)).unwrap();
    assert_eq!(decoded, values);
}

#[test]
fn string_method_matches_declared_name_not_index() {
    let def = StructDef::new(
        "Named".to_string(),
        Packing::Tagged,
        vec![field_renamed("a", "A"), field("b")],
    )
    .unwrap();
    let input = Value::Mapping(vec![(text("A"), u32v(1)), (text("b"), u32v(2))]);
    let decoded = decode_struct(&def, ValueDecoder::new(input)).unwrap();
    assert_eq!(decoded, vec![u32v(1), u32v(2)]);
    let numeric_keys = Value::Mapping(vec![(key(0), u32v(1)), (key(1), u32v(2))]);
    let err = decode_struct(&def, ValueDecoder::new(numeric_keys)).unwrap_err();
    assert!(matches!(err, DecodeError::TypeMismatch { .. }));
}

#[test]
fn unknown_field_skipped() {
    let def = tagged_xy();
    let with_extra = Value::Mapping(vec![
        (key(0), u32v(1)),
        (key(9), text("ignored")),
        (key(1), u32v(2)),
    ]);
    let without = Value::Mapping(vec![(key(0), u32v(1)), (key(1), u32v(2))]);
    let a = decode_struct(&def, ValueDecoder::new(with_extra)).unwrap();
    let b = decode_struct(&def, ValueDecoder::new(without)).unwrap();
    assert_eq!(a, b);
    assert_eq!(a, vec![u32v(1), u32v(2)]);
}

#[test]
fn repeated_tag_last_write_wins() {
    let def = tagged_xy();
    let input = Value::Mapping(vec![
        (key(0), u32v(1)),
        (key(1), u32v(2)),
        (key(0), u32v(3)),
    ]);
    let decoded = decode_struct(&def, ValueDecoder::new(input)).unwrap();
    assert_eq!(decoded, vec![u32v(3), u32v(2)]);
}

#[test]
fn missing_required_field_fails() {
    let def = tagged_xy();
    let input = Value::Mapping(vec![(key(1), u32v(2))]);
    let err = decode_struct(&def, ValueDecoder::new(input)).unwrap_err();
    assert_eq!(
        err,
        DecodeError::ExpectedTag { owner: "Point".to_string(), tag: TagValue::Index(0) }
    );
}

#[test]
fn default_substituted_for_absent_field() {
    let def = StructDef::new(
        "Config".to_string(),
        Packing::Tagged,
        vec![field("x"), field_defaulted("y", u32v(42))],
    )
    .unwrap();
    let input = Value::Mapping(vec![(key(0), u32v(1))]);
    let decoded = decode_struct(&def, ValueDecoder::new(input)).unwrap();
    assert_eq!(decoded, vec![u32v(1), u32v(42)]);
}

#[test]
fn empty_tagged_body_decodes_empty_struct() {
    let def = StructDef::new("Empty".to_string(), Packing::Tagged, Vec::new()).unwrap();
    let decoded = decode_struct(&def, ValueDecoder::new(Value::Mapping(Vec::new()))).unwrap();
    assert_eq!(decoded, Vec::<Value>::new());
}

#[test]
fn tagged_decode_rejects_non_map() {
    let def = tagged_xy();
    let err = decode_struct(&def, ValueDecoder::new(u32v(3))).unwrap_err();
    assert!(matches!(err, DecodeError::TypeMismatch { .. }));
}

#[test]
fn packed_positional_order() {
    let def =
        StructDef::new("Pair".to_string(), Packing::Packed, vec![field("x"), field("y")]).unwrap();
    let decoded =
        decode_struct(&def, ValueDecoder::new(Value::Sequence(vec![u32v(1), u32v(2)]))).unwrap();
    assert_eq!(decoded, vec![u32v(1), u32v(2)]);
    let swapped =
        decode_struct(&def, ValueDecoder::new(Value::Sequence(vec![u32v(2), u32v(1)]))).unwrap();
    assert_eq!(swapped, vec![u32v(2), u32v(1)]);
    assert_ne!(decoded, swapped);
}

#[test]
fn packed_tolerates_leftover_slots() {
    let def = StructDef::new("One".to_string(), Packing::Packed, vec![field("x")]).unwrap();
    let decoded =
        decode_struct(&def, ValueDecoder::new(Value::Sequence(vec![u32v(1), u32v(2)]))).unwrap();
    assert_eq!(decoded, vec![u32v(1)]);
}

#[test]
fn packed_short_of_slots_fails() {
    let def =
        StructDef::new("Pair".to_string(), Packing::Packed, vec![field("x"), field("y")]).unwrap();
    let err =
        decode_struct(&def, ValueDecoder::new(Value::Sequence(vec![u32v(1)]))).unwrap_err();
    assert_eq!(err, DecodeError::ExpectedPackValue);
}

#[test]
fn packed_empty_members_ignore_input_shape() {
    let def = StructDef::new("Unit".to_string(), Packing::Packed, Vec::new()).unwrap();
    let decoded = decode_struct(&def, ValueDecoder::new(text("anything"))).unwrap();
    assert_eq!(decoded, Vec::<Value>::new());
}

#[test]
fn duplicate_tag_rejected_at_setup() {
    let err = StructDef::new(
        "Clash".to_string(),
        Packing::Tagged,
        vec![field_renamed("a", "same"), field_renamed("b", "same")],
    )
    .unwrap_err();
    assert_eq!(
        err,
        DecodeError::DuplicateTag {
            owner: "Clash".to_string(),
            tag: TagValue::Name("same".to_string())
        }
    );
}

#[test]
fn rename_collides_with_declared_name() {
    let err = StructDef::new(
        "Clash".to_string(),
        Packing::Tagged,
        vec![field("b"), field_renamed("a", "b")],
    )
    .unwrap_err();
    assert_eq!(
        err,
        DecodeError::DuplicateTag {
            owner: "Clash".to_string(),
            tag: TagValue::Name("b".to_string())
        }
    );
}

#[test]
fn transparent_requires_exactly_one_member() {
    let err = StructDef::new(
        "Wrapper".to_string(),
        Packing::Transparent,
        vec![field("a"), field("b")],
    )
    .unwrap_err();
    assert_eq!(err, DecodeError::InvalidTransparent { owner: "Wrapper".to_string() });
    let err =
        StructDef::new("Wrapper".to_string(), Packing::Transparent, Vec::new()).unwrap_err();
    assert_eq!(err, DecodeError::InvalidTransparent { owner: "Wrapper".to_string() });
}

#[test]
fn default_in_packed_rejected_at_setup() {
    let err = StructDef::new(
        "Pair".to_string(),
        Packing::Packed,
        vec![field("x"), field_defaulted("y", u32v(0))],
    )
    .unwrap_err();
    assert_eq!(err, DecodeError::DefaultInPacked { owner: "Pair".to_string() });
}

fn two_variant_enum(with_fallback: bool) -> EnumDef {
    let mut variants = vec![
        variant("Circle", vec![field("radius")]),
        variant("Square", vec![field("side")]),
    ];
    if with_fallback {
        variants.push(fallback_variant("Unknown"));
    }
    EnumDef::new("Shape".to_string(), Packing::Tagged, variants).unwrap()
}

fn variant_input(tag: Value, body: Value) -> Value {
    Value::Variant(Box::new((tag, body)))
}

#[test]
fn enum_decodes_matched_variant() {
    let def = two_variant_enum(false);
    let input = variant_input(key(1), Value::Mapping(vec![(key(0), u32v(5))]));
    let DecodedVariant { index, values } =
        decode_enum(&def, ValueDecoder::new(input)).unwrap();
    assert_eq!(index, 1);
    assert_eq!(values, vec![u32v(5)]);
}

#[test]
fn enum_fallback_on_unknown_tag() {
    let def = two_variant_enum(true);
    let input = variant_input(key(9), Value::Mapping(vec![(key(0), u32v(5))]));
    let DecodedVariant { index, values } =
        decode_enum(&def, ValueDecoder::new(input)).unwrap();
    assert_eq!(index, 2);
    assert_eq!(values, Vec::<Value>::new());
}

#[test]
fn enum_without_fallback_fails_on_unknown_tag() {
    let def = two_variant_enum(false);
    let input = variant_input(key(9), Value::Mapping(vec![(key(0), u32v(5))]));
    let err = decode_enum(&def, ValueDecoder::new(input)).unwrap_err();
    assert_eq!(
        err,
        DecodeError::InvalidVariantTag { owner: "Shape".to_string(), tag: TagValue::Index(9) }
    );
}

#[test]
fn uninhabited_enum_always_fails() {
    let def = EnumDef::new("Never".to_string(), Packing::Tagged, Vec::new()).unwrap();
    for input in [Value::Unit, u32v(1), variant_input(key(0), Value::Unit)] {
        let err = decode_enum(&def, ValueDecoder::new(input)).unwrap_err();
        assert_eq!(err, DecodeError::Uninhabitable { owner: "Never".to_string() });
    }
}

#[test]
fn enum_string_tags_when_variant_renamed() {
    let variants = vec![
        VariantDef {
            name: "Circle".to_string(),
            rename: Some("round".to_string()),
            packing: None,
            fields: vec![field("radius")],
            fallback: false,
        },
        variant("Square", vec![field("side")]),
    ];
    let def = EnumDef::new("Shape".to_string(), Packing::Tagged, variants).unwrap();
    let input = variant_input(text("Square"), Value::Mapping(vec![(key(0), u32v(3))]));
    let DecodedVariant { index, values } =
        decode_enum(&def, ValueDecoder::new(input)).unwrap();
    assert_eq!(index, 1);
    assert_eq!(values, vec![u32v(3)]);
}

#[test]
fn fallback_does_not_consume_a_tag_index() {
    let variants = vec![
        variant("First", vec![field("a")]),
        fallback_variant("Unknown"),
        variant("Second", vec![field("b")]),
    ];
    let def = EnumDef::new("Mixed".to_string(), Packing::Tagged, variants).unwrap();
    let input = variant_input(key(1), Value::Mapping(vec![(key(0), u32v(8))]));
    let DecodedVariant { index, values } =
        decode_enum(&def, ValueDecoder::new(input)).unwrap();
    assert_eq!(index, 2);
    assert_eq!(values, vec![u32v(8)]);
}

#[test]
fn packed_variant_body() {
    let variants = vec![VariantDef {
        name: "Pair".to_string(),
        rename: None,
        packing: Some(Packing::Packed),
        fields: vec![field("x"), field("y")],
        fallback: false,
    }];
    let def = EnumDef::new("Shape".to_string(), Packing::Tagged, variants).unwrap();
    let input = variant_input(key(0), Value::Sequence(vec![u32v(1), u32v(2)]));
    let DecodedVariant { index, values } =
        decode_enum(&def, ValueDecoder::new(input)).unwrap();
    assert_eq!(index, 0);
    assert_eq!(values, vec![u32v(1), u32v(2)]);
}

#[test]
fn packed_enum_rejected_at_setup() {
    let err = EnumDef::new(
        "Shape".to_string(),
        Packing::Packed,
        vec![variant("Circle", vec![field("radius")])],
    )
    .unwrap_err();
    assert_eq!(err, DecodeError::PackedEnum { owner: "Shape".to_string() });
}

#[test]
fn fallback_must_be_empty() {
    let mut bad = fallback_variant("Unknown");
    bad.fields = vec![field("x")];
    let err = EnumDef::new("Shape".to_string(), Packing::Tagged, vec![bad]).unwrap_err();
    assert_eq!(err, DecodeError::InvalidFallback { owner: "Shape".to_string() });
}

#[test]
fn only_one_fallback_allowed() {
    let err = EnumDef::new(
        "Shape".to_string(),
        Packing::Tagged,
        vec![fallback_variant("A"), fallback_variant("B")],
    )
    .unwrap_err();
    assert_eq!(err, DecodeError::InvalidFallback { owner: "Shape".to_string() });
}

#[test]
fn enum_string_fallback_on_unknown_name() {
    let variants = vec![
        VariantDef {
            name: "Circle".to_string(),
            rename: Some("round".to_string()),
            packing: None,
            fields: vec![field("radius")],
            fallback: false,
        },
        fallback_variant("Unknown"),
    ];
    let def = EnumDef::new("Shape".to_string(), Packing::Tagged, variants).unwrap();
    let input = variant_input(text("hexagon"), Value::Mapping(Vec::new()));
    let DecodedVariant { index, values } =
        decode_enum(&def, ValueDecoder::new(input)).unwrap();
    assert_eq!(index, 1);
    assert_eq!(values, Vec::<Value>::new());
}

#[test]
fn transparent_variant_body() {
    let variants = vec![VariantDef {
        name: "Bare".to_string(),
        rename: None,
        packing: Some(Packing::Transparent),
        fields: vec![field("inner")],
        fallback: false,
    }];
    let def = EnumDef::new("Wrapped".to_string(), Packing::Tagged, variants).unwrap();
    let input = variant_input(key(0), u32v(11));
    let DecodedVariant { index, values } =
        decode_enum(&def, ValueDecoder::new(input)).unwrap();
    assert_eq!(index, 0);
    assert_eq!(values, vec![u32v(11)]);
}

#[test]
fn variant_body_validated_at_setup() {
    let variants = vec![VariantDef {
        name: "Bad".to_string(),
        rename: None,
        packing: Some(Packing::Transparent),
        fields: vec![field("a"), field("b")],
        fallback: false,
    }];
    let err = EnumDef::new("Wrapped".to_string(), Packing::Tagged, variants).unwrap_err();
    assert_eq!(err, DecodeError::InvalidTransparent { owner: "Bad".to_string() });
}

#[test]
fn enum_rejects_non_variant_input() {
    let def = two_variant_enum(false);
    let err = decode_enum(&def, ValueDecoder::new(u32v(1))).unwrap_err();
    assert!(matches!(err, DecodeError::TypeMismatch { .. }));
}
