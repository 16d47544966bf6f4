//! Tagged structured-decoding core.
//!
//! A family of self-describing encodings share one decoding model: a stream
//! of primitive decode operations (scalars, sequences, key/value pairs,
//! variant selectors) is turned into populated struct and enum values.
//! This crate holds that model: the tag resolver that decides whether a
//! type's members are labelled by numeric index or by string name, the
//! tagged, packed and transparent struct decoders, the enum decoder with
//! its fallback policy, an in-memory value-tree backend that supplies the
//! primitive operations, and a streaming-text variant cursor.
//!
//! Every decoder is specified exactly by a ghost function over the input's
//! image, and the laws the model obeys -- round-trip, unknown-field skip,
//! default substitution, fallback and uninhabited-enum policy -- are stated
//! and proved as public proof functions.

mod de;
mod decode;
mod encode;
mod enums;
mod error;
mod json;
mod laws;
mod schema;
mod tags;
mod value;

pub use crate::de::IterValueDecoder;
pub use crate::de::IterValuePairDecoder;
pub use crate::de::IterValuePairsDecoder;
pub use crate::de::IterValueVariantDecoder;
pub use crate::de::ValueDecoder;
pub use crate::de::spec_mismatch;
pub use crate::decode::DecodedVariant;
pub use crate::decode::decode_body;
pub use crate::decode::decode_enum;
pub use crate::decode::decode_packed;
pub use crate::decode::decode_struct;
pub use crate::decode::decode_tagged;
pub use crate::decode::decode_transparent;
pub use crate::decode::first_missing_from;
pub use crate::decode::slot_value;
pub use crate::decode::spec_decode_enum;
pub use crate::decode::spec_decode_packed;
pub use crate::decode::spec_decode_struct;
pub use crate::decode::spec_decode_tagged;
pub use crate::decode::spec_decode_transparent;
pub use crate::decode::spec_finalize;
pub use crate::decode::spec_key_tag;
pub use crate::decode::spec_lookup;
pub use crate::decode::spec_pairs_fold;
pub use crate::decode::view_values_result;
pub use crate::encode::encode_packed;
pub use crate::encode::encode_struct;
pub use crate::encode::encode_tagged;
pub use crate::encode::encode_transparent;
pub use crate::encode::spec_encode_packed;
pub use crate::encode::spec_encode_struct;
pub use crate::encode::spec_encode_tagged;
pub use crate::encode::spec_encode_transparent;
pub use crate::encode::spec_tag_value;
pub use crate::enums::EnumDef;
pub use crate::enums::SpecEnum;
pub use crate::enums::SpecVariant;
pub use crate::enums::VariantDef;
pub use crate::enums::active_members;
pub use crate::enums::decl_of_active;
pub use crate::enums::effective_packing;
pub use crate::enums::fallback_decl;
pub use crate::enums::fallback_ok;
pub use crate::enums::member_of;
pub use crate::enums::variant_body;
pub use crate::enums::view_variant;
pub use crate::enums::view_variants;
pub use crate::error::DecodeError;
pub use crate::error::SpecError;
pub use crate::error::view_error;
pub use crate::error::view_plain_result;
pub use crate::json::JsonError;
pub use crate::json::JsonVariantDecoder;
pub use crate::json::SpecToken;
pub use crate::json::Token;
pub use crate::json::TokenKind;
pub use crate::json::TokenParser;
pub use crate::json::spec_kind;
pub use crate::json::spec_scalar;
pub use crate::json::view_token;
pub use crate::json::view_tokens;
pub use crate::laws::lemma_default_substitution;
pub use crate::laws::lemma_missing_required_fails;
pub use crate::laws::lemma_packed_order_matters;
pub use crate::laws::lemma_packed_positional;
pub use crate::laws::lemma_round_trip;
pub use crate::laws::lemma_tag_method_consistency;
pub use crate::laws::lemma_uninhabited;
pub use crate::laws::lemma_unknown_field_skipped;
pub use crate::laws::lemma_variant_fallback;
pub use crate::laws::pair_known;
pub use crate::laws::pair_member;
pub use crate::schema::FieldDef;
pub use crate::schema::Packing;
pub use crate::schema::SpecField;
pub use crate::schema::SpecStruct;
pub use crate::schema::StructDef;
pub use crate::schema::TagTable;
pub use crate::schema::first_dup;
pub use crate::schema::resolve;
pub use crate::schema::spec_body_error;
pub use crate::schema::spec_label;
pub use crate::schema::spec_method;
pub use crate::schema::spec_tag;
pub use crate::schema::table_wf;
pub use crate::schema::tags_unique;
pub use crate::schema::view_field;
pub use crate::schema::view_fields;
pub use crate::tags::SpecTag;
pub use crate::tags::TagMethod;
pub use crate::tags::TagValue;
pub use crate::tags::view_tag;
pub use crate::value::Number;
pub use crate::value::NumberHint;
pub use crate::value::SpecValue;
pub use crate::value::TypeHint;
pub use crate::value::Value;
pub use crate::value::lemma_view_pair_seq;
pub use crate::value::lemma_view_value_seq;
pub use crate::value::view_pair_seq;
pub use crate::value::view_value;
pub use crate::value::view_value_seq;
