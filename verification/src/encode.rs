//! The encoding half used to state and exercise round-trips: member values
//! are framed exactly as the decoders expect them back.

use vstd::prelude::*;

use crate::schema::FieldDef;
use crate::schema::Packing;
use crate::schema::SpecField;
use crate::schema::SpecStruct;
use crate::schema::StructDef;
use crate::schema::build_table;
use crate::schema::spec_tag;
use crate::schema::table_wf;
use crate::schema::view_fields;
use crate::tags::SpecTag;
use crate::tags::TagValue;
use crate::tags::view_tag;
use crate::value::Number;
use crate::value::SpecValue;
use crate::value::Value;
use crate::value::lemma_view_pair_seq;
use crate::value::lemma_view_value_seq;
use crate::value::view_value;
use crate::value::view_value_seq;

verus! {

/// The value that carries the tag of member `i` on the wire: its index as
/// a number under the default method, its label as text under the string
/// method.
pub open spec fn spec_tag_value(ms: Seq<SpecField>, i: int) -> SpecValue {
    match spec_tag(ms, i) {
        SpecTag::Index(k) => SpecValue::Number(Number::Usize(k as usize)),
        SpecTag::Name(s) => SpecValue::Text(s),
    }
}

/// Frames member values as a self-describing map: one pair per member, its
/// resolved tag against its value, in declaration order.
pub open spec fn spec_encode_tagged(ms: Seq<SpecField>, values: Seq<SpecValue>) -> SpecValue {
    SpecValue::Mapping(Seq::new(ms.len(), |i: int| (spec_tag_value(ms, i), values[i])))
}

/// Frames member values positionally, with no tags.
pub open spec fn spec_encode_packed(values: Seq<SpecValue>) -> SpecValue {
    SpecValue::Sequence(values)
}

/// A transparent wrapper writes its single member's value bare.
pub open spec fn spec_encode_transparent(values: Seq<SpecValue>) -> SpecValue {
    values[0]
}

/// Frames member values by the type's packing strategy.
pub open spec fn spec_encode_struct(s: SpecStruct, values: Seq<SpecValue>) -> SpecValue {
    match s.packing {
        Packing::Tagged => spec_encode_tagged(s.fields, values),
        Packing::Packed => spec_encode_packed(values),
        Packing::Transparent => spec_encode_transparent(values),
    }
}

/// The value carrying one resolved tag.
fn tag_to_value(t: &TagValue) -> (r: Value)
    ensures
        view_value(r) == (match view_tag(*t) {
            SpecTag::Index(k) => SpecValue::Number(Number::Usize(k as usize)),
            SpecTag::Name(s) => SpecValue::Text(s),
        }),
{
    match t {
        TagValue::Index(i) => Value::Number(Number::Usize(*i)),
        TagValue::Name(s) => Value::Text(s.clone()),
    }
}

/// Encodes member values as a self-describing map of tag/value pairs.
pub fn encode_tagged(fields: &Vec<FieldDef>, values: &Vec<Value>) -> (r: Value)
    requires
        values@.len() == fields@.len(),
    ensures
        view_value(r) == spec_encode_tagged(view_fields(fields@), view_value_seq(values@)),
{
    let ghost ms = view_fields(fields@);
    let table = build_table(fields);
    let n = fields.len();
    let mut pairs: Vec<(Value, Value)> = Vec::new();
    let mut i: usize = 0;
    while i < n
        invariant
            ms == view_fields(fields@),
            n == fields@.len(),
            values@.len() == n,
            table_wf(table, ms),
            0 <= i <= n,
            pairs@.len() == i,
            forall|k: int|
                0 <= k < i ==> view_value((#[trigger] pairs@[k]).0) == spec_tag_value(ms, k)
                    && view_value(pairs@[k].1) == view_value(values@[k]),
        decreases n - i,
    {
        let key = tag_to_value(&table.tags[i]);
        let val = values[i].duplicate();
        pairs.push((key, val));
        i = i + 1;
    }
    proof {
        lemma_view_pair_seq(pairs@);
        lemma_view_value_seq(values@);
        assert(crate::value::view_pair_seq(pairs@) =~= Seq::new(
            ms.len(),
            |k: int| (spec_tag_value(ms, k), view_value_seq(values@)[k]),
        ));
    }
    Value::Mapping(pairs)
}

/// Encodes member values positionally.
pub fn encode_packed(values: &Vec<Value>) -> (r: Value)
    ensures
        view_value(r) == spec_encode_packed(view_value_seq(values@)),
{
    let n = values.len();
    let mut items: Vec<Value> = Vec::new();
    let mut i: usize = 0;
    while i < n
        invariant
            n == values@.len(),
            0 <= i <= n,
            items@.len() == i,
            forall|k: int|
                0 <= k < i ==> view_value(#[trigger] items@[k]) == view_value(values@[k]),
        decreases n - i,
    {
        items.push(values[i].duplicate());
        i = i + 1;
    }
    proof {
        lemma_view_value_seq(items@);
        lemma_view_value_seq(values@);
        assert(view_value_seq(items@) =~= view_value_seq(values@));
    }
    Value::Sequence(items)
}

/// Encodes a transparent wrapper: the single member's value, bare.
pub fn encode_transparent(values: &Vec<Value>) -> (r: Value)
    requires
        values@.len() == 1,
    ensures
        view_value(r) == spec_encode_transparent(view_value_seq(values@)),
{
    proof {
        lemma_view_value_seq(values@);
    }
    values[0].duplicate()
}

/// Encodes member values against a struct description, by its packing
/// strategy.
pub fn encode_struct(def: &StructDef, values: &Vec<Value>) -> (r: Value)
    requires
        values@.len() == def@.fields.len(),
        def@.wf(),
    ensures
        view_value(r) == spec_encode_struct(def@, view_value_seq(values@)),
{
    proof {
        lemma_view_value_seq(values@);
    }
    match def.packing {
        Packing::Tagged => encode_tagged(&def.fields, values),
        Packing::Packed => encode_packed(values),
        Packing::Transparent => encode_transparent(values),
    }
}

} // verus!
