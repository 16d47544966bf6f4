//! The decoding core: tagged, packed and transparent struct decoding, and
//! enum decoding with fallback policy.
//!
//! Every algorithm here drives the value-tree backend through its cursors
//! and is specified, exactly, by a ghost function over the input's image:
//! what the decoder returns is what the specification returns, value for
//! value and error for error.

use vstd::prelude::*;

use crate::de::ValueDecoder;
use crate::de::spec_mismatch;
use crate::enums::EnumDef;
use crate::enums::SpecEnum;
use crate::enums::VariantDef;
use crate::enums::active_members;
use crate::enums::decl_of_active;
use crate::enums::fallback_decl;
use crate::enums::lemma_active_members_push;
use crate::enums::lemma_decl_of_active;
use crate::enums::lemma_first_fallback_none;
use crate::enums::lemma_first_fallback_some;
use crate::enums::member_of;
use crate::enums::variant_body;
use crate::enums::view_variants;
use crate::error::DecodeError;
use crate::error::SpecError;
use crate::error::view_error;
use crate::schema::FieldDef;
use crate::schema::Packing;
use crate::schema::SpecField;
use crate::schema::SpecStruct;
use crate::schema::StructDef;
use crate::schema::TagTable;
use crate::schema::lemma_unique_no_dup;
use crate::schema::resolve;
use crate::schema::spec_method;
use crate::schema::spec_tag;
use crate::schema::table_wf;
use crate::schema::tags_unique;
use crate::schema::view_field;
use crate::schema::view_fields;
use crate::tags::SpecTag;
use crate::tags::TagMethod;
use crate::tags::TagValue;
use crate::tags::view_tag;
use crate::value::Number;
use crate::value::NumberHint;
use crate::value::SpecValue;
use crate::value::TypeHint;
use crate::value::Value;
use crate::value::lemma_view_value_seq;
use crate::value::view_value;
use crate::value::view_value_seq;

verus! {

/// The ghost image of a decode result: a sequence of member values, or a
/// failure.
pub open spec fn view_values_result(r: Result<Vec<Value>, DecodeError>) -> Result<
    Seq<SpecValue>,
    SpecError,
> {
    match r {
        Ok(v) => Ok(view_value_seq(v@)),
        Err(e) => Err(view_error(e)),
    }
}

/// Reads one key under the given tag method: a `usize` index under the
/// default method, a string under the string method; any other shape is a
/// mismatch.
pub open spec fn spec_key_tag(method: TagMethod, key: SpecValue) -> Result<SpecTag, SpecError> {
    match method {
        TagMethod::Default => match key {
            SpecValue::Number(Number::Usize(n)) => Ok(SpecTag::Index(n as int)),
            SpecValue::Number(n) => Err(
                spec_mismatch(
                    TypeHint::Number(NumberHint::Usize),
                    TypeHint::Number(n.spec_hint()),
                ),
            ),
            v => Err(spec_mismatch(TypeHint::Number(NumberHint::Usize), v.spec_hint())),
        },
        TagMethod::Named => match key {
            SpecValue::Text(s) => Ok(SpecTag::Name(s)),
            v => Err(spec_mismatch(TypeHint::Text, v.spec_hint())),
        },
    }
}

/// The first member from `i` on that carries tag `t`.
pub open spec fn spec_lookup_from(ms: Seq<SpecField>, t: SpecTag, i: int) -> Option<int>
    decreases ms.len() - i,
{
    if i < 0 || i >= ms.len() {
        None
    } else if spec_tag(ms, i) == t {
        Some(i)
    } else {
        spec_lookup_from(ms, t, i + 1)
    }
}

/// The member that carries tag `t`, if any: the sentinel `None` stands for
/// an unknown tag, which is skippable rather than an error.
pub open spec fn spec_lookup(ms: Seq<SpecField>, t: SpecTag) -> Option<int> {
    spec_lookup_from(ms, t, 0)
}

pub(crate) proof fn lemma_lookup_some(ms: Seq<SpecField>, t: SpecTag, s: int, i: int)
    requires
        0 <= s <= i < ms.len(),
        forall|k: int| s <= k < i ==> spec_tag(ms, k) != t,
        spec_tag(ms, i) == t,
    ensures
        spec_lookup_from(ms, t, s) == Some(i),
    decreases i - s,
{
    if s < i {
        lemma_lookup_some(ms, t, s + 1, i);
    }
}

pub(crate) proof fn lemma_lookup_none(ms: Seq<SpecField>, t: SpecTag, s: int)
    requires
        forall|k: int| s <= k < ms.len() ==> spec_tag(ms, k) != t,
    ensures
        spec_lookup_from(ms, t, s) is None,
    decreases ms.len() - s,
{
    if 0 <= s < ms.len() {
        lemma_lookup_none(ms, t, s + 1);
    }
}

pub(crate) proof fn lemma_lookup_in_range(ms: Seq<SpecField>, t: SpecTag, s: int)
    ensures
        (match spec_lookup_from(ms, t, s) {
            Some(i) => s <= i < ms.len() && spec_tag(ms, i) == t,
            None => true,
        }),
    decreases ms.len() - s,
{
    if 0 <= s < ms.len() && spec_tag(ms, s) != t {
        lemma_lookup_in_range(ms, t, s + 1);
    }
}

/// The image of a slot vector.
pub open spec fn view_slots(s: Seq<Option<Value>>) -> Seq<Option<SpecValue>> {
    s.map_values(
        |o: Option<Value>|
            match o {
                Some(v) => Some(view_value(v)),
                None => None,
            },
    )
}

/// Runs the pair loop of a tagged decode: each pair's key is read under
/// the type's tag method; a known tag stores the paired value in its
/// member's slot, overwriting any earlier value (last write wins); an
/// unknown tag is skipped.
pub open spec fn spec_pairs_fold(
    ms: Seq<SpecField>,
    pairs: Seq<(SpecValue, SpecValue)>,
    slots: Seq<Option<SpecValue>>,
) -> Result<Seq<Option<SpecValue>>, SpecError>
    decreases pairs.len(),
{
    if pairs.len() == 0 {
        Ok(slots)
    } else {
        match spec_key_tag(spec_method(ms), pairs[0].0) {
            Err(e) => Err(e),
            Ok(t) => {
                let stepped = match spec_lookup(ms, t) {
                    Some(i) => slots.update(i, Some(pairs[0].1)),
                    None => slots,
                };
                spec_pairs_fold(ms, pairs.drop_first(), stepped)
            },
        }
    }
}

/// The value member `k` finalizes to: its filled slot, or its declared
/// default.
pub open spec fn slot_value(ms: Seq<SpecField>, slots: Seq<Option<SpecValue>>, k: int) -> SpecValue {
    match slots[k] {
        Some(v) => v,
        None => match ms[k].default_value {
            Some(d) => d,
            None => SpecValue::Unit,
        },
    }
}

/// The first member from `i` on whose slot is empty and which has no
/// default: the member a tagged decode fails over.
pub open spec fn first_missing_from(
    ms: Seq<SpecField>,
    slots: Seq<Option<SpecValue>>,
    i: int,
) -> Option<int>
    decreases ms.len() - i,
{
    if i < 0 || i >= ms.len() {
        None
    } else if slots[i] is None && ms[i].default_value is None {
        Some(i)
    } else {
        first_missing_from(ms, slots, i + 1)
    }
}

pub(crate) proof fn lemma_first_missing_some(
    ms: Seq<SpecField>,
    slots: Seq<Option<SpecValue>>,
    s: int,
    i: int,
)
    requires
        0 <= s <= i < ms.len(),
        forall|k: int|
            s <= k < i ==> !(slots[k] is None && (#[trigger] ms[k]).default_value is None),
        slots[i] is None && ms[i].default_value is None,
    ensures
        first_missing_from(ms, slots, s) == Some(i),
    decreases i - s,
{
    if s < i {
        lemma_first_missing_some(ms, slots, s + 1, i);
    }
}

pub(crate) proof fn lemma_first_missing_none(ms: Seq<SpecField>, slots: Seq<Option<SpecValue>>, s: int)
    requires
        forall|k: int|
            s <= k < ms.len() ==> !(slots[k] is None && (#[trigger] ms[k]).default_value is None),
    ensures
        first_missing_from(ms, slots, s) is None,
    decreases ms.len() - s,
{
    if 0 <= s < ms.len() {
        lemma_first_missing_none(ms, slots, s + 1);
    }
}

/// Finalizes a tagged decode: every member takes its filled slot, or its
/// declared default; a member with neither fails the decode with the tag
/// that was expected.
pub open spec fn spec_finalize(
    name: Seq<char>,
    ms: Seq<SpecField>,
    slots: Seq<Option<SpecValue>>,
) -> Result<Seq<SpecValue>, SpecError> {
    match first_missing_from(ms, slots, 0) {
        Some(i) => Err(SpecError::ExpectedTag { owner: name, tag: spec_tag(ms, i) }),
        None => Ok(Seq::new(ms.len(), |k: int| slot_value(ms, slots, k))),
    }
}

/// Decodes a self-describing map of tag/value pairs into the members of
/// one type, applying skip, overwrite, default and missing-member policy.
pub open spec fn spec_decode_tagged(
    name: Seq<char>,
    ms: Seq<SpecField>,
    input: SpecValue,
) -> Result<Seq<SpecValue>, SpecError> {
    match input {
        SpecValue::Mapping(pairs) => match spec_pairs_fold(
            ms,
            pairs,
            Seq::new(ms.len(), |k: int| None),
        ) {
            Ok(slots) => spec_finalize(name, ms, slots),
            Err(e) => Err(e),
        },
        v => Err(spec_mismatch(TypeHint::Mapping, v.spec_hint())),
    }
}

/// Decodes a fixed-order sequence positionally: member `k` takes slot `k`.
/// A sequence with slots left over is tolerated; one short of slots fails.
/// An empty member list decodes without opening a cursor at all.
pub open spec fn spec_decode_packed(ms: Seq<SpecField>, input: SpecValue) -> Result<
    Seq<SpecValue>,
    SpecError,
> {
    if ms.len() == 0 {
        Ok(Seq::empty())
    } else {
        match input {
            SpecValue::Sequence(items) => if items.len() >= ms.len() {
                Ok(items.take(ms.len() as int))
            } else {
                Err(SpecError::ExpectedPackValue)
            },
            v => Err(spec_mismatch(TypeHint::Sequence, v.spec_hint())),
        }
    }
}

/// Decodes a single-member wrapper by forwarding to the member's decode
/// path: the wrapper is invisible on the wire.
pub open spec fn spec_decode_transparent(input: SpecValue) -> Result<Seq<SpecValue>, SpecError> {
    Ok(seq![input])
}

/// Decodes one struct-like body by its packing strategy.
pub open spec fn spec_decode_struct(s: SpecStruct, input: SpecValue) -> Result<
    Seq<SpecValue>,
    SpecError,
> {
    match s.packing {
        Packing::Tagged => spec_decode_tagged(s.name, s.fields, input),
        Packing::Packed => spec_decode_packed(s.fields, input),
        Packing::Transparent => spec_decode_transparent(input),
    }
}

/// Decodes one enum value: reads the variant selector under the enum's own
/// tag method, dispatches to the matched variant's body decoder, and
/// applies the fallback or error policy for an unrecognized selector.  A
/// zero-variant enum fails on any input whatsoever.
pub open spec fn spec_decode_enum(e: SpecEnum, input: SpecValue) -> Result<
    (int, Seq<SpecValue>),
    SpecError,
> {
    if e.variants.len() == 0 {
        Err(SpecError::Uninhabitable { owner: e.name })
    } else {
        match input {
            SpecValue::Variant(t, b) => {
                let ms = active_members(e.variants);
                match spec_key_tag(spec_method(ms), *t) {
                    Err(err) => Err(err),
                    Ok(tag) => match spec_lookup(ms, tag) {
                        Some(k) => {
                            let d = decl_of_active(e.variants, k);
                            match spec_decode_struct(variant_body(e.variants[d], e.packing), *b) {
                                Ok(vals) => Ok((d, vals)),
                                Err(err) => Err(err),
                            }
                        },
                        None => match fallback_decl(e.variants) {
                            Some(f) => Ok((f, Seq::<SpecValue>::empty())),
                            None => Err(SpecError::InvalidVariantTag { owner: e.name, tag }),
                        },
                    },
                }
            },
            v => Err(spec_mismatch(TypeHint::Variant, v.spec_hint())),
        }
    }
}

/// Reads one tag under the given method.
fn decode_key(method: TagMethod, d: ValueDecoder) -> (r: Result<TagValue, DecodeError>)
    ensures
        (match (r, spec_key_tag(method, d@)) {
            (Ok(t), Ok(st)) => view_tag(t) == st,
            (Err(e), Err(se)) => view_error(e) == se,
            _ => false,
        }),
{
    match method {
        TagMethod::Default => match d.decode_usize() {
            Ok(n) => Ok(TagValue::Index(n)),
            Err(e) => Err(e),
        },
        TagMethod::Named => match d.decode_string() {
            Ok(s) => Ok(TagValue::Name(s)),
            Err(e) => Err(e),
        },
    }
}

/// Finds the member carrying `tag` in a resolved table: the runtime image
/// of the tag-outcome dispatch, `Some` for a known member and `None` for
/// the unknown-tag sentinel.
fn lookup_tag(table: &TagTable, tag: &TagValue, ms: Ghost<Seq<SpecField>>) -> (r: Option<usize>)
    requires
        table_wf(*table, ms@),
    ensures
        (match r {
            Some(i) => spec_lookup(ms@, view_tag(*tag)) == Some(i as int),
            None => spec_lookup(ms@, view_tag(*tag)) is None,
        }),
{
    let n = table.tags.len();
    let mut i: usize = 0;
    while i < n
        invariant
            table_wf(*table, ms@),
            n == ms@.len(),
            0 <= i <= n,
            forall|k: int| 0 <= k < i ==> spec_tag(ms@, k) != view_tag(*tag),
        decreases n - i,
    {
        if table.tags[i].matches(tag) {
            proof {
                lemma_lookup_some(ms@, view_tag(*tag), 0, i as int);
            }
            return Some(i);
        }
        i = i + 1;
    }
    proof {
        lemma_lookup_none(ms@, view_tag(*tag), 0);
    }
    None
}

/// Decodes a self-describing map of tag/value pairs into the given
/// members.
///
/// Opens the pair cursor, reads each pair's key under the type's resolved
/// tag method, stores known members (last write wins), skips unknown tags,
/// closes the cursor, and finalizes: every member takes its filled slot or
/// its declared default, and a member with neither fails with the tag that
/// was expected.  Pairs may arrive in any order.
pub fn decode_tagged(owner: &String, fields: &Vec<FieldDef>, d: ValueDecoder) -> (r: Result<
    Vec<Value>,
    DecodeError,
>)
    requires
        tags_unique(view_fields(fields@)),
    ensures
        view_values_result(r) == spec_decode_tagged(owner@, view_fields(fields@), d@),
{
    let ghost ms = view_fields(fields@);
    let ghost input = d@;
    let table = match resolve(owner, fields) {
        Ok(t) => t,
        Err(_) => {
            proof {
                lemma_unique_no_dup(ms);
            }
            unreached()
        },
    };
    let mut pc = match d.decode_struct() {
        Ok(c) => c,
        Err(e) => {
            return Err(e);
        },
    };
    let ghost pairs0 = pc@;
    let n = fields.len();
    let mut slots: Vec<Option<Value>> = Vec::new();
    let mut i: usize = 0;
    while i < n
        invariant
            0 <= i <= n,
            slots@.len() == i,
            forall|k: int| 0 <= k < i ==> slots@[k] is None,
        decreases n - i,
    {
        slots.push(None);
        i = i + 1;
    }
    proof {
        assert(view_slots(slots@) =~= Seq::new(ms.len(), |k: int| None));
    }
    let ghost slots0 = view_slots(slots@);
    proof {
        assert(input == SpecValue::Mapping(pairs0));
        assert(slots0 =~= Seq::new(ms.len(), |k: int| None));
    }
    while pc.size_hint() > 0
        invariant
            ms == view_fields(fields@),
            n == fields@.len(),
            input == d@,
            table_wf(table, ms),
            slots@.len() == n,
            spec_decode_tagged(owner@, ms, input) == (match spec_pairs_fold(
                ms,
                pc@,
                view_slots(slots@),
            ) {
                Ok(s) => spec_finalize(owner@, ms, s),
                Err(er) => Err::<Seq<SpecValue>, SpecError>(er),
            }),
        decreases pc@.len(),
    {
        let ghost pre_pairs = pc@;
        let ghost pre_slots = view_slots(slots@);
        let p = match pc.next() {
            Some(p) => p,
            None => unreached(),
        };
        let keyd = p.first();
        let tag = match decode_key(table.method, keyd) {
            Ok(t) => t,
            Err(e) => {
                proof {
                    assert(spec_pairs_fold(ms, pre_pairs, pre_slots) == Err::<
                        Seq<Option<SpecValue>>,
                        SpecError,
                    >(view_error(e)));
                }
                return Err(e);
            },
        };
        match lookup_tag(&table, &tag, Ghost(ms)) {
            Some(i) => {
                proof {
                    lemma_lookup_in_range(ms, view_tag(tag), 0);
                }
                let vald = p.second();
                let v = vald.decode_any();
                slots.set(i, Some(v));
                proof {
                    assert(view_slots(slots@) =~= pre_slots.update(
                        i as int,
                        Some(pre_pairs[0].1),
                    ));
                }
            },
            None => {
                let skipped = match p.skip_second() {
                    Ok(b) => b,
                    Err(e) => {
                        return Err(e);
                    },
                };
                if !skipped {
                    return Err(DecodeError::InvalidFieldTag { owner: owner.clone(), tag });
                }
                proof {
                    assert(view_slots(slots@) == pre_slots);
                }
            },
        }
    }
    match pc.end() {
        Ok(()) => {},
        Err(_) => unreached(),
    }
    let ghost fslots = view_slots(slots@);
    proof {
        assert(spec_pairs_fold(ms, pc@, fslots) == Ok::<_, SpecError>(fslots));
        assert(spec_decode_tagged(owner@, ms, input) == spec_finalize(owner@, ms, fslots));
    }
    let mut out: Vec<Value> = Vec::new();
    let mut i: usize = 0;
    while i < n
        invariant
            ms == view_fields(fields@),
            n == fields@.len(),
            input == d@,
            table_wf(table, ms),
            slots@.len() == n,
            fslots == view_slots(slots@),
            spec_decode_tagged(owner@, ms, input) == spec_finalize(owner@, ms, fslots),
            0 <= i <= n,
            out@.len() == i,
            forall|k: int|
                0 <= k < i ==> !(fslots[k] is None && (#[trigger] ms[k]).default_value is None),
            forall|k: int|
                0 <= k < i ==> view_value(#[trigger] out@[k]) == slot_value(ms, fslots, k),
        decreases n - i,
    {
        proof {
            assert(ms[i as int] == view_field(fields@[i as int]));
        }
        match &slots[i] {
            Some(v) => {
                out.push(v.duplicate());
            },
            None => match &fields[i].default_value {
                Some(dv) => {
                    out.push(dv.duplicate());
                },
                None => {
                    proof {
                        lemma_first_missing_some(ms, fslots, 0, i as int);
                    }
                    return Err(DecodeError::ExpectedTag {
                        owner: owner.clone(),
                        tag: table.tags[i].duplicate(),
                    });
                },
            },
        }
        i = i + 1;
    }
    proof {
        lemma_first_missing_none(ms, fslots, 0);
        lemma_view_value_seq(out@);
        assert(view_value_seq(out@) =~= Seq::new(ms.len(), |k: int| slot_value(ms, fslots, k)));
    }
    Ok(out)
}

/// Decodes a fixed-order sequence positionally into the given members: no
/// tags are read, member `k` takes slot `k`.  Slots left over are
/// tolerated; a sequence short of slots fails.  An empty member list
/// decodes to the empty value without opening a cursor.
pub fn decode_packed(fields: &Vec<FieldDef>, d: ValueDecoder) -> (r: Result<Vec<Value>, DecodeError>)
    ensures
        view_values_result(r) == spec_decode_packed(view_fields(fields@), d@),
{
    let ghost ms = view_fields(fields@);
    let ghost input = d@;
    let n = fields.len();
    if n == 0 {
        proof {
            assert(view_value_seq(Seq::<Value>::empty()) =~= Seq::<SpecValue>::empty());
        }
        return Ok(Vec::new());
    }
    let mut pc = match d.decode_pack() {
        Ok(c) => c,
        Err(e) => {
            return Err(e);
        },
    };
    let ghost items = pc@;
    proof {
        assert(input == SpecValue::Sequence(items));
    }
    let mut out: Vec<Value> = Vec::new();
    let mut i: usize = 0;
    while i < n
        invariant
            ms == view_fields(fields@),
            n == fields@.len(),
            n > 0,
            input == SpecValue::Sequence(items),
            input == d@,
            0 <= i <= n,
            out@.len() == i,
            pc@ == items.skip(i as int),
            i <= items.len(),
            forall|k: int| 0 <= k < i ==> view_value(#[trigger] out@[k]) == items[k],
        decreases n - i,
    {
        let vd = match pc.next_value() {
            Ok(vd) => vd,
            Err(e) => {
                proof {
                    assert(items.skip(i as int).len() == 0);
                    assert(items.len() == i < n);
                }
                return Err(e);
            },
        };
        let v = vd.decode_any();
        out.push(v);
        proof {
            assert(items.skip(i as int).drop_first() =~= items.skip(i + 1));
            assert(items.skip(i as int)[0] == items[i as int]);
        }
        i = i + 1;
    }
    match pc.end() {
        Ok(()) => {},
        Err(_) => unreached(),
    }
    proof {
        lemma_view_value_seq(out@);
        assert(view_value_seq(out@) =~= items.take(n as int));
    }
    Ok(out)
}

/// Decodes a single-member wrapper: the backend decoder is forwarded
/// directly to the member's decode path, with no framing, no tag and no
/// cursor.
pub fn decode_transparent(fields: &Vec<FieldDef>, d: ValueDecoder) -> (r: Result<
    Vec<Value>,
    DecodeError,
>)
    requires
        view_fields(fields@).len() == 1,
    ensures
        view_values_result(r) == spec_decode_transparent(d@),
{
    let v = d.decode_any();
    let mut out: Vec<Value> = Vec::new();
    out.push(v);
    proof {
        lemma_view_value_seq(out@);
        assert(view_value_seq(out@) =~= seq![view_value(v)]);
    }
    Ok(out)
}

/// Decodes one struct-like body by the given packing strategy.
pub fn decode_body(owner: &String, packing: Packing, fields: &Vec<FieldDef>, d: ValueDecoder) -> (r:
    Result<Vec<Value>, DecodeError>)
    requires
        (SpecStruct { name: owner@, packing, fields: view_fields(fields@) }).wf(),
    ensures
        view_values_result(r) == spec_decode_struct(
            SpecStruct { name: owner@, packing, fields: view_fields(fields@) },
            d@,
        ),
{
    match packing {
        Packing::Tagged => decode_tagged(owner, fields, d),
        Packing::Packed => decode_packed(fields, d),
        Packing::Transparent => decode_transparent(fields, d),
    }
}

/// Decodes one struct value against its validated description.
pub fn decode_struct(def: &StructDef, d: ValueDecoder) -> (r: Result<Vec<Value>, DecodeError>)
    requires
        def@.wf(),
    ensures
        view_values_result(r) == spec_decode_struct(def@, d@),
{
    decode_body(&def.name, def.packing, &def.fields, d)
}

/// One decoded enum value: the declaration index of the variant that was
/// produced, and its member values.
#[derive(Debug)]
pub struct DecodedVariant {
    /// The declaration index of the produced variant, the fallback
    /// included.
    pub index: usize,
    /// The variant's member values; empty for the fallback.
    pub values: Vec<Value>,
}

/// Builds the member list the enum's tags resolve over: one member per
/// non-fallback variant, in declaration order.
fn active_member_vec(variants: &Vec<VariantDef>) -> (r: Vec<FieldDef>)
    ensures
        view_fields(r@) == active_members(view_variants(variants@)),
{
    let ghost vs = view_variants(variants@);
    let n = variants.len();
    let mut members: Vec<FieldDef> = Vec::new();
    let mut i: usize = 0;
    while i < n
        invariant
            vs == view_variants(variants@),
            n == variants@.len(),
            0 <= i <= n,
            view_fields(members@) == active_members(vs.take(i as int)),
        decreases n - i,
    {
        proof {
            assert(vs[i as int] == crate::enums::view_variant(variants@[i as int]));
        }
        if !variants[i].fallback {
            let rename = match &variants[i].rename {
                Some(r) => Some(r.clone()),
                None => None,
            };
            let m = FieldDef { name: variants[i].name.clone(), rename, default_value: None };
            proof {
                assert(view_field(m) == member_of(vs[i as int]));
            }
            members.push(m);
        }
        proof {
            assert(vs.take(i + 1) =~= vs.take(i as int).push(vs[i as int]));
            lemma_active_members_push(vs.take(i as int), vs[i as int]);
            assert(view_fields(members@) =~= active_members(vs.take(i + 1)));
        }
        i = i + 1;
    }
    proof {
        assert(vs.take(n as int) =~= vs);
    }
    members
}

/// Decodes one enum value against its validated description.
///
/// Reads the variant selector under the enum's resolved tag method and
/// dispatches to the matched variant's own body decoder.  An unrecognized
/// selector produces the declared fallback variant after discarding the
/// body, or fails when no fallback exists.  A zero-variant enum fails on
/// any input.  The variant cursor is closed on every successful path, the
/// fallback path included.
pub fn decode_enum(def: &EnumDef, d: ValueDecoder) -> (r: Result<DecodedVariant, DecodeError>)
    requires
        def@.wf(),
    ensures
        (match (r, spec_decode_enum(def@, d@)) {
            (Ok(dv), Ok((idx, vals))) => dv.index == idx && view_value_seq(dv.values@) == vals,
            (Err(e), Err(se)) => view_error(e) == se,
            _ => false,
        }),
{
    let ghost e = def@;
    let ghost vs = view_variants(def.variants@);
    if def.variants.len() == 0 {
        return Err(DecodeError::Uninhabitable { owner: def.name.clone() });
    }
    let members = active_member_vec(&def.variants);
    let ghost ms = active_members(vs);
    let table = match resolve(&def.name, &members) {
        Ok(t) => t,
        Err(_) => {
            proof {
                lemma_unique_no_dup(ms);
            }
            unreached()
        },
    };
    let mut vc = match d.decode_variant() {
        Ok(c) => c,
        Err(err) => {
            return Err(err);
        },
    };
    let keyd = vc.tag();
    let tag = match decode_key(table.method, keyd) {
        Ok(t) => t,
        Err(err) => {
            return Err(err);
        },
    };
    match lookup_tag(&table, &tag, Ghost(ms)) {
        Some(k) => {
            proof {
                lemma_lookup_in_range(ms, view_tag(tag), 0);
            }
            let i = match active_decl_index(&def.variants, k) {
                Some(i) => i,
                None => unreached(),
            };
            proof {
                assert(vs[i as int] == crate::enums::view_variant(def.variants@[i as int]));
                assert(variant_body(vs[i as int], e.packing).wf());
            }
            let vdef = &def.variants[i];
            let ep = match vdef.packing {
                Some(p) => p,
                None => def.packing,
            };
            let bodyd = vc.variant();
            let values = match decode_body(&vdef.name, ep, &vdef.fields, bodyd) {
                Ok(vals) => vals,
                Err(err) => {
                    return Err(err);
                },
            };
            match vc.end() {
                Ok(()) => {},
                Err(_) => unreached(),
            }
            Ok(DecodedVariant { index: i, values })
        },
        None => {
            match first_fallback(&def.variants) {
                Some(f) => {
                    let skipped = match vc.skip_variant() {
                        Ok(b) => b,
                        Err(err) => {
                            return Err(err);
                        },
                    };
                    if !skipped {
                        return Err(DecodeError::InvalidVariantTag {
                            owner: def.name.clone(),
                            tag,
                        });
                    }
                    match vc.end() {
                        Ok(()) => {},
                        Err(_) => unreached(),
                    }
                    proof {
                        assert(view_value_seq(Seq::<Value>::empty()) =~= Seq::<
                            SpecValue,
                        >::empty());
                    }
                    Ok(DecodedVariant { index: f, values: Vec::new() })
                },
                None => Err(DecodeError::InvalidVariantTag {
                    owner: def.name.clone(),
                    tag,
                }),
            }
        },
    }
}

/// Finds the declaration index of the `k`-th non-fallback variant.
fn active_decl_index(variants: &Vec<VariantDef>, k: usize) -> (r: Option<usize>)
    requires
        k < active_members(view_variants(variants@)).len(),
    ensures
        (match r {
            Some(i) => 0 <= i < variants@.len() && decl_of_active(
                view_variants(variants@),
                k as int,
            ) == i as int && !view_variants(variants@)[i as int].fallback,
            None => false,
        }),
{
    let ghost vs = view_variants(variants@);
    let n = variants.len();
    let mut a: usize = 0;
    let mut i: usize = 0;
    while i < n
        invariant
            vs == view_variants(variants@),
            n == variants@.len(),
            k < active_members(vs).len(),
            0 <= i <= n,
            a == active_members(vs.take(i as int)).len(),
            a <= k,
        decreases n - i,
    {
        proof {
            assert(vs.take(i + 1) =~= vs.take(i as int).push(vs[i as int]));
            lemma_active_members_push(vs.take(i as int), vs[i as int]);
        }
        if !variants[i].fallback {
            if a == k {
                proof {
                    lemma_decl_of_active(vs, i as int);
                }
                return Some(i);
            }
            a = a + 1;
        }
        i = i + 1;
    }
    proof {
        assert(vs.take(n as int) =~= vs);
        assert(a == active_members(vs).len());
        assert(false);
    }
    None
}

/// Finds the declaration index of the enum's fallback variant, if any.
fn first_fallback(variants: &Vec<VariantDef>) -> (r: Option<usize>)
    ensures
        (match r {
            Some(i) => fallback_decl(view_variants(variants@)) == Some(i as int),
            None => fallback_decl(view_variants(variants@)) is None,
        }),
{
    let ghost vs = view_variants(variants@);
    let n = variants.len();
    let mut i: usize = 0;
    while i < n
        invariant
            vs == view_variants(variants@),
            n == variants@.len(),
            0 <= i <= n,
            forall|k: int| 0 <= k < i ==> !(#[trigger] vs[k]).fallback,
        decreases n - i,
    {
        if variants[i].fallback {
            proof {
                lemma_first_fallback_some(vs, 0, i as int);
            }
            return Some(i);
        }
        i = i + 1;
    }
    proof {
        lemma_first_fallback_none(vs, 0);
    }
    None
}

} // verus!
