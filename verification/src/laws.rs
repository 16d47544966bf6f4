//! The laws the decoding model obeys, proved over its ghost functions.
//!
//! Each proof function here states one cross-cutting guarantee of the
//! library — a round-trip, an insensitivity, a failure that is owed — for
//! every input its premises admit.

use vstd::prelude::*;

use crate::decode::first_missing_from;
use crate::decode::lemma_first_missing_none;
use crate::decode::lemma_lookup_in_range;
use crate::decode::lemma_lookup_some;
use crate::decode::slot_value;
use crate::decode::spec_decode_enum;
use crate::decode::spec_decode_packed;
use crate::decode::spec_decode_struct;
use crate::decode::spec_decode_tagged;
use crate::decode::spec_key_tag;
use crate::decode::spec_lookup;
use crate::decode::spec_pairs_fold;
use crate::encode::spec_encode_struct;
use crate::encode::spec_tag_value;
use crate::enums::SpecEnum;
use crate::enums::active_members;
use crate::enums::fallback_decl;
use crate::error::SpecError;
use crate::schema::Packing;
use crate::schema::SpecField;
use crate::schema::SpecStruct;
use crate::schema::spec_label;
use crate::schema::spec_method;
use crate::schema::spec_tag;
use crate::schema::tags_unique;
use crate::tags::SpecTag;
use crate::tags::TagMethod;
use crate::value::SpecValue;

verus! {

/// Whether a pair's key has the shape the type's tag method reads.
pub open spec fn pair_known(ms: Seq<SpecField>, key: SpecValue) -> bool {
    spec_key_tag(spec_method(ms), key) is Ok
}

/// The member a pair's key addresses, if its tag is well-shaped and known.
pub open spec fn pair_member(ms: Seq<SpecField>, key: SpecValue) -> Option<int> {
    match spec_key_tag(spec_method(ms), key) {
        Ok(t) => spec_lookup(ms, t),
        Err(_) => None,
    }
}

/// A member's own tag looks itself up, when tags are unique.
proof fn lemma_lookup_self(ms: Seq<SpecField>, i: int)
    requires
        tags_unique(ms),
        0 <= i < ms.len(),
    ensures
        spec_lookup(ms, spec_tag(ms, i)) == Some(i),
{
    lemma_lookup_some(ms, spec_tag(ms, i), 0, i);
}

/// Folding the pairs a tagged encode wrote, from position `j` on, fills
/// exactly the slots from `j` on with the encoded values.
proof fn lemma_fold_encoded(
    ms: Seq<SpecField>,
    values: Seq<SpecValue>,
    slots: Seq<Option<SpecValue>>,
    j: int,
)
    requires
        tags_unique(ms),
        values.len() == ms.len(),
        ms.len() <= usize::MAX,
        slots.len() == ms.len(),
        0 <= j <= ms.len(),
    ensures
        ({
            let enc = Seq::new(ms.len(), |i: int| (spec_tag_value(ms, i), values[i]));
            spec_pairs_fold(ms, enc.skip(j), slots) == Ok::<_, SpecError>(
                Seq::new(
                    ms.len(),
                    |i: int|
                        if i >= j {
                            Some(values[i])
                        } else {
                            slots[i]
                        },
                ),
            )
        }),
    decreases ms.len() - j,
{
    let enc = Seq::new(ms.len(), |i: int| (spec_tag_value(ms, i), values[i]));
    if j == ms.len() {
        assert(enc.skip(j) =~= Seq::<(SpecValue, SpecValue)>::empty());
        assert(Seq::new(
            ms.len(),
            |i: int|
                if i >= j {
                    Some(values[i])
                } else {
                    slots[i]
                },
        ) =~= slots);
    } else {
        let p = enc.skip(j);
        assert(p[0] == enc[j]);
        assert(spec_key_tag(spec_method(ms), spec_tag_value(ms, j)) == Ok::<SpecTag, SpecError>(
            spec_tag(ms, j),
        ));
        lemma_lookup_self(ms, j);
        let stepped = slots.update(j, Some(values[j]));
        assert(p.drop_first() =~= enc.skip(j + 1));
        lemma_fold_encoded(ms, values, stepped, j + 1);
        assert(Seq::new(
            ms.len(),
            |i: int|
                if i >= j + 1 {
                    Some(values[i])
                } else {
                    stepped[i]
                },
        ) =~= Seq::new(
            ms.len(),
            |i: int|
                if i >= j {
                    Some(values[i])
                } else {
                    slots[i]
                },
        ));
    }
}

/// Round-trip: decoding what was encoded returns the very member values,
/// under every packing strategy, for every well-formed description.
pub proof fn lemma_round_trip(s: SpecStruct, values: Seq<SpecValue>)
    requires
        s.wf(),
        values.len() == s.fields.len(),
        s.fields.len() <= usize::MAX,
    ensures
        spec_decode_struct(s, spec_encode_struct(s, values)) == Ok::<Seq<SpecValue>, SpecError>(
            values,
        ),
{
    let ms = s.fields;
    match s.packing {
        Packing::Tagged => {
            let enc = Seq::new(ms.len(), |i: int| (spec_tag_value(ms, i), values[i]));
            let init = Seq::new(ms.len(), |k: int| None::<SpecValue>);
            assert(enc.skip(0) =~= enc);
            lemma_fold_encoded(ms, values, init, 0);
            let filled = Seq::new(
                ms.len(),
                |i: int|
                    if i >= 0 {
                        Some(values[i])
                    } else {
                        init[i]
                    },
            );
            lemma_first_missing_none(ms, filled, 0);
            assert(Seq::new(ms.len(), |k: int| slot_value(ms, filled, k)) =~= values);
        },
        Packing::Packed => {
            if ms.len() == 0 {
                assert(values =~= Seq::<SpecValue>::empty());
            } else {
                assert(values.take(ms.len() as int) =~= values);
            }
        },
        Packing::Transparent => {
            assert(seq![values[0]] =~= values);
        },
    }
}

/// Folding a pair list with one extra pair whose key is well-shaped but
/// unknown gives what the list without it gives, wherever the pair stands.
proof fn lemma_fold_skip_unknown(
    ms: Seq<SpecField>,
    pairs1: Seq<(SpecValue, SpecValue)>,
    pairs2: Seq<(SpecValue, SpecValue)>,
    key: SpecValue,
    val: SpecValue,
    slots: Seq<Option<SpecValue>>,
)
    requires
        pair_known(ms, key),
        pair_member(ms, key) is None,
    ensures
        spec_pairs_fold(ms, pairs1 + seq![(key, val)] + pairs2, slots) == spec_pairs_fold(
            ms,
            pairs1 + pairs2,
            slots,
        ),
    decreases pairs1.len(),
{
    let with = pairs1 + seq![(key, val)] + pairs2;
    let without = pairs1 + pairs2;
    if pairs1.len() == 0 {
        assert(with[0] == (key, val));
        assert(with.drop_first() =~= pairs2);
        assert(without =~= pairs2);
    } else {
        assert(with[0] == pairs1[0]);
        assert(without[0] == pairs1[0]);
        assert(with.drop_first() =~= pairs1.drop_first() + seq![(key, val)] + pairs2);
        assert(without.drop_first() =~= pairs1.drop_first() + pairs2);
        match spec_key_tag(spec_method(ms), pairs1[0].0) {
            Err(_) => {},
            Ok(t) => {
                let stepped = match spec_lookup(ms, t) {
                    Some(i) => slots.update(i, Some(pairs1[0].1)),
                    None => slots,
                };
                lemma_fold_skip_unknown(ms, pairs1.drop_first(), pairs2, key, val, stepped);
            },
        }
    }
}

/// Unknown-field skip: a tagged map carrying one extra pair whose key is
/// well-shaped but matches no member decodes to exactly what the map
/// without that pair decodes to, wherever in the map the pair stands.
pub proof fn lemma_unknown_field_skipped(
    name: Seq<char>,
    ms: Seq<SpecField>,
    pairs1: Seq<(SpecValue, SpecValue)>,
    pairs2: Seq<(SpecValue, SpecValue)>,
    key: SpecValue,
    val: SpecValue,
)
    requires
        pair_known(ms, key),
        pair_member(ms, key) is None,
    ensures
        spec_decode_tagged(name, ms, SpecValue::Mapping(pairs1 + seq![(key, val)] + pairs2))
            == spec_decode_tagged(name, ms, SpecValue::Mapping(pairs1 + pairs2)),
{
    let init = Seq::new(ms.len(), |k: int| None::<SpecValue>);
    lemma_fold_skip_unknown(ms, pairs1, pairs2, key, val, init);
}

/// Folding pairs whose keys are all well-shaped succeeds, and a member no
/// pair addresses keeps its slot.
proof fn lemma_fold_keeps_slot(
    ms: Seq<SpecField>,
    pairs: Seq<(SpecValue, SpecValue)>,
    slots: Seq<Option<SpecValue>>,
    i: int,
)
    requires
        slots.len() == ms.len(),
        0 <= i < ms.len(),
        forall|p: int| 0 <= p < pairs.len() ==> pair_known(ms, (#[trigger] pairs[p]).0),
        forall|p: int| 0 <= p < pairs.len() ==> pair_member(ms, (#[trigger] pairs[p]).0) != Some(i),
    ensures
        (match spec_pairs_fold(ms, pairs, slots) {
            Ok(out) => out.len() == ms.len() && out[i] == slots[i],
            Err(_) => false,
        }),
    decreases pairs.len(),
{
    if pairs.len() > 0 {
        assert(pair_known(ms, pairs[0].0));
        match spec_key_tag(spec_method(ms), pairs[0].0) {
            Err(_) => {},
            Ok(t) => {
                lemma_lookup_in_range(ms, t, 0);
                let stepped = match spec_lookup(ms, t) {
                    Some(k) => slots.update(k, Some(pairs[0].1)),
                    None => slots,
                };
                assert(forall|p: int|
                    0 <= p < pairs.drop_first().len() ==> (#[trigger] pairs.drop_first()[p])
                        == pairs[p + 1]);
                lemma_fold_keeps_slot(ms, pairs.drop_first(), stepped, i);
            },
        }
    }
}

/// A missing member without a default is found by the finalize scan.
proof fn lemma_first_missing_found(
    ms: Seq<SpecField>,
    slots: Seq<Option<SpecValue>>,
    s: int,
    i: int,
)
    requires
        0 <= s <= i < ms.len(),
        slots[i] is None,
        ms[i].default_value is None,
    ensures
        (match first_missing_from(ms, slots, s) {
            Some(j) => s <= j < ms.len() && slots[j] is None && ms[j].default_value is None,
            None => false,
        }),
    decreases i - s,
{
    if !(slots[s] is None && ms[s].default_value is None) {
        lemma_first_missing_found(ms, slots, s + 1, i);
    }
}

/// Missing-required-field failure: when every key of a tagged map is
/// well-shaped and none addresses member `i`, which has no default, the
/// decode fails, with the expected tag of a member that is indeed missing
/// and defaultless.
pub proof fn lemma_missing_required_fails(
    name: Seq<char>,
    ms: Seq<SpecField>,
    pairs: Seq<(SpecValue, SpecValue)>,
    i: int,
)
    requires
        0 <= i < ms.len(),
        ms[i].default_value is None,
        forall|p: int| 0 <= p < pairs.len() ==> pair_known(ms, (#[trigger] pairs[p]).0),
        forall|p: int| 0 <= p < pairs.len() ==> pair_member(ms, (#[trigger] pairs[p]).0) != Some(i),
    ensures
        (match spec_decode_tagged(name, ms, SpecValue::Mapping(pairs)) {
            Err(SpecError::ExpectedTag { owner, tag }) => owner == name && (exists|j: int|
                0 <= j < ms.len() && tag == spec_tag(ms, j) && (
                #[trigger] ms[j]).default_value is None),
            _ => false,
        }),
{
    let init = Seq::new(ms.len(), |k: int| None::<SpecValue>);
    lemma_fold_keeps_slot(ms, pairs, init, i);
    match spec_pairs_fold(ms, pairs, init) {
        Ok(out) => {
            lemma_first_missing_found(ms, out, 0, i);
            match first_missing_from(ms, out, 0) {
                Some(j) => {
                    assert(0 <= j < ms.len() && (ms[j]).default_value is None);
                },
                None => {},
            }
        },
        Err(_) => {},
    }
}

/// Folding pairs whose keys are all well-shaped succeeds, and a member
/// some pair addresses, or whose slot was already filled, ends filled.
proof fn lemma_fold_fills(
    ms: Seq<SpecField>,
    pairs: Seq<(SpecValue, SpecValue)>,
    slots: Seq<Option<SpecValue>>,
    j: int,
)
    requires
        slots.len() == ms.len(),
        0 <= j < ms.len(),
        forall|p: int| 0 <= p < pairs.len() ==> pair_known(ms, (#[trigger] pairs[p]).0),
        slots[j] is Some || exists|p: int|
            0 <= p < pairs.len() && pair_member(ms, (#[trigger] pairs[p]).0) == Some(j),
    ensures
        (match spec_pairs_fold(ms, pairs, slots) {
            Ok(out) => out.len() == ms.len() && out[j] is Some,
            Err(_) => false,
        }),
    decreases pairs.len(),
{
    if pairs.len() == 0 {
        assert(slots[j] is Some);
    } else {
        assert(pair_known(ms, pairs[0].0));
        match spec_key_tag(spec_method(ms), pairs[0].0) {
            Err(_) => {},
            Ok(t) => {
                lemma_lookup_in_range(ms, t, 0);
                let stepped = match spec_lookup(ms, t) {
                    Some(k) => slots.update(k, Some(pairs[0].1)),
                    None => slots,
                };
                assert(forall|p: int|
                    0 <= p < pairs.drop_first().len() ==> (#[trigger] pairs.drop_first()[p])
                        == pairs[p + 1]);
                if pair_member(ms, pairs[0].0) == Some(j) {
                    assert(stepped[j] is Some);
                } else if slots[j] is None {
                    let p = choose|p: int|
                        0 <= p < pairs.len() && pair_member(ms, (#[trigger] pairs[p]).0) == Some(j);
                    assert(p >= 1);
                    assert(pairs.drop_first()[p - 1] == pairs[p]);
                    assert(exists|q: int|
                        0 <= q < pairs.drop_first().len() && pair_member(
                            ms,
                            (#[trigger] pairs.drop_first()[q]).0,
                        ) == Some(j));
                }
                lemma_fold_fills(ms, pairs.drop_first(), stepped, j);
            },
        }
    }
}

/// Default substitution: when every key of a tagged map is well-shaped,
/// none addresses member `i`, which declares a default, and every other
/// defaultless member is addressed by some pair, the decode succeeds and
/// member `i` takes its declared default.
pub proof fn lemma_default_substitution(
    name: Seq<char>,
    ms: Seq<SpecField>,
    pairs: Seq<(SpecValue, SpecValue)>,
    i: int,
)
    requires
        0 <= i < ms.len(),
        ms[i].default_value is Some,
        forall|p: int| 0 <= p < pairs.len() ==> pair_known(ms, (#[trigger] pairs[p]).0),
        forall|p: int| 0 <= p < pairs.len() ==> pair_member(ms, (#[trigger] pairs[p]).0) != Some(i),
        forall|j: int|
            0 <= j < ms.len() && j != i && (#[trigger] ms[j]).default_value is None
                ==> exists|p: int|
                0 <= p < pairs.len() && pair_member(ms, (#[trigger] pairs[p]).0) == Some(j),
    ensures
        (match spec_decode_tagged(name, ms, SpecValue::Mapping(pairs)) {
            Ok(vals) => vals.len() == ms.len() && ms[i].default_value == Some(vals[i]),
            Err(_) => false,
        }),
{
    let init = Seq::new(ms.len(), |k: int| None::<SpecValue>);
    lemma_fold_keeps_slot(ms, pairs, init, i);
    match spec_pairs_fold(ms, pairs, init) {
        Ok(out) => {
            assert forall|k: int|
                0 <= k < ms.len() implies !(out[k] is None && (
            #[trigger] ms[k]).default_value is None) by {
                if k != i && ms[k].default_value is None {
                    lemma_fold_fills(ms, pairs, init, k);
                }
            }
            lemma_first_missing_none(ms, out, 0);
            assert(slot_value(ms, out, i) == ms[i].default_value->0);
        },
        Err(_) => {},
    }
}

/// Variant fallback: an unrecognized, well-shaped variant tag produces the
/// declared fallback variant with no member values; without a fallback it
/// fails with the invalid tag.
pub proof fn lemma_variant_fallback(e: SpecEnum, t: SpecValue, b: SpecValue, tag: SpecTag)
    requires
        e.variants.len() > 0,
        spec_key_tag(spec_method(active_members(e.variants)), t) == Ok::<SpecTag, SpecError>(tag),
        spec_lookup(active_members(e.variants), tag) is None,
    ensures
        ({
            let r = spec_decode_enum(e, SpecValue::Variant(Box::new(t), Box::new(b)));
            match fallback_decl(e.variants) {
                Some(f) => r == Ok::<(int, Seq<SpecValue>), SpecError>(
                    (f, Seq::<SpecValue>::empty()),
                ),
                None => r == Err::<(int, Seq<SpecValue>), SpecError>(
                    SpecError::InvalidVariantTag { owner: e.name, tag },
                ),
            }
        }),
{
}

/// Uninhabited enum: a zero-variant enum fails on every input whatsoever,
/// with the uninhabitable error, regardless of what any backend supplies.
pub proof fn lemma_uninhabited(e: SpecEnum, input: SpecValue)
    requires
        e.variants.len() == 0,
    ensures
        spec_decode_enum(e, input) == Err::<(int, Seq<SpecValue>), SpecError>(
            SpecError::Uninhabitable { owner: e.name },
        ),
{
}

/// String-versus-numeric tag consistency: one explicit rename anywhere
/// forces the string method and string tags for every member; no renames
/// at all leaves the default method and index tags for every member.
pub proof fn lemma_tag_method_consistency(ms: Seq<SpecField>)
    ensures
        (exists|i: int| 0 <= i < ms.len() && (#[trigger] ms[i]).rename is Some) ==> (spec_method(ms)
            == TagMethod::Named && forall|i: int|
            0 <= i < ms.len() ==> #[trigger] spec_tag(ms, i) == SpecTag::Name(spec_label(ms[i]))),
        (forall|i: int| 0 <= i < ms.len() ==> (#[trigger] ms[i]).rename is None) ==> (spec_method(
            ms,
        ) == TagMethod::Default && forall|i: int|
            0 <= i < ms.len() ==> #[trigger] spec_tag(ms, i) == SpecTag::Index(i)),
{
}

/// Packed positional order: a packed body takes its values by position,
/// member `k` from slot `k`, with no reordering.
pub proof fn lemma_packed_positional(ms: Seq<SpecField>, items: Seq<SpecValue>)
    requires
        ms.len() > 0,
        items.len() >= ms.len(),
    ensures
        (match spec_decode_packed(ms, SpecValue::Sequence(items)) {
            Ok(vals) => vals.len() == ms.len() && forall|k: int|
                0 <= k < ms.len() ==> #[trigger] vals[k] == items[k],
            Err(_) => false,
        }),
{
}

/// Packed positional order, contrapositive: sequences that differ within
/// the members' positions decode to different member values.
pub proof fn lemma_packed_order_matters(
    ms: Seq<SpecField>,
    items1: Seq<SpecValue>,
    items2: Seq<SpecValue>,
    k: int,
)
    requires
        ms.len() > 0,
        items1.len() >= ms.len(),
        items2.len() >= ms.len(),
        0 <= k < ms.len(),
        items1[k] != items2[k],
    ensures
        spec_decode_packed(ms, SpecValue::Sequence(items1)) != spec_decode_packed(
            ms,
            SpecValue::Sequence(items2),
        ),
{
    assert(items1.take(ms.len() as int)[k] == items1[k]);
    assert(items2.take(ms.len() as int)[k] == items2[k]);
}

} // verus!
