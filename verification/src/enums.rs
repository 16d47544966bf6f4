//! Enum descriptions: variants, the fallback variant, and setup-time
//! validation.
//!
//! An enum resolves a tag method over its variants exactly as a struct does
//! over its fields, except that fallback variants do not take part: they
//! carry no tag and do not count toward the declaration indices that label
//! variants under the default method.

use vstd::prelude::*;

use crate::error::DecodeError;
use crate::error::SpecError;
use crate::error::view_error;
use crate::schema::FieldDef;
use crate::schema::Packing;
use crate::schema::SpecField;
use crate::schema::SpecStruct;
use crate::schema::check_body;
use crate::schema::lemma_body_error_wf;
use crate::schema::lemma_unique_no_dup;
use crate::schema::resolve;
use crate::schema::spec_body_error;
use crate::schema::tags_unique;
use crate::schema::view_field;
use crate::schema::view_fields;

verus! {

/// One declared variant of an enum.
#[derive(Debug)]
pub struct VariantDef {
    /// The declared identifier.
    pub name: String,
    /// An explicit tag override; any rename among the variants forces the
    /// string tag method on the whole enum.
    pub rename: Option<String>,
    /// A packing override for this variant's body; the enum's declared
    /// packing applies where absent.
    pub packing: Option<Packing>,
    /// The variant's own members, in declaration order.
    pub fields: Vec<FieldDef>,
    /// Whether this variant is the enum's fallback, produced for any
    /// unrecognized variant tag.  A fallback must be empty-bodied and
    /// carries no tag of its own.
    pub fallback: bool,
}

/// The ghost image of one variant.
pub struct SpecVariant {
    pub name: Seq<char>,
    pub rename: Option<Seq<char>>,
    pub packing: Option<Packing>,
    pub fields: Seq<SpecField>,
    pub fallback: bool,
}

/// The ghost image of one variant.
pub open spec fn view_variant(v: VariantDef) -> SpecVariant {
    SpecVariant {
        name: v.name@,
        rename: match v.rename {
            Some(r) => Some(r@),
            None => None,
        },
        packing: v.packing,
        fields: view_fields(v.fields@),
        fallback: v.fallback,
    }
}

/// The ghost image of a variant list.
pub open spec fn view_variants(vs: Seq<VariantDef>) -> Seq<SpecVariant> {
    vs.map_values(|v: VariantDef| view_variant(v))
}

impl View for VariantDef {
    type V = SpecVariant;

    open spec fn view(&self) -> SpecVariant {
        view_variant(*self)
    }
}

/// The description of one enum: a name, a default packing for variant
/// bodies, and the declared variants.
#[derive(Debug)]
pub struct EnumDef {
    /// The type's name, carried into diagnostics.
    pub name: String,
    /// The default packing of variant bodies; an enum itself may not be
    /// packed.
    pub packing: Packing,
    /// The variants, in declaration order.
    pub variants: Vec<VariantDef>,
}

/// The ghost image of an enum description.
pub struct SpecEnum {
    pub name: Seq<char>,
    pub packing: Packing,
    pub variants: Seq<SpecVariant>,
}

impl View for EnumDef {
    type V = SpecEnum;

    open spec fn view(&self) -> SpecEnum {
        SpecEnum {
            name: self.name@,
            packing: self.packing,
            variants: view_variants(self.variants@),
        }
    }
}

/// The member a variant contributes to the enum's tag resolution.
pub open spec fn member_of(v: SpecVariant) -> SpecField {
    SpecField { name: v.name, rename: v.rename, default_value: None }
}

/// The members of the non-fallback variants, in declaration order: the
/// member list the enum's tags resolve over.
pub open spec fn active_members(vs: Seq<SpecVariant>) -> Seq<SpecField>
    decreases vs.len(),
{
    if vs.len() == 0 {
        Seq::empty()
    } else if vs[0].fallback {
        active_members(vs.drop_first())
    } else {
        seq![member_of(vs[0])] + active_members(vs.drop_first())
    }
}

/// The declaration index of the `k`-th non-fallback variant.
pub open spec fn decl_of_active(vs: Seq<SpecVariant>, k: int) -> int
    decreases vs.len(),
{
    if vs.len() == 0 {
        0
    } else if vs[0].fallback {
        1 + decl_of_active(vs.drop_first(), k)
    } else if k == 0 {
        0
    } else {
        1 + decl_of_active(vs.drop_first(), k - 1)
    }
}

/// The first fallback variant from `i` on.
pub open spec fn first_fallback_from(vs: Seq<SpecVariant>, i: int) -> Option<int>
    decreases vs.len() - i,
{
    if i < 0 || i >= vs.len() {
        None
    } else if vs[i].fallback {
        Some(i)
    } else {
        first_fallback_from(vs, i + 1)
    }
}

/// The declaration index of the enum's fallback variant, if any.
pub open spec fn fallback_decl(vs: Seq<SpecVariant>) -> Option<int> {
    first_fallback_from(vs, 0)
}

/// Where a scan found no fallback before `i` and one at `i`, the first
/// fallback is at `i`.
pub proof fn lemma_first_fallback_some(vs: Seq<SpecVariant>, s: int, i: int)
    requires
        0 <= s <= i < vs.len(),
        forall|k: int| s <= k < i ==> !(#[trigger] vs[k]).fallback,
        vs[i].fallback,
    ensures
        first_fallback_from(vs, s) == Some(i),
    decreases i - s,
{
    if s < i {
        lemma_first_fallback_some(vs, s + 1, i);
    }
}

/// Where no variant from `s` on is a fallback, there is none to find.
pub proof fn lemma_first_fallback_none(vs: Seq<SpecVariant>, s: int)
    requires
        forall|k: int| s <= k < vs.len() ==> !(#[trigger] vs[k]).fallback,
    ensures
        first_fallback_from(vs, s) is None,
    decreases vs.len() - s,
{
    if 0 <= s < vs.len() {
        lemma_first_fallback_none(vs, s + 1);
    }
}

/// The packing of one variant's body: its own override, or the enum's
/// declared default.
pub open spec fn effective_packing(v: SpecVariant, d: Packing) -> Packing {
    match v.packing {
        Some(p) => p,
        None => d,
    }
}

/// One variant's body, read as a struct of its own.
pub open spec fn variant_body(v: SpecVariant, d: Packing) -> SpecStruct {
    SpecStruct { name: v.name, packing: effective_packing(v, d), fields: v.fields }
}

/// Every fallback is empty-bodied and at most one exists.
pub open spec fn fallback_ok(vs: Seq<SpecVariant>) -> bool {
    &&& forall|i: int|
        0 <= i < vs.len() && (#[trigger] vs[i]).fallback ==> vs[i].fields.len() == 0
    &&& forall|i: int, j: int|
        0 <= i < j < vs.len() ==> !((#[trigger] vs[i]).fallback && (#[trigger] vs[j]).fallback)
}

impl SpecEnum {
    /// Setup-time validity: the enum itself is not packed, fallbacks are
    /// lawful, the non-fallback variants carry distinct tags, and every
    /// non-fallback body is itself well-formed.
    pub open spec fn wf(self) -> bool {
        &&& self.packing != Packing::Packed
        &&& fallback_ok(self.variants)
        &&& tags_unique(active_members(self.variants))
        &&& forall|i: int|
            0 <= i < self.variants.len() && !(#[trigger] self.variants[i]).fallback
                ==> variant_body(self.variants[i], self.packing).wf()
    }
}

/// The failure names a non-fallback variant whose body fails its own
/// setup-time check.
pub open spec fn variant_body_error(e: SpecError, s: SpecEnum) -> bool {
    exists|i: int|
        0 <= i < s.variants.len() && !(#[trigger] s.variants[i]).fallback && spec_body_error(
            s.variants[i].name,
            effective_packing(s.variants[i], s.packing),
            s.variants[i].fields,
        ) == Some(e)
}

/// What a setup-time failure of an enum declaration may report: the kind
/// names a violated condition, and that condition indeed fails.
pub open spec fn enum_setup_error_matches(e: SpecError, s: SpecEnum) -> bool {
    match e {
        SpecError::PackedEnum { owner } => owner == s.name && s.packing == Packing::Packed,
        SpecError::InvalidFallback { owner } => owner == s.name && !fallback_ok(s.variants),
        SpecError::DuplicateTag { owner, tag } => (owner == s.name && !tags_unique(
            active_members(s.variants),
        )) || variant_body_error(e, s),
        SpecError::DefaultInPacked { owner } => variant_body_error(e, s),
        SpecError::InvalidTransparent { owner } => variant_body_error(e, s),
        _ => false,
    }
}

/// Appending a variant appends its member where it is active, and nothing
/// where it is a fallback.
pub proof fn lemma_active_members_push(vs: Seq<SpecVariant>, v: SpecVariant)
    ensures
        active_members(vs.push(v)) == active_members(vs) + (if v.fallback {
            Seq::<SpecField>::empty()
        } else {
            seq![member_of(v)]
        }),
    decreases vs.len(),
{
    let w = vs.push(v);
    if vs.len() == 0 {
        assert(w.len() == 1);
        assert(w[0] == v);
        assert(w.drop_first() =~= Seq::<SpecVariant>::empty());
        assert(w.drop_first() == Seq::<SpecVariant>::empty());
        assert(active_members(Seq::<SpecVariant>::empty()) == Seq::<SpecField>::empty());
        assert(active_members(vs) == Seq::<SpecField>::empty());
        if v.fallback {
            assert(active_members(w) =~= active_members(vs) + Seq::<SpecField>::empty());
        } else {
            assert(active_members(w) =~= active_members(vs) + seq![member_of(v)]);
        }
    } else {
        assert(w.drop_first() =~= vs.drop_first().push(v));
        lemma_active_members_push(vs.drop_first(), v);
        if vs[0].fallback {
            assert(active_members(w) == active_members(w.drop_first()));
        } else {
            assert(active_members(w) =~= active_members(vs) + (if v.fallback {
                Seq::<SpecField>::empty()
            } else {
                seq![member_of(v)]
            }));
        }
    }
}

/// A non-fallback variant at declaration index `i` is the `k`-th active
/// member, where `k` counts the active variants declared before it.
pub proof fn lemma_decl_of_active(vs: Seq<SpecVariant>, i: int)
    requires
        0 <= i < vs.len(),
        !vs[i].fallback,
    ensures
        ({
            let k = active_members(vs.take(i)).len() as int;
            &&& k < active_members(vs).len()
            &&& decl_of_active(vs, k) == i
            &&& active_members(vs)[k] == member_of(vs[i])
        }),
    decreases i,
{
    let k = active_members(vs.take(i)).len() as int;
    if i == 0 {
        assert(vs.take(0) =~= Seq::<SpecVariant>::empty());
        assert(k == 0);
        assert(active_members(vs) == seq![member_of(vs[0])] + active_members(vs.drop_first()));
    } else {
        let rest = vs.drop_first();
        assert(vs.take(i).drop_first() =~= rest.take(i - 1));
        assert(rest[i - 1] == vs[i]);
        lemma_decl_of_active(rest, i - 1);
        let k2 = active_members(rest.take(i - 1)).len() as int;
        if vs[0].fallback {
            assert(vs.take(i)[0] == vs[0]);
            assert(active_members(vs.take(i)) == active_members(rest.take(i - 1)));
            assert(k == k2);
            assert(active_members(vs) == active_members(rest));
        } else {
            assert(vs.take(i)[0] == vs[0]);
            assert(active_members(vs.take(i)) == seq![member_of(vs[0])] + active_members(
                rest.take(i - 1),
            ));
            assert(k == k2 + 1);
            assert(active_members(vs) == seq![member_of(vs[0])] + active_members(rest));
            assert(active_members(vs)[k] == active_members(rest)[k2]);
        }
    }
}

impl EnumDef {
    /// Builds a validated enum description.
    ///
    /// Succeeds exactly when the declaration is well-formed: the enum is
    /// not packed, fallbacks are lawful, the non-fallback variants carry
    /// distinct tags, and every non-fallback body passes its own packing
    /// strategy's checks.  A failure reports a violated condition.
    pub fn new(name: String, packing: Packing, variants: Vec<VariantDef>) -> (r: Result<
        EnumDef,
        DecodeError,
    >)
        ensures
            ({
                let s = SpecEnum { name: name@, packing, variants: view_variants(variants@) };
                match r {
                    Ok(d) => d@ == s && s.wf(),
                    Err(e) => !s.wf() && enum_setup_error_matches(view_error(e), s),
                }
            }),
    {
        let ghost s = SpecEnum { name: name@, packing, variants: view_variants(variants@) };
        let ghost vs = view_variants(variants@);
        if matches!(packing, Packing::Packed) {
            return Err(DecodeError::PackedEnum { owner: name });
        }
        let n = variants.len();
        let mut members: Vec<FieldDef> = Vec::new();
        let mut seen_fallback = false;
        let mut i: usize = 0;
        while i < n
            invariant
                n == variants@.len(),
                vs == view_variants(variants@),
                s == (SpecEnum { name: name@, packing, variants: vs }),
                packing != Packing::Packed,
                0 <= i <= n,
                seen_fallback == exists|k: int| 0 <= k < i && (#[trigger] vs[k]).fallback,
                forall|k: int|
                    0 <= k < i && (#[trigger] vs[k]).fallback ==> vs[k].fields.len() == 0,
                forall|k: int, l: int|
                    0 <= k < l < i ==> !((#[trigger] vs[k]).fallback && (#[trigger] vs[l]).fallback),
                forall|k: int|
                    0 <= k < i && !(#[trigger] vs[k]).fallback ==> spec_body_error(
                        vs[k].name,
                        effective_packing(vs[k], packing),
                        vs[k].fields,
                    ) is None,
                view_fields(members@) == active_members(vs.take(i as int)),
            decreases n - i,
        {
            proof {
                assert(vs[i as int] == view_variant(variants@[i as int]));
            }
            if variants[i].fallback {
                if variants[i].fields.len() != 0 {
                    proof {
                        assert(vs[i as int].fields.len() != 0);
                    }
                    return Err(DecodeError::InvalidFallback { owner: name });
                }
                if seen_fallback {
                    return Err(DecodeError::InvalidFallback { owner: name });
                }
                seen_fallback = true;
            } else {
                let ep = match variants[i].packing {
                    Some(p) => p,
                    None => packing,
                };
                proof {
                    assert(ep == effective_packing(vs[i as int], packing));
                }
                match check_body(&variants[i].name, ep, &variants[i].fields) {
                    Ok(()) => {},
                    Err(e) => {
                        proof {
                            lemma_body_error_wf(
                                vs[i as int].name,
                                effective_packing(vs[i as int], packing),
                                vs[i as int].fields,
                            );
                            assert(variant_body_error(view_error(e), s));
                            assert(!variant_body(vs[i as int], packing).wf());
                        }
                        return Err(e);
                    },
                }
                let rename = match &variants[i].rename {
                    Some(r) => Some(r.clone()),
                    None => None,
                };
                let m = FieldDef { name: variants[i].name.clone(), rename, default_value: None };
                proof {
                    assert(view_field(m) == member_of(vs[i as int]));
                }
                members.push(m);
            }
            proof {
                assert(vs.take(i + 1) =~= vs.take(i as int).push(vs[i as int]));
                lemma_active_members_push(vs.take(i as int), vs[i as int]);
                assert(view_fields(members@) =~= active_members(vs.take(i + 1)));
            }
            i = i + 1;
        }
        proof {
            assert(vs.take(n as int) =~= vs);
        }
        match resolve(&name, &members) {
            Ok(_) => {
                proof {
                    lemma_unique_no_dup(view_fields(members@));
                    assert(tags_unique(active_members(vs)));
                    assert forall|k: int|
                        0 <= k < vs.len() && !(#[trigger] vs[k]).fallback implies variant_body(
                        vs[k],
                        packing,
                    ).wf() by {
                        lemma_body_error_wf(
                            vs[k].name,
                            effective_packing(vs[k], packing),
                            vs[k].fields,
                        );
                    }
                    assert(s.wf());
                }
                Ok(EnumDef { name, packing, variants })
            },
            Err(e) => {
                proof {
                    lemma_unique_no_dup(view_fields(members@));
                    assert(!tags_unique(active_members(vs)));
                }
                Err(e)
            },
        }
    }
}

} // verus!
