//! Type descriptions and the tag resolver.
//!
//! A type's members (fields or variants) are declared in order, each with an
//! optional explicit rename.  The resolver decides one tag method for the
//! whole type: if any member declares a rename, every member is labelled by
//! its string name (the rename where present, the declared name otherwise);
//! with no renames every member is labelled by its declaration index.  Two
//! members of one type resolving to the same tag is a setup-time error,
//! never silently resolved.

use vstd::prelude::*;

use crate::error::DecodeError;
use crate::error::SpecError;
use crate::error::view_error;
use crate::tags::SpecTag;
use crate::tags::TagMethod;
use crate::tags::TagValue;
use crate::tags::view_tag;
use crate::value::SpecValue;
use crate::value::Value;
use crate::value::view_value;

verus! {

/// How a struct, a variant body, or an enum frames its members on the wire.
#[derive(Clone, Copy, PartialEq, Eq, Structural, Debug)]
pub enum Packing {
    /// Self-describing key/value pairs.
    Tagged,
    /// Positional, no tags.
    Packed,
    /// A single-member wrapper, invisible on the wire.
    Transparent,
}

/// One declared member: a field of a struct, or — for tag resolution — a
/// variant of an enum.
#[derive(Debug)]
pub struct FieldDef {
    /// The declared identifier.
    pub name: String,
    /// An explicit tag override; any rename forces the string tag method on
    /// the whole type.
    pub rename: Option<String>,
    /// A fallback value substituted when the member is absent from a tagged
    /// body; a member with no default must be present.
    pub default_value: Option<Value>,
}

/// The ghost image of one declared member.
pub struct SpecField {
    pub name: Seq<char>,
    pub rename: Option<Seq<char>>,
    pub default_value: Option<SpecValue>,
}

/// The ghost image of one member.
pub open spec fn view_field(f: FieldDef) -> SpecField {
    SpecField {
        name: f.name@,
        rename: match f.rename {
            Some(r) => Some(r@),
            None => None,
        },
        default_value: match f.default_value {
            Some(v) => Some(view_value(v)),
            None => None,
        },
    }
}

/// The ghost image of a member list.
pub open spec fn view_fields(fs: Seq<FieldDef>) -> Seq<SpecField> {
    fs.map_values(|f: FieldDef| view_field(f))
}

impl View for FieldDef {
    type V = SpecField;

    open spec fn view(&self) -> SpecField {
        view_field(*self)
    }
}

/// The tag method one member list resolves to: any rename forces string
/// tags for the whole type.
pub open spec fn spec_method(ms: Seq<SpecField>) -> TagMethod {
    if exists|i: int| 0 <= i < ms.len() && ms[i].rename is Some {
        TagMethod::Named
    } else {
        TagMethod::Default
    }
}

/// The string label of one member: its rename where present, its declared
/// name otherwise.
pub open spec fn spec_label(m: SpecField) -> Seq<char> {
    match m.rename {
        Some(r) => r,
        None => m.name,
    }
}

/// The resolved tag of member `i`.
pub open spec fn spec_tag(ms: Seq<SpecField>, i: int) -> SpecTag {
    match spec_method(ms) {
        TagMethod::Default => SpecTag::Index(i),
        TagMethod::Named => SpecTag::Name(spec_label(ms[i])),
    }
}

/// No two members resolve to the same tag.
pub open spec fn tags_unique(ms: Seq<SpecField>) -> bool {
    forall|i: int, j: int|
        0 <= i < j < ms.len() ==> spec_tag(ms, i) != spec_tag(ms, j)
}

/// Whether some member before `i` shares member `i`'s tag.
pub open spec fn dup_before(ms: Seq<SpecField>, i: int) -> bool {
    exists|j: int| 0 <= j < i && spec_tag(ms, j) == spec_tag(ms, i)
}

/// The first member from `i` on whose tag already occurred earlier.
pub open spec fn first_dup_from(ms: Seq<SpecField>, i: int) -> Option<int>
    decreases ms.len() - i,
{
    if i < 0 || i >= ms.len() {
        None
    } else if dup_before(ms, i) {
        Some(i)
    } else {
        first_dup_from(ms, i + 1)
    }
}

/// The first member whose tag already occurred earlier, if any.
pub open spec fn first_dup(ms: Seq<SpecField>) -> Option<int> {
    first_dup_from(ms, 0)
}

/// Where a scan found no duplicate before `i` and one at `i`, the first
/// duplicate is at `i`.
pub proof fn lemma_first_dup_some(ms: Seq<SpecField>, s: int, i: int)
    requires
        0 <= s <= i < ms.len(),
        forall|k: int| s <= k < i ==> !dup_before(ms, k),
        dup_before(ms, i),
    ensures
        first_dup_from(ms, s) == Some(i),
    decreases i - s,
{
    if s < i {
        lemma_first_dup_some(ms, s + 1, i);
    }
}

/// Where no member's tag occurred earlier, there is no first duplicate.
pub proof fn lemma_first_dup_none(ms: Seq<SpecField>, s: int)
    requires
        forall|k: int| s <= k < ms.len() ==> !dup_before(ms, k),
    ensures
        first_dup_from(ms, s) is None,
    decreases ms.len() - s,
{
    if 0 <= s < ms.len() {
        lemma_first_dup_none(ms, s + 1);
    }
}

/// Tags are unique exactly when no scan finds a duplicate.
pub proof fn lemma_unique_no_dup(ms: Seq<SpecField>)
    ensures
        tags_unique(ms) <==> first_dup(ms) is None,
{
    if tags_unique(ms) {
        assert forall|k: int| 0 <= k < ms.len() implies !dup_before(ms, k) by {
            if dup_before(ms, k) {
                let j = choose|j: int| 0 <= j < k && spec_tag(ms, j) == spec_tag(ms, k);
            }
        }
        lemma_first_dup_none(ms, 0);
    }
    if first_dup(ms) is None {
        if !tags_unique(ms) {
            let (i, j) = choose|i: int, j: int|
                0 <= i < j < ms.len() && #[trigger] spec_tag(ms, i) == #[trigger] spec_tag(ms, j);
            assert(dup_before(ms, j));
            lemma_first_witness(ms, j);
            let w = first_witness(ms, j);
            lemma_first_dup_some(ms, 0, w);
        }
    }
}

/// The smallest index at or before `i` whose tag occurred earlier.
spec fn first_witness(ms: Seq<SpecField>, i: int) -> int
    decreases i,
{
    if exists|k: int| 0 <= k < i && dup_before(ms, k) {
        first_witness(ms, choose|k: int| 0 <= k < i && dup_before(ms, k))
    } else {
        i
    }
}

proof fn lemma_first_witness(ms: Seq<SpecField>, i: int)
    requires
        0 <= i < ms.len(),
        dup_before(ms, i),
    ensures
        0 <= first_witness(ms, i) <= i,
        dup_before(ms, first_witness(ms, i)),
        forall|k: int| 0 <= k < first_witness(ms, i) ==> !dup_before(ms, k),
    decreases i,
{
    if exists|k: int| 0 <= k < i && dup_before(ms, k) {
        let k = choose|k: int| 0 <= k < i && dup_before(ms, k);
        lemma_first_witness(ms, k);
    }
}

/// The resolved tag table of one type: one tag per member, all labelled by
/// the one method the type resolved to.
#[derive(Debug)]
pub struct TagTable {
    /// The method every member of the type is labelled by.
    pub method: TagMethod,
    /// The resolved tag of each member, in declaration order.
    pub tags: Vec<TagValue>,
}

/// A table faithfully images the resolved tags of a member list.
pub open spec fn table_wf(t: TagTable, ms: Seq<SpecField>) -> bool {
    &&& t.method == spec_method(ms)
    &&& t.tags@.len() == ms.len()
    &&& forall|i: int| 0 <= i < ms.len() ==> view_tag(#[trigger] t.tags@[i]) == spec_tag(ms, i)
}

/// Resolves the tag method and tag table of one member list.
///
/// Scans the members; any explicit rename forces the string method for the
/// whole type.  Two members resolving to the same tag is a setup-time
/// error reporting the earliest member whose tag already occurred.
pub(crate) fn build_table(fields: &Vec<FieldDef>) -> (r: TagTable)
    ensures
        table_wf(r, view_fields(fields@)),
{
    let ghost ms = view_fields(fields@);
    let n = fields.len();
    let mut named = false;
    let mut i: usize = 0;
    while i < n
        invariant
            n == fields@.len(),
            ms == view_fields(fields@),
            0 <= i <= n,
            named == exists|k: int| 0 <= k < i && ms[k].rename is Some,
        decreases n - i,
    {
        if fields[i].rename.is_some() {
            proof {
                assert(ms[i as int].rename is Some);
            }
            named = true;
        }
        i = i + 1;
    }
    let method = if named {
        TagMethod::Named
    } else {
        TagMethod::Default
    };
    proof {
        assert(method == spec_method(ms));
    }
    let mut tags: Vec<TagValue> = Vec::new();
    let mut i: usize = 0;
    while i < n
        invariant
            n == fields@.len(),
            ms == view_fields(fields@),
            method == spec_method(ms),
            0 <= i <= n,
            tags@.len() == i,
            forall|k: int| 0 <= k < i ==> view_tag(#[trigger] tags@[k]) == spec_tag(ms, k),
        decreases n - i,
    {
        let tag = match method {
            TagMethod::Default => TagValue::Index(i),
            TagMethod::Named => match &fields[i].rename {
                Some(r) => TagValue::Name(r.clone()),
                None => TagValue::Name(fields[i].name.clone()),
            },
        };
        proof {
            assert(view_tag(tag) == spec_tag(ms, i as int));
        }
        tags.push(tag);
        i = i + 1;
    }
    TagTable { method, tags }
}

pub fn resolve(owner: &String, fields: &Vec<FieldDef>) -> (r: Result<TagTable, DecodeError>)
    ensures
        (match (r, first_dup(view_fields(fields@))) {
            (Ok(t), None) => table_wf(t, view_fields(fields@)),
            (Err(e), Some(i)) => view_error(e) == (SpecError::DuplicateTag {
                owner: owner@,
                tag: spec_tag(view_fields(fields@), i),
            }),
            _ => false,
        }),
{
    let ghost ms = view_fields(fields@);
    let table = build_table(fields);
    let method = table.method;
    let tags = table.tags;
    let n = fields.len();
    let mut i: usize = 0;
    while i < n
        invariant
            n == fields@.len(),
            ms == view_fields(fields@),
            method == spec_method(ms),
            tags@.len() == n,
            forall|k: int| 0 <= k < n ==> view_tag(#[trigger] tags@[k]) == spec_tag(ms, k),
            0 <= i <= n,
            forall|k: int| 0 <= k < i ==> !dup_before(ms, k),
        decreases n - i,
    {
        let mut j: usize = 0;
        while j < i
            invariant
                n == fields@.len(),
                ms == view_fields(fields@),
                tags@.len() == n,
                forall|k: int| 0 <= k < n ==> view_tag(#[trigger] tags@[k]) == spec_tag(ms, k),
                0 <= j <= i < n,
                forall|k: int| 0 <= k < i ==> !dup_before(ms, k),
                forall|k: int| 0 <= k < j ==> spec_tag(ms, k) != spec_tag(ms, i as int),
            decreases i - j,
        {
            if tags[i].matches(&tags[j]) {
                proof {
                    assert(dup_before(ms, i as int));
                    lemma_first_dup_some(ms, 0, i as int);
                }
                return Err(DecodeError::DuplicateTag {
                    owner: owner.clone(),
                    tag: tags[i].duplicate(),
                });
            }
            j = j + 1;
        }
        proof {
            if dup_before(ms, i as int) {
                let j = choose|j: int| 0 <= j < i && spec_tag(ms, j) == spec_tag(ms, i as int);
            }
            assert(!dup_before(ms, i as int));
        }
        i = i + 1;
    }
    proof {
        lemma_first_dup_none(ms, 0);
    }
    Ok(TagTable { method, tags })
}

/// The description of one struct-like type: a name, a packing strategy, and
/// an ordered member list.
#[derive(Debug)]
pub struct StructDef {
    /// The type's name, carried into diagnostics.
    pub name: String,
    /// How the members are framed on the wire.
    pub packing: Packing,
    /// The members, in declaration order.
    pub fields: Vec<FieldDef>,
}

/// The ghost image of a struct description.
pub struct SpecStruct {
    pub name: Seq<char>,
    pub packing: Packing,
    pub fields: Seq<SpecField>,
}

impl View for StructDef {
    type V = SpecStruct;

    open spec fn view(&self) -> SpecStruct {
        SpecStruct { name: self.name@, packing: self.packing, fields: view_fields(self.fields@) }
    }
}

impl SpecStruct {
    /// Setup-time validity: tagged members carry distinct tags, packed
    /// members carry no defaults, and a transparent wrapper has exactly one
    /// member.
    pub open spec fn wf(self) -> bool {
        match self.packing {
            Packing::Tagged => tags_unique(self.fields),
            Packing::Packed => forall|i: int|
                0 <= i < self.fields.len() ==> (#[trigger] self.fields[i]).default_value is None,
            Packing::Transparent => self.fields.len() == 1,
        }
    }
}

/// The setup-time failure, if any, of a struct-like body.
pub open spec fn spec_body_error(name: Seq<char>, packing: Packing, ms: Seq<SpecField>) -> Option<
    SpecError,
> {
    match packing {
        Packing::Tagged => match first_dup(ms) {
            Some(i) => Some(SpecError::DuplicateTag { owner: name, tag: spec_tag(ms, i) }),
            None => None,
        },
        Packing::Packed => if exists|i: int|
            0 <= i < ms.len() && (#[trigger] ms[i]).default_value is Some {
            Some(SpecError::DefaultInPacked { owner: name })
        } else {
            None
        },
        Packing::Transparent => if ms.len() != 1 {
            Some(SpecError::InvalidTransparent { owner: name })
        } else {
            None
        },
    }
}

/// A struct-like body is well-formed exactly when no setup-time failure is
/// reported for it.
pub proof fn lemma_body_error_wf(name: Seq<char>, packing: Packing, ms: Seq<SpecField>)
    ensures
        (SpecStruct { name, packing, fields: ms }).wf() <==> spec_body_error(
            name,
            packing,
            ms,
        ) is None,
{
    match packing {
        Packing::Tagged => {
            lemma_unique_no_dup(ms);
        },
        Packing::Packed => {},
        Packing::Transparent => {},
    }
}

/// Checks a struct-like body for setup-time faults.
pub(crate) fn check_body(owner: &String, packing: Packing, fields: &Vec<FieldDef>) -> (r: Result<
    (),
    DecodeError,
>)
    ensures
        (match (r, spec_body_error(owner@, packing, view_fields(fields@))) {
            (Ok(()), None) => true,
            (Err(e), Some(se)) => view_error(e) == se,
            _ => false,
        }),
{
    let ghost ms = view_fields(fields@);
    match packing {
        Packing::Tagged => match resolve(owner, fields) {
            Ok(_) => Ok(()),
            Err(e) => Err(e),
        },
        Packing::Packed => {
            let n = fields.len();
            let mut i: usize = 0;
            while i < n
                invariant
                    packing == Packing::Packed,
                    n == fields@.len(),
                    ms == view_fields(fields@),
                    0 <= i <= n,
                    forall|k: int| 0 <= k < i ==> (#[trigger] ms[k]).default_value is None,
                decreases n - i,
            {
                if fields[i].default_value.is_some() {
                    proof {
                        assert(ms[i as int].default_value is Some);
                    }
                    return Err(DecodeError::DefaultInPacked { owner: owner.clone() });
                }
                i = i + 1;
            }
            Ok(())
        },
        Packing::Transparent => {
            if fields.len() != 1 {
                Err(DecodeError::InvalidTransparent { owner: owner.clone() })
            } else {
                Ok(())
            }
        },
    }
}

impl StructDef {
    /// Builds a validated struct description.
    ///
    /// Succeeds exactly when the body passes its packing strategy's
    /// setup-time checks, and then images the declaration unchanged.
    pub fn new(name: String, packing: Packing, fields: Vec<FieldDef>) -> (r: Result<
        StructDef,
        DecodeError,
    >)
        ensures
            (match (r, spec_body_error(name@, packing, view_fields(fields@))) {
                (Ok(d), None) => d@ == (SpecStruct {
                    name: name@,
                    packing,
                    fields: view_fields(fields@),
                }) && d@.wf(),
                (Err(e), Some(se)) => view_error(e) == se,
                _ => false,
            }),
    {
        proof {
            lemma_body_error_wf(name@, packing, view_fields(fields@));
        }
        match check_body(&name, packing, &fields) {
            Ok(()) => Ok(StructDef { name, packing, fields }),
            Err(e) => Err(e),
        }
    }
}

} // verus!
