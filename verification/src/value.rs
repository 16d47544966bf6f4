//! The in-memory value tree and its mathematical model.
//!
//! A `Value` is a fully parsed structured document: the reference backend
//! decodes straight out of this tree, so it has no parsing failure modes,
//! only shape mismatches.  `SpecValue` is the ghost image of a tree, with
//! sequences in place of vectors and strings; every decoding contract in the
//! crate is stated over it.

use vstd::prelude::*;

verus! {

/// A number together with its exact width and signedness.
///
/// Scalar decoding is exact: a value carrying a `U16` only decodes as a
/// `u16`, never as any other width.
#[derive(Clone, Copy, PartialEq, Eq, Structural, Debug)]
pub enum Number {
    U8(u8),
    U16(u16),
    U32(u32),
    U64(u64),
    U128(u128),
    I8(i8),
    I16(i16),
    I32(i32),
    I64(i64),
    I128(i128),
    Usize(usize),
    Isize(isize),
}

/// The width and signedness a numeric decode expected or found.
#[derive(Clone, Copy, PartialEq, Eq, Structural, Debug)]
pub enum NumberHint {
    U8,
    U16,
    U32,
    U64,
    U128,
    I8,
    I16,
    I32,
    I64,
    I128,
    Usize,
    Isize,
}

/// The shape of a value, reported in mismatch diagnostics.
#[derive(Clone, Copy, PartialEq, Eq, Structural, Debug)]
pub enum TypeHint {
    Unit,
    Bool,
    Char,
    Number(NumberHint),
    Bytes,
    Text,
    Sequence,
    Mapping,
    Variant,
}

/// An in-memory structured value.
#[derive(Debug, PartialEq, Eq)]
pub enum Value {
    /// The empty value, also standing for an absent optional value.
    Unit,
    /// A boolean.
    Bool(bool),
    /// A character.
    Char(char),
    /// A number of a definite width.
    Number(Number),
    /// An opaque byte string.
    Bytes(Vec<u8>),
    /// A text string.
    Text(String),
    /// An ordered sequence of values, also used for packed bodies.
    Sequence(Vec<Value>),
    /// An ordered list of key/value pairs; a self-describing struct body.
    Mapping(Vec<(Value, Value)>),
    /// A variant selector paired with the variant's body.
    Variant(Box<(Value, Value)>),
}

/// The ghost image of a value tree.
pub enum SpecValue {
    Unit,
    Bool(bool),
    Char(char),
    Number(Number),
    Bytes(Seq<u8>),
    Text(Seq<char>),
    Sequence(Seq<SpecValue>),
    Mapping(Seq<(SpecValue, SpecValue)>),
    Variant(Box<SpecValue>, Box<SpecValue>),
}

/// The ghost image of one value tree.
pub open spec fn view_value(v: Value) -> SpecValue
    decreases v,
{
    match v {
        Value::Unit => SpecValue::Unit,
        Value::Bool(b) => SpecValue::Bool(b),
        Value::Char(c) => SpecValue::Char(c),
        Value::Number(n) => SpecValue::Number(n),
        Value::Bytes(b) => SpecValue::Bytes(b@),
        Value::Text(s) => SpecValue::Text(s@),
        Value::Sequence(items) => SpecValue::Sequence(view_value_seq(items@)),
        Value::Mapping(pairs) => SpecValue::Mapping(view_pair_seq(pairs@)),
        Value::Variant(pair) => SpecValue::Variant(
            Box::new(view_value(pair.0)),
            Box::new(view_value(pair.1)),
        ),
    }
}

/// The ghost image of a sequence of value trees, element by element.
pub open spec fn view_value_seq(items: Seq<Value>) -> Seq<SpecValue>
    decreases items,
{
    if items.len() == 0 {
        Seq::empty()
    } else {
        seq![view_value(items[0])] + view_value_seq(items.drop_first())
    }
}

/// The ghost image of a sequence of key/value pairs, element by element.
pub open spec fn view_pair_seq(pairs: Seq<(Value, Value)>) -> Seq<(SpecValue, SpecValue)>
    decreases pairs,
{
    if pairs.len() == 0 {
        Seq::empty()
    } else {
        seq![(view_value(pairs[0].0), view_value(pairs[0].1))] + view_pair_seq(pairs.drop_first())
    }
}

impl DeepView for Value {
    type V = SpecValue;

    open spec fn deep_view(&self) -> SpecValue {
        view_value(*self)
    }
}

/// The image of a sequence of trees is the sequence of their images.
pub proof fn lemma_view_value_seq(s: Seq<Value>)
    ensures
        view_value_seq(s).len() == s.len(),
        forall|i: int| 0 <= i < s.len() ==> #[trigger] view_value_seq(s)[i] == view_value(s[i]),
    decreases s,
{
    if s.len() != 0 {
        lemma_view_value_seq(s.drop_first());
    }
}

/// The image of a sequence of pairs is the sequence of their images.
pub proof fn lemma_view_pair_seq(s: Seq<(Value, Value)>)
    ensures
        view_pair_seq(s).len() == s.len(),
        forall|i: int| 0 <= i < s.len() ==> #[trigger] view_pair_seq(s)[i] == (
            view_value(s[i].0),
            view_value(s[i].1),
        ),
    decreases s,
{
    if s.len() != 0 {
        lemma_view_pair_seq(s.drop_first());
    }
}

impl Number {
    /// The hint naming this number's width.
    pub open spec fn spec_hint(self) -> NumberHint {
        match self {
            Number::U8(_) => NumberHint::U8,
            Number::U16(_) => NumberHint::U16,
            Number::U32(_) => NumberHint::U32,
            Number::U64(_) => NumberHint::U64,
            Number::U128(_) => NumberHint::U128,
            Number::I8(_) => NumberHint::I8,
            Number::I16(_) => NumberHint::I16,
            Number::I32(_) => NumberHint::I32,
            Number::I64(_) => NumberHint::I64,
            Number::I128(_) => NumberHint::I128,
            Number::Usize(_) => NumberHint::Usize,
            Number::Isize(_) => NumberHint::Isize,
        }
    }

    /// Reports this number's width.
    pub fn hint(&self) -> (r: NumberHint)
        ensures
            r == self.spec_hint(),
    {
        match self {
            Number::U8(_) => NumberHint::U8,
            Number::U16(_) => NumberHint::U16,
            Number::U32(_) => NumberHint::U32,
            Number::U64(_) => NumberHint::U64,
            Number::U128(_) => NumberHint::U128,
            Number::I8(_) => NumberHint::I8,
            Number::I16(_) => NumberHint::I16,
            Number::I32(_) => NumberHint::I32,
            Number::I64(_) => NumberHint::I64,
            Number::I128(_) => NumberHint::I128,
            Number::Usize(_) => NumberHint::Usize,
            Number::Isize(_) => NumberHint::Isize,
        }
    }
}

impl SpecValue {
    /// The hint naming this value's shape.
    pub open spec fn spec_hint(self) -> TypeHint {
        match self {
            SpecValue::Unit => TypeHint::Unit,
            SpecValue::Bool(_) => TypeHint::Bool,
            SpecValue::Char(_) => TypeHint::Char,
            SpecValue::Number(n) => TypeHint::Number(n.spec_hint()),
            SpecValue::Bytes(_) => TypeHint::Bytes,
            SpecValue::Text(_) => TypeHint::Text,
            SpecValue::Sequence(_) => TypeHint::Sequence,
            SpecValue::Mapping(_) => TypeHint::Mapping,
            SpecValue::Variant(_, _) => TypeHint::Variant,
        }
    }
}

impl Value {
    /// Builds an independent copy with the same ghost image.
    #[verifier::loop_isolation(false)]
    pub fn duplicate(&self) -> (r: Value)
        ensures
            view_value(r) == view_value(*self),
        decreases *self,
    {
        match self {
            Value::Unit => Value::Unit,
            Value::Bool(b) => Value::Bool(*b),
            Value::Char(c) => Value::Char(*c),
            Value::Number(n) => Value::Number(*n),
            Value::Bytes(b) => {
                let mut out: Vec<u8> = Vec::new();
                let mut i: usize = 0;
                while i < b.len()
                    invariant
                        i <= b.len(),
                        out@ == b@.subrange(0, i as int),
                    decreases b.len() - i,
                {
                    out.push(b[i]);
                    proof {
                        assert(out@ =~= b@.subrange(0, i + 1));
                    }
                    i = i + 1;
                }
                proof {
                    assert(out@ =~= b@);
                }
                Value::Bytes(out)
            },
            Value::Text(s) => Value::Text(s.clone()),
            Value::Sequence(items) => {
                let mut out: Vec<Value> = Vec::new();
                let mut i: usize = 0;
                while i < items.len()
                    invariant
                        i <= items.len(),
                        out@.len() == i,
                        forall|j: int| 0 <= j < i ==> view_value(#[trigger] out@[j]) == view_value(
                            items@[j],
                        ),
                    decreases items.len() - i,
                {
                    out.push(items[i].duplicate());
                    i = i + 1;
                }
                proof {
                    lemma_view_value_seq(out@);
                    lemma_view_value_seq(items@);
                    assert(view_value_seq(out@) =~= view_value_seq(items@));
                }
                Value::Sequence(out)
            },
            Value::Mapping(pairs) => {
                let mut out: Vec<(Value, Value)> = Vec::new();
                let mut i: usize = 0;
                while i < pairs.len()
                    invariant
                        i <= pairs.len(),
                        out@.len() == i,
                        forall|j: int| 0 <= j < i ==> view_value(#[trigger] out@[j].0) == view_value(
                            pairs@[j].0,
                        ) && view_value(out@[j].1) == view_value(pairs@[j].1),
                    decreases pairs.len() - i,
                {
                    let k = pairs[i].0.duplicate();
                    let v = pairs[i].1.duplicate();
                    out.push((k, v));
                    i = i + 1;
                }
                proof {
                    lemma_view_pair_seq(out@);
                    lemma_view_pair_seq(pairs@);
                    assert(view_pair_seq(out@) =~= view_pair_seq(pairs@));
                }
                Value::Mapping(out)
            },
            Value::Variant(pair) => {
                let tag = pair.0.duplicate();
                let body = pair.1.duplicate();
                Value::Variant(Box::new((tag, body)))
            },
        }
    }

    /// Reports the shape of this value without consuming it.
    pub fn type_hint(&self) -> (r: TypeHint)
        ensures
            r == self.deep_view().spec_hint(),
    {
        match self {
            Value::Unit => TypeHint::Unit,
            Value::Bool(_) => TypeHint::Bool,
            Value::Char(_) => TypeHint::Char,
            Value::Number(n) => TypeHint::Number(n.hint()),
            Value::Bytes(_) => TypeHint::Bytes,
            Value::Text(_) => TypeHint::Text,
            Value::Sequence(_) => TypeHint::Sequence,
            Value::Mapping(_) => TypeHint::Mapping,
            Value::Variant(_) => TypeHint::Variant,
        }
    }
}

} // verus!
