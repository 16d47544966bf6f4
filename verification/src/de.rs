//! The in-memory value-tree backend: the reference implementation of the
//! capability protocol the decoding core is written against.
//!
//! Each cursor is single-pass: it is advanced by owning calls or `&mut`
//! steps and closed by `end`, which consumes it, so a spent cursor cannot be
//! driven again.  Decoding straight out of a parsed tree has no parsing
//! failure modes, only shape mismatches.

use vstd::prelude::*;

use crate::error::DecodeError;
use crate::error::SpecError;
use crate::error::view_plain_result;
use crate::value::Number;
use crate::value::NumberHint;
use crate::value::SpecValue;
use crate::value::TypeHint;
use crate::value::Value;
use crate::value::lemma_view_pair_seq;
use crate::value::lemma_view_value_seq;
use crate::value::view_pair_seq;
use crate::value::view_value;
use crate::value::view_value_seq;

verus! {

/// Decoder for a single value.
#[derive(Debug)]
pub struct ValueDecoder {
    value: Value,
}

impl View for ValueDecoder {
    type V = SpecValue;

    closed spec fn view(&self) -> SpecValue {
        view_value(self.value)
    }
}

/// The failure reported when `expected` was asked of a value of shape
/// `actual`.
pub open spec fn spec_mismatch(expected: TypeHint, actual: TypeHint) -> SpecError {
    SpecError::TypeMismatch { expected, actual }
}

impl ValueDecoder {
    /// Opens a decoder over one value.
    pub fn new(value: Value) -> (r: Self)
        ensures
            r@ == view_value(value),
    {
        ValueDecoder { value }
    }

    /// Reports the shape of the value without consuming the decoder.
    pub fn type_hint(&self) -> (r: TypeHint)
        ensures
            r == self@.spec_hint(),
    {
        self.value.type_hint()
    }

    /// Surrenders the underlying value unexamined: the decode path of a
    /// dynamically shaped member.
    pub fn decode_any(self) -> (r: Value)
        ensures
            view_value(r) == self@,
    {
        self.value
    }

    /// Decodes the unit value.
    pub fn decode_unit(self) -> (r: Result<(), DecodeError>)
        ensures
            view_plain_result(r) == (match self@ {
                SpecValue::Unit => Ok::<(), SpecError>(()),
                v => Err(spec_mismatch(TypeHint::Unit, v.spec_hint())),
            }),
    {
        match self.value {
            Value::Unit => Ok(()),
            v => Err(DecodeError::TypeMismatch {
                expected: TypeHint::Unit,
                actual: v.type_hint(),
            }),
        }
    }

    /// Decodes a boolean.
    pub fn decode_bool(self) -> (r: Result<bool, DecodeError>)
        ensures
            view_plain_result(r) == (match self@ {
                SpecValue::Bool(b) => Ok::<bool, SpecError>(b),
                v => Err(spec_mismatch(TypeHint::Bool, v.spec_hint())),
            }),
    {
        match self.value {
            Value::Bool(b) => Ok(b),
            v => Err(DecodeError::TypeMismatch {
                expected: TypeHint::Bool,
                actual: v.type_hint(),
            }),
        }
    }

    /// Decodes a character.
    pub fn decode_char(self) -> (r: Result<char, DecodeError>)
        ensures
            view_plain_result(r) == (match self@ {
                SpecValue::Char(c) => Ok::<char, SpecError>(c),
                v => Err(spec_mismatch(TypeHint::Char, v.spec_hint())),
            }),
    {
        match self.value {
            Value::Char(c) => Ok(c),
            v => Err(DecodeError::TypeMismatch {
                expected: TypeHint::Char,
                actual: v.type_hint(),
            }),
        }
    }

    /// Decodes a number of any width, exactly as carried.
    pub fn decode_number(self, expected: NumberHint) -> (r: Result<Number, DecodeError>)
        ensures
            view_plain_result(r) == (match self@ {
                SpecValue::Number(n) => if n.spec_hint() == expected {
                    Ok::<Number, SpecError>(n)
                } else {
                    Err(spec_mismatch(TypeHint::Number(expected), TypeHint::Number(n.spec_hint())))
                },
                v => Err(spec_mismatch(TypeHint::Number(expected), v.spec_hint())),
            }),
    {
        match self.value {
            Value::Number(n) => {
                let h = n.hint();
                if h == expected {
                    Ok(n)
                } else {
                    Err(DecodeError::TypeMismatch {
                        expected: TypeHint::Number(expected),
                        actual: TypeHint::Number(h),
                    })
                }
            },
            v => Err(DecodeError::TypeMismatch {
                expected: TypeHint::Number(expected),
                actual: v.type_hint(),
            }),
        }
    }

    /// Decodes a `u8`, exactly as carried.
    pub fn decode_u8(self) -> (r: Result<u8, DecodeError>)
        ensures
            view_plain_result(r) == (match self@ {
                SpecValue::Number(Number::U8(n)) => Ok::<u8, SpecError>(n),
                SpecValue::Number(n) => Err(
                    spec_mismatch(
                        TypeHint::Number(NumberHint::U8),
                        TypeHint::Number(n.spec_hint()),
                    ),
                ),
                v => Err(spec_mismatch(TypeHint::Number(NumberHint::U8), v.spec_hint())),
            }),
    {
        match self.decode_number(NumberHint::U8) {
            Ok(n) => match n {
                Number::U8(v) => Ok(v),
                _ => unreached(),
            },
            Err(e) => Err(e),
        }
    }

    /// Decodes a `u16`, exactly as carried.
    pub fn decode_u16(self) -> (r: Result<u16, DecodeError>)
        ensures
            view_plain_result(r) == (match self@ {
                SpecValue::Number(Number::U16(n)) => Ok::<u16, SpecError>(n),
                SpecValue::Number(n) => Err(
                    spec_mismatch(
                        TypeHint::Number(NumberHint::U16),
                        TypeHint::Number(n.spec_hint()),
                    ),
                ),
                v => Err(spec_mismatch(TypeHint::Number(NumberHint::U16), v.spec_hint())),
            }),
    {
        match self.decode_number(NumberHint::U16) {
            Ok(n) => match n {
                Number::U16(v) => Ok(v),
                _ => unreached(),
            },
            Err(e) => Err(e),
        }
    }

    /// Decodes a `u32`, exactly as carried.
    pub fn decode_u32(self) -> (r: Result<u32, DecodeError>)
        ensures
            view_plain_result(r) == (match self@ {
                SpecValue::Number(Number::U32(n)) => Ok::<u32, SpecError>(n),
                SpecValue::Number(n) => Err(
                    spec_mismatch(
                        TypeHint::Number(NumberHint::U32),
                        TypeHint::Number(n.spec_hint()),
                    ),
                ),
                v => Err(spec_mismatch(TypeHint::Number(NumberHint::U32), v.spec_hint())),
            }),
    {
        match self.decode_number(NumberHint::U32) {
            Ok(n) => match n {
                Number::U32(v) => Ok(v),
                _ => unreached(),
            },
            Err(e) => Err(e),
        }
    }

    /// Decodes a `u64`, exactly as carried.
    pub fn decode_u64(self) -> (r: Result<u64, DecodeError>)
        ensures
            view_plain_result(r) == (match self@ {
                SpecValue::Number(Number::U64(n)) => Ok::<u64, SpecError>(n),
                SpecValue::Number(n) => Err(
                    spec_mismatch(
                        TypeHint::Number(NumberHint::U64),
                        TypeHint::Number(n.spec_hint()),
                    ),
                ),
                v => Err(spec_mismatch(TypeHint::Number(NumberHint::U64), v.spec_hint())),
            }),
    {
        match self.decode_number(NumberHint::U64) {
            Ok(n) => match n {
                Number::U64(v) => Ok(v),
                _ => unreached(),
            },
            Err(e) => Err(e),
        }
    }

    /// Decodes a `u128`, exactly as carried.
    pub fn decode_u128(self) -> (r: Result<u128, DecodeError>)
        ensures
            view_plain_result(r) == (match self@ {
                SpecValue::Number(Number::U128(n)) => Ok::<u128, SpecError>(n),
                SpecValue::Number(n) => Err(
                    spec_mismatch(
                        TypeHint::Number(NumberHint::U128),
                        TypeHint::Number(n.spec_hint()),
                    ),
                ),
                v => Err(spec_mismatch(TypeHint::Number(NumberHint::U128), v.spec_hint())),
            }),
    {
        match self.decode_number(NumberHint::U128) {
            Ok(n) => match n {
                Number::U128(v) => Ok(v),
                _ => unreached(),
            },
            Err(e) => Err(e),
        }
    }

    /// Decodes a `i8`, exactly as carried.
    pub fn decode_i8(self) -> (r: Result<i8, DecodeError>)
        ensures
            view_plain_result(r) == (match self@ {
                SpecValue::Number(Number::I8(n)) => Ok::<i8, SpecError>(n),
                SpecValue::Number(n) => Err(
                    spec_mismatch(
                        TypeHint::Number(NumberHint::I8),
                        TypeHint::Number(n.spec_hint()),
                    ),
                ),
                v => Err(spec_mismatch(TypeHint::Number(NumberHint::I8), v.spec_hint())),
            }),
    {
        match self.decode_number(NumberHint::I8) {
            Ok(n) => match n {
                Number::I8(v) => Ok(v),
                _ => unreached(),
            },
            Err(e) => Err(e),
        }
    }

    /// Decodes a `i16`, exactly as carried.
    pub fn decode_i16(self) -> (r: Result<i16, DecodeError>)
        ensures
            view_plain_result(r) == (match self@ {
                SpecValue::Number(Number::I16(n)) => Ok::<i16, SpecError>(n),
                SpecValue::Number(n) => Err(
                    spec_mismatch(
                        TypeHint::Number(NumberHint::I16),
                        TypeHint::Number(n.spec_hint()),
                    ),
                ),
                v => Err(spec_mismatch(TypeHint::Number(NumberHint::I16), v.spec_hint())),
            }),
    {
        match self.decode_number(NumberHint::I16) {
            Ok(n) => match n {
                Number::I16(v) => Ok(v),
                _ => unreached(),
            },
            Err(e) => Err(e),
        }
    }

    /// Decodes a `i32`, exactly as carried.
    pub fn decode_i32(self) -> (r: Result<i32, DecodeError>)
        ensures
            view_plain_result(r) == (match self@ {
                SpecValue::Number(Number::I32(n)) => Ok::<i32, SpecError>(n),
                SpecValue::Number(n) => Err(
                    spec_mismatch(
                        TypeHint::Number(NumberHint::I32),
                        TypeHint::Number(n.spec_hint()),
                    ),
                ),
                v => Err(spec_mismatch(TypeHint::Number(NumberHint::I32), v.spec_hint())),
            }),
    {
        match self.decode_number(NumberHint::I32) {
            Ok(n) => match n {
                Number::I32(v) => Ok(v),
                _ => unreached(),
            },
            Err(e) => Err(e),
        }
    }

    /// Decodes a `i64`, exactly as carried.
    pub fn decode_i64(self) -> (r: Result<i64, DecodeError>)
        ensures
            view_plain_result(r) == (match self@ {
                SpecValue::Number(Number::I64(n)) => Ok::<i64, SpecError>(n),
                SpecValue::Number(n) => Err(
                    spec_mismatch(
                        TypeHint::Number(NumberHint::I64),
                        TypeHint::Number(n.spec_hint()),
                    ),
                ),
                v => Err(spec_mismatch(TypeHint::Number(NumberHint::I64), v.spec_hint())),
            }),
    {
        match self.decode_number(NumberHint::I64) {
            Ok(n) => match n {
                Number::I64(v) => Ok(v),
                _ => unreached(),
            },
            Err(e) => Err(e),
        }
    }

    /// Decodes a `i128`, exactly as carried.
    pub fn decode_i128(self) -> (r: Result<i128, DecodeError>)
        ensures
            view_plain_result(r) == (match self@ {
                SpecValue::Number(Number::I128(n)) => Ok::<i128, SpecError>(n),
                SpecValue::Number(n) => Err(
                    spec_mismatch(
                        TypeHint::Number(NumberHint::I128),
                        TypeHint::Number(n.spec_hint()),
                    ),
                ),
                v => Err(spec_mismatch(TypeHint::Number(NumberHint::I128), v.spec_hint())),
            }),
    {
        match self.decode_number(NumberHint::I128) {
            Ok(n) => match n {
                Number::I128(v) => Ok(v),
                _ => unreached(),
            },
            Err(e) => Err(e),
        }
    }

    /// Decodes a `isize`, exactly as carried.
    pub fn decode_isize(self) -> (r: Result<isize, DecodeError>)
        ensures
            view_plain_result(r) == (match self@ {
                SpecValue::Number(Number::Isize(n)) => Ok::<isize, SpecError>(n),
                SpecValue::Number(n) => Err(
                    spec_mismatch(
                        TypeHint::Number(NumberHint::Isize),
                        TypeHint::Number(n.spec_hint()),
                    ),
                ),
                v => Err(spec_mismatch(TypeHint::Number(NumberHint::Isize), v.spec_hint())),
            }),
    {
        match self.decode_number(NumberHint::Isize) {
            Ok(n) => match n {
                Number::Isize(v) => Ok(v),
                _ => unreached(),
            },
            Err(e) => Err(e),
        }
    }

    /// Decodes a `usize`, the width that labels members under the default
    /// tag method.
    pub fn decode_usize(self) -> (r: Result<usize, DecodeError>)
        ensures
            view_plain_result(r) == (match self@ {
                SpecValue::Number(Number::Usize(n)) => Ok::<usize, SpecError>(n),
                SpecValue::Number(n) => Err(
                    spec_mismatch(
                        TypeHint::Number(NumberHint::Usize),
                        TypeHint::Number(n.spec_hint()),
                    ),
                ),
                v => Err(spec_mismatch(TypeHint::Number(NumberHint::Usize), v.spec_hint())),
            }),
    {
        match self.decode_number(NumberHint::Usize) {
            Ok(n) => match n {
                Number::Usize(v) => Ok(v),
                _ => unreached(),
            },
            Err(e) => Err(e),
        }
    }

    /// Decodes a byte string.
    pub fn decode_bytes(self) -> (r: Result<Vec<u8>, DecodeError>)
        ensures
            (match (r, self@) {
                (Ok(b), SpecValue::Bytes(s)) => b@ == s,
                (Err(e), SpecValue::Bytes(_)) => false,
                (Ok(_), _) => false,
                (Err(e), v) => crate::error::view_error(e) == spec_mismatch(
                    TypeHint::Bytes,
                    v.spec_hint(),
                ),
            }),
    {
        match self.value {
            Value::Bytes(b) => Ok(b),
            v => Err(DecodeError::TypeMismatch {
                expected: TypeHint::Bytes,
                actual: v.type_hint(),
            }),
        }
    }

    /// Decodes a fixed-size byte array of length `n`, failing when the
    /// carried byte string has any other length.
    pub fn decode_array(self, n: usize) -> (r: Result<Vec<u8>, DecodeError>)
        ensures
            (match (r, self@) {
                (Ok(b), SpecValue::Bytes(s)) => b@ == s && s.len() == n,
                (Err(e), SpecValue::Bytes(s)) => s.len() != n && crate::error::view_error(e)
                    == SpecError::ArrayOutOfBounds,
                (Ok(_), _) => false,
                (Err(e), v) => crate::error::view_error(e) == spec_mismatch(
                    TypeHint::Bytes,
                    v.spec_hint(),
                ),
            }),
    {
        match self.value {
            Value::Bytes(b) => {
                if b.len() == n {
                    Ok(b)
                } else {
                    Err(DecodeError::ArrayOutOfBounds)
                }
            },
            v => Err(DecodeError::TypeMismatch {
                expected: TypeHint::Bytes,
                actual: v.type_hint(),
            }),
        }
    }

    /// Decodes a text string.
    pub fn decode_string(self) -> (r: Result<String, DecodeError>)
        ensures
            (match (r, self@) {
                (Ok(s), SpecValue::Text(t)) => s@ == t,
                (Err(e), SpecValue::Text(_)) => false,
                (Ok(_), _) => false,
                (Err(e), v) => crate::error::view_error(e) == spec_mismatch(
                    TypeHint::Text,
                    v.spec_hint(),
                ),
            }),
    {
        match self.value {
            Value::Text(s) => Ok(s),
            v => Err(DecodeError::TypeMismatch {
                expected: TypeHint::Text,
                actual: v.type_hint(),
            }),
        }
    }

    /// Decodes an optional value: the unit value stands for absence, and any
    /// other value is decoded in place.
    pub fn decode_option(self) -> (r: Option<ValueDecoder>)
        ensures
            (match r {
                None => self@ == SpecValue::Unit,
                Some(d) => self@ != SpecValue::Unit && d@ == self@,
            }),
    {
        match self.value {
            Value::Unit => None,
            v => Some(ValueDecoder::new(v)),
        }
    }

    /// Opens a cursor over a packed (positional) body.
    pub fn decode_pack(self) -> (r: Result<IterValueDecoder, DecodeError>)
        ensures
            (match (r, self@) {
                (Ok(c), SpecValue::Sequence(items)) => c@ == items,
                (Err(e), SpecValue::Sequence(_)) => false,
                (Ok(_), _) => false,
                (Err(e), v) => crate::error::view_error(e) == spec_mismatch(
                    TypeHint::Sequence,
                    v.spec_hint(),
                ),
            }),
    {
        match self.value {
            Value::Sequence(items) => Ok(IterValueDecoder::new(items)),
            v => Err(DecodeError::TypeMismatch {
                expected: TypeHint::Sequence,
                actual: v.type_hint(),
            }),
        }
    }

    /// Opens a cursor over a sequence of values.
    pub fn decode_sequence(self) -> (r: Result<IterValueDecoder, DecodeError>)
        ensures
            (match (r, self@) {
                (Ok(c), SpecValue::Sequence(items)) => c@ == items,
                (Err(e), SpecValue::Sequence(_)) => false,
                (Ok(_), _) => false,
                (Err(e), v) => crate::error::view_error(e) == spec_mismatch(
                    TypeHint::Sequence,
                    v.spec_hint(),
                ),
            }),
    {
        self.decode_pack()
    }

    /// Opens a cursor over the key/value pairs of a self-describing struct
    /// or map body.
    pub fn decode_struct(self) -> (r: Result<IterValuePairsDecoder, DecodeError>)
        ensures
            (match (r, self@) {
                (Ok(c), SpecValue::Mapping(pairs)) => c@ == pairs,
                (Err(e), SpecValue::Mapping(_)) => false,
                (Ok(_), _) => false,
                (Err(e), v) => crate::error::view_error(e) == spec_mismatch(
                    TypeHint::Mapping,
                    v.spec_hint(),
                ),
            }),
    {
        match self.value {
            Value::Mapping(pairs) => Ok(IterValuePairsDecoder::new(pairs)),
            v => Err(DecodeError::TypeMismatch {
                expected: TypeHint::Mapping,
                actual: v.type_hint(),
            }),
        }
    }

    /// Opens a cursor over a variant selector and its body.
    pub fn decode_variant(self) -> (r: Result<IterValueVariantDecoder, DecodeError>)
        ensures
            (match (r, self@) {
                (Ok(c), SpecValue::Variant(t, b)) => c@ == (*t, *b),
                (Err(e), SpecValue::Variant(_, _)) => false,
                (Ok(_), _) => false,
                (Err(e), v) => crate::error::view_error(e) == spec_mismatch(
                    TypeHint::Variant,
                    v.spec_hint(),
                ),
            }),
    {
        match self.value {
            Value::Variant(pair) => Ok(IterValueVariantDecoder::new(*pair)),
            v => Err(DecodeError::TypeMismatch {
                expected: TypeHint::Variant,
                actual: v.type_hint(),
            }),
        }
    }
}

/// A single-pass cursor over a sequence of values, serving both packed and
/// plain sequence iteration.
#[derive(Debug)]
pub struct IterValueDecoder {
    remaining: Vec<Value>,
}

impl View for IterValueDecoder {
    type V = Seq<SpecValue>;

    closed spec fn view(&self) -> Seq<SpecValue> {
        view_value_seq(self.remaining@)
    }
}

impl IterValueDecoder {
    /// Opens a cursor over the given values.
    pub fn new(values: Vec<Value>) -> (r: Self)
        ensures
            r@ == view_value_seq(values@),
    {
        IterValueDecoder { remaining: values }
    }

    /// Reports how many values are left.
    pub fn size_hint(&self) -> (r: usize)
        ensures
            r == self@.len(),
    {
        proof {
            lemma_view_value_seq(self.remaining@);
        }
        self.remaining.len()
    }

    /// Takes the next value of a plain sequence; `None` when exhausted.
    pub fn next(&mut self) -> (r: Option<ValueDecoder>)
        ensures
            (match r {
                None => old(self)@.len() == 0 && final(self)@ == old(self)@,
                Some(d) => old(self)@.len() > 0 && d@ == old(self)@[0] && final(self)@ == old(
                    self,
                )@.drop_first(),
            }),
    {
        proof {
            lemma_view_value_seq(self.remaining@);
        }
        if self.remaining.len() == 0 {
            None
        } else {
            let v = self.remaining.remove(0);
            proof {
                lemma_view_value_seq(old(self).remaining@);
                lemma_view_value_seq(self.remaining@);
                assert(view_value_seq(self.remaining@) =~= view_value_seq(
                    old(self).remaining@,
                ).drop_first());
            }
            Some(ValueDecoder::new(v))
        }
    }

    /// Takes the next value of a packed body, which owes one value per
    /// member; an exhausted cursor is a decode failure.
    pub fn next_value(&mut self) -> (r: Result<ValueDecoder, DecodeError>)
        ensures
            (match r {
                Ok(d) => old(self)@.len() > 0 && d@ == old(self)@[0] && final(self)@ == old(
                    self,
                )@.drop_first(),
                Err(e) => old(self)@.len() == 0 && final(self)@ == old(self)@
                    && crate::error::view_error(e) == SpecError::ExpectedPackValue,
            }),
    {
        match self.next() {
            Some(d) => Ok(d),
            None => Err(DecodeError::ExpectedPackValue),
        }
    }

    /// Closes the cursor.  Values left unread are tolerated: whether a
    /// packed body may carry more slots than members is format-defined.
    pub fn end(self) -> (r: Result<(), DecodeError>)
        ensures
            r == Ok::<(), DecodeError>(()),
    {
        Ok(())
    }
}

/// A single-pass cursor over the key/value pairs of a struct or map body.
#[derive(Debug)]
pub struct IterValuePairsDecoder {
    remaining: Vec<(Value, Value)>,
}

impl View for IterValuePairsDecoder {
    type V = Seq<(SpecValue, SpecValue)>;

    closed spec fn view(&self) -> Seq<(SpecValue, SpecValue)> {
        view_pair_seq(self.remaining@)
    }
}

impl IterValuePairsDecoder {
    /// Opens a cursor over the given pairs.
    pub fn new(values: Vec<(Value, Value)>) -> (r: Self)
        ensures
            r@ == view_pair_seq(values@),
    {
        IterValuePairsDecoder { remaining: values }
    }

    /// Reports how many pairs are left.
    pub fn size_hint(&self) -> (r: usize)
        ensures
            r == self@.len(),
    {
        proof {
            lemma_view_pair_seq(self.remaining@);
        }
        self.remaining.len()
    }

    /// Takes the next pair; `None` when the body is exhausted.
    pub fn next(&mut self) -> (r: Option<IterValuePairDecoder>)
        ensures
            (match r {
                None => old(self)@.len() == 0 && final(self)@ == old(self)@,
                Some(p) => old(self)@.len() > 0 && p@ == old(self)@[0] && final(self)@ == old(
                    self,
                )@.drop_first(),
            }),
    {
        proof {
            lemma_view_pair_seq(self.remaining@);
        }
        if self.remaining.len() == 0 {
            None
        } else {
            let p = self.remaining.remove(0);
            proof {
                lemma_view_pair_seq(old(self).remaining@);
                lemma_view_pair_seq(self.remaining@);
                assert(view_pair_seq(self.remaining@) =~= view_pair_seq(
                    old(self).remaining@,
                ).drop_first());
            }
            Some(IterValuePairDecoder::new(p))
        }
    }

    /// Closes the pair sequence.  The backend detects the terminating token;
    /// over a parsed tree there is nothing left to detect.
    pub fn end(self) -> (r: Result<(), DecodeError>)
        ensures
            r == Ok::<(), DecodeError>(()),
    {
        Ok(())
    }
}

/// One key/value pair: the key may be read repeatedly, the value is
/// one-shot.
#[derive(Debug)]
pub struct IterValuePairDecoder {
    pair: (Value, Value),
}

impl View for IterValuePairDecoder {
    type V = (SpecValue, SpecValue);

    closed spec fn view(&self) -> (SpecValue, SpecValue) {
        (view_value(self.pair.0), view_value(self.pair.1))
    }
}

impl IterValuePairDecoder {
    /// Opens a cursor over one pair.
    pub fn new(pair: (Value, Value)) -> (r: Self)
        ensures
            r@ == (view_value(pair.0), view_value(pair.1)),
    {
        IterValuePairDecoder { pair }
    }

    /// Opens a decoder over the pair's key, without consuming the pair.
    pub fn first(&self) -> (r: ValueDecoder)
        ensures
            r@ == self@.0,
    {
        ValueDecoder::new(self.pair.0.duplicate())
    }

    /// Consumes the pair and opens a decoder over its value.
    pub fn second(self) -> (r: ValueDecoder)
        ensures
            r@ == self@.1,
    {
        ValueDecoder::new(self.pair.1)
    }

    /// Discards the pair's value.  Over a parsed tree a structural skip
    /// always succeeds.
    pub fn skip_second(self) -> (r: Result<bool, DecodeError>)
        ensures
            r == Ok::<bool, DecodeError>(true),
    {
        Ok(true)
    }
}

/// A single-pass cursor over a variant selector and the variant's body.
#[derive(Debug)]
pub struct IterValueVariantDecoder {
    pair: (Value, Value),
}

impl View for IterValueVariantDecoder {
    type V = (SpecValue, SpecValue);

    closed spec fn view(&self) -> (SpecValue, SpecValue) {
        (view_value(self.pair.0), view_value(self.pair.1))
    }
}

impl IterValueVariantDecoder {
    /// Opens a cursor over one selector/body pair.
    pub fn new(pair: (Value, Value)) -> (r: Self)
        ensures
            r@ == (view_value(pair.0), view_value(pair.1)),
    {
        IterValueVariantDecoder { pair }
    }

    /// Opens a decoder over the variant's selector tag.
    pub fn tag(&self) -> (r: ValueDecoder)
        ensures
            r@ == self@.0,
    {
        ValueDecoder::new(self.pair.0.duplicate())
    }

    /// Opens a decoder over the variant's body.
    pub fn variant(&self) -> (r: ValueDecoder)
        ensures
            r@ == self@.1,
    {
        ValueDecoder::new(self.pair.1.duplicate())
    }

    /// Discards the variant's body.  Over a parsed tree a structural skip
    /// always succeeds.
    pub fn skip_variant(&mut self) -> (r: Result<bool, DecodeError>)
        ensures
            r == Ok::<bool, DecodeError>(true),
            final(self)@ == old(self)@,
    {
        Ok(true)
    }

    /// Closes the variant cursor: the correct final step of every variant
    /// decode path, the fallback path included.
    pub fn end(self) -> (r: Result<(), DecodeError>)
        ensures
            r == Ok::<(), DecodeError>(()),
    {
        Ok(())
    }
}

} // verus!
