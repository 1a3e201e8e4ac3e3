//! Values: the scalars that arguments and properties hold.
use vstd::prelude::*;
use vstd::std_specs::cmp::PartialEqSpecImpl;

verus! {

/// The numeric base in which an integer was written.
#[derive(Clone, Copy, Debug, PartialEq, Eq, Structural)]
pub enum Base {
    Two,
    Eight,
    Ten,
    Sixteen,
}

impl Base {
    /// The base as a number.
    pub open spec fn spec_radix(self) -> int {
        match self {
            Base::Two => 2,
            Base::Eight => 8,
            Base::Ten => 10,
            Base::Sixteen => 16,
        }
    }

    /// The base as a number: 2, 8, 10 or 16.
    pub fn radix(&self) -> (radix: u32)
        ensures
            radix == self.spec_radix(),
    {
        match self {
            Base::Two => 2,
            Base::Eight => 8,
            Base::Ten => 10,
            Base::Sixteen => 16,
        }
    }
}

/// How a string was written in the source text.
#[derive(Clone, Copy, Debug, PartialEq, Eq, Structural)]
pub enum StringKind {
    /// Between quotes, with escapes resolved.
    Quoted,
    /// As a raw string, copied as it stands.
    Raw,
}

/// A scalar value.
///
/// The base of an integer and the kind of a string record how the value was
/// written; they are no part of the value as data. A float is held as its
/// IEEE 754 bit pattern.
#[derive(Clone, Debug)]
pub enum Value {
    Null,
    Bool(bool),
    Int(i64, Base),
    Float(u64),
    String(String, StringKind),
}

/// The mathematical value of a [`Value`].
pub enum ValueView {
    Null,
    Bool(bool),
    Int(i64, Base),
    Float(u64),
    String(Seq<char>, StringKind),
}

/// Which variant a value is, with the way it was written.
#[derive(Clone, Copy, Debug, PartialEq, Eq, Structural)]
pub enum KdlValueWhich {
    Null,
    RawString,
    String,
    Base2,
    Base8,
    Base10,
    Base16,
    Base10Float,
    Bool,
}

impl KdlValueWhich {
    /// The number that stands for this variant: the high four bits give the
    /// family (strings `0x10`, integers `0x20`, floats `0x40`, booleans
    /// `0x80`, null `0x00`), the low four bits the member.
    pub open spec fn spec_code(self) -> int {
        match self {
            KdlValueWhich::Null => 0x00,
            KdlValueWhich::RawString => 0x10,
            KdlValueWhich::String => 0x11,
            KdlValueWhich::Base2 => 0x20,
            KdlValueWhich::Base8 => 0x21,
            KdlValueWhich::Base10 => 0x22,
            KdlValueWhich::Base16 => 0x23,
            KdlValueWhich::Base10Float => 0x40,
            KdlValueWhich::Bool => 0x80,
        }
    }

    /// The number that stands for this variant.
    pub fn code(&self) -> (code: u8)
        ensures
            code == self.spec_code(),
    {
        match self {
            KdlValueWhich::Null => 0x00,
            KdlValueWhich::RawString => 0x10,
            KdlValueWhich::String => 0x11,
            KdlValueWhich::Base2 => 0x20,
            KdlValueWhich::Base8 => 0x21,
            KdlValueWhich::Base10 => 0x22,
            KdlValueWhich::Base16 => 0x23,
            KdlValueWhich::Base10Float => 0x40,
            KdlValueWhich::Bool => 0x80,
        }
    }
}

impl ValueView {
    /// The text of a string value, quoted or raw.
    pub open spec fn as_text(self) -> Option<Seq<char>> {
        match self {
            ValueView::String(s, _) => Some(s),
            _ => None,
        }
    }

    /// The number of an integer value, whatever its base.
    pub open spec fn as_int(self) -> Option<i64> {
        match self {
            ValueView::Int(i, _) => Some(i),
            _ => None,
        }
    }

    /// The bit pattern of a float value.
    pub open spec fn as_float_bits(self) -> Option<u64> {
        match self {
            ValueView::Float(bits) => Some(bits),
            _ => None,
        }
    }

    /// The truth value of a boolean value.
    pub open spec fn as_bool(self) -> Option<bool> {
        match self {
            ValueView::Bool(b) => Some(b),
            _ => None,
        }
    }

    /// The variant of the value, with the way it was written.
    pub open spec fn which(self) -> KdlValueWhich {
        match self {
            ValueView::Null => KdlValueWhich::Null,
            ValueView::Bool(_) => KdlValueWhich::Bool,
            ValueView::Int(_, Base::Two) => KdlValueWhich::Base2,
            ValueView::Int(_, Base::Eight) => KdlValueWhich::Base8,
            ValueView::Int(_, Base::Ten) => KdlValueWhich::Base10,
            ValueView::Int(_, Base::Sixteen) => KdlValueWhich::Base16,
            ValueView::Float(_) => KdlValueWhich::Base10Float,
            ValueView::String(_, StringKind::Quoted) => KdlValueWhich::String,
            ValueView::String(_, StringKind::Raw) => KdlValueWhich::RawString,
        }
    }

    /// Equality as data: the same variant with the same payload. The base of
    /// an integer and the kind of a string are not compared.
    pub open spec fn same_data(self, other: ValueView) -> bool {
        match (self, other) {
            (ValueView::Null, ValueView::Null) => true,
            (ValueView::Bool(a), ValueView::Bool(b)) => a == b,
            (ValueView::Int(a, _), ValueView::Int(b, _)) => a == b,
            (ValueView::Float(a), ValueView::Float(b)) => a == b,
            (ValueView::String(a, _), ValueView::String(b, _)) => a == b,
            _ => false,
        }
    }
}

impl View for Value {
    type V = ValueView;

    open spec fn view(&self) -> ValueView {
        match *self {
            Value::Null => ValueView::Null,
            Value::Bool(b) => ValueView::Bool(b),
            Value::Int(i, base) => ValueView::Int(i, base),
            Value::Float(bits) => ValueView::Float(bits),
            Value::String(s, kind) => ValueView::String(s@, kind),
        }
    }
}

impl PartialEq for Value {
    /// Values are equal when they are the same data, however they were written.
    fn eq(&self, other: &Value) -> (same: bool) {
        match (self, other) {
            (Value::Null, Value::Null) => true,
            (Value::Bool(a), Value::Bool(b)) => *a == *b,
            (Value::Int(a, _), Value::Int(b, _)) => *a == *b,
            (Value::Float(a), Value::Float(b)) => *a == *b,
            (Value::String(a, _), Value::String(b, _)) => *a == *b,
            _ => false,
        }
    }
}

impl PartialEqSpecImpl for Value {
    open spec fn obeys_eq_spec() -> bool {
        true
    }

    open spec fn eq_spec(&self, other: &Value) -> bool {
        self@.same_data(other@)
    }
}

/// Hands out the text of a string value, quoted or raw.
///
/// Returns whether `value` is a string; if it is not, `out_str` is set to
/// the empty text.
pub fn KDL_Value_string<'a>(value: &'a Value, out_str: &mut &'a str) -> (ok: bool)
    ensures
        ok == value@.as_text().is_some(),
        final(out_str)@ == (match value@.as_text() {
            Some(s) => s,
            None => Seq::<char>::empty(),
        }),
{
    match value {
        Value::String(s, _) => {
            *out_str = s.as_str();
            true
        },
        _ => {
            *out_str = "";
            proof {
                reveal_strlit("");
            }
            false
        },
    }
}

/// Hands out the number of an integer value, whatever its base.
///
/// Returns whether `value` is an integer; if it is not, `out_int` is set to 0.
pub fn KDL_Value_int(value: &Value, out_int: &mut i64) -> (ok: bool)
    ensures
        ok == value@.as_int().is_some(),
        *final(out_int) == (match value@.as_int() {
            Some(i) => i,
            None => 0i64,
        }),
{
    match value {
        Value::Int(i, _) => {
            *out_int = *i;
            true
        },
        _ => {
            *out_int = 0;
            false
        },
    }
}

/// Hands out the bit pattern of a float value.
///
/// Returns whether `value` is a float; if it is not, `out_bits` is set to 0,
/// the bit pattern of positive zero.
pub fn KDL_Value_float(value: &Value, out_bits: &mut u64) -> (ok: bool)
    ensures
        ok == value@.as_float_bits().is_some(),
        *final(out_bits) == (match value@.as_float_bits() {
            Some(bits) => bits,
            None => 0u64,
        }),
{
    match value {
        Value::Float(bits) => {
            *out_bits = *bits;
            true
        },
        _ => {
            *out_bits = 0;
            false
        },
    }
}

/// Hands out the truth value of a boolean value.
///
/// Returns whether `value` is a boolean; if it is not, `out_bool` is set to
/// `false`.
pub fn KDL_Value_bool(value: &Value, out_bool: &mut bool) -> (ok: bool)
    ensures
        ok == value@.as_bool().is_some(),
        *final(out_bool) == (match value@.as_bool() {
            Some(b) => b,
            None => false,
        }),
{
    match value {
        Value::Bool(b) => {
            *out_bool = *b;
            true
        },
        _ => {
            *out_bool = false;
            false
        },
    }
}

/// Whether `value` is null.
pub fn KDL_Value_null(value: &Value) -> (null: bool)
    ensures
        null == (value@ is Null),
{
    match value {
        Value::Null => true,
        _ => false,
    }
}

/// The variant of `value`, with the way it was written.
pub fn KDL_Value_which(value: &Value) -> (which: KdlValueWhich)
    ensures
        which == value@.which(),
{
    match value {
        Value::String(_, StringKind::Raw) => KdlValueWhich::RawString,
        Value::String(_, StringKind::Quoted) => KdlValueWhich::String,
        Value::Int(_, Base::Two) => KdlValueWhich::Base2,
        Value::Int(_, Base::Eight) => KdlValueWhich::Base8,
        Value::Int(_, Base::Ten) => KdlValueWhich::Base10,
        Value::Int(_, Base::Sixteen) => KdlValueWhich::Base16,
        Value::Float(_) => KdlValueWhich::Base10Float,
        Value::Bool(_) => KdlValueWhich::Bool,
        Value::Null => KdlValueWhich::Null,
    }
}

} // verus!
