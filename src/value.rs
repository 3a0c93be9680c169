//! The typed value of one decoded syscall parameter.
use vstd::prelude::*;

verus! {

/// Holds the content of a syscall parameter's payload: a fixed-width
/// integer, a string, or nothing for the types that are not decoded.
#[derive(Debug, Clone)]
pub enum Value {
    String(String),
    Int8(i8),
    Int16(i16),
    Int32(i32),
    Int64(i64),
    UInt8(u8),
    UInt16(u16),
    UInt32(u32),
    UInt64(u64),
    Null,
}

impl PartialEq for Value {
    fn eq(&self, o: &Value) -> (r: bool) {
        match (self, o) {
            (Value::String(a), Value::String(b)) => a.eq(b),
            (Value::Int8(a), Value::Int8(b)) => *a == *b,
            (Value::Int16(a), Value::Int16(b)) => *a == *b,
            (Value::Int32(a), Value::Int32(b)) => *a == *b,
            (Value::Int64(a), Value::Int64(b)) => *a == *b,
            (Value::UInt8(a), Value::UInt8(b)) => *a == *b,
            (Value::UInt16(a), Value::UInt16(b)) => *a == *b,
            (Value::UInt32(a), Value::UInt32(b)) => *a == *b,
            (Value::UInt64(a), Value::UInt64(b)) => *a == *b,
            (Value::Null, Value::Null) => true,
            _ => false,
        }
    }
}

impl vstd::std_specs::cmp::PartialEqSpecImpl for Value {
    open spec fn obeys_eq_spec() -> bool {
        true
    }

    open spec fn eq_spec(&self, o: &Value) -> bool {
        self.view() == o.view()
    }
}

/// The mathematical form of a value: strings are compared by their characters.
pub enum ValueView {
    Str(Seq<char>),
    Int8(i8),
    Int16(i16),
    Int32(i32),
    Int64(i64),
    UInt8(u8),
    UInt16(u16),
    UInt32(u32),
    UInt64(u64),
    Null,
}

impl View for Value {
    type V = ValueView;

    open spec fn view(&self) -> ValueView {
        match self {
            Value::String(s) => ValueView::Str(s@),
            Value::Int8(x) => ValueView::Int8(*x),
            Value::Int16(x) => ValueView::Int16(*x),
            Value::Int32(x) => ValueView::Int32(*x),
            Value::Int64(x) => ValueView::Int64(*x),
            Value::UInt8(x) => ValueView::UInt8(*x),
            Value::UInt16(x) => ValueView::UInt16(*x),
            Value::UInt32(x) => ValueView::UInt32(*x),
            Value::UInt64(x) => ValueView::UInt64(*x),
            Value::Null => ValueView::Null,
        }
    }
}

} // verus!
