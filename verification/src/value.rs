//! Values the machine manipulates, and the messages it can emit.
//!
//! `Value` is a closed tagged union of the scalar and composite values the
//! machine processes.  The `F32` and `F64` variants carry the IEEE 754 bit
//! pattern of the number as a plain unsigned integer, so that the whole
//! model stays within what the verifier can reason about; arithmetic on
//! those patterns is delegated to a software floating-point library.

use vstd::prelude::*;

verus! {

/// Values that the machine is able to process.
///
/// `Address` holds an optional program-store index; `None` denotes a
/// forward reference that has not been resolved yet.  `Symbol` references
/// another value, used for indirection.
pub enum Value {
    I32(i32),
    I64(i64),
    /// IEEE 754 single-precision number, stored as its bit pattern.
    F32(u32),
    /// IEEE 754 double-precision number, stored as its bit pattern.
    F64(u64),
    Char(char),
    String(String),
    Bool(bool),
    Symbol(Box<Value>),
    Address(Option<usize>),
}

/// The mathematical shape of a [`Value`]: strings become sequences of
/// characters, everything else keeps its payload.
pub enum ValueView {
    I32(i32),
    I64(i64),
    F32(u32),
    F64(u64),
    Char(char),
    String(Seq<char>),
    Bool(bool),
    Symbol(Box<ValueView>),
    Address(Option<usize>),
}

pub open spec fn value_view(v: &Value) -> ValueView
    decreases v,
{
    match v {
        Value::I32(x) => ValueView::I32(*x),
        Value::I64(x) => ValueView::I64(*x),
        Value::F32(b) => ValueView::F32(*b),
        Value::F64(b) => ValueView::F64(*b),
        Value::Char(c) => ValueView::Char(*c),
        Value::String(s) => ValueView::String(s@),
        Value::Bool(b) => ValueView::Bool(*b),
        Value::Symbol(inner) => ValueView::Symbol(Box::new(value_view(&**inner))),
        Value::Address(a) => ValueView::Address(*a),
    }
}

impl View for Value {
    type V = ValueView;

    open spec fn view(&self) -> ValueView {
        value_view(self)
    }
}

impl Clone for Value {
    fn clone(&self) -> (r: Self)
        ensures
            r@ == self@,
        decreases self,
    {
        match self {
            Value::I32(x) => Value::I32(*x),
            Value::I64(x) => Value::I64(*x),
            Value::F32(b) => Value::F32(*b),
            Value::F64(b) => Value::F64(*b),
            Value::Char(c) => Value::Char(*c),
            Value::String(s) => Value::String(s.clone()),
            Value::Bool(b) => Value::Bool(*b),
            Value::Symbol(inner) => Value::Symbol(Box::new((**inner).clone())),
            Value::Address(a) => Value::Address(*a),
        }
    }
}

/// A message carried by an `Out` instruction: a payload value routed from
/// one numbered port to another.
pub struct Message {
    pub from: usize,
    pub to: usize,
    pub value: Value,
}

/// The mathematical shape of a [`Message`].
pub struct MessageView {
    pub from: usize,
    pub to: usize,
    pub value: ValueView,
}

impl View for Message {
    type V = MessageView;

    open spec fn view(&self) -> MessageView {
        MessageView { from: self.from, to: self.to, value: self.value@ }
    }
}

impl Clone for Message {
    fn clone(&self) -> (r: Self)
        ensures
            r@ == self@,
    {
        Message { from: self.from, to: self.to, value: self.value.clone() }
    }
}

/// Non-executable annotation that can sit in a program-store cell.
pub enum MetaData {
    Tag(String),
}

/// The mathematical shape of a [`MetaData`].
pub enum MetaDataView {
    Tag(Seq<char>),
}

impl View for MetaData {
    type V = MetaDataView;

    open spec fn view(&self) -> MetaDataView {
        match self {
            MetaData::Tag(s) => MetaDataView::Tag(s@),
        }
    }
}

impl Clone for MetaData {
    fn clone(&self) -> (r: Self)
        ensures
            r@ == self@,
    {
        match self {
            MetaData::Tag(s) => MetaData::Tag(s.clone()),
        }
    }
}

/// True when the two values carry the same variant tag.  Binary arithmetic
/// requires both operands to agree on this; a mixed pair is a typed error,
/// never an implicit conversion.
pub open spec fn same_variant(l: ValueView, r: ValueView) -> bool {
    match (l, r) {
        (ValueView::I32(_), ValueView::I32(_)) => true,
        (ValueView::I64(_), ValueView::I64(_)) => true,
        (ValueView::F32(_), ValueView::F32(_)) => true,
        (ValueView::F64(_), ValueView::F64(_)) => true,
        (ValueView::Char(_), ValueView::Char(_)) => true,
        (ValueView::String(_), ValueView::String(_)) => true,
        (ValueView::Bool(_), ValueView::Bool(_)) => true,
        (ValueView::Symbol(_), ValueView::Symbol(_)) => true,
        (ValueView::Address(_), ValueView::Address(_)) => true,
        _ => false,
    }
}

} // verus!
