//! The bank of sixteen general registers.
//!
//! Each slot independently holds one scalar value or is empty; slots are
//! not type-locked across successive writes.  Register indices are checked
//! only at execution time: an out-of-range index is reported as a fault by
//! the access itself, never as a panic.

use vstd::prelude::*;

use crate::value::{Value, ValueView};
use crate::vm::Fault;

verus! {

/// How many register slots the bank has.
pub const REGISTER_COUNT: usize = 16;

/// The content of one register slot.
pub enum Register {
    I32(i32),
    I64(i64),
    /// IEEE 754 single-precision number, stored as its bit pattern.
    F32(u32),
    /// IEEE 754 double-precision number, stored as its bit pattern.
    F64(u64),
    Char(char),
    String(String),
    Bool(bool),
    Empty,
}

/// The mathematical shape of a [`Register`].
pub enum RegisterView {
    I32(i32),
    I64(i64),
    F32(u32),
    F64(u64),
    Char(char),
    String(Seq<char>),
    Bool(bool),
    Empty,
}

impl View for Register {
    type V = RegisterView;

    open spec fn view(&self) -> RegisterView {
        match self {
            Register::I32(x) => RegisterView::I32(*x),
            Register::I64(x) => RegisterView::I64(*x),
            Register::F32(b) => RegisterView::F32(*b),
            Register::F64(b) => RegisterView::F64(*b),
            Register::Char(c) => RegisterView::Char(*c),
            Register::String(s) => RegisterView::String(s@),
            Register::Bool(b) => RegisterView::Bool(*b),
            Register::Empty => RegisterView::Empty,
        }
    }
}

impl Clone for Register {
    fn clone(&self) -> (r: Self)
        ensures
            r@ == self@,
    {
        match self {
            Register::I32(x) => Register::I32(*x),
            Register::I64(x) => Register::I64(*x),
            Register::F32(b) => Register::F32(*b),
            Register::F64(b) => Register::F64(*b),
            Register::Char(c) => Register::Char(*c),
            Register::String(s) => Register::String(s.clone()),
            Register::Bool(b) => Register::Bool(*b),
            Register::Empty => Register::Empty,
        }
    }
}

/// What a register slot holds after a value is stored into it: scalar
/// variants keep their payload; a symbol or an address leaves the slot
/// empty (registers hold scalars only).
pub open spec fn register_of_value(v: ValueView) -> RegisterView {
    match v {
        ValueView::I32(x) => RegisterView::I32(x),
        ValueView::I64(x) => RegisterView::I64(x),
        ValueView::F32(b) => RegisterView::F32(b),
        ValueView::F64(b) => RegisterView::F64(b),
        ValueView::Char(c) => RegisterView::Char(c),
        ValueView::String(s) => RegisterView::String(s),
        ValueView::Bool(b) => RegisterView::Bool(b),
        ValueView::Symbol(_) => RegisterView::Empty,
        ValueView::Address(_) => RegisterView::Empty,
    }
}

/// The value read back from a register slot, if any.
pub open spec fn value_of_register(r: RegisterView) -> Option<ValueView> {
    match r {
        RegisterView::I32(x) => Some(ValueView::I32(x)),
        RegisterView::I64(x) => Some(ValueView::I64(x)),
        RegisterView::F32(b) => Some(ValueView::F32(b)),
        RegisterView::F64(b) => Some(ValueView::F64(b)),
        RegisterView::Char(c) => Some(ValueView::Char(c)),
        RegisterView::String(s) => Some(ValueView::String(s)),
        RegisterView::Bool(b) => Some(ValueView::Bool(b)),
        RegisterView::Empty => None,
    }
}

/// The fixed-size bank of general registers.
pub struct GeneralRegisters {
    registers: Vec<Register>,
}

impl View for GeneralRegisters {
    type V = Seq<RegisterView>;

    closed spec fn view(&self) -> Seq<RegisterView> {
        self.registers@.map_values(|r: Register| r@)
    }
}

impl GeneralRegisters {
    pub open spec fn wf(&self) -> bool {
        self@.len() == REGISTER_COUNT
    }

    /// A fresh bank: every slot empty.
    pub fn new() -> (r: GeneralRegisters)
        ensures
            r.wf(),
            forall|i: int| 0 <= i < REGISTER_COUNT ==> r@[i] == RegisterView::Empty,
    {
        let mut registers: Vec<Register> = Vec::new();
        let mut i: usize = 0;
        while i < REGISTER_COUNT
            invariant
                i <= REGISTER_COUNT,
                registers@.len() == i,
                forall|j: int| 0 <= j < i ==> #[trigger] registers@[j]@ == RegisterView::Empty,
            decreases REGISTER_COUNT - i,
        {
            registers.push(Register::Empty);
            i += 1;
        }
        GeneralRegisters { registers }
    }

    /// Stores `value` into slot `reg`, replacing prior contents regardless
    /// of type.  An index outside the bank is the register-index fault and
    /// leaves the bank unchanged.
    pub fn set(&mut self, reg: usize, value: Value) -> (r: Result<(), Fault>)
        requires
            old(self).wf(),
        ensures
            final(self).wf(),
            reg >= REGISTER_COUNT ==> r == Result::<(), Fault>::Err(Fault::InvalidRegisterIndex)
                && final(self)@ == old(self)@,
            reg < REGISTER_COUNT ==> r == Result::<(), Fault>::Ok(()) && final(self)@ == old(
                self,
            )@.update(reg as int, register_of_value(value@)),
    {
        if reg >= REGISTER_COUNT {
            return Err(Fault::InvalidRegisterIndex);
        }
        let slot = match value {
            Value::I32(x) => Register::I32(x),
            Value::I64(x) => Register::I64(x),
            Value::F32(b) => Register::F32(b),
            Value::F64(b) => Register::F64(b),
            Value::Char(c) => Register::Char(c),
            Value::String(s) => Register::String(s),
            Value::Bool(b) => Register::Bool(b),
            Value::Symbol(_) => Register::Empty,
            Value::Address(_) => Register::Empty,
        };
        self.registers.set(reg, slot);
        proof {
            assert(final(self)@ =~= old(self)@.update(
                reg as int,
                register_of_value(value@),
            ));
        }
        Ok(())
    }

    /// Reads slot `reg`: `Ok(None)` when the slot is empty, the
    /// register-index fault when the index is outside the bank.
    pub fn get(&self, reg: usize) -> (r: Result<Option<Value>, Fault>)
        requires
            self.wf(),
        ensures
            reg >= REGISTER_COUNT ==> r == Result::<Option<Value>, Fault>::Err(
                Fault::InvalidRegisterIndex,
            ),
            reg < REGISTER_COUNT ==> match r {
                Result::Ok(opt) => match opt {
                    Some(v) => value_of_register(self@[reg as int]) == Some(v@),
                    None => value_of_register(self@[reg as int]) is None,
                },
                Result::Err(_) => false,
            },
    {
        if reg >= REGISTER_COUNT {
            return Err(Fault::InvalidRegisterIndex);
        }
        let slot = &self.registers[reg];
        assert(slot@ == self@[reg as int]);
        let out = match slot {
            Register::I32(x) => Some(Value::I32(*x)),
            Register::I64(x) => Some(Value::I64(*x)),
            Register::F32(b) => Some(Value::F32(*b)),
            Register::F64(b) => Some(Value::F64(*b)),
            Register::Char(c) => Some(Value::Char(*c)),
            Register::String(s) => Some(Value::String(s.clone())),
            Register::Bool(b) => Some(Value::Bool(*b)),
            Register::Empty => None,
        };
        Ok(out)
    }
}

} // verus!
