//! The closed instruction set and the cells of the program store.

use vstd::prelude::*;

use crate::value::{Message, MessageView, MetaData, MetaDataView, Value, ValueView};

verus! {

/// Instructions that the virtual machine executes.
///
/// Every operand is a concrete [`Value`] at the moment the instruction is
/// placed in the program store, with one exception: `Jmp`'s operand may be
/// `Value::Address(None)` until the builder patches it.
pub enum Instruction {
    Nop,
    Push(Value),
    Pop,
    Add,
    Sub,
    Mul,
    Div,
    Jmp(Value),
    Halt,
    /// Emit a message on the given port through the installed channel.
    Out(usize, Message),
    /// Store an immediate value into the register with the given index.
    Movi(usize, Value),
    /// Copy the value of the second register into the first.
    Movr(usize, usize),
    Dump,
}

/// The mathematical shape of an [`Instruction`].
pub enum InstructionView {
    Nop,
    Push(ValueView),
    Pop,
    Add,
    Sub,
    Mul,
    Div,
    Jmp(ValueView),
    Halt,
    Out(usize, MessageView),
    Movi(usize, ValueView),
    Movr(usize, usize),
    Dump,
}

impl View for Instruction {
    type V = InstructionView;

    open spec fn view(&self) -> InstructionView {
        match self {
            Instruction::Nop => InstructionView::Nop,
            Instruction::Push(v) => InstructionView::Push(v@),
            Instruction::Pop => InstructionView::Pop,
            Instruction::Add => InstructionView::Add,
            Instruction::Sub => InstructionView::Sub,
            Instruction::Mul => InstructionView::Mul,
            Instruction::Div => InstructionView::Div,
            Instruction::Jmp(v) => InstructionView::Jmp(v@),
            Instruction::Halt => InstructionView::Halt,
            Instruction::Out(port, m) => InstructionView::Out(*port, m@),
            Instruction::Movi(reg, v) => InstructionView::Movi(*reg, v@),
            Instruction::Movr(dst, src) => InstructionView::Movr(*dst, *src),
            Instruction::Dump => InstructionView::Dump,
        }
    }
}

impl Clone for Instruction {
    fn clone(&self) -> (r: Self)
        ensures
            r@ == self@,
    {
        match self {
            Instruction::Nop => Instruction::Nop,
            Instruction::Push(v) => Instruction::Push(v.clone()),
            Instruction::Pop => Instruction::Pop,
            Instruction::Add => Instruction::Add,
            Instruction::Sub => Instruction::Sub,
            Instruction::Mul => Instruction::Mul,
            Instruction::Div => Instruction::Div,
            Instruction::Jmp(v) => Instruction::Jmp(v.clone()),
            Instruction::Halt => Instruction::Halt,
            Instruction::Out(port, m) => Instruction::Out(*port, m.clone()),
            Instruction::Movi(reg, v) => Instruction::Movi(*reg, v.clone()),
            Instruction::Movr(dst, src) => Instruction::Movr(*dst, *src),
            Instruction::Dump => Instruction::Dump,
        }
    }
}

/// What a single program-store location can hold.
pub enum MemoryCell {
    Instruction(Instruction),
    Value(Value),
    MetaData(MetaData),
    Empty,
}

/// The mathematical shape of a [`MemoryCell`].
pub enum MemoryCellView {
    Instruction(InstructionView),
    Value(ValueView),
    MetaData(MetaDataView),
    Empty,
}

impl View for MemoryCell {
    type V = MemoryCellView;

    open spec fn view(&self) -> MemoryCellView {
        match self {
            MemoryCell::Instruction(i) => MemoryCellView::Instruction(i@),
            MemoryCell::Value(v) => MemoryCellView::Value(v@),
            MemoryCell::MetaData(m) => MemoryCellView::MetaData(m@),
            MemoryCell::Empty => MemoryCellView::Empty,
        }
    }
}

impl Clone for MemoryCell {
    fn clone(&self) -> (r: Self)
        ensures
            r@ == self@,
    {
        match self {
            MemoryCell::Instruction(i) => MemoryCell::Instruction(i.clone()),
            MemoryCell::Value(v) => MemoryCell::Value(v.clone()),
            MemoryCell::MetaData(m) => MemoryCell::MetaData(m.clone()),
            MemoryCell::Empty => MemoryCell::Empty,
        }
    }
}

/// The shape of a whole sequence of memory cells.
pub open spec fn cells_view(s: Seq<MemoryCell>) -> Seq<MemoryCellView> {
    s.map_values(|c: MemoryCell| c@)
}

} // verus!
