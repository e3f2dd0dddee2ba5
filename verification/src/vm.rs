//! The execution engine: a fetch-decode-execute state machine.
//!
//! The engine owns the operand stack, the register bank, the flags and the
//! program counter, and drives itself until halted or faulted.  Its whole
//! behaviour is captured by the transition function [`step_view`] on the
//! abstract machine state [`MachineView`]: every public run entry point
//! promises that the machine it leaves behind is reachable from the
//! machine it started from by iterating that function.

use vstd::prelude::*;

use crate::channel::MessageHandler;
use crate::flags::Flags;
use crate::instr::{cells_view, Instruction, InstructionView, MemoryCell, MemoryCellView};
use crate::registers::{
    register_of_value, value_of_register, GeneralRegisters, RegisterView, REGISTER_COUNT,
};
use crate::softfloat::{
    f32_add, f32_add_bits, f32_div, f32_div_bits, f32_is_neg, f32_is_pos, f32_is_zero, f32_mul,
    f32_mul_bits, f32_sign_class, f32_sub, f32_sub_bits, f64_add, f64_add_bits, f64_div,
    f64_div_bits, f64_is_neg, f64_is_pos, f64_is_zero, f64_mul, f64_mul_bits, f64_sign_class,
    f64_sub, f64_sub_bits,
};
use crate::value::{Message, MessageView, Value, ValueView};

verus! {

/// The conditions that terminate a run abnormally.  On any of them the
/// engine records the fault and transitions to `Halted`; there is no retry
/// and no partial rollback.
#[derive(Clone, Copy, PartialEq, Eq, Structural, Debug)]
pub enum Fault {
    /// Fetch found no instruction at the program counter: the cell holds a
    /// value, metadata or nothing, or the counter is outside the store.
    InvalidMemoryCell,
    /// Arithmetic or a register move was applied to incompatible or absent
    /// value variants.
    TypeMismatch,
    /// Arithmetic popped from an empty stack.
    StackUnderflow,
    /// A jump executed with an address that was never patched.
    UnresolvedJump,
    /// A register access outside the fixed bank.
    InvalidRegisterIndex,
    /// An `Out` instruction executed with no message channel installed.
    NoChannelConfigured,
    /// Integer arithmetic overflowed its representation.
    IntegerOverflow,
    /// Integer division by the variant's zero value.
    DivisionByZero,
}

/// The engine's life cycle: `Idle` before the first reset, `Running` while
/// the fetch-decode-execute loop may proceed, `Halted` after a `Halt`
/// instruction or a fault (terminal until the next reset).
#[derive(Clone, Copy, PartialEq, Eq, Structural, Debug)]
pub enum MachineState {
    Idle,
    Running,
    Halted,
}

/// The four binary arithmetic operations.
#[derive(Clone, Copy, PartialEq, Eq, Structural, Debug)]
pub enum BinOp {
    Add,
    Sub,
    Mul,
    Div,
}

/// The abstract state of the engine; [`RustyVM`] views to this.
#[verifier::ext_equal]
pub struct MachineView {
    pub pc: int,
    pub state: MachineState,
    pub memory: Seq<MemoryCellView>,
    pub stack: Seq<MemoryCellView>,
    pub registers: Seq<RegisterView>,
    pub flags: Flags,
    pub cur_instruction: Option<InstructionView>,
    pub fault: Option<Fault>,
}

/// Division truncating toward zero, as the machine's integer types divide.
pub open spec fn trunc_div(x: int, d: int) -> int
    recommends
        d != 0,
{
    if x == 0 {
        0
    } else if x > 0 && d > 0 {
        x / d
    } else if x < 0 && d < 0 {
        (x * -1) / (d * -1)
    } else if x < 0 {
        ((x * -1) / d) * -1
    } else {
        (x / (d * -1)) * -1
    }
}

/// Exact integer arithmetic with the machine's fault rules: division by
/// zero is its own fault, and a result outside `[lo, hi]` (the bounds of
/// the operand type) is an overflow fault.
pub open spec fn int_result(op: BinOp, a: int, b: int, lo: int, hi: int) -> Result<int, Fault> {
    match op {
        BinOp::Add => if a + b < lo || a + b > hi {
            Err(Fault::IntegerOverflow)
        } else {
            Ok(a + b)
        },
        BinOp::Sub => if a - b < lo || a - b > hi {
            Err(Fault::IntegerOverflow)
        } else {
            Ok(a - b)
        },
        BinOp::Mul => if a * b < lo || a * b > hi {
            Err(Fault::IntegerOverflow)
        } else {
            Ok(a * b)
        },
        BinOp::Div => if b == 0 {
            Err(Fault::DivisionByZero)
        } else if trunc_div(a, b) < lo || trunc_div(a, b) > hi {
            Err(Fault::IntegerOverflow)
        } else {
            Ok(trunc_div(a, b))
        },
    }
}

/// Single-precision arithmetic on bit patterns (IEEE semantics; never a
/// fault — dividing by zero yields an infinity or NaN).
pub open spec fn float32_result(op: BinOp, a: u32, b: u32) -> u32 {
    match op {
        BinOp::Add => f32_add_bits(a, b),
        BinOp::Sub => f32_sub_bits(a, b),
        BinOp::Mul => f32_mul_bits(a, b),
        BinOp::Div => f32_div_bits(a, b),
    }
}

/// Double-precision arithmetic on bit patterns (IEEE semantics; never a
/// fault — dividing by zero yields an infinity or NaN).
pub open spec fn float64_result(op: BinOp, a: u64, b: u64) -> u64 {
    match op {
        BinOp::Add => f64_add_bits(a, b),
        BinOp::Sub => f64_sub_bits(a, b),
        BinOp::Mul => f64_mul_bits(a, b),
        BinOp::Div => f64_div_bits(a, b),
    }
}

/// What a binary arithmetic instruction makes of its two operands: both
/// must carry the same variant, and only numeric variants compute; any
/// other pair is the type-mismatch fault.
pub open spec fn arith_value(op: BinOp, l: ValueView, r: ValueView) -> Result<ValueView, Fault> {
    match (l, r) {
        (ValueView::I32(a), ValueView::I32(b)) => match int_result(
            op,
            a as int,
            b as int,
            i32::MIN as int,
            i32::MAX as int,
        ) {
            Ok(v) => Ok(ValueView::I32(v as i32)),
            Err(f) => Err(f),
        },
        (ValueView::I64(a), ValueView::I64(b)) => match int_result(
            op,
            a as int,
            b as int,
            i64::MIN as int,
            i64::MAX as int,
        ) {
            Ok(v) => Ok(ValueView::I64(v as i64)),
            Err(f) => Err(f),
        },
        (ValueView::F32(a), ValueView::F32(b)) => Ok(ValueView::F32(float32_result(op, a, b))),
        (ValueView::F64(a), ValueView::F64(b)) => Ok(ValueView::F64(float64_result(op, a, b))),
        _ => Err(Fault::TypeMismatch),
    }
}

/// The flags recomputed from an arithmetic result: its ordering against
/// the type's zero value.  The comparison flags keep their prior values.
pub open spec fn value_flags(v: ValueView, prior: Flags) -> Flags {
    match v {
        ValueView::I32(x) => Flags { zero: x == 0, pos: x > 0, neg: x < 0, ..prior },
        ValueView::I64(x) => Flags { zero: x == 0, pos: x > 0, neg: x < 0, ..prior },
        ValueView::F32(b) => Flags {
            zero: f32_is_zero(b),
            pos: f32_is_pos(b),
            neg: f32_is_neg(b),
            ..prior
        },
        ValueView::F64(b) => Flags {
            zero: f64_is_zero(b),
            pos: f64_is_pos(b),
            neg: f64_is_neg(b),
            ..prior
        },
        _ => prior,
    }
}

/// What the engine's representation maintains: the register bank keeps
/// its fixed size.
pub open spec fn machine_wf(m: MachineView) -> bool {
    m.registers.len() == REGISTER_COUNT
}

/// A fault is terminal: the machine records it and halts.
pub open spec fn fault_state(s: MachineView, f: Fault) -> MachineView {
    MachineView { state: MachineState::Halted, fault: Some(f), ..s }
}

/// One arithmetic instruction: pop right then left (the operand pushed
/// most recently is the right-hand side), require identical variants,
/// compute, recompute the flags from the result, push the result.  The
/// program counter advances whatever the outcome, as the handlers do.
pub open spec fn arith_step(s: MachineView, op: BinOp) -> MachineView {
    let spc = MachineView { pc: s.pc + 1, ..s };
    if s.stack.len() == 0 {
        fault_state(spc, Fault::StackUnderflow)
    } else if s.stack.len() == 1 {
        fault_state(
            MachineView { stack: Seq::empty(), ..spc },
            Fault::StackUnderflow,
        )
    } else {
        let rcell = s.stack[s.stack.len() - 1];
        let lcell = s.stack[s.stack.len() - 2];
        let rest = s.stack.take(s.stack.len() - 2);
        match (lcell, rcell) {
            (MemoryCellView::Value(lv), MemoryCellView::Value(rv)) => match arith_value(
                op,
                lv,
                rv,
            ) {
                Ok(v) => MachineView {
                    stack: rest.push(MemoryCellView::Value(v)),
                    flags: value_flags(v, s.flags),
                    ..spc
                },
                Err(f) => fault_state(MachineView { stack: rest, ..spc }, f),
            },
            _ => fault_state(MachineView { stack: rest, ..spc }, Fault::TypeMismatch),
        }
    }
}

/// Dispatch of one decoded instruction.  Every handler either advances the
/// program counter by exactly one, assigns it directly (`Jmp`), or leaves
/// the running state (`Halt` and every fault).
pub open spec fn execute_view(s: MachineView, inst: InstructionView, has_channel: bool) -> MachineView {
    match inst {
        InstructionView::Nop => MachineView { pc: s.pc + 1, ..s },
        InstructionView::Push(v) => MachineView {
            pc: s.pc + 1,
            stack: s.stack.push(MemoryCellView::Value(v)),
            ..s
        },
        InstructionView::Pop => MachineView {
            pc: s.pc + 1,
            stack: if s.stack.len() == 0 {
                s.stack
            } else {
                s.stack.drop_last()
            },
            ..s
        },
        InstructionView::Add => arith_step(s, BinOp::Add),
        InstructionView::Sub => arith_step(s, BinOp::Sub),
        InstructionView::Mul => arith_step(s, BinOp::Mul),
        InstructionView::Div => arith_step(s, BinOp::Div),
        InstructionView::Jmp(v) => match v {
            ValueView::Address(Some(a)) => MachineView { pc: a as int, ..s },
            ValueView::Address(None) => fault_state(s, Fault::UnresolvedJump),
            _ => fault_state(s, Fault::TypeMismatch),
        },
        InstructionView::Halt => MachineView { state: MachineState::Halted, ..s },
        InstructionView::Out(_, _) => if has_channel {
            MachineView { pc: s.pc + 1, ..s }
        } else {
            fault_state(s, Fault::NoChannelConfigured)
        },
        InstructionView::Movi(reg, v) => if reg >= REGISTER_COUNT {
            fault_state(s, Fault::InvalidRegisterIndex)
        } else {
            MachineView {
                pc: s.pc + 1,
                registers: s.registers.update(reg as int, register_of_value(v)),
                ..s
            }
        },
        InstructionView::Movr(dst, src) => if src >= REGISTER_COUNT {
            fault_state(s, Fault::InvalidRegisterIndex)
        } else {
            match value_of_register(s.registers[src as int]) {
                None => fault_state(s, Fault::TypeMismatch),
                Some(v) => if dst >= REGISTER_COUNT {
                    fault_state(s, Fault::InvalidRegisterIndex)
                } else {
                    MachineView {
                        pc: s.pc + 1,
                        registers: s.registers.update(dst as int, register_of_value(v)),
                        ..s
                    }
                },
            }
        },
        InstructionView::Dump => MachineView { pc: s.pc + 1, ..s },
    }
}

/// One whole machine step: nothing happens unless the machine is running;
/// fetch requires an instruction cell at the program counter (anything
/// else is the invalid-cell fault); the fetched instruction becomes the
/// current instruction and is executed.
pub open spec fn step_view(s: MachineView, has_channel: bool) -> MachineView {
    if s.state != MachineState::Running {
        s
    } else if s.pc < 0 || s.pc >= s.memory.len() {
        fault_state(s, Fault::InvalidMemoryCell)
    } else {
        match s.memory[s.pc] {
            MemoryCellView::Instruction(inst) => execute_view(
                MachineView { cur_instruction: Some(inst), ..s },
                inst,
                has_channel,
            ),
            _ => fault_state(s, Fault::InvalidMemoryCell),
        }
    }
}

/// `n` machine steps in a row.
pub open spec fn step_n(s: MachineView, n: nat, has_channel: bool) -> MachineView
    decreases n,
{
    if n == 0 {
        s
    } else {
        step_view(step_n(s, (n - 1) as nat, has_channel), has_channel)
    }
}

/// The message one step from `s` hands to an installed channel: the port
/// and payload of the `Out` instruction at the program counter, when the
/// machine is running and such an instruction is about to execute.
pub open spec fn out_message(s: MachineView) -> Option<(usize, MessageView)> {
    if s.state == MachineState::Running && 0 <= s.pc < s.memory.len() {
        match s.memory[s.pc] {
            MemoryCellView::Instruction(InstructionView::Out(port, m)) => Some((port, m)),
            _ => None,
        }
    } else {
        None
    }
}

/// Every message the first `n` steps hand to an installed channel, in
/// execution order.
pub open spec fn emitted_n(s: MachineView, n: nat) -> Seq<(usize, MessageView)>
    decreases n,
{
    if n == 0 {
        Seq::empty()
    } else {
        emitted_n(s, (n - 1) as nat) + match out_message(step_n(s, (n - 1) as nat, true)) {
            Some(pm) => seq![pm],
            None => Seq::empty(),
        }
    }
}

/// The machine's mutable state after a reset: counter at zero, running,
/// stack, flags, registers and diagnostics cleared; the program store is
/// untouched.
pub open spec fn reset_view(s: MachineView) -> MachineView {
    MachineView {
        pc: 0,
        state: MachineState::Running,
        memory: s.memory,
        stack: Seq::empty(),
        registers: Seq::new(REGISTER_COUNT as nat, |i: int| RegisterView::Empty),
        flags: Flags::clear(),
        cur_instruction: None,
        fault: None,
    }
}

/// The program store is immutable at run time: no step writes it.
pub proof fn lemma_step_preserves_memory(s: MachineView, has_channel: bool)
    ensures
        step_view(s, has_channel).memory == s.memory,
{
}

/// Iterated steps leave the program store untouched as well.
pub proof fn lemma_step_n_preserves_memory(s: MachineView, n: nat, has_channel: bool)
    ensures
        step_n(s, n, has_channel).memory == s.memory,
    decreases n,
{
    if n > 0 {
        lemma_step_n_preserves_memory(s, (n - 1) as nat, has_channel);
        lemma_step_preserves_memory(step_n(s, (n - 1) as nat, has_channel), has_channel);
    }
}

/// The virtual machine.
pub struct RustyVM {
    pc: usize,
    state: MachineState,
    memory: Vec<MemoryCell>,
    stack: Vec<MemoryCell>,
    registers: GeneralRegisters,
    flags: Flags,
    cur_instruction: Option<Instruction>,
    fault: Option<Fault>,
}

impl View for RustyVM {
    type V = MachineView;

    closed spec fn view(&self) -> MachineView {
        MachineView {
            pc: self.pc as int,
            state: self.state,
            memory: cells_view(self.memory@),
            stack: cells_view(self.stack@),
            registers: self.registers@,
            flags: self.flags,
            cur_instruction: match self.cur_instruction {
                Some(i) => Some(i@),
                None => None,
            },
            fault: self.fault,
        }
    }
}

impl RustyVM {
    pub open spec fn wf(&self) -> bool {
        machine_wf(self@)
    }

    /// A fresh machine: idle, with an empty program store and every slot
    /// of its mutable state cleared.
    pub fn new() -> (r: RustyVM)
        ensures
            r.wf(),
            r@.pc == 0,
            r@.state == MachineState::Idle,
            r@.memory == Seq::<MemoryCellView>::empty(),
            r@.stack == Seq::<MemoryCellView>::empty(),
            r@.registers == Seq::new(REGISTER_COUNT as nat, |i: int| RegisterView::Empty),
            r@.flags == Flags::clear(),
            r@.cur_instruction is None,
            r@.fault is None,
    {
        let r = RustyVM {
            pc: 0,
            state: MachineState::Idle,
            memory: Vec::new(),
            stack: Vec::new(),
            registers: GeneralRegisters::new(),
            flags: Flags::new(),
            cur_instruction: None,
            fault: None,
        };
        proof {
            assert(r@.memory =~= Seq::<MemoryCellView>::empty());
            assert(r@.stack =~= Seq::<MemoryCellView>::empty());
            assert(r@.registers =~= Seq::new(REGISTER_COUNT as nat, |i: int| RegisterView::Empty));
        }
        r
    }

    /// Appends one cell to the program store.
    pub fn push(&mut self, mem: MemoryCell)
        requires
            old(self).wf(),
        ensures
            final(self).wf(),
            final(self)@ == (MachineView { memory: old(self)@.memory.push(mem@), ..old(self)@ }),
            old(self)@.memory.len() < usize::MAX,
    {
        let ghost m = mem@;
        self.memory.push(mem);
        let n = self.memory.len();
        assert(old(self)@.memory.len() == n - 1);
        proof {
            assert(self@.memory =~= old(self)@.memory.push(m));
            assert(self@ =~= MachineView { memory: old(self)@.memory.push(m), ..old(self)@ });
        }
    }

    /// Reads the cell at `address`.
    pub fn get_instruction(&self, address: usize) -> (r: MemoryCell)
        requires
            address < self@.memory.len(),
        ensures
            r@ == self@.memory[address as int],
    {
        self.memory[address].clone()
    }

    /// Replaces the cell at `address`.
    pub fn set_instruction(&mut self, mem: MemoryCell, address: usize)
        requires
            old(self).wf(),
            address < old(self)@.memory.len(),
        ensures
            final(self).wf(),
            final(self)@ == (MachineView {
                memory: old(self)@.memory.update(address as int, mem@),
                ..old(self)@
            }),
    {
        let ghost m = mem@;
        self.memory.set(address, mem);
        proof {
            assert(self@.memory =~= old(self)@.memory.update(address as int, m));
            assert(self@ =~= MachineView {
                memory: old(self)@.memory.update(address as int, m),
                ..old(self)@
            });
        }
    }

    /// Moves the machine to `Running` with its mutable state (stack,
    /// counter, flags, registers, diagnostics) back at initial values; the
    /// assembled program is kept.
    pub fn reset(&mut self)
        requires
            old(self).wf(),
        ensures
            final(self).wf(),
            final(self)@ == reset_view(old(self)@),
    {
        self.pc = 0;
        self.state = MachineState::Running;
        self.stack = Vec::new();
        self.registers = GeneralRegisters::new();
        self.flags.reset();
        self.cur_instruction = None;
        self.fault = None;
        proof {
            assert(self@.stack =~= Seq::<MemoryCellView>::empty());
            assert(self@.registers =~= Seq::new(
                REGISTER_COUNT as nat,
                |i: int| RegisterView::Empty,
            ));
            assert(self@ =~= reset_view(old(self)@));
        }
    }

    /// The final stack contents, for embedding and read-back after a run.
    pub fn get_stack(&self) -> (r: Vec<MemoryCell>)
        ensures
            cells_view(r@) == self@.stack,
    {
        let mut out: Vec<MemoryCell> = Vec::new();
        let mut i: usize = 0;
        while i < self.stack.len()
            invariant
                i <= self.stack@.len(),
                out@.len() == i,
                forall|j: int| 0 <= j < i ==> #[trigger] out@[j]@ == self.stack@[j]@,
            decreases self.stack@.len() - i,
        {
            out.push(self.stack[i].clone());
            i += 1;
        }
        proof {
            assert(cells_view(out@) =~= self@.stack);
        }
        out
    }

    /// The current flag bank.
    pub fn get_flags(&self) -> (r: Flags)
        ensures
            r == self@.flags,
    {
        self.flags
    }

    /// The fault that halted the last run, if any.
    pub fn get_fault(&self) -> (r: Option<Fault>)
        ensures
            r == self@.fault,
    {
        self.fault
    }

    /// Where the machine is in its life cycle.
    pub fn get_state(&self) -> (r: MachineState)
        ensures
            r == self@.state,
    {
        self.state
    }

    /// Reads one register back: `Ok(None)` when the slot is empty, the
    /// register-index fault when the index is outside the bank.
    pub fn get_register(&self, reg: usize) -> (r: Result<Option<Value>, Fault>)
        requires
            self.wf(),
        ensures
            reg >= REGISTER_COUNT ==> r == Result::<Option<Value>, Fault>::Err(
                Fault::InvalidRegisterIndex,
            ),
            reg < REGISTER_COUNT ==> match r {
                Result::Ok(opt) => match opt {
                    Some(v) => value_of_register(self@.registers[reg as int]) == Some(v@),
                    None => value_of_register(self@.registers[reg as int]) is None,
                },
                Result::Err(_) => false,
            },
    {
        self.registers.get(reg)
    }

    /// The current program counter.
    pub fn get_pc(&self) -> (r: usize)
        ensures
            r as int == self@.pc,
    {
        self.pc
    }

    /// Captures the fault and halts; the caller observes the snapshot
    /// (counter, current instruction, stack, fault) through the getters.
    fn exception(&mut self, fault: Fault)
        ensures
            final(self)@ == fault_state(old(self)@, fault),
    {
        self.state = MachineState::Halted;
        self.fault = Some(fault);
        proof {
            assert(self@ =~= fault_state(old(self)@, fault));
        }
    }

    /// One whole fetch-decode-execute step.  When the fetched instruction
    /// is `Out` and a channel is present, the message to hand to it is
    /// returned rather than sent, so that one body serves the engine both
    /// with and without a channel.
    fn step_inner(&mut self, has_channel: bool) -> (send: Option<(usize, Message)>)
        requires
            old(self).wf(),
        ensures
            final(self).wf(),
            final(self)@ == step_view(old(self)@, has_channel),
            match send {
                Some(pm) => has_channel && out_message(old(self)@) == Some((pm.0, pm.1@)),
                None => !has_channel || out_message(old(self)@) is None,
            },
    {
        if !(matches!(self.state, MachineState::Running)) {
            return None;
        }
        // fetch
        if self.pc >= self.memory.len() {
            self.exception(Fault::InvalidMemoryCell);
            return None;
        }
        let inst = match &self.memory[self.pc] {
            MemoryCell::Instruction(i) => i.clone(),
            _ => {
                self.exception(Fault::InvalidMemoryCell);
                return None;
            },
        };
        // decode
        self.cur_instruction = Some(inst.clone());
        let ghost s1 = self@;
        proof {
            assert(s1 =~= MachineView { cur_instruction: Some(inst@), ..old(self)@ });
            assert(step_view(old(self)@, has_channel) == execute_view(s1, inst@, has_channel));
        }
        // execute
        match inst {
            Instruction::Nop => {
                self.pc = self.pc + 1;
                proof {
                    assert(self@ =~= execute_view(s1, InstructionView::Nop, has_channel));
                }
                None
            },
            Instruction::Push(v) => {
                self.do_push(v);
                None
            },
            Instruction::Pop => {
                self.do_pop();
                None
            },
            Instruction::Add => {
                self.do_arith(BinOp::Add);
                None
            },
            Instruction::Sub => {
                self.do_arith(BinOp::Sub);
                None
            },
            Instruction::Mul => {
                self.do_arith(BinOp::Mul);
                None
            },
            Instruction::Div => {
                self.do_arith(BinOp::Div);
                None
            },
            Instruction::Jmp(v) => {
                self.do_jump(v);
                None
            },
            Instruction::Halt => {
                self.state = MachineState::Halted;
                proof {
                    assert(self@ =~= execute_view(s1, InstructionView::Halt, has_channel));
                }
                None
            },
            Instruction::Out(port, message) => {
                if has_channel {
                    self.pc = self.pc + 1;
                    proof {
                        assert(self@ =~= execute_view(s1, s1.cur_instruction->Some_0, has_channel));
                    }
                    Some((port, message))
                } else {
                    self.exception(Fault::NoChannelConfigured);
                    None
                }
            },
            Instruction::Movi(reg, v) => {
                self.do_movi(reg, v);
                None
            },
            Instruction::Movr(dst, src) => {
                self.do_movr(dst, src);
                None
            },
            Instruction::Dump => {
                // A diagnostic snapshot: observability only, surfaced to
                // the embedding through the getters; no state changes
                // beyond advancing the counter.
                self.pc = self.pc + 1;
                proof {
                    assert(self@ =~= execute_view(s1, InstructionView::Dump, has_channel));
                }
                None
            },
        }
    }

    /// Pushes the instruction's operand onto the operand stack.
    fn do_push(&mut self, v: Value)
        requires
            old(self).wf(),
            old(self)@.pc + 1 <= usize::MAX,
        ensures
            final(self).wf(),
            final(self)@ == execute_view(old(self)@, InstructionView::Push(v@), true),
            final(self)@ == execute_view(old(self)@, InstructionView::Push(v@), false),
    {
        let ghost vv = v@;
        self.stack.push(MemoryCell::Value(v));
        self.pc = self.pc + 1;
        proof {
            assert(self@.stack =~= old(self)@.stack.push(MemoryCellView::Value(vv)));
            assert(self@ =~= execute_view(old(self)@, InstructionView::Push(vv), true));
        }
    }

    /// Discards the top of the operand stack; popping an empty stack is a
    /// no-op, not a fault.
    fn do_pop(&mut self)
        requires
            old(self).wf(),
            old(self)@.pc + 1 <= usize::MAX,
        ensures
            final(self).wf(),
            final(self)@ == execute_view(old(self)@, InstructionView::Pop, true),
            final(self)@ == execute_view(old(self)@, InstructionView::Pop, false),
    {
        self.pc = self.pc + 1;
        let popped = self.stack.pop();
        proof {
            if old(self)@.stack.len() > 0 {
                assert(self@.stack =~= old(self)@.stack.drop_last());
            } else {
                assert(self@.stack =~= old(self)@.stack);
            }
            assert(self@ =~= execute_view(old(self)@, InstructionView::Pop, true));
        }
    }

    /// Jumps unconditionally to the operand's resolved address; executing
    /// an unpatched placeholder is the unresolved-jump fault, and any
    /// non-address operand is a type mismatch.
    fn do_jump(&mut self, v: Value)
        requires
            old(self).wf(),
        ensures
            final(self).wf(),
            final(self)@ == execute_view(old(self)@, InstructionView::Jmp(v@), true),
            final(self)@ == execute_view(old(self)@, InstructionView::Jmp(v@), false),
    {
        match v {
            Value::Address(a) => match a {
                Some(addr) => {
                    self.pc = addr;
                    proof {
                        assert(self@ =~= execute_view(
                            old(self)@,
                            InstructionView::Jmp(ValueView::Address(Some(addr))),
                            true,
                        ));
                    }
                },
                None => self.exception(Fault::UnresolvedJump),
            },
            _ => self.exception(Fault::TypeMismatch),
        }
    }

    /// Stores an immediate value into a register.
    fn do_movi(&mut self, reg: usize, v: Value)
        requires
            old(self).wf(),
            old(self)@.pc + 1 <= usize::MAX,
        ensures
            final(self).wf(),
            final(self)@ == execute_view(old(self)@, InstructionView::Movi(reg, v@), true),
            final(self)@ == execute_view(old(self)@, InstructionView::Movi(reg, v@), false),
    {
        let ghost vv = v@;
        match self.registers.set(reg, v) {
            Ok(_) => {
                self.pc = self.pc + 1;
                proof {
                    assert(self@ =~= execute_view(
                        old(self)@,
                        InstructionView::Movi(reg, vv),
                        true,
                    ));
                }
            },
            Err(f) => {
                self.exception(f);
                proof {
                    assert(self@ =~= execute_view(
                        old(self)@,
                        InstructionView::Movi(reg, vv),
                        true,
                    ));
                }
            },
        }
    }

    /// Copies one register's value into another; reading an empty register
    /// is a type mismatch, an index outside the bank a register fault.
    fn do_movr(&mut self, dst: usize, src: usize)
        requires
            old(self).wf(),
            old(self)@.pc + 1 <= usize::MAX,
        ensures
            final(self).wf(),
            final(self)@ == execute_view(old(self)@, InstructionView::Movr(dst, src), true),
            final(self)@ == execute_view(old(self)@, InstructionView::Movr(dst, src), false),
    {
        match self.registers.get(src) {
            Err(f) => self.exception(f),
            Ok(None) => self.exception(Fault::TypeMismatch),
            Ok(Some(v)) => {
                let ghost vv = v@;
                match self.registers.set(dst, v) {
                    Ok(_) => {
                        self.pc = self.pc + 1;
                        proof {
                            assert(register_of_value(vv) == register_of_value(
                                value_of_register(old(self)@.registers[src as int])->Some_0,
                            ));
                            assert(self@ =~= execute_view(
                                old(self)@,
                                InstructionView::Movr(dst, src),
                                true,
                            ));
                        }
                    },
                    Err(f) => self.exception(f),
                }
            },
        }
    }

    /// One binary arithmetic instruction: pop right then left, require the
    /// same variant on both sides, compute, set the flags from the result,
    /// push the result.  A missing operand is a stack underflow; anything
    /// non-numeric or mixed is a type mismatch; integer overflow and
    /// division by zero are their own faults.
    #[verifier::rlimit(50)]
    fn do_arith(&mut self, op: BinOp)
        requires
            old(self).wf(),
            old(self)@.pc + 1 <= usize::MAX,
        ensures
            final(self).wf(),
            final(self)@ == arith_step(old(self)@, op),
    {
        self.pc = self.pc + 1;
        let right = self.stack.pop();
        let left = self.stack.pop();
        proof {
            if old(self)@.stack.len() >= 2 {
                assert(self@.stack =~= old(self)@.stack.take(
                    old(self)@.stack.len() - 2,
                ));
            }
            if old(self)@.stack.len() == 1 {
                assert(self@.stack =~= Seq::<MemoryCellView>::empty());
            }
        }
        match (left, right) {
            (Some(MemoryCell::Value(lv)), Some(MemoryCell::Value(rv))) => {
                self.arith_values(op, lv, rv);
                proof {
                    assert(self@ =~= arith_step(old(self)@, op));
                }
            },
            (Some(_), Some(_)) => {
                self.exception(Fault::TypeMismatch);
                proof {
                    assert(self@ =~= arith_step(old(self)@, op));
                }
            },
            (_, _) => {
                self.exception(Fault::StackUnderflow);
                proof {
                    assert(self@ =~= arith_step(old(self)@, op));
                }
            },
        }
    }

    /// Computes one arithmetic operation on two already-popped operands
    /// and pushes the result or records the fault.
    fn arith_values(&mut self, op: BinOp, lv: Value, rv: Value)
        requires
            old(self).wf(),
        ensures
            final(self).wf(),
            final(self)@ == match arith_value(op, lv@, rv@) {
                Ok(v) => MachineView {
                    stack: old(self)@.stack.push(MemoryCellView::Value(v)),
                    flags: value_flags(v, old(self)@.flags),
                    ..old(self)@
                },
                Err(f) => fault_state(old(self)@, f),
            },
    {
        match (lv, rv) {
            (Value::I32(a), Value::I32(b)) => self.arith_i32(op, a, b),
            (Value::I64(a), Value::I64(b)) => self.arith_i64(op, a, b),
            (Value::F32(a), Value::F32(b)) => self.arith_f32(op, a, b),
            (Value::F64(a), Value::F64(b)) => self.arith_f64(op, a, b),
            (_, _) => self.exception(Fault::TypeMismatch),
        }
    }

    /// 32-bit integer arithmetic: exact result, overflow and zero-divisor
    /// faults, sign flags from the result.
    fn arith_i32(&mut self, op: BinOp, a: i32, b: i32)
        requires
            old(self).wf(),
        ensures
            final(self).wf(),
            final(self)@ == match arith_value(op, ValueView::I32(a), ValueView::I32(b)) {
                Ok(v) => MachineView {
                    stack: old(self)@.stack.push(MemoryCellView::Value(v)),
                    flags: value_flags(v, old(self)@.flags),
                    ..old(self)@
                },
                Err(f) => fault_state(old(self)@, f),
            },
    {
        let res: Option<i32> = match op {
            BinOp::Add => a.checked_add(b),
            BinOp::Sub => a.checked_sub(b),
            BinOp::Mul => a.checked_mul(b),
            BinOp::Div => {
                if b == 0 {
                    self.exception(Fault::DivisionByZero);
                    return;
                }
                a.checked_div(b)
            },
        };
        match res {
            Some(v) => {
                self.flags.zero = v == 0;
                self.flags.pos = v > 0;
                self.flags.neg = v < 0;
                self.stack.push(MemoryCell::Value(Value::I32(v)));
                proof {
                    assert(self@.stack =~= old(self)@.stack.push(
                        MemoryCellView::Value(ValueView::I32(v)),
                    ));
                }
            },
            None => self.exception(Fault::IntegerOverflow),
        }
    }

    /// 64-bit integer arithmetic: exact result, overflow and zero-divisor
    /// faults, sign flags from the result.
    fn arith_i64(&mut self, op: BinOp, a: i64, b: i64)
        requires
            old(self).wf(),
        ensures
            final(self).wf(),
            final(self)@ == match arith_value(op, ValueView::I64(a), ValueView::I64(b)) {
                Ok(v) => MachineView {
                    stack: old(self)@.stack.push(MemoryCellView::Value(v)),
                    flags: value_flags(v, old(self)@.flags),
                    ..old(self)@
                },
                Err(f) => fault_state(old(self)@, f),
            },
    {
        let res: Option<i64> = match op {
            BinOp::Add => a.checked_add(b),
            BinOp::Sub => a.checked_sub(b),
            BinOp::Mul => a.checked_mul(b),
            BinOp::Div => {
                if b == 0 {
                    self.exception(Fault::DivisionByZero);
                    return;
                }
                a.checked_div(b)
            },
        };
        match res {
            Some(v) => {
                self.flags.zero = v == 0;
                self.flags.pos = v > 0;
                self.flags.neg = v < 0;
                self.stack.push(MemoryCell::Value(Value::I64(v)));
                proof {
                    assert(self@.stack =~= old(self)@.stack.push(
                        MemoryCellView::Value(ValueView::I64(v)),
                    ));
                }
            },
            None => self.exception(Fault::IntegerOverflow),
        }
    }

    /// Single-precision arithmetic on bit patterns; IEEE semantics never
    /// fault, and the flags classify the result bits against zero.
    fn arith_f32(&mut self, op: BinOp, a: u32, b: u32)
        requires
            old(self).wf(),
        ensures
            final(self).wf(),
            final(self)@ == ({
                let v = ValueView::F32(float32_result(op, a, b));
                MachineView {
                    stack: old(self)@.stack.push(MemoryCellView::Value(v)),
                    flags: value_flags(v, old(self)@.flags),
                    ..old(self)@
                }
            }),
    {
        let bits = match op {
            BinOp::Add => f32_add(a, b),
            BinOp::Sub => f32_sub(a, b),
            BinOp::Mul => f32_mul(a, b),
            BinOp::Div => f32_div(a, b),
        };
        let class = f32_sign_class(bits);
        self.flags.zero = class.0;
        self.flags.pos = class.1;
        self.flags.neg = class.2;
        self.stack.push(MemoryCell::Value(Value::F32(bits)));
        proof {
            assert(self@.stack =~= old(self)@.stack.push(
                MemoryCellView::Value(ValueView::F32(bits)),
            ));
        }
    }

    /// Double-precision arithmetic on bit patterns; IEEE semantics never
    /// fault, and the flags classify the result bits against zero.
    fn arith_f64(&mut self, op: BinOp, a: u64, b: u64)
        requires
            old(self).wf(),
        ensures
            final(self).wf(),
            final(self)@ == ({
                let v = ValueView::F64(float64_result(op, a, b));
                MachineView {
                    stack: old(self)@.stack.push(MemoryCellView::Value(v)),
                    flags: value_flags(v, old(self)@.flags),
                    ..old(self)@
                }
            }),
    {
        let bits = match op {
            BinOp::Add => f64_add(a, b),
            BinOp::Sub => f64_sub(a, b),
            BinOp::Mul => f64_mul(a, b),
            BinOp::Div => f64_div(a, b),
        };
        let class = f64_sign_class(bits);
        self.flags.zero = class.0;
        self.flags.pos = class.1;
        self.flags.neg = class.2;
        self.stack.push(MemoryCell::Value(Value::F64(bits)));
        proof {
            assert(self@.stack =~= old(self)@.stack.push(
                MemoryCellView::Value(ValueView::F64(bits)),
            ));
        }
    }

    /// Drives the fetch-decode-execute loop with no channel installed (an
    /// `Out` instruction then faults), until the machine leaves `Running`.
    /// The machine it leaves behind is reachable from the starting one by
    /// iterating [`step_view`], and the program store is untouched.  The
    /// loop carries a step budget of `usize::MAX` instructions so that it
    /// provably makes progress; a program still running after that many
    /// steps is left in its `Running` state.
    pub fn run(&mut self)
        requires
            old(self).wf(),
        ensures
            final(self).wf(),
            exists|n: nat|
                final(self)@ == step_n(old(self)@, n, false) && (final(self)@.state
                    == MachineState::Running ==> n == usize::MAX),
            final(self)@.memory == old(self)@.memory,
    {
        let ghost s0 = self@;
        let mut fuel: usize = usize::MAX;
        while fuel != 0 && matches!(self.state, MachineState::Running)
            invariant
                self.wf(),
                fuel <= usize::MAX,
                self@ == step_n(s0, (usize::MAX - fuel) as nat, false),
            decreases fuel,
        {
            let ghost k = (usize::MAX - fuel) as nat;
            let _ = self.step_inner(false);
            proof {
                assert(self@ == step_n(s0, (k + 1) as nat, false));
            }
            fuel = fuel - 1;
        }
        proof {
            let n = (usize::MAX - fuel) as nat;
            lemma_step_n_preserves_memory(s0, n, false);
            assert(self@ == step_n(s0, n, false) && (final(self)@.state
                == MachineState::Running ==> n == usize::MAX));
        }
    }

    /// Drives the loop with `channel` installed: every `Out` instruction
    /// hands its port and message to the channel's `send`.  The machine's
    /// own state evolves exactly as [`step_view`] with a channel present,
    /// under the same step budget as [`Self::run`].  What reaches the
    /// channel is fixed too: its contents grow by exactly the port and
    /// payload of every `Out` instruction executed, in execution order.
    pub fn run_with<C: MessageHandler>(&mut self, channel: &mut C)
        requires
            old(self).wf(),
        ensures
            final(self).wf(),
            exists|n: nat|
                final(self)@ == #[trigger] step_n(old(self)@, n, true)
                    && final(channel).contents() == old(channel).contents() + emitted_n(
                    old(self)@,
                    n,
                ) && (final(self)@.state == MachineState::Running ==> n == usize::MAX),
            final(self)@.memory == old(self)@.memory,
    {
        let ghost s0 = self@;
        let ghost c0 = channel.contents();
        let mut fuel: usize = usize::MAX;
        proof {
            assert(channel.contents() =~= c0 + emitted_n(s0, 0));
        }
        while fuel != 0 && matches!(self.state, MachineState::Running)
            invariant
                self.wf(),
                fuel <= usize::MAX,
                self@ == step_n(s0, (usize::MAX - fuel) as nat, true),
                channel.contents() == c0 + emitted_n(s0, (usize::MAX - fuel) as nat),
            decreases fuel,
        {
            let ghost k = (usize::MAX - fuel) as nat;
            let send = self.step_inner(true);
            proof {
                assert(self@ == step_n(s0, (k + 1) as nat, true));
            }
            match send {
                Some((port, message)) => {
                    let ghost mv = message@;
                    channel.send(port, message);
                    proof {
                        assert(out_message(step_n(s0, k, true)) == Some((port, mv)));
                        assert(channel.contents() =~= c0 + emitted_n(s0, (k + 1) as nat));
                    }
                },
                None => {
                    proof {
                        assert(out_message(step_n(s0, k, true)) is None);
                        assert(emitted_n(s0, (k + 1) as nat) =~= emitted_n(s0, k));
                    }
                },
            }
            fuel = fuel - 1;
        }
        proof {
            let n = (usize::MAX - fuel) as nat;
            lemma_step_n_preserves_memory(s0, n, true);
            assert(self@ == step_n(s0, n, true) && channel.contents() == c0 + emitted_n(s0, n)
                && (final(self)@.state == MachineState::Running ==> n == usize::MAX));
        }
    }
}


/// The instruction that performs a given arithmetic operation.
pub open spec fn op_instruction(op: BinOp) -> InstructionView {
    match op {
        BinOp::Add => InstructionView::Add,
        BinOp::Sub => InstructionView::Sub,
        BinOp::Mul => InstructionView::Mul,
        BinOp::Div => InstructionView::Div,
    }
}

/// The mathematically exact result of an operation on integers; division
/// truncates toward zero, as the machine's integer types do.
pub open spec fn exact_int(op: BinOp, a: int, b: int) -> int {
    match op {
        BinOp::Add => a + b,
        BinOp::Sub => a - b,
        BinOp::Mul => a * b,
        BinOp::Div => trunc_div(a, b),
    }
}

/// Arithmetic law, 32-bit operands: executing an arithmetic instruction on
/// a running machine whose stack ends with two `I32` operands (the one
/// pushed last is the right-hand side) replaces them by the exact result
/// and signs the flags by the result's ordering against zero — provided
/// the result fits the type and a division has a non-zero divisor.
pub proof fn lemma_arith_correct_i32(s: MachineView, op: BinOp, a: i32, b: i32, hc: bool)
    requires
        s.state == MachineState::Running,
        0 <= s.pc < s.memory.len(),
        s.memory[s.pc] == MemoryCellView::Instruction(op_instruction(op)),
        s.stack.len() >= 2,
        s.stack[s.stack.len() - 2] == MemoryCellView::Value(ValueView::I32(a)),
        s.stack[s.stack.len() - 1] == MemoryCellView::Value(ValueView::I32(b)),
        op is Div ==> b != 0,
        i32::MIN <= exact_int(op, a as int, b as int) <= i32::MAX,
    ensures
        ({
            let r = exact_int(op, a as int, b as int);
            let s2 = step_view(s, hc);
            &&& s2.state == MachineState::Running
            &&& s2.fault == s.fault
            &&& s2.pc == s.pc + 1
            &&& s2.stack == s.stack.take(s.stack.len() - 2).push(
                MemoryCellView::Value(ValueView::I32(r as i32)),
            )
            &&& s2.flags.zero == (r == 0)
            &&& s2.flags.pos == (r > 0)
            &&& s2.flags.neg == (r < 0)
            &&& s2.memory == s.memory
            &&& s2.registers == s.registers
        }),
{
    let r = exact_int(op, a as int, b as int);
    assert(int_result(op, a as int, b as int, i32::MIN as int, i32::MAX as int) == Ok::<
        int,
        Fault,
    >(r));
    assert(arith_value(op, ValueView::I32(a), ValueView::I32(b)) == Ok::<ValueView, Fault>(
        ValueView::I32(r as i32),
    ));
}

/// Arithmetic law, 64-bit operands: as [`lemma_arith_correct_i32`], for
/// `I64`.
pub proof fn lemma_arith_correct_i64(s: MachineView, op: BinOp, a: i64, b: i64, hc: bool)
    requires
        s.state == MachineState::Running,
        0 <= s.pc < s.memory.len(),
        s.memory[s.pc] == MemoryCellView::Instruction(op_instruction(op)),
        s.stack.len() >= 2,
        s.stack[s.stack.len() - 2] == MemoryCellView::Value(ValueView::I64(a)),
        s.stack[s.stack.len() - 1] == MemoryCellView::Value(ValueView::I64(b)),
        op is Div ==> b != 0,
        i64::MIN <= exact_int(op, a as int, b as int) <= i64::MAX,
    ensures
        ({
            let r = exact_int(op, a as int, b as int);
            let s2 = step_view(s, hc);
            &&& s2.state == MachineState::Running
            &&& s2.fault == s.fault
            &&& s2.pc == s.pc + 1
            &&& s2.stack == s.stack.take(s.stack.len() - 2).push(
                MemoryCellView::Value(ValueView::I64(r as i64)),
            )
            &&& s2.flags.zero == (r == 0)
            &&& s2.flags.pos == (r > 0)
            &&& s2.flags.neg == (r < 0)
            &&& s2.memory == s.memory
            &&& s2.registers == s.registers
        }),
{
    let r = exact_int(op, a as int, b as int);
    assert(int_result(op, a as int, b as int, i64::MIN as int, i64::MAX as int) == Ok::<
        int,
        Fault,
    >(r));
    assert(arith_value(op, ValueView::I64(a), ValueView::I64(b)) == Ok::<ValueView, Fault>(
        ValueView::I64(r as i64),
    ));
}

/// Arithmetic law, double-precision operands: the result pushed is the
/// IEEE operation on the operand bit patterns, and the flags classify the
/// result bits against zero (all three cleared for a NaN).  Floating
/// arithmetic never faults.
pub proof fn lemma_arith_correct_f64(s: MachineView, op: BinOp, a: u64, b: u64, hc: bool)
    requires
        s.state == MachineState::Running,
        0 <= s.pc < s.memory.len(),
        s.memory[s.pc] == MemoryCellView::Instruction(op_instruction(op)),
        s.stack.len() >= 2,
        s.stack[s.stack.len() - 2] == MemoryCellView::Value(ValueView::F64(a)),
        s.stack[s.stack.len() - 1] == MemoryCellView::Value(ValueView::F64(b)),
    ensures
        ({
            let r = float64_result(op, a, b);
            let s2 = step_view(s, hc);
            &&& s2.state == MachineState::Running
            &&& s2.fault == s.fault
            &&& s2.pc == s.pc + 1
            &&& s2.stack == s.stack.take(s.stack.len() - 2).push(
                MemoryCellView::Value(ValueView::F64(r)),
            )
            &&& s2.flags.zero == f64_is_zero(r)
            &&& s2.flags.pos == f64_is_pos(r)
            &&& s2.flags.neg == f64_is_neg(r)
            &&& s2.memory == s.memory
        }),
{
}

/// Arithmetic law, single-precision operands: as
/// [`lemma_arith_correct_f64`], for `F32`.
pub proof fn lemma_arith_correct_f32(s: MachineView, op: BinOp, a: u32, b: u32, hc: bool)
    requires
        s.state == MachineState::Running,
        0 <= s.pc < s.memory.len(),
        s.memory[s.pc] == MemoryCellView::Instruction(op_instruction(op)),
        s.stack.len() >= 2,
        s.stack[s.stack.len() - 2] == MemoryCellView::Value(ValueView::F32(a)),
        s.stack[s.stack.len() - 1] == MemoryCellView::Value(ValueView::F32(b)),
    ensures
        ({
            let r = float32_result(op, a, b);
            let s2 = step_view(s, hc);
            &&& s2.state == MachineState::Running
            &&& s2.fault == s.fault
            &&& s2.pc == s.pc + 1
            &&& s2.stack == s.stack.take(s.stack.len() - 2).push(
                MemoryCellView::Value(ValueView::F32(r)),
            )
            &&& s2.flags.zero == f32_is_zero(r)
            &&& s2.flags.pos == f32_is_pos(r)
            &&& s2.flags.neg == f32_is_neg(r)
            &&& s2.memory == s.memory
        }),
{
}

/// Mixed-variant law: arithmetic on two operands of different variants
/// always faults with a type mismatch and never coerces — whatever the
/// operation and whatever the two variants.
pub proof fn lemma_arith_mixed_faults(s: MachineView, op: BinOp, l: ValueView, r: ValueView, hc: bool)
    requires
        s.state == MachineState::Running,
        0 <= s.pc < s.memory.len(),
        s.memory[s.pc] == MemoryCellView::Instruction(op_instruction(op)),
        s.stack.len() >= 2,
        s.stack[s.stack.len() - 2] == MemoryCellView::Value(l),
        s.stack[s.stack.len() - 1] == MemoryCellView::Value(r),
        !crate::value::same_variant(l, r),
    ensures
        ({
            let s2 = step_view(s, hc);
            &&& s2.state == MachineState::Halted
            &&& s2.fault == Some(Fault::TypeMismatch)
            &&& s2.stack == s.stack.take(s.stack.len() - 2)
            &&& s2.memory == s.memory
        }),
{
    assert(arith_value(op, l, r) == Err::<ValueView, Fault>(Fault::TypeMismatch));
}

/// Division-fault law: integer division whose right-hand operand is the
/// variant's zero value is reported as the division fault, never a wrong
/// result.  (Floating division follows IEEE semantics instead and yields
/// an infinity or NaN; see [`lemma_arith_correct_f64`].)
pub proof fn lemma_integer_div_by_zero_faults(s: MachineView, l: ValueView, r: ValueView, hc: bool)
    requires
        s.state == MachineState::Running,
        0 <= s.pc < s.memory.len(),
        s.memory[s.pc] == MemoryCellView::Instruction(InstructionView::Div),
        s.stack.len() >= 2,
        s.stack[s.stack.len() - 2] == MemoryCellView::Value(l),
        s.stack[s.stack.len() - 1] == MemoryCellView::Value(r),
        (l is I32 && r == ValueView::I32(0)) || (l is I64 && r == ValueView::I64(0)),
    ensures
        ({
            let s2 = step_view(s, hc);
            &&& s2.state == MachineState::Halted
            &&& s2.fault == Some(Fault::DivisionByZero)
            &&& s2.stack == s.stack.take(s.stack.len() - 2)
            &&& s2.memory == s.memory
        }),
{
    assert(arith_value(BinOp::Div, l, r) == Err::<ValueView, Fault>(Fault::DivisionByZero));
}

/// Jump law: a resolved jump sets the program counter to exactly its
/// target address — no fall-through, no other state change — and the
/// machine keeps running.
pub proof fn lemma_jump_lands(s: MachineView, addr: usize, hc: bool)
    requires
        s.state == MachineState::Running,
        0 <= s.pc < s.memory.len(),
        s.memory[s.pc] == MemoryCellView::Instruction(
            InstructionView::Jmp(ValueView::Address(Some(addr))),
        ),
    ensures
        ({
            let s2 = step_view(s, hc);
            &&& s2.state == MachineState::Running
            &&& s2.fault == s.fault
            &&& s2.pc == addr as int
            &&& s2.stack == s.stack
            &&& s2.memory == s.memory
            &&& s2.registers == s.registers
            &&& s2.flags == s.flags
        }),
{
}

/// Unresolved-jump law: executing a jump whose address was never patched
/// halts the machine with the unresolved-jump fault.
pub proof fn lemma_unresolved_jump_faults(s: MachineView, hc: bool)
    requires
        s.state == MachineState::Running,
        0 <= s.pc < s.memory.len(),
        s.memory[s.pc] == MemoryCellView::Instruction(
            InstructionView::Jmp(ValueView::Address(None)),
        ),
    ensures
        ({
            let s2 = step_view(s, hc);
            &&& s2.state == MachineState::Halted
            &&& s2.fault == Some(Fault::UnresolvedJump)
            &&& s2.stack == s.stack
            &&& s2.memory == s.memory
        }),
{
}

} // verus!
