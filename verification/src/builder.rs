//! The assembler: two-pass label resolution over a growing program store.
//!
//! Pass one is the linear emission of instructions through the fluent
//! methods; pass two is [`VMBuilder::build`]'s patch sweep, which resolves
//! every recorded forward reference against the symbol table.  Execution
//! is refused until that sweep has happened.

use vstd::prelude::*;

use crate::channel::MessageHandler;
use crate::instr::{cells_view, Instruction, InstructionView, MemoryCell, MemoryCellView};
use crate::value::{Message, Value, ValueView};
use crate::flags::Flags;
use crate::registers::{RegisterView, REGISTER_COUNT};
use crate::vm::{emitted_n, machine_wf, reset_view, step_n, MachineState, MachineView, RustyVM};

verus! {

/// One forward reference that `build()` could not resolve: the label was
/// never defined, or the recorded cell is not a jump.
pub struct ResolutionFailure {
    pub label: String,
    pub address: usize,
}

impl View for ResolutionFailure {
    type V = (Seq<char>, usize);

    open spec fn view(&self) -> (Seq<char>, usize) {
        (self.label@, self.address)
    }
}

/// The shape of a whole table of (name, address) pairs.
pub open spec fn table_view(s: Seq<(String, usize)>) -> Seq<(Seq<char>, usize)> {
    s.map_values(|p: (String, usize)| (p.0@, p.1))
}

/// The shape of a list of resolution failures.
pub open spec fn failures_view(s: Seq<ResolutionFailure>) -> Seq<(Seq<char>, usize)> {
    s.map_values(|f: ResolutionFailure| f@)
}

/// What a name resolves to in a symbol table: the binding added last wins,
/// so re-binding a label overwrites the earlier address.
pub open spec fn sym_lookup(t: Seq<(Seq<char>, usize)>, name: Seq<char>) -> Option<usize>
    decreases t.len(),
{
    if t.len() == 0 {
        None
    } else if t.last().0 == name {
        Some(t.last().1)
    } else {
        sym_lookup(t.drop_last(), name)
    }
}

/// The abstract state of the assembler; [`VMBuilder`] views to this.
#[verifier::ext_equal]
pub struct BuilderView {
    pub vm: MachineView,
    pub pc: int,
    pub symbols: Seq<(Seq<char>, usize)>,
    pub unresolved: Seq<(Seq<char>, usize)>,
    pub failures: Seq<(Seq<char>, usize)>,
    pub built: bool,
}

/// The unresolved placeholder a forward jump leaves in the store.
pub open spec fn jmp_placeholder() -> MemoryCellView {
    MemoryCellView::Instruction(InstructionView::Jmp(ValueView::Address(None)))
}

/// The recorded forward references point at distinct store cells that
/// still hold the unresolved placeholder.
pub open spec fn entries_wf(m: Seq<MemoryCellView>, entries: Seq<(Seq<char>, usize)>) -> bool {
    &&& forall|i: int|
        0 <= i < entries.len() ==> (#[trigger] entries[i]).1 < m.len()
            && m[entries[i].1 as int] == jmp_placeholder()
    &&& forall|i: int, j: int|
        0 <= i < j < entries.len() ==> (#[trigger] entries[i]).1 != (#[trigger] entries[j]).1
}

/// The well-formedness the builder maintains: the program counter counts
/// the cells emitted so far, and every recorded forward reference points
/// at a distinct store cell that still holds the unresolved placeholder.
pub open spec fn builder_wf(b: BuilderView) -> bool {
    &&& b.pc == b.vm.memory.len()
    &&& b.vm.memory.len() <= usize::MAX
    &&& entries_wf(b.vm.memory, b.unresolved)
}

/// Appending one instruction: the store grows by one cell and the counter
/// advances by exactly one; nothing else moves.
pub open spec fn emit_view(b: BuilderView, inst: InstructionView) -> BuilderView {
    BuilderView {
        vm: MachineView {
            memory: b.vm.memory.push(MemoryCellView::Instruction(inst)),
            ..b.vm
        },
        pc: b.pc + 1,
        ..b
    }
}

/// What `jump` emits: a resolved jump when the label is already bound, an
/// unresolved placeholder plus a recorded forward reference otherwise.
pub open spec fn jump_view(b: BuilderView, name: Seq<char>) -> BuilderView {
    match sym_lookup(b.symbols, name) {
        Some(addr) => emit_view(
            b,
            InstructionView::Jmp(ValueView::Address(Some(addr))),
        ),
        None => BuilderView {
            unresolved: b.unresolved.push((name, b.pc as usize)),
            ..emit_view(b, InstructionView::Jmp(ValueView::Address(None)))
        },
    }
}

/// The patch sweep over the pending forward references, in recording
/// order.  For each entry whose label now resolves and whose cell is
/// indeed a jump, the cell is patched in place; every other entry is
/// reported as a resolution failure and stays pending.  Returns the
/// patched store and the entries that could not be resolved.
pub open spec fn sweep(
    m: Seq<MemoryCellView>,
    syms: Seq<(Seq<char>, usize)>,
    entries: Seq<(Seq<char>, usize)>,
) -> (Seq<MemoryCellView>, Seq<(Seq<char>, usize)>)
    decreases entries.len(),
{
    if entries.len() == 0 {
        (m, Seq::empty())
    } else {
        let e = entries[0];
        let rest = entries.drop_first();
        match sym_lookup(syms, e.0) {
            Some(addr) => {
                if e.1 < m.len() && (m[e.1 as int] matches MemoryCellView::Instruction(
                    InstructionView::Jmp(_),
                )) {
                    let patched = m.update(
                        e.1 as int,
                        MemoryCellView::Instruction(
                            InstructionView::Jmp(ValueView::Address(Some(addr))),
                        ),
                    );
                    sweep(patched, syms, rest)
                } else {
                    let t = sweep(m, syms, rest);
                    (t.0, seq![e] + t.1)
                }
            },
            None => {
                let t = sweep(m, syms, rest);
                (t.0, seq![e] + t.1)
            },
        }
    }
}

/// What `build` does: run the sweep, keep what is still pending, report
/// each unresolved entry as a failure, and mark the builder built
/// (irreversibly for the session).
pub open spec fn build_view(b: BuilderView) -> BuilderView {
    let t = sweep(b.vm.memory, b.symbols, b.unresolved);
    BuilderView {
        vm: MachineView { memory: t.0, ..b.vm },
        unresolved: t.1,
        failures: b.failures + t.1,
        built: true,
        ..b
    }
}

/// The assembler.  All emission methods return the builder again, so a
/// whole program can be assembled in one fluent chain.
pub struct VMBuilder {
    vm: RustyVM,
    pc: usize,
    symbol_table: Vec<(String, usize)>,
    unresolved_label_refs: Vec<(String, usize)>,
    resolution_failures: Vec<ResolutionFailure>,
    built: bool,
}

impl View for VMBuilder {
    type V = BuilderView;

    closed spec fn view(&self) -> BuilderView {
        BuilderView {
            vm: self.vm@,
            pc: self.pc as int,
            symbols: table_view(self.symbol_table@),
            unresolved: table_view(self.unresolved_label_refs@),
            failures: failures_view(self.resolution_failures@),
            built: self.built,
        }
    }
}

impl VMBuilder {
    pub open spec fn wf(&self) -> bool {
        builder_wf(self@) && machine_wf(self@.vm)
    }

    /// A fresh assembly session: empty store, empty tables, not built, and
    /// the engine in its fresh state — counter at zero, idle, empty stack,
    /// empty registers, cleared flags, no fault, no current instruction.
    pub fn new() -> (r: VMBuilder)
        ensures
            r.wf(),
            r@.pc == 0,
            r@.vm.pc == 0,
            r@.vm.memory == Seq::<MemoryCellView>::empty(),
            r@.vm.state == MachineState::Idle,
            r@.vm.stack == Seq::<MemoryCellView>::empty(),
            r@.vm.registers == Seq::new(REGISTER_COUNT as nat, |i: int| RegisterView::Empty),
            r@.vm.flags == Flags::clear(),
            (r@.vm.cur_instruction is None),
            (r@.vm.fault is None),
            r@.symbols == Seq::<(Seq<char>, usize)>::empty(),
            r@.unresolved == Seq::<(Seq<char>, usize)>::empty(),
            r@.failures == Seq::<(Seq<char>, usize)>::empty(),
            !r@.built,
    {
        let r = VMBuilder {
            vm: RustyVM::new(),
            pc: 0,
            symbol_table: Vec::new(),
            unresolved_label_refs: Vec::new(),
            resolution_failures: Vec::new(),
            built: false,
        };
        proof {
            assert(r@.symbols =~= Seq::<(Seq<char>, usize)>::empty());
            assert(r@.unresolved =~= Seq::<(Seq<char>, usize)>::empty());
            assert(r@.failures =~= Seq::<(Seq<char>, usize)>::empty());
        }
        r
    }

    /// Appends one instruction cell and advances the program counter.
    fn emit(&mut self, inst: Instruction)
        requires
            old(self).wf(),
        ensures
            final(self).wf(),
            final(self)@ == emit_view(old(self)@, inst@),
    {
        let ghost iv = inst@;
        self.vm.push(MemoryCell::Instruction(inst));
        self.pc = self.pc + 1;
        proof {
            assert(self@ =~= emit_view(old(self)@, iv));
            assert forall|i: int| 0 <= i < self@.unresolved.len() implies (
            #[trigger] self@.unresolved[i]).1 < self@.vm.memory.len()
                && self@.vm.memory[self@.unresolved[i].1 as int] == jmp_placeholder() by {
                assert(old(self)@.unresolved[i].1 < old(self)@.vm.memory.len());
            }
        }
    }

    /// Appends a `Nop`.
    pub fn nop(&mut self) -> (r: &mut Self)
        requires
            old(self).wf(),
        ensures
            r.wf(),
            r@ == emit_view(old(self)@, InstructionView::Nop),
            *final(self) == *final(r),
    {
        self.emit(Instruction::Nop);
        self
    }

    /// Appends a `Push` of the given value.
    pub fn push(&mut self, val: Value) -> (r: &mut Self)
        requires
            old(self).wf(),
        ensures
            r.wf(),
            r@ == emit_view(old(self)@, InstructionView::Push(val@)),
            *final(self) == *final(r),
    {
        self.emit(Instruction::Push(val));
        self
    }

    /// Appends a `Pop`.
    pub fn pop(&mut self) -> (r: &mut Self)
        requires
            old(self).wf(),
        ensures
            r.wf(),
            r@ == emit_view(old(self)@, InstructionView::Pop),
            *final(self) == *final(r),
    {
        self.emit(Instruction::Pop);
        self
    }

    /// Appends an `Add`.
    pub fn add(&mut self) -> (r: &mut Self)
        requires
            old(self).wf(),
        ensures
            r.wf(),
            r@ == emit_view(old(self)@, InstructionView::Add),
            *final(self) == *final(r),
    {
        self.emit(Instruction::Add);
        self
    }

    /// Appends a `Sub`.
    pub fn sub(&mut self) -> (r: &mut Self)
        requires
            old(self).wf(),
        ensures
            r.wf(),
            r@ == emit_view(old(self)@, InstructionView::Sub),
            *final(self) == *final(r),
    {
        self.emit(Instruction::Sub);
        self
    }

    /// Appends a `Mul`.
    pub fn mul(&mut self) -> (r: &mut Self)
        requires
            old(self).wf(),
        ensures
            r.wf(),
            r@ == emit_view(old(self)@, InstructionView::Mul),
            *final(self) == *final(r),
    {
        self.emit(Instruction::Mul);
        self
    }

    /// Appends a `Div`.
    pub fn div(&mut self) -> (r: &mut Self)
        requires
            old(self).wf(),
        ensures
            r.wf(),
            r@ == emit_view(old(self)@, InstructionView::Div),
            *final(self) == *final(r),
    {
        self.emit(Instruction::Div);
        self
    }

    /// Appends a `Halt`.
    pub fn halt(&mut self) -> (r: &mut Self)
        requires
            old(self).wf(),
        ensures
            r.wf(),
            r@ == emit_view(old(self)@, InstructionView::Halt),
            *final(self) == *final(r),
    {
        self.emit(Instruction::Halt);
        self
    }

    /// Appends a `Dump`.
    pub fn dump(&mut self) -> (r: &mut Self)
        requires
            old(self).wf(),
        ensures
            r.wf(),
            r@ == emit_view(old(self)@, InstructionView::Dump),
            *final(self) == *final(r),
    {
        self.emit(Instruction::Dump);
        self
    }

    /// Appends a `Movi`: store an immediate into a register.  Register
    /// index validity is checked only at execution time.
    pub fn movi(&mut self, reg: usize, val: Value) -> (r: &mut Self)
        requires
            old(self).wf(),
        ensures
            r.wf(),
            r@ == emit_view(old(self)@, InstructionView::Movi(reg, val@)),
            *final(self) == *final(r),
    {
        self.emit(Instruction::Movi(reg, val));
        self
    }

    /// Appends a `Movr`: copy one register into another.  Register index
    /// validity is checked only at execution time.
    pub fn movr(&mut self, reg1: usize, reg2: usize) -> (r: &mut Self)
        requires
            old(self).wf(),
        ensures
            r.wf(),
            r@ == emit_view(old(self)@, InstructionView::Movr(reg1, reg2)),
            *final(self) == *final(r),
    {
        self.emit(Instruction::Movr(reg1, reg2));
        self
    }

    /// Appends an `Out`: emit a message on a port at execution time.
    pub fn out(&mut self, port: usize, message: Message) -> (r: &mut Self)
        requires
            old(self).wf(),
        ensures
            r.wf(),
            r@ == emit_view(old(self)@, InstructionView::Out(port, message@)),
            *final(self) == *final(r),
    {
        self.emit(Instruction::Out(port, message));
        self
    }

    /// Binds `label` to the current program counter — the address the next
    /// emitted instruction will occupy.  Re-binding an existing label
    /// overwrites it: the binding added last wins.
    pub fn label(&mut self, label: &str) -> (r: &mut Self)
        requires
            old(self).wf(),
        ensures
            r.wf(),
            r@ == (BuilderView {
                symbols: old(self)@.symbols.push((label@, old(self)@.pc as usize)),
                ..old(self)@
            }),
            *final(self) == *final(r),
    {
        let ghost l = label@;
        self.symbol_table.push((label.to_owned(), self.pc));
        proof {
            assert(self@.symbols =~= old(self)@.symbols.push((l, old(self)@.pc as usize)));
            assert(self@ =~= (BuilderView {
                symbols: old(self)@.symbols.push((l, old(self)@.pc as usize)),
                ..old(self)@
            }));
        }
        self
    }

    /// Looks a label up in the symbol table; the binding added last wins.
    fn lookup(&self, name: &String) -> (r: Option<usize>)
        ensures
            r == sym_lookup(self@.symbols, name@),
    {
        let ghost t = self@.symbols;
        let mut i: usize = self.symbol_table.len();
        proof {
            assert(t.take(i as int) =~= t);
        }
        while i > 0
            invariant
                i <= self.symbol_table@.len(),
                t == self@.symbols,
                self.symbol_table@.len() == t.len(),
                sym_lookup(t, name@) == sym_lookup(t.take(i as int), name@),
            decreases i,
        {
            i = i - 1;
            assert(t[i as int] == (self.symbol_table@[i as int].0@, self.symbol_table@[i as int].1));
            proof {
                assert(t.take(i as int + 1).last() == t[i as int]);
                assert(t.take(i as int + 1).drop_last() =~= t.take(i as int));
            }
            if self.symbol_table[i].0 == *name {
                return Some(self.symbol_table[i].1);
            }
        }
        proof {
            assert(t.take(0) =~= Seq::<(Seq<char>, usize)>::empty());
        }
        None
    }

    /// Appends a jump to `label`.  If the label is already bound, the jump
    /// is emitted fully resolved; otherwise an unresolved placeholder is
    /// emitted and the reference is recorded for `build`'s sweep.
    pub fn jump(&mut self, label: &str) -> (r: &mut Self)
        requires
            old(self).wf(),
        ensures
            r.wf(),
            r@ == jump_view(old(self)@, label@),
            *final(self) == *final(r),
    {
        let key = label.to_owned();
        match self.lookup(&key) {
            Some(addr) => {
                self.emit(Instruction::Jmp(Value::Address(Some(addr))));
            },
            None => {
                let ghost b0 = self@;
                let at = self.pc;
                self.emit(Instruction::Jmp(Value::Address(None)));
                self.unresolved_label_refs.push((key, at));
                proof {
                    assert(self@.unresolved =~= emit_view(b0, InstructionView::Jmp(
                        ValueView::Address(None),
                    )).unresolved.push((label@, at)));
                    assert(self@ =~= jump_view(b0, label@));
                    assert(builder_wf(self@)) by {
                        assert(forall|i: int|
                            0 <= i < b0.unresolved.len() ==> (#[trigger] self@.unresolved[i])
                                == b0.unresolved[i]);
                        assert(self@.unresolved[b0.unresolved.len() as int].1 == at);
                        assert(self@.vm.memory[at as int] == jmp_placeholder());
                    }
                }
            },
        }
        self
    }

    /// The patch sweep (pass two): for every recorded forward reference,
    /// look its label up; if it now resolves and the recorded cell is
    /// indeed a jump, patch the placeholder in place with the resolved
    /// address.  Entries that still fail are reported — best-effort, one
    /// failure does not abort the rest of the sweep — and stay pending.
    /// Marks the builder as built.
    pub fn build(&mut self) -> (r: &mut Self)
        requires
            old(self).wf(),
        ensures
            r.wf(),
            r@ == build_view(old(self)@),
            *final(self) == *final(r),
    {
        self.built = true;
        let ghost b0 = old(self)@;
        let ghost syms = b0.symbols;
        let ghost m0 = b0.vm.memory;
        let ghost entries = b0.unresolved;
        let ghost n = entries.len();
        let mut remaining: Vec<(String, usize)> = Vec::new();
        let mut i: usize = 0;
        proof {
            assert(entries.skip(0) =~= entries);
            assert(table_view(remaining@) =~= Seq::<(Seq<char>, usize)>::empty());
            assert(table_view(remaining@) + sweep(m0, syms, entries).1 =~= sweep(
                m0,
                syms,
                entries,
            ).1);
            assert(self@.failures + sweep(m0, syms, entries).1 =~= b0.failures + sweep(
                m0,
                syms,
                entries,
            ).1);
        }
        while i < self.unresolved_label_refs.len()
            invariant
                i <= n,
                n == entries.len(),
                self@.unresolved == entries,
                self.unresolved_label_refs@.len() == n,
                self@.symbols == syms,
                self@.pc == b0.pc,
                self@.built,
                machine_wf(self@.vm),
                self@.vm == (MachineView { memory: self@.vm.memory, ..b0.vm }),
                self@.vm.memory.len() == m0.len(),
                b0.pc == m0.len() <= usize::MAX,
                forall|a: int, b: int|
                    0 <= a < b < n ==> (#[trigger] entries[a]).1 != (#[trigger] entries[b]).1,
                forall|k: int|
                    i <= k < n ==> (#[trigger] entries[k]).1 < m0.len()
                        && self@.vm.memory[entries[k].1 as int] == jmp_placeholder(),
                sweep(m0, syms, entries).0 == sweep(self@.vm.memory, syms, entries.skip(i as int)).0,
                sweep(m0, syms, entries).1 == table_view(remaining@) + sweep(
                    self@.vm.memory,
                    syms,
                    entries.skip(i as int),
                ).1,
                self@.failures == b0.failures + table_view(remaining@),
                forall|j: int|
                    0 <= j < remaining@.len() ==> (#[trigger] table_view(remaining@)[j]).1
                        < m0.len() && self@.vm.memory[table_view(remaining@)[j].1 as int]
                        == jmp_placeholder(),
                forall|j: int, k: int|
                    0 <= j < remaining@.len() && i <= k < n ==> (#[trigger] table_view(
                        remaining@,
                    )[j]).1 != (#[trigger] entries[k]).1,
                forall|j1: int, j2: int|
                    0 <= j1 < j2 < remaining@.len() ==> (#[trigger] table_view(remaining@)[j1]).1
                        != (#[trigger] table_view(remaining@)[j2]).1,
            decreases n - i,
        {
            let ghost mem_i = self@.vm.memory;
            let ghost tail = entries.skip(i as int);
            proof {
                assert(tail[0] == entries[i as int]);
                assert(tail.drop_first() =~= entries.skip(i as int + 1));
            }
            let name = self.unresolved_label_refs[i].0.clone();
            let at = self.unresolved_label_refs[i].1;
            proof {
                assert((name@, at) == entries[i as int]);
            }
            match self.lookup(&name) {
                Some(addr) => {
                    let cell = self.vm.get_instruction(at);
                    match cell {
                        MemoryCell::Instruction(inner) => match inner {
                            Instruction::Jmp(_) => {
                                self.vm.set_instruction(
                                    MemoryCell::Instruction(
                                        Instruction::Jmp(Value::Address(Some(addr))),
                                    ),
                                    at,
                                );
                                proof {
                                    assert(self@.vm.memory =~= mem_i.update(
                                        at as int,
                                        MemoryCellView::Instruction(
                                            InstructionView::Jmp(ValueView::Address(Some(addr))),
                                        ),
                                    ));
                                    assert(sweep(mem_i, syms, tail).0 == sweep(
                                        self@.vm.memory,
                                        syms,
                                        entries.skip(i as int + 1),
                                    ).0);
                                }
                            },
                            // Defensive check against builder misuse: a
                            // recorded cell that is no longer a jump is
                            // reported, not patched.  The builder's
                            // invariant proves the arm unreachable.
                            _ => {
                                self.resolution_failures.push(
                                    ResolutionFailure { label: name.clone(), address: at },
                                );
                                remaining.push((name, at));
                                proof {
                                    assert(false);
                                }
                            },
                        },
                        // As above: a non-instruction cell at a recorded
                        // index is reported, never patched; the invariant
                        // proves the arm unreachable.
                        _ => {
                            self.resolution_failures.push(
                                ResolutionFailure { label: name.clone(), address: at },
                            );
                            remaining.push((name, at));
                            proof {
                                assert(false);
                            }
                        },
                    }
                },
                None => {
                    let ghost rem0 = remaining@;
                    let ghost fails0 = self@.failures;
                    self.resolution_failures.push(
                        ResolutionFailure { label: name.clone(), address: at },
                    );
                    remaining.push((name, at));
                    proof {
                        assert(table_view(remaining@) =~= table_view(rem0).push((name@, at)));
                        assert(self@.failures =~= fails0.push((name@, at)));
                        assert(sweep(mem_i, syms, tail).1 == seq![entries[i as int]] + sweep(
                            mem_i,
                            syms,
                            entries.skip(i as int + 1),
                        ).1);
                        assert(table_view(rem0) + sweep(mem_i, syms, tail).1 =~= table_view(
                            remaining@,
                        ) + sweep(mem_i, syms, entries.skip(i as int + 1)).1);
                        assert(self@.failures =~= b0.failures + table_view(remaining@));
                    }
                },
            }
            i = i + 1;
        }
        proof {
            assert(entries.skip(n as int) =~= Seq::<(Seq<char>, usize)>::empty());
            assert(sweep(m0, syms, entries).1 =~= table_view(remaining@));
        }
        self.unresolved_label_refs = remaining;
        proof {
            assert(self@ =~= build_view(b0));
        }
        self
    }

    /// The resolution failures that `build` has reported so far, one per
    /// forward reference it could not resolve.
    pub fn resolution_failures(&self) -> (r: &Vec<ResolutionFailure>)
        ensures
            failures_view(r@) == self@.failures,
    {
        &self.resolution_failures
    }

    /// The assembled engine, for read-back of its state.
    pub fn machine(&self) -> (r: &RustyVM)
        ensures
            r@ == self@.vm,
    {
        &self.vm
    }

    /// The engine's final stack contents, for embedding and tests.
    pub fn results(&self) -> (r: Vec<MemoryCell>)
        ensures
            cells_view(r@) == self@.vm.stack,
    {
        self.vm.get_stack()
    }

    /// Resets the engine and drives it to completion with no channel
    /// installed.  Refused — reports `false` and executes nothing — unless
    /// `build` has completed.
    pub fn start(&mut self) -> (r: bool)
        requires
            old(self).wf(),
        ensures
            final(self).wf(),
            r == old(self)@.built,
            !old(self)@.built ==> final(self)@ == old(self)@,
            old(self)@.built ==> (exists|n: nat|
                final(self)@.vm == #[trigger] step_n(reset_view(old(self)@.vm), n, false)
                    && final(self)@ == (BuilderView { vm: final(self)@.vm, ..old(self)@ })
                    && (final(self)@.vm.state == MachineState::Running ==> n == usize::MAX)),
    {
        if !self.built {
            return false;
        }
        self.vm.reset();
        let ghost rv = reset_view(old(self)@.vm);
        self.vm.run();
        proof {
            let n = choose|n: nat|
                self@.vm == step_n(rv, n, false) && (self@.vm.state == MachineState::Running
                    ==> n == usize::MAX);
            crate::vm::lemma_step_n_preserves_memory(rv, n, false);
            assert(self@ =~= (BuilderView { vm: step_n(rv, n, false), ..old(self)@ }));
        }
        true
    }

    /// Resets the engine and drives it to completion (the same entry as
    /// [`Self::start`], under the name the embedding surface also offers).
    pub fn run(&mut self) -> (r: bool)
        requires
            old(self).wf(),
        ensures
            final(self).wf(),
            r == old(self)@.built,
            !old(self)@.built ==> final(self)@ == old(self)@,
            old(self)@.built ==> (exists|n: nat|
                final(self)@.vm == #[trigger] step_n(reset_view(old(self)@.vm), n, false)
                    && final(self)@ == (BuilderView { vm: final(self)@.vm, ..old(self)@ })
                    && (final(self)@.vm.state == MachineState::Running ==> n == usize::MAX)),
    {
        self.start()
    }

    /// Resets the engine and drives it to completion with `channel`
    /// installed: the channel's contents grow by exactly the port and
    /// payload of every `Out` instruction executed, in execution order.
    /// Refused — reports `false`, executes nothing, sends nothing — unless
    /// `build` has completed.
    pub fn start_with<C: MessageHandler>(&mut self, channel: &mut C) -> (r: bool)
        requires
            old(self).wf(),
        ensures
            final(self).wf(),
            r == old(self)@.built,
            !old(self)@.built ==> final(self)@ == old(self)@ && *final(channel) == *old(channel),
            old(self)@.built ==> (exists|n: nat|
                final(self)@.vm == #[trigger] step_n(reset_view(old(self)@.vm), n, true)
                    && final(self)@ == (BuilderView { vm: final(self)@.vm, ..old(self)@ })
                    && final(channel).contents() == old(channel).contents() + emitted_n(
                    reset_view(old(self)@.vm),
                    n,
                ) && (final(self)@.vm.state == MachineState::Running ==> n == usize::MAX)),
    {
        if !self.built {
            return false;
        }
        self.vm.reset();
        let ghost rv = reset_view(old(self)@.vm);
        let ghost c0 = channel.contents();
        self.vm.run_with(channel);
        proof {
            let n = choose|n: nat|
                self@.vm == #[trigger] step_n(rv, n, true) && channel.contents() == c0
                    + emitted_n(rv, n) && (self@.vm.state == MachineState::Running ==> n
                    == usize::MAX);
            crate::vm::lemma_step_n_preserves_memory(rv, n, true);
            assert(self@ =~= (BuilderView { vm: step_n(rv, n, true), ..old(self)@ }));
        }
        true
    }
}


/// The sweep never changes the size of the program store.
pub proof fn lemma_sweep_len(
    m: Seq<MemoryCellView>,
    syms: Seq<(Seq<char>, usize)>,
    entries: Seq<(Seq<char>, usize)>,
)
    ensures
        sweep(m, syms, entries).0.len() == m.len(),
    decreases entries.len(),
{
    if entries.len() > 0 {
        let e = entries[0];
        let rest = entries.drop_first();
        match sym_lookup(syms, e.0) {
            Some(addr) => {
                if e.1 < m.len() && (m[e.1 as int] matches MemoryCellView::Instruction(
                    InstructionView::Jmp(_),
                )) {
                    let patched = m.update(
                        e.1 as int,
                        MemoryCellView::Instruction(
                            InstructionView::Jmp(ValueView::Address(Some(addr))),
                        ),
                    );
                    lemma_sweep_len(patched, syms, rest);
                } else {
                    lemma_sweep_len(m, syms, rest);
                }
            },
            None => {
                lemma_sweep_len(m, syms, rest);
            },
        }
    }
}

/// The sweep writes only at the recorded indices: a cell no pending entry
/// points at keeps its content.
pub proof fn lemma_sweep_preserves_other(
    m: Seq<MemoryCellView>,
    syms: Seq<(Seq<char>, usize)>,
    entries: Seq<(Seq<char>, usize)>,
    idx: int,
)
    requires
        0 <= idx < m.len(),
        forall|k: int| 0 <= k < entries.len() ==> (#[trigger] entries[k]).1 != idx,
    ensures
        sweep(m, syms, entries).0.len() == m.len(),
        sweep(m, syms, entries).0[idx] == m[idx],
    decreases entries.len(),
{
    lemma_sweep_len(m, syms, entries);
    if entries.len() > 0 {
        let e = entries[0];
        let rest = entries.drop_first();
        assert(forall|k: int| 0 <= k < rest.len() ==> #[trigger] rest[k] == entries[k + 1]);
        match sym_lookup(syms, e.0) {
            Some(addr) => {
                if e.1 < m.len() && (m[e.1 as int] matches MemoryCellView::Instruction(
                    InstructionView::Jmp(_),
                )) {
                    let patched = m.update(
                        e.1 as int,
                        MemoryCellView::Instruction(
                            InstructionView::Jmp(ValueView::Address(Some(addr))),
                        ),
                    );
                    assert(patched[idx] == m[idx]);
                    lemma_sweep_preserves_other(patched, syms, rest, idx);
                } else {
                    lemma_sweep_preserves_other(m, syms, rest, idx);
                }
            },
            None => {
                lemma_sweep_preserves_other(m, syms, rest, idx);
            },
        }
    }
}

/// Dropping the first entry keeps the remaining entries well-formed, and
/// so does patching the first entry's cell.
proof fn lemma_entries_wf_step(
    m: Seq<MemoryCellView>,
    entries: Seq<(Seq<char>, usize)>,
    addr: usize,
)
    requires
        entries_wf(m, entries),
        entries.len() > 0,
    ensures
        entries_wf(m, entries.drop_first()),
        entries_wf(
            m.update(
                entries[0].1 as int,
                MemoryCellView::Instruction(InstructionView::Jmp(ValueView::Address(Some(addr)))),
            ),
            entries.drop_first(),
        ),
{
    let rest = entries.drop_first();
    assert(forall|k: int| 0 <= k < rest.len() ==> #[trigger] rest[k] == entries[k + 1]);
}

/// Resolution law, resolvable half: a forward reference whose label is
/// bound by the time of the sweep has its placeholder patched to the
/// label's address, and executing the patched jump lands the program
/// counter exactly there — never falling through.
pub proof fn lemma_forward_jump_resolves(b: BuilderView, i: int, m: MachineView, hc: bool)
    requires
        builder_wf(b),
        0 <= i < b.unresolved.len(),
        sym_lookup(b.symbols, b.unresolved[i].0) is Some,
        m.state == MachineState::Running,
        m.memory == build_view(b).vm.memory,
        m.pc == b.unresolved[i].1,
    ensures
        ({
            let addr = sym_lookup(b.symbols, b.unresolved[i].0)->0;
            let s2 = crate::vm::step_view(m, hc);
            &&& m.memory[m.pc] == MemoryCellView::Instruction(
                InstructionView::Jmp(ValueView::Address(Some(addr))),
            )
            &&& s2.state == MachineState::Running
            &&& s2.pc == addr as int
            &&& s2.stack == m.stack
            &&& s2.memory == m.memory
        }),
{
    lemma_sweep_patches(b.vm.memory, b.symbols, b.unresolved, i);
    let addr = sym_lookup(b.symbols, b.unresolved[i].0)->0;
    crate::vm::lemma_jump_lands(m, addr, hc);
}

/// A pending entry whose label resolves is patched by the sweep.
pub proof fn lemma_sweep_patches(
    m: Seq<MemoryCellView>,
    syms: Seq<(Seq<char>, usize)>,
    entries: Seq<(Seq<char>, usize)>,
    i: int,
)
    requires
        entries_wf(m, entries),
        0 <= i < entries.len(),
        sym_lookup(syms, entries[i].0) is Some,
    ensures
        sweep(m, syms, entries).0.len() == m.len(),
        sweep(m, syms, entries).0[entries[i].1 as int] == MemoryCellView::Instruction(
            InstructionView::Jmp(ValueView::Address(Some(sym_lookup(syms, entries[i].0)->0))),
        ),
    decreases entries.len(),
{
    lemma_sweep_len(m, syms, entries);
    let e = entries[0];
    let rest = entries.drop_first();
    assert(forall|k: int| 0 <= k < rest.len() ==> #[trigger] rest[k] == entries[k + 1]);
    match sym_lookup(syms, e.0) {
        Some(addr) => {
            let patched = m.update(
                e.1 as int,
                MemoryCellView::Instruction(InstructionView::Jmp(ValueView::Address(Some(addr)))),
            );
            lemma_entries_wf_step(m, entries, addr);
            if i == 0 {
                assert(forall|k: int| 0 <= k < rest.len() ==> (#[trigger] rest[k]).1 != e.1);
                lemma_sweep_preserves_other(patched, syms, rest, e.1 as int);
            } else {
                lemma_sweep_patches(patched, syms, rest, i - 1);
            }
        },
        None => {
            lemma_entries_wf_step(m, entries, 0);
            lemma_sweep_patches(m, syms, rest, i - 1);
        },
    }
}

/// A pending entry whose label is never defined survives the sweep: it is
/// reported as a resolution failure, stays pending, and its cell keeps the
/// unresolved placeholder.
pub proof fn lemma_sweep_keeps_unresolved(
    m: Seq<MemoryCellView>,
    syms: Seq<(Seq<char>, usize)>,
    entries: Seq<(Seq<char>, usize)>,
    i: int,
)
    requires
        entries_wf(m, entries),
        0 <= i < entries.len(),
        sym_lookup(syms, entries[i].0) is None,
    ensures
        sweep(m, syms, entries).0.len() == m.len(),
        sweep(m, syms, entries).0[entries[i].1 as int] == jmp_placeholder(),
        sweep(m, syms, entries).1.contains(entries[i]),
    decreases entries.len(),
{
    lemma_sweep_len(m, syms, entries);
    let e = entries[0];
    let rest = entries.drop_first();
    let t = sweep(m, syms, entries);
    assert(forall|k: int| 0 <= k < rest.len() ==> #[trigger] rest[k] == entries[k + 1]);
    match sym_lookup(syms, e.0) {
        Some(addr) => {
            let patched = m.update(
                e.1 as int,
                MemoryCellView::Instruction(InstructionView::Jmp(ValueView::Address(Some(addr)))),
            );
            lemma_entries_wf_step(m, entries, addr);
            lemma_sweep_keeps_unresolved(patched, syms, rest, i - 1);
            assert(t.1 == sweep(patched, syms, rest).1);
        },
        None => {
            lemma_entries_wf_step(m, entries, 0);
            if i == 0 {
                assert(forall|k: int| 0 <= k < rest.len() ==> (#[trigger] rest[k]).1 != e.1);
                lemma_sweep_preserves_other(m, syms, rest, e.1 as int);
                assert(t.1[0] == e);
            } else {
                lemma_sweep_keeps_unresolved(m, syms, rest, i - 1);
                let t2 = sweep(m, syms, rest);
                assert(t.1 == seq![e] + t2.1);
                let w = choose|w: int| 0 <= w < t2.1.len() && t2.1[w] == entries[i];
                assert(t.1[w + 1] == entries[i]);
            }
        },
    }
}

/// Resolution law, failing half: a jump to a label that is never defined
/// leaves `build` reporting a resolution failure for that entry, and
/// executing the still-unresolved jump halts the machine with the
/// unresolved-jump fault.
pub proof fn lemma_undefined_label_faults(b: BuilderView, i: int, m: MachineView, hc: bool)
    requires
        builder_wf(b),
        0 <= i < b.unresolved.len(),
        sym_lookup(b.symbols, b.unresolved[i].0) is None,
        m.state == MachineState::Running,
        m.memory == build_view(b).vm.memory,
        m.pc == b.unresolved[i].1,
    ensures
        build_view(b).failures.contains(b.unresolved[i]),
        build_view(b).unresolved.contains(b.unresolved[i]),
        m.memory[m.pc] == jmp_placeholder(),
        ({
            let s2 = crate::vm::step_view(m, hc);
            &&& s2.state == MachineState::Halted
            &&& s2.fault == Some(crate::vm::Fault::UnresolvedJump)
            &&& s2.stack == m.stack
            &&& s2.memory == m.memory
        }),
{
    lemma_sweep_keeps_unresolved(b.vm.memory, b.symbols, b.unresolved, i);
    let t = sweep(b.vm.memory, b.symbols, b.unresolved);
    let w = choose|w: int| 0 <= w < t.1.len() && t.1[w] == b.unresolved[i];
    assert(build_view(b).failures[b.failures.len() + w] == b.unresolved[i]);
    crate::vm::lemma_unresolved_jump_faults(m, hc);
}

/// Every entry the sweep keeps pending has a label that does not resolve.
proof fn lemma_sweep_kept_lookup_none(
    m: Seq<MemoryCellView>,
    syms: Seq<(Seq<char>, usize)>,
    entries: Seq<(Seq<char>, usize)>,
)
    requires
        entries_wf(m, entries),
    ensures
        forall|j: int|
            0 <= j < sweep(m, syms, entries).1.len() ==> sym_lookup(
                syms,
                (#[trigger] sweep(m, syms, entries).1[j]).0,
            ) is None,
    decreases entries.len(),
{
    if entries.len() > 0 {
        let e = entries[0];
        let rest = entries.drop_first();
        let t = sweep(m, syms, entries);
        assert(forall|k: int| 0 <= k < rest.len() ==> #[trigger] rest[k] == entries[k + 1]);
        match sym_lookup(syms, e.0) {
            Some(addr) => {
                let patched = m.update(
                    e.1 as int,
                    MemoryCellView::Instruction(
                        InstructionView::Jmp(ValueView::Address(Some(addr))),
                    ),
                );
                lemma_entries_wf_step(m, entries, addr);
                lemma_sweep_kept_lookup_none(patched, syms, rest);
            },
            None => {
                lemma_entries_wf_step(m, entries, 0);
                lemma_sweep_kept_lookup_none(m, syms, rest);
                let t2 = sweep(m, syms, rest);
                assert(forall|j: int| 1 <= j < t.1.len() ==> t.1[j] == t2.1[j - 1]);
            },
        }
    }
}

/// A sweep in which no entry's label resolves changes nothing: the store
/// and the pending list come back as they went in.
proof fn lemma_sweep_all_none(
    m: Seq<MemoryCellView>,
    syms: Seq<(Seq<char>, usize)>,
    entries: Seq<(Seq<char>, usize)>,
)
    requires
        forall|j: int|
            0 <= j < entries.len() ==> sym_lookup(syms, (#[trigger] entries[j]).0) is None,
    ensures
        sweep(m, syms, entries) == (m, entries),
    decreases entries.len(),
{
    if entries.len() == 0 {
        assert(sweep(m, syms, entries).1 =~= entries);
    } else {
        let e = entries[0];
        let rest = entries.drop_first();
        assert(forall|k: int| 0 <= k < rest.len() ==> #[trigger] rest[k] == entries[k + 1]);
        lemma_sweep_all_none(m, syms, rest);
        assert(seq![e] + rest =~= entries);
    }
}

/// Idempotence law: building twice, with no new unresolved references
/// recorded between the two calls, produces an identical program store
/// both times (and the same pending list).
pub proof fn lemma_build_idempotent(b: BuilderView)
    requires
        builder_wf(b),
    ensures
        build_view(build_view(b)).vm.memory == build_view(b).vm.memory,
        build_view(build_view(b)).unresolved == build_view(b).unresolved,
{
    let b1 = build_view(b);
    lemma_sweep_kept_lookup_none(b.vm.memory, b.symbols, b.unresolved);
    lemma_sweep_all_none(b1.vm.memory, b1.symbols, b1.unresolved);
}

} // verus!
