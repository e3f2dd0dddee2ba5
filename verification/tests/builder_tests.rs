use rusty_vm::builder::VMBuilder;
use rusty_vm::instr::{Instruction, MemoryCell};
use rusty_vm::value::Value;
use rusty_vm::vm::{Fault, MachineState};

#[test]
fn builder_creates_vm() {
    let mut builder = VMBuilder::new();
    builder.push(Value::I32(10)).halt().build().start();

    let stack = builder.results();
    for mem in stack {
        match mem {
            MemoryCell::Value(Value::I32(n)) => {
                assert_eq!(10, n);
            }
            _ => panic!("Stack does not contain pushed value"),
        }
    }
}

#[test]
fn adds_two_values() {
    let mut builder = VMBuilder::new();
    builder
        .push(Value::I32(21))
        .push(Value::I32(21))
        .add()
        .halt()
        .build()
        .start();

    let stack = builder.results();
    assert_eq!(stack.len(), 1);
    assert!(matches!(stack[0], MemoryCell::Value(Value::I32(42))));
    assert!(matches!(builder.machine().get_state(), MachineState::Halted));
    assert_eq!(builder.machine().get_fault(), None);
}

#[test]
fn forward_jump_resolves_after_build() {
    let mut builder = VMBuilder::new();
    builder
        .jump("End")
        .push(Value::I32(1))
        .label("End")
        .halt()
        .build();

    // The placeholder at index 0 was patched to the label's position.
    match builder.machine().get_instruction(0) {
        MemoryCell::Instruction(Instruction::Jmp(Value::Address(Some(addr)))) => {
            assert_eq!(addr, 2);
        }
        _ => panic!("forward jump was not patched"),
    }
    assert!(builder.resolution_failures().is_empty());

    // Executing it lands past the skipped push: nothing reaches the stack.
    builder.start();
    assert_eq!(builder.results().len(), 0);
    assert_eq!(builder.machine().get_fault(), None);
    assert!(matches!(builder.machine().get_state(), MachineState::Halted));
}

#[test]
fn backward_jump_is_resolved_at_emission() {
    let mut builder = VMBuilder::new();
    builder.label("Start").nop().jump("Start");
    match builder.machine().get_instruction(1) {
        MemoryCell::Instruction(Instruction::Jmp(Value::Address(Some(addr)))) => {
            assert_eq!(addr, 0);
        }
        _ => panic!("backward jump should be resolved immediately"),
    }
    assert!(builder.resolution_failures().is_empty());
}

#[test]
fn undefined_label_reports_failure_and_faults() {
    let mut builder = VMBuilder::new();
    builder.jump("nowhere").halt().build();

    let failures = builder.resolution_failures();
    assert_eq!(failures.len(), 1);
    assert_eq!(failures[0].label, "nowhere");
    assert_eq!(failures[0].address, 0);

    // The placeholder is still unresolved; executing it faults.
    match builder.machine().get_instruction(0) {
        MemoryCell::Instruction(Instruction::Jmp(Value::Address(None))) => {}
        _ => panic!("unresolved jump should keep its placeholder"),
    }
    builder.start();
    assert_eq!(builder.machine().get_fault(), Some(Fault::UnresolvedJump));
    assert!(matches!(builder.machine().get_state(), MachineState::Halted));
}

#[test]
fn start_without_build_executes_nothing() {
    let mut builder = VMBuilder::new();
    builder.push(Value::I32(10)).halt();
    assert!(!builder.start());
    assert_eq!(builder.results().len(), 0);
    assert!(matches!(builder.machine().get_state(), MachineState::Idle));
}

#[test]
fn run_without_build_executes_nothing() {
    let mut builder = VMBuilder::new();
    builder.push(Value::I32(10)).halt();
    assert!(!builder.run());
    assert_eq!(builder.results().len(), 0);
    assert!(matches!(builder.machine().get_state(), MachineState::Idle));
}

#[test]
fn run_after_build_executes() {
    let mut builder = VMBuilder::new();
    builder.push(Value::I32(7)).halt().build();
    assert!(builder.run());
    assert_eq!(builder.results().len(), 1);
}

fn cells_equal(a: &MemoryCell, b: &MemoryCell) -> bool {
    match (a, b) {
        (
            MemoryCell::Instruction(Instruction::Jmp(Value::Address(x))),
            MemoryCell::Instruction(Instruction::Jmp(Value::Address(y))),
        ) => x == y,
        (
            MemoryCell::Instruction(Instruction::Push(Value::I32(x))),
            MemoryCell::Instruction(Instruction::Push(Value::I32(y))),
        ) => x == y,
        (MemoryCell::Instruction(Instruction::Halt), MemoryCell::Instruction(Instruction::Halt)) => {
            true
        }
        (MemoryCell::Instruction(Instruction::Nop), MemoryCell::Instruction(Instruction::Nop)) => {
            true
        }
        _ => false,
    }
}

#[test]
fn build_twice_leaves_store_identical() {
    let mut builder = VMBuilder::new();
    builder
        .jump("End")
        .push(Value::I32(3))
        .label("End")
        .halt()
        .build();

    let first: Vec<MemoryCell> = (0..3).map(|i| builder.machine().get_instruction(i)).collect();
    builder.build();
    let second: Vec<MemoryCell> = (0..3).map(|i| builder.machine().get_instruction(i)).collect();
    for (a, b) in first.iter().zip(second.iter()) {
        assert!(cells_equal(a, b));
    }
    assert!(builder.resolution_failures().is_empty());
}

#[test]
fn build_twice_with_undefined_label_keeps_placeholder() {
    let mut builder = VMBuilder::new();
    builder.jump("ghost").halt().build();
    assert_eq!(builder.resolution_failures().len(), 1);
    builder.build();
    // The entry is still pending, so it is reported again; the store is
    // unchanged either way.
    assert_eq!(builder.resolution_failures().len(), 2);
    assert!(matches!(
        builder.machine().get_instruction(0),
        MemoryCell::Instruction(Instruction::Jmp(Value::Address(None)))
    ));
}

#[test]
fn label_rebinding_last_wins() {
    let mut builder = VMBuilder::new();
    builder
        .jump("target")
        .label("target")
        .nop()
        .label("target")
        .halt()
        .build();
    // Both bindings existed; the sweep resolves against the last one.
    match builder.machine().get_instruction(0) {
        MemoryCell::Instruction(Instruction::Jmp(Value::Address(Some(addr)))) => {
            assert_eq!(addr, 2);
        }
        _ => panic!("jump should resolve against the last binding"),
    }
}

#[test]
fn movi_and_movr_store_and_copy() {
    let mut builder = VMBuilder::new();
    builder
        .movi(0, Value::I32(5))
        .movr(1, 0)
        .halt()
        .build()
        .start();
    assert_eq!(builder.machine().get_fault(), None);
    match builder.machine().get_register(0) {
        Ok(Some(Value::I32(v))) => assert_eq!(v, 5),
        _ => panic!("register 0 should hold the immediate"),
    }
    match builder.machine().get_register(1) {
        Ok(Some(Value::I32(v))) => assert_eq!(v, 5),
        _ => panic!("register 1 should hold the copy"),
    }
}

#[test]
fn movr_from_empty_register_faults() {
    let mut builder = VMBuilder::new();
    builder.movr(1, 0).halt().build().start();
    assert_eq!(builder.machine().get_fault(), Some(Fault::TypeMismatch));
}

#[test]
fn movi_register_out_of_range_faults() {
    let mut builder = VMBuilder::new();
    builder.movi(16, Value::I32(1)).halt().build().start();
    assert_eq!(
        builder.machine().get_fault(),
        Some(Fault::InvalidRegisterIndex)
    );
}

#[test]
fn movr_register_out_of_range_faults() {
    let mut builder = VMBuilder::new();
    builder.movi(0, Value::I32(1)).movr(16, 0).halt().build().start();
    assert_eq!(
        builder.machine().get_fault(),
        Some(Fault::InvalidRegisterIndex)
    );
}

#[test]
fn movi_of_address_leaves_register_empty() {
    let mut builder = VMBuilder::new();
    builder.movi(3, Value::Address(Some(7))).halt().build().start();
    assert_eq!(builder.machine().get_fault(), None);
    match builder.machine().get_register(3) {
        Ok(None) => {}
        _ => panic!("a non-scalar store should leave the slot empty"),
    }
}

#[test]
fn pop_discards_top_and_empty_pop_is_noop() {
    let mut builder = VMBuilder::new();
    builder
        .push(Value::I32(1))
        .push(Value::I32(2))
        .pop()
        .halt()
        .build()
        .start();
    let stack = builder.results();
    assert_eq!(stack.len(), 1);
    assert!(matches!(stack[0], MemoryCell::Value(Value::I32(1))));

    let mut empty = VMBuilder::new();
    empty.pop().halt().build().start();
    assert_eq!(empty.machine().get_fault(), None);
    assert_eq!(empty.results().len(), 0);
}

#[test]
fn nop_and_dump_only_advance() {
    let mut builder = VMBuilder::new();
    builder.nop().dump().push(Value::Bool(true)).halt().build().start();
    let stack = builder.results();
    assert_eq!(stack.len(), 1);
    assert!(matches!(stack[0], MemoryCell::Value(Value::Bool(true))));
    assert_eq!(builder.machine().get_fault(), None);
}

#[test]
fn running_past_the_end_faults() {
    let mut builder = VMBuilder::new();
    builder.push(Value::I32(1)).build().start();
    assert_eq!(
        builder.machine().get_fault(),
        Some(Fault::InvalidMemoryCell)
    );
    assert!(matches!(builder.machine().get_state(), MachineState::Halted));
}
