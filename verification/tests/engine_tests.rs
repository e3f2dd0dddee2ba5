use rusty_vm::builder::VMBuilder;
use rusty_vm::flags::Flags;
use rusty_vm::instr::{Instruction, MemoryCell};
use rusty_vm::value::{MetaData, Value};
use rusty_vm::vm::{Fault, MachineState, RustyVM};

fn run_binary(l: Value, r: Value, op: Instruction) -> VMBuilder {
    let mut builder = VMBuilder::new();
    builder.push(l).push(r);
    match op {
        Instruction::Add => builder.add(),
        Instruction::Sub => builder.sub(),
        Instruction::Mul => builder.mul(),
        _ => builder.div(),
    };
    builder.halt().build().start();
    builder
}

fn single_i32(builder: &VMBuilder) -> i32 {
    let stack = builder.results();
    assert_eq!(stack.len(), 1);
    match stack[0] {
        MemoryCell::Value(Value::I32(v)) => v,
        _ => panic!("expected one I32 on the stack"),
    }
}

#[test]
fn sub_pops_right_then_left() {
    let b = run_binary(Value::I32(5), Value::I32(3), Instruction::Sub);
    assert_eq!(single_i32(&b), 2);
    let flags = b.machine().get_flags();
    assert!(!flags.zero && flags.pos && !flags.neg);
}

#[test]
fn mul_computes_exactly() {
    let b = run_binary(Value::I32(-6), Value::I32(7), Instruction::Mul);
    assert_eq!(single_i32(&b), -42);
    let flags = b.machine().get_flags();
    assert!(!flags.zero && !flags.pos && flags.neg);
}

#[test]
fn div_truncates_toward_zero() {
    let b = run_binary(Value::I32(7), Value::I32(2), Instruction::Div);
    assert_eq!(single_i32(&b), 3);
    let b2 = run_binary(Value::I32(-7), Value::I32(2), Instruction::Div);
    assert_eq!(single_i32(&b2), -3);
}

#[test]
fn zero_result_sets_zero_flag() {
    let b = run_binary(Value::I32(2), Value::I32(2), Instruction::Sub);
    assert_eq!(single_i32(&b), 0);
    let flags = b.machine().get_flags();
    assert!(flags.zero && !flags.pos && !flags.neg);
}

#[test]
fn i64_arithmetic_computes_exactly() {
    let b = run_binary(
        Value::I64(4_000_000_000),
        Value::I64(4_000_000_000),
        Instruction::Add,
    );
    let stack = b.results();
    assert_eq!(stack.len(), 1);
    assert!(matches!(
        stack[0],
        MemoryCell::Value(Value::I64(8_000_000_000))
    ));
}

#[test]
fn i32_overflow_faults() {
    let b = run_binary(Value::I32(i32::MAX), Value::I32(1), Instruction::Add);
    assert_eq!(b.machine().get_fault(), Some(Fault::IntegerOverflow));
    assert_eq!(b.results().len(), 0);
}

#[test]
fn i32_min_div_minus_one_faults() {
    let b = run_binary(Value::I32(i32::MIN), Value::I32(-1), Instruction::Div);
    assert_eq!(b.machine().get_fault(), Some(Fault::IntegerOverflow));
}

#[test]
fn i64_overflow_faults() {
    let b = run_binary(Value::I64(i64::MIN), Value::I64(1), Instruction::Sub);
    assert_eq!(b.machine().get_fault(), Some(Fault::IntegerOverflow));
}

#[test]
fn integer_division_by_zero_faults() {
    let b = run_binary(Value::I32(1), Value::I32(0), Instruction::Div);
    assert_eq!(b.machine().get_fault(), Some(Fault::DivisionByZero));
    let b2 = run_binary(Value::I64(9), Value::I64(0), Instruction::Div);
    assert_eq!(b2.machine().get_fault(), Some(Fault::DivisionByZero));
}

#[test]
fn float_division_by_zero_is_ieee() {
    let b = run_binary(
        Value::F64(1.0f64.to_bits()),
        Value::F64(0.0f64.to_bits()),
        Instruction::Div,
    );
    assert_eq!(b.machine().get_fault(), None);
    let stack = b.results();
    match stack[0] {
        MemoryCell::Value(Value::F64(bits)) => assert_eq!(bits, f64::INFINITY.to_bits()),
        _ => panic!("expected a double result"),
    }
    let flags = b.machine().get_flags();
    assert!(!flags.zero && flags.pos && !flags.neg);
}

#[test]
fn f64_arithmetic_matches_ieee() {
    let cases: [(f64, f64, Instruction, f64); 4] = [
        (1.5, 2.25, Instruction::Add, 3.75),
        (1.5, 2.25, Instruction::Sub, -0.75),
        (1.5, 2.25, Instruction::Mul, 3.375),
        (7.5, 2.5, Instruction::Div, 3.0),
    ];
    for (l, r, op, expect) in cases {
        let b = run_binary(Value::F64(l.to_bits()), Value::F64(r.to_bits()), op);
        let stack = b.results();
        match stack[0] {
            MemoryCell::Value(Value::F64(bits)) => assert_eq!(bits, expect.to_bits()),
            _ => panic!("expected a double result"),
        }
    }
}

#[test]
fn f32_arithmetic_matches_ieee() {
    let cases: [(f32, f32, Instruction, f32); 4] = [
        (1.5, 2.25, Instruction::Add, 3.75),
        (1.5, 2.25, Instruction::Sub, -0.75),
        (1.5, 2.25, Instruction::Mul, 3.375),
        (7.5, 2.5, Instruction::Div, 3.0),
    ];
    for (l, r, op, expect) in cases {
        let b = run_binary(Value::F32(l.to_bits()), Value::F32(r.to_bits()), op);
        let stack = b.results();
        match stack[0] {
            MemoryCell::Value(Value::F32(bits)) => assert_eq!(bits, expect.to_bits()),
            _ => panic!("expected a single result"),
        }
    }
}

#[test]
fn negative_float_result_sets_neg_flag() {
    let b = run_binary(
        Value::F64(1.0f64.to_bits()),
        Value::F64(2.5f64.to_bits()),
        Instruction::Sub,
    );
    let flags = b.machine().get_flags();
    assert!(!flags.zero && !flags.pos && flags.neg);
}

#[test]
fn float_nan_result_clears_all_sign_flags() {
    // 0.0 / 0.0 is a NaN: incomparable with zero, so no flag is set.
    let b = run_binary(
        Value::F64(0.0f64.to_bits()),
        Value::F64(0.0f64.to_bits()),
        Instruction::Div,
    );
    assert_eq!(b.machine().get_fault(), None);
    let flags = b.machine().get_flags();
    assert!(!flags.zero && !flags.pos && !flags.neg);
}

#[test]
fn mixed_variant_arithmetic_faults() {
    let b = run_binary(Value::I32(1), Value::F64(2.5f64.to_bits()), Instruction::Add);
    assert_eq!(b.machine().get_fault(), Some(Fault::TypeMismatch));
    let b2 = run_binary(Value::I32(1), Value::I64(1), Instruction::Add);
    assert_eq!(b2.machine().get_fault(), Some(Fault::TypeMismatch));
    let b3 = run_binary(Value::F32(1.0f32.to_bits()), Value::F64(1.0f64.to_bits()), Instruction::Mul);
    assert_eq!(b3.machine().get_fault(), Some(Fault::TypeMismatch));
}

#[test]
fn non_numeric_same_variant_arithmetic_faults() {
    let b = run_binary(Value::Bool(true), Value::Bool(false), Instruction::Add);
    assert_eq!(b.machine().get_fault(), Some(Fault::TypeMismatch));
}

#[test]
fn arithmetic_on_empty_stack_underflows() {
    let mut builder = VMBuilder::new();
    builder.add().halt().build().start();
    assert_eq!(builder.machine().get_fault(), Some(Fault::StackUnderflow));
}

#[test]
fn arithmetic_on_single_operand_underflows() {
    let mut builder = VMBuilder::new();
    builder.push(Value::I32(1)).add().halt().build().start();
    assert_eq!(builder.machine().get_fault(), Some(Fault::StackUnderflow));
}

#[test]
fn fetch_of_value_cell_faults() {
    let mut vm = RustyVM::new();
    vm.push(MemoryCell::Value(Value::I32(1)));
    vm.reset();
    vm.run();
    assert_eq!(vm.get_fault(), Some(Fault::InvalidMemoryCell));
    assert!(matches!(vm.get_state(), MachineState::Halted));
}

#[test]
fn fetch_of_metadata_cell_faults() {
    let mut vm = RustyVM::new();
    vm.push(MemoryCell::MetaData(MetaData::Tag(String::from("note"))));
    vm.reset();
    vm.run();
    assert_eq!(vm.get_fault(), Some(Fault::InvalidMemoryCell));
}

#[test]
fn fetch_of_empty_cell_faults() {
    let mut vm = RustyVM::new();
    vm.push(MemoryCell::Empty);
    vm.reset();
    vm.run();
    assert_eq!(vm.get_fault(), Some(Fault::InvalidMemoryCell));
}

#[test]
fn set_instruction_patches_in_place() {
    let mut vm = RustyVM::new();
    vm.push(MemoryCell::Instruction(Instruction::Nop));
    vm.set_instruction(MemoryCell::Instruction(Instruction::Halt), 0);
    assert!(matches!(
        vm.get_instruction(0),
        MemoryCell::Instruction(Instruction::Halt)
    ));
}

#[test]
fn reset_clears_mutable_state_but_keeps_program() {
    let mut vm = RustyVM::new();
    vm.push(MemoryCell::Instruction(Instruction::Push(Value::I32(4))));
    vm.push(MemoryCell::Instruction(Instruction::Halt));
    vm.reset();
    vm.run();
    assert_eq!(vm.get_stack().len(), 1);

    // A second reset clears the stack and flags and re-runs the same
    // program to the same result.
    vm.reset();
    assert_eq!(vm.get_stack().len(), 0);
    assert!(matches!(vm.get_state(), MachineState::Running));
    assert_eq!(vm.get_fault(), None);
    vm.run();
    assert_eq!(vm.get_stack().len(), 1);
    assert_eq!(vm.get_pc(), 1);
}

#[test]
fn flags_start_cleared_and_reset_clears() {
    let mut flags = Flags::new();
    assert!(
        !flags.zero
            && !flags.neg
            && !flags.pos
            && !flags.equal
            && !flags.less_than
            && !flags.great_than
    );
    flags.pos = true;
    flags.zero = true;
    flags.reset();
    assert!(!flags.zero && !flags.pos);
}

#[test]
fn jump_operand_of_wrong_variant_faults() {
    let mut vm = RustyVM::new();
    vm.push(MemoryCell::Instruction(Instruction::Jmp(Value::I32(3))));
    vm.reset();
    vm.run();
    assert_eq!(vm.get_fault(), Some(Fault::TypeMismatch));
}
