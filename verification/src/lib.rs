//! A small stack-based virtual machine.
//!
//! Programs are assembled through [`builder::VMBuilder`], which performs
//! two-pass label resolution (labels may be referenced before they are
//! defined), and executed by [`vm::RustyVM`], a fetch-decode-execute engine
//! over an operand stack and a bank of sixteen general registers.  Values
//! can be emitted to external ports through a pluggable message channel.

pub mod builder;
pub mod channel;
pub mod flags;
pub mod instr;
pub mod registers;
pub mod softfloat;
pub mod text;
pub mod value;
pub mod vm;
