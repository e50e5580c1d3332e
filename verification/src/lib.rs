//! A verified CHIP-8 interpreter core.
//!
//! The crate models the classic CHIP-8 virtual machine: a 4096-byte memory
//! with a protected interpreter region, sixteen 8-bit registers plus a 16-bit
//! address register, a bounded call stack, two 60 Hz timers, a 64x32
//! monochrome display mutated by XOR-blitting sprites, and a 16-key keypad.
//! Every opcode's effect on the machine state is stated as a contract over a
//! mathematical view of the state and proved.

use vstd::prelude::*;

pub mod cpu;
pub mod decode;
pub mod display;
pub mod keypad;
pub mod ram;
pub mod timers;

verus! {

/// The kinds of faults the interpreter can report.  All of them are
/// unrecoverable for the current run: a well-formed program never raises one.
#[derive(Clone, Copy, Debug, PartialEq, Eq, Structural)]
pub enum ErrorKind {
    /// A memory address outside 0..4096 was referenced.
    OutOfBounds,
    /// A write targeted the reserved region below 0x200.
    ProtectedRegionViolation,
    /// A ROM image does not fit between 0x200 and 0xFFF.
    RomTooLarge,
    /// A register index outside 0..16 was used.
    InvalidRegister,
    /// A seventeenth nested call was attempted.
    StackOverflow,
    /// A return was executed with an empty call stack.
    StackUnderflow,
    /// A fetched instruction word matches no opcode pattern.
    UnknownOpcode,
}

/// A fault surfaced by a single execution step: the error kind together
/// with the program counter of the offending instruction and the opcode
/// word itself (zero when the fetch itself failed).
#[derive(Clone, Copy, Debug, PartialEq, Eq, Structural)]
pub struct Fault {
    /// What went wrong.
    pub kind: ErrorKind,
    /// Address the offending instruction was fetched from.
    pub pc: u16,
    /// The offending instruction word, or zero if none could be fetched.
    pub opcode: u16,
}

} // verus!
