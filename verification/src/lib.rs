//! A small register-based virtual machine, verified with Verus.
//!
//! The machine interprets a flat byte program against ten wide signed
//! registers, a LIFO value stack, and a program counter.  Every opcode is a
//! single byte with no operands.  Execution runs until the counter falls off
//! the end of the program, an `EXIT` opcode is reached, or a fatal condition
//! (bad opcode, overflow, division by zero, bad jump or read target, stack
//! underflow) halts the machine.  The halt reason is returned to the caller
//! as a typed outcome.

pub mod isa;
pub mod state;
pub mod machine;
pub mod laws;
