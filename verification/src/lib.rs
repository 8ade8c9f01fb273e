//! Core of a Befunge-93-class interpreter.
//!
//! Programs are laid out on a fixed-size two-dimensional grid of integer
//! cells; an instruction pointer walks the grid in one of four cardinal
//! directions and executes each cell it lands on against a stack of signed
//! integers.  Input, output and divide-by-zero resolution are delegated to an
//! external interface process through a synchronous request/response
//! protocol; this crate supplies the execution engine, the protocol message
//! codec, and the exact numeric semantics, all with verified contracts.
//! The process boundary itself (sockets, prompts, files) lives outside.

pub mod arith;
mod bytes;
pub mod engine;
pub mod grid;
pub mod protocol;
pub mod stack;
