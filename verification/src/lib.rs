//! Instruction-execution core of a byte-accurate emulator for a 32-bit,
//! big-endian CPU with fixed 4-byte registers and truncated sub-word access,
//! modeled on the operand conventions of the Motorola 68000 family.
//!
//! The crate resolves abstract operand descriptors to byte regions of the
//! machine's storage, executes MOVE, TST and ADD with exact two's-complement
//! carry and overflow semantics, and proves each handler against a
//! mathematical model of the machine state.

pub mod bytes;
pub mod cpu;
pub mod instruction;
pub mod laws;
pub mod state;
