//! A verified interpreter for a minimal tape-based esoteric language.
//!
//! Source text is sanitized to an eight-symbol instruction stream, which a
//! stepper executes one instruction at a time against a byte tape with a
//! single movable pointer. Structured looping is implemented by forward and
//! backward bracket-matching scans, without a call stack. A runner drives the
//! stepper for a bounded number of steps; a diagnostic rendering of the tape
//! supports a paced visual replay.

pub mod instr;
pub mod state;
pub mod step;
pub mod runner;
pub mod render;

pub use instr::check_char;
pub use instr::sanitize;
pub use instr::Instruction;
pub use state::BFError;
pub use state::BFResult;
pub use state::Program;
