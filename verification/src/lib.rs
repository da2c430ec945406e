//! A verified interpreter for a small accumulator machine in the style of the
//! "inbox/outbox" programming puzzle: a program reads values from an input
//! queue, manipulates them through a single accumulator and a fixed bank of
//! sixteen memory cells, and writes results to an output queue.
//!
//! The executable machine lives in [`hrm`]; its behaviour is specified by a
//! small-step semantics over ghost states in [`semantics`], and general
//! properties of that semantics are proved in [`laws`].

pub mod hrm;
pub mod instruction;
pub mod laws;
pub mod semantics;

pub use crate::hrm::Hrm;
pub use crate::instruction::Instruction;
pub use crate::semantics::ProgramError;
