//! Translator from a stack-oriented intermediate language to instructions
//! for a two-register accumulator machine with a single shared address space.
//!
//! The translator has two stages: a line-oriented reader that classifies
//! source lines into commands (`parser`), and an instruction-emitting
//! generator that tracks cross-command state to guarantee globally unique
//! symbolic labels and a correct stack-frame protocol (`code_writer`).

pub mod code_writer;
pub mod error;
pub mod instr;
pub mod parser;
pub mod text;
pub mod machine;
pub mod translate;
