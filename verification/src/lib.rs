//! Constraint-trace core of a zero-knowledge prover for a RISC-V-like
//! virtual machine.
//!
//! Executed instructions are recorded as rows of a columnar execution trace
//! over the prime field of order `2^31 - 1`. Instruction chips populate their
//! assigned columns row by row and emit low-degree polynomial constraints
//! that hold exactly when the trace matches a valid execution.

pub mod add;
pub mod chips;
pub mod column;
pub mod cpu;
pub mod eval;
pub mod field;
pub mod harness;
pub mod preprocessed;
pub mod program;
pub mod syscall;
pub mod trace;
pub mod traits;
pub mod utils;

pub use add::AddChip;
pub use cpu::CpuChip;
pub use eval::{ConstraintEvaluator, Expr, TraceEval};
pub use field::FieldElement;
pub use harness::ConstraintViolation;
pub use preprocessed::PreprocessedTraces;
pub use program::{BoolWord, ProgramStep, ProgramTraces, Word, WordWithEffectiveBits};
pub use trace::{CircleEvaluation, Traces};
pub use traits::MachineChip;
