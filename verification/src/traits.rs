//! The uniform contract every machine chip implements.
//!
//! A chip owns a subset of the main columns and the constraints that bind
//! them. It exposes exactly two operations: fill its columns for one row of
//! the trace, and emit its constraints against a row view. The registry
//! composes chips through this contract; each chip's precise column-level
//! guarantees live on its own inherent methods.

use vstd::prelude::*;

use crate::eval::{ConstraintEvaluator, TraceEval};
use crate::program::ProgramStep;
use crate::trace::Traces;

verus! {

/// The two-operation machine-chip contract.
pub trait MachineChip {
    /// Which steps the chip accepts: feeding it any other step is a
    /// programmer error (for the ADD chip, an owned step must carry the
    /// limb-wise sum of its operands as its result).
    spec fn step_accepted(step: ProgramStep) -> bool;

    /// Inspects the step; if the instruction does not belong to this chip,
    /// leaves the row untouched, otherwise writes all columns the chip owns
    /// for `row_idx`. Always preserves the table's shape.
    fn fill_main_trace(traces: &mut Traces, row_idx: usize, vm_step: &ProgramStep)
        requires
            old(traces).wf(),
            row_idx < old(traces).num_rows_spec(),
            Self::step_accepted(*vm_step),
        ensures
            final(traces).wf(),
            final(traces).log_size_spec() == old(traces).log_size_spec(),
    ;

    /// Emits the chip's constraints against the row view, appending to the
    /// evaluator's stream without consuming further masks.
    fn add_constraints(eval: &mut ConstraintEvaluator, trace_eval: &TraceEval)
        requires
            trace_eval.is_canonical(),
        ensures
            final(eval).preprocessed_masks_taken() == old(eval).preprocessed_masks_taken(),
            final(eval).main_masks_taken() == old(eval).main_masks_taken(),
            final(eval).program_masks_taken() == old(eval).program_masks_taken(),
            final(eval).constraints_spec().len() >= old(eval).constraints_spec().len(),
    ;
}

impl MachineChip for crate::cpu::CpuChip {
    /// The CPU chip accepts every step.
    open spec fn step_accepted(step: ProgramStep) -> bool {
        true
    }

    fn fill_main_trace(traces: &mut Traces, row_idx: usize, vm_step: &ProgramStep) {
        crate::cpu::CpuChip::fill_main_trace(traces, row_idx, vm_step);
    }

    fn add_constraints(eval: &mut ConstraintEvaluator, trace_eval: &TraceEval) {
        crate::cpu::CpuChip::add_constraints(eval, trace_eval);
    }
}

impl MachineChip for crate::add::AddChip {
    /// An owned step must carry a result that matches the limb-wise sum of
    /// its operands; anything else is upstream data corruption.
    open spec fn step_accepted(step: ProgramStep) -> bool {
        crate::add::is_add_step(step) ==> crate::add::add_result_matches(step)
    }

    fn fill_main_trace(traces: &mut Traces, row_idx: usize, vm_step: &ProgramStep) {
        crate::add::AddChip::fill_main_trace(traces, row_idx, vm_step);
    }

    fn add_constraints(eval: &mut ConstraintEvaluator, trace_eval: &TraceEval) {
        crate::add::AddChip::add_constraints(eval, trace_eval);
    }
}

} // verus!
