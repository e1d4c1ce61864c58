//! The CPU chip: opcode selectors and operand columns.
//!
//! For every row the CPU chip writes the `IsAdd` selector and copies the
//! step's operands into `ValueB` and `ValueC`; the arithmetic chips read
//! those columns and own the result columns. Its own constraints — selector
//! booleanity and operand range checks — belong to dedicated range-check
//! chips and are not emitted here.

use vstd::prelude::*;

use crate::add::is_add_step;
use crate::column::{Column, COLUMNS_NUM, WORD_SIZE};
use crate::eval::{ConstraintEvaluator, TraceEval};
use crate::field::FieldElement;
use crate::program::ProgramStep;
use crate::trace::Traces;

verus! {

/// The chip that owns the opcode-selector and operand columns.
pub struct CpuChip;

/// The flat main columns the CPU chip writes on every row.
pub open spec fn cpu_owned_column(c: int) -> bool {
    ||| c == Column::IsAdd.offset()
    ||| Column::ValueB.offset() <= c < Column::ValueB.offset() + WORD_SIZE
    ||| Column::ValueC.offset() <= c < Column::ValueC.offset() + WORD_SIZE
}

impl CpuChip {
    /// Writes the `IsAdd` selector — 1 exactly when the step belongs to the
    /// ADD chip — and the operand words for `row_idx`; every other cell
    /// keeps its value.
    pub fn fill_main_trace(traces: &mut Traces, row_idx: usize, vm_step: &ProgramStep)
        requires
            old(traces).wf(),
            row_idx < old(traces).num_rows_spec(),
        ensures
            final(traces).wf(),
            final(traces).log_size_spec() == old(traces).log_size_spec(),
            final(traces).cell(Column::IsAdd.offset() as int, row_idx as int)@ == if is_add_step(
                *vm_step,
            ) {
                1int
            } else {
                0int
            },
            forall|i: int|
                0 <= i < WORD_SIZE ==> (#[trigger] final(traces).cell(
                    Column::ValueB.offset() + i,
                    row_idx as int,
                ))@ == vm_step.value_b@[i],
            forall|i: int|
                0 <= i < WORD_SIZE ==> (#[trigger] final(traces).cell(
                    Column::ValueC.offset() + i,
                    row_idx as int,
                ))@ == vm_step.value_c.0@[i],
            forall|c: int, r: int|
                0 <= c < COLUMNS_NUM && 0 <= r < old(traces).num_rows_spec() && !(r == row_idx
                    && cpu_owned_column(c)) ==> #[trigger] final(traces).cell(c, r) == old(
                    traces,
                ).cell(c, r),
    {
        let ghost t0 = *traces;
        let selector: [FieldElement; 1] = [
            if Self::step_is_add(vm_step) {
                FieldElement::one()
            } else {
                FieldElement::zero()
            },
        ];
        traces.fill_columns_basefield(row_idx, selector.as_slice(), Column::IsAdd);
        let ghost t1 = *traces;
        let value_b = vm_step.get_value_b();
        traces.fill_columns_bytes(row_idx, value_b.as_slice(), Column::ValueB);
        let ghost t2 = *traces;
        let (value_c, _) = vm_step.get_value_c();
        traces.fill_columns_bytes(row_idx, value_c.as_slice(), Column::ValueC);
        proof {
            crate::column::lemma_schema_consistency();
            assert forall|c: int, r: int|
                0 <= c < COLUMNS_NUM && 0 <= r < t0.num_rows_spec() && !(r == row_idx
                    && cpu_owned_column(c)) implies #[trigger] final(traces).cell(c, r) == t0.cell(
                c,
                r,
            ) by {
                assert(t1.cell(c, r) == t0.cell(c, r));
                assert(t2.cell(c, r) == t1.cell(c, r));
                assert(final(traces).cell(c, r) == t2.cell(c, r));
            }
            assert(t1.cell(Column::IsAdd.offset() + 0, row_idx as int) == selector@[0]);
            assert(final(traces).cell(Column::IsAdd.offset() as int, row_idx as int) == t1.cell(
                Column::IsAdd.offset() as int,
                row_idx as int,
            ));
            assert forall|i: int| 0 <= i < WORD_SIZE implies (#[trigger] final(traces).cell(
                Column::ValueB.offset() + i,
                row_idx as int,
            ))@ == vm_step.value_b@[i] by {
                assert(final(traces).cell(Column::ValueB.offset() + i, row_idx as int) == t2.cell(
                    Column::ValueB.offset() + i,
                    row_idx as int,
                ));
            }
        }
    }

    /// Whether the step's opcode belongs to the ADD chip.
    fn step_is_add(vm_step: &ProgramStep) -> (r: bool)
        ensures
            r == is_add_step(*vm_step),
    {
        match vm_step.opcode {
            crate::program::BuiltinOpcode::ADD => true,
            crate::program::BuiltinOpcode::ADDI => true,
            _ => false,
        }
    }

    /// The CPU chip's own algebraic constraints — selector booleanity and
    /// operand range checks — live in dedicated range-check chips; this
    /// emitter leaves the constraint stream untouched.
    pub fn add_constraints(eval: &mut ConstraintEvaluator, trace_eval: &TraceEval)
        requires
            trace_eval.is_canonical(),
        ensures
            final(eval).constraints_spec() == old(eval).constraints_spec(),
            final(eval).preprocessed_masks_taken() == old(eval).preprocessed_masks_taken(),
            final(eval).main_masks_taken() == old(eval).main_masks_taken(),
            final(eval).program_masks_taken() == old(eval).program_masks_taken(),
    {
    }
}

} // verus!
