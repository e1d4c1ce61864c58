//! The chip registry: the statically declared list of machine chips.
//!
//! Every chip obeys the same two-operation contract — fill its columns for a
//! row, emit its constraints against a row view — and the registry invokes
//! each member in declared order: the CPU chip first, then the ADD chip.
//! Adding an instruction chip is one more call in each aggregate.

use vstd::prelude::*;

use crate::add::{
    add_constraint_expr, add_constraint_exprs, add_owned_column, add_result_matches, carry_out,
    is_add_step, lemma_add_constraints_hold, sum_limb, AddChip,
};
use crate::column::{Column, COLUMNS_NUM, WORD_SIZE};
use crate::cpu::{cpu_owned_column, CpuChip};
use crate::eval::{eval_expr, ConstraintEvaluator, TraceEval};
use crate::harness::row_assignment;
use crate::preprocessed::PreprocessedTraces;
use crate::program::{ProgramStep, ProgramTraces};
use crate::trace::Traces;

verus! {

/// The flat main columns some registered chip writes for a given step.
pub open spec fn chips_owned_column(c: int, step: ProgramStep) -> bool {
    cpu_owned_column(c) || (is_add_step(step) && add_owned_column(c))
}

/// Fills row `row_idx` from `vm_step`: each registered chip in declared
/// order. The CPU chip writes the selector and the operands on every row;
/// the ADD chip writes the result, effective-result and carry columns on the
/// rows it owns. Cells of columns no chip owns keep their values.
pub fn fill_main_trace(traces: &mut Traces, row_idx: usize, vm_step: &ProgramStep)
    requires
        old(traces).wf(),
        row_idx < old(traces).num_rows_spec(),
        is_add_step(*vm_step) ==> add_result_matches(*vm_step),
    ensures
        final(traces).wf(),
        final(traces).log_size_spec() == old(traces).log_size_spec(),
        final(traces).cell(Column::IsAdd.offset() as int, row_idx as int)@ == if is_add_step(
            *vm_step,
        ) {
            1int
        } else {
            0int
        },
        forall|i: int|
            0 <= i < WORD_SIZE ==> (#[trigger] final(traces).cell(
                Column::ValueB.offset() + i,
                row_idx as int,
            ))@ == vm_step.value_b@[i],
        forall|i: int|
            0 <= i < WORD_SIZE ==> (#[trigger] final(traces).cell(
                Column::ValueC.offset() + i,
                row_idx as int,
            ))@ == vm_step.value_c.0@[i],
        is_add_step(*vm_step) ==> {
            &&& forall|i: int|
                0 <= i < WORD_SIZE ==> (#[trigger] final(traces).cell(
                    Column::ValueA.offset() + i,
                    row_idx as int,
                ))@ == sum_limb(vm_step.value_b@, vm_step.value_c.0@, i as nat)
            &&& forall|i: int|
                0 <= i < WORD_SIZE ==> (#[trigger] final(traces).cell(
                    Column::ValueAEffective.offset() + i,
                    row_idx as int,
                ))@ == if vm_step.rd_is_x0 {
                    0
                } else {
                    sum_limb(vm_step.value_b@, vm_step.value_c.0@, i as nat)
                }
            &&& forall|i: int|
                0 <= i < WORD_SIZE ==> (#[trigger] final(traces).cell(
                    Column::CarryFlag.offset() + i,
                    row_idx as int,
                ))@ == carry_out(vm_step.value_b@, vm_step.value_c.0@, i as nat)
        },
        forall|c: int, r: int|
            0 <= c < COLUMNS_NUM && 0 <= r < old(traces).num_rows_spec() && !(r == row_idx
                && chips_owned_column(c, *vm_step)) ==> #[trigger] final(traces).cell(c, r) == old(
                traces,
            ).cell(c, r),
{
    let ghost t0 = *traces;
    CpuChip::fill_main_trace(traces, row_idx, vm_step);
    let ghost t1 = *traces;
    AddChip::fill_main_trace(traces, row_idx, vm_step);
    proof {
        crate::column::lemma_schema_consistency();
        if !is_add_step(*vm_step) {
            assert(*final(traces) == t1);
        }
        assert forall|c: int, r: int|
            0 <= c < COLUMNS_NUM && 0 <= r < t0.num_rows_spec() && !(r == row_idx
                && chips_owned_column(c, *vm_step)) implies #[trigger] final(traces).cell(c, r)
            == t0.cell(c, r) by {
            assert(t1.cell(c, r) == t0.cell(c, r));
            assert(final(traces).cell(c, r) == t1.cell(c, r));
        }
        assert(final(traces).cell(Column::IsAdd.offset() as int, row_idx as int) == t1.cell(
            Column::IsAdd.offset() as int,
            row_idx as int,
        ));
        assert forall|i: int| 0 <= i < WORD_SIZE implies (#[trigger] final(traces).cell(
            Column::ValueB.offset() + i,
            row_idx as int,
        ))@ == vm_step.value_b@[i] by {
            assert(final(traces).cell(Column::ValueB.offset() + i, row_idx as int) == t1.cell(
                Column::ValueB.offset() + i,
                row_idx as int,
            ));
        }
        assert forall|i: int| 0 <= i < WORD_SIZE implies (#[trigger] final(traces).cell(
            Column::ValueC.offset() + i,
            row_idx as int,
        ))@ == vm_step.value_c.0@[i] by {
            assert(final(traces).cell(Column::ValueC.offset() + i, row_idx as int) == t1.cell(
                Column::ValueC.offset() + i,
                row_idx as int,
            ));
        }
    }
}

/// Emits the constraints of every registered chip in declared order against
/// the row view. The aggregate stream is exactly the ADD chip's stream: the
/// CPU chip's own checks live in dedicated range-check chips.
pub fn add_constraints(eval: &mut ConstraintEvaluator, trace_eval: &TraceEval)
    requires
        trace_eval.is_canonical(),
    ensures
        final(eval).constraints_spec() == old(eval).constraints_spec() + add_constraint_exprs(),
        final(eval).preprocessed_masks_taken() == old(eval).preprocessed_masks_taken(),
        final(eval).main_masks_taken() == old(eval).main_masks_taken(),
        final(eval).program_masks_taken() == old(eval).program_masks_taken(),
{
    CpuChip::add_constraints(eval, trace_eval);
    AddChip::add_constraints(eval, trace_eval);
}

/// A row filled by the registry for an ADD step satisfies every constraint
/// the registry emits: the selector is one, the operands sit in the operand
/// columns, and the result and carry columns hold the limb-decomposed sum,
/// so each limb constraint evaluates to the field zero.
pub proof fn lemma_filled_add_row_satisfies_constraints(
    t: Traces,
    p: PreprocessedTraces,
    g: ProgramTraces,
    step: ProgramStep,
    row: int,
    k: int,
)
    requires
        t.wf(),
        0 <= row < t.num_rows_spec(),
        0 <= k < WORD_SIZE,
        is_add_step(step),
        t.cell(Column::IsAdd.offset() as int, row)@ == 1,
        forall|i: int|
            0 <= i < WORD_SIZE ==> (#[trigger] t.cell(Column::ValueA.offset() + i, row))@
                == sum_limb(step.value_b@, step.value_c.0@, i as nat),
        forall|i: int|
            0 <= i < WORD_SIZE ==> (#[trigger] t.cell(Column::ValueB.offset() + i, row))@
                == step.value_b@[i],
        forall|i: int|
            0 <= i < WORD_SIZE ==> (#[trigger] t.cell(Column::ValueC.offset() + i, row))@
                == step.value_c.0@[i],
        forall|i: int|
            0 <= i < WORD_SIZE ==> (#[trigger] t.cell(Column::CarryFlag.offset() + i, row))@
                == carry_out(step.value_b@, step.value_c.0@, i as nat),
        step.value_b@.len() == WORD_SIZE,
        step.value_c.0@.len() == WORD_SIZE,
    ensures
        eval_expr(add_constraint_expr(k), row_assignment(t, p, g, row)) == 0,
{
    let env = row_assignment(t, p, g, row);
    let b = step.value_b@;
    let c = step.value_c.0@;
    assert(env.main_cur[Column::IsAdd.offset() as int] == 1);
    assert forall|i: int| 0 <= i < WORD_SIZE implies env.main_cur[Column::ValueA.offset() + i]
        == #[trigger] sum_limb(b, c, i as nat) by {
        assert(t.cell(Column::ValueA.offset() + i, row)@ == sum_limb(b, c, i as nat));
    }
    assert forall|i: int| 0 <= i < WORD_SIZE implies env.main_cur[Column::ValueB.offset() + i]
        == #[trigger] b[i] by {
        assert(t.cell(Column::ValueB.offset() + i, row)@ == b[i]);
    }
    assert forall|i: int| 0 <= i < WORD_SIZE implies env.main_cur[Column::ValueC.offset() + i]
        == #[trigger] c[i] by {
        assert(t.cell(Column::ValueC.offset() + i, row)@ == c[i]);
    }
    assert forall|i: int| 0 <= i < WORD_SIZE implies env.main_cur[Column::CarryFlag.offset() + i]
        == #[trigger] carry_out(b, c, i as nat) by {
        assert(t.cell(Column::CarryFlag.offset() + i, row)@ == carry_out(b, c, i as nat));
    }
    lemma_add_constraints_hold(env, b, c, k);
}

/// A row whose `IsAdd` selector is zero satisfies every constraint the
/// registry emits, whatever its other cells hold.
pub proof fn lemma_non_add_row_satisfies_constraints(
    t: Traces,
    p: PreprocessedTraces,
    g: ProgramTraces,
    row: int,
    k: int,
)
    requires
        t.wf(),
        0 <= row < t.num_rows_spec(),
        0 <= k < WORD_SIZE,
        t.cell(Column::IsAdd.offset() as int, row)@ == 0,
    ensures
        eval_expr(add_constraint_expr(k), row_assignment(t, p, g, row)) == 0,
{
    let env = row_assignment(t, p, g, row);
    assert(env.main_cur[Column::IsAdd.offset() as int] == 0);
    crate::add::lemma_add_constraints_vanish_without_selector(env, k);
}

/// Constraint-stream determinism: emission appends a stream that depends on
/// the schemas alone, so two emissions over equal prior streams end with
/// equal streams.
pub proof fn lemma_constraint_stream_deterministic(
    before1: Seq<crate::eval::Expr>,
    after1: Seq<crate::eval::Expr>,
    before2: Seq<crate::eval::Expr>,
    after2: Seq<crate::eval::Expr>,
)
    requires
        before1 == before2,
        after1 == before1 + add_constraint_exprs(),
        after2 == before2 + add_constraint_exprs(),
    ensures
        after1 == after2,
{
}

} // verus!
