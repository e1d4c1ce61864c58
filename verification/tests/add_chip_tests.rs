use trace_core::chips;
use trace_core::column::Column;
use trace_core::eval::ConstraintEvaluator;
use trace_core::eval::TraceEval;
use trace_core::field::FieldElement;
use trace_core::harness::check_constraints;
use trace_core::preprocessed::PreprocessedTraces;
use trace_core::program::{BuiltinOpcode, ProgramStep, ProgramTraces, Word};
use trace_core::trace::Traces;
use trace_core::{AddChip, CpuChip};

const LOG_SIZE: u32 = 8;

fn residues(cells: &[FieldElement]) -> Vec<u32> {
    cells.iter().map(|f| f.residue()).collect()
}

/// Builds the step view of one executed instruction from its operand words.
fn make_step(opcode: BuiltinOpcode, b: u32, c: u32, rd_is_x0: bool) -> ProgramStep {
    let result: Word = b.wrapping_add(c).to_le_bytes();
    ProgramStep {
        opcode,
        value_b: b.to_le_bytes(),
        value_c: (c.to_le_bytes(), 32),
        result: Some(result),
        rd_is_x0,
    }
}

/// Fills one row through the chip registry.
fn fill_row(traces: &mut Traces, row: usize, step: &ProgramStep) {
    chips::fill_main_trace(traces, row, step);
}

/// Emits the full constraint stream of the registered chips.
fn emitted_constraints() -> Vec<trace_core::Expr> {
    let mut eval = ConstraintEvaluator::new();
    let trace_eval = TraceEval::new(&mut eval);
    CpuChip::add_constraints(&mut eval, &trace_eval);
    AddChip::add_constraints(&mut eval, &trace_eval);
    eval.into_constraints()
}

fn self_check(traces: &Traces) -> Option<trace_core::ConstraintViolation> {
    let preprocessed = PreprocessedTraces::new(LOG_SIZE);
    let program = ProgramTraces::new(LOG_SIZE);
    let constraints = emitted_constraints();
    check_constraints(traces, &preprocessed, &program, &constraints)
}

/// The Fibonacci program: `ADDI x1, x0, 1`, then thirty `ADD` steps, each
/// register the sum of the two before it.
fn fibonacci_steps() -> Vec<ProgramStep> {
    let mut regs = [0u32; 32];
    let mut steps = Vec::new();
    // ADDI x1, x0, 1
    regs[1] = regs[0].wrapping_add(1);
    steps.push(make_step(BuiltinOpcode::ADDI, regs[0], 1, false));
    // ADD x2, x1, x0 ... ADD x31, x30, x29
    for rd in 2..32usize {
        let rs1 = rd - 1;
        let rs2 = rd - 2;
        let step = make_step(BuiltinOpcode::ADD, regs[rs1], regs[rs2], false);
        regs[rd] = regs[rs1].wrapping_add(regs[rs2]);
        steps.push(step);
    }
    steps
}

#[test]
fn test_k_trace_constrained_add_instructions() {
    let mut traces = Traces::new(LOG_SIZE);
    let mut row_idx = 0;
    for step in fibonacci_steps() {
        CpuChip::fill_main_trace(&mut traces, row_idx, &step);
        AddChip::fill_main_trace(&mut traces, row_idx, &step);
        row_idx += 1;
    }
    assert!(self_check(&traces).is_none());
}

#[test]
fn test_fibonacci_final_value() {
    let mut traces = Traces::new(LOG_SIZE);
    let steps = fibonacci_steps();
    for (row, step) in steps.iter().enumerate() {
        fill_row(&mut traces, row, step);
    }
    // Fibonacci(31) = 1_346_269.
    let expected = 1_346_269u32.to_le_bytes();
    let value_a = residues(&traces.column(30, Column::ValueA));
    assert_eq!(value_a, expected.iter().map(|b| *b as u32).collect::<Vec<u32>>());
}

#[test]
fn test_single_limb_overflow() {
    // ADDI x1, x0, 250; ADDI x2, x1, 10.
    let mut traces = Traces::new(LOG_SIZE);
    fill_row(&mut traces, 0, &make_step(BuiltinOpcode::ADDI, 0, 250, false));
    fill_row(&mut traces, 1, &make_step(BuiltinOpcode::ADDI, 250, 10, false));
    assert_eq!(residues(&traces.column(1, Column::ValueA)), vec![4, 1, 0, 0]);
    assert_eq!(residues(&traces.column(1, Column::CarryFlag)), vec![1, 0, 0, 0]);
    assert!(self_check(&traces).is_none());
}

#[test]
fn test_full_word_overflow() {
    // B = [255, 255, 255, 255], C = [1, 0, 0, 0].
    let mut traces = Traces::new(LOG_SIZE);
    fill_row(&mut traces, 0, &make_step(BuiltinOpcode::ADD, u32::MAX, 1, false));
    assert_eq!(residues(&traces.column(0, Column::ValueA)), vec![0, 0, 0, 0]);
    assert_eq!(residues(&traces.column(0, Column::CarryFlag)), vec![1, 1, 1, 1]);
    assert!(self_check(&traces).is_none());
}

#[test]
fn test_x0_destination() {
    // ADD x0, x1, x2 with x1 = x2 = 1.
    let mut traces = Traces::new(LOG_SIZE);
    fill_row(&mut traces, 0, &make_step(BuiltinOpcode::ADD, 1, 1, true));
    assert_eq!(residues(&traces.column(0, Column::ValueA)), vec![2, 0, 0, 0]);
    assert_eq!(residues(&traces.column(0, Column::ValueAEffective)), vec![0, 0, 0, 0]);
    assert!(self_check(&traces).is_none());
}

#[test]
fn test_non_x0_destination_keeps_effective_value() {
    let mut traces = Traces::new(LOG_SIZE);
    fill_row(&mut traces, 0, &make_step(BuiltinOpcode::ADD, 3, 4, false));
    assert_eq!(residues(&traces.column(0, Column::ValueA)), vec![7, 0, 0, 0]);
    assert_eq!(residues(&traces.column(0, Column::ValueAEffective)), vec![7, 0, 0, 0]);
}

#[test]
fn test_non_add_row_passes_constraints() {
    // A row whose IsAdd selector is zero passes every ADD constraint
    // whatever the other columns hold.
    let mut traces = Traces::new(LOG_SIZE);
    traces.set_cell(2, Column::ValueA, 0, FieldElement::new(123));
    traces.set_cell(2, Column::ValueB, 1, FieldElement::new(45));
    traces.set_cell(2, Column::ValueC, 2, FieldElement::new(67));
    traces.set_cell(2, Column::CarryFlag, 3, FieldElement::new(89));
    assert!(self_check(&traces).is_none());
}

#[test]
fn test_sub_step_leaves_add_columns_untouched() {
    let mut traces = Traces::new(LOG_SIZE);
    let step = ProgramStep {
        opcode: BuiltinOpcode::SUB,
        value_b: 9u32.to_le_bytes(),
        value_c: (4u32.to_le_bytes(), 32),
        result: Some(5u32.to_le_bytes()),
        rd_is_x0: false,
    };
    fill_row(&mut traces, 0, &step);
    assert_eq!(residues(&traces.column(0, Column::IsAdd)), vec![0]);
    assert_eq!(residues(&traces.column(0, Column::ValueA)), vec![0, 0, 0, 0]);
    assert_eq!(residues(&traces.column(0, Column::ValueB)), vec![9, 0, 0, 0]);
    assert!(self_check(&traces).is_none());
}

#[test]
fn test_corrupted_witness_is_reported() {
    let mut traces = Traces::new(LOG_SIZE);
    for (row, step) in fibonacci_steps().iter().enumerate() {
        fill_row(&mut traces, row, step);
    }
    // Overwrite one cell of ValueA: limb 2 of row 5.
    let honest = traces.column(5, Column::ValueA)[2];
    traces.set_cell(5, Column::ValueA, 2, honest.add(FieldElement::one()));
    let violation = self_check(&traces).expect("corruption must be detected");
    assert_eq!(violation.row, 5);
    assert_eq!(violation.constraint_index, 2);
    assert_ne!(violation.residual.residue(), 0);
}
