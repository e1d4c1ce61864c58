use trace_core::chips;
use trace_core::column::{Column, PreprocessedColumn, ProgramColumn, COLUMNS_NUM, WORD_SIZE};
use trace_core::eval::{
    ConstraintEvaluator, Expr, MaskVar, TraceEval, TraceKind, ORIGINAL_TRACE_IDX,
    PREPROCESSED_TRACE_IDX, PROGRAM_TRACE_IDX,
};

#[test]
fn test_interaction_indices() {
    assert_eq!(PREPROCESSED_TRACE_IDX, 0);
    assert_eq!(ORIGINAL_TRACE_IDX, 1);
    assert_eq!(PROGRAM_TRACE_IDX, 3);
}

#[test]
fn test_column_eval_returns_schema_masks() {
    let mut eval = ConstraintEvaluator::new();
    let trace_eval = TraceEval::new(&mut eval);
    let is_add = trace_eval.column_eval(Column::IsAdd);
    assert_eq!(is_add.len(), 1);
    assert_eq!(
        is_add[0],
        Expr::Var(MaskVar { kind: TraceKind::Main, index: Column::IsAdd.offset(), next_row: false })
    );
    let value_b = trace_eval.column_eval(Column::ValueB);
    assert_eq!(value_b.len(), WORD_SIZE);
    for (i, e) in value_b.iter().enumerate() {
        assert_eq!(
            *e,
            Expr::Var(MaskVar {
                kind: TraceKind::Main,
                index: Column::ValueB.offset() + i,
                next_row: false,
            })
        );
    }
    let next = trace_eval.column_eval_next_row(Column::CarryFlag);
    for (i, e) in next.iter().enumerate() {
        assert_eq!(
            *e,
            Expr::Var(MaskVar {
                kind: TraceKind::Main,
                index: Column::CarryFlag.offset() + i,
                next_row: true,
            })
        );
    }
}

#[test]
fn test_preprocessed_and_program_masks() {
    let mut eval = ConstraintEvaluator::new();
    let trace_eval = TraceEval::new(&mut eval);
    let is_first = trace_eval.preprocessed_column_eval(PreprocessedColumn::IsFirst);
    assert_eq!(
        is_first[0],
        Expr::Var(MaskVar { kind: TraceKind::Preprocessed, index: 0, next_row: false })
    );
    let is_first_next = trace_eval.preprocessed_column_eval_next_row(PreprocessedColumn::IsFirst);
    assert_eq!(
        is_first_next[0],
        Expr::Var(MaskVar { kind: TraceKind::Preprocessed, index: 0, next_row: true })
    );
    let flag = trace_eval.program_column_eval(ProgramColumn::PrgMemoryFlag);
    assert_eq!(
        flag[0],
        Expr::Var(MaskVar { kind: TraceKind::Program, index: 0, next_row: false })
    );
}

#[test]
fn test_evaluation_order_determinism() {
    // Two independent constructions of the row evaluator yield identical
    // constraint streams.
    let mut eval1 = ConstraintEvaluator::new();
    let trace_eval1 = TraceEval::new(&mut eval1);
    chips::add_constraints(&mut eval1, &trace_eval1);
    let stream1 = eval1.into_constraints();

    let mut eval2 = ConstraintEvaluator::new();
    let trace_eval2 = TraceEval::new(&mut eval2);
    chips::add_constraints(&mut eval2, &trace_eval2);
    let stream2 = eval2.into_constraints();

    assert_eq!(stream1, stream2);
    assert_eq!(stream1.len(), WORD_SIZE);
}

#[test]
fn test_mask_variables_cover_the_main_schema() {
    let mut eval = ConstraintEvaluator::new();
    let trace_eval = TraceEval::new(&mut eval);
    let mut seen = vec![false; COLUMNS_NUM];
    for col in [
        Column::IsAdd,
        Column::ValueA,
        Column::ValueAEffective,
        Column::ValueB,
        Column::ValueC,
        Column::CarryFlag,
    ] {
        for (i, e) in trace_eval.column_eval(col).iter().enumerate() {
            match e {
                Expr::Var(v) => {
                    assert_eq!(v.index, col.offset() + i);
                    seen[v.index] = true;
                }
                _ => panic!("column read must be a mask variable"),
            }
        }
    }
    assert!(seen.iter().all(|s| *s));
}
