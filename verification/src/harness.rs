//! The self-check harness.
//!
//! Given a filled trace and a constraint stream, the harness substitutes the
//! concrete cells of every row (and its successor, indices taken modulo the
//! trace height) into every constraint. The first constraint that does not
//! evaluate to the field zero halts the walk and is reported with its row,
//! its position in the stream, and the non-zero residual.

use vstd::prelude::*;

use crate::column::{COLUMNS_NUM, PREPROCESSED_COLUMNS_NUM, PROGRAM_COLUMNS_NUM};
use crate::eval::{eval_expr, expr_wf, Expr, MaskAssignment, TraceKind};
use crate::field::FieldElement;
use crate::preprocessed::PreprocessedTraces;
use crate::program::ProgramTraces;
use crate::trace::Traces;

verus! {

/// The concrete cells one row of constraint evaluation sees: current and
/// next rows of the main and preprocessed traces, current row of the
/// program trace.
pub struct RowView {
    pub main_cur: Vec<FieldElement>,
    pub main_next: Vec<FieldElement>,
    pub prep_cur: Vec<FieldElement>,
    pub prep_next: Vec<FieldElement>,
    pub prog_cur: Vec<FieldElement>,
}

impl RowView {
    /// The view covers every column of each schema.
    pub open spec fn wf(self) -> bool {
        &&& self.main_cur@.len() == COLUMNS_NUM
        &&& self.main_next@.len() == COLUMNS_NUM
        &&& self.prep_cur@.len() == PREPROCESSED_COLUMNS_NUM
        &&& self.prep_next@.len() == PREPROCESSED_COLUMNS_NUM
        &&& self.prog_cur@.len() == PROGRAM_COLUMNS_NUM
    }

    /// The mask assignment the view denotes: each cell as its residue.
    pub open spec fn as_assignment(self) -> MaskAssignment {
        MaskAssignment {
            main_cur: self.main_cur@.map_values(|f: FieldElement| f@),
            main_next: self.main_next@.map_values(|f: FieldElement| f@),
            prep_cur: self.prep_cur@.map_values(|f: FieldElement| f@),
            prep_next: self.prep_next@.map_values(|f: FieldElement| f@),
            prog_cur: self.prog_cur@.map_values(|f: FieldElement| f@),
        }
    }
}

/// Evaluates an expression on concrete row cells. The result is the residue
/// the specification-level evaluation assigns to the expression.
pub fn eval_expr_exec(e: &Expr, view: &RowView) -> (r: FieldElement)
    requires
        expr_wf(*e),
        view.wf(),
    ensures
        r@ == eval_expr(*e, view.as_assignment()),
    decreases *e,
{
    match e {
        Expr::Const(f) => *f,
        Expr::Var(v) => match v.kind {
            TraceKind::Main => if v.next_row {
                view.main_next[v.index]
            } else {
                view.main_cur[v.index]
            },
            TraceKind::Preprocessed => if v.next_row {
                view.prep_next[v.index]
            } else {
                view.prep_cur[v.index]
            },
            TraceKind::Program => view.prog_cur[v.index],
        },
        Expr::Add(l, r2) => eval_expr_exec(l, view).add(eval_expr_exec(r2, view)),
        Expr::Sub(l, r2) => eval_expr_exec(l, view).sub(eval_expr_exec(r2, view)),
        Expr::Mul(l, r2) => eval_expr_exec(l, view).mul(eval_expr_exec(r2, view)),
    }
}

/// The mask assignment of row `row` of a filled trace: current-row cells
/// from `row`, next-row cells from `row + 1` taken modulo the trace height.
pub open spec fn row_assignment(
    t: Traces,
    p: PreprocessedTraces,
    g: ProgramTraces,
    row: int,
) -> MaskAssignment {
    let n = t.num_rows_spec() as int;
    MaskAssignment {
        main_cur: Seq::new(COLUMNS_NUM as nat, |c: int| t.cell(c, row)@),
        main_next: Seq::new(COLUMNS_NUM as nat, |c: int| t.cell(c, (row + 1) % n)@),
        prep_cur: Seq::new(PREPROCESSED_COLUMNS_NUM as nat, |c: int| p.cell(c, row)@),
        prep_next: Seq::new(PREPROCESSED_COLUMNS_NUM as nat, |c: int| p.cell(c, (row + 1) % n)@),
        prog_cur: Seq::new(PROGRAM_COLUMNS_NUM as nat, |c: int| g.cell(c, row)@),
    }
}

/// Copies the cells row `row` of the tables into a concrete row view.
fn build_row_view(
    traces: &Traces,
    preprocessed: &PreprocessedTraces,
    program: &ProgramTraces,
    row: usize,
) -> (v: RowView)
    requires
        traces.wf(),
        preprocessed.wf(),
        program.wf(),
        preprocessed.log_size_spec() == traces.log_size_spec(),
        program.log_size_spec() == traces.log_size_spec(),
        row < traces.num_rows_spec(),
    ensures
        v.wf(),
        v.as_assignment() == row_assignment(*traces, *preprocessed, *program, row as int),
{
    let n: usize = traces.num_rows();
    let next: usize = if row + 1 == n {
        0
    } else {
        row + 1
    };
    proof {
        if row + 1 == n {
            vstd::arithmetic::div_mod::lemma_mod_self_0(n as int);
        } else {
            vstd::arithmetic::div_mod::lemma_small_mod((row + 1) as nat, n as nat);
        }
        assert(next as int == (row + 1) % (n as int));
    }
    let mut main_cur: Vec<FieldElement> = Vec::new();
    let mut main_next: Vec<FieldElement> = Vec::new();
    let mut c: usize = 0;
    while c < COLUMNS_NUM
        invariant
            traces.wf(),
            row < traces.num_rows_spec(),
            next < traces.num_rows_spec(),
            c <= COLUMNS_NUM,
            main_cur@.len() == c,
            main_next@.len() == c,
            forall|k: int| 0 <= k < c ==> #[trigger] main_cur@[k] == traces.cell(k, row as int),
            forall|k: int| 0 <= k < c ==> #[trigger] main_next@[k] == traces.cell(k, next as int),
        decreases COLUMNS_NUM - c,
    {
        main_cur.push(traces.cell_at(c, row));
        main_next.push(traces.cell_at(c, next));
        c += 1;
    }
    let mut prep_cur: Vec<FieldElement> = Vec::new();
    let mut prep_next: Vec<FieldElement> = Vec::new();
    let mut c2: usize = 0;
    while c2 < PREPROCESSED_COLUMNS_NUM
        invariant
            preprocessed.wf(),
            row < preprocessed.num_rows_spec(),
            next < preprocessed.num_rows_spec(),
            c2 <= PREPROCESSED_COLUMNS_NUM,
            prep_cur@.len() == c2,
            prep_next@.len() == c2,
            forall|k: int|
                0 <= k < c2 ==> #[trigger] prep_cur@[k] == preprocessed.cell(k, row as int),
            forall|k: int|
                0 <= k < c2 ==> #[trigger] prep_next@[k] == preprocessed.cell(k, next as int),
        decreases PREPROCESSED_COLUMNS_NUM - c2,
    {
        prep_cur.push(preprocessed.cell_at(c2, row));
        prep_next.push(preprocessed.cell_at(c2, next));
        c2 += 1;
    }
    let mut prog_cur: Vec<FieldElement> = Vec::new();
    let mut c3: usize = 0;
    while c3 < PROGRAM_COLUMNS_NUM
        invariant
            program.wf(),
            row < program.num_rows_spec(),
            c3 <= PROGRAM_COLUMNS_NUM,
            prog_cur@.len() == c3,
            forall|k: int| 0 <= k < c3 ==> #[trigger] prog_cur@[k] == program.cell(k, row as int),
        decreases PROGRAM_COLUMNS_NUM - c3,
    {
        prog_cur.push(program.cell_at(c3, row));
        c3 += 1;
    }
    let v = RowView { main_cur, main_next, prep_cur, prep_next, prog_cur };
    proof {
        let want = row_assignment(*traces, *preprocessed, *program, row as int);
        assert(v.as_assignment().main_cur =~= want.main_cur);
        assert(v.as_assignment().main_next =~= want.main_next);
        assert(v.as_assignment().prep_cur =~= want.prep_cur);
        assert(v.as_assignment().prep_next =~= want.prep_next);
        assert(v.as_assignment().prog_cur =~= want.prog_cur);
    }
    v
}

/// The structured report of the first constraint violation: the row, the
/// position of the constraint in the stream, and the non-zero residual it
/// evaluated to.
pub struct ConstraintViolation {
    pub row: usize,
    pub constraint_index: usize,
    pub residual: FieldElement,
}

/// Runs every constraint against every row of the filled trace, in row-major
/// order. Returns `None` exactly when every constraint evaluates to the
/// field zero on every row; otherwise reports the first violation.
pub fn check_constraints(
    traces: &Traces,
    preprocessed: &PreprocessedTraces,
    program: &ProgramTraces,
    constraints: &Vec<Expr>,
) -> (r: Option<ConstraintViolation>)
    requires
        traces.wf(),
        preprocessed.wf(),
        program.wf(),
        preprocessed.log_size_spec() == traces.log_size_spec(),
        program.log_size_spec() == traces.log_size_spec(),
        forall|k: int| 0 <= k < constraints@.len() ==> expr_wf(#[trigger] constraints@[k]),
    ensures
        r is None ==> forall|row: int, k: int|
            0 <= row < traces.num_rows_spec() && 0 <= k < constraints@.len()
                ==> #[trigger] eval_expr(
                constraints@[k],
                row_assignment(*traces, *preprocessed, *program, row),
            ) == 0,
        r matches Some(v) ==> {
            &&& v.row < traces.num_rows_spec()
            &&& v.constraint_index < constraints@.len()
            &&& v.residual@ == eval_expr(
                constraints@[v.constraint_index as int],
                row_assignment(*traces, *preprocessed, *program, v.row as int),
            )
            &&& v.residual@ != 0
            &&& forall|row: int, k: int|
                0 <= row < traces.num_rows_spec() && 0 <= k < constraints@.len() && (row
                    < v.row || (row == v.row && k < v.constraint_index))
                    ==> #[trigger] eval_expr(
                    constraints@[k],
                    row_assignment(*traces, *preprocessed, *program, row),
                ) == 0
        },
{
    let n: usize = traces.num_rows();
    let m: usize = constraints.len();
    let mut row: usize = 0;
    while row < n
        invariant
            traces.wf(),
            preprocessed.wf(),
            program.wf(),
            preprocessed.log_size_spec() == traces.log_size_spec(),
            program.log_size_spec() == traces.log_size_spec(),
            n == traces.num_rows_spec(),
            m == constraints@.len(),
            forall|k: int| 0 <= k < constraints@.len() ==> expr_wf(#[trigger] constraints@[k]),
            row <= n,
            forall|r2: int, k: int|
                0 <= r2 < row && 0 <= k < m ==> #[trigger] eval_expr(
                    constraints@[k],
                    row_assignment(*traces, *preprocessed, *program, r2),
                ) == 0,
        decreases n - row,
    {
        let view = build_row_view(traces, preprocessed, program, row);
        let mut k: usize = 0;
        while k < m
            invariant
                traces.wf(),
                view.wf(),
                m == constraints@.len(),
                forall|k2: int|
                    0 <= k2 < constraints@.len() ==> expr_wf(#[trigger] constraints@[k2]),
                row < traces.num_rows_spec(),
                view.as_assignment() == row_assignment(*traces, *preprocessed, *program, row as int),
                forall|r2: int, k2: int|
                    0 <= r2 < row && 0 <= k2 < m ==> #[trigger] eval_expr(
                        constraints@[k2],
                        row_assignment(*traces, *preprocessed, *program, r2),
                    ) == 0,
                k <= m,
                forall|k2: int|
                    0 <= k2 < k ==> #[trigger] eval_expr(
                        constraints@[k2],
                        row_assignment(*traces, *preprocessed, *program, row as int),
                    ) == 0,
            decreases m - k,
        {
            let residual = eval_expr_exec(&constraints[k], &view);
            if !residual.is_zero() {
                return Some(ConstraintViolation { row, constraint_index: k, residual });
            }
            k += 1;
        }
        row += 1;
    }
    None
}

} // verus!
