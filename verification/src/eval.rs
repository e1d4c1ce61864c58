//! The row evaluator: a symbolic view of one trace row and its successor.
//!
//! Constraint code never sees concrete cells. It reads opaque expression
//! handles — polynomials in row-local mask variables — and registers
//! constraints that must evaluate to the field zero on every row of the
//! committed domain. Masks are consumed from a deterministic stream in schema
//! order: all main groups (current and next row), then all preprocessed
//! groups (current and next row), then all program groups (current row only).

use vstd::prelude::*;

use crate::column::{
    Column, PreprocessedColumn, ProgramColumn, COLUMNS_NUM, PREPROCESSED_COLUMNS_NUM,
    PROGRAM_COLUMNS_NUM,
};
use crate::field::{FieldElement, FIELD_MODULUS};

verus! {

/// Interaction index of the preprocessed trace in the commitment tree.
pub const PREPROCESSED_TRACE_IDX: usize = 0;

/// Interaction index of the original (main) trace in the commitment tree.
pub const ORIGINAL_TRACE_IDX: usize = 1;

/// Interaction index of the program trace; it follows the interaction trace,
/// and the verifier knows its commitment independently.
pub const PROGRAM_TRACE_IDX: usize = 3;

/// The trace family a mask variable reads from.
#[derive(Clone, Copy, Debug, PartialEq, Eq, Structural)]
pub enum TraceKind {
    Preprocessed,
    Main,
    Program,
}

/// A mask variable: one committed cell, addressed by trace family, flat
/// column index, and whether it is taken at the current or the next row.
#[derive(Clone, Copy, Debug, PartialEq, Eq, Structural)]
pub struct MaskVar {
    pub kind: TraceKind,
    pub index: usize,
    pub next_row: bool,
}

/// An opaque row-local polynomial expression: the algebra of constants, mask
/// variables, addition, subtraction and multiplication over the field.
#[derive(Debug, PartialEq, Eq)]
pub enum Expr {
    Const(FieldElement),
    Var(MaskVar),
    Add(Box<Expr>, Box<Expr>),
    Sub(Box<Expr>, Box<Expr>),
    Mul(Box<Expr>, Box<Expr>),
}

impl Clone for Expr {
    /// Expression handles clone structurally.
    fn clone(&self) -> (r: Self)
        ensures
            r == *self,
        decreases self,
    {
        match self {
            Expr::Const(f) => Expr::Const(*f),
            Expr::Var(v) => Expr::Var(*v),
            Expr::Add(l, r) => Expr::Add(Box::new((**l).clone()), Box::new((**r).clone())),
            Expr::Sub(l, r) => Expr::Sub(Box::new((**l).clone()), Box::new((**r).clone())),
            Expr::Mul(l, r) => Expr::Mul(Box::new((**l).clone()), Box::new((**r).clone())),
        }
    }
}

/// One concrete valuation of every mask variable: the residues of the cells
/// of the current and next rows of each trace family.
pub ghost struct MaskAssignment {
    pub main_cur: Seq<int>,
    pub main_next: Seq<int>,
    pub prep_cur: Seq<int>,
    pub prep_next: Seq<int>,
    pub prog_cur: Seq<int>,
}

impl MaskAssignment {
    /// The assignment covers every column of each schema.
    pub open spec fn wf(self) -> bool {
        &&& self.main_cur.len() == COLUMNS_NUM
        &&& self.main_next.len() == COLUMNS_NUM
        &&& self.prep_cur.len() == PREPROCESSED_COLUMNS_NUM
        &&& self.prep_next.len() == PREPROCESSED_COLUMNS_NUM
        &&& self.prog_cur.len() == PROGRAM_COLUMNS_NUM
    }

    /// The residue a mask variable takes under this assignment.
    pub open spec fn var_value(self, v: MaskVar) -> int {
        match v.kind {
            TraceKind::Main => if v.next_row {
                self.main_next[v.index as int]
            } else {
                self.main_cur[v.index as int]
            },
            TraceKind::Preprocessed => if v.next_row {
                self.prep_next[v.index as int]
            } else {
                self.prep_cur[v.index as int]
            },
            TraceKind::Program => self.prog_cur[v.index as int],
        }
    }
}

/// Every mask index the expression mentions lies inside its schema, and
/// program masks read only the current row.
pub open spec fn expr_wf(e: Expr) -> bool
    decreases e,
{
    match e {
        Expr::Const(_) => true,
        Expr::Var(v) => match v.kind {
            TraceKind::Main => v.index < COLUMNS_NUM,
            TraceKind::Preprocessed => v.index < PREPROCESSED_COLUMNS_NUM,
            TraceKind::Program => v.index < PROGRAM_COLUMNS_NUM && !v.next_row,
        },
        Expr::Add(l, r) => expr_wf(*l) && expr_wf(*r),
        Expr::Sub(l, r) => expr_wf(*l) && expr_wf(*r),
        Expr::Mul(l, r) => expr_wf(*l) && expr_wf(*r),
    }
}

/// The residue an expression evaluates to under a mask assignment; every
/// operation is taken modulo the field order.
pub open spec fn eval_expr(e: Expr, env: MaskAssignment) -> int
    decreases e,
{
    match e {
        Expr::Const(f) => f@,
        Expr::Var(v) => env.var_value(v),
        Expr::Add(l, r) => (eval_expr(*l, env) + eval_expr(*r, env)) % (FIELD_MODULUS as int),
        Expr::Sub(l, r) => (eval_expr(*l, env) - eval_expr(*r, env)) % (FIELD_MODULUS as int),
        Expr::Mul(l, r) => (eval_expr(*l, env) * eval_expr(*r, env)) % (FIELD_MODULUS as int),
    }
}

/// The sink-side evaluator: hands out mask variables in a fixed deterministic
/// order and collects the registered constraints.
pub struct ConstraintEvaluator {
    next_preprocessed_mask: usize,
    next_main_mask: usize,
    next_program_mask: usize,
    constraints: Vec<Expr>,
}

impl ConstraintEvaluator {
    /// How many preprocessed mask pairs have been handed out.
    pub closed spec fn preprocessed_masks_taken(self) -> int {
        self.next_preprocessed_mask as int
    }

    /// How many main mask pairs have been handed out.
    pub closed spec fn main_masks_taken(self) -> int {
        self.next_main_mask as int
    }

    /// How many program masks have been handed out.
    pub closed spec fn program_masks_taken(self) -> int {
        self.next_program_mask as int
    }

    /// The constraints registered so far, in emission order.
    pub closed spec fn constraints_spec(self) -> Seq<Expr> {
        self.constraints@
    }

    /// A fresh evaluator: no masks consumed, no constraints registered.
    pub fn new() -> (r: Self)
        ensures
            r.preprocessed_masks_taken() == 0,
            r.main_masks_taken() == 0,
            r.program_masks_taken() == 0,
            r.constraints_spec() == Seq::<Expr>::empty(),
    {
        let r = ConstraintEvaluator {
            next_preprocessed_mask: 0,
            next_main_mask: 0,
            next_program_mask: 0,
            constraints: Vec::new(),
        };
        proof {
            assert(r.constraints@ =~= Seq::<Expr>::empty());
        }
        r
    }

    /// Draws the next mask pair (current row, next row) of the given
    /// interaction. Masks are numbered in the order they are drawn.
    pub fn next_interaction_mask(&mut self, interaction: usize) -> (r: (Expr, Expr))
        requires
            interaction == PREPROCESSED_TRACE_IDX || interaction == ORIGINAL_TRACE_IDX,
            interaction == PREPROCESSED_TRACE_IDX ==> old(self).preprocessed_masks_taken()
                < PREPROCESSED_COLUMNS_NUM,
            interaction == ORIGINAL_TRACE_IDX ==> old(self).main_masks_taken() < COLUMNS_NUM,
        ensures
            interaction == PREPROCESSED_TRACE_IDX ==> {
                &&& r.0 == (Expr::Var(
                    MaskVar {
                        kind: TraceKind::Preprocessed,
                        index: old(self).preprocessed_masks_taken() as usize,
                        next_row: false,
                    },
                ))
                &&& r.1 == (Expr::Var(
                    MaskVar {
                        kind: TraceKind::Preprocessed,
                        index: old(self).preprocessed_masks_taken() as usize,
                        next_row: true,
                    },
                ))
                &&& final(self).preprocessed_masks_taken() == old(self).preprocessed_masks_taken()
                    + 1
                &&& final(self).main_masks_taken() == old(self).main_masks_taken()
            },
            interaction == ORIGINAL_TRACE_IDX ==> {
                &&& r.0 == (Expr::Var(
                    MaskVar {
                        kind: TraceKind::Main,
                        index: old(self).main_masks_taken() as usize,
                        next_row: false,
                    },
                ))
                &&& r.1 == (Expr::Var(
                    MaskVar {
                        kind: TraceKind::Main,
                        index: old(self).main_masks_taken() as usize,
                        next_row: true,
                    },
                ))
                &&& final(self).main_masks_taken() == old(self).main_masks_taken() + 1
                &&& final(self).preprocessed_masks_taken() == old(
                    self,
                ).preprocessed_masks_taken()
            },
            final(self).program_masks_taken() == old(self).program_masks_taken(),
            final(self).constraints_spec() == old(self).constraints_spec(),
    {
        if interaction == PREPROCESSED_TRACE_IDX {
            let index = self.next_preprocessed_mask;
            self.next_preprocessed_mask = self.next_preprocessed_mask + 1;
            (
                Expr::Var(MaskVar { kind: TraceKind::Preprocessed, index, next_row: false }),
                Expr::Var(MaskVar { kind: TraceKind::Preprocessed, index, next_row: true }),
            )
        } else {
            let index = self.next_main_mask;
            self.next_main_mask = self.next_main_mask + 1;
            (
                Expr::Var(MaskVar { kind: TraceKind::Main, index, next_row: false }),
                Expr::Var(MaskVar { kind: TraceKind::Main, index, next_row: true }),
            )
        }
    }

    /// Draws the next current-row-only mask of the program trace.
    pub fn next_program_mask(&mut self) -> (r: Expr)
        requires
            old(self).program_masks_taken() < PROGRAM_COLUMNS_NUM,
        ensures
            r == (Expr::Var(
                MaskVar {
                    kind: TraceKind::Program,
                    index: old(self).program_masks_taken() as usize,
                    next_row: false,
                },
            )),
            final(self).program_masks_taken() == old(self).program_masks_taken() + 1,
            final(self).preprocessed_masks_taken() == old(self).preprocessed_masks_taken(),
            final(self).main_masks_taken() == old(self).main_masks_taken(),
            final(self).constraints_spec() == old(self).constraints_spec(),
    {
        let index = self.next_program_mask;
        self.next_program_mask = self.next_program_mask + 1;
        Expr::Var(MaskVar { kind: TraceKind::Program, index, next_row: false })
    }

    /// Registers an expression as a constraint that must evaluate to the
    /// field zero on every row of the committed domain.
    pub fn add_constraint(&mut self, e: Expr)
        ensures
            final(self).constraints_spec() == old(self).constraints_spec().push(e),
            final(self).preprocessed_masks_taken() == old(self).preprocessed_masks_taken(),
            final(self).main_masks_taken() == old(self).main_masks_taken(),
            final(self).program_masks_taken() == old(self).program_masks_taken(),
    {
        self.constraints.push(e);
    }

    /// Gives up the evaluator and returns the registered constraints.
    pub fn into_constraints(self) -> (r: Vec<Expr>)
        ensures
            r@ == self.constraints_spec(),
    {
        self.constraints
    }
}

/// The symbolic view of one trace row handed to constraint code: the mask
/// pair of every column of every schema, drawn from a fresh evaluator in
/// schema order.
pub struct TraceEval {
    evals: Vec<(Expr, Expr)>,
    preprocessed_evals: Vec<(Expr, Expr)>,
    program_evals: Vec<Expr>,
}

/// The mask pair of main column `i`.
pub open spec fn main_mask_pair(i: int) -> (Expr, Expr) {
    (
        Expr::Var(MaskVar { kind: TraceKind::Main, index: i as usize, next_row: false }),
        Expr::Var(MaskVar { kind: TraceKind::Main, index: i as usize, next_row: true }),
    )
}

/// The mask pair of preprocessed column `i`.
pub open spec fn preprocessed_mask_pair(i: int) -> (Expr, Expr) {
    (
        Expr::Var(MaskVar { kind: TraceKind::Preprocessed, index: i as usize, next_row: false }),
        Expr::Var(MaskVar { kind: TraceKind::Preprocessed, index: i as usize, next_row: true }),
    )
}

/// The current-row mask of program column `i`.
pub open spec fn program_mask(i: int) -> Expr {
    Expr::Var(MaskVar { kind: TraceKind::Program, index: i as usize, next_row: false })
}

impl TraceEval {
    /// The row view is exactly the canonical mask layout: one pair per main
    /// and preprocessed column and one current-row mask per program column,
    /// each at its schema position.
    pub closed spec fn is_canonical(self) -> bool {
        &&& self.evals@.len() == COLUMNS_NUM
        &&& forall|i: int| 0 <= i < COLUMNS_NUM ==> self.evals@[i] == #[trigger] main_mask_pair(i)
        &&& self.preprocessed_evals@.len() == PREPROCESSED_COLUMNS_NUM
        &&& forall|i: int|
            0 <= i < PREPROCESSED_COLUMNS_NUM ==> self.preprocessed_evals@[i]
                == #[trigger] preprocessed_mask_pair(i)
        &&& self.program_evals@.len() == PROGRAM_COLUMNS_NUM
        &&& forall|i: int|
            0 <= i < PROGRAM_COLUMNS_NUM ==> self.program_evals@[i] == #[trigger] program_mask(i)
    }

    /// Builds the row view from a fresh evaluator, consuming masks in schema
    /// order: every main pair, then every preprocessed pair, then every
    /// program mask. The result is fully determined by the schemas.
    pub fn new(eval: &mut ConstraintEvaluator) -> (r: Self)
        requires
            old(eval).preprocessed_masks_taken() == 0,
            old(eval).main_masks_taken() == 0,
            old(eval).program_masks_taken() == 0,
        ensures
            r.is_canonical(),
            final(eval).preprocessed_masks_taken() == PREPROCESSED_COLUMNS_NUM,
            final(eval).main_masks_taken() == COLUMNS_NUM,
            final(eval).program_masks_taken() == PROGRAM_COLUMNS_NUM,
            final(eval).constraints_spec() == old(eval).constraints_spec(),
    {
        let mut evals: Vec<(Expr, Expr)> = Vec::new();
        while evals.len() < COLUMNS_NUM
            invariant
                evals@.len() <= COLUMNS_NUM,
                eval.main_masks_taken() == evals@.len(),
                eval.preprocessed_masks_taken() == 0,
                eval.program_masks_taken() == 0,
                eval.constraints_spec() == old(eval).constraints_spec(),
                forall|i: int|
                    0 <= i < evals@.len() ==> evals@[i] == #[trigger] main_mask_pair(i),
            decreases COLUMNS_NUM - evals@.len(),
        {
            let pair = eval.next_interaction_mask(ORIGINAL_TRACE_IDX);
            evals.push(pair);
        }
        let mut preprocessed_evals: Vec<(Expr, Expr)> = Vec::new();
        while preprocessed_evals.len() < PREPROCESSED_COLUMNS_NUM
            invariant
                preprocessed_evals@.len() <= PREPROCESSED_COLUMNS_NUM,
                eval.preprocessed_masks_taken() == preprocessed_evals@.len(),
                eval.main_masks_taken() == COLUMNS_NUM,
                eval.program_masks_taken() == 0,
                eval.constraints_spec() == old(eval).constraints_spec(),
                evals@.len() == COLUMNS_NUM,
                forall|i: int|
                    0 <= i < COLUMNS_NUM ==> evals@[i] == #[trigger] main_mask_pair(i),
                forall|i: int|
                    0 <= i < preprocessed_evals@.len() ==> preprocessed_evals@[i]
                        == #[trigger] preprocessed_mask_pair(i),
            decreases PREPROCESSED_COLUMNS_NUM - preprocessed_evals@.len(),
        {
            let pair = eval.next_interaction_mask(PREPROCESSED_TRACE_IDX);
            preprocessed_evals.push(pair);
        }
        let mut program_evals: Vec<Expr> = Vec::new();
        while program_evals.len() < PROGRAM_COLUMNS_NUM
            invariant
                program_evals@.len() <= PROGRAM_COLUMNS_NUM,
                eval.program_masks_taken() == program_evals@.len(),
                eval.main_masks_taken() == COLUMNS_NUM,
                eval.preprocessed_masks_taken() == PREPROCESSED_COLUMNS_NUM,
                eval.constraints_spec() == old(eval).constraints_spec(),
                evals@.len() == COLUMNS_NUM,
                forall|i: int|
                    0 <= i < COLUMNS_NUM ==> evals@[i] == #[trigger] main_mask_pair(i),
                preprocessed_evals@.len() == PREPROCESSED_COLUMNS_NUM,
                forall|i: int|
                    0 <= i < PREPROCESSED_COLUMNS_NUM ==> preprocessed_evals@[i]
                        == #[trigger] preprocessed_mask_pair(i),
                forall|i: int|
                    0 <= i < program_evals@.len() ==> program_evals@[i]
                        == #[trigger] program_mask(i),
            decreases PROGRAM_COLUMNS_NUM - program_evals@.len(),
        {
            let mask = eval.next_program_mask();
            program_evals.push(mask);
        }
        TraceEval { evals, preprocessed_evals, program_evals }
    }

    /// Current-row expressions of main group `col`, one per cell.
    pub fn column_eval(&self, col: Column) -> (r: Vec<Expr>)
        requires
            self.is_canonical(),
        ensures
            r@.len() == col.size(),
            forall|i: int|
                0 <= i < col.size() ==> r@[i] == (#[trigger] main_mask_pair(col.offset() + i)).0,
    {
        proof {
            crate::column::lemma_schema_consistency();
        }
        let offset: usize = col.offset();
        let n: usize = col.size();
        let mut r: Vec<Expr> = Vec::new();
        let mut i: usize = 0;
        while i < n
            invariant
                self.is_canonical(),
                offset == col.offset(),
                n == col.size(),
                offset + n <= COLUMNS_NUM,
                i <= n,
                r@.len() == i,
                forall|k: int|
                    0 <= k < i ==> r@[k] == (#[trigger] main_mask_pair(offset + k)).0,
            decreases n - i,
        {
            r.push(self.evals[offset + i].0.clone());
            i += 1;
        }
        r
    }

    /// Next-row expressions of main group `col`, one per cell.
    pub fn column_eval_next_row(&self, col: Column) -> (r: Vec<Expr>)
        requires
            self.is_canonical(),
        ensures
            r@.len() == col.size(),
            forall|i: int|
                0 <= i < col.size() ==> r@[i] == (#[trigger] main_mask_pair(col.offset() + i)).1,
    {
        proof {
            crate::column::lemma_schema_consistency();
        }
        let offset: usize = col.offset();
        let n: usize = col.size();
        let mut r: Vec<Expr> = Vec::new();
        let mut i: usize = 0;
        while i < n
            invariant
                self.is_canonical(),
                offset == col.offset(),
                n == col.size(),
                offset + n <= COLUMNS_NUM,
                i <= n,
                r@.len() == i,
                forall|k: int|
                    0 <= k < i ==> r@[k] == (#[trigger] main_mask_pair(offset + k)).1,
            decreases n - i,
        {
            r.push(self.evals[offset + i].1.clone());
            i += 1;
        }
        r
    }

    /// Current-row expressions of preprocessed group `col`.
    pub fn preprocessed_column_eval(&self, col: PreprocessedColumn) -> (r: Vec<Expr>)
        requires
            self.is_canonical(),
        ensures
            r@.len() == col.size(),
            forall|i: int|
                0 <= i < col.size() ==> r@[i] == (#[trigger] preprocessed_mask_pair(
                    col.offset() + i,
                )).0,
    {
        let offset: usize = col.offset();
        let n: usize = col.size();
        let mut r: Vec<Expr> = Vec::new();
        let mut i: usize = 0;
        while i < n
            invariant
                self.is_canonical(),
                offset == col.offset(),
                n == col.size(),
                offset + n <= PREPROCESSED_COLUMNS_NUM,
                i <= n,
                r@.len() == i,
                forall|k: int|
                    0 <= k < i ==> r@[k] == (#[trigger] preprocessed_mask_pair(offset + k)).0,
            decreases n - i,
        {
            r.push(self.preprocessed_evals[offset + i].0.clone());
            i += 1;
        }
        r
    }

    /// Next-row expressions of preprocessed group `col`.
    pub fn preprocessed_column_eval_next_row(&self, col: PreprocessedColumn) -> (r: Vec<Expr>)
        requires
            self.is_canonical(),
        ensures
            r@.len() == col.size(),
            forall|i: int|
                0 <= i < col.size() ==> r@[i] == (#[trigger] preprocessed_mask_pair(
                    col.offset() + i,
                )).1,
    {
        let offset: usize = col.offset();
        let n: usize = col.size();
        let mut r: Vec<Expr> = Vec::new();
        let mut i: usize = 0;
        while i < n
            invariant
                self.is_canonical(),
                offset == col.offset(),
                n == col.size(),
                offset + n <= PREPROCESSED_COLUMNS_NUM,
                i <= n,
                r@.len() == i,
                forall|k: int|
                    0 <= k < i ==> r@[k] == (#[trigger] preprocessed_mask_pair(offset + k)).1,
            decreases n - i,
        {
            r.push(self.preprocessed_evals[offset + i].1.clone());
            i += 1;
        }
        r
    }

    /// Current-row expressions of program group `col`.
    pub fn program_column_eval(&self, col: ProgramColumn) -> (r: Vec<Expr>)
        requires
            self.is_canonical(),
        ensures
            r@.len() == col.size(),
            forall|i: int|
                0 <= i < col.size() ==> r@[i] == #[trigger] program_mask(col.offset() + i),
    {
        let offset: usize = col.offset();
        let n: usize = col.size();
        let mut r: Vec<Expr> = Vec::new();
        let mut i: usize = 0;
        while i < n
            invariant
                self.is_canonical(),
                offset == col.offset(),
                n == col.size(),
                offset + n <= PROGRAM_COLUMNS_NUM,
                i <= n,
                r@.len() == i,
                forall|k: int|
                    0 <= k < i ==> r@[k] == #[trigger] program_mask(offset + k),
            decreases n - i,
        {
            r.push(self.program_evals[offset + i].clone());
            i += 1;
        }
        r
    }
}

/// Mask-consumption determinism: two row views built over the same schemas
/// expose, position for position, the same mask expressions of every trace
/// family, so constraint emission against either yields byte-identical
/// streams.
pub proof fn lemma_trace_eval_deterministic(t1: TraceEval, t2: TraceEval)
    requires
        t1.is_canonical(),
        t2.is_canonical(),
    ensures
        forall|i: int|
            0 <= i < COLUMNS_NUM ==> #[trigger] t1.mask_pair_at(i) == t2.mask_pair_at(i),
        forall|i: int|
            0 <= i < PREPROCESSED_COLUMNS_NUM ==> #[trigger] t1.preprocessed_mask_pair_at(i)
                == t2.preprocessed_mask_pair_at(i),
        forall|i: int|
            0 <= i < PROGRAM_COLUMNS_NUM ==> #[trigger] t1.program_mask_at(i)
                == t2.program_mask_at(i),
{
    assert forall|i: int|
        0 <= i < COLUMNS_NUM implies #[trigger] t1.mask_pair_at(i) == t2.mask_pair_at(i) by {
        assert(t1.mask_pair_at(i) == main_mask_pair(i));
        assert(t2.mask_pair_at(i) == main_mask_pair(i));
    }
    assert forall|i: int|
        0 <= i < PREPROCESSED_COLUMNS_NUM implies #[trigger] t1.preprocessed_mask_pair_at(i)
        == t2.preprocessed_mask_pair_at(i) by {
        assert(t1.preprocessed_mask_pair_at(i) == preprocessed_mask_pair(i));
        assert(t2.preprocessed_mask_pair_at(i) == preprocessed_mask_pair(i));
    }
    assert forall|i: int|
        0 <= i < PROGRAM_COLUMNS_NUM implies #[trigger] t1.program_mask_at(i)
        == t2.program_mask_at(i) by {
        assert(t1.program_mask_at(i) == program_mask(i));
        assert(t2.program_mask_at(i) == program_mask(i));
    }
}

impl TraceEval {
    /// The mask pair the row view exposes for main column `i`.
    pub closed spec fn mask_pair_at(self, i: int) -> (Expr, Expr) {
        self.evals@[i]
    }

    /// The mask pair the row view exposes for preprocessed column `i`.
    pub closed spec fn preprocessed_mask_pair_at(self, i: int) -> (Expr, Expr) {
        self.preprocessed_evals@[i]
    }

    /// The current-row mask the row view exposes for program column `i`.
    pub closed spec fn program_mask_at(self, i: int) -> Expr {
        self.program_evals@[i]
    }
}

} // verus!
