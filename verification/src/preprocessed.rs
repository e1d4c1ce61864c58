//! The preprocessed trace: constants known to both prover and verifier.
//!
//! Its single group, `IsFirst`, marks the boundary row: 1 on row zero and 0
//! everywhere else.

use vstd::prelude::*;

use crate::column::{PreprocessedColumn, PREPROCESSED_COLUMNS_NUM};
use crate::field::FieldElement;
use crate::trace::LOG_LANES;

verus! {

/// The preprocessed columns for one trace size.
pub struct PreprocessedTraces {
    cols: Vec<Vec<FieldElement>>,
    log_size: u32,
}

impl PreprocessedTraces {
    /// Log of the number of rows.
    pub closed spec fn log_size_spec(self) -> u32 {
        self.log_size
    }

    /// Number of rows, `2^log_size`.
    pub open spec fn num_rows_spec(self) -> nat {
        vstd::arithmetic::power2::pow2(self.log_size_spec() as nat)
    }

    /// The cell of flat preprocessed column `cidx` at row `row`.
    pub closed spec fn cell(self, cidx: int, row: int) -> FieldElement {
        self.cols@[cidx]@[row]
    }

    /// Well-formedness of the backing storage.
    pub closed spec fn wf(self) -> bool {
        &&& self.cols@.len() == PREPROCESSED_COLUMNS_NUM
        &&& LOG_LANES <= self.log_size < 32
        &&& forall|i: int|
            0 <= i < PREPROCESSED_COLUMNS_NUM ==> (#[trigger] self.cols@[i])@.len()
                == self.num_rows_spec()
    }

    /// Builds the preprocessed trace for `2^log_size` rows: `IsFirst` is 1
    /// on row zero and 0 on every other row.
    pub fn new(log_size: u32) -> (t: Self)
        requires
            LOG_LANES <= log_size < 32,
        ensures
            t.wf(),
            t.log_size_spec() == log_size,
            t.cell(PreprocessedColumn::IsFirst.offset() as int, 0)@ == 1,
            forall|r: int|
                1 <= r < t.num_rows_spec() ==> (#[trigger] t.cell(
                    PreprocessedColumn::IsFirst.offset() as int,
                    r,
                ))@ == 0,
    {
        proof {
            vstd::arithmetic::power2::lemma_pow2_pos(log_size as nat);
        }
        let mut cols = crate::utils::zeroed_columns(PREPROCESSED_COLUMNS_NUM, log_size);
        cols[0][0] = FieldElement::one();
        PreprocessedTraces { cols, log_size }
    }


    /// The single cell of flat column `cidx` at `row`.
    pub fn cell_at(&self, cidx: usize, row: usize) -> (r: FieldElement)
        requires
            self.wf(),
            cidx < PREPROCESSED_COLUMNS_NUM,
            row < self.num_rows_spec(),
        ensures
            r == self.cell(cidx as int, row as int),
    {
        self.cols[cidx][row]
    }

    /// Returns a copy of the `col.size()` cells of group `col` at row `row`.
    pub fn column(&self, row: usize, col: PreprocessedColumn) -> (r: Vec<FieldElement>)
        requires
            self.wf(),
            row < self.num_rows_spec(),
        ensures
            r@.len() == col.size(),
            forall|i: int|
                0 <= i < col.size() ==> #[trigger] r@[i] == self.cell(col.offset() + i, row as int),
    {
        let offset: usize = col.offset();
        let n: usize = col.size();
        let mut r: Vec<FieldElement> = Vec::new();
        let mut i: usize = 0;
        while i < n
            invariant
                self.wf(),
                row < self.num_rows_spec(),
                offset == col.offset(),
                n == col.size(),
                offset + n <= PREPROCESSED_COLUMNS_NUM,
                i <= n,
                r@.len() == i,
                forall|k: int|
                    0 <= k < i ==> #[trigger] r@[k] == self.cell(offset + k, row as int),
            decreases n - i,
        {
            r.push(self.cols[offset + i][row]);
            i += 1;
        }
        r
    }
}

} // verus!
