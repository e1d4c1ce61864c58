//! The execution trace table.
//!
//! A [`Traces`] value owns [`COLUMNS_NUM`] vectors of field elements, each
//! `2^log_size` cells long. Rows correspond to executed program steps;
//! columns are addressed through the main [`Column`] schema. All cells start
//! at the field zero; chips fill their assigned groups row by row.

use vstd::prelude::*;

use crate::column::{lemma_schema_consistency, Column, COLUMNS_NUM};
use crate::field::FieldElement;
use crate::utils::{
    bit_reverse, commitment_order_source, coset_order_to_circle_domain_order,
    lemma_commitment_order_is_permutation,
};

verus! {

/// Platform-chosen log of the SIMD lane count; traces may not be shorter.
pub const LOG_LANES: u32 = 4;

/// The flat column table backing one proof attempt.
pub struct Traces {
    cols: Vec<Vec<FieldElement>>,
    log_size: u32,
}

impl Traces {
    /// Log of the number of rows.
    pub closed spec fn log_size_spec(self) -> u32 {
        self.log_size
    }

    /// Number of rows, `2^log_size`.
    pub open spec fn num_rows_spec(self) -> nat {
        vstd::arithmetic::power2::pow2(self.log_size_spec() as nat)
    }

    /// The cell of flat column `cidx` at row `row`.
    pub closed spec fn cell(self, cidx: int, row: int) -> FieldElement {
        self.cols@[cidx]@[row]
    }

    /// Well-formedness: the table holds exactly [`COLUMNS_NUM`] columns of
    /// equal power-of-two length, at least `2^LOG_LANES` rows each.
    pub closed spec fn wf(self) -> bool {
        &&& self.cols@.len() == COLUMNS_NUM
        &&& LOG_LANES <= self.log_size < 32
        &&& forall|i: int|
            0 <= i < COLUMNS_NUM ==> (#[trigger] self.cols@[i])@.len() == self.num_rows_spec()
    }

    /// The cells of `other` agree with the cells of `self` everywhere except
    /// possibly at row `row` in flat columns `col_lo..col_hi`.
    pub open spec fn agrees_except(self, other: Traces, col_lo: int, col_hi: int, row: int) -> bool {
        forall|c: int, r: int|
            0 <= c < COLUMNS_NUM && 0 <= r < self.num_rows_spec() && !(r == row && col_lo <= c
                < col_hi) ==> #[trigger] other.cell(c, r) == self.cell(c, r)
    }

    /// Returns [`COLUMNS_NUM`] zeroed columns, each `2^log_size` cells long.
    pub fn new(log_size: u32) -> (t: Self)
        requires
            LOG_LANES <= log_size < 32,
        ensures
            t.wf(),
            t.log_size_spec() == log_size,
            forall|c: int, r: int|
                0 <= c < COLUMNS_NUM && 0 <= r < t.num_rows_spec() ==> (#[trigger] t.cell(c, r))@
                    == 0,
    {
        let cols = crate::utils::zeroed_columns(COLUMNS_NUM, log_size);
        Traces { cols, log_size }
    }

    /// Gives up the table and returns the raw columns.
    pub fn into_inner(self) -> (r: Vec<Vec<FieldElement>>)
        ensures
            r@.len() == self.cols_len_spec(),
            forall|c: int, j: int|
                0 <= c < r@.len() && 0 <= j < r@[c]@.len() ==> #[trigger] r@[c]@[j] == self.cell(
                    c,
                    j,
                ),
            self.wf() ==> forall|c: int|
                0 <= c < COLUMNS_NUM ==> (#[trigger] r@[c])@.len() == self.num_rows_spec(),
    {
        self.cols
    }

    /// Number of columns actually held; equals [`COLUMNS_NUM`] when well-formed.
    pub closed spec fn cols_len_spec(self) -> int {
        self.cols@.len() as int
    }

    /// Log of the number of rows.
    pub fn log_size(&self) -> (r: u32)
        ensures
            r == self.log_size_spec(),
    {
        self.log_size
    }

    /// The number of rows.
    pub fn num_rows(&self) -> (r: usize)
        requires
            self.wf(),
        ensures
            r == self.num_rows_spec(),
    {
        proof {
            vstd::bits::lemma_usize_pow2_no_overflow(self.log_size as nat);
            vstd::bits::lemma_usize_shl_is_mul(1usize, self.log_size as usize);
        }
        1usize << (self.log_size as usize)
    }


    /// The single cell of flat column `cidx` at `row`.
    pub fn cell_at(&self, cidx: usize, row: usize) -> (r: FieldElement)
        requires
            self.wf(),
            cidx < COLUMNS_NUM,
            row < self.num_rows_spec(),
        ensures
            r == self.cell(cidx as int, row as int),
    {
        self.cols[cidx][row]
    }

    /// Overwrites the single cell of limb `limb` of group `col` at `row`;
    /// every other cell keeps its value.
    pub fn set_cell(&mut self, row: usize, col: Column, limb: usize, value: FieldElement)
        requires
            old(self).wf(),
            row < old(self).num_rows_spec(),
            limb < col.size(),
        ensures
            final(self).wf(),
            final(self).log_size_spec() == old(self).log_size_spec(),
            final(self).cell(col.offset() + limb, row as int) == value,
            old(self).agrees_except(
                *final(self),
                col.offset() + limb,
                col.offset() + limb + 1,
                row as int,
            ),
    {
        proof {
            lemma_schema_consistency();
        }
        let cidx: usize = col.offset() + limb;
        self.cols[cidx][row] = value;
    }

    /// Returns a copy of the `col.size()` consecutive cells of group `col`
    /// at row `row`.
    pub fn column(&self, row: usize, col: Column) -> (r: Vec<FieldElement>)
        requires
            self.wf(),
            row < self.num_rows_spec(),
        ensures
            r@.len() == col.size(),
            forall|i: int|
                0 <= i < col.size() ==> #[trigger] r@[i] == self.cell(col.offset() + i, row as int),
    {
        proof {
            lemma_schema_consistency();
        }
        let offset: usize = col.offset();
        let n: usize = col.size();
        let mut r: Vec<FieldElement> = Vec::new();
        let mut i: usize = 0;
        while i < n
            invariant
                self.wf(),
                row < self.num_rows_spec(),
                offset == col.offset(),
                n == col.size(),
                offset + n <= COLUMNS_NUM,
                i <= n,
                r@.len() == i,
                forall|k: int|
                    0 <= k < i ==> #[trigger] r@[k] == self.cell(offset + k, row as int),
            decreases n - i,
        {
            r.push(self.cols[offset + i][row]);
            i += 1;
        }
        r
    }

    /// Writes `value` into the cells of group `col` at row `row`. The slice
    /// must be exactly as wide as the group.
    pub fn fill_columns_basefield(&mut self, row: usize, value: &[FieldElement], col: Column)
        requires
            old(self).wf(),
            row < old(self).num_rows_spec(),
            value@.len() == col.size(),
        ensures
            final(self).wf(),
            final(self).log_size_spec() == old(self).log_size_spec(),
            forall|i: int|
                0 <= i < col.size() ==> #[trigger] final(self).cell(col.offset() + i, row as int)
                    == value@[i],
            old(self).agrees_except(
                *final(self),
                col.offset() as int,
                col.offset() + col.size(),
                row as int,
            ),
    {
        proof {
            lemma_schema_consistency();
        }
        let offset: usize = col.offset();
        let n: usize = col.size();
        let ghost orig = *self;
        let mut i: usize = 0;
        while i < n
            invariant
                self.wf(),
                self.log_size == orig.log_size,
                row < orig.num_rows_spec(),
                offset == col.offset(),
                n == col.size(),
                offset + n <= COLUMNS_NUM,
                value@.len() == n,
                i <= n,
                forall|k: int|
                    0 <= k < i ==> #[trigger] self.cell(offset + k, row as int) == value@[k],
                orig.agrees_except(*self, offset as int, offset + i, row as int),
            decreases n - i,
        {
            let ghost prev = *self;
            self.cols[offset + i][row] = value[i];
            proof {
                assert forall|k: int|
                    0 <= k < i + 1 implies #[trigger] self.cell(offset + k, row as int)
                    == value@[k] by {
                    if k < i {
                        assert(prev.cell(offset + k, row as int) == value@[k]);
                    }
                }
                assert forall|c: int, r: int|
                    0 <= c < COLUMNS_NUM && 0 <= r < orig.num_rows_spec() && !(r == row && offset
                        <= c < offset + i + 1) implies #[trigger] self.cell(c, r) == orig.cell(
                    c,
                    r,
                ) by {
                    assert(prev.cell(c, r) == orig.cell(c, r));
                }
            }
            i += 1;
        }
    }

    /// Writes a byte slice into group `col` at row `row`, each byte embedded
    /// as a field element.
    pub fn fill_columns_bytes(&mut self, row: usize, value: &[u8], col: Column)
        requires
            old(self).wf(),
            row < old(self).num_rows_spec(),
            value@.len() == col.size(),
        ensures
            final(self).wf(),
            final(self).log_size_spec() == old(self).log_size_spec(),
            forall|i: int|
                0 <= i < col.size() ==> (#[trigger] final(self).cell(col.offset() + i, row as int))@
                    == value@[i],
            old(self).agrees_except(
                *final(self),
                col.offset() as int,
                col.offset() + col.size(),
                row as int,
            ),
    {
        let n: usize = col.size();
        let mut fields: Vec<FieldElement> = Vec::new();
        let mut i: usize = 0;
        while i < n
            invariant
                value@.len() == n,
                i <= n,
                fields@.len() == i,
                forall|k: int| 0 <= k < i ==> (#[trigger] fields@[k])@ == value@[k],
            decreases n - i,
        {
            fields.push(FieldElement::from_byte(value[i]));
            i += 1;
        }
        self.fill_columns_basefield(row, fields.as_slice(), col);
    }

    /// Writes the little-endian limbs of a 32-bit value into group `col` at
    /// row `row`. The group must be one machine word wide.
    pub fn fill_columns(&mut self, row: usize, value: u32, col: Column)
        requires
            old(self).wf(),
            row < old(self).num_rows_spec(),
            col.size() == crate::column::WORD_SIZE,
        ensures
            final(self).wf(),
            final(self).log_size_spec() == old(self).log_size_spec(),
            forall|i: int|
                0 <= i < col.size() ==> (#[trigger] final(self).cell(col.offset() + i, row as int))@
                    == crate::program::word_byte(value, i),
            old(self).agrees_except(
                *final(self),
                col.offset() as int,
                col.offset() + col.size(),
                row as int,
            ),
    {
        let bytes: [u8; 4] = crate::program::u32_to_le_bytes(value);
        self.fill_columns_bytes(row, bytes.as_slice(), col);
    }

    /// Applies the effective-destination selector: when the single selector
    /// cell at `row` is the field zero, fills `dst` with zeros; otherwise
    /// copies the cells of `src` into `dst`. `src` and `dst` must have equal
    /// width.
    pub fn fill_effective_columns(&mut self, row: usize, src: Column, dst: Column, selector: Column)
        requires
            old(self).wf(),
            row < old(self).num_rows_spec(),
            src.size() == dst.size(),
            selector.size() == 1,
        ensures
            final(self).wf(),
            final(self).log_size_spec() == old(self).log_size_spec(),
            old(self).cell(selector.offset() as int, row as int)@ == 0 ==> forall|i: int|
                0 <= i < dst.size() ==> (#[trigger] final(self).cell(dst.offset() + i, row as int))@
                    == 0,
            old(self).cell(selector.offset() as int, row as int)@ != 0 ==> forall|i: int|
                0 <= i < dst.size() ==> #[trigger] final(self).cell(dst.offset() + i, row as int)
                    == old(self).cell(src.offset() + i, row as int),
            old(self).agrees_except(
                *final(self),
                dst.offset() as int,
                dst.offset() + dst.size(),
                row as int,
            ),
    {
        proof {
            lemma_schema_consistency();
        }
        let src_vals: Vec<FieldElement> = self.column(row, src);
        let sel: Vec<FieldElement> = self.column(row, selector);
        if sel[0].is_zero() {
            let n: usize = dst.size();
            let mut zeros: Vec<FieldElement> = Vec::new();
            let mut i: usize = 0;
            while i < n
                invariant
                    i <= n,
                    zeros@.len() == i,
                    forall|k: int| 0 <= k < i ==> (#[trigger] zeros@[k])@ == 0,
                decreases n - i,
            {
                zeros.push(FieldElement::zero());
                i += 1;
            }
            self.fill_columns_basefield(row, zeros.as_slice(), dst);
        } else {
            self.fill_columns_basefield(row, src_vals.as_slice(), dst);
        }
    }
}

/// One column materialised as an evaluation over the canonical coset of size
/// `2^log_size`, stored in commitment (bit-reversed circle-domain) order.
pub struct CircleEvaluation {
    /// Log of the evaluation domain size.
    pub log_size: u32,
    /// The evaluations, in commitment order.
    pub values: Vec<FieldElement>,
}

impl Traces {
    /// Returns a copy of flat column `cidx` in trace (coset) order.
    fn flat_column(&self, cidx: usize) -> (r: Vec<FieldElement>)
        requires
            self.wf(),
            cidx < COLUMNS_NUM,
        ensures
            r@.len() == self.num_rows_spec(),
            forall|j: int| 0 <= j < r@.len() ==> #[trigger] r@[j] == self.cell(cidx as int, j),
    {
        let n: usize = self.num_rows();
        let mut r: Vec<FieldElement> = Vec::new();
        let mut j: usize = 0;
        while j < n
            invariant
                self.wf(),
                cidx < COLUMNS_NUM,
                n == self.num_rows_spec(),
                j <= n,
                r@.len() == j,
                forall|k: int| 0 <= k < j ==> #[trigger] r@[k] == self.cell(cidx as int, k),
            decreases n - j,
        {
            r.push(self.cols[cidx][j]);
            j += 1;
        }
        r
    }

    /// Converts flat column `cidx` to commitment order.
    fn committed_column(&self, cidx: usize) -> (r: Vec<FieldElement>)
        requires
            self.wf(),
            cidx < COLUMNS_NUM,
        ensures
            r@.len() == self.num_rows_spec(),
            forall|j: int|
                0 <= j < r@.len() ==> #[trigger] r@[j] == self.cell(
                    cidx as int,
                    commitment_order_source(self.log_size_spec() as nat, j),
                ),
    {
        proof {
            vstd::arithmetic::power2::lemma_pow2_unfold(self.log_size_spec() as nat);
            vstd::arithmetic::power2::lemma_pow2_pos((self.log_size_spec() - 1) as nat);
        }
        let trace_order: Vec<FieldElement> = self.flat_column(cidx);
        let mut r: Vec<FieldElement> = coset_order_to_circle_domain_order(&trace_order);
        let ghost interleaved = r@;
        bit_reverse(&mut r, self.log_size());
        proof {
            let lg = self.log_size_spec() as nat;
            assert forall|j: int| 0 <= j < r@.len() implies #[trigger] r@[j] == self.cell(
                cidx as int,
                commitment_order_source(lg, j),
            ) by {
                crate::utils::lemma_bit_reverse_index_range(j, lg);
                let m = crate::utils::bit_reverse_index(j, lg);
                crate::utils::lemma_circle_domain_source_range(
                    vstd::arithmetic::power2::pow2(lg) as int,
                    m,
                );
                assert(r@[j] == interleaved[m]);
                assert(interleaved[m] == trace_order@[crate::utils::circle_domain_source(
                    interleaved.len() as int,
                    m,
                )]);
            }
        }
        r
    }

    /// Returns a copy of the `col.size()` columns of group `col`, each in the
    /// commitment order the downstream sink expects.
    pub fn get_base_column(&self, col: Column) -> (r: Vec<Vec<FieldElement>>)
        requires
            self.wf(),
        ensures
            r@.len() == col.size(),
            forall|i: int|
                0 <= i < col.size() ==> (#[trigger] r@[i])@.len() == self.num_rows_spec(),
            forall|i: int, j: int|
                0 <= i < col.size() && 0 <= j < self.num_rows_spec()
                    ==> #[trigger] r@[i]@[j] == self.cell(
                    col.offset() + i,
                    commitment_order_source(self.log_size_spec() as nat, j),
                ),
    {
        proof {
            lemma_schema_consistency();
        }
        let offset: usize = col.offset();
        let n: usize = col.size();
        let mut r: Vec<Vec<FieldElement>> = Vec::new();
        let mut i: usize = 0;
        while i < n
            invariant
                self.wf(),
                offset == col.offset(),
                n == col.size(),
                offset + n <= COLUMNS_NUM,
                i <= n,
                r@.len() == i,
                forall|k: int|
                    0 <= k < i ==> (#[trigger] r@[k])@.len() == self.num_rows_spec(),
                forall|k: int, j: int|
                    0 <= k < i && 0 <= j < self.num_rows_spec() ==> #[trigger] r@[k]@[j]
                        == self.cell(
                        offset + k,
                        commitment_order_source(self.log_size_spec() as nat, j),
                    ),
            decreases n - i,
        {
            r.push(self.committed_column(offset + i));
            i += 1;
        }
        r
    }

    /// Materialises every column of the trace as an evaluation over the
    /// canonical coset of size `2^log_size`, in commitment order. Each output
    /// holds exactly `2^log_size` values drawn from the corresponding trace
    /// column by a permutation of the row indices.
    pub fn circle_evaluation(&self) -> (r: Vec<CircleEvaluation>)
        requires
            self.wf(),
        ensures
            r@.len() == COLUMNS_NUM,
            forall|c: int|
                0 <= c < COLUMNS_NUM ==> (#[trigger] r@[c]).log_size == self.log_size_spec(),
            forall|c: int|
                0 <= c < COLUMNS_NUM ==> (#[trigger] r@[c]).values@.len() == self.num_rows_spec(),
            forall|c: int, j: int|
                0 <= c < COLUMNS_NUM && 0 <= j < self.num_rows_spec()
                    ==> #[trigger] r@[c].values@[j] == self.cell(
                    c,
                    commitment_order_source(self.log_size_spec() as nat, j),
                ),
    {
        let mut r: Vec<CircleEvaluation> = Vec::new();
        let mut c: usize = 0;
        while c < COLUMNS_NUM
            invariant
                self.wf(),
                c <= COLUMNS_NUM,
                r@.len() == c,
                forall|k: int|
                    0 <= k < c ==> (#[trigger] r@[k]).log_size == self.log_size_spec(),
                forall|k: int|
                    0 <= k < c ==> (#[trigger] r@[k]).values@.len() == self.num_rows_spec(),
                forall|k: int, j: int|
                    0 <= k < c && 0 <= j < self.num_rows_spec() ==> #[trigger] r@[k].values@[j]
                        == self.cell(
                        k,
                        commitment_order_source(self.log_size_spec() as nat, j),
                    ),
            decreases COLUMNS_NUM - c,
        {
            let values = self.committed_column(c);
            r.push(CircleEvaluation { log_size: self.log_size(), values });
            c += 1;
        }
        r
    }
}

/// Read/write round-trip: a group read returns, cell for cell, exactly what
/// a fill wrote. The first two premises are what the fill operations ensure
/// of the cells; the last two are what a group read returns.
pub proof fn lemma_fill_columns_round_trip(
    after: Traces,
    row: int,
    value: Seq<FieldElement>,
    col: Column,
    read: Seq<FieldElement>,
)
    requires
        value.len() == col.size(),
        forall|i: int|
            0 <= i < col.size() ==> #[trigger] after.cell(col.offset() + i, row) == value[i],
        read.len() == col.size(),
        forall|i: int|
            0 <= i < col.size() ==> #[trigger] read[i] == after.cell(col.offset() + i, row),
    ensures
        read == value,
{
    assert(read =~= value);
}

/// A freshly constructed trace reads all zeros: any group read at any row
/// of a table whose cells are all the field zero returns only zeros.
pub proof fn lemma_fresh_trace_reads_zero(
    t: Traces,
    row: int,
    col: Column,
    read: Seq<FieldElement>,
)
    requires
        t.wf(),
        0 <= row < t.num_rows_spec(),
        forall|c: int, r: int|
            0 <= c < COLUMNS_NUM && 0 <= r < t.num_rows_spec() ==> (#[trigger] t.cell(c, r))@ == 0,
        read.len() == col.size(),
        forall|i: int|
            0 <= i < col.size() ==> #[trigger] read[i] == t.cell(col.offset() + i, row),
    ensures
        forall|i: int| 0 <= i < read.len() ==> (#[trigger] read[i])@ == 0,
{
    lemma_schema_consistency();
}

} // verus!
