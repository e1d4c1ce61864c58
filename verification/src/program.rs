//! The program-step view and the machine-word model.
//!
//! A machine word is a little-endian tuple of [`WORD_SIZE`] 8-bit limbs. A
//! [`ProgramStep`] is the read-only view of one executed instruction that the
//! chips inspect while filling a trace row.

use vstd::arithmetic::power2::pow2;
use vstd::prelude::*;

use crate::column::{ProgramColumn, PROGRAM_COLUMNS_NUM, WORD_SIZE};
use crate::field::FieldElement;

verus! {

broadcast use vstd::array::group_array_axioms;

/// A machine word: little-endian 8-bit limbs.
pub type Word = [u8; WORD_SIZE];

/// One boolean per limb of a machine word.
pub type BoolWord = [bool; WORD_SIZE];

/// A word together with the number of bits that are architecturally
/// significant in it (immediates carry fewer than 32).
pub type WordWithEffectiveBits = (Word, u32);

/// The built-in opcodes the chips recognise.
#[derive(Clone, Copy, Debug, PartialEq, Eq, Structural)]
pub enum BuiltinOpcode {
    ADD,
    ADDI,
    SUB,
    ECALL,
}

/// The integer value of a little-endian word.
pub open spec fn word_value(w: Seq<u8>) -> int {
    w[0] + 0x100 * w[1] + 0x1_0000 * w[2] + 0x100_0000 * w[3]
}

/// Little-endian limb `i` of a 32-bit value.
pub open spec fn word_byte(value: u32, i: int) -> int {
    (value as nat / pow2((8 * i) as nat)) as int % 0x100
}

/// Splits a 32-bit value into its little-endian limbs.
pub fn u32_to_le_bytes(value: u32) -> (r: [u8; 4])
    ensures
        forall|i: int| 0 <= i < 4 ==> r@[i] == word_byte(value, i),
        word_value(r@) == value as int,
{
    proof {
        vstd::arithmetic::power2::lemma2_to64();
    }
    let b0: u8 = (value % 0x100) as u8;
    let b1: u8 = ((value / 0x100) % 0x100) as u8;
    let b2: u8 = ((value / 0x1_0000) % 0x100) as u8;
    let b3: u8 = ((value / 0x100_0000) % 0x100) as u8;
    let r: [u8; 4] = [b0, b1, b2, b3];
    proof {
        assert(word_byte(value, 0) == (value as nat / pow2(0)) as int % 0x100);
        assert(word_byte(value, 1) == (value as nat / pow2(8)) as int % 0x100);
        assert(word_byte(value, 2) == (value as nat / pow2(16)) as int % 0x100);
        assert(word_byte(value, 3) == (value as nat / pow2(24)) as int % 0x100);
        assert(r@[0] == word_byte(value, 0) && r@[1] == word_byte(value, 1) && r@[2] == word_byte(
            value,
            2,
        ) && r@[3] == word_byte(value, 3));
        assert(word_value(r@) == value as int) by {
            assert(value as int == 0x100 * (value as int / 0x100) + value as int % 0x100);
            assert(value as int / 0x100 == 0x100 * (value as int / 0x100 / 0x100) + (value as int
                / 0x100) % 0x100);
            assert(value as int / 0x1_0000 == 0x100 * (value as int / 0x1_0000 / 0x100) + (
            value as int / 0x1_0000) % 0x100);
            assert(value as int / 0x100 / 0x100 == value as int / 0x1_0000);
            assert(value as int / 0x1_0000 / 0x100 == value as int / 0x100_0000);
            assert(value as int / 0x100_0000 < 0x100);
        }
    }
    r
}

/// Read-only view of one executed instruction, valid for the duration of one
/// row's processing.
pub struct ProgramStep {
    /// The instruction's opcode.
    pub opcode: BuiltinOpcode,
    /// First source operand.
    pub value_b: Word,
    /// Second source operand together with its effective bit count.
    pub value_c: WordWithEffectiveBits,
    /// The architectural 32-bit result, absent for instructions without a
    /// destination.
    pub result: Option<Word>,
    /// Whether the destination is the hard-wired zero register.
    pub rd_is_x0: bool,
}

impl ProgramStep {
    /// The first source operand.
    pub fn get_value_b(&self) -> (r: Word)
        ensures
            r == self.value_b,
    {
        self.value_b
    }

    /// The second source operand and its effective bit count.
    pub fn get_value_c(&self) -> (r: WordWithEffectiveBits)
        ensures
            r == self.value_c,
    {
        self.value_c
    }

    /// The architectural result, if the instruction has a destination.
    pub fn get_result(&self) -> (r: Option<Word>)
        ensures
            r == self.result,
    {
        self.result
    }

    /// Whether the destination register is the hard-wired zero register.
    pub fn is_value_a_x0(&self) -> (r: bool)
        ensures
            r == self.rd_is_x0,
    {
        self.rd_is_x0
    }
}

/// The program trace: columns of the program schema, indexed by program
/// counter rather than by execution step.
pub struct ProgramTraces {
    cols: Vec<Vec<FieldElement>>,
    log_size: u32,
}

impl ProgramTraces {
    /// Log of the number of rows.
    pub closed spec fn log_size_spec(self) -> u32 {
        self.log_size
    }

    /// Number of rows, `2^log_size`.
    pub open spec fn num_rows_spec(self) -> nat {
        vstd::arithmetic::power2::pow2(self.log_size_spec() as nat)
    }

    /// The cell of flat program column `cidx` at row `row`.
    pub closed spec fn cell(self, cidx: int, row: int) -> FieldElement {
        self.cols@[cidx]@[row]
    }

    /// Well-formedness of the backing storage.
    pub closed spec fn wf(self) -> bool {
        &&& self.cols@.len() == PROGRAM_COLUMNS_NUM
        &&& crate::trace::LOG_LANES <= self.log_size < 32
        &&& forall|i: int|
            0 <= i < PROGRAM_COLUMNS_NUM ==> (#[trigger] self.cols@[i])@.len()
                == self.num_rows_spec()
    }

    /// Returns a zeroed program trace.
    pub fn new(log_size: u32) -> (t: Self)
        requires
            crate::trace::LOG_LANES <= log_size < 32,
        ensures
            t.wf(),
            t.log_size_spec() == log_size,
            forall|c: int, r: int|
                0 <= c < PROGRAM_COLUMNS_NUM && 0 <= r < t.num_rows_spec() ==> (#[trigger] t.cell(
                    c,
                    r,
                ))@ == 0,
    {
        let cols = crate::utils::zeroed_columns(PROGRAM_COLUMNS_NUM, log_size);
        ProgramTraces { cols, log_size }
    }


    /// The single cell of flat column `cidx` at `row`.
    pub fn cell_at(&self, cidx: usize, row: usize) -> (r: FieldElement)
        requires
            self.wf(),
            cidx < PROGRAM_COLUMNS_NUM,
            row < self.num_rows_spec(),
        ensures
            r == self.cell(cidx as int, row as int),
    {
        self.cols[cidx][row]
    }

    /// Returns a copy of the `col.size()` cells of group `col` at row `row`.
    pub fn column(&self, row: usize, col: ProgramColumn) -> (r: Vec<FieldElement>)
        requires
            self.wf(),
            row < self.num_rows_spec(),
        ensures
            r@.len() == col.size(),
            forall|i: int|
                0 <= i < col.size() ==> #[trigger] r@[i] == self.cell(col.offset() + i, row as int),
    {
        let offset: usize = col.offset();
        let n: usize = col.size();
        let mut r: Vec<FieldElement> = Vec::new();
        let mut i: usize = 0;
        while i < n
            invariant
                self.wf(),
                row < self.num_rows_spec(),
                offset == col.offset(),
                n == col.size(),
                offset + n <= PROGRAM_COLUMNS_NUM,
                i <= n,
                r@.len() == i,
                forall|k: int|
                    0 <= k < i ==> #[trigger] r@[k] == self.cell(offset + k, row as int),
            decreases n - i,
        {
            r.push(self.cols[offset + i][row]);
            i += 1;
        }
        r
    }
}

} // verus!
