//! Column schemas of the execution trace.
//!
//! Three disjoint schemas are fixed at build time: the main schema (mutable
//! while the trace is filled), the preprocessed schema (constants known to
//! prover and verifier) and the program schema (indexed by program counter).
//! Each schema is a closed enumeration of named groups; a group has a
//! compile-time width in field cells and an offset that is the prefix sum of
//! the widths declared before it.

use vstd::prelude::*;

verus! {

/// Number of 8-bit limbs in a machine word.
pub const WORD_SIZE: usize = 4;

/// Total width of the main schema in field cells.
pub const COLUMNS_NUM: usize = 21;

/// Total width of the preprocessed schema in field cells.
pub const PREPROCESSED_COLUMNS_NUM: usize = 1;

/// Total width of the program schema in field cells.
pub const PROGRAM_COLUMNS_NUM: usize = 1;

/// A group of the main schema.
#[derive(Clone, Copy, Debug, PartialEq, Eq, Structural)]
pub enum Column {
    /// Selector: 1 exactly on rows executed by the ADD/ADDI chip.
    IsAdd,
    /// Destination register value, one cell per limb.
    ValueA,
    /// Destination value after the zero-register rule, one cell per limb.
    ValueAEffective,
    /// First source operand, one cell per limb.
    ValueB,
    /// Second source operand, one cell per limb.
    ValueC,
    /// Carry bit out of each limb addition.
    CarryFlag,
}

/// A group of the preprocessed schema.
#[derive(Clone, Copy, Debug, PartialEq, Eq, Structural)]
pub enum PreprocessedColumn {
    /// Boundary marker: 1 on the first row, 0 elsewhere.
    IsFirst,
}

/// A group of the program schema.
#[derive(Clone, Copy, Debug, PartialEq, Eq, Structural)]
pub enum ProgramColumn {
    /// Flag marking program-counter slots backed by program memory.
    PrgMemoryFlag,
}

impl Column {
    /// Position of the group in declaration order.
    pub open spec fn position(self) -> int {
        match self {
            Column::IsAdd => 0,
            Column::ValueA => 1,
            Column::ValueAEffective => 2,
            Column::ValueB => 3,
            Column::ValueC => 4,
            Column::CarryFlag => 5,
        }
    }

    pub open spec fn size_spec(self) -> usize {
        match self {
            Column::IsAdd => 1,
            Column::ValueA => WORD_SIZE,
            Column::ValueAEffective => WORD_SIZE,
            Column::ValueB => WORD_SIZE,
            Column::ValueC => WORD_SIZE,
            Column::CarryFlag => WORD_SIZE,
        }
    }

    /// Width of the group in field cells.
    #[verifier::when_used_as_spec(size_spec)]
    pub fn size(self) -> (n: usize)
        ensures
            n == self.size_spec(),
    {
        match self {
            Column::IsAdd => 1,
            Column::ValueA => WORD_SIZE,
            Column::ValueAEffective => WORD_SIZE,
            Column::ValueB => WORD_SIZE,
            Column::ValueC => WORD_SIZE,
            Column::CarryFlag => WORD_SIZE,
        }
    }

    pub open spec fn offset_spec(self) -> usize {
        match self {
            Column::IsAdd => 0,
            Column::ValueA => 1,
            Column::ValueAEffective => 5,
            Column::ValueB => 9,
            Column::ValueC => 13,
            Column::CarryFlag => 17,
        }
    }

    /// Starting cell index of the group inside the flat column table: the
    /// sum of the widths of the groups declared before it.
    #[verifier::when_used_as_spec(offset_spec)]
    pub fn offset(self) -> (n: usize)
        ensures
            n == self.offset_spec(),
    {
        match self {
            Column::IsAdd => 0,
            Column::ValueA => 1,
            Column::ValueAEffective => 5,
            Column::ValueB => 9,
            Column::ValueC => 13,
            Column::CarryFlag => 17,
        }
    }
}

impl PreprocessedColumn {
    pub open spec fn size_spec(self) -> usize {
        match self {
            PreprocessedColumn::IsFirst => 1,
        }
    }

    /// Width of the group in field cells.
    #[verifier::when_used_as_spec(size_spec)]
    pub fn size(self) -> (n: usize)
        ensures
            n == self.size_spec(),
    {
        match self {
            PreprocessedColumn::IsFirst => 1,
        }
    }

    pub open spec fn offset_spec(self) -> usize {
        match self {
            PreprocessedColumn::IsFirst => 0,
        }
    }

    /// Starting cell index of the group inside the preprocessed table.
    #[verifier::when_used_as_spec(offset_spec)]
    pub fn offset(self) -> (n: usize)
        ensures
            n == self.offset_spec(),
    {
        match self {
            PreprocessedColumn::IsFirst => 0,
        }
    }
}

impl ProgramColumn {
    pub open spec fn size_spec(self) -> usize {
        match self {
            ProgramColumn::PrgMemoryFlag => 1,
        }
    }

    /// Width of the group in field cells.
    #[verifier::when_used_as_spec(size_spec)]
    pub fn size(self) -> (n: usize)
        ensures
            n == self.size_spec(),
    {
        match self {
            ProgramColumn::PrgMemoryFlag => 1,
        }
    }

    pub open spec fn offset_spec(self) -> usize {
        match self {
            ProgramColumn::PrgMemoryFlag => 0,
        }
    }

    /// Starting cell index of the group inside the program table.
    #[verifier::when_used_as_spec(offset_spec)]
    pub fn offset(self) -> (n: usize)
        ensures
            n == self.offset_spec(),
    {
        match self {
            ProgramColumn::PrgMemoryFlag => 0,
        }
    }
}

/// Schema consistency: every main group fits inside the flat table, offsets
/// grow strictly in declaration order, and no two groups overlap — the group
/// that comes first ends at or before the offset of the one that follows.
pub proof fn lemma_schema_consistency()
    ensures
        forall|g: Column| #[trigger] g.offset() + g.size() <= COLUMNS_NUM,
        forall|g1: Column, g2: Column|
            g1.position() < g2.position() ==> #[trigger] g1.offset() + g1.size()
                <= #[trigger] g2.offset(),
{
}

} // verus!
