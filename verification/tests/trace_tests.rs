use trace_core::column::{Column, COLUMNS_NUM, WORD_SIZE};
use trace_core::field::FieldElement;
use trace_core::trace::Traces;
use trace_core::utils::{bit_reverse, bit_reverse_exec, coset_order_to_circle_domain_order};

fn residues(cells: &[FieldElement]) -> Vec<u32> {
    cells.iter().map(|f| f.residue()).collect()
}

const ALL_COLUMNS: [Column; 6] = [
    Column::IsAdd,
    Column::ValueA,
    Column::ValueAEffective,
    Column::ValueB,
    Column::ValueC,
    Column::CarryFlag,
];

#[test]
fn test_schema_offsets_and_sizes() {
    let mut expected_offset = 0usize;
    for col in ALL_COLUMNS {
        assert_eq!(col.offset(), expected_offset);
        expected_offset += col.size();
        assert!(col.offset() + col.size() <= COLUMNS_NUM);
    }
    assert_eq!(expected_offset, COLUMNS_NUM);
}

#[test]
fn test_fresh_trace_is_all_zero() {
    let traces = Traces::new(4);
    assert_eq!(traces.num_rows(), 16);
    assert_eq!(traces.log_size(), 4);
    for row in 0..traces.num_rows() {
        for col in ALL_COLUMNS {
            for v in residues(&traces.column(row, col)) {
                assert_eq!(v, 0);
            }
        }
    }
}

#[test]
fn test_fill_columns_bytes_round_trip() {
    let mut traces = Traces::new(4);
    let bytes = [0x11u8, 0x22, 0x33, 0x44];
    traces.fill_columns_bytes(3, &bytes, Column::ValueB);
    assert_eq!(residues(&traces.column(3, Column::ValueB)), vec![0x11, 0x22, 0x33, 0x44]);
    // Other rows and groups stay zero.
    assert_eq!(residues(&traces.column(2, Column::ValueB)), vec![0, 0, 0, 0]);
    assert_eq!(residues(&traces.column(3, Column::ValueC)), vec![0, 0, 0, 0]);
}

#[test]
fn test_fill_columns_u32_round_trip() {
    let mut traces = Traces::new(4);
    traces.fill_columns(7, 0x0403_0201, Column::ValueA);
    assert_eq!(residues(&traces.column(7, Column::ValueA)), vec![1, 2, 3, 4]);
}

#[test]
fn test_fill_columns_basefield_round_trip() {
    let mut traces = Traces::new(4);
    let values = [
        FieldElement::new(5),
        FieldElement::new(6),
        FieldElement::new(7),
        FieldElement::new(8),
    ];
    traces.fill_columns_basefield(0, &values, Column::CarryFlag);
    assert_eq!(residues(&traces.column(0, Column::CarryFlag)), vec![5, 6, 7, 8]);
}

#[test]
fn test_fill_effective_columns_selector_zero() {
    let mut traces = Traces::new(4);
    traces.fill_columns_bytes(2, &[9, 8, 7, 6], Column::ValueA);
    // Selector IsAdd stays zero: the destination is filled with zeros.
    traces.fill_columns_bytes(2, &[1, 1, 1, 1], Column::ValueAEffective);
    traces.fill_effective_columns(2, Column::ValueA, Column::ValueAEffective, Column::IsAdd);
    assert_eq!(residues(&traces.column(2, Column::ValueAEffective)), vec![0, 0, 0, 0]);
}

#[test]
fn test_fill_effective_columns_selector_set() {
    let mut traces = Traces::new(4);
    traces.fill_columns_bytes(5, &[9, 8, 7, 6], Column::ValueA);
    traces.fill_columns_basefield(5, &[FieldElement::one()], Column::IsAdd);
    traces.fill_effective_columns(5, Column::ValueA, Column::ValueAEffective, Column::IsAdd);
    assert_eq!(residues(&traces.column(5, Column::ValueAEffective)), vec![9, 8, 7, 6]);
    // The source is untouched.
    assert_eq!(residues(&traces.column(5, Column::ValueA)), vec![9, 8, 7, 6]);
}

#[test]
fn test_coset_order_to_circle_domain_order_exact() {
    let values: Vec<FieldElement> = (0..4).map(FieldElement::new).collect();
    let reordered = coset_order_to_circle_domain_order(&values);
    // Positions walk 0, n-1, 1, n-2, ...
    assert_eq!(residues(&reordered), vec![0, 3, 1, 2]);
}

#[test]
fn test_bit_reverse_exact() {
    assert_eq!(bit_reverse_exec(0, 2), 0);
    assert_eq!(bit_reverse_exec(1, 2), 2);
    assert_eq!(bit_reverse_exec(2, 2), 1);
    assert_eq!(bit_reverse_exec(3, 2), 3);
    assert_eq!(bit_reverse_exec(1, 3), 4);
    assert_eq!(bit_reverse_exec(6, 3), 3);
    let mut values: Vec<FieldElement> = (0..4).map(FieldElement::new).collect();
    bit_reverse(&mut values, 2);
    assert_eq!(residues(&values), vec![0, 2, 1, 3]);
}

#[test]
fn test_circle_evaluation_length_and_permutation() {
    let mut traces = Traces::new(4);
    let n = traces.num_rows();
    for row in 0..n {
        traces.set_cell(row, Column::IsAdd, 0, FieldElement::new(row as u32));
    }
    let evaluations = traces.circle_evaluation();
    assert_eq!(evaluations.len(), COLUMNS_NUM);
    for eval in &evaluations {
        assert_eq!(eval.log_size, 4);
        assert_eq!(eval.values.len(), n);
    }
    // The committed IsAdd column is a permutation of the trace column.
    let mut committed = residues(&evaluations[Column::IsAdd.offset()].values);
    committed.sort();
    let expected: Vec<u32> = (0..n as u32).collect();
    assert_eq!(committed, expected);
}

#[test]
fn test_get_base_column_matches_circle_evaluation() {
    let mut traces = Traces::new(4);
    for row in 0..traces.num_rows() {
        traces.set_cell(row, Column::ValueA, 1, FieldElement::new(3 * row as u32 + 1));
    }
    let base = traces.get_base_column(Column::ValueA);
    assert_eq!(base.len(), WORD_SIZE);
    let evaluations = traces.circle_evaluation();
    for limb in 0..WORD_SIZE {
        assert_eq!(
            residues(&base[limb]),
            residues(&evaluations[Column::ValueA.offset() + limb].values)
        );
    }
}

#[test]
fn test_into_inner_shape() {
    let traces = Traces::new(5);
    let cols = traces.into_inner();
    assert_eq!(cols.len(), COLUMNS_NUM);
    for col in &cols {
        assert_eq!(col.len(), 32);
        for cell in col {
            assert_eq!(cell.residue(), 0);
        }
    }
}
