use trace_core::field::{FieldElement, FIELD_MODULUS};

#[test]
fn test_zero_and_one_residues() {
    assert_eq!(FieldElement::zero().residue(), 0);
    assert_eq!(FieldElement::one().residue(), 1);
    assert!(FieldElement::zero().is_zero());
    assert!(!FieldElement::one().is_zero());
}

#[test]
fn test_new_reduces_modulo_field_order() {
    assert_eq!(FieldElement::new(FIELD_MODULUS).residue(), 0);
    assert_eq!(FieldElement::new(FIELD_MODULUS - 1).residue(), FIELD_MODULUS - 1);
    assert_eq!(FieldElement::new(u32::MAX).residue(), u32::MAX - 2 * FIELD_MODULUS);
}

#[test]
fn test_byte_embedding() {
    for b in [0u8, 1, 127, 255] {
        assert_eq!(FieldElement::from_byte(b).residue(), b as u32);
    }
}

#[test]
fn test_add_wraps_at_field_order() {
    let a = FieldElement::new(FIELD_MODULUS - 1);
    let one = FieldElement::one();
    assert_eq!(a.add(one).residue(), 0);
    assert_eq!(FieldElement::new(5).add(FieldElement::new(7)).residue(), 12);
}

#[test]
fn test_sub_wraps_below_zero() {
    let zero = FieldElement::zero();
    let one = FieldElement::one();
    assert_eq!(zero.sub(one).residue(), FIELD_MODULUS - 1);
    assert_eq!(FieldElement::new(9).sub(FieldElement::new(4)).residue(), 5);
    assert_eq!(one.neg().residue(), FIELD_MODULUS - 1);
}

#[test]
fn test_mul_reduces_exactly() {
    // 2^16 * 2^15 = 2^31 = FIELD_MODULUS + 1, so the product is 1.
    let a = FieldElement::new(1 << 16);
    let b = FieldElement::new(1 << 15);
    assert_eq!(a.mul(b).residue(), 1);
    assert_eq!(FieldElement::new(256).mul(FieldElement::new(256)).residue(), 65536);
}
