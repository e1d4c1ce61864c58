//! Element of the prime field of order `P = 2^31 - 1`.
//!
//! A field element is a 32-bit container holding the canonical residue in
//! `[0, P)`. Every trace cell, constraint coefficient and intermediate
//! expression of this crate lives in this field.

use vstd::prelude::*;

verus! {

/// The field order, the Mersenne prime `2^31 - 1`.
pub const FIELD_MODULUS: u32 = 0x7FFF_FFFF;

/// An element of the prime field of order [`FIELD_MODULUS`].
///
/// The view of a field element is its integer residue in `[0, FIELD_MODULUS)`.
#[derive(Clone, Copy, Debug, PartialEq, Eq, Structural)]
pub struct FieldElement {
    value: u32,
}

impl View for FieldElement {
    type V = int;

    closed spec fn view(&self) -> int {
        self.value as int
    }
}

/// The field element with residue `value % FIELD_MODULUS`, at spec level.
pub closed spec fn residue_spec(value: u32) -> FieldElement {
    FieldElement { value: value % FIELD_MODULUS }
}

/// The residue of [`residue_spec`] is the reduced value.
pub proof fn lemma_residue_spec_value(value: u32)
    ensures
        residue_spec(value)@ == value as int % (FIELD_MODULUS as int),
{
}

/// Two field elements are equal exactly when their residues are: the residue
/// determines the element.
pub proof fn lemma_eq_by_residue(a: FieldElement, b: FieldElement)
    ensures
        a == b <==> a@ == b@,
{
}

impl FieldElement {
    #[verifier::type_invariant]
    spec fn type_inv(self) -> bool {
        self.value < FIELD_MODULUS
    }

    /// The additive identity.
    pub fn zero() -> (r: Self)
        ensures
            r@ == 0,
            r == residue_spec(0),
    {
        FieldElement { value: 0 }
    }

    /// The multiplicative identity.
    pub fn one() -> (r: Self)
        ensures
            r@ == 1,
            r == residue_spec(1),
    {
        FieldElement { value: 1 }
    }

    /// Embeds an arbitrary 32-bit integer by reducing it modulo the field order.
    pub fn new(value: u32) -> (r: Self)
        ensures
            r@ == value as int % FIELD_MODULUS as int,
            r == residue_spec(value),
    {
        FieldElement { value: value % FIELD_MODULUS }
    }

    /// Embeds a byte; bytes are below the field order, so no reduction happens.
    pub fn from_byte(value: u8) -> (r: Self)
        ensures
            r@ == value as int,
            r == residue_spec(value as u32),
    {
        FieldElement { value: value as u32 }
    }

    /// The canonical residue as an integer.
    pub fn residue(self) -> (r: u32)
        ensures
            r as int == self@,
            r < FIELD_MODULUS,
    {
        proof {
            use_type_invariant(self);
        }
        self.value
    }

    /// Whether this element is the field zero.
    pub fn is_zero(self) -> (r: bool)
        ensures
            r <==> self@ == 0,
    {
        self.value == 0
    }

    /// Field addition.
    pub fn add(self, other: Self) -> (r: Self)
        ensures
            r@ == (self@ + other@) % (FIELD_MODULUS as int),
    {
        proof {
            use_type_invariant(self);
            use_type_invariant(other);
        }
        let sum: u32 = self.value + other.value;
        FieldElement { value: sum % FIELD_MODULUS }
    }

    /// Field subtraction.
    pub fn sub(self, other: Self) -> (r: Self)
        ensures
            r@ == (self@ - other@) % (FIELD_MODULUS as int),
    {
        proof {
            use_type_invariant(self);
            use_type_invariant(other);
            assert((self@ + FIELD_MODULUS - other@) % (FIELD_MODULUS as int) == (self@ - other@)
                % (FIELD_MODULUS as int)) by {
                vstd::arithmetic::div_mod::lemma_mod_add_multiples_vanish(
                    self@ - other@,
                    FIELD_MODULUS as int,
                );
            }
        }
        let sum: u32 = self.value + (FIELD_MODULUS - other.value);
        FieldElement { value: sum % FIELD_MODULUS }
    }

    /// Field negation.
    pub fn neg(self) -> (r: Self)
        ensures
            r@ == (0 - self@) % (FIELD_MODULUS as int),
    {
        Self::zero().sub(self)
    }

    /// Field multiplication.
    pub fn mul(self, other: Self) -> (r: Self)
        ensures
            r@ == (self@ * other@) % (FIELD_MODULUS as int),
    {
        proof {
            use_type_invariant(self);
            use_type_invariant(other);
            assert(self.value as u64 * other.value as u64 <= 0x7FFF_FFFE * 0x7FFF_FFFE) by (nonlinear_arith)
                requires
                    self.value <= 0x7FFF_FFFE && other.value <= 0x7FFF_FFFE,
            ;
        }
        let wide: u64 = self.value as u64 * other.value as u64;
        let reduced: u64 = wide % (FIELD_MODULUS as u64);
        FieldElement { value: reduced as u32 }
    }
}

} // verus!
