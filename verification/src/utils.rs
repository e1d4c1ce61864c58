//! Ordering helpers for the trace-to-evaluation pipeline.
//!
//! A committed column is obtained from a trace-order column by two
//! reindexings: first the coset-order to circle-domain-order interleaving,
//! then a bit-reversal of the indices.

use vstd::arithmetic::power2::{lemma_pow2_adds, lemma_pow2_pos, lemma_pow2_unfold, pow2};
use vstd::prelude::*;

use crate::field::FieldElement;

verus! {

/// Allocates `num_cols` zeroed columns of `2^log_size` field cells each.
pub fn zeroed_columns(num_cols: usize, log_size: u32) -> (cols: Vec<Vec<FieldElement>>)
    requires
        log_size < 32,
    ensures
        cols@.len() == num_cols,
        forall|i: int| 0 <= i < num_cols ==> (#[trigger] cols@[i])@.len() == pow2(log_size as nat),
        forall|i: int, j: int|
            0 <= i < num_cols && 0 <= j < pow2(log_size as nat) ==> (#[trigger] cols@[i]@[j])@
                == 0,
{
    proof {
        vstd::bits::lemma_usize_pow2_no_overflow(log_size as nat);
        vstd::bits::lemma_usize_shl_is_mul(1usize, log_size as usize);
    }
    let n: usize = 1usize << (log_size as usize);
    let mut cols: Vec<Vec<FieldElement>> = Vec::new();
    while cols.len() < num_cols
        invariant
            n == pow2(log_size as nat),
            cols@.len() <= num_cols,
            forall|i: int| 0 <= i < cols@.len() ==> (#[trigger] cols@[i])@.len() == n,
            forall|i: int, j: int|
                0 <= i < cols@.len() && 0 <= j < n ==> (#[trigger] cols@[i]@[j])@ == 0,
        decreases num_cols - cols@.len(),
    {
        let mut column: Vec<FieldElement> = Vec::new();
        while column.len() < n
            invariant
                column@.len() <= n,
                forall|j: int| 0 <= j < column@.len() ==> (#[trigger] column@[j])@ == 0,
            decreases n - column@.len(),
        {
            column.push(FieldElement::zero());
        }
        cols.push(column);
    }
    cols
}

/// Index into the coset-order sequence that position `j` of the
/// circle-domain-order sequence draws from: even positions walk forward from
/// the start, odd positions walk backward from the end.
pub open spec fn circle_domain_source(n: int, j: int) -> int {
    if j % 2 == 0 {
        j / 2
    } else {
        n - 1 - (j - 1) / 2
    }
}

/// The index read when writing position `j` of a bit-reversed sequence over
/// `bits`-bit indices: the low bit of the source index becomes the top bit of
/// `j`, and so on down.
pub open spec fn bit_reverse_index(j: int, bits: nat) -> int
    decreases bits,
{
    if bits == 0 {
        0
    } else {
        (j % 2) * pow2((bits - 1) as nat) + bit_reverse_index(j / 2, (bits - 1) as nat)
    }
}

/// The bit-reversed index stays inside the `bits`-bit range.
pub proof fn lemma_bit_reverse_index_range(j: int, bits: nat)
    requires
        0 <= j < pow2(bits),
    ensures
        0 <= bit_reverse_index(j, bits) < pow2(bits),
    decreases bits,
{
    if bits == 0 {
    } else {
        let prev = (bits - 1) as nat;
        lemma_pow2_unfold(bits);
        lemma_pow2_pos(prev);
        lemma_bit_reverse_index_range(j / 2, prev);
        if j % 2 == 0 {
            assert((j % 2) * pow2(prev) == 0);
        } else {
            assert((j % 2) * pow2(prev) == pow2(prev));
        }
    }
}

/// Bit reversal is an involution: reversing twice gives the index back.
pub proof fn lemma_bit_reverse_involution(j: int, bits: nat)
    requires
        0 <= j < pow2(bits),
    ensures
        bit_reverse_index(bit_reverse_index(j, bits), bits) == j,
    decreases bits,
{
    if bits == 0 {
        assert(pow2(0) == 1) by {
            vstd::arithmetic::power2::lemma2_to64();
        }
    } else {
        let prev = (bits - 1) as nat;
        lemma_pow2_unfold(bits);
        lemma_pow2_pos(prev);
        let low = j % 2;
        let rest = j / 2;
        lemma_bit_reverse_index_range(rest, prev);
        let r_rest = bit_reverse_index(rest, prev);
        if low == 0 {
            assert(low * pow2(prev) == 0);
        } else {
            assert(low * pow2(prev) == pow2(prev));
        }
        assert(bit_reverse_index(j, bits) == r_rest + low * pow2(prev));
        // Peel the appended top bit back off the reversed index.
        lemma_bit_reverse_split(r_rest, low, prev);
        lemma_bit_reverse_involution(rest, prev);
        assert(bit_reverse_index(bit_reverse_index(j, bits), bits) == 2 * rest + low);
        assert(j == 2 * rest + low) by {
            vstd::arithmetic::div_mod::lemma_fundamental_div_mod(j, 2);
        }
    }
}

/// Reversing `x + b * pow2(bits)` over `bits + 1` bits equals the reversal of
/// `x` over `bits` bits, shifted up one, with `b` in the low position.
proof fn lemma_bit_reverse_split(x: int, b: int, bits: nat)
    requires
        0 <= x < pow2(bits),
        0 <= b < 2,
    ensures
        bit_reverse_index(x + b * pow2(bits), (bits + 1) as nat) == 2 * bit_reverse_index(x, bits)
            + b,
    decreases bits,
{
    let y = x + b * pow2(bits);
    lemma_pow2_pos(bits);
    if bits == 0 {
        assert(pow2(0) == 1) by {
            vstd::arithmetic::power2::lemma2_to64();
        }
        assert(y == x + b);
        assert(bit_reverse_index(y, 1) == (y % 2) * pow2(0) + bit_reverse_index(y / 2, 0));
    } else {
        let prev = (bits - 1) as nat;
        lemma_pow2_unfold(bits);
        lemma_pow2_pos(prev);
        // y % 2 == x % 2 and y / 2 == x / 2 + b * pow2(bits - 1)
        assert(y % 2 == x % 2 && y / 2 == x / 2 + b * pow2(prev)) by {
            assert(b * (2 * pow2(prev)) == (b * pow2(prev)) * 2) by (nonlinear_arith);
            vstd::arithmetic::div_mod::lemma_mod_multiples_vanish(b * pow2(prev), x, 2);
            vstd::arithmetic::div_mod::lemma_hoist_over_denominator(x, b * pow2(prev), 2);
        }
        lemma_bit_reverse_split(x / 2, b, prev);
        assert(bit_reverse_index(y, (bits + 1) as nat) == (y % 2) * pow2(bits)
            + bit_reverse_index(y / 2, bits));
        assert(bit_reverse_index(x, bits) == (x % 2) * pow2(prev) + bit_reverse_index(x / 2, prev));
        assert(2 * ((x % 2) * pow2(prev)) == (x % 2) * pow2(bits)) by (nonlinear_arith)
            requires
                pow2(bits) == 2 * pow2(prev),
        ;
    }
}

/// Computes the bit reversal of `j` over `bits` bits.
pub fn bit_reverse_exec(j: usize, bits: u32) -> (r: usize)
    requires
        bits < 32,
        j < pow2(bits as nat),
    ensures
        r == bit_reverse_index(j as int, bits as nat),
{
    proof {
        vstd::arithmetic::power2::lemma2_to64();
        vstd::bits::lemma_usize_pow2_no_overflow(bits as nat);
    }
    let mut r: usize = 0;
    let mut x: usize = j;
    let mut k: u32 = 0;
    while k < bits
        invariant
            k <= bits,
            bits < 32,
            j < pow2(bits as nat),
            x == j as int / pow2(k as nat) as int,
            r < pow2(k as nat),
            bit_reverse_index(j as int, bits as nat) == r * pow2((bits - k) as nat)
                + bit_reverse_index(x as int, (bits - k) as nat),
        decreases bits - k,
    {
        let ghost r0 = r as int;
        let ghost x0 = x as int;
        let ghost rem = (bits - k) as nat;
        proof {
            vstd::arithmetic::power2::lemma2_to64();
            lemma_pow2_unfold(rem);
            lemma_pow2_pos((rem - 1) as nat);
            lemma_pow2_unfold((k + 1) as nat);
            lemma_pow2_pos(k as nat);
            if (k as nat) < 31 {
                vstd::arithmetic::power2::lemma_pow2_strictly_increases(k as nat, 31);
            }
            assert(r0 * 2 + 1 < pow2(32));
        }
        r = r * 2 + x % 2;
        x = x / 2;
        k = k + 1;
        proof {
            // x now equals j shifted down one more position.
            assert(x0 / 2 == j as int / pow2(k as nat) as int) by {
                vstd::arithmetic::div_mod::lemma_div_denominator(
                    j as int,
                    pow2((k - 1) as nat) as int,
                    2,
                );
                lemma_pow2_adds((k - 1) as nat, 1);
            }
            // Unfold one step of the reversal of the remaining bits.
            assert(bit_reverse_index(x0, rem) == (x0 % 2) * pow2((rem - 1) as nat)
                + bit_reverse_index(x0 / 2, (rem - 1) as nat));
            assert(r0 * pow2(rem) + (x0 % 2) * pow2((rem - 1) as nat) == (r0 * 2 + x0 % 2) * pow2(
                (rem - 1) as nat,
            )) by (nonlinear_arith)
                requires
                    pow2(rem) == 2 * pow2((rem - 1) as nat),
            ;
        }
    }
    proof {
        vstd::arithmetic::power2::lemma2_to64();
        assert(bit_reverse_index(j as int, bits as nat) == r * pow2(0) + bit_reverse_index(
            x as int,
            0,
        ));
    }
    r
}

/// Reinterleaves a coset-order sequence into circle-domain order: position
/// `2k` takes element `k`, position `2k + 1` takes element `n - 1 - k`.
pub fn coset_order_to_circle_domain_order(values: &Vec<FieldElement>) -> (r: Vec<FieldElement>)
    requires
        values@.len() % 2 == 0,
    ensures
        r@.len() == values@.len(),
        forall|j: int|
            0 <= j < r@.len() ==> #[trigger] r@[j] == values@[circle_domain_source(
                values@.len() as int,
                j,
            )],
{
    let n: usize = values.len();
    let mut r: Vec<FieldElement> = Vec::new();
    let mut j: usize = 0;
    while j < n
        invariant
            n == values@.len(),
            n % 2 == 0,
            j <= n,
            r@.len() == j,
            forall|k: int|
                0 <= k < j ==> #[trigger] r@[k] == values@[circle_domain_source(n as int, k)],
        decreases n - j,
    {
        if j % 2 == 0 {
            r.push(values[j / 2]);
        } else {
            r.push(values[n - 1 - (j - 1) / 2]);
        }
        j += 1;
    }
    r
}

/// Permutes a sequence so that position `j` of the result holds the element
/// whose index is the bit reversal of `j`.
pub fn bit_reverse(values: &mut Vec<FieldElement>, log_size: u32)
    requires
        log_size < 32,
        old(values)@.len() == pow2(log_size as nat),
    ensures
        final(values)@.len() == old(values)@.len(),
        forall|j: int|
            0 <= j < final(values)@.len() ==> #[trigger] final(values)@[j] == old(
                values,
            )@[bit_reverse_index(j, log_size as nat)],
{
    proof {
        vstd::bits::lemma_usize_pow2_no_overflow(log_size as nat);
    }
    let n: usize = values.len();
    let mut out: Vec<FieldElement> = Vec::new();
    let mut j: usize = 0;
    while j < n
        invariant
            log_size < 32,
            values@.len() == pow2(log_size as nat),
            n == values@.len(),
            j <= n,
            out@.len() == j,
            forall|k: int|
                0 <= k < j ==> #[trigger] out@[k] == values@[bit_reverse_index(
                    k,
                    log_size as nat,
                )],
        decreases n - j,
    {
        proof {
            lemma_bit_reverse_index_range(j as int, log_size as nat);
        }
        let src: usize = bit_reverse_exec(j, log_size);
        out.push(values[src]);
        j += 1;
    }
    *values = out;
}

/// Index of the coset-order element that lands at position `j` of the
/// committed column: the circle-domain interleaving composed with the
/// bit reversal.
pub open spec fn commitment_order_source(log_size: nat, j: int) -> int {
    circle_domain_source(pow2(log_size) as int, bit_reverse_index(j, log_size))
}

/// The circle-domain source index stays inside the sequence.
pub proof fn lemma_circle_domain_source_range(n: int, j: int)
    requires
        n % 2 == 0,
        0 <= j < n,
    ensures
        0 <= circle_domain_source(n, j) < n,
{
}

/// Distinct circle-domain positions draw from distinct coset positions.
pub proof fn lemma_circle_domain_source_injective(n: int, j1: int, j2: int)
    requires
        n % 2 == 0,
        0 <= j1 < n,
        0 <= j2 < n,
        j1 != j2,
    ensures
        circle_domain_source(n, j1) != circle_domain_source(n, j2),
{
    vstd::arithmetic::div_mod::lemma_fundamental_div_mod(j1, 2);
    vstd::arithmetic::div_mod::lemma_fundamental_div_mod(j2, 2);
}

/// The commitment order is a permutation of the trace order: every committed
/// position draws from an in-range source, and no two positions draw from the
/// same source.
pub proof fn lemma_commitment_order_is_permutation(log_size: nat, j1: int, j2: int)
    requires
        log_size >= 1,
        0 <= j1 < pow2(log_size),
        0 <= j2 < pow2(log_size),
    ensures
        0 <= commitment_order_source(log_size, j1) < pow2(log_size),
        j1 != j2 ==> commitment_order_source(log_size, j1) != commitment_order_source(
            log_size,
            j2,
        ),
{
    let n = pow2(log_size) as int;
    lemma_pow2_unfold(log_size);
    lemma_pow2_pos((log_size - 1) as nat);
    lemma_bit_reverse_index_range(j1, log_size);
    lemma_bit_reverse_index_range(j2, log_size);
    lemma_circle_domain_source_range(n, bit_reverse_index(j1, log_size));
    if j1 != j2 {
        lemma_bit_reverse_involution(j1, log_size);
        lemma_bit_reverse_involution(j2, log_size);
        assert(bit_reverse_index(j1, log_size) != bit_reverse_index(j2, log_size));
        lemma_circle_domain_source_injective(
            n,
            bit_reverse_index(j1, log_size),
            bit_reverse_index(j2, log_size),
        );
    }
}

} // verus!
