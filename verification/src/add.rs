//! The ADD/ADDI chip: limb-wise addition with carry propagation.
//!
//! The chip fills `ValueA`, `ValueAEffective` and `CarryFlag` for rows whose
//! opcode it owns, and emits one constraint per limb binding those columns to
//! the limb-decomposed sum of `ValueB` and `ValueC`. The `IsAdd` selector and
//! the operand columns are written by the CPU chip.

use vstd::arithmetic::div_mod::{lemma_fundamental_div_mod, lemma_small_mod};
use vstd::prelude::*;

use crate::column::{Column, COLUMNS_NUM, WORD_SIZE};
use crate::eval::{eval_expr, main_mask_pair, Expr, MaskAssignment};
use crate::field::{residue_spec, FieldElement, FIELD_MODULUS};
use crate::program::{word_value, BuiltinOpcode, ProgramStep};
use crate::trace::Traces;

verus! {

/// The chip that supports the ADD and ADDI opcodes.
pub struct AddChip;

/// The limb-wise execution result recomputed from the operands.
struct ExecutionResult {
    carry_bits: [u32; WORD_SIZE],
    sum_bytes: [u32; WORD_SIZE],
    rd_is_x0: bool,
}

/// Whether a step belongs to the ADD chip.
pub open spec fn is_add_step(step: ProgramStep) -> bool {
    step.opcode == BuiltinOpcode::ADD || step.opcode == BuiltinOpcode::ADDI
}

/// The carry bit out of limb `i` of the limb-wise sum of `b` and `c`.
pub open spec fn carry_out(b: Seq<u8>, c: Seq<u8>, i: nat) -> int
    decreases i,
{
    let cin: int = if i == 0 {
        0
    } else {
        carry_out(b, c, (i - 1) as nat)
    };
    if b[i as int] + c[i as int] + cin >= 0x100 {
        1
    } else {
        0
    }
}

/// Limb `i` of the limb-wise sum of `b` and `c`.
pub open spec fn sum_limb(b: Seq<u8>, c: Seq<u8>, i: nat) -> int {
    let cin: int = if i == 0 {
        0
    } else {
        carry_out(b, c, (i - 1) as nat)
    };
    (b[i as int] + c[i as int] + cin) % 0x100
}

/// The step carries a result, and that result is limb for limb the sum of
/// its operands. An ADD step that violates this is upstream data corruption;
/// the chip refuses it.
pub open spec fn add_result_matches(step: ProgramStep) -> bool {
    &&& step.result matches Some(w) && forall|i: int|
        0 <= i < WORD_SIZE ==> w@[i] == sum_limb(step.value_b@, step.value_c.0@, i as nat)
}

/// Limb `i` of the sum, the carry out of it, and the carry into it satisfy
/// the defining identity `sum + 0x100 * carry_out = b + c + carry_in`.
pub proof fn lemma_limb_identity(b: Seq<u8>, c: Seq<u8>, i: nat)
    requires
        (i as int) < b.len(),
        (i as int) < c.len(),
    ensures
        0 <= sum_limb(b, c, i) < 0x100,
        carry_out(b, c, i) == 0 || carry_out(b, c, i) == 1,
        sum_limb(b, c, i) + 0x100 * carry_out(b, c, i) == b[i as int] + c[i as int] + (if i == 0 {
            0
        } else {
            carry_out(b, c, (i - 1) as nat)
        }),
{
    let cin: int = if i == 0 {
        0
    } else {
        carry_out(b, c, (i - 1) as nat)
    };
    if i > 0 {
        // A carry into a limb is a bit.
        assert(carry_out(b, c, (i - 1) as nat) == 0 || carry_out(b, c, (i - 1) as nat) == 1)
            by {
            lemma_carry_is_bit(b, c, (i - 1) as nat);
        }
    }
    let t = b[i as int] + c[i as int] + cin;
    lemma_fundamental_div_mod(t, 0x100);
    assert(sum_limb(b, c, i) == t % 0x100);
}

/// Every carry bit is 0 or 1.
pub proof fn lemma_carry_is_bit(b: Seq<u8>, c: Seq<u8>, i: nat)
    ensures
        carry_out(b, c, i) == 0 || carry_out(b, c, i) == 1,
{
}

/// The limb-decomposed sum is the word sum modulo `2^32`, and the carry out
/// of the top limb is the overflow bit: it is 1 exactly when
/// `B + C >= 2^32`.
pub proof fn lemma_add_word_overflow(b: Seq<u8>, c: Seq<u8>)
    requires
        b.len() == WORD_SIZE,
        c.len() == WORD_SIZE,
    ensures
        sum_limb(b, c, 0) + 0x100 * sum_limb(b, c, 1) + 0x1_0000 * sum_limb(b, c, 2) + 0x100_0000
            * sum_limb(b, c, 3) + 0x1_0000_0000 * carry_out(b, c, 3) == word_value(b)
            + word_value(c),
        carry_out(b, c, 3) == 1 <==> word_value(b) + word_value(c) >= 0x1_0000_0000,
        sum_limb(b, c, 0) + 0x100 * sum_limb(b, c, 1) + 0x1_0000 * sum_limb(b, c, 2) + 0x100_0000
            * sum_limb(b, c, 3) == (word_value(b) + word_value(c)) % 0x1_0000_0000,
{
    lemma_limb_identity(b, c, 0);
    lemma_limb_identity(b, c, 1);
    lemma_limb_identity(b, c, 2);
    lemma_limb_identity(b, c, 3);
    let s = sum_limb(b, c, 0) + 0x100 * sum_limb(b, c, 1) + 0x1_0000 * sum_limb(b, c, 2)
        + 0x100_0000 * sum_limb(b, c, 3);
    let k = carry_out(b, c, 3);
    assert(0 <= s < 0x1_0000_0000);
    assert(s + 0x1_0000_0000 * k == word_value(b) + word_value(c));
    vstd::arithmetic::div_mod::lemma_fundamental_div_mod_converse(
        word_value(b) + word_value(c),
        0x1_0000_0000,
        k,
        s,
    );
}

impl AddChip {
    /// Recomputes the 32-bit result of the step limb by limb, with carry
    /// propagation, and checks it against the result the step carries.
    fn execute(program_step: &ProgramStep) -> (r: ExecutionResult)
        requires
            add_result_matches(*program_step),
        ensures
            r.rd_is_x0 == program_step.rd_is_x0,
            forall|i: int|
                0 <= i < WORD_SIZE ==> r.sum_bytes@[i] == sum_limb(
                    program_step.value_b@,
                    program_step.value_c.0@,
                    i as nat,
                ),
            forall|i: int|
                0 <= i < WORD_SIZE ==> r.carry_bits@[i] == carry_out(
                    program_step.value_b@,
                    program_step.value_c.0@,
                    i as nat,
                ),
    {
        let result = program_step.get_result().unwrap();
        let rd_is_x0 = program_step.is_value_a_x0();

        let value_b = program_step.get_value_b();
        let (value_c, _) = program_step.get_value_c();
        let ghost bs = program_step.value_b@;
        let ghost cs = program_step.value_c.0@;

        // One straight-line step per limb: sum and carry out of each.
        let t0: u32 = value_b[0] as u32 + value_c[0] as u32;
        let s0: u32 = t0 % 0x100;
        let k0: u32 = if t0 >= 0x100 {
            1
        } else {
            0
        };
        let t1: u32 = value_b[1] as u32 + value_c[1] as u32 + k0;
        let s1: u32 = t1 % 0x100;
        let k1: u32 = if t1 >= 0x100 {
            1
        } else {
            0
        };
        let t2: u32 = value_b[2] as u32 + value_c[2] as u32 + k1;
        let s2: u32 = t2 % 0x100;
        let k2: u32 = if t2 >= 0x100 {
            1
        } else {
            0
        };
        let t3: u32 = value_b[3] as u32 + value_c[3] as u32 + k2;
        let s3: u32 = t3 % 0x100;
        let k3: u32 = if t3 >= 0x100 {
            1
        } else {
            0
        };
        proof {
            assert(k0 == carry_out(bs, cs, 0) && s0 == sum_limb(bs, cs, 0));
            assert(k1 == carry_out(bs, cs, 1) && s1 == sum_limb(bs, cs, 1));
            assert(k2 == carry_out(bs, cs, 2) && s2 == sum_limb(bs, cs, 2));
            assert(k3 == carry_out(bs, cs, 3) && s3 == sum_limb(bs, cs, 3));
        }
        // The recomputed sum must match the result the step carries; the
        // precondition rules a mismatch out, so the check is static.
        assert(s0 == result@[0] && s1 == result@[1] && s2 == result@[2] && s3 == result@[3]);

        let sum_bytes: [u32; WORD_SIZE] = [s0, s1, s2, s3];
        let carry_bits: [u32; WORD_SIZE] = [k0, k1, k2, k3];
        ExecutionResult { carry_bits, sum_bytes, rd_is_x0 }
    }
}

/// The flat main columns the ADD chip writes when it owns a row.
pub open spec fn add_owned_column(c: int) -> bool {
    ||| Column::ValueA.offset() <= c < Column::ValueA.offset() + WORD_SIZE
    ||| Column::ValueAEffective.offset() <= c < Column::ValueAEffective.offset() + WORD_SIZE
    ||| Column::CarryFlag.offset() <= c < Column::CarryFlag.offset() + WORD_SIZE
}

impl AddChip {
    /// Fills the chip's columns for `row_idx` from `vm_step`. A step whose
    /// opcode the chip does not own leaves the trace untouched. For an owned
    /// step, `ValueA` receives the limb-wise sum, `ValueAEffective` the same
    /// sum or zeros when the destination is the zero register, and
    /// `CarryFlag` the carry bits; every other cell keeps its value.
    pub fn fill_main_trace(traces: &mut Traces, row_idx: usize, vm_step: &ProgramStep)
        requires
            old(traces).wf(),
            row_idx < old(traces).num_rows_spec(),
            is_add_step(*vm_step) ==> add_result_matches(*vm_step),
        ensures
            final(traces).wf(),
            final(traces).log_size_spec() == old(traces).log_size_spec(),
            !is_add_step(*vm_step) ==> *final(traces) == *old(traces),
            is_add_step(*vm_step) ==> {
                &&& forall|i: int|
                    0 <= i < WORD_SIZE ==> (#[trigger] final(traces).cell(
                        Column::ValueA.offset() + i,
                        row_idx as int,
                    ))@ == sum_limb(vm_step.value_b@, vm_step.value_c.0@, i as nat)
                &&& forall|i: int|
                    0 <= i < WORD_SIZE ==> (#[trigger] final(traces).cell(
                        Column::ValueAEffective.offset() + i,
                        row_idx as int,
                    ))@ == if vm_step.rd_is_x0 {
                        0
                    } else {
                        sum_limb(vm_step.value_b@, vm_step.value_c.0@, i as nat)
                    }
                &&& forall|i: int|
                    0 <= i < WORD_SIZE ==> (#[trigger] final(traces).cell(
                        Column::CarryFlag.offset() + i,
                        row_idx as int,
                    ))@ == carry_out(vm_step.value_b@, vm_step.value_c.0@, i as nat)
                &&& forall|c: int, r: int|
                    0 <= c < COLUMNS_NUM && 0 <= r < old(traces).num_rows_spec() && !(r
                        == row_idx && add_owned_column(c)) ==> #[trigger] final(traces).cell(c, r)
                        == old(traces).cell(c, r)
            },
    {
        match vm_step.opcode {
            BuiltinOpcode::ADD => {},
            BuiltinOpcode::ADDI => {},
            _ => { return ; },
        }
        let er = Self::execute(vm_step);
        let ghost bs = vm_step.value_b@;
        let ghost cs = vm_step.value_c.0@;
        let ghost t0 = *traces;

        let mut value_a: Vec<FieldElement> = Vec::new();
        let mut value_a_effective: Vec<FieldElement> = Vec::new();
        let mut carry_col: Vec<FieldElement> = Vec::new();
        let mut i: usize = 0;
        while i < WORD_SIZE
            invariant
                i <= WORD_SIZE,
                value_a@.len() == i,
                value_a_effective@.len() == i,
                carry_col@.len() == i,
                bs.len() == WORD_SIZE,
                cs.len() == WORD_SIZE,
                forall|k: int|
                    0 <= k < WORD_SIZE ==> er.sum_bytes@[k] == sum_limb(bs, cs, k as nat),
                forall|k: int|
                    0 <= k < WORD_SIZE ==> er.carry_bits@[k] == carry_out(bs, cs, k as nat),
                er.rd_is_x0 == vm_step.rd_is_x0,
                forall|k: int| 0 <= k < i ==> (#[trigger] value_a@[k])@ == sum_limb(bs, cs, k as nat),
                forall|k: int|
                    0 <= k < i ==> (#[trigger] value_a_effective@[k])@ == if vm_step.rd_is_x0 {
                        0
                    } else {
                        sum_limb(bs, cs, k as nat)
                    },
                forall|k: int|
                    0 <= k < i ==> (#[trigger] carry_col@[k])@ == carry_out(bs, cs, k as nat),
            decreases WORD_SIZE - i,
        {
            proof {
                lemma_limb_identity(bs, cs, i as nat);
                lemma_small_mod(sum_limb(bs, cs, i as nat) as nat, FIELD_MODULUS as nat);
                lemma_small_mod(carry_out(bs, cs, i as nat) as nat, FIELD_MODULUS as nat);
            }
            value_a.push(FieldElement::new(er.sum_bytes[i]));
            if er.rd_is_x0 {
                value_a_effective.push(FieldElement::zero());
            } else {
                value_a_effective.push(FieldElement::new(er.sum_bytes[i]));
            }
            carry_col.push(FieldElement::new(er.carry_bits[i]));
            i += 1;
        }
        traces.fill_columns_basefield(row_idx, value_a.as_slice(), Column::ValueA);
        let ghost t1 = *traces;
        traces.fill_columns_basefield(row_idx, value_a_effective.as_slice(), Column::ValueAEffective);
        let ghost t2 = *traces;
        traces.fill_columns_basefield(row_idx, carry_col.as_slice(), Column::CarryFlag);
        proof {
            crate::column::lemma_schema_consistency();
            assert forall|c: int, r: int|
                0 <= c < COLUMNS_NUM && 0 <= r < t0.num_rows_spec() && !(r == row_idx
                    && add_owned_column(c)) implies #[trigger] final(traces).cell(c, r) == t0.cell(
                c,
                r,
            ) by {
                assert(t1.cell(c, r) == t0.cell(c, r));
                assert(t2.cell(c, r) == t1.cell(c, r));
                assert(final(traces).cell(c, r) == t2.cell(c, r));
            }
            assert forall|i2: int| 0 <= i2 < WORD_SIZE implies (#[trigger] final(traces).cell(
                Column::ValueA.offset() + i2,
                row_idx as int,
            ))@ == sum_limb(bs, cs, i2 as nat) by {
                assert(t2.cell(Column::ValueA.offset() + i2, row_idx as int) == t1.cell(
                    Column::ValueA.offset() + i2,
                    row_idx as int,
                ));
                assert(final(traces).cell(Column::ValueA.offset() + i2, row_idx as int) == t2.cell(
                    Column::ValueA.offset() + i2,
                    row_idx as int,
                ));
            }
            assert forall|i2: int| 0 <= i2 < WORD_SIZE implies (#[trigger] final(traces).cell(
                Column::ValueAEffective.offset() + i2,
                row_idx as int,
            ))@ == (if vm_step.rd_is_x0 {
                0
            } else {
                sum_limb(bs, cs, i2 as nat)
            }) by {
                assert(final(traces).cell(Column::ValueAEffective.offset() + i2, row_idx as int)
                    == t2.cell(Column::ValueAEffective.offset() + i2, row_idx as int));
            }
        }
    }
}

/// The constraint the ADD chip emits for limb `i`: the selector times the
/// difference between the limb of `ValueA` plus the shifted carry bit and
/// the sum of the operand limbs with the carry into the limb.
pub open spec fn add_constraint_expr(i: int) -> Expr {
    let is_add = main_mask_pair(Column::IsAdd.offset() as int).0;
    let a = main_mask_pair(Column::ValueA.offset() + i).0;
    let b = main_mask_pair(Column::ValueB.offset() + i).0;
    let c = main_mask_pair(Column::ValueC.offset() + i).0;
    let carry = main_mask_pair(Column::CarryFlag.offset() + i).0;
    let prev = if i == 0 {
        Expr::Const(residue_spec(0))
    } else {
        main_mask_pair(Column::CarryFlag.offset() + i - 1).0
    };
    let modulus = Expr::Const(residue_spec(0x100));
    Expr::Mul(
        Box::new(is_add),
        Box::new(
            Expr::Sub(
                Box::new(
                    Expr::Add(Box::new(a), Box::new(Expr::Mul(Box::new(carry), Box::new(modulus)))),
                ),
                Box::new(Expr::Add(Box::new(Expr::Add(Box::new(b), Box::new(c))), Box::new(prev))),
            ),
        ),
    )
}

/// The full constraint stream the ADD chip emits, in emission order.
pub open spec fn add_constraint_exprs() -> Seq<Expr> {
    Seq::new(WORD_SIZE as nat, |i: int| add_constraint_expr(i))
}

impl AddChip {
    /// Emits the chip's constraints against the row view: for every limb,
    /// `IsAdd * (ValueA[i] + CarryFlag[i]*256 - (ValueB[i] + ValueC[i] +
    /// CarryFlag[i-1])) = 0`, with carry 0 into the lowest limb. The emitted
    /// stream is exactly [`add_constraint_exprs`], appended to whatever the
    /// evaluator already holds.
    pub fn add_constraints(
        eval: &mut crate::eval::ConstraintEvaluator,
        trace_eval: &crate::eval::TraceEval,
    )
        requires
            trace_eval.is_canonical(),
        ensures
            final(eval).constraints_spec() == old(eval).constraints_spec()
                + add_constraint_exprs(),
            final(eval).preprocessed_masks_taken() == old(eval).preprocessed_masks_taken(),
            final(eval).main_masks_taken() == old(eval).main_masks_taken(),
            final(eval).program_masks_taken() == old(eval).program_masks_taken(),
    {
        let is_add_vec = trace_eval.column_eval(Column::IsAdd);
        let is_add = is_add_vec[0].clone();
        proof {
            assert(is_add_vec@[0] == main_mask_pair(Column::IsAdd.offset() + 0).0);
        }
        // modulus for 8-bit limbs
        let modulus = FieldElement::new(0x100);

        let carry_flag = trace_eval.column_eval(Column::CarryFlag);
        let rs1_val = trace_eval.column_eval(Column::ValueB);
        let rs2_val = trace_eval.column_eval(Column::ValueC);
        let rd_val = trace_eval.column_eval(Column::ValueA);

        let mut i: usize = 0;
        while i < WORD_SIZE
            invariant
                i <= WORD_SIZE,
                is_add == main_mask_pair(Column::IsAdd.offset() as int).0,
                modulus == residue_spec(0x100),
                carry_flag@.len() == WORD_SIZE,
                rs1_val@.len() == WORD_SIZE,
                rs2_val@.len() == WORD_SIZE,
                rd_val@.len() == WORD_SIZE,
                forall|k: int|
                    0 <= k < WORD_SIZE ==> carry_flag@[k] == (#[trigger] main_mask_pair(
                        Column::CarryFlag.offset() + k,
                    )).0,
                forall|k: int|
                    0 <= k < WORD_SIZE ==> rs1_val@[k] == (#[trigger] main_mask_pair(
                        Column::ValueB.offset() + k,
                    )).0,
                forall|k: int|
                    0 <= k < WORD_SIZE ==> rs2_val@[k] == (#[trigger] main_mask_pair(
                        Column::ValueC.offset() + k,
                    )).0,
                forall|k: int|
                    0 <= k < WORD_SIZE ==> rd_val@[k] == (#[trigger] main_mask_pair(
                        Column::ValueA.offset() + k,
                    )).0,
                eval.constraints_spec() == old(eval).constraints_spec() + Seq::new(
                    i as nat,
                    |k: int| add_constraint_expr(k),
                ),
                eval.preprocessed_masks_taken() == old(eval).preprocessed_masks_taken(),
                eval.main_masks_taken() == old(eval).main_masks_taken(),
                eval.program_masks_taken() == old(eval).program_masks_taken(),
            decreases WORD_SIZE - i,
        {
            let carry: Expr = if i == 0 {
                Expr::Const(FieldElement::zero())
            } else {
                carry_flag[i - 1].clone()
            };

            // rdval[i] + carry[i] * 2^8 = rs1val[i] + rs2val[i] + carry[i-1]
            let e = Expr::Mul(
                Box::new(is_add.clone()),
                Box::new(
                    Expr::Sub(
                        Box::new(
                            Expr::Add(
                                Box::new(rd_val[i].clone()),
                                Box::new(
                                    Expr::Mul(
                                        Box::new(carry_flag[i].clone()),
                                        Box::new(Expr::Const(modulus)),
                                    ),
                                ),
                            ),
                        ),
                        Box::new(
                            Expr::Add(
                                Box::new(
                                    Expr::Add(
                                        Box::new(rs1_val[i].clone()),
                                        Box::new(rs2_val[i].clone()),
                                    ),
                                ),
                                Box::new(carry),
                            ),
                        ),
                    ),
                ),
            );
            proof {
                if i > 0 {
                    let j = (i - 1) as int;
                    assert(carry == main_mask_pair(Column::CarryFlag.offset() + j).0);
                }
                assert(e == add_constraint_expr(i as int));
            }
            eval.add_constraint(e);
            proof {
                assert(eval.constraints_spec() =~= old(eval).constraints_spec() + Seq::new(
                    (i + 1) as nat,
                    |k: int| add_constraint_expr(k),
                ));
            }
            i += 1;
        }
        proof {
            assert(eval.constraints_spec() =~= old(eval).constraints_spec()
                + add_constraint_exprs());
        }
    }
}

/// On a row whose `IsAdd` selector is zero, every ADD constraint evaluates
/// to the field zero whatever the other columns hold.
pub proof fn lemma_add_constraints_vanish_without_selector(env: MaskAssignment, i: int)
    requires
        env.wf(),
        0 <= i < WORD_SIZE,
        env.main_cur[Column::IsAdd.offset() as int] == 0,
    ensures
        eval_expr(add_constraint_expr(i), env) == 0,
{
    let e = add_constraint_expr(i);
    let inner = eval_expr(
        Expr::Sub(
            Box::new(
                Expr::Add(
                    Box::new(main_mask_pair(Column::ValueA.offset() + i).0),
                    Box::new(
                        Expr::Mul(
                            Box::new(main_mask_pair(Column::CarryFlag.offset() + i).0),
                            Box::new(Expr::Const(residue_spec(0x100))),
                        ),
                    ),
                ),
            ),
            Box::new(
                Expr::Add(
                    Box::new(
                        Expr::Add(
                            Box::new(main_mask_pair(Column::ValueB.offset() + i).0),
                            Box::new(main_mask_pair(Column::ValueC.offset() + i).0),
                        ),
                    ),
                    Box::new(
                        if i == 0 {
                            Expr::Const(residue_spec(0))
                        } else {
                            main_mask_pair(Column::CarryFlag.offset() + i - 1).0
                        },
                    ),
                ),
            ),
        ),
        env,
    );
    assert(eval_expr(main_mask_pair(Column::IsAdd.offset() as int).0, env) == 0);
    assert(eval_expr(e, env) == (0 * inner) % (FIELD_MODULUS as int));
    assert(0 * inner == 0) by (nonlinear_arith);
    lemma_small_mod(0, FIELD_MODULUS as nat);
}

/// On a row filled by the ADD chip — selector one, operands in the operand
/// columns, limb sums in `ValueA`, carries in `CarryFlag` — every ADD
/// constraint evaluates to the field zero.
pub proof fn lemma_add_constraints_hold(env: MaskAssignment, b: Seq<u8>, c: Seq<u8>, i: int)
    requires
        env.wf(),
        b.len() == WORD_SIZE,
        c.len() == WORD_SIZE,
        0 <= i < WORD_SIZE,
        env.main_cur[Column::IsAdd.offset() as int] == 1,
        forall|k: int|
            0 <= k < WORD_SIZE ==> env.main_cur[Column::ValueA.offset() + k] == #[trigger] sum_limb(
                b,
                c,
                k as nat,
            ),
        forall|k: int| 0 <= k < WORD_SIZE ==> env.main_cur[Column::ValueB.offset() + k] == #[trigger] b[k],
        forall|k: int| 0 <= k < WORD_SIZE ==> env.main_cur[Column::ValueC.offset() + k] == #[trigger] c[k],
        forall|k: int|
            0 <= k < WORD_SIZE ==> env.main_cur[Column::CarryFlag.offset() + k]
                == #[trigger] carry_out(b, c, k as nat),
    ensures
        eval_expr(add_constraint_expr(i), env) == 0,
{
    let p = FIELD_MODULUS as int;
    reveal_with_fuel(eval_expr, 8);
    lemma_limb_identity(b, c, i as nat);
    crate::field::lemma_residue_spec_value(0x100);
    crate::field::lemma_residue_spec_value(0);
    let a_v = sum_limb(b, c, i as nat);
    let carry_v = carry_out(b, c, i as nat);
    let prev_v: int = if i == 0 {
        0
    } else {
        carry_out(b, c, (i - 1) as nat)
    };
    if i > 0 {
        lemma_carry_is_bit(b, c, (i - 1) as nat);
    }
    // Evaluate each node; every intermediate stays below the field order.
    assert(eval_expr(main_mask_pair(Column::ValueA.offset() + i).0, env) == a_v);
    assert(eval_expr(main_mask_pair(Column::CarryFlag.offset() + i).0, env) == carry_v);
    let carry_term = (carry_v * 0x100) % p;
    assert(carry_v * 0x100 == if carry_v == 1 {
        0x100int
    } else {
        0int
    }) by (nonlinear_arith)
        requires
            carry_v == 0 || carry_v == 1,
    ;
    lemma_small_mod((carry_v * 0x100) as nat, FIELD_MODULUS as nat);
    let left = (a_v + carry_term) % p;
    lemma_small_mod((a_v + carry_term) as nat, FIELD_MODULUS as nat);
    let bc = (b[i] + c[i]) % p;
    lemma_small_mod((b[i] + c[i]) as nat, FIELD_MODULUS as nat);
    let right = (bc + prev_v) % p;
    lemma_small_mod((bc + prev_v) as nat, FIELD_MODULUS as nat);
    assert(left == right);
    assert(eval_expr(add_constraint_expr(i), env) == (1 * ((left - right) % p)) % p);
    lemma_small_mod(0, FIELD_MODULUS as nat);
}

/// After the chip fills a row, the word standing in `ValueA` is
/// `B + C` modulo `2^32`, and the carry cell of the top limb is 1 exactly
/// when the word sum overflowed.
pub proof fn lemma_filled_row_word_overflow(t: Traces, b: Seq<u8>, c: Seq<u8>, row: int)
    requires
        b.len() == WORD_SIZE,
        c.len() == WORD_SIZE,
        forall|i: int|
            0 <= i < WORD_SIZE ==> (#[trigger] t.cell(Column::ValueA.offset() + i, row))@
                == sum_limb(b, c, i as nat),
        forall|i: int|
            0 <= i < WORD_SIZE ==> (#[trigger] t.cell(Column::CarryFlag.offset() + i, row))@
                == carry_out(b, c, i as nat),
    ensures
        t.cell(Column::ValueA.offset() + 0, row)@ + 0x100 * t.cell(
            Column::ValueA.offset() + 1,
            row,
        )@ + 0x1_0000 * t.cell(Column::ValueA.offset() + 2, row)@ + 0x100_0000 * t.cell(
            Column::ValueA.offset() + 3,
            row,
        )@ == (word_value(b) + word_value(c)) % 0x1_0000_0000,
        t.cell(Column::CarryFlag.offset() + 3, row)@ == 1 <==> word_value(b) + word_value(c)
            >= 0x1_0000_0000,
{
    lemma_add_word_overflow(b, c);
}

} // verus!
