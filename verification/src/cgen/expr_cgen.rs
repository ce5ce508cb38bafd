use vstd::prelude::*;

use crate::expr::{NumLiteral, byte_of};
use crate::types::{ValueType, literal_type, lemma_primitive_size, prim_size, has_size, type_size, CustomV};
use crate::typed_ast::{
    TypedExpr, TypedPrimaryExpr, TExprV, TPrimaryV, texpr_type, unfold_texpr_view, unfold_tprimary_view,
    unfold_tbinary_view,
};
use crate::cgen::{CodeGenerator, GenV, instrs, inc_sp_code, lo, hi};
use crate::cgen::instruction::{Instruction, InstrV, R0, R1, SPL, SPH};
use crate::cgen::known_at_compile::known;
use crate::cgen::value::{texpr_byte, create_two_values, clean_after_two_values, ValueLocation, load_code, stack_bytes};

verus! {

/// The instructions that push one byte `b` onto the stack.
pub open spec fn push_byte_code(b: u8) -> Seq<InstrV> {
    seq![InstrV::Imr(R0, b), InstrV::Push(R0)] + inc_sp_code(1)
}

/// The instructions that push the first `k` bytes of `v`, lowest first.
pub open spec fn push_bytes_code(v: int, k: nat) -> Seq<InstrV>
    decreases k,
{
    if k == 0 {
        Seq::<InstrV>::empty()
    } else {
        push_bytes_code(v, (k - 1) as nat) + push_byte_code(byte_of(v, (k - 1) as nat))
    }
}

/// Byte `nth` of an operand whose value is known when compiling.
pub open spec fn operand_byte(e: TExprV, nth: nat, defs: Seq<CustomV>) -> u8 {
    texpr_byte(e, nth as u16, defs)->Some_0
}

/// The instructions that subtract `n` from the stack pointer.
pub open spec fn dec_sp_code(n: u16) -> Seq<InstrV> {
    seq![
        InstrV::Imr(R0, lo(n)),
        InstrV::Rmov(SPL),
        InstrV::Sub(R0),
        InstrV::Amov(SPL),
        InstrV::Imr(R0, hi(n)),
        InstrV::Rmov(SPH),
        InstrV::Sbc(R0),
        InstrV::Amov(SPH),
    ]
}

/// How far an operand of a sum raises the stack before the addition: not
/// at all where its value is known when compiling, else by its size, as it
/// is computed onto the stack.
pub open spec fn stacked_size(e: TExprV, defs: Seq<CustomV>) -> u16 {
    if known(e) {
        0
    } else {
        type_size(texpr_type(e), defs)
    }
}

/// Where the left operand `x` of a sum with right operand `y` is read
/// from: as an immediate, or below both operands on the stack.
pub open spec fn left_loc(x: TExprV, y: TExprV, defs: Seq<CustomV>) -> ValueLocation {
    if known(x) {
        ValueLocation::Immediate
    } else {
        ValueLocation::SpMinus((stacked_size(x, defs) + stacked_size(y, defs)) as u16)
    }
}

/// Where the right operand `y` of a sum is read from: as an immediate, or
/// from the top of the stack.
pub open spec fn right_loc(y: TExprV, defs: Seq<CustomV>) -> ValueLocation {
    if known(y) {
        ValueLocation::Immediate
    } else {
        ValueLocation::SpMinus(stacked_size(y, defs))
    }
}

/// The instructions that place an operand before the addition: none for an
/// immediate, else the code `c` that computes it onto the stack.
pub open spec fn place_code(e: TExprV, c: Option<Seq<InstrV>>) -> Seq<InstrV> {
    if known(e) {
        Seq::<InstrV>::empty()
    } else {
        c->Some_0
    }
}

/// The instructions that load byte `nth` of operand `e`, read from `l`,
/// into `reg`.
pub open spec fn operand_load(e: TExprV, l: ValueLocation, reg: u8, nth: nat, defs: Seq<CustomV>) -> Seq<InstrV> {
    load_code(
        l,
        reg,
        nth as u16,
        if l is Immediate {
            operand_byte(e, nth, defs)
        } else {
            0u8
        },
    )
}

/// Whether each byte that a sum of `size` bytes reads of operand `e` at `l`
/// can be loaded: an immediate's bytes are defined, and an offset from the
/// stack pointer stays within 16 bits.
pub open spec fn operand_ready(e: TExprV, l: ValueLocation, size: u16, defs: Seq<CustomV>) -> bool {
    match l {
        ValueLocation::Immediate => forall|k: u16| (k < size || k == 0) ==> #[trigger] texpr_byte(e, k, defs) is Some,
        ValueLocation::SpMinus(o) => o + (if size == 0 {
            1
        } else {
            size
        }) <= u16::MAX + 1,
        _ => false,
    }
}

/// Adds the lowest bytes, loaded by `lx` and `ly`, and pushes the sum.
pub open spec fn sum_first_code(lx: Seq<InstrV>, ly: Seq<InstrV>) -> Seq<InstrV> {
    lx + ly + seq![InstrV::Rmov(R0), InstrV::Add(R1), InstrV::Amov(R0), InstrV::Push(R0)]
}

/// Takes the carry of the lowest bytes into R0, raises the stack pointer by
/// the byte pushed and pushes the carry.
pub open spec fn carry_code() -> Seq<InstrV> {
    seq![InstrV::Zac, InstrV::Amov(R0), InstrV::Adc(R0), InstrV::Amov(R0)] + inc_sp_code(1) + seq![InstrV::Push(R0)]
}

/// Adds the next bytes, loaded by `lx` and `ly`, and the carry left on the
/// stack, pushes that byte of the sum, then the new carry.
pub open spec fn sum_byte_code(lx: Seq<InstrV>, ly: Seq<InstrV>) -> Seq<InstrV> {
    lx + ly + seq![
        InstrV::Rmov(R0),
        InstrV::Add(R1),
        InstrV::Amov(R1),
        InstrV::Zac,
        InstrV::Amov(R0),
        InstrV::Adc(R0),
        InstrV::Amov(R0),
        InstrV::Rmov(R1),
        InstrV::Pop(R1),
        InstrV::Add(R1),
        InstrV::Amov(R1),
        InstrV::Push(R1),
        InstrV::Zac,
        InstrV::Adc(R0),
        InstrV::Amov(R0),
    ] + inc_sp_code(1) + seq![InstrV::Push(R0)]
}

/// The byte additions for bytes 1 up to `k - 1` of operands `x` at `xl`
/// and `y` at `yl`.
pub open spec fn sum_bytes_code(
    x: TExprV,
    y: TExprV,
    xl: ValueLocation,
    yl: ValueLocation,
    defs: Seq<CustomV>,
    k: nat,
) -> Seq<InstrV>
    decreases k,
{
    if k <= 1 {
        Seq::<InstrV>::empty()
    } else {
        sum_bytes_code(x, y, xl, yl, defs, (k - 1) as nat) + sum_byte_code(
            operand_load(x, xl, R0, (k - 1) as nat, defs),
            operand_load(y, yl, R1, (k - 1) as nat, defs),
        )
    }
}

/// The instructions that add operands `x` at `xl` and `y` at `yl` of
/// `size` bytes, lowest byte first with carry, and leave the sum on the
/// stack.
pub open spec fn sum_code(
    x: TExprV,
    y: TExprV,
    xl: ValueLocation,
    yl: ValueLocation,
    size: u16,
    defs: Seq<CustomV>,
) -> Seq<InstrV> {
    sum_first_code(operand_load(x, xl, R0, 0, defs), operand_load(y, yl, R1, 0, defs)) + if size > 1 {
        carry_code() + sum_bytes_code(x, y, xl, yl, defs, size as nat)
    } else {
        inc_sp_code(1)
    }
}

/// The instructions that give back the stack space the operands held.
pub open spec fn release_code(xl: ValueLocation, yl: ValueLocation) -> Seq<InstrV> {
    let n = stack_bytes(xl) + stack_bytes(yl);
    if n == 0 {
        Seq::<InstrV>::empty()
    } else {
        dec_sp_code(n as u16)
    }
}

/// Whether `x + y` with a result of `size` bytes can be generated, where
/// `cx` and `cy` are the code that computes each operand onto the stack:
/// each operand's type has a size, each is known when compiling or has such
/// code, and every offset stays within 16 bits.
pub open spec fn sum_ready(
    x: TExprV,
    y: TExprV,
    cx: Option<Seq<InstrV>>,
    cy: Option<Seq<InstrV>>,
    size: u16,
    defs: Seq<CustomV>,
) -> bool {
    &&& has_size(texpr_type(x), defs)
    &&& has_size(texpr_type(y), defs)
    &&& known(x) || cx is Some
    &&& known(y) || cy is Some
    &&& stacked_size(x, defs) + stacked_size(y, defs) <= u16::MAX
    &&& stack_bytes(left_loc(x, y, defs)) + stack_bytes(right_loc(y, defs)) <= u16::MAX
    &&& operand_ready(x, left_loc(x, y, defs), size, defs)
    &&& operand_ready(y, right_loc(y, defs), size, defs)
}

/// The instructions for `x + y` with a result of `size` bytes: place each
/// operand, add, and give back the operands' stack space.
pub open spec fn full_sum_code(
    x: TExprV,
    y: TExprV,
    cx: Option<Seq<InstrV>>,
    cy: Option<Seq<InstrV>>,
    size: u16,
    defs: Seq<CustomV>,
) -> Seq<InstrV> {
    place_code(x, cx) + place_code(y, cy) + sum_code(x, y, left_loc(x, y, defs), right_loc(y, defs), size, defs)
        + release_code(left_loc(x, y, defs), right_loc(y, defs))
}

/// The stack space given back after a sum is the space its operands took
/// when they were placed, where at most one of them is computed onto the
/// stack.
pub proof fn lemma_release_matches_growth(x: TExprV, y: TExprV, defs: Seq<CustomV>)
    requires
        known(x) || known(y),
        stacked_size(x, defs) + stacked_size(y, defs) <= u16::MAX,
    ensures
        stack_bytes(left_loc(x, y, defs)) + stack_bytes(right_loc(y, defs)) == stacked_size(x, defs)
            + stacked_size(y, defs),
{
}

/// How deeply sums and groupings nest in an expression.
pub open spec fn nesting(e: TExprV) -> nat
    decreases e,
{
    match e {
        TExprV::Term(_, b) => 1 + if nesting(b.left) < nesting(b.right) {
            nesting(b.right)
        } else {
            nesting(b.left)
        },
        TExprV::Primary(_, p) => match *p {
            TPrimaryV::Grouping(g) => 1 + nesting(g),
            _ => 0,
        },
        _ => 0,
    }
}

/// The instructions that place the value of a typed expression on top of
/// the stack: a literal (all its bytes, lowest first), an enum variant (its
/// number), a sum with `+` (each operand read as an immediate where its
/// value is known when compiling, else computed onto the stack first; then
/// added byte by byte with carry), or such a value grouped. `None` for
/// every other expression, and for a sum with an operand of neither kind:
/// such an operand is read through its address, which is not decided here.
#[verifier::opaque]
pub open spec fn onto_stack(e: TExprV, defs: Seq<CustomV>) -> Option<Seq<InstrV>>
    decreases e,
{
    match e {
        TExprV::Term(t, b) => {
            let cx = onto_stack(b.left, defs);
            let cy = onto_stack(b.right, defs);
            if b.operator == "+"@ && has_size(t, defs) && sum_ready(b.left, b.right, cx, cy, type_size(t, defs), defs) {
                Some(full_sum_code(b.left, b.right, cx, cy, type_size(t, defs), defs))
            } else {
                None
            }
        },
        TExprV::Primary(_, p) => match *p {
            TPrimaryV::Grouping(b) => onto_stack(b, defs),
            TPrimaryV::EnumVariant(_, v) => Some(push_byte_code(v.1)),
            TPrimaryV::NumLiteral(n) => Some(push_bytes_code(n.value(), prim_size(literal_type(n)) as nat)),
            _ => None,
        },
        _ => None,
    }
}

impl TypedExpr {
    /// Emits the instructions that place the value of the expression on top
    /// of the stack: exactly those that `onto_stack` gives for it, after the
    /// output so far, and nothing else of the generator changes. The stack
    /// pointer of the target moves only through the instructions written
    /// (`inc_sp_code` and `dec_sp_code` among them).
    pub fn generate_onto_stack(&self, cg: &mut CodeGenerator)
        requires
            onto_stack(self@, old(cg)@.defined_types) is Some,
        ensures
            final(cg)@ == (GenV {
                output: old(cg)@.output + instrs(onto_stack(self@, old(cg)@.defined_types)->Some_0),
                ..old(cg)@
            }),
        decreases nesting(self@), 1nat,
    {
        proof {
            unfold_texpr_view(*self);
            reveal(onto_stack);
        }
        match self {
            TypedExpr::Term(final_type, binary_expr) => {
                proof {
                    unfold_tbinary_view(**binary_expr);
                }
                generate_sum(final_type, &binary_expr.left, &binary_expr.right, cg);
            },
            TypedExpr::Primary(_, primary) => {
                proof {
                    unfold_tprimary_view(**primary);
                }
                match &**primary {
                    TypedPrimaryExpr::Grouping(body) => body.generate_onto_stack(cg),
                    TypedPrimaryExpr::EnumVariant(_, variant) => {
                        cg.write_instruction(Instruction::Imr(R0, variant.1));
                        cg.write_instruction(Instruction::Push(R0));
                        cg.increase_sp_by(1);
                        assert(cg@.output =~= old(cg)@.output + instrs(push_byte_code(variant.1)));
                    },
                    TypedPrimaryExpr::NumLiteral(num) => {
                        push_literal(num, cg);
                    },
                    _ => {
                        proof {
                            assert(false);
                        }
                    },
                }
            },
            _ => {
                proof {
                    assert(false);
                }
            },
        }
    }
}

/// Emits `x + y` with a result of type `t`: places the operands, adds
/// them byte by byte with carry, and gives back their stack space.
fn generate_sum(t: &ValueType, x: &TypedExpr, y: &TypedExpr, cg: &mut CodeGenerator)
    requires
        has_size(t@, old(cg)@.defined_types),
        sum_ready(
            x@,
            y@,
            onto_stack(x@, old(cg)@.defined_types),
            onto_stack(y@, old(cg)@.defined_types),
            type_size(t@, old(cg)@.defined_types),
            old(cg)@.defined_types,
        ),
    ensures
        final(cg)@ == (GenV {
            output: old(cg)@.output + instrs(
                full_sum_code(
                    x@,
                    y@,
                    onto_stack(x@, old(cg)@.defined_types),
                    onto_stack(y@, old(cg)@.defined_types),
                    type_size(t@, old(cg)@.defined_types),
                    old(cg)@.defined_types,
                ),
            ),
            ..old(cg)@
        }),
    decreases
            if nesting(x@) < nesting(y@) {
                nesting(y@)
            } else {
                nesting(x@)
            },
            4nat,
{
    let ghost defs = cg@.defined_types;
    let ghost size = type_size(t@, defs);
    let ghost xl = left_loc(x@, y@, defs);
    let ghost yl = right_loc(y@, defs);
    let ghost placed = place_code(x@, onto_stack(x@, defs)) + place_code(y@, onto_stack(y@, defs));
    let (left_value, right_value, _stack_increased_by) = create_two_values(cg, x, y);
    let ghost start = cg@.output;
    assert(start =~= old(cg)@.output + instrs(placed));
    let ghost lx0 = operand_load(x@, xl, R0, 0, defs);
    let ghost ly0 = operand_load(y@, yl, R1, 0, defs);
    left_value.ld_nth_byte_to_reg(R0, 0, cg);
    right_value.ld_nth_byte_to_reg(R1, 0, cg);
    cg.write_instruction(Instruction::Rmov(R0));
    cg.write_instruction(Instruction::Add(R1));
    cg.write_instruction(Instruction::Amov(R0));
    cg.write_instruction(Instruction::Push(R0));
    assert(cg@.output =~= start + instrs(sum_first_code(lx0, ly0)));
    let ghost after_first = cg@.output;
    let final_size = t.size(cg.types());
    if final_size > 1 {
        cg.write_instruction(Instruction::Zac);
        cg.write_instruction(Instruction::Amov(R0));
        cg.write_instruction(Instruction::Adc(R0));
        cg.write_instruction(Instruction::Amov(R0));
        cg.increase_sp_by(1);
        cg.write_instruction(Instruction::Push(R0));
        assert(cg@.output =~= after_first + instrs(carry_code()));
        let ghost base = cg@.output;
        let mut nth: u16 = 1;
        assert(sum_bytes_code(x@, y@, xl, yl, defs, 1) =~= Seq::<InstrV>::empty());
        assert(base + instrs(Seq::<InstrV>::empty()) =~= base);
        while nth < final_size
            invariant
                1 <= nth <= final_size,
                final_size == size,
                defs == old(cg)@.defined_types,
                left_value@.expr == x@,
                right_value@.expr == y@,
                left_value.location == xl,
                right_value.location == yl,
                operand_ready(x@, xl, size, defs),
                operand_ready(y@, yl, size, defs),
                cg@ == (GenV { output: base + instrs(sum_bytes_code(x@, y@, xl, yl, defs, nth as nat)), ..old(cg)@ }),
            decreases final_size - nth,
        {
            let ghost before = cg@.output;
            let ghost lx = operand_load(x@, xl, R0, nth as nat, defs);
            let ghost ly = operand_load(y@, yl, R1, nth as nat, defs);
            proof {
                if xl is Immediate {
                    assert(texpr_byte(x@, nth, defs) is Some);
                }
                if yl is Immediate {
                    assert(texpr_byte(y@, nth, defs) is Some);
                }
            }
            left_value.ld_nth_byte_to_reg(R0, nth, cg);
            right_value.ld_nth_byte_to_reg(R1, nth, cg);
            cg.write_instruction(Instruction::Rmov(R0));
            cg.write_instruction(Instruction::Add(R1));
            cg.write_instruction(Instruction::Amov(R1));
            cg.write_instruction(Instruction::Zac);
            cg.write_instruction(Instruction::Amov(R0));
            cg.write_instruction(Instruction::Adc(R0));
            cg.write_instruction(Instruction::Amov(R0));
            cg.write_instruction(Instruction::Rmov(R1));
            cg.write_instruction(Instruction::Pop(R1));
            cg.write_instruction(Instruction::Add(R1));
            cg.write_instruction(Instruction::Amov(R1));
            cg.write_instruction(Instruction::Push(R1));
            cg.write_instruction(Instruction::Zac);
            cg.write_instruction(Instruction::Adc(R0));
            cg.write_instruction(Instruction::Amov(R0));
            cg.increase_sp_by(1);
            cg.write_instruction(Instruction::Push(R0));
            proof {
                assert(cg@.output =~= before + instrs(sum_byte_code(lx, ly)));
                assert(sum_bytes_code(x@, y@, xl, yl, defs, (nth + 1) as nat) == sum_bytes_code(
                    x@,
                    y@,
                    xl,
                    yl,
                    defs,
                    nth as nat,
                ) + sum_byte_code(lx, ly));
                assert(instrs(sum_bytes_code(x@, y@, xl, yl, defs, nth as nat) + sum_byte_code(lx, ly)) =~= instrs(
                    sum_bytes_code(x@, y@, xl, yl, defs, nth as nat),
                ) + instrs(sum_byte_code(lx, ly)));
                assert(cg@.output =~= base + instrs(sum_bytes_code(x@, y@, xl, yl, defs, (nth + 1) as nat)));
            }
            nth = nth + 1;
        }
        proof {
            assert(instrs(sum_first_code(lx0, ly0) + (carry_code() + sum_bytes_code(x@, y@, xl, yl, defs, size as nat)))
                =~= instrs(sum_first_code(lx0, ly0)) + instrs(carry_code()) + instrs(
                sum_bytes_code(x@, y@, xl, yl, defs, size as nat),
            ));
            assert(sum_code(x@, y@, xl, yl, size, defs) == sum_first_code(lx0, ly0) + (carry_code()
                + sum_bytes_code(x@, y@, xl, yl, defs, size as nat)));
            assert(cg@.output =~= start + instrs(sum_code(x@, y@, xl, yl, size, defs)));
        }
    } else {
        cg.increase_sp_by(1);
        proof {
            assert(instrs(sum_first_code(lx0, ly0) + inc_sp_code(1)) =~= instrs(sum_first_code(lx0, ly0)) + instrs(
                inc_sp_code(1),
            ));
            assert(sum_code(x@, y@, xl, yl, size, defs) == sum_first_code(lx0, ly0) + inc_sp_code(1));
            assert(cg@.output =~= start + instrs(sum_code(x@, y@, xl, yl, size, defs)));
        }
    }
    let ghost before_clean = cg@.output;
    clean_after_two_values(cg, left_value, right_value);
    proof {
        assert(cg@.output =~= before_clean + instrs(release_code(xl, yl)));
        assert(instrs(placed + sum_code(x@, y@, xl, yl, size, defs) + release_code(xl, yl)) =~= instrs(placed)
            + instrs(sum_code(x@, y@, xl, yl, size, defs)) + instrs(release_code(xl, yl)));
        assert(cg@.output =~= old(cg)@.output + instrs(
            full_sum_code(x@, y@, onto_stack(x@, defs), onto_stack(y@, defs), size, defs),
        ));
    }
}

/// Pushes every byte of a literal, lowest first.
fn push_literal(num: &NumLiteral, cg: &mut CodeGenerator)
    ensures
        final(cg)@ == (GenV {
            output: old(cg)@.output + instrs(push_bytes_code(num.value(), prim_size(literal_type(*num)) as nat)),
            ..old(cg)@
        }),
{
    proof {
        lemma_primitive_size(literal_type(*num), cg@.defined_types);
    }
    let size = num.get_type().size(cg.types());
    let mut nth: u16 = 0;
    assert(push_bytes_code(num.value(), 0) =~= Seq::<InstrV>::empty());
    assert(old(cg)@.output + instrs(Seq::<InstrV>::empty()) =~= old(cg)@.output);
    while nth < size
        invariant
            nth <= size,
            size == prim_size(literal_type(*num)),
            cg@ == (GenV { output: old(cg)@.output + instrs(push_bytes_code(num.value(), nth as nat)), ..old(cg)@ }),
        decreases size - nth,
    {
        let value = num.get_nth_byte(nth);
        let ghost before = cg@.output;
        cg.write_instruction(Instruction::Imr(R0, value));
        cg.write_instruction(Instruction::Push(R0));
        cg.increase_sp_by(1);
        proof {
            assert(push_bytes_code(num.value(), (nth + 1) as nat) == push_bytes_code(num.value(), nth as nat)
                + push_byte_code(value));
            assert(cg@.output =~= before + instrs(push_byte_code(value)));
            assert(instrs(push_bytes_code(num.value(), nth as nat) + push_byte_code(value)) =~= instrs(
                push_bytes_code(num.value(), nth as nat),
            ) + instrs(push_byte_code(value)));
            assert(cg@.output =~= old(cg)@.output + instrs(push_bytes_code(num.value(), (nth + 1) as nat)));
        }
        nth = nth + 1;
    }
}

} // verus!
