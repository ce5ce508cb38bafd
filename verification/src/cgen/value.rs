use vstd::prelude::*;

use crate::expr::byte_of;
use crate::types::{ValueType, TypeV, CustomV, has_size, type_size, is_signed};
use crate::cgen::known_at_compile::known;
use crate::cgen::expr_cgen::{onto_stack, nesting, place_code, stacked_size, left_loc, right_loc};
use crate::typed_ast::{
    TypedExpr, TypedPrimaryExpr, TypedVariable, TypedBinaryExpr, TExprV, TPrimaryV, TVariableV, TBinaryV,
    texpr_type, unfold_texpr_view, unfold_tprimary_view, unfold_tvariable_view, unfold_tbinary_view,
};
use crate::cgen::{CodeGenerator, GenV, instrs, lo, hi};
use crate::cgen::instruction::{Instruction, InstrV, REG, R0, SPL, SPH, BPL, BPH, MARL, MARH};

verus! {

/// Where a value that an instruction sequence works on is found: that many
/// bytes below the stack pointer, that many above the base pointer, or as
/// an immediate known when compiling.
#[derive(Clone, Copy, PartialEq, Eq, Structural, Debug)]
pub enum ValueLocation {
    SpMinus(u16),
    BpPlus(i16),
    Immediate,
}

/// A value: the expression that gives it, where it is, and its size.
pub struct Value {
    pub expr: TypedExpr,
    pub location: ValueLocation,
    pub value_size: u16,
}

pub struct ValueV {
    pub expr: TExprV,
    pub location: ValueLocation,
    pub value_size: u16,
}

impl View for Value {
    type V = ValueV;

    open spec fn view(&self) -> ValueV {
        ValueV { expr: self.expr@, location: self.location, value_size: self.value_size }
    }
}

/// Byte `nth` of the value of an expression known when compiling; `None`
/// where the expression is no such value, or a cast widens it to a signed
/// type.
#[verifier::opaque]
pub open spec fn texpr_byte(e: TExprV, nth: u16, defs: Seq<CustomV>) -> Option<u8>
    decreases e,
{
    match e {
        TExprV::Primary(_, p) => tprimary_byte(*p, nth, defs),
        TExprV::Cast(to, v) => if !has_size(texpr_type(*v), defs) || !has_size(to, defs) {
            None
        } else if type_size(texpr_type(*v), defs) < type_size(to, defs) && is_signed(to) {
            None
        } else {
            texpr_byte(*v, nth, defs)
        },
        _ => None,
    }
}

#[verifier::opaque]
pub open spec fn tprimary_byte(p: TPrimaryV, nth: u16, defs: Seq<CustomV>) -> Option<u8>
    decreases p,
{
    match p {
        TPrimaryV::EnumVariant(_, v) => if nth == 0 {
            Some(v.1)
        } else {
            Some(0u8)
        },
        TPrimaryV::Grouping(b) => texpr_byte(b, nth, defs),
        TPrimaryV::NumLiteral(n) => Some(byte_of(n.value(), nth as nat)),
        _ => None,
    }
}

/// The name of the variable or function that an expression starts from;
/// `None` for a literal or a reference.
#[verifier::opaque]
pub open spec fn texpr_first_id(e: TExprV) -> Option<Seq<char>>
    decreases e,
{
    match e {
        TExprV::Assign(_, _, v) => texpr_first_id(*v),
        TExprV::Cast(_, v) => texpr_first_id(*v),
        TExprV::Comparison(_, b) => texpr_first_id(b.left),
        TExprV::Equality(_, b) => texpr_first_id(b.left),
        TExprV::Term(_, b) => texpr_first_id(b.left),
        TExprV::FnCall(_, name, _) => Some(name),
        TExprV::Shift(_, v, _, _) => texpr_first_id(*v),
        TExprV::Unary(_, _, v) => texpr_first_id(*v),
        TExprV::Primary(_, p) => match *p {
            TPrimaryV::Grouping(b) => texpr_first_id(b),
            TPrimaryV::EnumVariant(t, _) => Some(t.name),
            TPrimaryV::Variable(v) => Some(tvariable_first_id(v)),
            _ => None,
        },
    }
}

/// The name that a variable access starts from.
#[verifier::opaque]
pub open spec fn tvariable_first_id(v: TVariableV) -> Seq<char>
    decreases v,
{
    match v {
        TVariableV::Id(_, id) => id,
        TVariableV::Array(_, h, _) => tvariable_first_id(*h),
        TVariableV::StructField(_, b) => tvariable_first_id(b.0),
    }
}

/// `texpr_byte` unfolded once.
pub proof fn unfold_texpr_byte(e: TExprV, nth: u16, defs: Seq<CustomV>)
    ensures
        texpr_byte(e, nth, defs) == ({
    match e {
        TExprV::Primary(_, p) => tprimary_byte(*p, nth, defs),
        TExprV::Cast(to, v) => if !has_size(texpr_type(*v), defs) || !has_size(to, defs) {
            None
        } else if type_size(texpr_type(*v), defs) < type_size(to, defs) && is_signed(to) {
            None
        } else {
            texpr_byte(*v, nth, defs)
        },
        _ => None,
    }
        }),
{
    reveal(texpr_byte);
    reveal(tprimary_byte);
}

/// `tprimary_byte` unfolded once.
pub proof fn unfold_tprimary_byte(p: TPrimaryV, nth: u16, defs: Seq<CustomV>)
    ensures
        tprimary_byte(p, nth, defs) == ({
    match p {
        TPrimaryV::EnumVariant(_, v) => if nth == 0 {
            Some(v.1)
        } else {
            Some(0u8)
        },
        TPrimaryV::Grouping(b) => texpr_byte(b, nth, defs),
        TPrimaryV::NumLiteral(n) => Some(byte_of(n.value(), nth as nat)),
        _ => None,
    }
        }),
{
    reveal(tprimary_byte);
    reveal(texpr_byte);
}

/// `texpr_first_id` unfolded once.
pub proof fn unfold_texpr_first_id(e: TExprV)
    ensures
        texpr_first_id(e) == ({
    match e {
        TExprV::Assign(_, _, v) => texpr_first_id(*v),
        TExprV::Cast(_, v) => texpr_first_id(*v),
        TExprV::Comparison(_, b) => texpr_first_id(b.left),
        TExprV::Equality(_, b) => texpr_first_id(b.left),
        TExprV::Term(_, b) => texpr_first_id(b.left),
        TExprV::FnCall(_, name, _) => Some(name),
        TExprV::Shift(_, v, _, _) => texpr_first_id(*v),
        TExprV::Unary(_, _, v) => texpr_first_id(*v),
        TExprV::Primary(_, p) => match *p {
            TPrimaryV::Grouping(b) => texpr_first_id(b),
            TPrimaryV::EnumVariant(t, _) => Some(t.name),
            TPrimaryV::Variable(v) => Some(tvariable_first_id(v)),
            _ => None,
        },
    }
        }),
{
    reveal(texpr_first_id);
    reveal(tvariable_first_id);
}

/// `tvariable_first_id` unfolded once.
pub proof fn unfold_tvariable_first_id(v: TVariableV)
    ensures
        tvariable_first_id(v) == ({
    match v {
        TVariableV::Id(_, id) => id,
        TVariableV::Array(_, h, _) => tvariable_first_id(*h),
        TVariableV::StructField(_, b) => tvariable_first_id(b.0),
    }
        }),
{
    reveal(tvariable_first_id);
}


impl ValueType {
    /// Whether the type is a signed integer type.
    pub fn is_signed_type(&self) -> (b: bool)
        ensures
            b == is_signed(self@),
    {
        match self {
            ValueType::I8 | ValueType::I16 | ValueType::I32 | ValueType::I64 => true,
            _ => false,
        }
    }
}

impl TypedExpr {
    /// Byte `nth` of the value of the expression, known when compiling.
    pub fn get_nth_byte(&self, nth: u16, cg: &CodeGenerator) -> (b: u8)
        requires
            texpr_byte(self@, nth, cg@.defined_types) is Some,
        ensures
            Some(b) == texpr_byte(self@, nth, cg@.defined_types),
        decreases self,
    {
        proof {
            unfold_texpr_view(*self);
            unfold_texpr_byte(self@, nth, cg@.defined_types);
        }
        match self {
            TypedExpr::Primary(_, primary) => primary.get_nth_byte(nth, cg),
            TypedExpr::Cast(to_type, original_expr) => {
                let original_type = original_expr.final_type();
                let from_size = original_type.size(cg.types());
                let to_size = to_type.size(cg.types());
                if from_size < to_size && to_type.is_signed_type() {
                    proof {
                        assert(false);
                    }
                    0
                } else {
                    original_expr.get_nth_byte(nth, cg)
                }
            },
            _ => {
                proof {
                    assert(false);
                }
                0
            },
        }
    }

    /// The name of the variable or function the expression starts from.
    pub fn get_first_id(&self) -> (s: String)
        requires
            texpr_first_id(self@) is Some,
        ensures
            Some(s@) == texpr_first_id(self@),
        decreases self,
    {
        proof {
            unfold_texpr_view(*self);
            unfold_texpr_first_id(self@);
        }
        match self {
            TypedExpr::Assign(_, _, value) => value.get_first_id(),
            TypedExpr::Cast(_, value) => value.get_first_id(),
            TypedExpr::Comparison(_, binary) => binary.get_first_id(),
            TypedExpr::Equality(_, binary) => binary.get_first_id(),
            TypedExpr::Term(_, binary) => binary.get_first_id(),
            TypedExpr::FnCall(_, name, _) => name.clone(),
            TypedExpr::Shift(_, value, _, _) => value.get_first_id(),
            TypedExpr::Unary(_, _, value) => value.get_first_id(),
            TypedExpr::Primary(_, primary) => {
                proof {
                    unfold_tprimary_view(**primary);
                }
                match &**primary {
                    TypedPrimaryExpr::Grouping(body) => body.get_first_id(),
                    TypedPrimaryExpr::EnumVariant(t, _) => t.name.clone(),
                    TypedPrimaryExpr::Variable(var) => var.get_first_id(),
                    _ => {
                        proof {
                            assert(false);
                        }
                        String::new()
                    },
                }
            },
        }
    }
}

impl TypedPrimaryExpr {
    /// Byte `nth` of the value of the primary expression, known when
    /// compiling.
    pub fn get_nth_byte(&self, nth: u16, cg: &CodeGenerator) -> (b: u8)
        requires
            tprimary_byte(self@, nth, cg@.defined_types) is Some,
        ensures
            Some(b) == tprimary_byte(self@, nth, cg@.defined_types),
        decreases self,
    {
        proof {
            unfold_tprimary_view(*self);
            unfold_tprimary_byte(self@, nth, cg@.defined_types);
        }
        match self {
            TypedPrimaryExpr::EnumVariant(_, variant) => {
                if nth == 0 {
                    variant.1
                } else {
                    0
                }
            },
            TypedPrimaryExpr::Grouping(body) => body.get_nth_byte(nth, cg),
            TypedPrimaryExpr::NumLiteral(num) => num.get_nth_byte(nth),
            _ => {
                proof {
                    assert(false);
                }
                0
            },
        }
    }
}

impl TypedBinaryExpr {
    pub fn get_first_id(&self) -> (s: String)
        requires
            texpr_first_id(self@.left) is Some,
        ensures
            Some(s@) == texpr_first_id(self@.left),
        decreases self,
    {
        proof {
            unfold_tbinary_view(*self);
        }
        self.left.get_first_id()
    }
}

impl TypedVariable {
    pub fn get_first_id(&self) -> (s: String)
        ensures
            s@ == tvariable_first_id(self@),
        decreases self,
    {
        proof {
            unfold_tvariable_view(*self);
            unfold_tvariable_first_id(self@);
        }
        match self {
            TypedVariable::Id(_, id) => id.clone(),
            TypedVariable::Array(_, head, _) => head.get_first_id(),
            TypedVariable::StructField(_, body) => body.0.get_first_id(),
        }
    }
}

/// Makes a value of an expression for an operation to read: an expression
/// whose value is known when compiling is read as an immediate and nothing
/// is emitted; any other expression that `onto_stack` covers (a sum) is
/// computed onto the stack and read from there, its size below the stack
/// pointer. The value's size is that of the expression's type. An
/// expression read through its address is not decided here.
pub fn create_value(cg: &mut CodeGenerator, x: &TypedExpr) -> (v: Value)
    requires
        known(x@) || onto_stack(x@, old(cg)@.defined_types) is Some,
        has_size(texpr_type(x@), old(cg)@.defined_types),
    ensures
        final(cg)@ == (GenV {
            output: old(cg)@.output + instrs(place_code(x@, onto_stack(x@, old(cg)@.defined_types))),
            ..old(cg)@
        }),
        v@ == (ValueV {
            expr: x@,
            location: if known(x@) {
                ValueLocation::Immediate
            } else {
                ValueLocation::SpMinus(type_size(texpr_type(x@), old(cg)@.defined_types))
            },
            value_size: type_size(texpr_type(x@), old(cg)@.defined_types),
        }),
    decreases nesting(x@), 2nat,
{
    let x_size = x.final_type().size(cg.types());
    let x_location;
    if x.value_known_at_compile() {
        x_location = ValueLocation::Immediate;
        assert(cg@.output =~= old(cg)@.output + instrs(Seq::<InstrV>::empty()));
    } else {
        x.generate_onto_stack(cg);
        x_location = ValueLocation::SpMinus(x_size);
    }
    Value { expr: x.clone(), location: x_location, value_size: x_size }
}

/// Makes the two values of a binary operation, `x` then `y`, each as
/// `create_value` does; where both go on the stack, `x` lies below `y`, so
/// its offset from the stack pointer is the space both take. The third
/// result is how far the stack grew.
pub fn create_two_values(cg: &mut CodeGenerator, x: &TypedExpr, y: &TypedExpr) -> (r: (Value, Value, u16))
    requires
        known(x@) || onto_stack(x@, old(cg)@.defined_types) is Some,
        known(y@) || onto_stack(y@, old(cg)@.defined_types) is Some,
        has_size(texpr_type(x@), old(cg)@.defined_types),
        has_size(texpr_type(y@), old(cg)@.defined_types),
        stacked_size(x@, old(cg)@.defined_types) + stacked_size(y@, old(cg)@.defined_types) <= u16::MAX,
    ensures
        final(cg)@ == (GenV {
            output: old(cg)@.output + instrs(
                place_code(x@, onto_stack(x@, old(cg)@.defined_types)) + place_code(
                    y@,
                    onto_stack(y@, old(cg)@.defined_types),
                ),
            ),
            ..old(cg)@
        }),
        r.0@ == (ValueV {
            expr: x@,
            location: left_loc(x@, y@, old(cg)@.defined_types),
            value_size: type_size(texpr_type(x@), old(cg)@.defined_types),
        }),
        r.1@ == (ValueV {
            expr: y@,
            location: right_loc(y@, old(cg)@.defined_types),
            value_size: type_size(texpr_type(y@), old(cg)@.defined_types),
        }),
        r.2 == stacked_size(x@, old(cg)@.defined_types) + stacked_size(y@, old(cg)@.defined_types),
    decreases
            if nesting(x@) < nesting(y@) {
                nesting(y@)
            } else {
                nesting(x@)
            },
            3nat,
{
    let ghost defs = cg@.defined_types;
    let mut stack_increased_by: u16 = 0;
    let mut value_x = create_value(cg, x);
    if let ValueLocation::SpMinus(n) = value_x.location {
        stack_increased_by = stack_increased_by + n;
    }
    let value_y = create_value(cg, y);
    if let ValueLocation::SpMinus(n) = value_y.location {
        stack_increased_by = stack_increased_by + n;
    }
    if let ValueLocation::SpMinus(_) = value_x.location {
        value_x.location = ValueLocation::SpMinus(stack_increased_by);
    }
    assert(cg@.output =~= old(cg)@.output + instrs(
        place_code(x@, onto_stack(x@, defs)) + place_code(y@, onto_stack(y@, defs)),
    ));
    (value_x, value_y, stack_increased_by)
}

/// The stack space held by a value: its size where it sits below the stack
/// pointer, else none.
pub open spec fn stack_bytes(l: ValueLocation) -> int {
    match l {
        ValueLocation::SpMinus(n) => n as int,
        _ => 0,
    }
}

/// Gives back the stack space held by two values.
pub fn clean_after_two_values(cg: &mut CodeGenerator, x: Value, y: Value)
    requires
        stack_bytes(x.location) + stack_bytes(y.location) <= u16::MAX,
    ensures
        ({
            let n = (stack_bytes(x.location) + stack_bytes(y.location)) as u16;
            final(cg)@ == if n == 0 {
                old(cg)@
            } else {
                GenV {
                    output: old(cg)@.output + instrs(
                        seq![
                            InstrV::Imr(R0, lo(n)),
                            InstrV::Rmov(SPL),
                            InstrV::Sub(R0),
                            InstrV::Amov(SPL),
                            InstrV::Imr(R0, hi(n)),
                            InstrV::Rmov(SPH),
                            InstrV::Sbc(R0),
                            InstrV::Amov(SPH),
                        ],
                    ),
                    ..old(cg)@
                }
            }
        }),
{
    let mut amount_to_decrease_sp: u16 = 0;
    if let ValueLocation::SpMinus(n) = x.location {
        amount_to_decrease_sp = amount_to_decrease_sp + n;
    }
    if let ValueLocation::SpMinus(n) = y.location {
        amount_to_decrease_sp = amount_to_decrease_sp + n;
    }
    if amount_to_decrease_sp != 0 {
        cg.decrease_sp_by(amount_to_decrease_sp);
    }
}

/// The instructions that load byte `nth` of a value at `l` into `reg`,
/// where `b` is the byte of an immediate value.
pub open spec fn load_code(l: ValueLocation, reg: u8, nth: u16, b: u8) -> Seq<InstrV> {
    match l {
        ValueLocation::Immediate => seq![InstrV::Imr(reg, b)],
        ValueLocation::BpPlus(off) => {
            let n = ((off as u16) + nth) as u16;
            seq![
                InstrV::Ima(lo(n)),
                InstrV::Add(BPL),
                InstrV::Amov(MARL),
                InstrV::Ima(hi(n)),
                InstrV::Adc(BPH),
                InstrV::Amov(MARH),
                InstrV::Ld(reg),
            ]
        },
        ValueLocation::SpMinus(o) => {
            let n = (o + nth) as u16;
            seq![
                InstrV::Imr(reg, lo(n)),
                InstrV::Rmov(SPL),
                InstrV::Sub(reg),
                InstrV::Amov(MARL),
                InstrV::Imr(reg, hi(n)),
                InstrV::Rmov(SPH),
                InstrV::Sbc(reg),
                InstrV::Amov(MARH),
                InstrV::Ld(reg),
            ]
        },
    }
}

/// Where loading byte `nth` of a value at `l` can be generated: an
/// immediate's byte is known, and an address computation stays in range.
pub open spec fn loadable(v: ValueV, nth: u16, defs: Seq<CustomV>) -> bool {
    match v.location {
        ValueLocation::Immediate => texpr_byte(v.expr, nth, defs) is Some,
        ValueLocation::BpPlus(off) => 0 <= off + (nth as i16) <= i16::MAX && (off as u16) + nth <= u16::MAX,
        ValueLocation::SpMinus(o) => o + nth <= u16::MAX,
    }
}

impl Value {
    /// Emits the instructions that load byte `nth` of the value into `reg`.
    pub fn ld_nth_byte_to_reg(&self, reg: REG, nth: u16, cg: &mut CodeGenerator)
        requires
            loadable(self@, nth, old(cg)@.defined_types),
        ensures
            final(cg)@ == (GenV {
                output: old(cg)@.output + instrs(
                    load_code(
                        self.location,
                        reg,
                        nth,
                        if self.location is Immediate {
                            texpr_byte(self@.expr, nth, old(cg)@.defined_types)->Some_0
                        } else {
                            0u8
                        },
                    ),
                ),
                ..old(cg)@
            }),
    {
        match self.location {
            ValueLocation::Immediate => {
                let value = self.expr.get_nth_byte(nth, cg);
                cg.write_instruction(Instruction::Imr(reg, value));
                assert(cg@.output =~= old(cg)@.output + instrs(seq![InstrV::Imr(reg, value)]));
            },
            ValueLocation::BpPlus(offset_from_base) => {
                let total_offset = offset_from_base as u16 + nth;
                cg.ld_bp_plus_to_reg(reg, total_offset);
            },
            ValueLocation::SpMinus(offset_from_sp) => {
                cg.ld_sp_minus_to_reg(reg, offset_from_sp + nth);
            },
        }
    }
}

} // verus!
