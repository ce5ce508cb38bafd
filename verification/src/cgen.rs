use vstd::prelude::*;

use crate::types::{
    ValueType, CustomType, StructTemplate, TypeV, CustomV, StructV, customs_view, has_size, type_size, field_from,
    struct_from, get_custom_struct,
};
use crate::expr::{Variable, VariableV, unfold_variable_view};
use crate::semantics::expr_semantics::{var_ok, unfold_var_ok, opt_struct};
use crate::typed_ast::{TypedStmt, TStmtV, tstmts_view};
use crate::semantics::{FnTemplate, FnV, fns_view};

pub mod instruction;
pub mod value;
pub mod known_at_compile;
pub mod expr_cgen;

use instruction::{AssemblyCommand, Instruction, InstrV, CommandV, REG, R0, SPL, SPH, BPL, BPH, MARL, MARH};

verus! {

/// Turns a typed program into assembly for the target machine.
pub struct CodeGenerator {
    ast: Vec<TypedStmt>,
    output: Vec<AssemblyCommand>,
    symbol_table: SymbolTable,
    defined_types: Vec<CustomType>,
    fn_templates: Vec<FnTemplate>,
}

/// The variables of the current frame, each with its offset from the base
/// pointer, and the size of the frame.
pub struct SymbolTable {
    pub symbols: Vec<Symbol>,
    pub frame_size: u16,
}

pub enum Symbol {
    EnterScope,
    Label(String),
    Variable(String, ValueType, u16),
}

pub enum SymbolV {
    EnterScope,
    Label(Seq<char>),
    Variable(Seq<char>, TypeV, u16),
}

impl View for Symbol {
    type V = SymbolV;

    open spec fn view(&self) -> SymbolV {
        match *self {
            Symbol::EnterScope => SymbolV::EnterScope,
            Symbol::Label(l) => SymbolV::Label(l@),
            Symbol::Variable(n, t, o) => SymbolV::Variable(n@, t@, o),
        }
    }
}

pub struct GenV {
    pub ast: Seq<TStmtV>,
    pub output: Seq<CommandV>,
    pub symbols: Seq<SymbolV>,
    pub frame_size: u16,
    pub defined_types: Seq<CustomV>,
    pub fn_templates: Seq<FnV>,
}

impl View for CodeGenerator {
    type V = GenV;

    closed spec fn view(&self) -> GenV {
        GenV {
            ast: tstmts_view(self.ast@),
            output: self.output@.map_values(|c: AssemblyCommand| c@),
            symbols: self.symbol_table.symbols@.map_values(|s: Symbol| s@),
            frame_size: self.symbol_table.frame_size,
            defined_types: customs_view(self.defined_types@),
            fn_templates: fns_view(self.fn_templates@),
        }
    }
}

/// The low byte of `n`.
pub open spec fn lo(n: u16) -> u8 {
    (n % 256) as u8
}

/// The high byte of `n`.
pub open spec fn hi(n: u16) -> u8 {
    (n / 256) as u8
}

/// The two bytes of a 16-bit number make it up again.
pub proof fn lemma_bytes_of_u16(n: u16)
    ensures
        lo(n) + 256 * hi(n) == n,
        n as u8 == lo(n),
        (n >> 8) as u8 == hi(n),
{
    assert(n as u8 == (n % 256) as u8) by (bit_vector);
    assert((n >> 8) as u8 == (n / 256) as u8) by (bit_vector);
}

/// The instructions that add `n` to the stack pointer.
pub open spec fn inc_sp_code(n: u16) -> Seq<InstrV> {
    seq![
        InstrV::Ima(lo(n)),
        InstrV::Add(SPL),
        InstrV::Amov(SPL),
        InstrV::Ima(hi(n)),
        InstrV::Adc(SPH),
        InstrV::Amov(SPH),
    ]
}

pub open spec fn instrs(is: Seq<InstrV>) -> Seq<CommandV> {
    is.map_values(|i: InstrV| CommandV::Instruction(i))
}

/// The innermost variable named `name` among `syms`: its type and offset.
pub open spec fn symbol_lookup(syms: Seq<SymbolV>, name: Seq<char>) -> Option<(TypeV, u16)>
    decreases syms.len(),
{
    if syms.len() == 0 {
        None
    } else if syms.last() is Variable && syms.last()->Variable_0 == name {
        Some((syms.last()->Variable_1, syms.last()->Variable_2))
    } else {
        symbol_lookup(syms.drop_last(), name)
    }
}

impl CodeGenerator {
    pub fn new(ast: Vec<TypedStmt>, defined_types: Vec<CustomType>, fn_templates: Vec<FnTemplate>) -> (cg: Self)
        ensures
            cg@.ast == tstmts_view(ast@),
            cg@.output == Seq::<CommandV>::empty(),
            cg@.symbols == Seq::<SymbolV>::empty(),
            cg@.frame_size == 0,
            cg@.defined_types == customs_view(defined_types@),
            cg@.fn_templates == fns_view(fn_templates@),
    {
        let cg = CodeGenerator {
            ast,
            output: Vec::new(),
            symbol_table: SymbolTable { symbols: Vec::new(), frame_size: 0 },
            defined_types,
            fn_templates,
        };
        assert(cg@.output =~= Seq::<CommandV>::empty());
        assert(cg@.symbols =~= Seq::<SymbolV>::empty());
        cg
    }

    /// The assembly written so far.
    pub fn output(&self) -> (r: &Vec<AssemblyCommand>)
        ensures
            r@.map_values(|c: AssemblyCommand| c@) == self@.output,
    {
        &self.output
    }

    /// The custom types of the program.
    pub fn types(&self) -> (r: &Vec<CustomType>)
        ensures
            customs_view(r@) == self@.defined_types,
    {
        &self.defined_types
    }

    pub(crate) fn write_instruction(&mut self, inst: Instruction)
        ensures
            final(self)@ == (GenV { output: old(self)@.output.push(CommandV::Instruction(inst@)), ..old(self)@ }),
    {
        self.output.push(AssemblyCommand::Instruction(inst));
        assert(self@.output =~= old(self)@.output.push(CommandV::Instruction(inst@)));
    }

    /// Places a variable at the top of the current frame.
    pub fn declare_var(&mut self, name: String, v_type: ValueType)
        requires
            has_size(v_type@, old(self)@.defined_types),
            old(self)@.frame_size + type_size(v_type@, old(self)@.defined_types) <= u16::MAX,
        ensures
            final(self)@ == (GenV {
                symbols: old(self)@.symbols.push(SymbolV::Variable(name@, v_type@, old(self)@.frame_size)),
                frame_size: (old(self)@.frame_size + type_size(v_type@, old(self)@.defined_types)) as u16,
                ..old(self)@
            }),
    {
        let var_size = v_type.size(&self.defined_types);
        let ghost sym = SymbolV::Variable(name@, v_type@, self.symbol_table.frame_size);
        self.symbol_table.symbols.push(Symbol::Variable(name, v_type, self.symbol_table.frame_size));
        self.symbol_table.frame_size = self.symbol_table.frame_size + var_size;
        assert(self@.symbols =~= old(self)@.symbols.push(sym));
    }

    /// The type and offset from the base pointer of the innermost variable
    /// named `target_name`.
    pub fn get_var(&self, target_name: String) -> (r: (ValueType, u16))
        requires
            symbol_lookup(self@.symbols, target_name@) is Some,
        ensures
            symbol_lookup(self@.symbols, target_name@) == Some((r.0@, r.1)),
    {
        let ghost syms = self@.symbols;
        let mut i: usize = self.symbol_table.symbols.len();
        assert(syms.take(i as int) =~= syms);
        while i > 0
            invariant
                i <= self.symbol_table.symbols.len(),
                syms == self@.symbols,
                syms.len() == self.symbol_table.symbols.len(),
                symbol_lookup(syms, target_name@) == symbol_lookup(syms.take(i as int), target_name@),
            decreases i,
        {
            proof {
                assert(syms.take(i as int).drop_last() =~= syms.take(i - 1));
                assert(syms.take(i as int).last() == syms[i - 1]);
                assert(syms[i - 1] == self.symbol_table.symbols@[i - 1]@);
            }
            if let Symbol::Variable(name, v_type, offset_from_base) = &self.symbol_table.symbols[i - 1] {
                if *name == target_name {
                    return (v_type.clone(), *offset_from_base);
                }
            }
            i = i - 1;
        }
        proof {
            assert(syms.take(0) =~= Seq::<SymbolV>::empty());
        }
        (ValueType::Void, 0)
    }

    /// Adds `n` to the stack pointer, low byte then high byte with carry.
    pub(crate) fn increase_sp_by(&mut self, n: u16)
        ensures
            final(self)@ == (GenV { output: old(self)@.output + instrs(inc_sp_code(n)), ..old(self)@ }),
    {
        proof {
            lemma_bytes_of_u16(n);
        }
        self.write_instruction(Instruction::Ima(n as u8));
        self.write_instruction(Instruction::Add(SPL));
        self.write_instruction(Instruction::Amov(SPL));
        self.write_instruction(Instruction::Ima((n >> 8) as u8));
        self.write_instruction(Instruction::Adc(SPH));
        self.write_instruction(Instruction::Amov(SPH));
        assert(self@.output =~= old(self)@.output + instrs(inc_sp_code(n)));
    }

    /// Subtracts `n` from the stack pointer, low byte then high byte with
    /// borrow; overwrites R0.
    pub(crate) fn decrease_sp_by(&mut self, n: u16)
        ensures
            final(self)@ == (GenV {
                output: old(self)@.output + instrs(
                    seq![
                        InstrV::Imr(R0, lo(n)),
                        InstrV::Rmov(SPL),
                        InstrV::Sub(R0),
                        InstrV::Amov(SPL),
                        InstrV::Imr(R0, hi(n)),
                        InstrV::Rmov(SPH),
                        InstrV::Sbc(R0),
                        InstrV::Amov(SPH),
                    ],
                ),
                ..old(self)@
            }),
    {
        proof {
            lemma_bytes_of_u16(n);
        }
        self.write_instruction(Instruction::Imr(R0, n as u8));
        self.write_instruction(Instruction::Rmov(SPL));
        self.write_instruction(Instruction::Sub(R0));
        self.write_instruction(Instruction::Amov(SPL));
        self.write_instruction(Instruction::Imr(R0, (n >> 8) as u8));
        self.write_instruction(Instruction::Rmov(SPH));
        self.write_instruction(Instruction::Sbc(R0));
        self.write_instruction(Instruction::Amov(SPH));
        assert(self@.output =~= old(self)@.output + instrs(
            seq![
                InstrV::Imr(R0, lo(n)),
                InstrV::Rmov(SPL),
                InstrV::Sub(R0),
                InstrV::Amov(SPL),
                InstrV::Imr(R0, hi(n)),
                InstrV::Rmov(SPH),
                InstrV::Sbc(R0),
                InstrV::Amov(SPH),
            ],
        ));
    }

    /// Loads into `reg` the byte at base pointer plus `n`.
    pub(crate) fn ld_bp_plus_to_reg(&mut self, reg: REG, n: u16)
        ensures
            final(self)@ == (GenV {
                output: old(self)@.output + instrs(
                    seq![
                        InstrV::Ima(lo(n)),
                        InstrV::Add(BPL),
                        InstrV::Amov(MARL),
                        InstrV::Ima(hi(n)),
                        InstrV::Adc(BPH),
                        InstrV::Amov(MARH),
                        InstrV::Ld(reg),
                    ],
                ),
                ..old(self)@
            }),
    {
        proof {
            lemma_bytes_of_u16(n);
        }
        self.write_instruction(Instruction::Ima(n as u8));
        self.write_instruction(Instruction::Add(BPL));
        self.write_instruction(Instruction::Amov(MARL));
        self.write_instruction(Instruction::Ima((n >> 8) as u8));
        self.write_instruction(Instruction::Adc(BPH));
        self.write_instruction(Instruction::Amov(MARH));
        self.write_instruction(Instruction::Ld(reg));
        assert(self@.output =~= old(self)@.output + instrs(
            seq![
                InstrV::Ima(lo(n)),
                InstrV::Add(BPL),
                InstrV::Amov(MARL),
                InstrV::Ima(hi(n)),
                InstrV::Adc(BPH),
                InstrV::Amov(MARH),
                InstrV::Ld(reg),
            ],
        ));
    }

    /// Loads into `reg` the byte at stack pointer minus `n`; uses `reg` for
    /// the address arithmetic.
    pub(crate) fn ld_sp_minus_to_reg(&mut self, reg: REG, n: u16)
        ensures
            final(self)@ == (GenV {
                output: old(self)@.output + instrs(
                    seq![
                        InstrV::Imr(reg, lo(n)),
                        InstrV::Rmov(SPL),
                        InstrV::Sub(reg),
                        InstrV::Amov(MARL),
                        InstrV::Imr(reg, hi(n)),
                        InstrV::Rmov(SPH),
                        InstrV::Sbc(reg),
                        InstrV::Amov(MARH),
                        InstrV::Ld(reg),
                    ],
                ),
                ..old(self)@
            }),
    {
        proof {
            lemma_bytes_of_u16(n);
        }
        self.write_instruction(Instruction::Imr(reg, n as u8));
        self.write_instruction(Instruction::Rmov(SPL));
        self.write_instruction(Instruction::Sub(reg));
        self.write_instruction(Instruction::Amov(MARL));
        self.write_instruction(Instruction::Imr(reg, (n >> 8) as u8));
        self.write_instruction(Instruction::Rmov(SPH));
        self.write_instruction(Instruction::Sbc(reg));
        self.write_instruction(Instruction::Amov(MARH));
        self.write_instruction(Instruction::Ld(reg));
        assert(self@.output =~= old(self)@.output + instrs(
            seq![
                InstrV::Imr(reg, lo(n)),
                InstrV::Rmov(SPL),
                InstrV::Sub(reg),
                InstrV::Amov(MARL),
                InstrV::Imr(reg, hi(n)),
                InstrV::Rmov(SPH),
                InstrV::Sbc(reg),
                InstrV::Amov(MARH),
                InstrV::Ld(reg),
            ],
        ));
    }
}


/// The type of a variable access and its offset from the base pointer, with
/// the variables of `syms` and the types of `defs`; inside a struct access
/// (`parent` given), the offset is from the head of that struct. `None`
/// where a name is not found, where an array is indexed (no such offset is
/// known when compiling), or where the offset passes 16 bits.
#[verifier::opaque]
pub open spec fn var_offset(v: VariableV, syms: Seq<SymbolV>, defs: Seq<CustomV>, parent: Option<StructV>) -> Option<(TypeV, u16)>
    decreases v,
{
    match v {
        VariableV::Id(id) => if parent is None {
            symbol_lookup(syms, id.tok.text)
        } else {
            field_from(parent->Some_0.fields, id.tok.text, 0)
        },
        VariableV::StructField(b) => {
            let h = var_offset(b.0, syms, defs, parent);
            if h is None || !(h->Some_0.0 is CustomStruct) {
                None
            } else {
                let st = struct_from(defs, h->Some_0.0->CustomStruct_0, 0);
                if st is None {
                    None
                } else {
                    let t = var_offset(b.1, syms, defs, st);
                    if t is None || h->Some_0.1 + t->Some_0.1 > u16::MAX {
                        None
                    } else {
                        Some((t->Some_0.0, (h->Some_0.1 + t->Some_0.1) as u16))
                    }
                }
            }
        },
        VariableV::Array(_, _) => None,
    }
}

impl Variable {
    /// The type of the variable access and its offset from the base
    /// pointer; inside a struct access (`parent` given), from the head of
    /// that struct.
    pub fn eval_offset_from_bp(&self, cg: &CodeGenerator, parent: Option<StructTemplate>) -> (r: (ValueType, u16))
        requires
            var_ok(self@),
            var_offset(self@, cg@.symbols, cg@.defined_types, opt_struct(parent)) is Some,
        ensures
            var_offset(self@, cg@.symbols, cg@.defined_types, opt_struct(parent)) == Some((r.0@, r.1)),
        decreases self@,
    {
        proof {
            unfold_variable_view(*self);
            reveal(var_offset);
            unfold_var_ok(self@);
        }
        match self {
            Variable::Id(id) => match parent {
                None => cg.get_var(id.data()),
                Some(parent_struct) => match parent_struct.get_field(id.data()) {
                    Some(f) => f,
                    None => {
                        proof {
                            assert(false);
                        }
                        (ValueType::Void, 0)
                    },
                },
            },
            Variable::StructField(s) => {
                let (head, tail) = &**s;
                let (head_type, head_offset) = head.eval_offset_from_bp(cg, parent);
                if let ValueType::CustomStruct(struct_name) = head_type {
                    let head_struct = match get_custom_struct(struct_name, cg.types()) {
                        Some(t) => t,
                        None => {
                            proof {
                                assert(false);
                            }
                            return (ValueType::Void, 0);
                        },
                    };
                    let (tail_type, tail_offset) = tail.eval_offset_from_bp(cg, Some(head_struct));
                    return (tail_type, head_offset + tail_offset);
                }
                proof {
                    assert(false);
                }
                (ValueType::Void, 0)
            },
            Variable::Array(_, _) => {
                proof {
                    assert(false);
                }
                (ValueType::Void, 0)
            },
        }
    }
}

} // verus!
