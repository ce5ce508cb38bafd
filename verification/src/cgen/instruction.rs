use vstd::prelude::*;

verus! {

pub type REG = u8;

pub type LABEL = String;

pub const R0: REG = 0;

pub const R1: REG = 1;

pub const BPL: REG = 2;

pub const BPH: REG = 3;

pub const SPL: REG = 4;

pub const SPH: REG = 5;

pub const MARL: REG = 6;

pub const MARH: REG = 7;

/// A line of the assembly output.
#[derive(Debug)]
pub enum AssemblyCommand {
    Label(String),
    Comment(String),
    Instruction(Instruction),
}

/// An instruction of the target machine.
#[derive(Debug)]
pub enum Instruction {
    Add(REG),
    Sub(REG),
    Adc(REG),
    Sbc(REG),
    Ror(REG),
    Nor(REG),
    And(REG),
    Stc,
    Clc,
    Rmov(REG),
    Amov(REG),
    Jmp(LABEL),
    Bca(LABEL),
    Bnc(LABEL),
    Bze(LABEL),
    Bnz(LABEL),
    Bsi(LABEL),
    Bpa(LABEL),
    Acz,
    /// Clears the accumulator.
    Zac,
    Ima(REG),
    Imr(REG, u8),
    Spc,
    Str(REG),
    Ld(REG),
    In(REG),
    Out(REG),
    Nop,
    Hlt,
    Push(REG),
    Pop(REG),
}

/// An instruction, with labels by their characters.
pub enum InstrV {
    Add(u8),
    Sub(u8),
    Adc(u8),
    Sbc(u8),
    Ror(u8),
    Nor(u8),
    And(u8),
    Stc,
    Clc,
    Rmov(u8),
    Amov(u8),
    Jmp(Seq<char>),
    Bca(Seq<char>),
    Bnc(Seq<char>),
    Bze(Seq<char>),
    Bnz(Seq<char>),
    Bsi(Seq<char>),
    Bpa(Seq<char>),
    Acz,
    Zac,
    Ima(u8),
    Imr(u8, u8),
    Spc,
    Str(u8),
    Ld(u8),
    In(u8),
    Out(u8),
    Nop,
    Hlt,
    Push(u8),
    Pop(u8),
}

pub enum CommandV {
    Label(Seq<char>),
    Comment(Seq<char>),
    Instruction(InstrV),
}

impl View for Instruction {
    type V = InstrV;

    open spec fn view(&self) -> InstrV {
        match *self {
            Instruction::Add(r) => InstrV::Add(r),
            Instruction::Sub(r) => InstrV::Sub(r),
            Instruction::Adc(r) => InstrV::Adc(r),
            Instruction::Sbc(r) => InstrV::Sbc(r),
            Instruction::Ror(r) => InstrV::Ror(r),
            Instruction::Nor(r) => InstrV::Nor(r),
            Instruction::And(r) => InstrV::And(r),
            Instruction::Stc => InstrV::Stc,
            Instruction::Clc => InstrV::Clc,
            Instruction::Rmov(r) => InstrV::Rmov(r),
            Instruction::Amov(r) => InstrV::Amov(r),
            Instruction::Jmp(l) => InstrV::Jmp(l@),
            Instruction::Bca(l) => InstrV::Bca(l@),
            Instruction::Bnc(l) => InstrV::Bnc(l@),
            Instruction::Bze(l) => InstrV::Bze(l@),
            Instruction::Bnz(l) => InstrV::Bnz(l@),
            Instruction::Bsi(l) => InstrV::Bsi(l@),
            Instruction::Bpa(l) => InstrV::Bpa(l@),
            Instruction::Acz => InstrV::Acz,
            Instruction::Zac => InstrV::Zac,
            Instruction::Ima(r) => InstrV::Ima(r),
            Instruction::Imr(r, v) => InstrV::Imr(r, v),
            Instruction::Spc => InstrV::Spc,
            Instruction::Str(r) => InstrV::Str(r),
            Instruction::Ld(r) => InstrV::Ld(r),
            Instruction::In(r) => InstrV::In(r),
            Instruction::Out(r) => InstrV::Out(r),
            Instruction::Nop => InstrV::Nop,
            Instruction::Hlt => InstrV::Hlt,
            Instruction::Push(r) => InstrV::Push(r),
            Instruction::Pop(r) => InstrV::Pop(r),
        }
    }
}

impl View for AssemblyCommand {
    type V = CommandV;

    open spec fn view(&self) -> CommandV {
        match *self {
            AssemblyCommand::Label(l) => CommandV::Label(l@),
            AssemblyCommand::Comment(c) => CommandV::Comment(c@),
            AssemblyCommand::Instruction(i) => CommandV::Instruction(i@),
        }
    }
}

} // verus!
