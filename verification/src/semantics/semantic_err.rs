use vstd::prelude::*;

use crate::token::{Lexeme, LexemeView};
use crate::types::{
    StructTemplate, EnumTemplate, CustomType, ValueType, StructV, EnumV, CustomV, TypeV, struct_view,
    enum_view, custom_view, type_view,
};

verus! {

/// Why a program was refused by the semantic analysis, with the place in the
/// source where the problem was found.
#[derive(Debug)]
pub enum SemanticErr {
    NoStructField(StructTemplate, Lexeme),
    NoEnumVariant(EnumTemplate, Lexeme),
    WrongAccess(CustomType, Lexeme),
    UnknownType(Lexeme),
    NotAStruct(Lexeme),
    NotAnArray(Lexeme),
    UndeclaredVar(Lexeme),
    /// The type that was expected, the type found, and where.
    WrongType(ValueType, ValueType, Lexeme),
    UsedId(Lexeme),
    CantDeref(Lexeme),
    NotAVar(Lexeme),
    ShiftAmountErr(Lexeme),
    UndeclaredFn(Lexeme),
    FnArityErr(Lexeme),
    DuplicateParams(Lexeme),
    CantReturn(Lexeme),
    CantBreak(Lexeme),
    EnumDuplicateVariants(Lexeme),
    RecursiveStruct(String),
    CantCast(Lexeme),
    CantOp(Lexeme),
}

pub enum SemanticErrV {
    NoStructField(StructV, LexemeView),
    NoEnumVariant(EnumV, LexemeView),
    WrongAccess(CustomV, LexemeView),
    UnknownType(LexemeView),
    NotAStruct(LexemeView),
    NotAnArray(LexemeView),
    UndeclaredVar(LexemeView),
    WrongType(TypeV, TypeV, LexemeView),
    UsedId(LexemeView),
    CantDeref(LexemeView),
    NotAVar(LexemeView),
    ShiftAmountErr(LexemeView),
    UndeclaredFn(LexemeView),
    FnArityErr(LexemeView),
    DuplicateParams(LexemeView),
    CantReturn(LexemeView),
    CantBreak(LexemeView),
    EnumDuplicateVariants(LexemeView),
    RecursiveStruct(Seq<char>),
    CantCast(LexemeView),
    CantOp(LexemeView),
}

impl View for SemanticErr {
    type V = SemanticErrV;

    open spec fn view(&self) -> SemanticErrV {
        match *self {
            SemanticErr::NoStructField(s, l) => SemanticErrV::NoStructField(struct_view(s), l@),
            SemanticErr::NoEnumVariant(e, l) => SemanticErrV::NoEnumVariant(enum_view(e), l@),
            SemanticErr::WrongAccess(c, l) => SemanticErrV::WrongAccess(custom_view(c), l@),
            SemanticErr::UnknownType(l) => SemanticErrV::UnknownType(l@),
            SemanticErr::NotAStruct(l) => SemanticErrV::NotAStruct(l@),
            SemanticErr::NotAnArray(l) => SemanticErrV::NotAnArray(l@),
            SemanticErr::UndeclaredVar(l) => SemanticErrV::UndeclaredVar(l@),
            SemanticErr::WrongType(a, b, l) => SemanticErrV::WrongType(type_view(a), type_view(b), l@),
            SemanticErr::UsedId(l) => SemanticErrV::UsedId(l@),
            SemanticErr::CantDeref(l) => SemanticErrV::CantDeref(l@),
            SemanticErr::NotAVar(l) => SemanticErrV::NotAVar(l@),
            SemanticErr::ShiftAmountErr(l) => SemanticErrV::ShiftAmountErr(l@),
            SemanticErr::UndeclaredFn(l) => SemanticErrV::UndeclaredFn(l@),
            SemanticErr::FnArityErr(l) => SemanticErrV::FnArityErr(l@),
            SemanticErr::DuplicateParams(l) => SemanticErrV::DuplicateParams(l@),
            SemanticErr::CantReturn(l) => SemanticErrV::CantReturn(l@),
            SemanticErr::CantBreak(l) => SemanticErrV::CantBreak(l@),
            SemanticErr::EnumDuplicateVariants(l) => SemanticErrV::EnumDuplicateVariants(l@),
            SemanticErr::RecursiveStruct(s) => SemanticErrV::RecursiveStruct(s@),
            SemanticErr::CantCast(l) => SemanticErrV::CantCast(l@),
            SemanticErr::CantOp(l) => SemanticErrV::CantOp(l@),
        }
    }
}

} // verus!
