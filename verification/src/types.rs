use vstd::prelude::*;
use vstd::string::StringExecFns;

use crate::expr::NumLiteral;
use crate::token::{Lexeme, kind_has_data};
use crate::stmt::{TypeDeclr, TypeDeclrV};
use crate::semantics::semantic_err::{SemanticErr, SemanticErrV};

verus! {

/// The type of a value in the source language.
#[derive(Debug)]
pub enum ValueType {
    U8,
    I8,
    U16,
    I16,
    U32,
    I32,
    U64,
    I64,
    Void,
    Pointer(Box<ValueType>),
    Array(Box<ValueType>, u16),
    CustomStruct(String),
    CustomEnum(EnumTemplate),
}

/// A struct declaration: its name and fields, each field with its type and
/// its offset in bytes from the first byte of the struct.
#[derive(Debug)]
pub struct StructTemplate {
    pub name: String,
    pub fields: Vec<(String, ValueType, u16)>,
}

#[derive(Debug)]
pub enum CustomType {
    CustomStruct(StructTemplate),
    CustomEnum(EnumTemplate),
}

/// An enum declaration: its name and its variants, each with its number.
#[derive(Debug)]
pub struct EnumTemplate {
    pub name: String,
    pub variants: Vec<(String, u8)>,
}

/// A value type, with every string by its characters.
pub enum TypeV {
    U8,
    I8,
    U16,
    I16,
    U32,
    I32,
    U64,
    I64,
    Void,
    Pointer(Box<TypeV>),
    Array(Box<TypeV>, u16),
    CustomStruct(Seq<char>),
    CustomEnum(EnumV),
}

pub struct EnumV {
    pub name: Seq<char>,
    pub variants: Seq<(Seq<char>, u8)>,
}

pub struct StructV {
    pub name: Seq<char>,
    pub fields: Seq<(Seq<char>, TypeV, u16)>,
}

pub enum CustomV {
    CustomStruct(StructV),
    CustomEnum(EnumV),
}

impl CustomV {
    pub open spec fn name(self) -> Seq<char> {
        match self {
            CustomV::CustomStruct(s) => s.name,
            CustomV::CustomEnum(e) => e.name,
        }
    }
}

pub open spec fn enum_view(e: EnumTemplate) -> EnumV {
    EnumV { name: e.name@, variants: e.variants@.map_values(|v: (String, u8)| (v.0@, v.1)) }
}

pub open spec fn type_view(t: ValueType) -> TypeV
    decreases t,
{
    match t {
        ValueType::U8 => TypeV::U8,
        ValueType::I8 => TypeV::I8,
        ValueType::U16 => TypeV::U16,
        ValueType::I16 => TypeV::I16,
        ValueType::U32 => TypeV::U32,
        ValueType::I32 => TypeV::I32,
        ValueType::U64 => TypeV::U64,
        ValueType::I64 => TypeV::I64,
        ValueType::Void => TypeV::Void,
        ValueType::Pointer(p) => TypeV::Pointer(Box::new(type_view(*p))),
        ValueType::Array(i, n) => TypeV::Array(Box::new(type_view(*i)), n),
        ValueType::CustomStruct(s) => TypeV::CustomStruct(s@),
        ValueType::CustomEnum(e) => TypeV::CustomEnum(enum_view(e)),
    }
}

pub open spec fn fields_view(s: Seq<(String, ValueType, u16)>) -> Seq<(Seq<char>, TypeV, u16)> {
    s.map_values(|f: (String, ValueType, u16)| (f.0@, type_view(f.1), f.2))
}

pub open spec fn struct_view(s: StructTemplate) -> StructV {
    StructV { name: s.name@, fields: fields_view(s.fields@) }
}

pub open spec fn custom_view(c: CustomType) -> CustomV {
    match c {
        CustomType::CustomStruct(s) => CustomV::CustomStruct(struct_view(s)),
        CustomType::CustomEnum(e) => CustomV::CustomEnum(enum_view(e)),
    }
}

pub open spec fn customs_view(s: Seq<CustomType>) -> Seq<CustomV> {
    s.map_values(|c: CustomType| custom_view(c))
}

impl View for ValueType {
    type V = TypeV;

    open spec fn view(&self) -> TypeV {
        type_view(*self)
    }
}

impl View for EnumTemplate {
    type V = EnumV;

    open spec fn view(&self) -> EnumV {
        enum_view(*self)
    }
}

impl View for StructTemplate {
    type V = StructV;

    open spec fn view(&self) -> StructV {
        struct_view(*self)
    }
}

impl View for CustomType {
    type V = CustomV;

    open spec fn view(&self) -> CustomV {
        custom_view(*self)
    }
}

impl Clone for EnumTemplate {
    fn clone(&self) -> (r: Self)
        ensures
            r@ == self@,
    {
        let mut variants: Vec<(String, u8)> = Vec::new();
        let mut i: usize = 0;
        while i < self.variants.len()
            invariant
                i <= self.variants.len(),
                variants.len() == i,
                forall|j: int|
                    0 <= j < i ==> #[trigger] variants@[j].0@ == self.variants@[j].0@ && variants@[j].1
                        == self.variants@[j].1,
            decreases self.variants.len() - i,
        {
            variants.push((self.variants[i].0.clone(), self.variants[i].1));
            i = i + 1;
        }
        let r = EnumTemplate { name: self.name.clone(), variants };
        assert(r@.variants =~= self@.variants);
        r
    }
}

impl Clone for ValueType {
    fn clone(&self) -> (r: Self)
        ensures
            r@ == self@,
        decreases self,
    {
        match self {
            ValueType::U8 => ValueType::U8,
            ValueType::I8 => ValueType::I8,
            ValueType::U16 => ValueType::U16,
            ValueType::I16 => ValueType::I16,
            ValueType::U32 => ValueType::U32,
            ValueType::I32 => ValueType::I32,
            ValueType::U64 => ValueType::U64,
            ValueType::I64 => ValueType::I64,
            ValueType::Void => ValueType::Void,
            ValueType::Pointer(p) => ValueType::Pointer(Box::new((**p).clone())),
            ValueType::Array(i, n) => ValueType::Array(Box::new((**i).clone()), *n),
            ValueType::CustomStruct(s) => ValueType::CustomStruct(s.clone()),
            ValueType::CustomEnum(e) => ValueType::CustomEnum(e.clone()),
        }
    }
}

impl Clone for StructTemplate {
    fn clone(&self) -> (r: Self)
        ensures
            r@ == self@,
    {
        let mut fields: Vec<(String, ValueType, u16)> = Vec::new();
        let mut i: usize = 0;
        while i < self.fields.len()
            invariant
                i <= self.fields.len(),
                fields.len() == i,
                forall|j: int|
                    0 <= j < i ==> #[trigger] fields@[j].0@ == self.fields@[j].0@ && type_view(fields@[j].1)
                        == type_view(self.fields@[j].1) && fields@[j].2 == self.fields@[j].2,
            decreases self.fields.len() - i,
        {
            let f = &self.fields[i];
            let n = f.0.clone();
            let t = f.1.clone();
            fields.push((n, t, f.2));
            assert(type_view(fields@[i as int].1) == type_view(self.fields@[i as int].1));
            i = i + 1;
        }
        let r = StructTemplate { name: self.name.clone(), fields };
        assert(r@.fields =~= self@.fields);
        r
    }
}

impl Clone for CustomType {
    fn clone(&self) -> (r: Self)
        ensures
            r@ == self@,
    {
        match self {
            CustomType::CustomStruct(s) => CustomType::CustomStruct(s.clone()),
            CustomType::CustomEnum(e) => CustomType::CustomEnum(e.clone()),
        }
    }
}

/// The type of a number literal.
pub open spec fn literal_type(n: NumLiteral) -> TypeV {
    match n {
        NumLiteral::U8(_) => TypeV::U8,
        NumLiteral::I8(_) => TypeV::I8,
        NumLiteral::U16(_) => TypeV::U16,
        NumLiteral::I16(_) => TypeV::I16,
        NumLiteral::U32(_) => TypeV::U32,
        NumLiteral::I32(_) => TypeV::I32,
        NumLiteral::U64(_) => TypeV::U64,
        NumLiteral::I64(_) => TypeV::I64,
    }
}

impl NumLiteral {
    pub fn get_type(&self) -> (t: ValueType)
        ensures
            t@ == literal_type(*self),
    {
        match self {
            NumLiteral::U8(_) => ValueType::U8,
            NumLiteral::I8(_) => ValueType::I8,
            NumLiteral::U16(_) => ValueType::U16,
            NumLiteral::I16(_) => ValueType::I16,
            NumLiteral::U32(_) => ValueType::U32,
            NumLiteral::I32(_) => ValueType::I32,
            NumLiteral::U64(_) => ValueType::U64,
            NumLiteral::I64(_) => ValueType::I64,
        }
    }
}

/// The first field at or after index `i` named `name`: its type and offset.
pub open spec fn field_from(fs: Seq<(Seq<char>, TypeV, u16)>, name: Seq<char>, i: int) -> Option<(TypeV, u16)>
    decreases fs.len() - i,
{
    if i < 0 || i >= fs.len() {
        None
    } else if fs[i].0 == name {
        Some((fs[i].1, fs[i].2))
    } else {
        field_from(fs, name, i + 1)
    }
}

/// The number of the first variant at or after index `i` named `name`.
pub open spec fn variant_from(vs: Seq<(Seq<char>, u8)>, name: Seq<char>, i: int) -> Option<u8>
    decreases vs.len() - i,
{
    if i < 0 || i >= vs.len() {
        None
    } else if vs[i].0 == name {
        Some(vs[i].1)
    } else {
        variant_from(vs, name, i + 1)
    }
}

/// The first struct at or after index `i` of `defs` named `name`.
pub open spec fn struct_from(defs: Seq<CustomV>, name: Seq<char>, i: int) -> Option<StructV>
    decreases defs.len() - i,
{
    if i < 0 || i >= defs.len() {
        None
    } else if defs[i] is CustomStruct && defs[i]->CustomStruct_0.name == name {
        Some(defs[i]->CustomStruct_0)
    } else {
        struct_from(defs, name, i + 1)
    }
}

/// The first custom type, struct or enum, at or after index `i` of `defs`
/// named `name`.
pub open spec fn custom_from(defs: Seq<CustomV>, name: Seq<char>, i: int) -> Option<CustomV>
    decreases defs.len() - i,
{
    if i < 0 || i >= defs.len() {
        None
    } else if defs[i].name() == name {
        Some(defs[i])
    } else {
        custom_from(defs, name, i + 1)
    }
}

impl StructTemplate {
    /// The type of the first field named `field_name`, and its offset from
    /// the head of the struct.
    pub fn get_field(&self, field_name: String) -> (r: Option<(ValueType, u16)>)
        ensures
            r is None <==> field_from(self@.fields, field_name@, 0) is None,
            r matches Some(p) ==> field_from(self@.fields, field_name@, 0) == Some((p.0@, p.1)),
    {
        let mut i: usize = 0;
        while i < self.fields.len()
            invariant
                i <= self.fields.len(),
                field_from(self@.fields, field_name@, 0) == field_from(self@.fields, field_name@, i as int),
            decreases self.fields.len() - i,
        {
            if self.fields[i].0 == field_name {
                return Some((self.fields[i].1.clone(), self.fields[i].2));
            }
            i = i + 1;
        }
        None
    }
}

impl CustomType {
    pub fn name(&self) -> (s: String)
        ensures
            s@ == self@.name(),
    {
        match self {
            Self::CustomEnum(t) => t.name.clone(),
            Self::CustomStruct(t) => t.name.clone(),
        }
    }
}

impl EnumTemplate {
    /// The number of the first variant named `target`.
    pub fn get_variant(&self, target: String) -> (r: Option<u8>)
        ensures
            r == variant_from(self@.variants, target@, 0),
    {
        let mut i: usize = 0;
        while i < self.variants.len()
            invariant
                i <= self.variants.len(),
                variant_from(self@.variants, target@, 0) == variant_from(self@.variants, target@, i as int),
            decreases self.variants.len() - i,
        {
            if self.variants[i].0 == target {
                return Some(self.variants[i].1);
            }
            i = i + 1;
        }
        None
    }
}

/// The first struct among `defined_types` named `target_name`.
pub fn get_custom_struct(target_name: String, defined_types: &Vec<CustomType>) -> (r: Option<StructTemplate>)
    ensures
        r is None <==> struct_from(customs_view(defined_types@), target_name@, 0) is None,
        r matches Some(s) ==> struct_from(customs_view(defined_types@), target_name@, 0) == Some(s@),
{
    let ghost defs = customs_view(defined_types@);
    let mut i: usize = 0;
    while i < defined_types.len()
        invariant
            i <= defined_types.len(),
            defs == customs_view(defined_types@),
            struct_from(defs, target_name@, 0) == struct_from(defs, target_name@, i as int),
        decreases defined_types.len() - i,
    {
        if let CustomType::CustomStruct(s) = &defined_types[i] {
            if s.name == target_name {
                return Some(s.clone());
            }
        }
        i = i + 1;
    }
    None
}

/// Whether the type is a signed integer type.
pub open spec fn is_signed(t: TypeV) -> bool {
    t is I8 || t is I16 || t is I32 || t is I64
}

/// Whether values of this type are held in one machine number.
pub open spec fn is_primitive(t: TypeV) -> bool {
    !(t is Array || t is CustomEnum || t is CustomStruct || t is Void)
}

impl ValueType {
    /// The type pointed to, for a pointer type.
    pub fn dereference(&self) -> (r: Option<ValueType>)
        ensures
            r is Some <==> self@ is Pointer,
            r matches Some(t) ==> self@ == TypeV::Pointer(Box::new(t@)),
    {
        if let ValueType::Pointer(points_to_type) = self {
            return Some((**points_to_type).clone());
        }
        None
    }

    pub fn is_primitive_type(&self) -> (b: bool)
        ensures
            b == is_primitive(self@),
    {
        match self {
            ValueType::Array(_, _) => false,
            ValueType::CustomEnum(_) => false,
            ValueType::CustomStruct(_) => false,
            ValueType::Void => false,
            _ => true,
        }
    }
}


/// The strings of `v`, by their characters.
pub open spec fn texts(v: Seq<String>) -> Seq<Seq<char>> {
    v.map_values(|s: String| s@)
}

/// Whether `v` holds a string equal to `s`.
pub fn texts_contain(v: &Vec<String>, s: &String) -> (b: bool)
    ensures
        b == texts(v@).contains(s@),
{
    let mut i: usize = 0;
    while i < v.len()
        invariant
            i <= v.len(),
            forall|j: int| 0 <= j < i ==> texts(v@)[j] != s@,
        decreases v.len() - i,
    {
        if v[i] == *s {
            assert(texts(v@)[i as int] == s@);
            return true;
        }
        i = i + 1;
    }
    false
}

/// The built-in type that a type name denotes, if any.
pub open spec fn builtin_type(s: Seq<char>) -> Option<TypeV> {
    if s == "u8"@ {
        Some(TypeV::U8)
    } else if s == "i8"@ {
        Some(TypeV::I8)
    } else if s == "u16"@ {
        Some(TypeV::U16)
    } else if s == "i16"@ {
        Some(TypeV::I16)
    } else if s == "u32"@ {
        Some(TypeV::U32)
    } else if s == "i32"@ {
        Some(TypeV::I32)
    } else if s == "u64"@ {
        Some(TypeV::U64)
    } else if s == "i64"@ {
        Some(TypeV::I64)
    } else if s == "void"@ {
        Some(TypeV::Void)
    } else {
        None
    }
}

/// Every type name in the declaration carries its text.
pub open spec fn declr_has_text(d: TypeDeclrV) -> bool
    decreases d,
{
    match d {
        TypeDeclrV::Basic(l) => kind_has_data(l.tok.kind),
        TypeDeclrV::Pointer(p) => declr_has_text(*p),
        TypeDeclrV::Array(i, _) => declr_has_text(*i),
    }
}

/// The type a declaration denotes, with the custom types `defs` in scope.
pub open spec fn declr_type(d: TypeDeclrV, defs: Seq<CustomV>) -> Result<TypeV, SemanticErrV>
    decreases d,
{
    match d {
        TypeDeclrV::Basic(l) => match builtin_type(l.tok.text) {
            Some(t) => Ok(t),
            None => match custom_from(defs, l.tok.text, 0) {
                Some(CustomV::CustomEnum(e)) => Ok(TypeV::CustomEnum(e)),
                Some(CustomV::CustomStruct(st)) => Ok(TypeV::CustomStruct(st.name)),
                None => Err(SemanticErrV::UnknownType(l)),
            },
        },
        TypeDeclrV::Pointer(p) => match declr_type(*p, defs) {
            Ok(t) => Ok(TypeV::Pointer(Box::new(t))),
            Err(e) => Err(e),
        },
        TypeDeclrV::Array(i, n) => match declr_type(*i, defs) {
            Ok(t) => Ok(TypeV::Array(Box::new(t), n)),
            Err(e) => Err(e),
        },
    }
}

/// The type a declaration denotes while the structs named in `being` are
/// being declared: a name among them that is no known type is taken for
/// one of those structs.
pub open spec fn declr_type_new(d: TypeDeclrV, defs: Seq<CustomV>, being: Seq<Seq<char>>) -> Result<TypeV, SemanticErrV>
    decreases d,
{
    match d {
        TypeDeclrV::Basic(l) => if declr_type(d, defs) is Ok {
            declr_type(d, defs)
        } else if !being.contains(l.tok.text) {
            Err(SemanticErrV::UnknownType(l))
        } else {
            Ok(TypeV::CustomStruct(l.tok.text))
        },
        TypeDeclrV::Pointer(p) => match declr_type_new(*p, defs, being) {
            Ok(t) => Ok(TypeV::Pointer(Box::new(t))),
            Err(e) => Err(e),
        },
        TypeDeclrV::Array(i, n) => match declr_type_new(*i, defs, being) {
            Ok(t) => Ok(TypeV::Array(Box::new(t), n)),
            Err(e) => Err(e),
        },
    }
}

/// A declaration that names a type already known denotes that type also
/// while structs are being declared: the names being declared only fill in
/// where the known types have no answer.
pub proof fn lemma_declr_type_new_extends(d: TypeDeclrV, defs: Seq<CustomV>, being: Seq<Seq<char>>)
    requires
        declr_type(d, defs) is Ok,
    ensures
        declr_type_new(d, defs, being) == declr_type(d, defs),
    decreases d,
{
    match d {
        TypeDeclrV::Basic(_) => {},
        TypeDeclrV::Pointer(p) => lemma_declr_type_new_extends(*p, defs, being),
        TypeDeclrV::Array(i, _) => lemma_declr_type_new_extends(*i, defs, being),
    }
}

/// How deeply pointer and array types nest in `t`.
pub open spec fn depth(t: TypeV) -> nat
    decreases t,
{
    match t {
        TypeV::Pointer(p) => depth(*p) + 1,
        TypeV::Array(i, _) => depth(*i) + 1,
        _ => 0,
    }
}

/// The size in bytes of a value of type `t`, struct types looked up in
/// `defs` at most `fuel` declarations deep; `None` where a struct is not
/// declared, where the fuel runs out, or where a size does not fit in 16 bits.
pub open spec fn sized(t: TypeV, defs: Seq<CustomV>, fuel: nat) -> Option<u16>
    decreases fuel, 1nat, depth(t),
{
    match t {
        TypeV::U8 | TypeV::I8 => Some(1),
        TypeV::U16 | TypeV::I16 => Some(2),
        TypeV::U32 | TypeV::I32 => Some(4),
        TypeV::U64 | TypeV::I64 => Some(8),
        TypeV::Pointer(_) => Some(2),
        TypeV::Void => Some(0),
        TypeV::CustomEnum(_) => Some(1),
        TypeV::Array(i, n) => match sized(*i, defs, fuel) {
            Some(s) => if s * n <= u16::MAX {
                Some((s * n) as u16)
            } else {
                None
            },
            None => None,
        },
        TypeV::CustomStruct(name) => match struct_from(defs, name, 0) {
            Some(st) => fields_sized(st.fields, defs, fuel),
            None => None,
        },
    }
}

/// The sum of the sizes of the fields' types, as `sized` says, one
/// declaration deeper.
pub open spec fn fields_sized(fs: Seq<(Seq<char>, TypeV, u16)>, defs: Seq<CustomV>, fuel: nat) -> Option<u16>
    decreases fuel, 0nat, fs.len(),
{
    if fuel == 0 {
        None
    } else if fs.len() == 0 {
        Some(0)
    } else {
        match fields_sized(fs.drop_last(), defs, fuel) {
            Some(a) => match sized(fs.last().1, defs, (fuel - 1) as nat) {
                Some(b) => if a + b <= u16::MAX {
                    Some((a + b) as u16)
                } else {
                    None
                },
                None => None,
            },
            None => None,
        }
    }
}

/// A value of type `t` has a size that the compiler can compute.
pub open spec fn has_size(t: TypeV, defs: Seq<CustomV>) -> bool {
    exists|f: nat| #[trigger] sized(t, defs, f) is Some
}

/// The size in bytes of a value of type `t`, where `has_size` holds.
pub open spec fn type_size(t: TypeV, defs: Seq<CustomV>) -> u16 {
    sized(t, defs, choose|f: nat| #[trigger] sized(t, defs, f) is Some)->0
}

/// The size of a type does not depend on how deep the computation was
/// allowed to look: any two depths at which it is found give the same size.
pub proof fn lemma_sized_any_fuel(t: TypeV, defs: Seq<CustomV>, f1: nat, f2: nat)
    requires
        sized(t, defs, f1) is Some,
        sized(t, defs, f2) is Some,
    ensures
        sized(t, defs, f1) == sized(t, defs, f2),
    decreases f1, 1nat, depth(t),
{
    match t {
        TypeV::Array(i, _) => {
            lemma_sized_any_fuel(*i, defs, f1, f2);
        },
        TypeV::CustomStruct(name) => {
            let st = struct_from(defs, name, 0);
            if st is Some {
                lemma_fields_sized_any_fuel(st->Some_0.fields, defs, f1, f2);
            }
        },
        _ => {},
    }
}

pub proof fn lemma_fields_sized_any_fuel(fs: Seq<(Seq<char>, TypeV, u16)>, defs: Seq<CustomV>, f1: nat, f2: nat)
    requires
        fields_sized(fs, defs, f1) is Some,
        fields_sized(fs, defs, f2) is Some,
    ensures
        fields_sized(fs, defs, f1) == fields_sized(fs, defs, f2),
    decreases f1, 0nat, fs.len(),
{
    if fs.len() > 0 {
        lemma_fields_sized_any_fuel(fs.drop_last(), defs, f1, f2);
        lemma_sized_any_fuel(fs.last().1, defs, (f1 - 1) as nat, (f2 - 1) as nat);
    }
}

/// The size of a type is the size found at any depth at which it is found.
pub proof fn lemma_type_size_is_sized(t: TypeV, defs: Seq<CustomV>, f: nat)
    requires
        sized(t, defs, f) is Some,
    ensures
        has_size(t, defs),
        Some(type_size(t, defs)) == sized(t, defs, f),
{
    let g = choose|g: nat| #[trigger] sized(t, defs, g) is Some;
    lemma_sized_any_fuel(t, defs, f, g);
}

/// An array of `n` items takes `n` times the size of one item.
pub proof fn lemma_array_size(t: TypeV, n: u16, defs: Seq<CustomV>)
    requires
        has_size(TypeV::Array(Box::new(t), n), defs),
    ensures
        has_size(t, defs),
        type_size(TypeV::Array(Box::new(t), n), defs) == type_size(t, defs) * n,
{
    let a = TypeV::Array(Box::new(t), n);
    let f = choose|f: nat| #[trigger] sized(a, defs, f) is Some;
    assert(sized(t, defs, f) is Some);
    lemma_type_size_is_sized(t, defs, f);
}

proof fn lemma_fields_sized_prefix(fs: Seq<(Seq<char>, TypeV, u16)>, defs: Seq<CustomV>, fuel: nat, k: int)
    requires
        0 <= k <= fs.len(),
        fields_sized(fs, defs, fuel) is Some,
    ensures
        fields_sized(fs.take(k), defs, fuel) is Some,
    decreases fs.len() - k,
{
    if k == fs.len() {
        assert(fs.take(k) =~= fs);
    } else {
        lemma_fields_sized_prefix(fs, defs, fuel, k + 1);
        assert(fs.take(k + 1).drop_last() =~= fs.take(k));
    }
}

impl ValueType {
    /// The type that a declaration denotes, with `defined_types` in scope.
    pub fn from_declr(declr: &TypeDeclr, defined_types: &Vec<CustomType>) -> (r: Result<ValueType, SemanticErr>)
        requires
            declr_has_text(declr@),
        ensures
            r matches Ok(t) ==> declr_type(declr@, customs_view(defined_types@)) == Ok::<TypeV, SemanticErrV>(t@),
            r matches Err(e) ==> declr_type(declr@, customs_view(defined_types@)) == Err::<TypeV, SemanticErrV>(e@),
        decreases declr,
    {
        let ghost defs = customs_view(defined_types@);
        match declr {
            TypeDeclr::Basic(lex) => {
                let type_text = lex.data();
                match builtin_type_of(&type_text) {
                    Some(t) => {
                        return Ok(t);
                    },
                    None => {},
                }
                let mut i: usize = 0;
                while i < defined_types.len()
                    invariant
                        i <= defined_types.len(),
                        defs == customs_view(defined_types@),
                        custom_from(defs, type_text@, 0) == custom_from(defs, type_text@, i as int),
                        builtin_type(type_text@) is None,
                        type_text@ == lex@.tok.text,
                        declr@ == TypeDeclrV::Basic(lex@),
                    decreases defined_types.len() - i,
                {
                    match &defined_types[i] {
                        CustomType::CustomEnum(e) => {
                            if type_text == e.name {
                                return Ok(ValueType::CustomEnum(e.clone()));
                            }
                        },
                        CustomType::CustomStruct(s) => {
                            if type_text == s.name {
                                return Ok(ValueType::CustomStruct(s.name.clone()));
                            }
                        },
                    }
                    i = i + 1;
                }
                Err(SemanticErr::UnknownType(lex.clone()))
            },
            TypeDeclr::Pointer(p) => {
                let points_to = match ValueType::from_declr(p, defined_types) {
                    Ok(t) => t,
                    Err(e) => {
                        return Err(e);
                    },
                };
                Ok(ValueType::Pointer(Box::new(points_to)))
            },
            TypeDeclr::Array(item_t, size) => {
                let item_type = match ValueType::from_declr(item_t, defined_types) {
                    Ok(t) => t,
                    Err(e) => {
                        return Err(e);
                    },
                };
                Ok(ValueType::Array(Box::new(item_type), *size))
            },
        }
    }

    /// The type that a declaration denotes while the structs named in
    /// `being_defined` are being declared.
    pub fn from_declr_new_struct(
        declr: &TypeDeclr,
        defined_types: &Vec<CustomType>,
        being_defined: &Vec<String>,
    ) -> (r: Result<ValueType, SemanticErr>)
        requires
            declr_has_text(declr@),
        ensures
            r matches Ok(t) ==> declr_type_new(declr@, customs_view(defined_types@), texts(being_defined@))
                == Ok::<TypeV, SemanticErrV>(t@),
            r matches Err(e) ==> declr_type_new(declr@, customs_view(defined_types@), texts(being_defined@))
                == Err::<TypeV, SemanticErrV>(e@),
        decreases declr,
    {
        match declr {
            TypeDeclr::Basic(id) => {
                if let Ok(t) = ValueType::from_declr(declr, defined_types) {
                    return Ok(t);
                }
                let name = id.data();
                if !texts_contain(being_defined, &name) {
                    return Err(SemanticErr::UnknownType(id.clone()));
                }
                Ok(ValueType::CustomStruct(name))
            },
            TypeDeclr::Pointer(p) => {
                let t = match ValueType::from_declr_new_struct(p, defined_types, being_defined) {
                    Ok(t) => t,
                    Err(e) => {
                        return Err(e);
                    },
                };
                Ok(ValueType::Pointer(Box::new(t)))
            },
            TypeDeclr::Array(item_type, size) => {
                let t = match ValueType::from_declr_new_struct(item_type, defined_types, being_defined) {
                    Ok(t) => t,
                    Err(e) => {
                        return Err(e);
                    },
                };
                Ok(ValueType::Array(Box::new(t), *size))
            },
        }
    }

    /// The size in bytes of a value of this type.
    pub fn size(&self, defined_types: &Vec<CustomType>) -> (s: u16)
        requires
            has_size(self@, customs_view(defined_types@)),
        ensures
            s == type_size(self@, customs_view(defined_types@)),
    {
        let ghost f = choose|f: nat| #[trigger] sized(self@, customs_view(defined_types@), f) is Some;
        self.size_within(defined_types, Ghost(f))
    }

    fn size_within(&self, defined_types: &Vec<CustomType>, Ghost(fuel): Ghost<nat>) -> (s: u16)
        requires
            sized(self@, customs_view(defined_types@), fuel) is Some,
        ensures
            Some(s) == sized(self@, customs_view(defined_types@), fuel),
        decreases fuel, 1nat, depth(self@),
    {
        let ghost defs = customs_view(defined_types@);
        match self {
            Self::U8 => 1,
            Self::I8 => 1,
            Self::U16 => 2,
            Self::I16 => 2,
            Self::U32 => 4,
            Self::I32 => 4,
            Self::U64 => 8,
            Self::I64 => 8,
            Self::Pointer(_) => 2,
            Self::Array(item_type, size) => {
                let item_size = (**item_type).size_within(defined_types, Ghost(fuel));
                item_size * *size
            },
            Self::Void => 0,
            Self::CustomEnum(_) => 1,
            Self::CustomStruct(struct_name) => {
                let custom_struct = match get_custom_struct(struct_name.clone(), defined_types) {
                    Some(s) => s,
                    None => {
                        proof {
                            assert(false);
                        }
                        return 0;
                    },
                };
                let ghost fs = custom_struct@.fields;
                assert(fields_sized(fs, defs, fuel) is Some);
                let mut sum: u16 = 0;
                let mut k: usize = 0;
                proof {
                    assert(fs.take(0) =~= Seq::<(Seq<char>, TypeV, u16)>::empty());
                }
                while k < custom_struct.fields.len()
                    invariant
                        k <= custom_struct.fields.len(),
                        fs == custom_struct@.fields,
                        defs == customs_view(defined_types@),
                        fuel >= 1,
                        fields_sized(fs, defs, fuel) is Some,
                        Some(sum) == fields_sized(fs.take(k as int), defs, fuel),
                    decreases custom_struct.fields.len() - k,
                {
                    proof {
                        lemma_fields_sized_prefix(fs, defs, fuel, k + 1);
                        assert(fs.take(k + 1).drop_last() =~= fs.take(k as int));
                        assert(fs.take(k + 1).last() == fs[k as int]);
                    }
                    let field_size = custom_struct.fields[k].1.size_within(defined_types, Ghost((fuel - 1) as nat));
                    sum = sum + field_size;
                    k = k + 1;
                }
                proof {
                    assert(fs.take(k as int) =~= fs);
                }
                sum
            },
        }
    }
}

fn builtin_type_of(s: &String) -> (r: Option<ValueType>)
    ensures
        r is None <==> builtin_type(s@) is None,
        r matches Some(t) ==> builtin_type(s@) == Some(t@),
{
    if *s == String::from_str("u8") {
        Some(ValueType::U8)
    } else if *s == String::from_str("i8") {
        Some(ValueType::I8)
    } else if *s == String::from_str("u16") {
        Some(ValueType::U16)
    } else if *s == String::from_str("i16") {
        Some(ValueType::I16)
    } else if *s == String::from_str("u32") {
        Some(ValueType::U32)
    } else if *s == String::from_str("i32") {
        Some(ValueType::I32)
    } else if *s == String::from_str("u64") {
        Some(ValueType::U64)
    } else if *s == String::from_str("i64") {
        Some(ValueType::I64)
    } else if *s == String::from_str("void") {
        Some(ValueType::Void)
    } else {
        None
    }
}


impl EnumTemplate {
    /// Whether two enums have the same name and variants.
    pub fn same(&self, other: &EnumTemplate) -> (b: bool)
        ensures
            b == (self@ == other@),
    {
        if !(self.name == other.name) || self.variants.len() != other.variants.len() {
            assert(self@.name != other@.name || self@.variants.len() != other@.variants.len());
            return false;
        }
        let mut i: usize = 0;
        while i < self.variants.len()
            invariant
                i <= self.variants.len(),
                self.variants.len() == other.variants.len(),
                forall|j: int| 0 <= j < i ==> #[trigger] self@.variants[j] == other@.variants[j],
            decreases self.variants.len() - i,
        {
            if !(self.variants[i].0 == other.variants[i].0) || self.variants[i].1 != other.variants[i].1 {
                assert(self@.variants[i as int] != other@.variants[i as int]);
                return false;
            }
            i = i + 1;
        }
        assert(self@.variants =~= other@.variants);
        true
    }
}

impl ValueType {
    /// Whether two types are the same type.
    pub fn same(&self, other: &ValueType) -> (b: bool)
        ensures
            b == (self@ == other@),
        decreases self,
    {
        match (self, other) {
            (ValueType::U8, ValueType::U8) => true,
            (ValueType::I8, ValueType::I8) => true,
            (ValueType::U16, ValueType::U16) => true,
            (ValueType::I16, ValueType::I16) => true,
            (ValueType::U32, ValueType::U32) => true,
            (ValueType::I32, ValueType::I32) => true,
            (ValueType::U64, ValueType::U64) => true,
            (ValueType::I64, ValueType::I64) => true,
            (ValueType::Void, ValueType::Void) => true,
            (ValueType::Pointer(a), ValueType::Pointer(b)) => (**a).same(&**b),
            (ValueType::Array(a, n), ValueType::Array(b, m)) => *n == *m && (**a).same(&**b),
            (ValueType::CustomStruct(a), ValueType::CustomStruct(b)) => *a == *b,
            (ValueType::CustomEnum(a), ValueType::CustomEnum(b)) => a.same(b),
            _ => false,
        }
    }
}

/// The size of a primitive type.
pub open spec fn prim_size(t: TypeV) -> u16 {
    match t {
        TypeV::U8 | TypeV::I8 => 1,
        TypeV::U16 | TypeV::I16 => 2,
        TypeV::U32 | TypeV::I32 => 4,
        TypeV::U64 | TypeV::I64 => 8,
        _ => 2,
    }
}

/// A primitive type has a size, the same whatever types are declared.
pub proof fn lemma_primitive_size(t: TypeV, defs: Seq<CustomV>)
    requires
        is_primitive(t),
    ensures
        has_size(t, defs),
        type_size(t, defs) == prim_size(t),
{
    assert(sized(t, defs, 0) is Some);
}

} // verus!
