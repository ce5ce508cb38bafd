use vstd::prelude::*;

use crate::token::{Lexeme, kind_has_data};
use crate::types::{
    ValueType, CustomType, StructTemplate, TypeV, CustomV, StructV, type_view, customs_view, texts,
    get_custom_struct, struct_from,
};

pub mod semantic_err;
pub mod expr_semantics;
pub mod stmt_semantics;
pub mod program;

use semantic_err::{SemanticErr, SemanticErrV};
use crate::stmt::{Stmt, stmts_view};
use crate::typed_ast::{TypedStmt, tstmts_view};
use stmt_semantics::{stmts_ok, generate_typed_block};
use program::{
    decls_ok, type_program, empty_scope, declare_enums, struct_names, declare_templates, check_all, place_all,
    declare_all, structs_view,
};

verus! {

/// A function's signature: its name, the types of its parameters and the
/// type it returns.
#[derive(Debug)]
pub struct FnTemplate {
    pub name: String,
    pub parameters: Vec<ValueType>,
    pub ret_type: ValueType,
}

pub struct FnV {
    pub name: Seq<char>,
    pub parameters: Seq<TypeV>,
    pub ret_type: TypeV,
}

pub open spec fn fn_view(f: FnTemplate) -> FnV {
    FnV {
        name: f.name@,
        parameters: f.parameters@.map_values(|t: ValueType| type_view(t)),
        ret_type: type_view(f.ret_type),
    }
}

impl View for FnTemplate {
    type V = FnV;

    open spec fn view(&self) -> FnV {
        fn_view(*self)
    }
}

pub open spec fn fns_view(s: Seq<FnTemplate>) -> Seq<FnV> {
    s.map_values(|f: FnTemplate| fn_view(f))
}

impl Clone for FnTemplate {
    fn clone(&self) -> (r: Self)
        ensures
            r@ == self@,
    {
        let mut parameters: Vec<ValueType> = Vec::new();
        let mut i: usize = 0;
        while i < self.parameters.len()
            invariant
                i <= self.parameters.len(),
                parameters.len() == i,
                forall|j: int| 0 <= j < i ==> #[trigger] type_view(parameters@[j]) == type_view(self.parameters@[j]),
            decreases self.parameters.len() - i,
        {
            let t = self.parameters[i].clone();
            parameters.push(t);
            i = i + 1;
        }
        let r = FnTemplate { name: self.name.clone(), parameters, ret_type: self.ret_type.clone() };
        assert(r@.parameters =~= self@.parameters);
        r
    }
}

/// The scopes, variables, loops and functions that enclose the point of the
/// program being analysed, and the types and functions declared so far.
pub struct ScopeStack {
    stack: Vec<ScopeStackOp>,
    used_ids: Vec<String>,
    global_used_ids: Vec<String>,
    pub defined_types: Vec<CustomType>,
    pub defined_functions: Vec<FnTemplate>,
}

enum ScopeStackOp {
    EnterScope(Vec<String>),
    EnterBreakable,
    EnterReturnable(ValueType),
    DeclrVar(String, ValueType),
}

/// One entry of the scope stack: the start of a scope, with the names that
/// were in use outside it; a loop; a function body, with its return type;
/// or a variable declaration.
pub enum OpV {
    EnterScope(Seq<Seq<char>>),
    EnterBreakable,
    EnterReturnable(TypeV),
    DeclrVar(Seq<char>, TypeV),
}

pub struct ScopeV {
    pub stack: Seq<OpV>,
    pub used_ids: Seq<Seq<char>>,
    pub global_used_ids: Seq<Seq<char>>,
    pub defined_types: Seq<CustomV>,
    pub defined_functions: Seq<FnV>,
}

spec fn op_view(o: ScopeStackOp) -> OpV {
    match o {
        ScopeStackOp::EnterScope(ids) => OpV::EnterScope(texts(ids@)),
        ScopeStackOp::EnterBreakable => OpV::EnterBreakable,
        ScopeStackOp::EnterReturnable(t) => OpV::EnterReturnable(type_view(t)),
        ScopeStackOp::DeclrVar(n, t) => OpV::DeclrVar(n@, type_view(t)),
    }
}

spec fn ops_view(s: Seq<ScopeStackOp>) -> Seq<OpV> {
    s.map_values(|o: ScopeStackOp| op_view(o))
}

impl View for ScopeStack {
    type V = ScopeV;

    closed spec fn view(&self) -> ScopeV {
        ScopeV {
            stack: ops_view(self.stack@),
            used_ids: texts(self.used_ids@),
            global_used_ids: texts(self.global_used_ids@),
            defined_types: customs_view(self.defined_types@),
            defined_functions: fns_view(self.defined_functions@),
        }
    }
}

/// The scope stack after a scope starts.
pub open spec fn entered(ss: ScopeV) -> ScopeV {
    ScopeV { stack: ss.stack.push(OpV::EnterScope(ss.used_ids)), used_ids: Seq::<Seq<char>>::empty(), ..ss }
}

/// The scope stack after the innermost scope ends.
pub open spec fn left(ss: ScopeV) -> ScopeV {
    ScopeV {
        stack: ss.stack.take(innermost_scope(ss.stack) + 1),
        used_ids: ss.stack[innermost_scope(ss.stack)]->EnterScope_0,
        ..ss
    }
}

/// The scope stack after the variable `name` of type `t` is declared.
pub open spec fn with_var(ss: ScopeV, name: Seq<char>, t: TypeV) -> ScopeV {
    ScopeV { stack: ss.stack.push(OpV::DeclrVar(name, t)), used_ids: ss.used_ids.push(name), ..ss }
}

/// The scope stack after the custom type `c` is declared.
pub open spec fn with_custom(ss: ScopeV, c: CustomV) -> ScopeV {
    ScopeV { global_used_ids: ss.global_used_ids.push(c.name()), defined_types: ss.defined_types.push(c), ..ss }
}

/// The scope stack after the function `f` is declared.
pub open spec fn with_fn(ss: ScopeV, f: FnV) -> ScopeV {
    ScopeV { global_used_ids: ss.global_used_ids.push(f.name), defined_functions: ss.defined_functions.push(f), ..ss }
}

/// The scope stack inside a loop body.
pub open spec fn in_loop(ss: ScopeV) -> ScopeV {
    ScopeV { stack: ss.stack.push(OpV::EnterBreakable), ..ss }
}

/// The scope stack inside a function body that returns `t`.
pub open spec fn in_fn(ss: ScopeV, t: TypeV) -> ScopeV {
    ScopeV { stack: ss.stack.push(OpV::EnterReturnable(t)), ..ss }
}

/// The index of the innermost scope start in `s`, or -1 where there is none.
pub open spec fn innermost_scope(s: Seq<OpV>) -> int
    decreases s.len(),
{
    if s.len() == 0 {
        -1
    } else if s.last() is EnterScope {
        s.len() - 1
    } else {
        innermost_scope(s.drop_last())
    }
}

proof fn lemma_innermost_scope(s: Seq<OpV>)
    ensures
        -1 <= innermost_scope(s) < s.len(),
        innermost_scope(s) >= 0 ==> s[innermost_scope(s)] is EnterScope,
    decreases s.len(),
{
    if s.len() > 0 && !(s.last() is EnterScope) {
        lemma_innermost_scope(s.drop_last());
    }
}

proof fn lemma_enums_only_step(d: Seq<CustomV>, k: int)
    requires
        0 <= k < d.len(),
    ensures
        enums_only(d.take(k + 1)) == if d[k] is CustomEnum {
            enums_only(d.take(k)).push(d[k])
        } else {
            enums_only(d.take(k))
        },
{
    reveal(Seq::filter);
    assert(d.take(k + 1).drop_last() =~= d.take(k));
    assert(d.take(k + 1).last() == d[k]);
}

/// The type of the innermost declaration of the variable `name` in `s`.
pub open spec fn var_lookup(s: Seq<OpV>, name: Seq<char>) -> Option<TypeV>
    decreases s.len(),
{
    if s.len() == 0 {
        None
    } else if s.last() is DeclrVar && s.last()->DeclrVar_0 == name {
        Some(s.last()->DeclrVar_1)
    } else {
        var_lookup(s.drop_last(), name)
    }
}

/// The return type of the innermost function body in `s`.
pub open spec fn nearest_ret(s: Seq<OpV>) -> Option<TypeV>
    decreases s.len(),
{
    if s.len() == 0 {
        None
    } else if s.last() is EnterReturnable {
        Some(s.last()->EnterReturnable_0)
    } else {
        nearest_ret(s.drop_last())
    }
}

/// Whether `s` is inside a loop.
pub open spec fn breakable(s: Seq<OpV>) -> bool {
    exists|i: int| 0 <= i < s.len() && #[trigger] s[i] is EnterBreakable
}

/// The type a variable name denotes: `void` for the name `void`, else the
/// innermost declaration of it.
pub open spec fn name_type(s: Seq<OpV>, name: Seq<char>) -> Option<TypeV> {
    if name == "void"@ {
        Some(TypeV::Void)
    } else {
        var_lookup(s, name)
    }
}

/// The first function at or after index `i` of `fs` named `name`.
pub open spec fn fn_from(fs: Seq<FnV>, name: Seq<char>, i: int) -> Option<FnV>
    decreases fs.len() - i,
{
    if i < 0 || i >= fs.len() {
        None
    } else if fs[i].name == name {
        Some(fs[i])
    } else {
        fn_from(fs, name, i + 1)
    }
}

/// The custom types of `defs` that are enums, in their order.
pub open spec fn enums_only(defs: Seq<CustomV>) -> Seq<CustomV> {
    defs.filter(|c: CustomV| c is CustomEnum)
}

/// A variable that has just been declared is found with the type it was
/// declared with; the name `void` always denotes the type void.
pub proof fn lemma_declared_var_found(ss: ScopeV, name: Seq<char>, t: TypeV)
    requires
        name != "void"@,
    ensures
        name_type(with_var(ss, name, t).stack, name) == Some(t),
{
    assert(with_var(ss, name, t).stack.drop_last() =~= ss.stack);
}

proof fn lemma_innermost_past(s: Seq<OpV>, inner: Seq<OpV>)
    requires
        s.len() > 0,
        s.last() is EnterScope,
        forall|i: int| 0 <= i < inner.len() ==> !(#[trigger] inner[i] is EnterScope),
    ensures
        innermost_scope(s + inner) == s.len() - 1,
    decreases inner.len(),
{
    if inner.len() == 0 {
        assert(s + inner =~= s);
    } else {
        let shorter = inner.drop_last();
        assert((s + inner).drop_last() =~= s + shorter);
        assert((s + inner).last() == inner.last());
        assert(!(inner[inner.len() - 1] is EnterScope));
        lemma_innermost_past(s, shorter);
    }
}

/// Leaving a scope restores the names in use when it was entered and drops
/// what was pushed since (variables, loops, function bodies): a variable is
/// then found exactly as it was found before the scope was entered, whether
/// a `break` is allowed and which type a `return` must have are as they
/// were, and the declared types and functions are as they were.
pub proof fn lemma_leave_after_enter(ss: ScopeV, inner: Seq<OpV>, used: Seq<Seq<char>>, name: Seq<char>)
    requires
        forall|i: int| 0 <= i < inner.len() ==> !(#[trigger] inner[i] is EnterScope),
    ensures
        ({
            let during = ScopeV { stack: entered(ss).stack + inner, used_ids: used, ..entered(ss) };
            &&& innermost_scope(during.stack) >= 0
            &&& left(during).used_ids == ss.used_ids
            &&& left(during).stack == entered(ss).stack
            &&& name_type(left(during).stack, name) == name_type(ss.stack, name)
            &&& breakable(left(during).stack) == breakable(ss.stack)
            &&& nearest_ret(left(during).stack) == nearest_ret(ss.stack)
            &&& left(during).global_used_ids == ss.global_used_ids
            &&& left(during).defined_types == ss.defined_types
            &&& left(during).defined_functions == ss.defined_functions
        }),
{
    let s = entered(ss).stack;
    lemma_innermost_past(s, inner);
    assert((s + inner).take(s.len() as int) =~= s);
    assert((s + inner)[s.len() - 1] == s[s.len() - 1]);
    assert(s.drop_last() =~= ss.stack);
    assert(breakable(s) == breakable(ss.stack)) by {
        if breakable(ss.stack) {
            let i = choose|i: int| 0 <= i < ss.stack.len() && #[trigger] ss.stack[i] is EnterBreakable;
            assert(s[i] == ss.stack[i]);
        }
        if breakable(s) {
            let i = choose|i: int| 0 <= i < s.len() && #[trigger] s[i] is EnterBreakable;
            assert(i < ss.stack.len());
            assert(ss.stack[i] == s[i]);
        }
    }
}

impl ScopeStack {
    pub fn new() -> (ss: Self)
        ensures
            ss@.stack == Seq::<OpV>::empty(),
            ss@.used_ids == Seq::<Seq<char>>::empty(),
            ss@.global_used_ids == Seq::<Seq<char>>::empty(),
            ss@.defined_types == Seq::<CustomV>::empty(),
            ss@.defined_functions == Seq::<FnV>::empty(),
    {
        let ss = ScopeStack {
            stack: Vec::new(),
            used_ids: Vec::new(),
            global_used_ids: Vec::new(),
            defined_types: Vec::new(),
            defined_functions: Vec::new(),
        };
        assert(ss@.stack =~= Seq::<OpV>::empty());
        assert(ss@.used_ids =~= Seq::<Seq<char>>::empty());
        assert(ss@.global_used_ids =~= Seq::<Seq<char>>::empty());
        assert(ss@.defined_types =~= Seq::<CustomV>::empty());
        assert(ss@.defined_functions =~= Seq::<FnV>::empty());
        ss
    }

    /// The names declared globally so far.
    pub(crate) fn global_ids(&self) -> (r: &Vec<String>)
        ensures
            texts(r@) == self@.global_used_ids,
    {
        &self.global_used_ids
    }

    /// The custom types declared so far.
    pub fn types(&self) -> (r: &Vec<CustomType>)
        ensures
            customs_view(r@) == self@.defined_types,
    {
        &self.defined_types
    }

    /// Starts a scope: the names in use so far are set aside.
    pub fn enter_scope(&mut self)
        ensures
            final(self)@ == entered(old(self)@),
    {
        let ids = self.used_ids.clone();
        assert(texts(ids@) =~= texts(self.used_ids@));
        self.stack.push(ScopeStackOp::EnterScope(ids));
        self.used_ids.clear();
        assert(self@.stack =~= old(self)@.stack.push(OpV::EnterScope(old(self)@.used_ids)));
        assert(self@.used_ids =~= Seq::<Seq<char>>::empty());
    }

    /// Ends the innermost scope: what was pushed after its start is dropped,
    /// and the names in use before it are restored.
    pub fn leave_scope(&mut self)
        requires
            innermost_scope(old(self)@.stack) >= 0,
        ensures
            final(self)@ == left(old(self)@),
    {
        let ghost k = innermost_scope(old(self)@.stack);
        proof {
            lemma_innermost_scope(old(self)@.stack);
            assert(old(self)@.stack.take(old(self)@.stack.len() as int) =~= old(self)@.stack);
        }
        let mut ptr: usize = self.stack.len() - 1;
        loop
            invariant
                ptr + 1 == self.stack.len(),
                ptr + 1 <= old(self)@.stack.len(),
                k == innermost_scope(old(self)@.stack),
                0 <= k <= ptr,
                self@.stack == old(self)@.stack.take(ptr + 1),
                innermost_scope(self@.stack) == k,
                self@.used_ids == old(self)@.used_ids,
                self@.global_used_ids == old(self)@.global_used_ids,
                self@.defined_types == old(self)@.defined_types,
                self@.defined_functions == old(self)@.defined_functions,
            decreases ptr,
        {
            if let ScopeStackOp::EnterScope(ids) = &self.stack[ptr] {
                let restored = ids.clone();
                assert(texts(restored@) =~= texts(ids@));
                assert(self@.stack[ptr as int] == op_view(self.stack@[ptr as int]));
                assert(self@.stack.last() == self@.stack[ptr as int]);
                assert(innermost_scope(self@.stack) == ptr);
                assert(old(self)@.stack[k] == self@.stack[k]);
                self.used_ids = restored;
                assert(self@.used_ids == old(self)@.stack[k]->EnterScope_0);
                assert(self@.stack == old(self)@.stack.take(k + 1));
                return;
            }
            let ghost before = self@.stack;
            assert(before.last() == before[ptr as int]);
            proof {
                lemma_innermost_scope(before);
            }
            self.stack.pop();
            assert(self@.stack =~= before.drop_last());
            assert(self@.stack =~= old(self)@.stack.take(ptr as int));
            ptr = ptr - 1;
        }
    }

    /// The type of the variable named `target_name` where it is read here.
    pub fn get_var_type_from_name(&self, target_name: String) -> (r: Option<ValueType>)
        ensures
            r is None <==> name_type(self@.stack, target_name@) is None,
            r matches Some(t) ==> name_type(self@.stack, target_name@) == Some(t@),
    {
        if target_name == String::from_str("void") {
            return Some(ValueType::Void);
        }
        let mut i: usize = self.stack.len();
        assert(self@.stack.take(i as int) =~= self@.stack);
        while i > 0
            invariant
                i <= self.stack.len(),
                target_name@ != "void"@,
                var_lookup(self@.stack, target_name@) == var_lookup(self@.stack.take(i as int), target_name@),
            decreases i,
        {
            let ghost s = self@.stack.take(i as int);
            assert(s.drop_last() =~= self@.stack.take(i - 1));
            assert(s.last() == self@.stack[i - 1]);
            if let ScopeStackOp::DeclrVar(var_name, var_type) = &self.stack[i - 1] {
                if *var_name == target_name {
                    return Some(var_type.clone());
                }
            }
            i = i - 1;
        }
        None
    }

    /// The first function declared with the name `target_name`.
    pub fn get_fn_from_name(&self, target_name: String) -> (r: Option<FnTemplate>)
        ensures
            r is None <==> fn_from(self@.defined_functions, target_name@, 0) is None,
            r matches Some(f) ==> fn_from(self@.defined_functions, target_name@, 0) == Some(f@),
    {
        let mut i: usize = 0;
        while i < self.defined_functions.len()
            invariant
                i <= self.defined_functions.len(),
                fn_from(self@.defined_functions, target_name@, 0) == fn_from(self@.defined_functions, target_name@, i as int),
            decreases self.defined_functions.len() - i,
        {
            if self.defined_functions[i].name == target_name {
                return Some(self.defined_functions[i].clone());
            }
            i = i + 1;
        }
        None
    }

    /// The return type of the innermost enclosing function body.
    pub fn get_nearest_ret_type(&self) -> (r: Option<ValueType>)
        ensures
            r is None <==> nearest_ret(self@.stack) is None,
            r matches Some(t) ==> nearest_ret(self@.stack) == Some(t@),
    {
        let mut i: usize = self.stack.len();
        assert(self@.stack.take(i as int) =~= self@.stack);
        while i > 0
            invariant
                i <= self.stack.len(),
                nearest_ret(self@.stack) == nearest_ret(self@.stack.take(i as int)),
            decreases i,
        {
            let ghost s = self@.stack.take(i as int);
            assert(s.drop_last() =~= self@.stack.take(i - 1));
            assert(s.last() == self@.stack[i - 1]);
            if let ScopeStackOp::EnterReturnable(ret_type) = &self.stack[i - 1] {
                return Some(ret_type.clone());
            }
            i = i - 1;
        }
        None
    }

    /// Whether the point analysed is inside a loop.
    pub fn check_if_breakable(&self) -> (b: bool)
        ensures
            b == breakable(self@.stack),
    {
        let mut i: usize = self.stack.len();
        while i > 0
            invariant
                i <= self.stack.len(),
                forall|j: int| i <= j < self@.stack.len() ==> !(#[trigger] self@.stack[j] is EnterBreakable),
            decreases i,
        {
            if let ScopeStackOp::EnterBreakable = &self.stack[i - 1] {
                assert(self@.stack[i - 1] is EnterBreakable);
                return true;
            }
            i = i - 1;
        }
        false
    }

    /// The first custom type named as `target` reads.
    pub fn get_custom_type_from_name(&self, target: Lexeme) -> (r: Result<CustomType, SemanticErr>)
        requires
            kind_has_data(target@.tok.kind),
        ensures
            r matches Ok(t) ==> crate::types::custom_from(self@.defined_types, target@.tok.text, 0) == Some(t@),
            r matches Err(e) ==> crate::types::custom_from(self@.defined_types, target@.tok.text, 0) is None
                && e@ == SemanticErrV::UnknownType(target@),
    {
        let target_name = target.data();
        let mut i: usize = 0;
        while i < self.defined_types.len()
            invariant
                i <= self.defined_types.len(),
                target_name@ == target@.tok.text,
                crate::types::custom_from(self@.defined_types, target_name@, 0) == crate::types::custom_from(
                    self@.defined_types,
                    target_name@,
                    i as int,
                ),
            decreases self.defined_types.len() - i,
        {
            assert(self@.defined_types[i as int] == self.defined_types@[i as int]@);
            if self.defined_types[i].name() == target_name {
                let t = self.defined_types[i].clone();
                assert(crate::types::custom_from(self@.defined_types, target_name@, i as int) == Some(t@));
                return Ok(t);
            }
            i = i + 1;
        }
        Err(SemanticErr::UnknownType(target))
    }

    /// Removes every struct from the declared types, keeping the enums in
    /// their order.
    pub fn remove_all_structs(&mut self)
        ensures
            final(self)@ == (ScopeV { defined_types: enums_only(old(self)@.defined_types), ..old(self)@ }),
    {
        let ghost d0 = old(self)@.defined_types;
        let mut ptr: usize = 0;
        let ghost mut k: int = 0;
        while ptr < self.defined_types.len()
            invariant
                0 <= ptr <= k <= d0.len(),
                ptr <= self.defined_types.len(),
                self@.defined_types.take(ptr as int) == enums_only(d0.take(k)),
                self@.defined_types.skip(ptr as int) == d0.skip(k),
                self@.stack == old(self)@.stack,
                self@.used_ids == old(self)@.used_ids,
                self@.global_used_ids == old(self)@.global_used_ids,
                self@.defined_functions == old(self)@.defined_functions,
            decreases self.defined_types.len() - ptr,
        {
            let ghost before = self@.defined_types;
            assert(before.skip(ptr as int).len() == d0.skip(k).len());
            assert(k < d0.len());
            assert(before[ptr as int] == d0[k]) by {
                assert(before.skip(ptr as int)[0] == d0.skip(k)[0]);
            }
            proof {
                lemma_enums_only_step(d0, k);
            }
            if let CustomType::CustomStruct(_) = &self.defined_types[ptr] {
                self.defined_types.remove(ptr);
                proof {
                    assert(self@.defined_types =~= before.remove(ptr as int));
                    assert(self@.defined_types.take(ptr as int) =~= before.take(ptr as int));
                    assert(before.skip(ptr + 1) =~= before.skip(ptr as int).drop_first());
                    assert(d0.skip(k + 1) =~= d0.skip(k).drop_first());
                    assert(self@.defined_types.skip(ptr as int) =~= before.skip(ptr + 1));
                    k = k + 1;
                }
                continue;
            }
            proof {
                assert(self@.defined_types.take(ptr + 1) =~= before.take(ptr as int).push(d0[k]));
                assert(before.skip(ptr + 1) =~= before.skip(ptr as int).drop_first());
                assert(d0.skip(k + 1) =~= d0.skip(k).drop_first());
                k = k + 1;
            }
            ptr = ptr + 1;
        }
        proof {
            assert(self@.defined_types.len() == ptr);
            assert(self@.defined_types.skip(ptr as int).len() == 0);
            assert(d0.skip(k).len() == 0);
            assert(d0.take(k) =~= d0);
            assert(self@.defined_types =~= self@.defined_types.take(ptr as int));
        }
    }

    /// Declares a variable in the current scope.
    pub fn declare_var(&mut self, name: String, t: ValueType)
        ensures
            final(self)@ == with_var(old(self)@, name@, t@),
    {
        self.used_ids.push(name.clone());
        self.stack.push(ScopeStackOp::DeclrVar(name, t));
        assert(self@.stack =~= old(self)@.stack.push(OpV::DeclrVar(name@, t@)));
        assert(self@.used_ids =~= old(self)@.used_ids.push(name@));
    }

    pub fn declare_custom_type(&mut self, t: CustomType)
        ensures
            final(self)@ == with_custom(old(self)@, t@),
    {
        self.global_used_ids.push(t.name());
        self.defined_types.push(t);
        assert(self@.global_used_ids =~= old(self)@.global_used_ids.push(t@.name()));
        assert(self@.defined_types =~= old(self)@.defined_types.push(t@));
    }

    pub fn declare_fn(&mut self, template: FnTemplate)
        ensures
            final(self)@ == with_fn(old(self)@, template@),
    {
        self.global_used_ids.push(template.name.clone());
        self.defined_functions.push(template);
        assert(self@.global_used_ids =~= old(self)@.global_used_ids.push(template@.name));
        assert(self@.defined_functions =~= old(self)@.defined_functions.push(template@));
    }

    /// Marks the start of a loop body.
    pub fn enter_breakable(&mut self)
        ensures
            final(self)@ == in_loop(old(self)@),
    {
        self.stack.push(ScopeStackOp::EnterBreakable);
        assert(self@.stack =~= old(self)@.stack.push(OpV::EnterBreakable));
    }

    /// Marks the start of a function body that returns `ret_type`.
    pub fn enter_returnable(&mut self, ret_type: ValueType)
        ensures
            final(self)@ == in_fn(old(self)@, ret_type@),
    {
        self.stack.push(ScopeStackOp::EnterReturnable(ret_type));
        assert(self@.stack =~= old(self)@.stack.push(OpV::EnterReturnable(ret_type@)));
    }

    /// The names in use in the current scope, then the global ones.
    pub fn all_used_ids(&self) -> (r: Vec<String>)
        ensures
            texts(r@) == self@.used_ids + self@.global_used_ids,
    {
        let mut temp: Vec<String> = Vec::new();
        let mut a = self.used_ids.clone();
        let mut b = self.global_used_ids.clone();
        assert(texts(a@) =~= texts(self.used_ids@));
        assert(texts(b@) =~= texts(self.global_used_ids@));
        temp.append(&mut a);
        temp.append(&mut b);
        assert(texts(temp@) =~= self@.used_ids + self@.global_used_ids);
        temp
    }
}


/// The recursion check of the struct `st`, entered at depth `it`: `Ok`
/// when no chain of struct fields from it reaches depth 100, else the name
/// of the struct reached at that depth; `None` where a field names a
/// struct that is not declared, or the depth would pass 255.
#[verifier::opaque]
pub open spec fn rec_check(st: StructV, defs: Seq<CustomV>, it: int) -> Option<Result<(), Seq<char>>>
    decreases 256 - it, 1nat, 0int,
{
    if it < 0 || it > 255 {
        None
    } else if it == 100 {
        Some(Err(st.name))
    } else {
        fields_check(st.fields, defs, it, 0)
    }
}

/// The recursion check of the fields from index `i` on, at depth `it`.
#[verifier::opaque]
pub open spec fn fields_check(fs: Seq<(Seq<char>, TypeV, u16)>, defs: Seq<CustomV>, it: int, i: int) -> Option<Result<(), Seq<char>>>
    decreases 256 - it, 0nat, fs.len() - i,
{
    if i < 0 || i >= fs.len() || it < 0 || it > 255 {
        Some(Ok(()))
    } else if fs[i].1 is CustomStruct {
        let child = struct_from(defs, fs[i].1->CustomStruct_0, 0);
        if child is None || it >= 255 {
            None
        } else {
            let r = rec_check(child->Some_0, defs, it + 1);
            if r is Some && r->Some_0 is Ok {
                fields_check(fs, defs, it, i + 1)
            } else {
                r
            }
        }
    } else {
        fields_check(fs, defs, it, i + 1)
    }
}

/// `rec_check` unfolded once.
pub proof fn unfold_rec_check(st: StructV, defs: Seq<CustomV>, it: int)
    ensures
        rec_check(st, defs, it) == ({
    if it < 0 || it > 255 {
        None
    } else if it == 100 {
        Some(Err(st.name))
    } else {
        fields_check(st.fields, defs, it, 0)
    }
        }),
{
    reveal(rec_check);
    reveal(fields_check);
}

/// `fields_check` unfolded once.
pub proof fn unfold_fields_check(fs: Seq<(Seq<char>, TypeV, u16)>, defs: Seq<CustomV>, it: int, i: int)
    ensures
        fields_check(fs, defs, it, i) == ({
    if i < 0 || i >= fs.len() || it < 0 || it > 255 {
        Some(Ok(()))
    } else if fs[i].1 is CustomStruct {
        let child = struct_from(defs, fs[i].1->CustomStruct_0, 0);
        if child is None || it >= 255 {
            None
        } else {
            let r = rec_check(child->Some_0, defs, it + 1);
            if r is Some && r->Some_0 is Ok {
                fields_check(fs, defs, it, i + 1)
            } else {
                r
            }
        }
    } else {
        fields_check(fs, defs, it, i + 1)
    }
        }),
{
    reveal(fields_check);
    reveal(rec_check);
}


impl StructTemplate {
    /// Refuses a struct that holds itself, directly or through other
    /// structs: a chain of struct fields that reaches depth 100, counted
    /// from `iteration`.
    pub fn check_recursive(&self, ss: &ScopeStack, iteration: u8) -> (r: Result<(), SemanticErr>)
        requires
            rec_check(self@, ss@.defined_types, iteration as int) is Some,
        ensures
            match rec_check(self@, ss@.defined_types, iteration as int) {
                Some(Ok(_)) => r is Ok,
                Some(Err(n)) => r matches Err(e) && e@ == SemanticErrV::RecursiveStruct(n),
                None => false,
            },
        decreases 256 - iteration, 1nat, 0int,
    {
        proof {
            unfold_rec_check(self@, ss@.defined_types, iteration as int);
        }
        if iteration == 100 {
            return Err(SemanticErr::RecursiveStruct(self.name.clone()));
        }
        let ghost fs = self@.fields;
        let ghost defs = ss@.defined_types;
        let mut i: usize = 0;
        while i < self.fields.len()
            invariant
                i <= self.fields.len(),
                fs == self@.fields,
                defs == ss@.defined_types,
                iteration != 100,
                rec_check(self@, defs, iteration as int) == fields_check(fs, defs, iteration as int, i as int),
                fields_check(fs, defs, iteration as int, i as int) is Some,
            decreases self.fields.len() - i,
        {
            proof {
                unfold_fields_check(fs, defs, iteration as int, i as int);
                assert(fs[i as int] == (self.fields@[i as int].0@, self.fields@[i as int].1@, self.fields@[i as int].2));
            }
            if let ValueType::CustomStruct(s) = &self.fields[i].1 {
                let child_struct = match get_custom_struct(s.clone(), ss.types()) {
                    Some(c) => c,
                    None => {
                        proof {
                            assert(false);
                        }
                        return Ok(());
                    },
                };
                match child_struct.check_recursive(ss, iteration + 1) {
                    Ok(()) => {},
                    Err(e) => {
                        return Err(e);
                    },
                }
            }
            i = i + 1;
        }
        proof {
            unfold_fields_check(fs, defs, iteration as int, i as int);
        }
        Ok(())
    }
}


/// Analyses a whole program: declares its enums, then its structs (which
/// must not hold themselves, and get their field offsets), then types each
/// statement in order. Gives the typed statements and the custom types
/// declared, or the first error.
pub fn generate_typed_ast(ast: Vec<Stmt>) -> (r: Result<(Vec<TypedStmt>, Vec<CustomType>), SemanticErr>)
    requires
        decls_ok(stmts_view(ast@)),
        stmts_ok(stmts_view(ast@)),
        type_program(stmts_view(ast@)) is Some,
    ensures
        match type_program(stmts_view(ast@)) {
            Some(Ok((ts, defs))) => r matches Ok(x) && tstmts_view(x.0@) == ts && customs_view(x.1@) == defs,
            Some(Err(e)) => r matches Err(x) && x@ == e,
            None => false,
        },
{
    let ghost xs = stmts_view(ast@);
    let mut ss = ScopeStack::new();
    assert(ss@ == empty_scope());
    match declare_enums(&mut ss, &ast) {
        Ok(()) => {},
        Err(e) => {
            return Err(e);
        },
    }
    let being_defined = match struct_names(&ss, &ast) {
        Ok(b) => b,
        Err(e) => {
            return Err(e);
        },
    };
    let struct_templates = match declare_templates(&mut ss, &ast, &being_defined) {
        Ok(t) => t,
        Err(e) => {
            return Err(e);
        },
    };
    match check_all(&ss, &struct_templates) {
        Ok(()) => {},
        Err(e) => {
            return Err(e);
        },
    }
    let final_struct_templates = place_all(&struct_templates, &ss.defined_types);
    ss.remove_all_structs();
    let ghost base = ss@;
    let ghost fv = structs_view(final_struct_templates@);
    let mut i: usize = 0;
    assert(fv.take(0) =~= Seq::<StructV>::empty());
    while i < final_struct_templates.len()
        invariant
            i <= final_struct_templates.len(),
            fv == structs_view(final_struct_templates@),
            fv.len() == final_struct_templates.len(),
            ss@ == declare_all(base, fv.take(i as int)),
        decreases final_struct_templates.len() - i,
    {
        proof {
            assert(fv.take(i + 1).drop_last() =~= fv.take(i as int));
            assert(fv.take(i + 1).last() == fv[i as int]);
        }
        ss.declare_custom_type(CustomType::CustomStruct(final_struct_templates[i].clone()));
        i = i + 1;
    }
    assert(fv.take(i as int) =~= fv);
    let typed_ast = match generate_typed_block(&ast, &mut ss) {
        Ok(t) => t,
        Err(e) => {
            return Err(e);
        },
    };
    Ok((typed_ast, ss.defined_types))
}

} // verus!
