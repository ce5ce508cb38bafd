use vstd::prelude::*;

use crate::token::LexemeView;
use crate::stmt::{Parameters, TypeDeclrV};
use crate::types::{
    ValueType, CustomV, TypeV, texts_contain, declr_has_text, declr_type, declr_type_new, texts, type_view,
};
use crate::typed_ast::TypedParameters;
use crate::semantics::{
    FnTemplate, ScopeStack, ScopeV, FnV, innermost_scope, left, entered, with_var, with_fn, in_loop, in_fn, breakable,
    nearest_ret,
};
use crate::semantics::expr_semantics::{type_expr, expr_ok, good, value};
use crate::stmt::{Stmt, StmtV, stmts_view, stmt_view, unfold_stmt_view, lemma_stmts_view_index};
use crate::typed_ast::{
    TypedStmt, TStmtV, texpr_type, tstmts_view, unfold_tstmt_view, lemma_tstmts_view_push, lemma_tstmts_view_empty,
};
use crate::semantics::semantic_err::{SemanticErr, SemanticErrV};
use crate::semantics::expr_semantics::has_text;

verus! {

/// Every parameter name and type name carries its text.
pub open spec fn params_ok(ps: Seq<(LexemeView, TypeDeclrV)>) -> bool {
    forall|i: int| 0 <= i < ps.len() ==> has_text(#[trigger] ps[i].0) && declr_has_text(ps[i].1)
}

/// The names of typed parameters.
pub open spec fn param_names(ps: Seq<(Seq<char>, TypeV)>) -> Seq<Seq<char>> {
    ps.map_values(|p: (Seq<char>, TypeV)| p.0)
}

/// The typed parameters, in order: no name may occur twice, and each type
/// must be known, or, with `being` given, be one of the structs being
/// declared.
pub open spec fn type_params(
    ps: Seq<(LexemeView, TypeDeclrV)>,
    defs: Seq<CustomV>,
    being: Option<Seq<Seq<char>>>,
) -> Result<Seq<(Seq<char>, TypeV)>, SemanticErrV>
    decreases ps.len(),
{
    if ps.len() == 0 {
        Ok(Seq::<(Seq<char>, TypeV)>::empty())
    } else {
        let a = type_params(ps.drop_last(), defs, being);
        if a is Err {
            a
        } else if param_names(a->Ok_0).contains(ps.last().0.tok.text) {
            Err(SemanticErrV::DuplicateParams(ps.last().0))
        } else {
            let t = if being is Some {
                declr_type_new(ps.last().1, defs, being->Some_0)
            } else {
                declr_type(ps.last().1, defs)
            };
            if t is Err {
                Err(t->Err_0)
            } else {
                Ok(a->Ok_0.push((ps.last().0.tok.text, t->Ok_0)))
            }
        }
    }
}

proof fn lemma_type_params_fail(
    ps: Seq<(LexemeView, TypeDeclrV)>,
    defs: Seq<CustomV>,
    being: Option<Seq<Seq<char>>>,
    k: int,
)
    requires
        0 <= k <= ps.len(),
        type_params(ps.take(k), defs, being) is Err,
    ensures
        type_params(ps, defs, being) == type_params(ps.take(k), defs, being),
    decreases ps.len() - k,
{
    if k == ps.len() {
        assert(ps.take(k) =~= ps);
    } else {
        assert(ps.take(k + 1).drop_last() =~= ps.take(k));
        lemma_type_params_fail(ps, defs, being, k + 1);
    }
}

/// All names in use where the analysis stands: those of the current scope,
/// then the global ones.
pub open spec fn all_ids(ss: ScopeV) -> Seq<Seq<char>> {
    ss.used_ids + ss.global_used_ids
}

/// The scope stack after each typed parameter is declared as a variable.
pub open spec fn with_params(ss: ScopeV, ps: Seq<(Seq<char>, TypeV)>) -> ScopeV
    decreases ps.len(),
{
    if ps.len() == 0 {
        ss
    } else {
        let s1 = with_params(ss, ps.drop_last());
        with_var(s1, ps.last().0, ps.last().1)
    }
}

/// The signature of a function with the given typed parameters.
pub open spec fn signature(name: Seq<char>, ps: Seq<(Seq<char>, TypeV)>, ret: TypeV) -> FnV {
    FnV { name, parameters: ps.map_values(|p: (Seq<char>, TypeV)| p.1), ret_type: ret }
}

/// An outcome of typing that stops the statement: its error, the scope stack
/// unchanged, or `None` where the typing of an expression would stop.
pub open spec fn stop<A>(ss: ScopeV, r: Option<Result<A, SemanticErrV>>) -> Option<(ScopeV, Result<TStmtV, SemanticErrV>)> {
    if r is Some && r->Some_0 is Err {
        Some((ss, Err(r->Some_0->Err_0)))
    } else {
        None
    }
}

/// The end of a loop or function body: the scope that holds it is left;
/// `None` where there is no scope to leave.
pub open spec fn close(r: Option<(ScopeV, Result<TStmtV, SemanticErrV>)>, wrap: spec_fn(TStmtV) -> TStmtV) -> Option<
    (ScopeV, Result<TStmtV, SemanticErrV>),
> {
    if r is None {
        None
    } else if r->Some_0.1 is Err {
        r
    } else if innermost_scope(r->Some_0.0.stack) < 0 {
        None
    } else {
        Some((left(r->Some_0.0), Ok(wrap(r->Some_0.1->Ok_0))))
    }
}

/// The typing of a statement: the scope stack after it and its typed form,
/// or the error found with the scope stack at that point; `None` where the
/// analysis would stop.
///
/// The rules, statement by statement:
/// - an expression statement is its typed expression;
/// - a block types its statements in order, each in the scope stack the one
///   before left;
/// - a variable declaration needs a name not yet in use and a known type,
///   and a value, where it has one, of exactly that type; the variable is
///   then in scope;
/// - the body of `loop` and of `while` is typed in a new scope inside a
///   loop, which is left after it; the condition of `while` and of `if` is
///   typed first, and any type is accepted for it;
/// - `if` types its first branch and then its second in the scope stack the
///   first left, with no scope of their own;
/// - `break` needs an enclosing loop;
/// - `return` needs an enclosing function and a value of exactly its return
///   type;
/// - a function declaration needs a name not yet in use and known parameter
///   and return types; the function is declared, and its body is typed in a
///   new scope that holds the parameters and the return type, left after
///   it;
/// - a declaration of a struct or an enum is typed to a marker (these are
///   declared before the statements are typed).
#[verifier::opaque]
pub open spec fn type_stmt(s: StmtV, ss: ScopeV) -> Option<(ScopeV, Result<TStmtV, SemanticErrV>)>
    decreases s,
{
    match s {
        StmtV::ExprStmt(e) => {
            let r = type_expr(e, ss);
            if !good(r) {
                stop(ss, r)
            } else {
                Some((ss, Ok(TStmtV::ExprStmt(value(r)))))
            }
        },
        StmtV::Block(b) => {
            let r = type_stmts(b, ss);
            if r is None {
                None
            } else if r->Some_0.1 is Err {
                Some((r->Some_0.0, Err(r->Some_0.1->Err_0)))
            } else {
                Some((r->Some_0.0, Ok(TStmtV::Block(r->Some_0.1->Ok_0))))
            }
        },
        StmtV::VarDeclr(n, d, v) => {
            let t = declr_type(d, ss.defined_types);
            if all_ids(ss).contains(n.tok.text) {
                Some((ss, Err(SemanticErrV::UsedId(n))))
            } else if t is Err {
                Some((ss, Err(t->Err_0)))
            } else if v is Some {
                let r = type_expr(v->Some_0, ss);
                if !good(r) {
                    stop(ss, r)
                } else if texpr_type(value(r)) != t->Ok_0 {
                    Some((ss, Err(SemanticErrV::WrongType(t->Ok_0, texpr_type(value(r)), n))))
                } else {
                    Some((with_var(ss, n.tok.text, t->Ok_0), Ok(TStmtV::VarDeclr(n.tok.text, t->Ok_0, Some(value(r))))))
                }
            } else {
                Some((with_var(ss, n.tok.text, t->Ok_0), Ok(TStmtV::VarDeclr(n.tok.text, t->Ok_0, None))))
            }
        },
        StmtV::LoopStmt(b) => close(type_stmt(*b, in_loop(entered(ss))), |x: TStmtV| TStmtV::LoopStmt(Box::new(x))),
        StmtV::WhileStmt(c, b) => {
            let rc = type_expr(c, ss);
            if !good(rc) {
                stop(ss, rc)
            } else {
                close(
                    type_stmt(*b, in_loop(entered(ss))),
                    |x: TStmtV| TStmtV::WhileStmt(value(rc), Box::new(x)),
                )
            }
        },
        StmtV::IfStmt(c, t, f) => {
            let rc = type_expr(c, ss);
            if !good(rc) {
                stop(ss, rc)
            } else {
                let rt = type_stmt(*t, ss);
                if rt is None || rt->Some_0.1 is Err {
                    rt
                } else if f is None {
                    Some((rt->Some_0.0, Ok(TStmtV::IfStmt(value(rc), Box::new(rt->Some_0.1->Ok_0), None))))
                } else {
                    let rf = type_stmt(*f->Some_0, rt->Some_0.0);
                    if rf is None || rf->Some_0.1 is Err {
                        rf
                    } else {
                        Some(
                            (
                                rf->Some_0.0,
                                Ok(
                                    TStmtV::IfStmt(
                                        value(rc),
                                        Box::new(rt->Some_0.1->Ok_0),
                                        Some(Box::new(rf->Some_0.1->Ok_0)),
                                    ),
                                ),
                            ),
                        )
                    }
                }
            }
        },
        StmtV::BreakStmt(l) => if breakable(ss.stack) {
            Some((ss, Ok(TStmtV::BreakStmt)))
        } else {
            Some((ss, Err(SemanticErrV::CantBreak(l))))
        },
        StmtV::ReturnStmt(k, e) => {
            let ret = nearest_ret(ss.stack);
            if ret is None {
                Some((ss, Err(SemanticErrV::CantReturn(k))))
            } else {
                let r = type_expr(e, ss);
                if !good(r) {
                    stop(ss, r)
                } else if texpr_type(value(r)) != ret->Some_0 {
                    Some((ss, Err(SemanticErrV::WrongType(ret->Some_0, texpr_type(value(r)), k))))
                } else {
                    Some((ss, Ok(TStmtV::ReturnStmt(value(r)))))
                }
            }
        },
        StmtV::FnDeclr(n, ps, rd, body) => {
            let tp = type_params(ps, ss.defined_types, None);
            let rt = declr_type(rd, ss.defined_types);
            if all_ids(ss).contains(n.tok.text) {
                Some((ss, Err(SemanticErrV::UsedId(n))))
            } else if tp is Err {
                Some((ss, Err(tp->Err_0)))
            } else if rt is Err {
                Some((ss, Err(rt->Err_0)))
            } else {
                let f = signature(n.tok.text, tp->Ok_0, rt->Ok_0);
                close(
                    type_stmt(*body, with_params(in_fn(entered(with_fn(ss, f)), rt->Ok_0), tp->Ok_0)),
                    |x: TStmtV| TStmtV::FnDeclr(f, Box::new(x)),
                )
            }
        },
        _ => Some((ss, Ok(TStmtV::CustomTypeDeclr))),
    }
}

/// The typing of statements in order, each in the scope stack the one
/// before left.
#[verifier::opaque]
pub open spec fn type_stmts(s: Seq<StmtV>, ss: ScopeV) -> Option<(ScopeV, Result<Seq<TStmtV>, SemanticErrV>)>
    decreases s,
{
    if s.len() == 0 {
        Some((ss, Ok(Seq::<TStmtV>::empty())))
    } else {
        let a = type_stmts(s.drop_last(), ss);
        if a is None || a->Some_0.1 is Err {
            a
        } else {
            let r = type_stmt(s.last(), a->Some_0.0);
            if r is None {
                None
            } else if r->Some_0.1 is Err {
                Some((r->Some_0.0, Err(r->Some_0.1->Err_0)))
            } else {
                Some((r->Some_0.0, Ok(a->Some_0.1->Ok_0.push(r->Some_0.1->Ok_0))))
            }
        }
    }
}

/// Every lexeme whose text the typing of the statement reads carries text.
#[verifier::opaque]
pub open spec fn stmt_ok(s: StmtV) -> bool
    decreases s,
{
    match s {
        StmtV::ExprStmt(e) => expr_ok(e),
        StmtV::Block(b) => stmts_ok(b),
        StmtV::VarDeclr(n, d, v) => has_text(n) && declr_has_text(d) && (v is Some ==> expr_ok(v->Some_0)),
        StmtV::LoopStmt(b) => stmt_ok(*b),
        StmtV::WhileStmt(c, b) => expr_ok(c) && stmt_ok(*b),
        StmtV::IfStmt(c, t, f) => expr_ok(c) && stmt_ok(*t) && (f is Some ==> stmt_ok(*f->Some_0)),
        StmtV::ReturnStmt(_, e) => expr_ok(e),
        StmtV::FnDeclr(n, ps, rd, body) => has_text(n) && params_ok(ps) && declr_has_text(rd) && stmt_ok(*body),
        _ => true,
    }
}

#[verifier::opaque]
pub open spec fn stmts_ok(s: Seq<StmtV>) -> bool
    decreases s,
{
    if s.len() == 0 {
        true
    } else {
        stmts_ok(s.drop_last()) && stmt_ok(s.last())
    }
}

/// `type_stmt` unfolded once.
pub proof fn unfold_type_stmt(s: StmtV, ss: ScopeV)
    ensures
        type_stmt(s, ss) == ({
    match s {
        StmtV::ExprStmt(e) => {
            let r = type_expr(e, ss);
            if !good(r) {
                stop(ss, r)
            } else {
                Some((ss, Ok(TStmtV::ExprStmt(value(r)))))
            }
        },
        StmtV::Block(b) => {
            let r = type_stmts(b, ss);
            if r is None {
                None
            } else if r->Some_0.1 is Err {
                Some((r->Some_0.0, Err(r->Some_0.1->Err_0)))
            } else {
                Some((r->Some_0.0, Ok(TStmtV::Block(r->Some_0.1->Ok_0))))
            }
        },
        StmtV::VarDeclr(n, d, v) => {
            let t = declr_type(d, ss.defined_types);
            if all_ids(ss).contains(n.tok.text) {
                Some((ss, Err(SemanticErrV::UsedId(n))))
            } else if t is Err {
                Some((ss, Err(t->Err_0)))
            } else if v is Some {
                let r = type_expr(v->Some_0, ss);
                if !good(r) {
                    stop(ss, r)
                } else if texpr_type(value(r)) != t->Ok_0 {
                    Some((ss, Err(SemanticErrV::WrongType(t->Ok_0, texpr_type(value(r)), n))))
                } else {
                    Some((with_var(ss, n.tok.text, t->Ok_0), Ok(TStmtV::VarDeclr(n.tok.text, t->Ok_0, Some(value(r))))))
                }
            } else {
                Some((with_var(ss, n.tok.text, t->Ok_0), Ok(TStmtV::VarDeclr(n.tok.text, t->Ok_0, None))))
            }
        },
        StmtV::LoopStmt(b) => close(type_stmt(*b, in_loop(entered(ss))), |x: TStmtV| TStmtV::LoopStmt(Box::new(x))),
        StmtV::WhileStmt(c, b) => {
            let rc = type_expr(c, ss);
            if !good(rc) {
                stop(ss, rc)
            } else {
                close(
                    type_stmt(*b, in_loop(entered(ss))),
                    |x: TStmtV| TStmtV::WhileStmt(value(rc), Box::new(x)),
                )
            }
        },
        StmtV::IfStmt(c, t, f) => {
            let rc = type_expr(c, ss);
            if !good(rc) {
                stop(ss, rc)
            } else {
                let rt = type_stmt(*t, ss);
                if rt is None || rt->Some_0.1 is Err {
                    rt
                } else if f is None {
                    Some((rt->Some_0.0, Ok(TStmtV::IfStmt(value(rc), Box::new(rt->Some_0.1->Ok_0), None))))
                } else {
                    let rf = type_stmt(*f->Some_0, rt->Some_0.0);
                    if rf is None || rf->Some_0.1 is Err {
                        rf
                    } else {
                        Some(
                            (
                                rf->Some_0.0,
                                Ok(
                                    TStmtV::IfStmt(
                                        value(rc),
                                        Box::new(rt->Some_0.1->Ok_0),
                                        Some(Box::new(rf->Some_0.1->Ok_0)),
                                    ),
                                ),
                            ),
                        )
                    }
                }
            }
        },
        StmtV::BreakStmt(l) => if breakable(ss.stack) {
            Some((ss, Ok(TStmtV::BreakStmt)))
        } else {
            Some((ss, Err(SemanticErrV::CantBreak(l))))
        },
        StmtV::ReturnStmt(k, e) => {
            let ret = nearest_ret(ss.stack);
            if ret is None {
                Some((ss, Err(SemanticErrV::CantReturn(k))))
            } else {
                let r = type_expr(e, ss);
                if !good(r) {
                    stop(ss, r)
                } else if texpr_type(value(r)) != ret->Some_0 {
                    Some((ss, Err(SemanticErrV::WrongType(ret->Some_0, texpr_type(value(r)), k))))
                } else {
                    Some((ss, Ok(TStmtV::ReturnStmt(value(r)))))
                }
            }
        },
        StmtV::FnDeclr(n, ps, rd, body) => {
            let tp = type_params(ps, ss.defined_types, None);
            let rt = declr_type(rd, ss.defined_types);
            if all_ids(ss).contains(n.tok.text) {
                Some((ss, Err(SemanticErrV::UsedId(n))))
            } else if tp is Err {
                Some((ss, Err(tp->Err_0)))
            } else if rt is Err {
                Some((ss, Err(rt->Err_0)))
            } else {
                let f = signature(n.tok.text, tp->Ok_0, rt->Ok_0);
                close(
                    type_stmt(*body, with_params(in_fn(entered(with_fn(ss, f)), rt->Ok_0), tp->Ok_0)),
                    |x: TStmtV| TStmtV::FnDeclr(f, Box::new(x)),
                )
            }
        },
        _ => Some((ss, Ok(TStmtV::CustomTypeDeclr))),
    }
        }),
{
    reveal(type_stmt);
    reveal(type_stmts);
}

/// `type_stmts` unfolded once.
pub proof fn unfold_type_stmts(s: Seq<StmtV>, ss: ScopeV)
    ensures
        type_stmts(s, ss) == ({
    if s.len() == 0 {
        Some((ss, Ok(Seq::<TStmtV>::empty())))
    } else {
        let a = type_stmts(s.drop_last(), ss);
        if a is None || a->Some_0.1 is Err {
            a
        } else {
            let r = type_stmt(s.last(), a->Some_0.0);
            if r is None {
                None
            } else if r->Some_0.1 is Err {
                Some((r->Some_0.0, Err(r->Some_0.1->Err_0)))
            } else {
                Some((r->Some_0.0, Ok(a->Some_0.1->Ok_0.push(r->Some_0.1->Ok_0))))
            }
        }
    }
        }),
{
    reveal(type_stmts);
    reveal(type_stmt);
}

/// `stmt_ok` unfolded once.
pub proof fn unfold_stmt_ok(s: StmtV)
    ensures
        stmt_ok(s) == ({
    match s {
        StmtV::ExprStmt(e) => expr_ok(e),
        StmtV::Block(b) => stmts_ok(b),
        StmtV::VarDeclr(n, d, v) => has_text(n) && declr_has_text(d) && (v is Some ==> expr_ok(v->Some_0)),
        StmtV::LoopStmt(b) => stmt_ok(*b),
        StmtV::WhileStmt(c, b) => expr_ok(c) && stmt_ok(*b),
        StmtV::IfStmt(c, t, f) => expr_ok(c) && stmt_ok(*t) && (f is Some ==> stmt_ok(*f->Some_0)),
        StmtV::ReturnStmt(_, e) => expr_ok(e),
        StmtV::FnDeclr(n, ps, rd, body) => has_text(n) && params_ok(ps) && declr_has_text(rd) && stmt_ok(*body),
        _ => true,
    }
        }),
{
    reveal(stmt_ok);
    reveal(stmts_ok);
}

/// `stmts_ok` unfolded once.
pub proof fn unfold_stmts_ok(s: Seq<StmtV>)
    ensures
        stmts_ok(s) == ({
    if s.len() == 0 {
        true
    } else {
        stmts_ok(s.drop_last()) && stmt_ok(s.last())
    }
        }),
{
    reveal(stmts_ok);
    reveal(stmt_ok);
}


/// Whether a parameter named `name` is among `items`.
fn names_contain(items: &Vec<(String, ValueType)>, name: &String) -> (b: bool)
    ensures
        b == param_names(items@.map_values(|p: (String, ValueType)| (p.0@, type_view(p.1)))).contains(name@),
{
    let ghost v = items@.map_values(|p: (String, ValueType)| (p.0@, type_view(p.1)));
    let mut i: usize = 0;
    while i < items.len()
        invariant
            i <= items.len(),
            v == items@.map_values(|p: (String, ValueType)| (p.0@, type_view(p.1))),
            forall|j: int| 0 <= j < i ==> param_names(v)[j] != name@,
        decreases items.len() - i,
    {
        if items[i].0 == *name {
            assert(param_names(v)[i as int] == name@);
            return true;
        }
        i = i + 1;
    }
    false
}

impl Parameters {
    /// The typed parameters: with `being_defined` given, a type may also be
    /// one of the structs named there.
    pub fn generate_typed_params(&self, ss: &ScopeStack, being_defined: Option<&Vec<String>>) -> (r: Result<
        TypedParameters,
        SemanticErr,
    >)
        requires
            params_ok(self@),
        ensures
            match type_params(
                self@,
                ss@.defined_types,
                match being_defined {
                    Some(b) => Some(texts(b@)),
                    None => None,
                },
            ) {
                Ok(v) => r matches Ok(x) && x@ == v,
                Err(e) => r matches Err(x) && x@ == e,
            },
    {
        let ghost ps = self@;
        let ghost defs = ss@.defined_types;
        let ghost being = match being_defined {
            Some(b) => Some(texts(b@)),
            None => None,
        };
        let mut items: Vec<(String, ValueType)> = Vec::new();
        let mut i: usize = 0;
        proof {
            assert(ps.take(0) =~= Seq::<(LexemeView, TypeDeclrV)>::empty());
            assert(items@.map_values(|p: (String, ValueType)| (p.0@, type_view(p.1))) =~= Seq::<
                (Seq<char>, TypeV),
            >::empty());
        }
        while i < self.params.len()
            invariant
                i <= self.params.len(),
                ps == self@,
                ps.len() == self.params.len(),
                defs == ss@.defined_types,
                being == match being_defined {
                    Some(b) => Some(texts(b@)),
                    None => None,
                },
                params_ok(ps),
                type_params(ps.take(i as int), defs, being) is Ok,
                items@.map_values(|p: (String, ValueType)| (p.0@, type_view(p.1))) == type_params(
                    ps.take(i as int),
                    defs,
                    being,
                )->Ok_0,
            decreases self.params.len() - i,
        {
            let ghost prev = items@;
            proof {
                assert(ps.take(i + 1).drop_last() =~= ps.take(i as int));
                assert(ps.take(i + 1).last() == ps[i as int]);
                assert(ps[i as int] == (self.params@[i as int].0@, self.params@[i as int].1@));
                assert(has_text(ps[i as int].0) && declr_has_text(ps[i as int].1));
            }
            let name = self.params[i].0.data();
            if names_contain(&items, &name) {
                proof {
                    lemma_type_params_fail(ps, defs, being, i + 1);
                }
                return Err(SemanticErr::DuplicateParams(self.params[i].0.clone()));
            }
            let t = match being_defined {
                Some(b) => ValueType::from_declr_new_struct(&self.params[i].1, ss.types(), b),
                None => ValueType::from_declr(&self.params[i].1, ss.types()),
            };
            let t = match t {
                Ok(t) => t,
                Err(e) => {
                    proof {
                        lemma_type_params_fail(ps, defs, being, i + 1);
                    }
                    return Err(e);
                },
            };
            items.push((name, t));
            proof {
                assert(items@.map_values(|p: (String, ValueType)| (p.0@, type_view(p.1))) =~= prev.map_values(
                    |p: (String, ValueType)| (p.0@, type_view(p.1)),
                ).push((ps[i as int].0.tok.text, t@)));
            }
            i = i + 1;
        }
        proof {
            assert(ps.take(i as int) =~= ps);
        }
        Ok(TypedParameters { items })
    }
}


/// `r`, with the scope stack left as `after`, is what the outcome `s` says.
pub open spec fn stmt_typed_as(r: Result<TypedStmt, SemanticErr>, after: ScopeV, s: Option<(ScopeV, Result<TStmtV, SemanticErrV>)>) -> bool {
    match s {
        Some((s2, Ok(t))) => after == s2 && (r matches Ok(x) && x@ == t),
        Some((s2, Err(e))) => after == s2 && (r matches Err(x) && x@ == e),
        None => false,
    }
}

proof fn lemma_type_stmts_stop(s: Seq<StmtV>, ss: ScopeV, k: int)
    requires
        0 <= k <= s.len(),
        type_stmts(s.take(k), ss) is None || type_stmts(s.take(k), ss)->Some_0.1 is Err,
    ensures
        type_stmts(s, ss) == type_stmts(s.take(k), ss),
    decreases s.len() - k,
{
    if k == s.len() {
        assert(s.take(k) =~= s);
    } else {
        unfold_type_stmts(s.take(k + 1), ss);
        assert(s.take(k + 1).drop_last() =~= s.take(k));
        lemma_type_stmts_stop(s, ss, k + 1);
    }
}

proof fn lemma_stmts_ok_index(s: Seq<StmtV>)
    requires
        stmts_ok(s),
    ensures
        forall|i: int| 0 <= i < s.len() ==> stmt_ok(#[trigger] s[i]),
    decreases s.len(),
{
    unfold_stmts_ok(s);
    if s.len() > 0 {
        lemma_stmts_ok_index(s.drop_last());
        assert forall|i: int| 0 <= i < s.len() implies stmt_ok(#[trigger] s[i]) by {
            if i < s.len() - 1 {
                assert(s.drop_last()[i] == s[i]);
            }
        }
    }
}

/// The signature of a function named `name` with the typed parameters `tp`
/// that returns `rt`.
fn signature_of(name: String, tp: &TypedParameters, rt: &ValueType) -> (f: FnTemplate)
    ensures
        f@ == signature(name@, tp@, rt@),
{
    let ghost tpv = tp@;
    let mut parameters: Vec<ValueType> = Vec::new();
    let mut i: usize = 0;
    while i < tp.items.len()
        invariant
            i <= tp.items.len(),
            tpv == tp@,
            tpv.len() == tp.items.len(),
            parameters.len() == i,
            forall|j: int| 0 <= j < i ==> #[trigger] parameters@[j]@ == tpv[j].1,
        decreases tp.items.len() - i,
    {
        let t = tp.items[i].1.clone();
        parameters.push(t);
        i = i + 1;
    }
    let f = FnTemplate { name, parameters, ret_type: rt.clone() };
    assert(f@.parameters.len() == tpv.len());
    assert forall|j: int| 0 <= j < tpv.len() implies #[trigger] f@.parameters[j] == tpv.map_values(
        |p: (Seq<char>, TypeV)| p.1,
    )[j] by {
        assert(f@.parameters[j] == type_view(f.parameters@[j]));
        assert(f.parameters@[j]@ == tpv[j].1);
    }
    assert(f@.parameters =~= tpv.map_values(|p: (Seq<char>, TypeV)| p.1));
    f
}

/// Declares each typed parameter as a variable, in order.
fn declare_params(ss: &mut ScopeStack, tp: &TypedParameters)
    ensures
        final(ss)@ == with_params(old(ss)@, tp@),
{
    let ghost tpv = tp@;
    let ghost base = ss@;
    let mut k: usize = 0;
    assert(tpv.take(0) =~= Seq::<(Seq<char>, TypeV)>::empty());
    while k < tp.items.len()
        invariant
            k <= tp.items.len(),
            tpv == tp@,
            tpv.len() == tp.items.len(),
            base == old(ss)@,
            ss@ == with_params(base, tpv.take(k as int)),
        decreases tp.items.len() - k,
    {
        proof {
            assert(tpv.take(k + 1).drop_last() =~= tpv.take(k as int));
            assert(tpv.take(k + 1).last() == tpv[k as int]);
            assert(tpv[k as int] == (tp.items@[k as int].0@, tp.items@[k as int].1@));
        }
        let n = tp.items[k].0.clone();
        let t = tp.items[k].1.clone();
        ss.declare_var(n, t);
        k = k + 1;
    }
    assert(tpv.take(k as int) =~= tpv);
}

/// Types the statements of a block in order, each in the scope stack the one
/// before left.
pub(crate) fn generate_typed_block(body: &Vec<Stmt>, ss: &mut ScopeStack) -> (r: Result<Vec<TypedStmt>, SemanticErr>)
    requires
        stmts_ok(stmts_view(body@)),
        type_stmts(stmts_view(body@), old(ss)@) is Some,
    ensures
        match type_stmts(stmts_view(body@), old(ss)@) {
            Some((s2, Ok(t))) => final(ss)@ == s2 && (r matches Ok(x) && tstmts_view(x@) == t),
            Some((s2, Err(e))) => final(ss)@ == s2 && (r matches Err(x) && x@ == e),
            None => false,
        },
    decreases stmts_view(body@),
{
    let ghost s = stmts_view(body@);
    let ghost ss0 = ss@;
    proof {
        lemma_stmts_view_index(body@);
        lemma_stmts_ok_index(s);
        lemma_tstmts_view_empty();
        unfold_type_stmts(s.take(0), ss0);
        assert(s.take(0) =~= Seq::<StmtV>::empty());
    }
    let mut typed_body: Vec<TypedStmt> = Vec::new();
    let mut i: usize = 0;
    while i < body.len()
        invariant
            i <= body.len(),
            s == stmts_view(body@),
            ss0 == old(ss)@,
            s.len() == body.len(),
            forall|j: int| 0 <= j < s.len() ==> #[trigger] s[j] == stmt_view(body@[j]),
            forall|j: int| 0 <= j < s.len() ==> stmt_ok(#[trigger] s[j]),
            type_stmts(s, ss0) is Some,
            type_stmts(s.take(i as int), ss0) == Some((ss@, Ok::<Seq<TStmtV>, SemanticErrV>(tstmts_view(typed_body@)))),
        decreases body.len() - i,
    {
        proof {
            unfold_type_stmts(s.take(i + 1), ss0);
            assert(s.take(i + 1).drop_last() =~= s.take(i as int));
            assert(s.take(i + 1).last() == s[i as int]);
            if type_stmt(s[i as int], ss@) is None {
                lemma_type_stmts_stop(s, ss0, i + 1);
            }
        }
        let t = match body[i].generate_typed_stmt(ss) {
            Ok(t) => t,
            Err(err) => {
                proof {
                    lemma_type_stmts_stop(s, ss0, i + 1);
                }
                return Err(err);
            },
        };
        let ghost old_body = typed_body@;
        let ghost tg = t;
        typed_body.push(t);
        proof {
            lemma_tstmts_view_push(old_body, tg);
            assert(typed_body@ == old_body.push(tg));
        }
        i = i + 1;
    }
    proof {
        assert(s.take(i as int) =~= s);
    }
    Ok(typed_body)
}

impl Stmt {
    /// Types the statement in the scope stack `ss`, declaring in it what the
    /// statement declares: variables in the current scope, functions
    /// globally; loop and function bodies get a scope of their own.
    pub fn generate_typed_stmt(&self, ss: &mut ScopeStack) -> (r: Result<TypedStmt, SemanticErr>)
        requires
            stmt_ok(self@),
            type_stmt(self@, old(ss)@) is Some,
        ensures
            stmt_typed_as(r, final(ss)@, type_stmt(self@, old(ss)@)),
        decreases self@,
    {
        proof {
            unfold_stmt_view(*self);
            unfold_type_stmt(self@, ss@);
            unfold_stmt_ok(self@);
        }
        match self {
            Stmt::ExprStmt(e) => {
                let te = match e.generate_typed_expr(ss) {
                    Ok(t) => t,
                    Err(err) => {
                        return Err(err);
                    },
                };
                let r = TypedStmt::ExprStmt(te);
                proof {
                    unfold_tstmt_view(r);
                }
                Ok(r)
            },
            Stmt::Block(body) => {
                let typed_body = match generate_typed_block(body, ss) {
                    Ok(t) => t,
                    Err(e) => {
                        return Err(e);
                    },
                };
                let r = TypedStmt::Block(typed_body);
                proof {
                    unfold_tstmt_view(r);
                }
                Ok(r)
            },
            Stmt::VarDeclr(name, type_declr, value) => {
                let ids = ss.all_used_ids();
                if texts_contain(&ids, &name.data()) {
                    return Err(SemanticErr::UsedId(name.clone()));
                }
                let var_type = match ValueType::from_declr(type_declr, ss.types()) {
                    Ok(t) => t,
                    Err(e) => {
                        return Err(e);
                    },
                };
                match value {
                    Some(init) => {
                        let tv = match init.generate_typed_expr(ss) {
                            Ok(t) => t,
                            Err(e) => {
                                return Err(e);
                            },
                        };
                        let vt = tv.final_type();
                        if !vt.same(&var_type) {
                            return Err(SemanticErr::WrongType(var_type, vt, name.clone()));
                        }
                        ss.declare_var(name.data(), var_type.clone());
                        let r = TypedStmt::VarDeclr(name.data(), var_type, Some(tv));
                        proof {
                            unfold_tstmt_view(r);
                        }
                        Ok(r)
                    },
                    None => {
                        ss.declare_var(name.data(), var_type.clone());
                        let r = TypedStmt::VarDeclr(name.data(), var_type, None);
                        proof {
                            unfold_tstmt_view(r);
                        }
                        Ok(r)
                    },
                }
            },
            Stmt::LoopStmt(b) => {
                ss.enter_scope();
                ss.enter_breakable();
                let body = match b.generate_typed_stmt(ss) {
                    Ok(t) => t,
                    Err(e) => {
                        return Err(e);
                    },
                };
                ss.leave_scope();
                let r = TypedStmt::LoopStmt(Box::new(body));
                proof {
                    unfold_tstmt_view(r);
                }
                Ok(r)
            },
            Stmt::WhileStmt(c, b) => {
                let tc = match c.generate_typed_expr(ss) {
                    Ok(t) => t,
                    Err(e) => {
                        return Err(e);
                    },
                };
                ss.enter_scope();
                ss.enter_breakable();
                let body = match b.generate_typed_stmt(ss) {
                    Ok(t) => t,
                    Err(e) => {
                        return Err(e);
                    },
                };
                ss.leave_scope();
                let r = TypedStmt::WhileStmt(tc, Box::new(body));
                proof {
                    unfold_tstmt_view(r);
                }
                Ok(r)
            },
            Stmt::IfStmt(c, t, f) => {
                let tc = match c.generate_typed_expr(ss) {
                    Ok(x) => x,
                    Err(e) => {
                        return Err(e);
                    },
                };
                let tt = match t.generate_typed_stmt(ss) {
                    Ok(x) => x,
                    Err(e) => {
                        return Err(e);
                    },
                };
                let tf = match f {
                    Some(fb) => {
                        let x = match fb.generate_typed_stmt(ss) {
                            Ok(x) => x,
                            Err(e) => {
                                return Err(e);
                            },
                        };
                        Some(Box::new(x))
                    },
                    None => None,
                };
                let r = TypedStmt::IfStmt(tc, Box::new(tt), tf);
                proof {
                    unfold_tstmt_view(r);
                }
                Ok(r)
            },
            Stmt::BreakStmt(l) => {
                if !ss.check_if_breakable() {
                    return Err(SemanticErr::CantBreak(l.clone()));
                }
                let r = TypedStmt::BreakStmt;
                proof {
                    unfold_tstmt_view(r);
                }
                Ok(r)
            },
            Stmt::ReturnStmt(k, e) => {
                let ret = match ss.get_nearest_ret_type() {
                    Some(t) => t,
                    None => {
                        return Err(SemanticErr::CantReturn(k.clone()));
                    },
                };
                let te = match e.generate_typed_expr(ss) {
                    Ok(t) => t,
                    Err(err) => {
                        return Err(err);
                    },
                };
                let et = te.final_type();
                if !et.same(&ret) {
                    return Err(SemanticErr::WrongType(ret, et, k.clone()));
                }
                let r = TypedStmt::ReturnStmt(te);
                proof {
                    unfold_tstmt_view(r);
                }
                Ok(r)
            },
            Stmt::FnDeclr(name, params, ret_declr, body) => {
                let ids = ss.all_used_ids();
                if texts_contain(&ids, &name.data()) {
                    return Err(SemanticErr::UsedId(name.clone()));
                }
                let tp = match params.generate_typed_params(ss, None) {
                    Ok(t) => t,
                    Err(e) => {
                        return Err(e);
                    },
                };
                let rt = match ValueType::from_declr(ret_declr, ss.types()) {
                    Ok(t) => t,
                    Err(e) => {
                        return Err(e);
                    },
                };
                let template = signature_of(name.data(), &tp, &rt);
                ss.declare_fn(template.clone());
                ss.enter_scope();
                ss.enter_returnable(rt);
                declare_params(ss, &tp);
                let tb = match body.generate_typed_stmt(ss) {
                    Ok(t) => t,
                    Err(e) => {
                        return Err(e);
                    },
                };
                ss.leave_scope();
                let r = TypedStmt::FnDeclr(template, Box::new(tb));
                proof {
                    unfold_tstmt_view(r);
                }
                Ok(r)
            },
            Stmt::StructDeclr(_, _) => {
                let r = TypedStmt::CustomTypeDeclr;
                proof {
                    unfold_tstmt_view(r);
                }
                Ok(r)
            },
            Stmt::EnumDeclr(_, _) => {
                let r = TypedStmt::CustomTypeDeclr;
                proof {
                    unfold_tstmt_view(r);
                }
                Ok(r)
            },
        }
    }
}

} // verus!
