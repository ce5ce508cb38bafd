use vstd::prelude::*;

use crate::token::{Lexeme, LexemeView};
use crate::stmt::{Stmt, StmtV, lexemes_view, stmts_view, stmt_view, unfold_stmt_view, lemma_stmts_view_index};
use crate::types::{
    ValueType, CustomType, StructTemplate, EnumTemplate, TypeV, CustomV, StructV, EnumV, texts, texts_contain,
    has_size, type_size, fields_view, type_view, customs_view,
};
use crate::semantics::{ScopeStack, ScopeV, with_custom, rec_check, enums_only};
use crate::semantics::semantic_err::{SemanticErr, SemanticErrV};
use crate::semantics::expr_semantics::has_text;
use crate::semantics::stmt_semantics::{type_params, params_ok, type_stmts};
use crate::typed_ast::TStmtV;

verus! {

/// A left-to-right pass over `xs` that stops at the first error.
pub open spec fn fold_steps<A, S>(xs: Seq<A>, init: S, step: spec_fn(S, A) -> Result<S, SemanticErrV>) -> Result<
    S,
    SemanticErrV,
>
    decreases xs.len(),
{
    if xs.len() == 0 {
        Ok(init)
    } else {
        match fold_steps(xs.drop_last(), init, step) {
            Ok(s) => step(s, xs.last()),
            Err(e) => Err(e),
        }
    }
}

pub proof fn lemma_fold_step<A, S>(xs: Seq<A>, init: S, step: spec_fn(S, A) -> Result<S, SemanticErrV>, i: int)
    requires
        0 <= i < xs.len(),
    ensures
        fold_steps(xs.take(i + 1), init, step) == match fold_steps(xs.take(i), init, step) {
            Ok(s) => step(s, xs[i]),
            Err(e) => Err(e),
        },
{
    assert(xs.take(i + 1).drop_last() =~= xs.take(i));
    assert(xs.take(i + 1).last() == xs[i]);
}

pub proof fn lemma_fold_stop<A, S>(xs: Seq<A>, init: S, step: spec_fn(S, A) -> Result<S, SemanticErrV>, k: int)
    requires
        0 <= k <= xs.len(),
        fold_steps(xs.take(k), init, step) is Err,
    ensures
        fold_steps(xs, init, step) == fold_steps(xs.take(k), init, step),
    decreases xs.len() - k,
{
    if k == xs.len() {
        assert(xs.take(k) =~= xs);
    } else {
        lemma_fold_step(xs, init, step, k);
        lemma_fold_stop(xs, init, step, k + 1);
    }
}

pub open spec fn variant_names(vs: Seq<LexemeView>) -> Seq<Seq<char>> {
    vs.map_values(|l: LexemeView| l.tok.text)
}

/// The first variant whose name an earlier variant already has.
pub open spec fn dup_variant(vs: Seq<LexemeView>) -> Option<LexemeView>
    decreases vs.len(),
{
    if vs.len() == 0 {
        None
    } else if dup_variant(vs.drop_last()) is Some {
        dup_variant(vs.drop_last())
    } else if variant_names(vs.drop_last()).contains(vs.last().tok.text) {
        Some(vs.last())
    } else {
        None
    }
}

/// The enum declared with the name `n` and the variants `vs`, numbered in
/// order (modulo 256).
pub open spec fn enum_template(n: LexemeView, vs: Seq<LexemeView>) -> EnumV {
    EnumV { name: n.tok.text, variants: Seq::new(vs.len(), |k: int| (vs[k].tok.text, k as u8)) }
}

/// The first pass: each enum declaration is declared, in order.
pub open spec fn enum_step(ss: ScopeV, s: StmtV) -> Result<ScopeV, SemanticErrV> {
    if s is EnumDeclr {
        let n = s->EnumDeclr_0;
        let vs = s->EnumDeclr_1;
        if ss.global_used_ids.contains(n.tok.text) {
            Err(SemanticErrV::UsedId(n))
        } else if dup_variant(vs) is Some {
            Err(SemanticErrV::EnumDuplicateVariants(dup_variant(vs)->Some_0))
        } else {
            Ok(with_custom(ss, CustomV::CustomEnum(enum_template(n, vs))))
        }
    } else {
        Ok(ss)
    }
}

/// The second pass: the names of the structs, none used before.
pub open spec fn name_step(global: Seq<Seq<char>>, being: Seq<Seq<char>>, s: StmtV) -> Result<Seq<Seq<char>>, SemanticErrV> {
    if s is StructDeclr {
        let n = s->StructDeclr_0;
        if global.contains(n.tok.text) || being.contains(n.tok.text) {
            Err(SemanticErrV::UsedId(n))
        } else {
            Ok(being.push(n.tok.text))
        }
    } else {
        Ok(being)
    }
}

/// A struct with the typed fields `tp`, all at offset 0.
pub open spec fn struct_template(n: LexemeView, tp: Seq<(Seq<char>, TypeV)>) -> StructV {
    StructV { name: n.tok.text, fields: tp.map_values(|p: (Seq<char>, TypeV)| (p.0, p.1, 0u16)) }
}

/// The third pass: each struct is declared with its typed fields, and
/// collected.
pub open spec fn template_step(being: Seq<Seq<char>>, acc: (ScopeV, Seq<StructV>), s: StmtV) -> Result<
    (ScopeV, Seq<StructV>),
    SemanticErrV,
> {
    if s is StructDeclr {
        let tp = type_params(s->StructDeclr_1, acc.0.defined_types, Some(being));
        if tp is Err {
            Err(tp->Err_0)
        } else {
            let t = struct_template(s->StructDeclr_0, tp->Ok_0);
            Ok((with_custom(acc.0, CustomV::CustomStruct(t)), acc.1.push(t)))
        }
    } else {
        Ok(acc)
    }
}

/// The fourth pass: no struct may hold itself.
pub open spec fn recursion_pass(ts: Seq<StructV>, defs: Seq<CustomV>) -> Option<Result<(), SemanticErrV>>
    decreases ts.len(),
{
    if ts.len() == 0 {
        Some(Ok(()))
    } else {
        let a = recursion_pass(ts.drop_last(), defs);
        if a is None || a->Some_0 is Err {
            a
        } else {
            let r = rec_check(ts.last(), defs, 0);
            if r is None {
                None
            } else if r->Some_0 is Err {
                Some(Err(SemanticErrV::RecursiveStruct(r->Some_0->Err_0)))
            } else {
                Some(Ok(()))
            }
        }
    }
}

/// The fields with their offsets from the head of the struct, and the size
/// of them all; `None` where a size cannot be computed or passes 16 bits.
pub open spec fn placed(fs: Seq<(Seq<char>, TypeV, u16)>, defs: Seq<CustomV>) -> Option<(Seq<(Seq<char>, TypeV, u16)>, u16)>
    decreases fs.len(),
{
    if fs.len() == 0 {
        Some((Seq::<(Seq<char>, TypeV, u16)>::empty(), 0u16))
    } else {
        let a = placed(fs.drop_last(), defs);
        if a is None || !has_size(fs.last().1, defs) {
            None
        } else if a->Some_0.1 + type_size(fs.last().1, defs) > u16::MAX {
            None
        } else {
            Some(
                (
                    a->Some_0.0.push((fs.last().0, fs.last().1, a->Some_0.1)),
                    (a->Some_0.1 + type_size(fs.last().1, defs)) as u16,
                ),
            )
        }
    }
}

/// Struct fields are laid out one after another from the head: the first
/// at offset 0, each next one right after the whole of the one before (an
/// array field with all its items), and the struct's size is where the last
/// field ends. Names and types stay as declared.
pub proof fn lemma_placed_offsets(fs: Seq<(Seq<char>, TypeV, u16)>, defs: Seq<CustomV>)
    requires
        placed(fs, defs) is Some,
    ensures
        ({
            let p = placed(fs, defs)->Some_0.0;
            let total = placed(fs, defs)->Some_0.1;
            &&& p.len() == fs.len()
            &&& forall|k: int|
                0 <= k < fs.len() ==> #[trigger] p[k].0 == fs[k].0 && p[k].1 == fs[k].1 && has_size(fs[k].1, defs)
            &&& fs.len() > 0 ==> p[0].2 == 0
            &&& forall|k: int|
                0 <= k < fs.len() - 1 ==> #[trigger] p[k + 1].2 == p[k].2 + type_size(fs[k].1, defs)
            &&& total == if fs.len() == 0 {
                0
            } else {
                p[fs.len() - 1].2 + type_size(fs[fs.len() - 1].1, defs)
            }
        }),
    decreases fs.len(),
{
    if fs.len() > 0 {
        let init = fs.drop_last();
        lemma_placed_offsets(init, defs);
        let a = placed(init, defs)->Some_0;
        let p = placed(fs, defs)->Some_0.0;
        assert(p == a.0.push((fs.last().0, fs.last().1, a.1)));
        assert forall|k: int| 0 <= k < fs.len() implies #[trigger] p[k].0 == fs[k].0 && p[k].1 == fs[k].1 && has_size(
            fs[k].1,
            defs,
        ) by {
            if k < fs.len() - 1 {
                assert(p[k] == a.0[k]);
                assert(fs[k] == init[k]);
            }
        }
        assert forall|k: int| 0 <= k < fs.len() - 1 implies #[trigger] p[k + 1].2 == p[k].2 + type_size(fs[k].1, defs) by {
            assert(p[k] == a.0[k]);
            assert(fs[k] == init[k]);
            if k + 1 < fs.len() - 1 {
                assert(p[k + 1] == a.0[k + 1]);
            }
        }
    }
}

/// The fifth pass: each struct with its field offsets.
pub open spec fn placed_all(ts: Seq<StructV>, defs: Seq<CustomV>) -> Option<Seq<StructV>>
    decreases ts.len(),
{
    if ts.len() == 0 {
        Some(Seq::<StructV>::empty())
    } else {
        let a = placed_all(ts.drop_last(), defs);
        let p = placed(ts.last().fields, defs);
        if a is None || p is None {
            None
        } else {
            Some(a->Some_0.push(StructV { name: ts.last().name, fields: p->Some_0.0 }))
        }
    }
}

/// The scope stack after each struct of `ts` is declared, in order.
pub open spec fn declare_all(ss: ScopeV, ts: Seq<StructV>) -> ScopeV
    decreases ts.len(),
{
    if ts.len() == 0 {
        ss
    } else {
        with_custom(declare_all(ss, ts.drop_last()), CustomV::CustomStruct(ts.last()))
    }
}

/// The scope stack of a program before anything is declared.
pub open spec fn empty_scope() -> ScopeV {
    ScopeV {
        stack: Seq::<crate::semantics::OpV>::empty(),
        used_ids: Seq::<Seq<char>>::empty(),
        global_used_ids: Seq::<Seq<char>>::empty(),
        defined_types: Seq::<CustomV>::empty(),
        defined_functions: Seq::<crate::semantics::FnV>::empty(),
    }
}

/// The declarations that the passes over custom types read carry text.
pub open spec fn decls_ok(ast: Seq<StmtV>) -> bool {
    forall|i: int|
        0 <= i < ast.len() ==> (#[trigger] ast[i] is EnumDeclr ==> has_text(ast[i]->EnumDeclr_0) && forall|j: int|
            0 <= j < ast[i]->EnumDeclr_1.len() ==> has_text(#[trigger] ast[i]->EnumDeclr_1[j])) && (ast[i] is StructDeclr
            ==> has_text(ast[i]->StructDeclr_0) && params_ok(ast[i]->StructDeclr_1))
}


pub open spec fn enum_pass() -> spec_fn(ScopeV, StmtV) -> Result<ScopeV, SemanticErrV> {
    |s: ScopeV, x: StmtV| enum_step(s, x)
}

pub open spec fn name_pass(global: Seq<Seq<char>>) -> spec_fn(Seq<Seq<char>>, StmtV) -> Result<Seq<Seq<char>>, SemanticErrV> {
    |b: Seq<Seq<char>>, x: StmtV| name_step(global, b, x)
}

pub open spec fn template_pass(being: Seq<Seq<char>>) -> spec_fn((ScopeV, Seq<StructV>), StmtV) -> Result<
    (ScopeV, Seq<StructV>),
    SemanticErrV,
> {
    |acc: (ScopeV, Seq<StructV>), x: StmtV| template_step(being, acc, x)
}

pub open spec fn structs_view(ts: Seq<StructTemplate>) -> Seq<StructV> {
    ts.map_values(|t: StructTemplate| t@)
}

proof fn lemma_dup_step(vs: Seq<LexemeView>, j: int)
    requires
        0 <= j < vs.len(),
    ensures
        dup_variant(vs.take(j + 1)) == if dup_variant(vs.take(j)) is Some {
            dup_variant(vs.take(j))
        } else if variant_names(vs.take(j)).contains(vs[j].tok.text) {
            Some(vs[j])
        } else {
            None
        },
{
    assert(vs.take(j + 1).drop_last() =~= vs.take(j));
    assert(vs.take(j + 1).last() == vs[j]);
}

proof fn lemma_dup_stop(vs: Seq<LexemeView>, k: int)
    requires
        0 <= k <= vs.len(),
        dup_variant(vs.take(k)) is Some,
    ensures
        dup_variant(vs) == dup_variant(vs.take(k)),
    decreases vs.len() - k,
{
    if k == vs.len() {
        assert(vs.take(k) =~= vs);
    } else {
        lemma_dup_step(vs, k);
        lemma_dup_stop(vs, k + 1);
    }
}

/// The enum named `name` with the given variants, numbered in order; an
/// error at the first variant whose name an earlier one has.
fn enum_of(name: &Lexeme, variants: &Vec<Lexeme>) -> (r: Result<EnumTemplate, SemanticErr>)
    requires
        has_text(name@),
        forall|j: int| 0 <= j < variants.len() ==> has_text(#[trigger] variants@[j]@),
    ensures
        match dup_variant(lexemes_view(variants@)) {
            Some(d) => r matches Err(x) && x@ == SemanticErrV::EnumDuplicateVariants(d),
            None => r matches Ok(t) && t@ == enum_template(name@, lexemes_view(variants@)),
        },
{
    let ghost vs = lexemes_view(variants@);
    let mut variants_list: Vec<String> = Vec::new();
    let mut j: usize = 0;
    assert(vs.take(0) =~= Seq::<LexemeView>::empty());
    assert(texts(variants_list@) =~= variant_names(vs.take(0)));
    while j < variants.len()
        invariant
            j <= variants.len(),
            vs == lexemes_view(variants@),
            vs.len() == variants.len(),
            forall|i: int| 0 <= i < variants.len() ==> has_text(#[trigger] variants@[i]@),
            dup_variant(vs.take(j as int)) is None,
            texts(variants_list@) == variant_names(vs.take(j as int)),
        decreases variants.len() - j,
    {
        proof {
            lemma_dup_step(vs, j as int);
            assert(vs[j as int] == variants@[j as int]@);
        }
        let vn = variants[j].data();
        if texts_contain(&variants_list, &vn) {
            proof {
                lemma_dup_stop(vs, j + 1);
            }
            return Err(SemanticErr::EnumDuplicateVariants(variants[j].clone()));
        }
        let ghost prev = variants_list@;
        let ghost vng = vn@;
        variants_list.push(vn);
        proof {
            assert(vs.take(j + 1) =~= vs.take(j as int).push(vs[j as int]));
            assert(texts(variants_list@) =~= texts(prev).push(vng));
            assert(variant_names(vs.take(j + 1)) =~= variant_names(vs.take(j as int)).push(vs[j as int].tok.text));
            assert(texts(variants_list@) =~= variant_names(vs.take(j + 1)));
        }
        j = j + 1;
    }
    proof {
        assert(vs.take(j as int) =~= vs);
    }
    let mut with_index: Vec<(String, u8)> = Vec::new();
    let mut k: usize = 0;
    while k < variants_list.len()
        invariant
            k <= variants_list.len(),
            variants_list.len() == vs.len(),
            texts(variants_list@) == variant_names(vs),
            with_index.len() == k,
            forall|i: int| 0 <= i < k ==> #[trigger] with_index@[i].0@ == vs[i].tok.text && with_index@[i].1 == i as u8,
        decreases variants_list.len() - k,
    {
        assert(texts(variants_list@)[k as int] == variants_list@[k as int]@);
        with_index.push((variants_list[k].clone(), k as u8));
        k = k + 1;
    }
    let t = EnumTemplate { name: name.data(), variants: with_index };
    assert(t@.variants =~= enum_template(name@, vs).variants);
    Ok(t)
}

/// The first pass over the program: declares each enum, in order.
pub(crate) fn declare_enums(ss: &mut ScopeStack, ast: &Vec<Stmt>) -> (r: Result<(), SemanticErr>)
    requires
        decls_ok(stmts_view(ast@)),
    ensures
        match fold_steps(stmts_view(ast@), old(ss)@, enum_pass()) {
            Ok(s2) => r is Ok && final(ss)@ == s2,
            Err(e) => r matches Err(x) && x@ == e,
        },
{
    let ghost xs = stmts_view(ast@);
    proof {
        lemma_stmts_view_index(ast@);
        assert(xs.take(0) =~= Seq::<StmtV>::empty());
    }
    let mut i: usize = 0;
    while i < ast.len()
        invariant
            i <= ast.len(),
            xs == stmts_view(ast@),
            xs.len() == ast.len(),
            forall|j: int| 0 <= j < xs.len() ==> #[trigger] xs[j] == stmt_view(ast@[j]),
            decls_ok(xs),
            fold_steps(xs.take(i as int), old(ss)@, enum_pass()) == Ok::<ScopeV, SemanticErrV>(ss@),
        decreases ast.len() - i,
    {
        proof {
            lemma_fold_step(xs, old(ss)@, enum_pass(), i as int);
            unfold_stmt_view(ast@[i as int]);
            assert(xs[i as int] == stmt_view(ast@[i as int]));
        }
        if let Stmt::EnumDeclr(enum_name, variants) = &ast[i] {
            proof {
                assert(xs[i as int] is EnumDeclr);
                assert forall|j: int| 0 <= j < variants.len() implies has_text(#[trigger] variants@[j]@) by {
                    assert(xs[i as int]->EnumDeclr_1[j] == variants@[j]@);
                }
            }
            if texts_contain(ss.global_ids(), &enum_name.data()) {
                proof {
                    lemma_fold_stop(xs, old(ss)@, enum_pass(), i + 1);
                }
                return Err(SemanticErr::UsedId(enum_name.clone()));
            }
            let t = match enum_of(enum_name, variants) {
                Ok(t) => t,
                Err(e) => {
                    proof {
                        lemma_fold_stop(xs, old(ss)@, enum_pass(), i + 1);
                    }
                    return Err(e);
                },
            };
            ss.declare_custom_type(CustomType::CustomEnum(t));
        }
        i = i + 1;
    }
    proof {
        assert(xs.take(i as int) =~= xs);
    }
    Ok(())
}

/// The second pass: the names of the structs, none declared before.
pub(crate) fn struct_names(ss: &ScopeStack, ast: &Vec<Stmt>) -> (r: Result<Vec<String>, SemanticErr>)
    requires
        decls_ok(stmts_view(ast@)),
    ensures
        match fold_steps(stmts_view(ast@), Seq::<Seq<char>>::empty(), name_pass(ss@.global_used_ids)) {
            Ok(b) => r matches Ok(x) && texts(x@) == b,
            Err(e) => r matches Err(x) && x@ == e,
        },
{
    let ghost xs = stmts_view(ast@);
    let ghost g = ss@.global_used_ids;
    let mut being: Vec<String> = Vec::new();
    proof {
        lemma_stmts_view_index(ast@);
        assert(xs.take(0) =~= Seq::<StmtV>::empty());
        assert(texts(being@) =~= Seq::<Seq<char>>::empty());
    }
    let mut i: usize = 0;
    while i < ast.len()
        invariant
            i <= ast.len(),
            xs == stmts_view(ast@),
            g == ss@.global_used_ids,
            xs.len() == ast.len(),
            forall|j: int| 0 <= j < xs.len() ==> #[trigger] xs[j] == stmt_view(ast@[j]),
            decls_ok(xs),
            fold_steps(xs.take(i as int), Seq::<Seq<char>>::empty(), name_pass(g)) == Ok::<Seq<Seq<char>>, SemanticErrV>(
                texts(being@),
            ),
        decreases ast.len() - i,
    {
        proof {
            lemma_fold_step(xs, Seq::<Seq<char>>::empty(), name_pass(g), i as int);
            unfold_stmt_view(ast@[i as int]);
            assert(xs[i as int] == stmt_view(ast@[i as int]));
        }
        if let Stmt::StructDeclr(struct_name, _) = &ast[i] {
            proof {
                assert(xs[i as int] is StructDeclr);
            }
            let n = struct_name.data();
            if texts_contain(ss.global_ids(), &n) || texts_contain(&being, &n) {
                proof {
                    lemma_fold_stop(xs, Seq::<Seq<char>>::empty(), name_pass(g), i + 1);
                }
                return Err(SemanticErr::UsedId(struct_name.clone()));
            }
            let ghost prev = being@;
            being.push(n);
            proof {
                assert(texts(being@) =~= texts(prev).push(n@));
            }
        }
        i = i + 1;
    }
    proof {
        assert(xs.take(i as int) =~= xs);
    }
    Ok(being)
}

/// The third pass: declares each struct with its typed fields, all at
/// offset 0, and collects them in order.
pub(crate) fn declare_templates(ss: &mut ScopeStack, ast: &Vec<Stmt>, being: &Vec<String>) -> (r: Result<
    Vec<StructTemplate>,
    SemanticErr,
>)
    requires
        decls_ok(stmts_view(ast@)),
    ensures
        match fold_steps(stmts_view(ast@), (old(ss)@, Seq::<StructV>::empty()), template_pass(texts(being@))) {
            Ok(acc) => final(ss)@ == acc.0 && (r matches Ok(x) && structs_view(x@) == acc.1),
            Err(e) => r matches Err(x) && x@ == e,
        },
{
    let ghost xs = stmts_view(ast@);
    let ghost b = texts(being@);
    let ghost init = (old(ss)@, Seq::<StructV>::empty());
    let mut templates: Vec<StructTemplate> = Vec::new();
    proof {
        lemma_stmts_view_index(ast@);
        assert(xs.take(0) =~= Seq::<StmtV>::empty());
        assert(structs_view(templates@) =~= Seq::<StructV>::empty());
    }
    let mut i: usize = 0;
    while i < ast.len()
        invariant
            i <= ast.len(),
            xs == stmts_view(ast@),
            b == texts(being@),
            init == (old(ss)@, Seq::<StructV>::empty()),
            xs.len() == ast.len(),
            forall|j: int| 0 <= j < xs.len() ==> #[trigger] xs[j] == stmt_view(ast@[j]),
            decls_ok(xs),
            fold_steps(xs.take(i as int), init, template_pass(b)) == Ok::<(ScopeV, Seq<StructV>), SemanticErrV>(
                (ss@, structs_view(templates@)),
            ),
        decreases ast.len() - i,
    {
        proof {
            lemma_fold_step(xs, init, template_pass(b), i as int);
            unfold_stmt_view(ast@[i as int]);
            assert(xs[i as int] == stmt_view(ast@[i as int]));
        }
        if let Stmt::StructDeclr(struct_name, params) = &ast[i] {
            proof {
                assert(xs[i as int] is StructDeclr);
            }
            let tp = match params.generate_typed_params(ss, Some(being)) {
                Ok(t) => t,
                Err(e) => {
                    proof {
                        lemma_fold_stop(xs, init, template_pass(b), i + 1);
                    }
                    return Err(e);
                },
            };
            let ghost tpv = tp@;
            let mut fields: Vec<(String, ValueType, u16)> = Vec::new();
            let mut k: usize = 0;
            while k < tp.items.len()
                invariant
                    k <= tp.items.len(),
                    tpv == tp@,
                    tpv.len() == tp.items.len(),
                    fields.len() == k,
                    forall|j: int| 0 <= j < k ==> #[trigger] fields_view(fields@)[j] == (tpv[j].0, tpv[j].1, 0u16),
                decreases tp.items.len() - k,
            {
                let n = tp.items[k].0.clone();
                let t = tp.items[k].1.clone();
                let ghost prev = fields@;
                fields.push((n, t, 0u16));
                proof {
                    assert(fields@ == prev.push((n, t, 0u16)));
                    assert(tpv[k as int] == (tp.items@[k as int].0@, tp.items@[k as int].1@));
                    assert forall|j: int| 0 <= j < k + 1 implies #[trigger] fields_view(fields@)[j] == (
                        tpv[j].0,
                        tpv[j].1,
                        0u16,
                    ) by {
                        if j < k {
                            assert(fields@[j] == prev[j]);
                            assert(fields_view(prev)[j] == (tpv[j].0, tpv[j].1, 0u16));
                        }
                    }
                }
                k = k + 1;
            }
            let template = StructTemplate { name: struct_name.data(), fields };
            proof {
                assert(template@ == struct_template(struct_name@, tpv)) by {
                    assert(template@.fields =~= tpv.map_values(|p: (Seq<char>, TypeV)| (p.0, p.1, 0u16)));
                }
            }
            let ghost prev_t = templates@;
            templates.push(template.clone());
            ss.declare_custom_type(CustomType::CustomStruct(template));
            proof {
                assert(structs_view(templates@) =~= structs_view(prev_t).push(struct_template(struct_name@, tpv)));
            }
        }
        i = i + 1;
    }
    proof {
        assert(xs.take(i as int) =~= xs);
    }
    Ok(templates)
}


/// The fourth pass: refuses a struct that holds itself.
pub(crate) fn check_all(ss: &ScopeStack, ts: &Vec<StructTemplate>) -> (r: Result<(), SemanticErr>)
    requires
        recursion_pass(structs_view(ts@), ss@.defined_types) is Some,
    ensures
        match recursion_pass(structs_view(ts@), ss@.defined_types) {
            Some(Ok(_)) => r is Ok,
            Some(Err(e)) => r matches Err(x) && x@ == e,
            None => false,
        },
{
    let ghost v = structs_view(ts@);
    let ghost defs = ss@.defined_types;
    let mut i: usize = 0;
    assert(v.take(0) =~= Seq::<StructV>::empty());
    while i < ts.len()
        invariant
            i <= ts.len(),
            v == structs_view(ts@),
            defs == ss@.defined_types,
            recursion_pass(v, defs) is Some,
            recursion_pass(v.take(i as int), defs) == Some(Ok::<(), SemanticErrV>(())),
        decreases ts.len() - i,
    {
        proof {
            assert(v.take(i + 1).drop_last() =~= v.take(i as int));
            assert(v.take(i + 1).last() == ts@[i as int]@);
            lemma_recursion_prefix(v, defs, i + 1);
        }
        match ts[i].check_recursive(ss, 0) {
            Ok(()) => {},
            Err(e) => {
                proof {
                    lemma_recursion_stop(v, defs, i + 1);
                }
                return Err(e);
            },
        }
        i = i + 1;
    }
    proof {
        assert(v.take(i as int) =~= v);
    }
    Ok(())
}

proof fn lemma_recursion_prefix(ts: Seq<StructV>, defs: Seq<CustomV>, k: int)
    requires
        0 <= k <= ts.len(),
        recursion_pass(ts, defs) is Some,
    ensures
        recursion_pass(ts.take(k), defs) is Some,
    decreases ts.len() - k,
{
    if k == ts.len() {
        assert(ts.take(k) =~= ts);
    } else {
        lemma_recursion_prefix(ts, defs, k + 1);
        assert(ts.take(k + 1).drop_last() =~= ts.take(k));
    }
}

proof fn lemma_recursion_stop(ts: Seq<StructV>, defs: Seq<CustomV>, k: int)
    requires
        0 <= k <= ts.len(),
        recursion_pass(ts.take(k), defs) is Some && recursion_pass(ts.take(k), defs)->Some_0 is Err,
    ensures
        recursion_pass(ts, defs) == recursion_pass(ts.take(k), defs),
    decreases ts.len() - k,
{
    if k == ts.len() {
        assert(ts.take(k) =~= ts);
    } else {
        assert(ts.take(k + 1).drop_last() =~= ts.take(k));
        lemma_recursion_stop(ts, defs, k + 1);
    }
}

proof fn lemma_placed_prefix(fs: Seq<(Seq<char>, TypeV, u16)>, defs: Seq<CustomV>, k: int)
    requires
        0 <= k <= fs.len(),
        placed(fs, defs) is Some,
    ensures
        placed(fs.take(k), defs) is Some,
    decreases fs.len() - k,
{
    if k == fs.len() {
        assert(fs.take(k) =~= fs);
    } else {
        lemma_placed_prefix(fs, defs, k + 1);
        assert(fs.take(k + 1).drop_last() =~= fs.take(k));
    }
}

proof fn lemma_placed_all_prefix(ts: Seq<StructV>, defs: Seq<CustomV>, k: int)
    requires
        0 <= k <= ts.len(),
        placed_all(ts, defs) is Some,
    ensures
        placed_all(ts.take(k), defs) is Some,
        k < ts.len() ==> placed(ts[k].fields, defs) is Some,
    decreases ts.len() - k,
{
    if k == ts.len() {
        assert(ts.take(k) =~= ts);
    } else {
        lemma_placed_all_prefix(ts, defs, k + 1);
        assert(ts.take(k + 1).drop_last() =~= ts.take(k));
        assert(ts.take(k + 1).last() == ts[k]);
    }
}

/// The struct with each field at its offset from the head: the sum of the
/// sizes of the fields before it.
fn place_fields(t: &StructTemplate, defined_types: &Vec<CustomType>) -> (r: StructTemplate)
    requires
        placed(t@.fields, customs_view(defined_types@)) is Some,
    ensures
        r@ == (StructV { name: t@.name, fields: placed(t@.fields, customs_view(defined_types@))->Some_0.0 }),
{
    let ghost fs = t@.fields;
    let ghost defs = customs_view(defined_types@);
    let mut sum: u16 = 0;
    let mut new_fields: Vec<(String, ValueType, u16)> = Vec::new();
    let mut k: usize = 0;
    proof {
        assert(fs.take(0) =~= Seq::<(Seq<char>, TypeV, u16)>::empty());
        assert(fields_view(new_fields@) =~= Seq::<(Seq<char>, TypeV, u16)>::empty());
    }
    while k < t.fields.len()
        invariant
            k <= t.fields.len(),
            fs == t@.fields,
            fs.len() == t.fields.len(),
            defs == customs_view(defined_types@),
            placed(fs, defs) is Some,
            placed(fs.take(k as int), defs) == Some((fields_view(new_fields@), sum)),
        decreases t.fields.len() - k,
    {
        proof {
            lemma_placed_prefix(fs, defs, k + 1);
            assert(fs.take(k + 1).drop_last() =~= fs.take(k as int));
            assert(fs.take(k + 1).last() == fs[k as int]);
            assert(fs[k as int] == (t.fields@[k as int].0@, t.fields@[k as int].1@, t.fields@[k as int].2));
        }
        let field = &t.fields[k];
        let n = field.0.clone();
        let ty = field.1.clone();
        let size = field.1.size(defined_types);
        let ghost prev = new_fields@;
        new_fields.push((n, ty, sum));
        proof {
            assert(fields_view(new_fields@) =~= fields_view(prev).push((fs[k as int].0, fs[k as int].1, sum)));
        }
        sum = sum + size;
        k = k + 1;
    }
    proof {
        assert(fs.take(k as int) =~= fs);
    }
    StructTemplate { name: t.name.clone(), fields: new_fields }
}

/// The fifth pass: every struct with its field offsets.
pub(crate) fn place_all(ts: &Vec<StructTemplate>, defined_types: &Vec<CustomType>) -> (r: Vec<StructTemplate>)
    requires
        placed_all(structs_view(ts@), customs_view(defined_types@)) is Some,
    ensures
        structs_view(r@) == placed_all(structs_view(ts@), customs_view(defined_types@))->Some_0,
{
    let ghost v = structs_view(ts@);
    let ghost defs = customs_view(defined_types@);
    let mut out: Vec<StructTemplate> = Vec::new();
    let mut i: usize = 0;
    proof {
        assert(v.take(0) =~= Seq::<StructV>::empty());
        assert(structs_view(out@) =~= Seq::<StructV>::empty());
    }
    while i < ts.len()
        invariant
            i <= ts.len(),
            v == structs_view(ts@),
            v.len() == ts.len(),
            defs == customs_view(defined_types@),
            placed_all(v, defs) is Some,
            placed_all(v.take(i as int), defs) == Some(structs_view(out@)),
        decreases ts.len() - i,
    {
        proof {
            lemma_placed_all_prefix(v, defs, i as int);
            assert(v.take(i + 1).drop_last() =~= v.take(i as int));
            assert(v.take(i + 1).last() == v[i as int]);
            assert(v[i as int] == ts@[i as int]@);
        }
        let p = place_fields(&ts[i], defined_types);
        let ghost prev = out@;
        let ghost pg = p@;
        out.push(p);
        proof {
            assert(structs_view(out@) =~= structs_view(prev).push(pg));
        }
        i = i + 1;
    }
    proof {
        assert(v.take(i as int) =~= v);
    }
    out
}

/// What the analysis of a whole program gives: its typed statements and the
/// custom types it declares, or the first error; `None` where it would stop.
pub open spec fn type_program(ast: Seq<StmtV>) -> Option<Result<(Seq<TStmtV>, Seq<CustomV>), SemanticErrV>> {
    let p1 = fold_steps(ast, empty_scope(), enum_pass());
    if p1 is Err {
        Some(Err(p1->Err_0))
    } else {
        let ss1 = p1->Ok_0;
        let p2 = fold_steps(ast, Seq::<Seq<char>>::empty(), name_pass(ss1.global_used_ids));
        if p2 is Err {
            Some(Err(p2->Err_0))
        } else {
            let p3 = fold_steps(ast, (ss1, Seq::<StructV>::empty()), template_pass(p2->Ok_0));
            if p3 is Err {
                Some(Err(p3->Err_0))
            } else {
                let ss3 = p3->Ok_0.0;
                let ts = p3->Ok_0.1;
                let p4 = recursion_pass(ts, ss3.defined_types);
                if p4 is None {
                    None
                } else if p4->Some_0 is Err {
                    Some(Err(p4->Some_0->Err_0))
                } else {
                    let p5 = placed_all(ts, ss3.defined_types);
                    if p5 is None {
                        None
                    } else {
                        let ss6 = declare_all(ScopeV { defined_types: enums_only(ss3.defined_types), ..ss3 }, p5->Some_0);
                        let p7 = type_stmts(ast, ss6);
                        if p7 is None {
                            None
                        } else if p7->Some_0.1 is Err {
                            Some(Err(p7->Some_0.1->Err_0))
                        } else {
                            Some(Ok((p7->Some_0.1->Ok_0, p7->Some_0.0.defined_types)))
                        }
                    }
                }
            }
        }
    }
}

} // verus!
