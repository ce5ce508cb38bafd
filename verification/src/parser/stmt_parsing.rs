use vstd::prelude::*;

use crate::token::{Token, TokKind, Lexeme, LexemeView};
use crate::stmt::{Stmt, TypeDeclr, TypeDeclrV, Parameters, StmtV, params_view, lexemes_view, stmts_view, unfold_stmt_view, lemma_stmts_view_push, lemma_stmts_view_empty};
use crate::parser::{Parser, Parsed, parsed_as, agrees, key_tok, op_tok};
use crate::parser::stmt_grammar::{p_type_declr, p_params, p_params_loop, unfold_p_params_loop, p_variants, p_variants_loop, unfold_p_variants_loop, p_stmt, unfold_p_stmt, p_block, unfold_p_block, p_block_loop, unfold_p_block_loop, p_program, unfold_p_program};
use crate::parser::numbers::{decimal_value, parse_decimal};

verus! {

impl Parser {

    /// Reads a type declaration, as `p_type_declr` says.
    pub fn parse_type_declr(&mut self) -> (r: Result<TypeDeclr, &'static str>)
        requires
            old(self).wf(),
            !(p_type_declr(old(self).toks(), old(self).pos()) is Stuck),
        ensures
            parsed_as(*old(self), *final(self), r, p_type_declr(old(self).toks(), old(self).pos())),
        decreases old(self).toks().len() - old(self).pos(),
    {
        proof {
            reveal(p_type_declr);
        }
        if self.match_tok(key_tok("@")) {
            let points_to = match self.parse_type_declr() {
                Ok(t) => t,
                Err(e) => {
                    return Err(e);
                },
            };
            return Ok(TypeDeclr::Pointer(Box::new(points_to)));
        }
        if self.match_tok(Token::SquareOpen) {
            let array_of_type = match self.parse_type_declr() {
                Ok(t) => t,
                Err(e) => {
                    return Err(e);
                },
            };
            if !self.match_tok(Token::SemiCol) {
                return Err("Expected Semicolon after Array Item Type");
            }
            if !self.match_tok_type(TokKind::Lit) {
                return Err("Expected Number Literal for Array Size");
            }
            let array_size = self.previous();
            let text = array_size.data();
            let array_size = match parse_decimal(text.as_str(), 65535u64) {
                Some(n) => {
                    assert(decimal_value(text@) == Some(n as int));
                    n as u16
                },
                None => {
                    return Err("Array Size Error");
                },
            };
            if !self.match_tok(Token::SquareClose) {
                return Err("Expected Closing Square Bracket for Array Type Declaration");
            }
            return Ok(TypeDeclr::Array(Box::new(array_of_type), array_size));
        }
        if self.match_tok_type(TokKind::Id) {
            return Ok(TypeDeclr::Basic(self.previous()));
        }
        Err("Expected Identifier for Type Declaration")
    }

    /// Reads a list of `name: type` pairs separated by commas, as `p_params` says.
    fn parse_parameters(&mut self) -> (r: Result<Parameters, &'static str>)
        requires
            old(self).wf(),
            !(p_params(old(self).toks(), old(self).pos()) is Stuck),
        ensures
            final(self).wf(),
            final(self).toks() == old(self).toks(),
            agrees(r, p_params(old(self).toks(), old(self).pos()), final(self).pos()),
            r is Ok ==> final(self).pos() >= old(self).pos(),
    {
        let ghost t = self.toks();
        let ghost p0 = self.pos();
        let mut params: Vec<(Lexeme, TypeDeclr)> = Vec::new();
        if !self.match_tok_type(TokKind::Id) {
            assert(params_view(params@) =~= Seq::<(LexemeView, TypeDeclrV)>::empty());
            return Ok(Parameters { params });
        }
        let name = self.previous();
        if !self.match_tok(Token::Col) {
            return Err("Expected Colon after Parameter Name");
        }
        let ty = match self.parse_type_declr() {
            Ok(ty) => ty,
            Err(e) => {
                return Err(e);
            },
        };
        params.push((name, ty));
        assert(params_view(params@) =~= seq![(t[p0], p_type_declr(t, p0 + 2)->Done_0)]);
        loop
            invariant
                self.wf(),
                self.toks() == t,
                t == old(self).toks(),
                p0 == old(self).pos(),
                self.pos() > p0,
                p_params(t, p0) == p_params_loop(t, self.pos(), params_view(params@)),
                !(p_params(t, p0) is Stuck),
            decreases t.len() - self.pos(),
        {
            proof {
                unfold_p_params_loop(t, self.pos(), params_view(params@));
            }
            let ghost q = self.pos();
            if !self.match_tok(Token::Comma) {
                return Ok(Parameters { params });
            }
            if !self.match_tok_type(TokKind::Id) {
                return Err("Expected Identifier for Parameter Name");
            }
            let name = self.previous();
            if !self.match_tok(Token::Col) {
                return Err("Expected Colon after Parameter Name");
            }
            let ty = match self.parse_type_declr() {
                Ok(ty) => ty,
                Err(e) => {
                    return Err(e);
                },
            };
            let ghost old_params = params@;
            params.push((name, ty));
            assert(params_view(params@) =~= params_view(old_params).push((t[q + 1], p_type_declr(t, q + 3)->Done_0)));
        }
    }

    /// Reads the variants of an enum declaration, as `p_variants` says.
    fn parse_variants(&mut self) -> (r: Result<Vec<Lexeme>, &'static str>)
        requires
            old(self).wf(),
            !(p_variants(old(self).toks(), old(self).pos()) is Stuck),
        ensures
            final(self).wf(),
            final(self).toks() == old(self).toks(),
            match p_variants(old(self).toks(), old(self).pos()) {
                Parsed::Done(v, end) => r matches Ok(x) && lexemes_view(x@) == v && final(self).pos() == end,
                Parsed::Fail(m) => r matches Err(e) && e@ == m,
                Parsed::Stuck => false,
            },
            r is Ok ==> final(self).pos() >= old(self).pos(),
    {
        let ghost t = self.toks();
        let ghost p0 = self.pos();
        let mut variants: Vec<Lexeme> = Vec::new();
        if !self.match_tok_type(TokKind::Id) {
            assert(lexemes_view(variants@) =~= Seq::<LexemeView>::empty());
            return Ok(variants);
        }
        variants.push(self.previous());
        assert(lexemes_view(variants@) =~= seq![t[p0]]);
        loop
            invariant
                self.wf(),
                self.toks() == t,
                t == old(self).toks(),
                p0 == old(self).pos(),
                self.pos() > p0,
                p_variants(t, p0) == p_variants_loop(t, self.pos(), lexemes_view(variants@)),
                !(p_variants(t, p0) is Stuck),
            decreases t.len() - self.pos(),
        {
            proof {
                unfold_p_variants_loop(t, self.pos(), lexemes_view(variants@));
            }
            let ghost q = self.pos();
            if !self.match_tok(Token::Comma) {
                return Ok(variants);
            }
            if !self.match_tok_type(TokKind::Id) {
                return Err("Expected Identifier for Enum Variant Name");
            }
            let ghost old_variants = variants@;
            variants.push(self.previous());
            assert(lexemes_view(variants@) =~= lexemes_view(old_variants).push(t[q + 1]));
        }
    }

    /// Reads one statement, as `p_stmt` says.
    pub fn parse_stmt(&mut self) -> (r: Result<Stmt, &'static str>)
        requires
            old(self).wf(),
            !(p_stmt(old(self).toks(), old(self).pos()) is Stuck),
        ensures
            parsed_as(*old(self), *final(self), r, p_stmt(old(self).toks(), old(self).pos())),
        decreases old(self).toks().len() - old(self).pos(), 5nat,
    {
        proof {
            unfold_p_stmt(self.toks(), self.pos());
        }
        let ghost t = self.toks();
        let ghost p = self.pos();
        if self.match_tok(key_tok("let")) {
            if !self.match_tok_type(TokKind::Id) {
                return Err("Expected Identifier for Variable Name");
            }
            let name = self.previous();
            if !self.match_tok(Token::Col) {
                return Err("Expected Colon after Variable Name");
            }
            let var_type = match self.parse_type_declr() {
                Ok(ty) => ty,
                Err(e) => {
                    return Err(e);
                },
            };
            let mut value = None;
            if self.match_tok(op_tok("=")) {
                let e = match self.parse_expr() {
                    Ok(e) => e,
                    Err(e) => {
                        return Err(e);
                    },
                };
                value = Some(e);
            }
            if !self.match_tok(Token::SemiCol) {
                return Err("Expected Semicolon after Variable Declaration");
            }
            let st = Stmt::VarDeclr(name, var_type, value);
            proof {
                unfold_stmt_view(st);
            }
            return Ok(st);
        }
        if self.match_tok(key_tok("fn")) {
            if !self.match_tok_type(TokKind::Id) {
                return Err("Expected Identifier for Function Name");
            }
            let name = self.previous();
            if !self.match_tok(Token::ParenOpen) {
                return Err("Expected Opening Parentheses after Function Name");
            }
            let params = match self.parse_parameters() {
                Ok(ps) => ps,
                Err(e) => {
                    return Err(e);
                },
            };
            if !self.match_tok(Token::ParenClose) {
                return Err("Expected Closing Parentheses after Function Parameters");
            }
            if !self.match_tok(Token::Arrow) {
                return Err("Expected Arrow to Denote Return Type");
            }
            let ret_type = match self.parse_type_declr() {
                Ok(ty) => ty,
                Err(e) => {
                    return Err(e);
                },
            };
            let body = match self.parse_block() {
                Ok(b) => b,
                Err(e) => {
                    return Err(e);
                },
            };
            let st = Stmt::FnDeclr(name, params, ret_type, Box::new(body));
            proof {
                unfold_stmt_view(st);
            }
            return Ok(st);
        }
        if self.match_tok(key_tok("struct")) {
            if !self.match_tok_type(TokKind::Id) {
                return Err("Expected Identifier for Struct Name");
            }
            let name = self.previous();
            if !self.match_tok(Token::CurlyOpen) {
                return Err("Expected Opening Curly Bracket for Struct Definition");
            }
            let fields = match self.parse_parameters() {
                Ok(ps) => ps,
                Err(e) => {
                    return Err(e);
                },
            };
            if !self.match_tok(Token::CurlyClose) {
                return Err("Expected Closing Curly Bracket after Struct Definition");
            }
            let st = Stmt::StructDeclr(name, fields);
            proof {
                unfold_stmt_view(st);
            }
            return Ok(st);
        }
        if self.match_tok(key_tok("enum")) {
            if !self.match_tok_type(TokKind::Id) {
                return Err("Expected Identifier for Enum Name");
            }
            let name = self.previous();
            if !self.match_tok(Token::CurlyOpen) {
                return Err("Expected Opening Curly Bracket after Enum Name");
            }
            let variants = match self.parse_variants() {
                Ok(vs) => vs,
                Err(e) => {
                    return Err(e);
                },
            };
            if !self.match_tok(Token::CurlyClose) {
                return Err("Expected Closing Curly Bracket after Enum Definition");
            }
            let st = Stmt::EnumDeclr(name, variants);
            proof {
                unfold_stmt_view(st);
            }
            return Ok(st);
        }
        if self.match_tok(key_tok("loop")) {
            let body = match self.parse_block() {
                Ok(b) => b,
                Err(e) => {
                    return Err(e);
                },
            };
            let st = Stmt::LoopStmt(Box::new(body));
            proof {
                unfold_stmt_view(st);
            }
            return Ok(st);
        }
        if self.match_tok(key_tok("while")) {
            let cond = match self.parse_expr() {
                Ok(e) => e,
                Err(e) => {
                    return Err(e);
                },
            };
            let body = match self.parse_block() {
                Ok(b) => b,
                Err(e) => {
                    return Err(e);
                },
            };
            let st = Stmt::WhileStmt(cond, Box::new(body));
            proof {
                unfold_stmt_view(st);
            }
            return Ok(st);
        }
        if self.match_tok(key_tok("if")) {
            let cond = match self.parse_expr() {
                Ok(e) => e,
                Err(e) => {
                    return Err(e);
                },
            };
            let t_branch = match self.parse_block() {
                Ok(b) => b,
                Err(e) => {
                    return Err(e);
                },
            };
            let mut f_branch = None;
            if self.match_tok(key_tok("else")) {
                let f = match self.parse_block() {
                    Ok(b) => b,
                    Err(e) => {
                        return Err(e);
                    },
                };
                f_branch = Some(Box::new(f));
            }
            let st = Stmt::IfStmt(cond, Box::new(t_branch), f_branch);
            proof {
                unfold_stmt_view(st);
            }
            return Ok(st);
        }
        if self.match_tok(key_tok("return")) {
            let key = self.previous();
            let value = match self.parse_expr() {
                Ok(e) => e,
                Err(e) => {
                    return Err(e);
                },
            };
            let st = Stmt::ReturnStmt(key, value);
            proof {
                unfold_stmt_view(st);
            }
            return Ok(st);
        }
        if self.match_tok(key_tok("break")) {
            let st = Stmt::BreakStmt(self.previous());
            proof {
                unfold_stmt_view(st);
            }
            return Ok(st);
        }
        let e = match self.parse_expr() {
            Ok(e) => e,
            Err(e) => {
                return Err(e);
            },
        };
        if !self.match_tok(Token::SemiCol) {
            return Err("Expected Semicolon after Expression Statement");
        }
        let st = Stmt::ExprStmt(e);
        proof {
            unfold_stmt_view(st);
        }
        Ok(st)
    }

    /// Reads a block of statements between curly brackets, as `p_block` says.
    fn parse_block(&mut self) -> (r: Result<Stmt, &'static str>)
        requires
            old(self).wf(),
            !(p_block(old(self).toks(), old(self).pos()) is Stuck),
        ensures
            parsed_as(*old(self), *final(self), r, p_block(old(self).toks(), old(self).pos())),
        decreases old(self).toks().len() - old(self).pos(), 6nat,
    {
        proof {
            unfold_p_block(self.toks(), self.pos());
        }
        let ghost t = self.toks();
        let ghost p0 = self.pos();
        if !self.match_tok(Token::CurlyOpen) {
            return Err("Expected Opening Curly Bracket for Block");
        }
        let mut body: Vec<Stmt> = Vec::new();
        proof {
            lemma_stmts_view_empty();
            assert(body@ =~= Seq::<Stmt>::empty());
        }
        loop
            invariant
                self.wf(),
                self.toks() == t,
                t == old(self).toks(),
                p0 == old(self).pos(),
                self.pos() > p0,
                p_block(t, p0) == p_block_loop(t, self.pos(), stmts_view(body@)),
                !(p_block(t, p0) is Stuck),
            decreases t.len() - self.pos(),
        {
            proof {
                unfold_p_block_loop(t, self.pos(), stmts_view(body@));
            }
            if self.match_tok(Token::CurlyClose) {
                let st = Stmt::Block(body);
                proof {
                    unfold_stmt_view(st);
                }
                return Ok(st);
            }
            let s = match self.parse_stmt() {
                Ok(s) => s,
                Err(e) => {
                    return Err(e);
                },
            };
            let ghost old_body = body@;
            let ghost sg = s;
            body.push(s);
            proof {
                lemma_stmts_view_push(old_body, sg);
                assert(body@ == old_body.push(sg));
            }
        }
    }

    /// Reads the statements of a whole program up to the end-of-file token,
    /// as `p_program` says.
    pub fn parse(&mut self) -> (r: Result<Vec<Stmt>, &'static str>)
        requires
            old(self).wf(),
            !(p_program(old(self).toks(), old(self).pos(), seq![]) is Stuck),
        ensures
            final(self).wf(),
            final(self).toks() == old(self).toks(),
            match p_program(old(self).toks(), old(self).pos(), seq![]) {
                Parsed::Done(v, end) => r matches Ok(x) && stmts_view(x@) == v && final(self).pos() == end,
                Parsed::Fail(m) => r matches Err(e) && e@ == m,
                Parsed::Stuck => false,
            },
    {
        let ghost t = self.toks();
        let ghost p0 = self.pos();
        let mut ast: Vec<Stmt> = Vec::new();
        proof {
            lemma_stmts_view_empty();
            assert(ast@ =~= Seq::<Stmt>::empty());
        }
        loop
            invariant
                self.wf(),
                self.toks() == t,
                t == old(self).toks(),
                p0 == old(self).pos(),
                self.pos() >= p0,
                p_program(t, p0, seq![]) == p_program(t, self.pos(), stmts_view(ast@)),
                !(p_program(t, p0, seq![]) is Stuck),
            decreases t.len() - self.pos(),
        {
            proof {
                unfold_p_program(t, self.pos(), stmts_view(ast@));
            }
            if self.current().tok.same(&Token::EOF) {
                return Ok(ast);
            }
            let s = match self.parse_stmt() {
                Ok(s) => s,
                Err(e) => {
                    return Err(e);
                },
            };
            let ghost old_ast = ast@;
            let ghost sg = s;
            ast.push(s);
            proof {
                lemma_stmts_view_push(old_ast, sg);
                assert(ast@ == old_ast.push(sg));
            }
        }
    }
}

} // verus!
