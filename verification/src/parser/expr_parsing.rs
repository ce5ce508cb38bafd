use vstd::prelude::*;

use crate::token::{Token, TokKind};
use crate::expr::{Expr, PrimaryExpr, BinaryExpr, NumLiteral, Variable, Args};
use crate::parser::{Parser, agrees, parsed_as, op_tok, cond_tok};
use crate::parser::expr_grammar::{classify_num, p_num_literal, p_var, p_var_loop, p_var_index, p_args, p_args_loop, p_primary, p_fn_call, p_cast, p_unary, p_shift, p_term, p_term_loop, p_comparison, p_comparison_loop, p_equality, p_equality_loop, p_assign, p_expr};
use crate::parser::numbers::{decimal_value, parse_decimal};
use crate::expr::{unfold_expr_view, unfold_primary_view, unfold_binary_view, unfold_variable_view};
use crate::parser::expr_grammar::{unfold_p_args, unfold_p_primary, unfold_p_fn_call, unfold_p_cast, unfold_p_unary, unfold_p_shift, unfold_p_term, unfold_p_comparison, unfold_p_equality, unfold_p_assign, unfold_p_expr, unfold_p_var, unfold_p_var_loop, unfold_p_var_index, unfold_p_args_loop, unfold_p_term_loop, unfold_p_comparison_loop, unfold_p_equality_loop};

verus! {

impl Parser {

    pub(crate) fn parse_num_literal(&mut self) -> (r: Result<NumLiteral, &'static str>)
        requires
            old(self).wf(),
            !(p_num_literal(old(self).toks(), old(self).pos()) is Stuck),
        ensures
            parsed_as(*old(self), *final(self), r, p_num_literal(old(self).toks(), old(self).pos())),
    {
        proof {
            reveal(p_num_literal);
            reveal(classify_num);
        }
        if self.match_tok_type(TokKind::Lit) {
            let lit = self.previous();
            let text = lit.data();
            match parse_decimal(text.as_str(), 18446744073709551615u64) {
                None => Err("Number Literal Error"),
                Some(num) => {
                    assert(decimal_value(text@) == Some(num as int));
                    if num <= 4294967295u64 {
                        if num <= 65535u64 {
                            if num <= 255u64 {
                                return Ok(NumLiteral::U8(num as u8));
                            }
                            return Ok(NumLiteral::U16(num as u16));
                        }
                        return Ok(NumLiteral::U32(num as u32));
                    }
                    Ok(NumLiteral::U64(num))
                },
            }
        } else {
            Err("Expected Number Literal")
        }
    }

    pub(crate) fn parse_var(&mut self) -> (r: Result<Variable, &'static str>)
        requires
            old(self).wf(),
            !(p_var(old(self).toks(), old(self).pos()) is Stuck),
        ensures
            parsed_as(*old(self), *final(self), r, p_var(old(self).toks(), old(self).pos())),
        decreases old(self).toks().len() - old(self).pos(), 10nat,
    {
        proof {
            unfold_p_var(self.toks(), self.pos());
        }
        let ghost t = self.toks();
        let ghost p0 = self.pos();
        if !self.match_tok_type(TokKind::Id) {
            return Err("Variable Access Parsing Error");
        }
        let id = self.previous();
        let mut result = Variable::Id(id);
        proof {
            unfold_variable_view(result);
        }
        loop
            invariant
                self.wf(),
                self.toks() == t,
                t == old(self).toks(),
                p0 == old(self).pos(),
                self.pos() > p0,
                p_var(t, p0) == p_var_loop(t, self.pos(), result@),
                !(p_var(t, p0) is Stuck),
            decreases t.len() - self.pos(),
        {
            proof {
                unfold_p_var_loop(t, self.pos(), result@);
            }
            let ghost p = self.pos();
            let cur = self.current();
            if !(cur.tok.same(&Token::Period) || cur.tok.same(&Token::SquareOpen)) {
                return Ok(result);
            }
            if self.match_tok(Token::Period) {
                let field = match self.parse_var() {
                    Ok(f) => f,
                    Err(e) => {
                        return Err(e);
                    },
                };
                result = Variable::StructField(Box::new((result, field)));
                proof {
                    unfold_variable_view(result);
                }
            }
            assert(p_var(t, p0) == p_var_index(t, p, self.pos(), result@));
            proof {
                unfold_p_var_index(t, p, self.pos(), result@);
            }
            if self.match_tok(Token::SquareOpen) {
                let index = match self.parse_expr() {
                    Ok(i) => i,
                    Err(e) => {
                        return Err(e);
                    },
                };
                if !self.match_tok(Token::SquareClose) {
                    return Err("Expected Closing Square Bracket for Array Index");
                }
                result = Variable::Array(Box::new(result), index);
                proof {
                    unfold_variable_view(result);
                }
            }
        }
    }

    pub(crate) fn parse_args(&mut self) -> (r: Result<Args, &'static str>)
        requires
            old(self).wf(),
            !(p_args(old(self).toks(), old(self).pos()) is Stuck),
        ensures
            final(self).wf(),
            final(self).toks() == old(self).toks(),
            agrees(r, p_args(old(self).toks(), old(self).pos()), final(self).pos()),
            r is Ok ==> final(self).pos() >= old(self).pos(),
        decreases old(self).toks().len() - old(self).pos(), 32nat,
    {
        proof {
            unfold_p_args(self.toks(), self.pos());
        }
        let ghost t = self.toks();
        let ghost p0 = self.pos();
        let mut args: Vec<Expr> = Vec::new();
        if self.match_tok(Token::ParenClose) || self.match_tok(Token::SquareClose) || self.match_tok(
            Token::CurlyClose,
        ) {
            self.go_back();
            proof {
                crate::expr::lemma_exprs_view_empty();
            }
            assert(args@ =~= Seq::<Expr>::empty());
            return Ok(Args { items: args });
        }
        let e = match self.parse_expr() {
            Ok(e) => e,
            Err(e) => {
                return Err(e);
            },
        };
        args.push(e);
        proof {
            crate::expr::lemma_exprs_view_one(args@[0]);
            assert(args@ =~= seq![args@[0]]);
        }
        loop
            invariant
                self.wf(),
                self.toks() == t,
                t == old(self).toks(),
                p0 == old(self).pos(),
                self.pos() > p0,
                p_args(t, p0) == p_args_loop(t, self.pos(), crate::expr::exprs_view(args@)),
                !(p_args(t, p0) is Stuck),
            decreases t.len() - self.pos(),
        {
            proof {
                unfold_p_args_loop(t, self.pos(), crate::expr::exprs_view(args@));
            }
            if !self.match_tok(Token::Comma) {
                return Ok(Args { items: args });
            }
            let ghost old_args = args@;
            let e = match self.parse_expr() {
                Ok(e) => e,
                Err(e) => {
                    return Err(e);
                },
            };
            let ghost eg = e;
            args.push(e);
            proof {
                crate::expr::lemma_exprs_view_push(old_args, eg);
                assert(args@ == old_args.push(eg));
            }
        }
    }

    pub(crate) fn parse_primary(&mut self) -> (r: Result<Expr, &'static str>)
        requires
            old(self).wf(),
            !(p_primary(old(self).toks(), old(self).pos()) is Stuck),
        ensures
            parsed_as(*old(self), *final(self), r, p_primary(old(self).toks(), old(self).pos())),
        decreases old(self).toks().len() - old(self).pos(), 18nat,
    {
        proof {
            unfold_p_primary(self.toks(), self.pos());
        }
        let ghost t = self.toks();
        let ghost p = self.pos();
        let cur = self.current();
        if cur.tok.kind() == TokKind::Lit {
            let lexeme = self.current();
            let num_literal = match self.parse_num_literal() {
                Ok(n) => n,
                Err(e) => {
                    return Err(e);
                },
            };
            let pe = PrimaryExpr::NumLiteral(num_literal, lexeme);
            proof {
                unfold_primary_view(pe);
            }
            let e = Expr::Primary(Box::new(pe));
            proof {
                unfold_expr_view(e);
            }
            return Ok(e);
        }
        if self.match_tok(Token::ParenOpen) {
            let e = match self.parse_expr() {
                Ok(e) => e,
                Err(e) => {
                    return Err(e);
                },
            };
            if !self.match_tok(Token::ParenClose) {
                return Err("Expected Closing Parentheses");
            }
            let inner = e;
            let pe = PrimaryExpr::Grouping(inner);
            proof {
                unfold_primary_view(pe);
            }
            let e = Expr::Primary(Box::new(pe));
            proof {
                unfold_expr_view(e);
            }
            return Ok(e);
        }
        if self.match_tok(op_tok("&")) || self.match_tok(op_tok("*")) {
            let operator = self.previous();
            let var = match self.parse_var() {
                Ok(v) => v,
                Err(e) => {
                    return Err(e);
                },
            };
            let pe = PrimaryExpr::Ref(operator, var);
            proof {
                unfold_primary_view(pe);
            }
            let e = Expr::Primary(Box::new(pe));
            proof {
                unfold_expr_view(e);
            }
            return Ok(e);
        }
        if self.look_ahead().tok.same(&Token::Col) {
            if !self.match_tok_type(TokKind::Id) {
                return Err("Expected Identifier for Enum Name");
            }
            let name = self.previous();
            self.match_tok(Token::Col);
            if !self.match_tok(Token::Col) {
                return Err("Expected Double Colon :: after Enum Name");
            }
            if !self.match_tok_type(TokKind::Id) {
                return Err("Expected Identifier for Enum Variant");
            }
            let variant = self.previous();
            let pe = PrimaryExpr::EnumVariant(name, variant);
            proof {
                unfold_primary_view(pe);
            }
            let e = Expr::Primary(Box::new(pe));
            proof {
                unfold_expr_view(e);
            }
            return Ok(e);
        }
        let var = match self.parse_var() {
            Ok(v) => v,
            Err(e) => {
                return Err(e);
            },
        };
        let pe = PrimaryExpr::Variable(var);
        proof {
            unfold_primary_view(pe);
        }
        let e = Expr::Primary(Box::new(pe));
        proof {
            unfold_expr_view(e);
        }
        Ok(e)
    }

    pub(crate) fn parse_fn_call(&mut self) -> (r: Result<Expr, &'static str>)
        requires
            old(self).wf(),
            !(p_fn_call(old(self).toks(), old(self).pos()) is Stuck),
        ensures
            parsed_as(*old(self), *final(self), r, p_fn_call(old(self).toks(), old(self).pos())),
        decreases old(self).toks().len() - old(self).pos(), 19nat,
    {
        proof {
            unfold_p_fn_call(self.toks(), self.pos());
        }
        if self.look_ahead().tok.same(&Token::ParenOpen) {
            if !self.match_tok_type(TokKind::Id) {
                return Err("Expected Identifier for Function Name");
            }
            let name = self.previous();
            self.match_tok(Token::ParenOpen);
            let args = match self.parse_args() {
                Ok(a) => a,
                Err(e) => {
                    return Err(e);
                },
            };
            if !self.match_tok(Token::ParenClose) {
                return Err("Expected Closing Parentheses after Function Call");
            }
            let e = Expr::FnCall(name, args);
            proof {
                unfold_expr_view(e);
            }
            return Ok(e);
        }
        self.parse_primary()
    }

    pub(crate) fn parse_cast(&mut self) -> (r: Result<Expr, &'static str>)
        requires
            old(self).wf(),
            !(p_cast(old(self).toks(), old(self).pos()) is Stuck),
        ensures
            parsed_as(*old(self), *final(self), r, p_cast(old(self).toks(), old(self).pos())),
        decreases old(self).toks().len() - old(self).pos(), 20nat,
    {
        proof {
            unfold_p_cast(self.toks(), self.pos());
        }
        let left = match self.parse_fn_call() {
            Ok(l) => l,
            Err(e) => {
                return Err(e);
            },
        };
        if self.match_tok(op_tok("as")) {
            let operator = self.previous();
            let to_type = match self.parse_type_declr() {
                Ok(t) => t,
                Err(e) => {
                    return Err(e);
                },
            };
            let e = Expr::Cast(Box::new(left), operator, to_type);
            proof {
                unfold_expr_view(e);
            }
            return Ok(e);
        }
        Ok(left)
    }

    pub(crate) fn parse_unary(&mut self) -> (r: Result<Expr, &'static str>)
        requires
            old(self).wf(),
            !(p_unary(old(self).toks(), old(self).pos()) is Stuck),
        ensures
            parsed_as(*old(self), *final(self), r, p_unary(old(self).toks(), old(self).pos())),
        decreases old(self).toks().len() - old(self).pos(), 21nat,
    {
        proof {
            unfold_p_unary(self.toks(), self.pos());
        }
        if self.match_tok(op_tok("!")) || self.match_tok(op_tok("-")) {
            let operator = self.previous();
            let right = match self.parse_cast() {
                Ok(r) => r,
                Err(e) => {
                    return Err(e);
                },
            };
            let e = Expr::Unary(operator, Box::new(right));
            proof {
                unfold_expr_view(e);
            }
            return Ok(e);
        }
        self.parse_cast()
    }

    pub(crate) fn parse_shift(&mut self) -> (r: Result<Expr, &'static str>)
        requires
            old(self).wf(),
            !(p_shift(old(self).toks(), old(self).pos()) is Stuck),
        ensures
            parsed_as(*old(self), *final(self), r, p_shift(old(self).toks(), old(self).pos())),
        decreases old(self).toks().len() - old(self).pos(), 22nat,
    {
        proof {
            unfold_p_shift(self.toks(), self.pos());
        }
        let left = match self.parse_unary() {
            Ok(l) => l,
            Err(e) => {
                return Err(e);
            },
        };
        if self.match_tok(op_tok("<<")) || self.match_tok(op_tok(">>")) {
            let operator = self.previous();
            let shift_amount = match self.parse_num_literal() {
                Ok(n) => n,
                Err(e) => {
                    return Err(e);
                },
            };
            let e = Expr::Shift(Box::new(left), operator, shift_amount);
            proof {
                unfold_expr_view(e);
            }
            return Ok(e);
        }
        Ok(left)
    }

    pub(crate) fn parse_term(&mut self) -> (r: Result<Expr, &'static str>)
        requires
            old(self).wf(),
            !(p_term(old(self).toks(), old(self).pos()) is Stuck),
        ensures
            parsed_as(*old(self), *final(self), r, p_term(old(self).toks(), old(self).pos())),
        decreases old(self).toks().len() - old(self).pos(), 24nat,
    {
        proof {
            unfold_p_term(self.toks(), self.pos());
        }
        let ghost t = self.toks();
        let ghost p0 = self.pos();
        let mut left = match self.parse_shift() {
            Ok(l) => l,
            Err(e) => {
                return Err(e);
            },
        };
        loop
            invariant
                self.wf(),
                self.toks() == t,
                t == old(self).toks(),
                p0 == old(self).pos(),
                self.pos() > p0,
                p_term(t, p0) == p_term_loop(t, self.pos(), left@),
                !(p_term(t, p0) is Stuck),
            decreases t.len() - self.pos(),
        {
            proof {
                unfold_p_term_loop(t, self.pos(), left@);
            }
            if !(self.match_tok(op_tok("+")) || self.match_tok(op_tok("-")) || self.match_tok(op_tok("&"))
                || self.match_tok(op_tok("|")) || self.match_tok(op_tok("~|"))) {
                return Ok(left);
            }
            let operator = self.previous();
            let right = match self.parse_shift() {
                Ok(r) => r,
                Err(e) => {
                    return Err(e);
                },
            };
            let b = BinaryExpr { left, operator, right };
            proof {
                unfold_binary_view(b);
            }
            left = Expr::Term(Box::new(b));
            proof {
                unfold_expr_view(left);
            }
        }
    }

    pub(crate) fn parse_comparison(&mut self) -> (r: Result<Expr, &'static str>)
        requires
            old(self).wf(),
            !(p_comparison(old(self).toks(), old(self).pos()) is Stuck),
        ensures
            parsed_as(*old(self), *final(self), r, p_comparison(old(self).toks(), old(self).pos())),
        decreases old(self).toks().len() - old(self).pos(), 26nat,
    {
        proof {
            unfold_p_comparison(self.toks(), self.pos());
        }
        let ghost t = self.toks();
        let ghost p0 = self.pos();
        let mut left = match self.parse_term() {
            Ok(l) => l,
            Err(e) => {
                return Err(e);
            },
        };
        loop
            invariant
                self.wf(),
                self.toks() == t,
                t == old(self).toks(),
                p0 == old(self).pos(),
                self.pos() > p0,
                p_comparison(t, p0) == p_comparison_loop(t, self.pos(), left@),
                !(p_comparison(t, p0) is Stuck),
            decreases t.len() - self.pos(),
        {
            proof {
                unfold_p_comparison_loop(t, self.pos(), left@);
            }
            if !(self.match_tok(cond_tok(">")) || self.match_tok(cond_tok("<")) || self.match_tok(cond_tok(">="))
                || self.match_tok(cond_tok("<=")) || self.match_tok(cond_tok("&&")) || self.match_tok(
                cond_tok("||"),
            )) {
                return Ok(left);
            }
            let operator = self.previous();
            let right = match self.parse_term() {
                Ok(r) => r,
                Err(e) => {
                    return Err(e);
                },
            };
            let b = BinaryExpr { left, operator, right };
            proof {
                unfold_binary_view(b);
            }
            left = Expr::Comparison(Box::new(b));
            proof {
                unfold_expr_view(left);
            }
        }
    }

    pub(crate) fn parse_equality(&mut self) -> (r: Result<Expr, &'static str>)
        requires
            old(self).wf(),
            !(p_equality(old(self).toks(), old(self).pos()) is Stuck),
        ensures
            parsed_as(*old(self), *final(self), r, p_equality(old(self).toks(), old(self).pos())),
        decreases old(self).toks().len() - old(self).pos(), 28nat,
    {
        proof {
            unfold_p_equality(self.toks(), self.pos());
        }
        let ghost t = self.toks();
        let ghost p0 = self.pos();
        let mut left = match self.parse_comparison() {
            Ok(l) => l,
            Err(e) => {
                return Err(e);
            },
        };
        loop
            invariant
                self.wf(),
                self.toks() == t,
                t == old(self).toks(),
                p0 == old(self).pos(),
                self.pos() > p0,
                p_equality(t, p0) == p_equality_loop(t, self.pos(), left@),
                !(p_equality(t, p0) is Stuck),
            decreases t.len() - self.pos(),
        {
            proof {
                unfold_p_equality_loop(t, self.pos(), left@);
            }
            if !(self.match_tok(cond_tok("==")) || self.match_tok(cond_tok("!="))) {
                return Ok(left);
            }
            let operator = self.previous();
            let right = match self.parse_comparison() {
                Ok(r) => r,
                Err(e) => {
                    return Err(e);
                },
            };
            let b = BinaryExpr { left, operator, right };
            proof {
                unfold_binary_view(b);
            }
            left = Expr::Equality(Box::new(b));
            proof {
                unfold_expr_view(left);
            }
        }
    }

    pub(crate) fn parse_assign(&mut self) -> (r: Result<Expr, &'static str>)
        requires
            old(self).wf(),
            !(p_assign(old(self).toks(), old(self).pos()) is Stuck),
        ensures
            parsed_as(*old(self), *final(self), r, p_assign(old(self).toks(), old(self).pos())),
        decreases old(self).toks().len() - old(self).pos(), 29nat,
    {
        proof {
            unfold_p_assign(self.toks(), self.pos());
        }
        let mut left = match self.parse_equality() {
            Ok(l) => l,
            Err(e) => {
                return Err(e);
            },
        };
        if self.match_tok(op_tok("=")) {
            let op = self.previous();
            let right = match self.parse_assign() {
                Ok(r) => r,
                Err(e) => {
                    return Err(e);
                },
            };
            let b = BinaryExpr { left, operator: op, right };
            proof {
                unfold_binary_view(b);
            }
            left = Expr::Assign(Box::new(b));
            proof {
                unfold_expr_view(left);
            }
        }
        Ok(left)
    }

    /// Reads an expression from the current position, as `p_expr` says.
    pub fn parse_expr(&mut self) -> (r: Result<Expr, &'static str>)
        requires
            old(self).wf(),
            !(p_expr(old(self).toks(), old(self).pos()) is Stuck),
        ensures
            parsed_as(*old(self), *final(self), r, p_expr(old(self).toks(), old(self).pos())),
        decreases old(self).toks().len() - old(self).pos(), 30nat,
    {
        proof {
            unfold_p_expr(self.toks(), self.pos());
        }
        self.parse_assign()
    }
}

} // verus!

