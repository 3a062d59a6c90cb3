//! The parser: tokens to a syntax tree, by recursive descent, following the
//! rules of `grammar`.

use vstd::prelude::*;
use crate::token::{Token, TokenV, token_text};
use crate::lexer::tokens_view;
use crate::grammar::{unfold_expr_stmt, unfold_assign_tail, unfold_program, unfold_block_items, unfold_stmt, unfold_assign, unfold_compound, unfold_if, unfold_while, unfold_block, unfold_let, unfold_expr, unfold_params, unfold_fn, unfold_or, unfold_or_tail, unfold_and, unfold_and_tail, unfold_cmp, unfold_addsub, unfold_addsub_tail, unfold_muldiv, unfold_muldiv_tail, unfold_unary, unfold_call, unfold_args, unfold_atom, unfold_concat, unfold_concat_tail, unfold_postfix, unfold_index_assign, unfold_index_compound};
use crate::grammar::{
    expr_stmt_spec,
    assign_tail_spec,
    ParseErrorV,
    Parsed,
    ok,
    fail,
    tk,
    expect_spec,
    unary_op_of,
    bin_op_of,
    cmp_op_of,
    program_spec,
    block_items_spec,
    stmt_spec,
    assign_spec,
    compound_spec,
    if_spec,
    while_spec,
    block_spec,
    let_spec,
    expr_spec,
    params_spec,
    fn_spec,
    or_spec,
    or_tail_spec,
    and_spec,
    and_tail_spec,
    cmp_spec,
    addsub_spec,
    addsub_tail_spec,
    muldiv_spec,
    muldiv_tail_spec,
    unary_spec,
    call_spec,
    args_spec,
    atom_spec,
    concat_spec,
    concat_tail_spec,
    postfix_spec,
    index_assign_spec,
    index_compound_spec,
};
use crate::text::string_of;
use crate::codegen::{
    wf_expr,
    wf_stmt,
    wf_stmts,
    wf_exprs,
    unfold_wf_expr,
    unfold_wf_exprs,
    unfold_wf_stmt,
    unfold_wf_stmts,
};
use crate::ast::{
    BinOp,
    CmpOp,
    UnaryOp,
    Stmt,
    Expr,
    StmtV,
    ExprV,
    exprs_v,
    stmts_v,
    strings_v,
    lemma_exprs_v_push,
    lemma_stmts_v_push,
    lemma_exprs_v_index,
    lemma_stmts_v_index,
    lemma_strings_v_push,
    lemma_expr_view,
    lemma_stmt_view,
    lemma_ident_view,
    lemma_expr_stmt_view,
};

verus! {

/// Why the parser rejected its input.
#[derive(Debug, Clone, PartialEq)]
pub enum ParseError {
    ExpectedToken(String, String),
    UnexpectedToken(String),
    ExpectedIdentifier(String),
    UnexpectedEof,
}

impl View for ParseError {
    type V = ParseErrorV;

    open spec fn view(&self) -> ParseErrorV {
        match self {
            ParseError::ExpectedToken(a, b) => ParseErrorV::ExpectedToken(a@, b@),
            ParseError::UnexpectedToken(a) => ParseErrorV::UnexpectedToken(a@),
            ParseError::ExpectedIdentifier(a) => ParseErrorV::ExpectedIdentifier(a@),
            ParseError::UnexpectedEof => ParseErrorV::UnexpectedEof,
        }
    }
}

// ---------------------------------------------------------------------------
// The parser
// ---------------------------------------------------------------------------

/// The parser's state: the tokens, the index of the next one, and how many
/// function literals enclose it (a `return` is accepted inside one only).
pub struct Parser {
    tokens: Vec<Token>,
    position: usize,
    in_func: usize,
}

/// The mathematical state of a parser.
pub struct ParserState {
    pub tokens: Seq<TokenV>,
    pub pos: int,
    pub depth: int,
}

impl View for Parser {
    type V = ParserState;

    closed spec fn view(&self) -> ParserState {
        ParserState { tokens: tokens_view(self.tokens@), pos: self.position as int, depth: self.in_func as int }
    }
}

/// A state from which the parser can read: the tokens end with `Eof` and the
/// next index lies inside them.
pub open spec fn ready(st: ParserState) -> bool {
    &&& 0 <= st.pos < st.tokens.len() < usize::MAX
    &&& st.tokens.last() is Eof
    &&& 0 <= st.depth <= st.pos
}

/// What every rule keeps: the tokens stay, the index stays inside them, and a
/// success moves forward without reading the closing `Eof`, at the same depth.
pub open spec fn rule_post(old: ParserState, fin: ParserState, success: bool) -> bool {
    &&& fin.tokens == old.tokens
    &&& fin.pos <= fin.tokens.len()
    &&& 0 <= fin.depth <= fin.pos
    &&& success ==> old.pos < fin.pos < fin.tokens.len() && fin.depth == old.depth
}

/// The parser's result and final state are those the rule gives.
pub open spec fn agrees_expr(sp: Parsed<ExprV>, r: &Result<Expr, ParseError>, fin: ParserState) -> bool {
    &&& fin.pos == sp.pos
    &&& fin.depth == sp.depth
    &&& match sp.res {
        Ok(v) => r matches Ok(x) && x@ == v,
        Err(e) => r matches Err(x) && x@ == e,
    }
}

pub open spec fn agrees_stmt(sp: Parsed<StmtV>, r: &Result<Stmt, ParseError>, fin: ParserState) -> bool {
    &&& fin.pos == sp.pos
    &&& fin.depth == sp.depth
    &&& match sp.res {
        Ok(v) => r matches Ok(x) && x@ == v,
        Err(e) => r matches Err(x) && x@ == e,
    }
}

pub open spec fn agrees_stmts(sp: Parsed<Seq<StmtV>>, r: &Result<Vec<Stmt>, ParseError>, fin: ParserState) -> bool {
    &&& fin.pos == sp.pos
    &&& fin.depth == sp.depth
    &&& match sp.res {
        Ok(v) => r matches Ok(x) && stmts_v(x@) == v,
        Err(e) => r matches Err(x) && x@ == e,
    }
}

pub open spec fn agrees_exprs(sp: Parsed<Seq<ExprV>>, r: &Result<Vec<Expr>, ParseError>, fin: ParserState) -> bool {
    &&& fin.pos == sp.pos
    &&& fin.depth == sp.depth
    &&& match sp.res {
        Ok(v) => r matches Ok(x) && exprs_v(x@) == v,
        Err(e) => r matches Err(x) && x@ == e,
    }
}

pub open spec fn agrees_unit(sp: Parsed<()>, r: &Result<(), ParseError>, fin: ParserState) -> bool {
    &&& fin.pos == sp.pos
    &&& fin.depth == sp.depth
    &&& match sp.res {
        Ok(_) => r is Ok,
        Err(e) => r matches Err(x) && x@ == e,
    }
}

/// A sequence result with `prefix` read before it.
pub open spec fn after<T>(prefix: Seq<T>, r: Parsed<Seq<T>>) -> Parsed<Seq<T>> {
    match r.res {
        Ok(rest) => ok(prefix + rest, r.pos, r.depth),
        Err(e) => fail(e, r.pos, r.depth),
    }
}

proof fn lemma_after_empty<T>(r: Parsed<Seq<T>>)
    ensures
        after(Seq::<T>::empty(), r) == r,
{
    match r.res {
        Ok(rest) => {
            assert(Seq::<T>::empty() + rest =~= rest);
        },
        Err(e) => {},
    }
}

proof fn lemma_after_push<T>(prefix: Seq<T>, x: T, r: Parsed<Seq<T>>)
    ensures
        after(prefix, after(seq![x], r)) == after(prefix.push(x), r),
{
    match r.res {
        Ok(rest) => {
            assert(prefix + (seq![x] + rest) =~= prefix.push(x) + rest);
        },
        Err(e) => {},
    }
}

fn make_error_expected(expected: &Token, found: &Token) -> (r: ParseError)
    ensures
        r@ == ParseErrorV::ExpectedToken(token_text(expected@), token_text(found@)),
{
    ParseError::ExpectedToken(expected.text(), found.text())
}

impl Parser {
    /// A parser at the first of `tokens`, outside any function literal.
    pub fn new(tokens: Vec<Token>) -> (r: Self)
        ensures
            r@ == (ParserState { tokens: tokens_view(tokens@), pos: 0, depth: 0 }),
    {
        Self { tokens, position: 0, in_func: 0 }
    }

    /// The tokens, the index and the depth of the parser.
    pub closed spec fn state(&self) -> ParserState {
        self@
    }

    fn peek(&self) -> (r: &Token)
        requires
            self@.pos < self@.tokens.len(),
        ensures
            r@ == tk(self@.tokens, self@.pos),
    {
        &self.tokens[self.position]
    }

    fn advance(&mut self) -> (r: Token)
        requires
            old(self)@.pos < old(self)@.tokens.len() < usize::MAX,
        ensures
            r@ == tk(old(self)@.tokens, old(self)@.pos),
            final(self)@ == (ParserState { pos: old(self)@.pos + 1, ..old(self)@ }),
    {
        assert(self@.tokens.len() == self.tokens@.len());
        let token = self.tokens[self.position].duplicate();
        self.position = self.position + 1;
        token
    }

    fn expect(&mut self, expected: Token) -> (r: Result<(), ParseError>)
        requires
            ready(old(self)@),
            !(expected@ is Eof),
        ensures
            agrees_unit(expect_spec(old(self)@.tokens, old(self)@.pos, old(self)@.depth, expected@), &r, final(self)@),
            rule_post(old(self)@, final(self)@, r is Ok),
    {
        let found = self.advance();
        if found.tag() == expected.tag() {
            Ok(())
        } else {
            Err(make_error_expected(&expected, &found))
        }
    }

    fn peek_unary_op(&self) -> (r: Option<UnaryOp>)
        requires
            self@.pos < self@.tokens.len(),
        ensures
            r == unary_op_of(tk(self@.tokens, self@.pos)),
    {
        match self.peek() {
            Token::Not => Some(UnaryOp::Not),
            Token::Minus => Some(UnaryOp::Neg),
            Token::Plus => Some(UnaryOp::Pos),
            _ => None,
        }
    }

    fn peek_bin_op(&self) -> (r: Option<BinOp>)
        requires
            self@.pos < self@.tokens.len(),
        ensures
            r == bin_op_of(tk(self@.tokens, self@.pos)),
    {
        match self.peek() {
            Token::Plus => Some(BinOp::Add),
            Token::Minus => Some(BinOp::Sub),
            Token::Star => Some(BinOp::Mul),
            Token::Slash => Some(BinOp::Div),
            _ => None,
        }
    }

    fn peek_cmp_op(&self) -> (r: Option<CmpOp>)
        requires
            self@.pos < self@.tokens.len(),
        ensures
            r == cmp_op_of(tk(self@.tokens, self@.pos)),
    {
        match self.peek() {
            Token::Eq => Some(CmpOp::Eq),
            Token::Gt => Some(CmpOp::Gt),
            Token::Lt => Some(CmpOp::Lt),
            Token::Gte => Some(CmpOp::Gte),
            Token::Lte => Some(CmpOp::Lte),
            Token::NEq => Some(CmpOp::NEq),
            _ => None,
        }
    }

    /// Parses statements up to `Eof`.
    pub fn parse(&mut self) -> (r: Result<Vec<Stmt>, ParseError>)
        requires
            ready(old(self)@),
        ensures
            agrees_stmts(program_spec(old(self)@.tokens, old(self)@.pos, old(self)@.depth), &r, final(self)@),
            rule_post(old(self)@, final(self)@, false),
            r matches Ok(v) ==> wf_stmts(stmts_v(v@)),
    {
        proof {
            unfold_program(self@.tokens, self@.pos, self@.depth);
        }
        let ghost st0 = self@;
        let mut stmts: Vec<Stmt> = Vec::new();
        proof {
            lemma_after_empty(program_spec(st0.tokens, st0.pos, st0.depth));
        }
        while !matches!(self.peek(), Token::Eof)
            invariant
                st0 == old(self)@,
                ready(self@),
                self@.tokens == st0.tokens,
                st0.pos <= self@.pos,
                self@.depth == st0.depth,
                program_spec(st0.tokens, st0.pos, st0.depth)
                    == after(stmts_v(stmts@), program_spec(self@.tokens, self@.pos, self@.depth)),
                forall|i: int| 0 <= i < stmts@.len() ==> wf_stmt(#[trigger] stmts@[i]@),
            decreases self@.tokens.len() - self@.pos,
        {
            proof {
                unfold_program(self@.tokens, self@.pos, self@.depth);
            }
            let ghost here = self@;
            let stmt = match self.parse_stmt() {
                Ok(s) => s,
                Err(e) => {
                    return Err(e);
                },
            };
            proof {
                lemma_stmts_v_push(stmts@, stmt);
                lemma_after_push(stmts_v(stmts@), stmt@, program_spec(self@.tokens, self@.pos, self@.depth));
            }
            stmts.push(stmt);
        }
        proof {
            unfold_program(self@.tokens, self@.pos, self@.depth);
        }
        assert(stmts_v(stmts@) + Seq::<StmtV>::empty() =~= stmts_v(stmts@));
        proof {
            lemma_stmts_v_index(stmts@);
            unfold_wf_stmts(stmts_v(stmts@));
            assert forall|i: int| 0 <= i < stmts_v(stmts@).len() implies wf_stmt(#[trigger] stmts_v(stmts@)[i]) by {
                assert(stmts_v(stmts@)[i] == stmts@[i]@);
            }
        }
        Ok(stmts)
    }
}

impl Parser {
    fn parse_stmt(&mut self) -> (r: Result<Stmt, ParseError>)
        requires
            ready(old(self)@),
        ensures
            agrees_stmt(stmt_spec(old(self)@.tokens, old(self)@.pos, old(self)@.depth), &r, final(self)@),
            rule_post(old(self)@, final(self)@, r is Ok),
            r matches Ok(st) ==> wf_stmt(st@),
        decreases old(self)@.tokens.len() - old(self)@.pos, 38int,
    {
        proof {
            unfold_stmt(self@.tokens, self@.pos, self@.depth);
        }
        let ghost st0 = self@;
        match self.peek() {
            Token::Let => self.parse_let_stmt(),
            Token::If => self.parse_if_stmt(),
            Token::While => self.parse_while_stmt(),
            Token::LBrace => self.parse_block(),
            Token::Return => {
                if self.in_func == 0 {
                    return Err(ParseError::UnexpectedToken(string_of(&vec!['r', 'e', 't', 'u', 'r', 'n'])));
                }
                self.advance();
                let value = match self.parse_expr() {
                    Ok(v) => v,
                    Err(e) => {
                        return Err(e);
                    },
                };
                let res = Stmt::Return(value);
                proof {
                    lemma_stmt_view(res);
                    unfold_wf_stmt(res@);
                }
                match self.expect(Token::Semicolon) {
                    Ok(()) => Ok(res),
                    Err(e) => Err(e),
                }
            },
            _ => self.parse_expr_stmt(),
        }
    }

    fn parse_expr_stmt(&mut self) -> (r: Result<Stmt, ParseError>)
        requires
            ready(old(self)@),
        ensures
            agrees_stmt(expr_stmt_spec(old(self)@.tokens, old(self)@.pos, old(self)@.depth), &r, final(self)@),
            rule_post(old(self)@, final(self)@, r is Ok),
            r matches Ok(st) ==> wf_stmt(st@),
        decreases old(self)@.tokens.len() - old(self)@.pos, 37int,
    {
        proof {
            unfold_expr_stmt(self@.tokens, self@.pos, self@.depth);
        }
        let left = match self.parse_expr() {
            Ok(v) => v,
            Err(e) => {
                return Err(e);
            },
        };
        let res = match self.parse_assign_tail(left) {
            Ok(v) => v,
            Err(e) => {
                return Err(e);
            },
        };
        match self.expect(Token::Semicolon) {
            Ok(()) => Ok(res),
            Err(e) => Err(e),
        }
    }

    fn parse_assign_tail(&mut self, left: Expr) -> (r: Result<Stmt, ParseError>)
        requires
            ready(old(self)@),
            wf_expr(left@),
        ensures
            agrees_stmt(assign_tail_spec(old(self)@.tokens, old(self)@.pos, old(self)@.depth, left@), &r, final(self)@),
            rule_post(old(self)@, final(self)@, false),
            r matches Ok(st) ==> wf_stmt(st@),
            r is Ok ==> old(self)@.pos <= final(self)@.pos < final(self)@.tokens.len() && final(self)@.depth == old(self)@.depth,
        decreases old(self)@.tokens.len() - old(self)@.pos, 37int,
    {
        proof {
            unfold_assign_tail(self@.tokens, self@.pos, self@.depth, left@);
            lemma_ident_view(left);
        }
        match left {
            Expr::Ident(name) => match self.peek() {
                Token::Assign => self.parse_assign_stmt(name),
                Token::PlusAssign => self.parse_compound_assign_stmt(name, BinOp::Add),
                Token::MinusAssign => self.parse_compound_assign_stmt(name, BinOp::Sub),
                Token::StarAssign => self.parse_compound_assign_stmt(name, BinOp::Mul),
                Token::SlashAssign => self.parse_compound_assign_stmt(name, BinOp::Div),
                _ => {
                    let e = Expr::Ident(name);
                    proof {
                        lemma_ident_view(e);
                        lemma_expr_stmt_view(e);
                        unfold_wf_stmt(Stmt::Expr(e)@);
                        unfold_wf_expr(e@);
                    }
                    Ok(Stmt::Expr(e))
                },
            },
            Expr::Index { obj, key } => {
                proof {
                    unfold_wf_expr(left@);
                }
                match self.peek() {
                    Token::Assign => self.parse_index_assign_stmt(*obj, *key),
                    Token::PlusAssign => self.parse_index_compound_stmt(*obj, *key, BinOp::Add),
                    Token::MinusAssign => self.parse_index_compound_stmt(*obj, *key, BinOp::Sub),
                    Token::StarAssign => self.parse_index_compound_stmt(*obj, *key, BinOp::Mul),
                    Token::SlashAssign => self.parse_index_compound_stmt(*obj, *key, BinOp::Div),
                    _ => {
                        let e = Expr::Index { obj, key };
                        proof {
                            lemma_expr_stmt_view(e);
                            unfold_wf_stmt(Stmt::Expr(e)@);
                        }
                        Ok(Stmt::Expr(e))
                    },
                }
            },
            other => {
                proof {
                    lemma_expr_stmt_view(other);
                    unfold_wf_stmt(Stmt::Expr(other)@);
                }
                Ok(Stmt::Expr(other))
            },
        }
    }

    fn parse_index_assign_stmt(&mut self, obj: Expr, key: Expr) -> (r: Result<Stmt, ParseError>)
        requires
            ready(old(self)@),
            wf_expr(obj@),
            wf_expr(key@),
        ensures
            agrees_stmt(index_assign_spec(old(self)@.tokens, old(self)@.pos, old(self)@.depth, obj@, key@), &r, final(self)@),
            rule_post(old(self)@, final(self)@, r is Ok),
            r matches Ok(st) ==> wf_stmt(st@),
        decreases old(self)@.tokens.len() - old(self)@.pos, 36int,
    {
        proof {
            unfold_index_assign(self@.tokens, self@.pos, self@.depth, obj@, key@);
        }
        match self.expect(Token::Assign) {
            Ok(()) => {},
            Err(e) => {
                return Err(e);
            },
        }
        let value = match self.parse_expr() {
            Ok(v) => v,
            Err(e) => {
                return Err(e);
            },
        };
        {
            let built = Stmt::IndexAssign { obj, key, value };
            proof {
                lemma_stmt_view(built);
                unfold_wf_stmt(built@);
            }
            Ok(built)
        }
    }

    fn parse_index_compound_stmt(&mut self, obj: Expr, key: Expr, op: BinOp) -> (r: Result<Stmt, ParseError>)
        requires
            ready(old(self)@),
            !(tk(old(self)@.tokens, old(self)@.pos) is Eof),
            wf_expr(obj@),
            wf_expr(key@),
        ensures
            agrees_stmt(index_compound_spec(old(self)@.tokens, old(self)@.pos, old(self)@.depth, obj@, key@, op), &r, final(self)@),
            rule_post(old(self)@, final(self)@, r is Ok),
            r matches Ok(st) ==> wf_stmt(st@),
        decreases old(self)@.tokens.len() - old(self)@.pos, 36int,
    {
        proof {
            unfold_index_compound(self@.tokens, self@.pos, self@.depth, obj@, key@, op);
        }
        self.advance();
        let value = match self.parse_cmp_op() {
            Ok(v) => v,
            Err(e) => {
                return Err(e);
            },
        };
        {
            let built = Stmt::IndexCompoundAssign { obj, key, op, value };
            proof {
                lemma_stmt_view(built);
                unfold_wf_stmt(built@);
            }
            Ok(built)
        }
    }

    fn parse_assign_stmt(&mut self, name: String) -> (r: Result<Stmt, ParseError>)
        requires
            ready(old(self)@),
        ensures
            agrees_stmt(assign_spec(old(self)@.tokens, old(self)@.pos, old(self)@.depth, name@), &r, final(self)@),
            rule_post(old(self)@, final(self)@, r is Ok),
            r matches Ok(st) ==> wf_stmt(st@),
        decreases old(self)@.tokens.len() - old(self)@.pos, 36int,
    {
        proof {
            unfold_assign(self@.tokens, self@.pos, self@.depth, name@);
        }
        match self.expect(Token::Assign) {
            Ok(()) => {},
            Err(e) => {
                return Err(e);
            },
        }
        let value = match self.parse_expr() {
            Ok(v) => v,
            Err(e) => {
                return Err(e);
            },
        };
        {
            let built = Stmt::Assign { name, value };
            proof {
                lemma_stmt_view(built);
                unfold_wf_stmt(built@);
            }
            Ok(built)
        }
    }

    fn parse_compound_assign_stmt(&mut self, name: String, op: BinOp) -> (r: Result<Stmt, ParseError>)
        requires
            ready(old(self)@),
            !(tk(old(self)@.tokens, old(self)@.pos) is Eof),
        ensures
            agrees_stmt(compound_spec(old(self)@.tokens, old(self)@.pos, old(self)@.depth, name@, op), &r, final(self)@),
            rule_post(old(self)@, final(self)@, r is Ok),
            r matches Ok(st) ==> wf_stmt(st@),
        decreases old(self)@.tokens.len() - old(self)@.pos, 36int,
    {
        proof {
            unfold_compound(self@.tokens, self@.pos, self@.depth, name@, op);
        }
        self.advance();
        let value = match self.parse_cmp_op() {
            Ok(v) => v,
            Err(e) => {
                return Err(e);
            },
        };
        {
            let built = Stmt::CompoundAssign { name, op, value };
            proof {
                lemma_stmt_view(built);
                unfold_wf_stmt(built@);
            }
            Ok(built)
        }
    }

    fn parse_if_stmt(&mut self) -> (r: Result<Stmt, ParseError>)
        requires
            ready(old(self)@),
            tk(old(self)@.tokens, old(self)@.pos) is If,
        ensures
            agrees_stmt(if_spec(old(self)@.tokens, old(self)@.pos, old(self)@.depth), &r, final(self)@),
            rule_post(old(self)@, final(self)@, r is Ok),
            r matches Ok(st) ==> wf_stmt(st@),
        decreases old(self)@.tokens.len() - old(self)@.pos, 37int,
    {
        proof {
            unfold_if(self@.tokens, self@.pos, self@.depth);
        }
        self.advance();
        let condition = match self.parse_expr() {
            Ok(v) => v,
            Err(e) => {
                return Err(e);
            },
        };
        let then_branch = match self.parse_stmt() {
            Ok(v) => v,
            Err(e) => {
                return Err(e);
            },
        };
        let else_branch = if matches!(self.peek(), Token::Else) {
            self.advance();
            match self.parse_stmt() {
                Ok(v) => Some(Box::new(v)),
                Err(e) => {
                    return Err(e);
                },
            }
        } else {
            None
        };
        {
            let built = Stmt::IfElse { condition, then_branch: Box::new(then_branch), else_branch };
            proof {
                lemma_stmt_view(built);
                unfold_wf_stmt(built@);
            }
            Ok(built)
        }
    }

    fn parse_while_stmt(&mut self) -> (r: Result<Stmt, ParseError>)
        requires
            ready(old(self)@),
            tk(old(self)@.tokens, old(self)@.pos) is While,
        ensures
            agrees_stmt(while_spec(old(self)@.tokens, old(self)@.pos, old(self)@.depth), &r, final(self)@),
            rule_post(old(self)@, final(self)@, r is Ok),
            r matches Ok(st) ==> wf_stmt(st@),
        decreases old(self)@.tokens.len() - old(self)@.pos, 37int,
    {
        proof {
            unfold_while(self@.tokens, self@.pos, self@.depth);
        }
        self.advance();
        let condition = match self.parse_expr() {
            Ok(v) => v,
            Err(e) => {
                return Err(e);
            },
        };
        let block = match self.parse_stmt() {
            Ok(v) => v,
            Err(e) => {
                return Err(e);
            },
        };
        {
            let built = Stmt::While { condition, block: Box::new(block) };
            proof {
                lemma_stmt_view(built);
                unfold_wf_stmt(built@);
            }
            Ok(built)
        }
    }

    fn parse_block(&mut self) -> (r: Result<Stmt, ParseError>)
        requires
            ready(old(self)@),
        ensures
            agrees_stmt(block_spec(old(self)@.tokens, old(self)@.pos, old(self)@.depth), &r, final(self)@),
            rule_post(old(self)@, final(self)@, r is Ok),
            r matches Ok(st) ==> wf_stmt(st@),
            r matches Ok(st) ==> st is Block,
        decreases old(self)@.tokens.len() - old(self)@.pos, 37int,
    {
        proof {
            unfold_block(self@.tokens, self@.pos, self@.depth);
            unfold_block_items(self@.tokens, self@.pos + 1, self@.depth);
        }
        let ghost st0 = self@;
        match self.expect(Token::LBrace) {
            Ok(()) => {},
            Err(e) => {
                return Err(e);
            },
        }
        let ghost st1 = self@;
        let mut stmts: Vec<Stmt> = Vec::new();
        proof {
            lemma_after_empty(block_items_spec(st1.tokens, st1.pos, st1.depth));
        }
        while !matches!(self.peek(), Token::RBrace) && !matches!(self.peek(), Token::Eof)
            invariant
                st0 == old(self)@,
                ready(self@),
                self@.tokens == st0.tokens,
                st1.pos <= self@.pos,
                st0.pos < st1.pos,
                self@.depth == st0.depth,
                st1.depth == st0.depth,
                expect_spec(st0.tokens, st0.pos, st0.depth, TokenV::LBrace).res is Ok,
                st1.pos == st0.pos + 1,
                st1.tokens == st0.tokens,
                ready(st0),
                block_items_spec(st1.tokens, st1.pos, st1.depth)
                    == after(stmts_v(stmts@), block_items_spec(self@.tokens, self@.pos, self@.depth)),
                forall|i: int| 0 <= i < stmts@.len() ==> wf_stmt(#[trigger] stmts@[i]@),
            decreases self@.tokens.len() - self@.pos,
        {
            proof {
                unfold_block_items(self@.tokens, self@.pos, self@.depth);
                unfold_block(st0.tokens, st0.pos, st0.depth);
            }
            let stmt = match self.parse_stmt() {
                Ok(s) => s,
                Err(e) => {
                    return Err(e);
                },
            };
            proof {
                lemma_stmts_v_push(stmts@, stmt);
                lemma_after_push(stmts_v(stmts@), stmt@, block_items_spec(self@.tokens, self@.pos, self@.depth));
            }
            stmts.push(stmt);
        }
        proof {
            unfold_block_items(self@.tokens, self@.pos, self@.depth);
        }
        assert(stmts_v(stmts@) + Seq::<StmtV>::empty() =~= stmts_v(stmts@));
        proof {
            lemma_stmts_v_index(stmts@);
            unfold_wf_stmts(stmts_v(stmts@));
            assert forall|i: int| 0 <= i < stmts_v(stmts@).len() implies wf_stmt(#[trigger] stmts_v(stmts@)[i]) by {
                assert(stmts_v(stmts@)[i] == stmts@[i]@);
            }
        }
        match self.expect(Token::RBrace) {
            Ok(()) => {
                let built = Stmt::Block(stmts);
                proof {
                    lemma_stmt_view(built);
                    unfold_wf_stmt(built@);
                }
                Ok(built)
            },
            Err(e) => Err(e),
        }
    }

    fn parse_let_stmt(&mut self) -> (r: Result<Stmt, ParseError>)
        requires
            ready(old(self)@),
            tk(old(self)@.tokens, old(self)@.pos) is Let,
        ensures
            agrees_stmt(let_spec(old(self)@.tokens, old(self)@.pos, old(self)@.depth), &r, final(self)@),
            rule_post(old(self)@, final(self)@, r is Ok),
            r matches Ok(st) ==> wf_stmt(st@),
        decreases old(self)@.tokens.len() - old(self)@.pos, 37int,
    {
        proof {
            unfold_let(self@.tokens, self@.pos, self@.depth);
        }
        self.advance();
        let name = match self.advance() {
            Token::Ident(name) => name,
            other => {
                return Err(ParseError::ExpectedIdentifier(other.text()));
            },
        };
        match self.expect(Token::Assign) {
            Ok(()) => {},
            Err(e) => {
                return Err(e);
            },
        }
        let value = match self.parse_expr() {
            Ok(v) => v,
            Err(e) => {
                return Err(e);
            },
        };
        match self.expect(Token::Semicolon) {
            Ok(()) => {
                let built = Stmt::Let { name, value };
                proof {
                    lemma_stmt_view(built);
                    unfold_wf_stmt(built@);
                }
                Ok(built)
            },
            Err(e) => Err(e),
        }
    }
}

impl Parser {
    fn parse_expr(&mut self) -> (r: Result<Expr, ParseError>)
        requires
            ready(old(self)@),
        ensures
            agrees_expr(expr_spec(old(self)@.tokens, old(self)@.pos, old(self)@.depth), &r, final(self)@),
            rule_post(old(self)@, final(self)@, r is Ok),
            r matches Ok(e) ==> wf_expr(e@),
        decreases old(self)@.tokens.len() - old(self)@.pos, 30int,
    {
        proof {
            unfold_expr(self@.tokens, self@.pos, self@.depth);
        }
        if matches!(self.peek(), Token::Fn) {
            self.parse_fn()
        } else {
            self.parse_concat()
        }
    }

    fn parse_fn(&mut self) -> (r: Result<Expr, ParseError>)
        requires
            ready(old(self)@),
            tk(old(self)@.tokens, old(self)@.pos) is Fn,
        ensures
            agrees_expr(fn_spec(old(self)@.tokens, old(self)@.pos, old(self)@.depth), &r, final(self)@),
            rule_post(old(self)@, final(self)@, r is Ok),
            r matches Ok(e) ==> wf_expr(e@),
        decreases old(self)@.tokens.len() - old(self)@.pos, 29int,
    {
        proof {
            unfold_fn(self@.tokens, self@.pos, self@.depth);
            unfold_params(self@.tokens, self@.pos + 2, self@.depth);
        }
        let ghost st0 = self@;
        self.advance();
        match self.expect(Token::LParen) {
            Ok(()) => {},
            Err(e) => {
                return Err(e);
            },
        }
        let ghost st2 = self@;
        let mut args: Vec<String> = Vec::new();
        assert(params_spec(st2.tokens, st2.pos, st2.depth) == after(strings_v(args@), params_spec(st2.tokens, st2.pos, st2.depth))) by {
            assert(strings_v(args@) =~= Seq::<Seq<char>>::empty());
            lemma_after_empty(params_spec(st2.tokens, st2.pos, st2.depth));
        }
        while !matches!(self.peek(), Token::RParen) && !matches!(self.peek(), Token::Eof)
            invariant
                st0 == old(self)@,
                ready(self@),
                self@.tokens == st0.tokens,
                st2.pos <= self@.pos,
                st0.pos < st2.pos,
                self@.depth == st0.depth,
                st2.depth == st0.depth,
                expect_spec(st0.tokens, st0.pos + 1, st0.depth, TokenV::LParen).res is Ok,
                st2.pos == st0.pos + 2,
                st2.tokens == st0.tokens,
                ready(st0),
                tk(st0.tokens, st0.pos) is Fn,
                params_spec(st2.tokens, st2.pos, st2.depth)
                    == after(strings_v(args@), params_spec(self@.tokens, self@.pos, self@.depth)),
            decreases self@.tokens.len() - self@.pos,
        {
            proof {
                unfold_params(self@.tokens, self@.pos, self@.depth);
                unfold_fn(st0.tokens, st0.pos, st0.depth);
            }
            let ghost here = self@;
            let arg = match self.advance() {
                Token::Ident(name) => name,
                other => {
                    return Err(ParseError::ExpectedIdentifier(other.text()));
                },
            };
            let ghost before = args@;
            let ghost arg_v = arg@;
            proof {
                lemma_strings_v_push(args@, arg);
            }
            args.push(arg);
            if matches!(self.peek(), Token::Comma) {
                self.advance();
                proof {
                    let r = params_spec(self@.tokens, self@.pos, self@.depth);
                    assert(params_spec(here.tokens, here.pos, here.depth) == after(seq![arg_v], r)) by {
                        match r.res {
                            Ok(xs) => {},
                            Err(er) => {},
                        }
                    }
                    lemma_after_push(strings_v(before), arg_v, r);
                }
            } else if !matches!(self.peek(), Token::RParen) && !matches!(self.peek(), Token::Eof) {
                return Err(ParseError::UnexpectedToken(self.peek().text()));
            } else {
                proof {
                    unfold_params(self@.tokens, self@.pos, self@.depth);
                    assert(seq![arg_v] + Seq::<Seq<char>>::empty() =~= seq![arg_v]);
                    lemma_after_push(strings_v(before), arg_v, params_spec(self@.tokens, self@.pos, self@.depth));
                }
            }
        }
        proof {
            unfold_params(self@.tokens, self@.pos, self@.depth);
        }
        assert(strings_v(args@) + Seq::<Seq<char>>::empty() =~= strings_v(args@));
        match self.expect(Token::RParen) {
            Ok(()) => {},
            Err(e) => {
                return Err(e);
            },
        }
        self.in_func = self.in_func + 1;
        let block = match self.parse_block() {
            Ok(b) => b,
            Err(e) => {
                return Err(e);
            },
        };
        self.in_func = self.in_func - 1;
        {
            let built = Expr::Fn(args, Box::new(block));
            proof {
                lemma_expr_view(built);
                unfold_wf_expr(built@);
            }
            Ok(built)
        }
    }

    fn parse_concat(&mut self) -> (r: Result<Expr, ParseError>)
        requires
            ready(old(self)@),
        ensures
            agrees_expr(concat_spec(old(self)@.tokens, old(self)@.pos, old(self)@.depth), &r, final(self)@),
            rule_post(old(self)@, final(self)@, r is Ok),
            r matches Ok(e) ==> wf_expr(e@),
        decreases old(self)@.tokens.len() - old(self)@.pos, 29int,
    {
        proof {
            unfold_concat(self@.tokens, self@.pos, self@.depth);
        }
        let ghost st0 = self@;
        let mut left = match self.parse_or_op() {
            Ok(v) => v,
            Err(e) => {
                return Err(e);
            },
        };
        while matches!(self.peek(), Token::DotDot)
            invariant
                st0 == old(self)@,
                ready(self@),
                self@.tokens == st0.tokens,
                st0.pos < self@.pos,
                self@.depth == st0.depth,
                concat_spec(st0.tokens, st0.pos, st0.depth) == concat_tail_spec(self@.tokens, self@.pos, self@.depth, left@),
                wf_expr(left@),
            decreases self@.tokens.len() - self@.pos,
        {
            proof {
                unfold_concat_tail(self@.tokens, self@.pos, self@.depth, left@);
            }
            self.advance();
            let right = match self.parse_or_op() {
                Ok(v) => v,
                Err(e) => {
                    return Err(e);
                },
            };
            left = Expr::Concat { left: Box::new(left), right: Box::new(right) };
            proof {
                lemma_expr_view(left);
                unfold_wf_expr(left@);
            }
        }
        proof {
            unfold_concat_tail(self@.tokens, self@.pos, self@.depth, left@);
        }
        Ok(left)
    }

    fn parse_or_op(&mut self) -> (r: Result<Expr, ParseError>)
        requires
            ready(old(self)@),
        ensures
            agrees_expr(or_spec(old(self)@.tokens, old(self)@.pos, old(self)@.depth), &r, final(self)@),
            rule_post(old(self)@, final(self)@, r is Ok),
            r matches Ok(e) ==> wf_expr(e@),
        decreases old(self)@.tokens.len() - old(self)@.pos, 28int,
    {
        proof {
            unfold_or(self@.tokens, self@.pos, self@.depth);
        }
        let ghost st0 = self@;
        let mut left = match self.parse_and_op() {
            Ok(v) => v,
            Err(e) => {
                return Err(e);
            },
        };
        while matches!(self.peek(), Token::Or)
            invariant
                st0 == old(self)@,
                ready(self@),
                self@.tokens == st0.tokens,
                st0.pos < self@.pos,
                self@.depth == st0.depth,
                or_spec(st0.tokens, st0.pos, st0.depth) == or_tail_spec(self@.tokens, self@.pos, self@.depth, left@),
                wf_expr(left@),
            decreases self@.tokens.len() - self@.pos,
        {
            proof {
                unfold_or_tail(self@.tokens, self@.pos, self@.depth, left@);
            }
            self.advance();
            let right = match self.parse_and_op() {
                Ok(v) => v,
                Err(e) => {
                    return Err(e);
                },
            };
            left = Expr::OrOp { left: Box::new(left), right: Box::new(right) };
            proof {
                lemma_expr_view(left);
                unfold_wf_expr(left@);
            }
        }
        proof {
            unfold_or_tail(self@.tokens, self@.pos, self@.depth, left@);
        }
        Ok(left)
    }

    fn parse_and_op(&mut self) -> (r: Result<Expr, ParseError>)
        requires
            ready(old(self)@),
        ensures
            agrees_expr(and_spec(old(self)@.tokens, old(self)@.pos, old(self)@.depth), &r, final(self)@),
            rule_post(old(self)@, final(self)@, r is Ok),
            r matches Ok(e) ==> wf_expr(e@),
        decreases old(self)@.tokens.len() - old(self)@.pos, 27int,
    {
        proof {
            unfold_and(self@.tokens, self@.pos, self@.depth);
        }
        let ghost st0 = self@;
        let mut left = match self.parse_cmp_op() {
            Ok(v) => v,
            Err(e) => {
                return Err(e);
            },
        };
        while matches!(self.peek(), Token::And)
            invariant
                st0 == old(self)@,
                ready(self@),
                self@.tokens == st0.tokens,
                st0.pos < self@.pos,
                self@.depth == st0.depth,
                and_spec(st0.tokens, st0.pos, st0.depth) == and_tail_spec(self@.tokens, self@.pos, self@.depth, left@),
                wf_expr(left@),
            decreases self@.tokens.len() - self@.pos,
        {
            proof {
                unfold_and_tail(self@.tokens, self@.pos, self@.depth, left@);
            }
            self.advance();
            let right = match self.parse_cmp_op() {
                Ok(v) => v,
                Err(e) => {
                    return Err(e);
                },
            };
            left = Expr::AndOp { left: Box::new(left), right: Box::new(right) };
            proof {
                lemma_expr_view(left);
                unfold_wf_expr(left@);
            }
        }
        proof {
            unfold_and_tail(self@.tokens, self@.pos, self@.depth, left@);
        }
        Ok(left)
    }

    #[verifier::rlimit(60)]
    fn parse_cmp_op(&mut self) -> (r: Result<Expr, ParseError>)
        requires
            ready(old(self)@),
        ensures
            agrees_expr(cmp_spec(old(self)@.tokens, old(self)@.pos, old(self)@.depth), &r, final(self)@),
            rule_post(old(self)@, final(self)@, r is Ok),
            r matches Ok(e) ==> wf_expr(e@),
        decreases old(self)@.tokens.len() - old(self)@.pos, 26int,
    {
        proof {
            unfold_cmp(self@.tokens, self@.pos, self@.depth);
        }
        let left = match self.parse_addsub() {
            Ok(v) => v,
            Err(e) => {
                return Err(e);
            },
        };
        let op = match self.peek_cmp_op() {
            Some(op) => op,
            None => {
                return Ok(left);
            },
        };
        self.advance();
        let right = match self.parse_addsub() {
            Ok(v) => v,
            Err(e) => {
                return Err(e);
            },
        };
        {
            let built = Expr::CompareOp { left: Box::new(left), op, right: Box::new(right) };
            proof {
                lemma_expr_view(built);
                unfold_wf_expr(built@);
            }
            Ok(built)
        }
    }

    fn parse_addsub(&mut self) -> (r: Result<Expr, ParseError>)
        requires
            ready(old(self)@),
        ensures
            agrees_expr(addsub_spec(old(self)@.tokens, old(self)@.pos, old(self)@.depth), &r, final(self)@),
            rule_post(old(self)@, final(self)@, r is Ok),
            r matches Ok(e) ==> wf_expr(e@),
        decreases old(self)@.tokens.len() - old(self)@.pos, 25int,
    {
        proof {
            unfold_addsub(self@.tokens, self@.pos, self@.depth);
        }
        let ghost st0 = self@;
        let mut left = match self.parse_muldiv() {
            Ok(v) => v,
            Err(e) => {
                return Err(e);
            },
        };
        loop
            invariant
                st0 == old(self)@,
                ready(self@),
                self@.tokens == st0.tokens,
                st0.pos < self@.pos,
                self@.depth == st0.depth,
                addsub_spec(st0.tokens, st0.pos, st0.depth) == addsub_tail_spec(self@.tokens, self@.pos, self@.depth, left@),
                wf_expr(left@),
            ensures
                st0 == old(self)@,
                ready(self@),
                self@.tokens == st0.tokens,
                st0.pos < self@.pos,
                self@.depth == st0.depth,
                addsub_spec(st0.tokens, st0.pos, st0.depth) == ok(left@, self@.pos, self@.depth),
                wf_expr(left@),
            decreases self@.tokens.len() - self@.pos,
        {
            proof {
                unfold_addsub_tail(self@.tokens, self@.pos, self@.depth, left@);
            }
            let op = match self.peek_bin_op() {
                Some(op) => op,
                None => {
                    break;
                },
            };
            match op {
                BinOp::Add | BinOp::Sub => {
                    self.advance();
                    let right = match self.parse_muldiv() {
                        Ok(v) => v,
                        Err(e) => {
                            return Err(e);
                        },
                    };
                    left = Expr::BinaryOp { left: Box::new(left), op, right: Box::new(right) };
                    proof {
                        lemma_expr_view(left);
                        unfold_wf_expr(left@);
                    }
                },
                _ => {
                    break;
                },
            }
        }
        Ok(left)
    }

    fn parse_muldiv(&mut self) -> (r: Result<Expr, ParseError>)
        requires
            ready(old(self)@),
        ensures
            agrees_expr(muldiv_spec(old(self)@.tokens, old(self)@.pos, old(self)@.depth), &r, final(self)@),
            rule_post(old(self)@, final(self)@, r is Ok),
            r matches Ok(e) ==> wf_expr(e@),
        decreases old(self)@.tokens.len() - old(self)@.pos, 24int,
    {
        proof {
            unfold_muldiv(self@.tokens, self@.pos, self@.depth);
        }
        let ghost st0 = self@;
        let mut left = match self.parse_unary() {
            Ok(v) => v,
            Err(e) => {
                return Err(e);
            },
        };
        loop
            invariant
                st0 == old(self)@,
                ready(self@),
                self@.tokens == st0.tokens,
                st0.pos < self@.pos,
                self@.depth == st0.depth,
                muldiv_spec(st0.tokens, st0.pos, st0.depth) == muldiv_tail_spec(self@.tokens, self@.pos, self@.depth, left@),
                wf_expr(left@),
            ensures
                st0 == old(self)@,
                ready(self@),
                self@.tokens == st0.tokens,
                st0.pos < self@.pos,
                self@.depth == st0.depth,
                muldiv_spec(st0.tokens, st0.pos, st0.depth) == ok(left@, self@.pos, self@.depth),
                wf_expr(left@),
            decreases self@.tokens.len() - self@.pos,
        {
            proof {
                unfold_muldiv_tail(self@.tokens, self@.pos, self@.depth, left@);
            }
            let op = match self.peek_bin_op() {
                Some(op) => op,
                None => {
                    break;
                },
            };
            match op {
                BinOp::Mul | BinOp::Div => {
                    self.advance();
                    let right = match self.parse_unary() {
                        Ok(v) => v,
                        Err(e) => {
                            return Err(e);
                        },
                    };
                    left = Expr::BinaryOp { left: Box::new(left), op, right: Box::new(right) };
                    proof {
                        lemma_expr_view(left);
                        unfold_wf_expr(left@);
                    }
                },
                _ => {
                    break;
                },
            }
        }
        Ok(left)
    }

    /// Parses a prefix expression: `not` and `-` build a `Unary` node, a `+`
    /// prefix is read and dropped, anything else is a call or an atom.
    pub fn parse_unary(&mut self) -> (r: Result<Expr, ParseError>)
        requires
            ready(old(self)@),
        ensures
            agrees_expr(unary_spec(old(self)@.tokens, old(self)@.pos, old(self)@.depth), &r, final(self)@),
            rule_post(old(self)@, final(self)@, r is Ok),
            r matches Ok(e) ==> wf_expr(e@),
        decreases old(self)@.tokens.len() - old(self)@.pos, 23int,
    {
        proof {
            unfold_unary(self@.tokens, self@.pos, self@.depth);
        }
        let op = self.peek_unary_op();
        match op {
            Some(UnaryOp::Pos) => {
                self.advance();
                self.parse_unary()
            },
            Some(optype) => {
                self.advance();
                let expr = match self.parse_unary() {
                    Ok(v) => v,
                    Err(e) => {
                        return Err(e);
                    },
                };
                {
                    let built = Expr::Unary(optype, Box::new(expr));
                    proof {
                        lemma_expr_view(built);
                        unfold_wf_expr(built@);
                    }
                    Ok(built)
                }
            },
            None => self.parse_call(),
        }
    }

    /// Parses expressions separated by commas, up to `close` (which is left
    /// to the caller) or the end.
    fn parse_args(&mut self, close: Token) -> (r: Result<Vec<Expr>, ParseError>)
        requires
            ready(old(self)@),
            close@ is RParen || close@ is RBracket,
        ensures
            agrees_exprs(args_spec(old(self)@.tokens, old(self)@.pos, old(self)@.depth, close@), &r, final(self)@),
            rule_post(old(self)@, final(self)@, false),
            r is Ok ==> old(self)@.pos <= final(self)@.pos < final(self)@.tokens.len() && final(self)@.depth == old(self)@.depth,
            r matches Ok(v) ==> wf_exprs(exprs_v(v@)) && v@.len() <= final(self)@.pos - old(self)@.pos,
        decreases old(self)@.tokens.len() - old(self)@.pos, 31int,
    {
        let ghost st0 = self@;
        let ghost c = close@;
        let mut args: Vec<Expr> = Vec::new();
        assert(args_spec(st0.tokens, st0.pos, st0.depth, c) == after(exprs_v(args@), args_spec(st0.tokens, st0.pos, st0.depth, c))) by {
            lemma_after_empty(args_spec(st0.tokens, st0.pos, st0.depth, c));
        }
        while !(self.peek().tag() == close.tag()) && !matches!(self.peek(), Token::Eof)
            invariant
                st0 == old(self)@,
                ready(self@),
                self@.tokens == st0.tokens,
                st0.pos <= self@.pos,
                self@.depth == st0.depth,
                c == close@,
                c is RParen || c is RBracket,
                args@.len() <= self@.pos - st0.pos,
                forall|i: int| 0 <= i < args@.len() ==> wf_expr(#[trigger] args@[i]@),
                args_spec(st0.tokens, st0.pos, st0.depth, c)
                    == after(exprs_v(args@), args_spec(self@.tokens, self@.pos, self@.depth, c)),
            decreases self@.tokens.len() - self@.pos,
        {
            proof {
                unfold_args(self@.tokens, self@.pos, self@.depth, c);
            }
            let ghost here = self@;
            let arg = match self.parse_expr() {
                Ok(v) => v,
                Err(e) => {
                    return Err(e);
                },
            };
            let ghost before = args@;
            let ghost arg_v = arg@;
            proof {
                lemma_exprs_v_push(args@, arg);
            }
            args.push(arg);
            if matches!(self.peek(), Token::Comma) {
                self.advance();
                proof {
                    let r = args_spec(self@.tokens, self@.pos, self@.depth, c);
                    assert(args_spec(here.tokens, here.pos, here.depth, c) == after(seq![arg_v], r)) by {
                        match r.res {
                            Ok(xs) => {},
                            Err(er) => {},
                        }
                    }
                    lemma_after_push(exprs_v(before), arg_v, r);
                }
            } else if !(self.peek().tag() == close.tag()) && !matches!(self.peek(), Token::Eof) {
                return Err(ParseError::UnexpectedToken(self.peek().text()));
            } else {
                proof {
                    unfold_args(self@.tokens, self@.pos, self@.depth, c);
                    assert(seq![arg_v] + Seq::<ExprV>::empty() =~= seq![arg_v]);
                    lemma_after_push(exprs_v(before), arg_v, args_spec(self@.tokens, self@.pos, self@.depth, c));
                }
            }
        }
        proof {
            unfold_args(self@.tokens, self@.pos, self@.depth, c);
        }
        assert(exprs_v(args@) + Seq::<ExprV>::empty() =~= exprs_v(args@));
        proof {
            lemma_exprs_v_index(args@);
            unfold_wf_exprs(exprs_v(args@));
            assert forall|i: int| 0 <= i < exprs_v(args@).len() implies wf_expr(#[trigger] exprs_v(args@)[i]) by {
                assert(exprs_v(args@)[i] == args@[i]@);
            }
        }
        Ok(args)
    }

    /// Parses an atom and what follows it: calls, indexings, field reads and
    /// method calls, from left to right.
    #[verifier::rlimit(60)]
    pub fn parse_call(&mut self) -> (r: Result<Expr, ParseError>)
        requires
            ready(old(self)@),
        ensures
            agrees_expr(call_spec(old(self)@.tokens, old(self)@.pos, old(self)@.depth), &r, final(self)@),
            rule_post(old(self)@, final(self)@, r is Ok),
            r matches Ok(e) ==> wf_expr(e@),
        decreases old(self)@.tokens.len() - old(self)@.pos, 22int,
    {
        proof {
            unfold_call(self@.tokens, self@.pos, self@.depth);
        }
        let ghost st0 = self@;
        let mut left = match self.parse_atom() {
            Ok(v) => v,
            Err(e) => {
                return Err(e);
            },
        };
        loop
            invariant
                st0 == old(self)@,
                ready(self@),
                self@.tokens == st0.tokens,
                st0.pos < self@.pos,
                self@.depth == st0.depth,
                call_spec(st0.tokens, st0.pos, st0.depth) == postfix_spec(self@.tokens, self@.pos, self@.depth, left@),
                wf_expr(left@),
            ensures
                st0 == old(self)@,
                ready(self@),
                self@.tokens == st0.tokens,
                st0.pos < self@.pos,
                self@.depth == st0.depth,
                call_spec(st0.tokens, st0.pos, st0.depth) == ok(left@, self@.pos, self@.depth),
                wf_expr(left@),
            decreases self@.tokens.len() - self@.pos,
        {
            proof {
                unfold_postfix(self@.tokens, self@.pos, self@.depth, left@);
            }
            if matches!(self.peek(), Token::LParen) {
                self.advance();
                let args = match self.parse_args(Token::RParen) {
                    Ok(v) => v,
                    Err(e) => {
                        return Err(e);
                    },
                };
                match self.expect(Token::RParen) {
                    Ok(()) => {},
                    Err(e) => {
                        return Err(e);
                    },
                }
                left = Expr::Call(Box::new(left), args);
                proof {
                    lemma_expr_view(left);
                    unfold_wf_expr(left@);
                }
            } else if matches!(self.peek(), Token::LBracket) {
                self.advance();
                let key = match self.parse_expr() {
                    Ok(v) => v,
                    Err(e) => {
                        return Err(e);
                    },
                };
                match self.expect(Token::RBracket) {
                    Ok(()) => {},
                    Err(e) => {
                        return Err(e);
                    },
                }
                left = Expr::Index { obj: Box::new(left), key: Box::new(key) };
                proof {
                    lemma_expr_view(left);
                    unfold_wf_expr(left@);
                }
            } else if matches!(self.peek(), Token::Dot) {
                self.advance();
                let name = match self.advance() {
                    Token::Ident(name) => name,
                    other => {
                        return Err(ParseError::ExpectedIdentifier(other.text()));
                    },
                };
                let key = Expr::String(name);
                proof {
                    lemma_expr_view(key);
                    unfold_wf_expr(key@);
                }
                left = Expr::Index { obj: Box::new(left), key: Box::new(key) };
                proof {
                    lemma_expr_view(left);
                    unfold_wf_expr(left@);
                }
            } else if matches!(self.peek(), Token::Colon) {
                self.advance();
                let name = match self.advance() {
                    Token::Ident(name) => name,
                    other => {
                        return Err(ParseError::ExpectedIdentifier(other.text()));
                    },
                };
                match self.expect(Token::LParen) {
                    Ok(()) => {},
                    Err(e) => {
                        return Err(e);
                    },
                }
                let ghost before_args = self@;
                let args = match self.parse_args(Token::RParen) {
                    Ok(v) => v,
                    Err(e) => {
                        return Err(e);
                    },
                };
                assert(args@.len() < usize::MAX) by {
                    assert(args@.len() <= self@.pos - before_args.pos);
                    assert(self@.pos < self@.tokens.len());
                }
                proof {
                    lemma_exprs_v_index(args@);
                }
                match self.expect(Token::RParen) {
                    Ok(()) => {},
                    Err(e) => {
                        return Err(e);
                    },
                }
                left = Expr::Method { obj: Box::new(left), name, args };
                proof {
                    lemma_expr_view(left);
                    unfold_wf_expr(left@);
                }
            } else {
                break;
            }
        }
        Ok(left)
    }

    /// Parses an atom: a literal, a name, `true`, `false`, a parenthesised
    /// expression, an empty table `{}` or an array literal.
    pub fn parse_atom(&mut self) -> (r: Result<Expr, ParseError>)
        requires
            ready(old(self)@),
        ensures
            agrees_expr(atom_spec(old(self)@.tokens, old(self)@.pos, old(self)@.depth), &r, final(self)@),
            rule_post(old(self)@, final(self)@, r is Ok),
            r matches Ok(e) ==> wf_expr(e@),
        decreases old(self)@.tokens.len() - old(self)@.pos, 21int,
    {
        proof {
            unfold_atom(self@.tokens, self@.pos, self@.depth);
        }
        match self.peek() {
            Token::String(_) | Token::Float(_) | Token::Integer(_) | Token::Ident(_) => {
                match self.advance() {
                    Token::String(string) => {
                        let built = Expr::String(string);
                        proof {
                            lemma_expr_view(built);
                            unfold_wf_expr(built@);
                        }
                        Ok(built)
                    },
                    Token::Float(n) => {
                        let built = Expr::Float(n);
                        proof {
                            lemma_expr_view(built);
                            unfold_wf_expr(built@);
                        }
                        Ok(built)
                    },
                    Token::Integer(n) => {
                        let built = Expr::Integer(n);
                        proof {
                            lemma_expr_view(built);
                            unfold_wf_expr(built@);
                        }
                        Ok(built)
                    },
                    Token::Ident(name) => {
                        let built = Expr::Ident(name);
                        proof {
                            lemma_expr_view(built);
                            unfold_wf_expr(built@);
                        }
                        Ok(built)
                    },
                    other => Err(ParseError::UnexpectedToken(other.text())),
                }
            },
            Token::LParen => {
                self.advance();
                let expr = match self.parse_expr() {
                    Ok(v) => v,
                    Err(e) => {
                        return Err(e);
                    },
                };
                match self.expect(Token::RParen) {
                    Ok(()) => Ok(expr),
                    Err(e) => Err(e),
                }
            },
            Token::LBrace => {
                self.advance();
                match self.expect(Token::RBrace) {
                    Ok(()) => {
                        let built = Expr::Table;
                        proof {
                            lemma_expr_view(built);
                            unfold_wf_expr(built@);
                        }
                        Ok(built)
                    },
                    Err(e) => Err(e),
                }
            },
            Token::LBracket => {
                self.advance();
                let items = match self.parse_args(Token::RBracket) {
                    Ok(v) => v,
                    Err(e) => {
                        return Err(e);
                    },
                };
                match self.expect(Token::RBracket) {
                    Ok(()) => {
                        let built = Expr::Array(items);
                        proof {
                            lemma_expr_view(built);
                            unfold_wf_expr(built@);
                        }
                        Ok(built)
                    },
                    Err(e) => Err(e),
                }
            },
            Token::True => {
                self.advance();
                {
                    let built = Expr::Bool(true);
                    proof {
                        lemma_expr_view(built);
                        unfold_wf_expr(built@);
                    }
                    Ok(built)
                }
            },
            Token::False => {
                self.advance();
                {
                    let built = Expr::Bool(false);
                    proof {
                        lemma_expr_view(built);
                        unfold_wf_expr(built@);
                    }
                    Ok(built)
                }
            },
            Token::Eof => Err(ParseError::UnexpectedEof),
            other => Err(ParseError::UnexpectedToken(other.text())),
        }
    }
}

/// Whether a parse error only says that the input stopped early, so that
/// a prompt reading more lines should wait for the next one: the error is
/// an unexpected end, or an expected token or name where the end was found.
pub fn needs_more_input(e: &ParseError) -> (r: bool)
    ensures
        r == (e is UnexpectedEof || (e matches ParseError::ExpectedToken(_, found) && found@ == token_text(TokenV::Eof))
            || (e matches ParseError::ExpectedIdentifier(found) && found@ == token_text(TokenV::Eof))),
{
    match e {
        ParseError::UnexpectedEof => true,
        ParseError::ExpectedToken(_, found) => *found == Token::Eof.text(),
        ParseError::ExpectedIdentifier(found) => *found == Token::Eof.text(),
        _ => false,
    }
}

} // verus!
