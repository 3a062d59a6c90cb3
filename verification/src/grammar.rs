//! The grammar of Atoy, stated rule by rule over token sequences: what the
//! parser must return, and where it must stop, for every input.
//!
//! Precedence, from loosest to tightest: `fn` literals, `..`, `or`, `and`,
//! comparisons (at most one per operand chain), `+ -`, `* /`, prefix `not`,
//! `-` and `+`, calls, indexings, field reads and method calls, atoms.

use vstd::prelude::*;
use crate::token::{TokenV, token_tag, token_text};
use crate::ast::{BinOp, CmpOp, UnaryOp, StmtV, ExprV};

verus! {

/// The mathematical value of a parse error.
pub enum ParseErrorV {
    ExpectedToken(Seq<char>, Seq<char>),
    UnexpectedToken(Seq<char>),
    ExpectedIdentifier(Seq<char>),
    UnexpectedEof,
}

/// The result of one grammar rule at a state of the parser: a value or an
/// error, with the index of the next token and the function-nesting depth
/// after it.
pub struct Parsed<T> {
    pub res: Result<T, ParseErrorV>,
    pub pos: int,
    pub depth: int,
}
pub open spec fn ok<T>(v: T, pos: int, depth: int) -> Parsed<T> {
    Parsed { res: Ok(v), pos, depth }
}
pub open spec fn fail<T>(e: ParseErrorV, pos: int, depth: int) -> Parsed<T> {
    Parsed { res: Err(e), pos, depth }
}

/// The token at `p`; past the end, `Eof`.
pub open spec fn tk(toks: Seq<TokenV>, p: int) -> TokenV {
    if 0 <= p < toks.len() {
        toks[p]
    } else {
        TokenV::Eof
    }
}

/// The word `return`.
pub open spec fn return_text() -> Seq<char> {
    seq!['r', 'e', 't', 'u', 'r', 'n']
}

/// Reading one token that must be of the variant of `expected`.
pub open spec fn expect_spec(toks: Seq<TokenV>, p: int, d: int, expected: TokenV) -> Parsed<()> {
    let found = tk(toks, p);
    if token_tag(found) == token_tag(expected) {
        ok((), p + 1, d)
    } else {
        fail(ParseErrorV::ExpectedToken(token_text(expected), token_text(found)), p + 1, d)
    }
}

/// The prefix operator that a token starts.
pub open spec fn unary_op_of(t: TokenV) -> Option<UnaryOp> {
    match t {
        TokenV::Not => Some(UnaryOp::Not),
        TokenV::Minus => Some(UnaryOp::Neg),
        TokenV::Plus => Some(UnaryOp::Pos),
        _ => None,
    }
}

/// The arithmetic operator that a token stands for.
pub open spec fn bin_op_of(t: TokenV) -> Option<BinOp> {
    match t {
        TokenV::Plus => Some(BinOp::Add),
        TokenV::Minus => Some(BinOp::Sub),
        TokenV::Star => Some(BinOp::Mul),
        TokenV::Slash => Some(BinOp::Div),
        _ => None,
    }
}

/// The comparison operator that a token stands for.
pub open spec fn cmp_op_of(t: TokenV) -> Option<CmpOp> {
    match t {
        TokenV::Eq => Some(CmpOp::Eq),
        TokenV::Gt => Some(CmpOp::Gt),
        TokenV::Lt => Some(CmpOp::Lt),
        TokenV::Gte => Some(CmpOp::Gte),
        TokenV::Lte => Some(CmpOp::Lte),
        TokenV::NEq => Some(CmpOp::NEq),
        _ => None,
    }
}

/// Whether a rule that succeeded moved forward, and stayed inside the tokens.
pub open spec fn moved<T>(r: Parsed<T>, p: int, toks: Seq<TokenV>) -> bool {
    p < r.pos <= toks.len()
}

// ---------------------------------------------------------------------------
// The grammar. Each rule is stated at the token index `p` and the depth `d`
// of nested function literals (a `return` is only accepted at depth > 0).
// ---------------------------------------------------------------------------

/// `program := stmt* Eof`
pub closed spec fn program_spec(toks: Seq<TokenV>, p: int, d: int) -> Parsed<Seq<StmtV>>
    decreases toks.len() - p, 40int,
{
    if tk(toks, p) is Eof {
        ok(Seq::empty(), p, d)
    } else {
        let s = stmt_spec(toks, p, d);
        match s.res {
            Ok(st) => if moved(s, p, toks) {
                let rest = program_spec(toks, s.pos, s.depth);
                match rest.res {
                    Ok(sts) => ok(seq![st] + sts, rest.pos, rest.depth),
                    Err(e) => fail(e, rest.pos, rest.depth),
                }
            } else {
                fail(ParseErrorV::UnexpectedEof, s.pos, s.depth)
            },
            Err(e) => fail(e, s.pos, s.depth),
        }
    }
}

/// Statements up to a closing brace (or the end).
pub closed spec fn block_items_spec(toks: Seq<TokenV>, p: int, d: int) -> Parsed<Seq<StmtV>>
    decreases toks.len() - p, 39int,
{
    if tk(toks, p) is RBrace || tk(toks, p) is Eof {
        ok(Seq::empty(), p, d)
    } else {
        let s = stmt_spec(toks, p, d);
        match s.res {
            Ok(st) => if moved(s, p, toks) {
                let rest = block_items_spec(toks, s.pos, s.depth);
                match rest.res {
                    Ok(sts) => ok(seq![st] + sts, rest.pos, rest.depth),
                    Err(e) => fail(e, rest.pos, rest.depth),
                }
            } else {
                fail(ParseErrorV::UnexpectedEof, s.pos, s.depth)
            },
            Err(e) => fail(e, s.pos, s.depth),
        }
    }
}

/// A statement followed by `;`, given the statement's own result.
pub open spec fn then_semicolon(toks: Seq<TokenV>, r: Parsed<StmtV>) -> Parsed<StmtV> {
    match r.res {
        Ok(st) => {
            let s = expect_spec(toks, r.pos, r.depth, TokenV::Semicolon);
            match s.res {
                Ok(_) => ok(st, s.pos, s.depth),
                Err(e) => fail(e, s.pos, s.depth),
            }
        },
        Err(e) => fail(e, r.pos, r.depth),
    }
}

/// `stmt := let | if | while | block | return expr ; | expr (assignop expr)? ;`
pub closed spec fn stmt_spec(toks: Seq<TokenV>, p: int, d: int) -> Parsed<StmtV>
    decreases toks.len() - p, 38int,
{
    match tk(toks, p) {
        TokenV::Let => let_spec(toks, p, d),
        TokenV::If => if_spec(toks, p, d),
        TokenV::While => while_spec(toks, p, d),
        TokenV::LBrace => block_spec(toks, p, d),
        TokenV::Return => {
            if d == 0 {
                fail(ParseErrorV::UnexpectedToken(return_text()), p, d)
            } else {
                let e = expr_spec(toks, p + 1, d);
                match e.res {
                    Ok(x) => then_semicolon(toks, ok(StmtV::Return(x), e.pos, e.depth)),
                    Err(er) => fail(er, e.pos, e.depth),
                }
            }
        },
        _ => expr_stmt_spec(toks, p, d),
    }
}

/// `expr (assignop expr)? ;`
pub closed spec fn expr_stmt_spec(toks: Seq<TokenV>, p: int, d: int) -> Parsed<StmtV>
    decreases toks.len() - p, 37int,
{
    let e = expr_spec(toks, p, d);
    match e.res {
        Ok(left) => if moved(e, p, toks) {
            then_semicolon(toks, assign_tail_spec(toks, e.pos, e.depth, left))
        } else {
            fail(ParseErrorV::UnexpectedEof, e.pos, e.depth)
        },
        Err(er) => fail(er, e.pos, e.depth),
    }
}

/// After an expression `left` that starts a statement: an assignment when
/// `left` is a name or an indexing and an assignment operator follows, else
/// the expression.
pub closed spec fn assign_tail_spec(toks: Seq<TokenV>, p: int, d: int, left: ExprV) -> Parsed<StmtV>
    decreases toks.len() - p, 37int,
{
    match left {
        ExprV::Ident(name) => match tk(toks, p) {
            TokenV::Assign => assign_spec(toks, p, d, name),
            TokenV::PlusAssign => compound_spec(toks, p, d, name, BinOp::Add),
            TokenV::MinusAssign => compound_spec(toks, p, d, name, BinOp::Sub),
            TokenV::StarAssign => compound_spec(toks, p, d, name, BinOp::Mul),
            TokenV::SlashAssign => compound_spec(toks, p, d, name, BinOp::Div),
            _ => ok(StmtV::Expr(left), p, d),
        },
        ExprV::Index { obj, key } => match tk(toks, p) {
            TokenV::Assign => index_assign_spec(toks, p, d, *obj, *key),
            TokenV::PlusAssign => index_compound_spec(toks, p, d, *obj, *key, BinOp::Add),
            TokenV::MinusAssign => index_compound_spec(toks, p, d, *obj, *key, BinOp::Sub),
            TokenV::StarAssign => index_compound_spec(toks, p, d, *obj, *key, BinOp::Mul),
            TokenV::SlashAssign => index_compound_spec(toks, p, d, *obj, *key, BinOp::Div),
            _ => ok(StmtV::Expr(left), p, d),
        },
        _ => ok(StmtV::Expr(left), p, d),
    }
}

/// `name = expr`, at the `=`.
pub closed spec fn assign_spec(toks: Seq<TokenV>, p: int, d: int, name: Seq<char>) -> Parsed<StmtV>
    decreases toks.len() - p, 36int,
{
    let a = expect_spec(toks, p, d, TokenV::Assign);
    match a.res {
        Ok(_) => if 0 <= p < toks.len() {
            let v = expr_spec(toks, p + 1, d);
            match v.res {
                Ok(value) => ok(StmtV::Assign { name, value }, v.pos, v.depth),
                Err(e) => fail(e, v.pos, v.depth),
            }
        } else {
            fail(ParseErrorV::UnexpectedEof, a.pos, a.depth)
        },
        Err(e) => fail(e, a.pos, a.depth),
    }
}

/// `name op= cmp`, at the operator.
pub closed spec fn compound_spec(toks: Seq<TokenV>, p: int, d: int, name: Seq<char>, op: BinOp) -> Parsed<StmtV>
    decreases toks.len() - p, 36int,
{
    if p >= toks.len() {
        fail(ParseErrorV::UnexpectedEof, p, d)
    } else {
        let v = cmp_spec(toks, p + 1, d);
        match v.res {
            Ok(value) => ok(StmtV::CompoundAssign { name, op, value }, v.pos, v.depth),
            Err(e) => fail(e, v.pos, v.depth),
        }
    }
}

/// `obj[key] = expr` (or `obj.name = expr`), at the `=`.
pub closed spec fn index_assign_spec(toks: Seq<TokenV>, p: int, d: int, obj: ExprV, key: ExprV) -> Parsed<StmtV>
    decreases toks.len() - p, 36int,
{
    let a = expect_spec(toks, p, d, TokenV::Assign);
    match a.res {
        Ok(_) => if 0 <= p < toks.len() {
            let v = expr_spec(toks, p + 1, d);
            match v.res {
                Ok(value) => ok(StmtV::IndexAssign { obj, key, value }, v.pos, v.depth),
                Err(e) => fail(e, v.pos, v.depth),
            }
        } else {
            fail(ParseErrorV::UnexpectedEof, a.pos, a.depth)
        },
        Err(e) => fail(e, a.pos, a.depth),
    }
}

/// `obj[key] op= cmp` (or `obj.name op= cmp`), at the operator.
pub closed spec fn index_compound_spec(toks: Seq<TokenV>, p: int, d: int, obj: ExprV, key: ExprV, op: BinOp) -> Parsed<StmtV>
    decreases toks.len() - p, 36int,
{
    if p >= toks.len() {
        fail(ParseErrorV::UnexpectedEof, p, d)
    } else {
        let v = cmp_spec(toks, p + 1, d);
        match v.res {
            Ok(value) => ok(StmtV::IndexCompoundAssign { obj, key, op, value }, v.pos, v.depth),
            Err(e) => fail(e, v.pos, v.depth),
        }
    }
}

/// `if expr stmt (else stmt)?`
pub closed spec fn if_spec(toks: Seq<TokenV>, p: int, d: int) -> Parsed<StmtV>
    decreases toks.len() - p, 37int,
{
    if p >= toks.len() {
        fail(ParseErrorV::UnexpectedEof, p, d)
    } else {
        let c = expr_spec(toks, p + 1, d);
        match c.res {
            Ok(condition) => if moved(c, p, toks) {
                let t = stmt_spec(toks, c.pos, c.depth);
                match t.res {
                    Ok(then_b) => if moved(t, p, toks) {
                        if tk(toks, t.pos) is Else {
                            let e = stmt_spec(toks, t.pos + 1, t.depth);
                            match e.res {
                                Ok(else_b) => ok(
                                    StmtV::IfElse {
                                        condition,
                                        then_branch: Box::new(then_b),
                                        else_branch: Some(Box::new(else_b)),
                                    },
                                    e.pos,
                                    e.depth,
                                ),
                                Err(er) => fail(er, e.pos, e.depth),
                            }
                        } else {
                            ok(
                                StmtV::IfElse { condition, then_branch: Box::new(then_b), else_branch: None },
                                t.pos,
                                t.depth,
                            )
                        }
                    } else {
                        fail(ParseErrorV::UnexpectedEof, t.pos, t.depth)
                    },
                    Err(er) => fail(er, t.pos, t.depth),
                }
            } else {
                fail(ParseErrorV::UnexpectedEof, c.pos, c.depth)
            },
            Err(er) => fail(er, c.pos, c.depth),
        }
    }
}

/// `while expr stmt`
pub closed spec fn while_spec(toks: Seq<TokenV>, p: int, d: int) -> Parsed<StmtV>
    decreases toks.len() - p, 37int,
{
    if p >= toks.len() {
        fail(ParseErrorV::UnexpectedEof, p, d)
    } else {
        let c = expr_spec(toks, p + 1, d);
        match c.res {
            Ok(condition) => if moved(c, p, toks) {
                let b = stmt_spec(toks, c.pos, c.depth);
                match b.res {
                    Ok(block) => ok(StmtV::While { condition, block: Box::new(block) }, b.pos, b.depth),
                    Err(er) => fail(er, b.pos, b.depth),
                }
            } else {
                fail(ParseErrorV::UnexpectedEof, c.pos, c.depth)
            },
            Err(er) => fail(er, c.pos, c.depth),
        }
    }
}

/// `{ stmt* }`
pub closed spec fn block_spec(toks: Seq<TokenV>, p: int, d: int) -> Parsed<StmtV>
    decreases toks.len() - p, 37int,
{
    let l = expect_spec(toks, p, d, TokenV::LBrace);
    match l.res {
        Ok(_) => if 0 <= p < toks.len() {
            let items = block_items_spec(toks, p + 1, d);
            match items.res {
                Ok(stmts) => {
                    let r = expect_spec(toks, items.pos, items.depth, TokenV::RBrace);
                    match r.res {
                        Ok(_) => ok(StmtV::Block(stmts), r.pos, r.depth),
                        Err(e) => fail(e, r.pos, r.depth),
                    }
                },
                Err(e) => fail(e, items.pos, items.depth),
            }
        } else {
            fail(ParseErrorV::UnexpectedEof, l.pos, l.depth)
        },
        Err(e) => fail(e, l.pos, l.depth),
    }
}

/// `let name = expr ;`
pub closed spec fn let_spec(toks: Seq<TokenV>, p: int, d: int) -> Parsed<StmtV>
    decreases toks.len() - p, 37int,
{
    match tk(toks, p + 1) {
        TokenV::Ident(name) => {
            let a = expect_spec(toks, p + 2, d, TokenV::Assign);
            match a.res {
                Ok(_) => if 0 <= p && p + 3 <= toks.len() {
                    let v = expr_spec(toks, p + 3, d);
                    match v.res {
                        Ok(value) => then_semicolon(toks, ok(StmtV::Let { name, value }, v.pos, v.depth)),
                        Err(e) => fail(e, v.pos, v.depth),
                    }
                } else {
                    fail(ParseErrorV::UnexpectedEof, a.pos, a.depth)
                },
                Err(e) => fail(e, a.pos, a.depth),
            }
        },
        other => fail(ParseErrorV::ExpectedIdentifier(token_text(other)), p + 2, d),
    }
}

/// `expr := fn-literal | concat`
pub closed spec fn expr_spec(toks: Seq<TokenV>, p: int, d: int) -> Parsed<ExprV>
    decreases toks.len() - p, 30int,
{
    if tk(toks, p) is Fn {
        fn_spec(toks, p, d)
    } else {
        concat_spec(toks, p, d)
    }
}

/// The parameter names of a function literal, up to `)` (or the end).
pub closed spec fn params_spec(toks: Seq<TokenV>, p: int, d: int) -> Parsed<Seq<Seq<char>>>
    decreases toks.len() - p,
{
    if tk(toks, p) is RParen || tk(toks, p) is Eof {
        ok(Seq::empty(), p, d)
    } else {
        match tk(toks, p) {
            TokenV::Ident(name) => {
                let t = tk(toks, p + 1);
                if t is Comma {
                    let rest = params_spec(toks, p + 2, d);
                    match rest.res {
                        Ok(names) => ok(seq![name] + names, rest.pos, rest.depth),
                        Err(e) => fail(e, rest.pos, rest.depth),
                    }
                } else if !(t is RParen || t is Eof) {
                    fail(ParseErrorV::UnexpectedToken(token_text(t)), p + 1, d)
                } else {
                    ok(seq![name], p + 1, d)
                }
            },
            other => fail(ParseErrorV::ExpectedIdentifier(token_text(other)), p + 1, d),
        }
    }
}

/// `fn ( names ) block`; the block is read one function level deeper.
pub closed spec fn fn_spec(toks: Seq<TokenV>, p: int, d: int) -> Parsed<ExprV>
    decreases toks.len() - p, 29int,
{
    let l = expect_spec(toks, p + 1, d, TokenV::LParen);
    match l.res {
        Ok(_) => {
            let ps = params_spec(toks, p + 2, d);
            match ps.res {
                Ok(names) => {
                    let r = expect_spec(toks, ps.pos, ps.depth, TokenV::RParen);
                    match r.res {
                        Ok(_) => if p < r.pos <= toks.len() {
                            let b = block_spec(toks, r.pos, r.depth + 1);
                            match b.res {
                                Ok(body) => ok(ExprV::Fn(names, Box::new(body)), b.pos, b.depth - 1),
                                Err(e) => fail(e, b.pos, b.depth),
                            }
                        } else {
                            fail(ParseErrorV::UnexpectedEof, r.pos, r.depth)
                        },
                        Err(e) => fail(e, r.pos, r.depth),
                    }
                },
                Err(e) => fail(e, ps.pos, ps.depth),
            }
        },
        Err(e) => fail(e, l.pos, l.depth),
    }
}

/// `concat := or (.. or)*`
pub closed spec fn concat_spec(toks: Seq<TokenV>, p: int, d: int) -> Parsed<ExprV>
    decreases toks.len() - p, 29int,
{
    let l = or_spec(toks, p, d);
    match l.res {
        Ok(left) => if moved(l, p, toks) {
            concat_tail_spec(toks, l.pos, l.depth, left)
        } else {
            fail(ParseErrorV::UnexpectedEof, l.pos, l.depth)
        },
        Err(e) => fail(e, l.pos, l.depth),
    }
}

/// The `(.. or)*` part, after the operand `left`.
pub closed spec fn concat_tail_spec(toks: Seq<TokenV>, p: int, d: int, left: ExprV) -> Parsed<ExprV>
    decreases toks.len() - p, 29int,
{
    if tk(toks, p) is DotDot {
        let r = or_spec(toks, p + 1, d);
        match r.res {
            Ok(right) => if moved(r, p, toks) {
                concat_tail_spec(toks, r.pos, r.depth, ExprV::Concat { left: Box::new(left), right: Box::new(right) })
            } else {
                fail(ParseErrorV::UnexpectedEof, r.pos, r.depth)
            },
            Err(e) => fail(e, r.pos, r.depth),
        }
    } else {
        ok(left, p, d)
    }
}

/// `or := and (or and)*`
pub closed spec fn or_spec(toks: Seq<TokenV>, p: int, d: int) -> Parsed<ExprV>
    decreases toks.len() - p, 28int,
{
    let l = and_spec(toks, p, d);
    match l.res {
        Ok(left) => if moved(l, p, toks) {
            or_tail_spec(toks, l.pos, l.depth, left)
        } else {
            fail(ParseErrorV::UnexpectedEof, l.pos, l.depth)
        },
        Err(e) => fail(e, l.pos, l.depth),
    }
}

/// The `(or and)*` part, after the operand `left`.
pub closed spec fn or_tail_spec(toks: Seq<TokenV>, p: int, d: int, left: ExprV) -> Parsed<ExprV>
    decreases toks.len() - p, 28int,
{
    if tk(toks, p) is Or {
        let r = and_spec(toks, p + 1, d);
        match r.res {
            Ok(right) => if moved(r, p, toks) {
                or_tail_spec(toks, r.pos, r.depth, ExprV::OrOp { left: Box::new(left), right: Box::new(right) })
            } else {
                fail(ParseErrorV::UnexpectedEof, r.pos, r.depth)
            },
            Err(e) => fail(e, r.pos, r.depth),
        }
    } else {
        ok(left, p, d)
    }
}

/// `and := cmp (and cmp)*`
pub closed spec fn and_spec(toks: Seq<TokenV>, p: int, d: int) -> Parsed<ExprV>
    decreases toks.len() - p, 27int,
{
    let l = cmp_spec(toks, p, d);
    match l.res {
        Ok(left) => if moved(l, p, toks) {
            and_tail_spec(toks, l.pos, l.depth, left)
        } else {
            fail(ParseErrorV::UnexpectedEof, l.pos, l.depth)
        },
        Err(e) => fail(e, l.pos, l.depth),
    }
}

/// The `(and cmp)*` part, after the operand `left`.
pub closed spec fn and_tail_spec(toks: Seq<TokenV>, p: int, d: int, left: ExprV) -> Parsed<ExprV>
    decreases toks.len() - p, 27int,
{
    if tk(toks, p) is And {
        let r = cmp_spec(toks, p + 1, d);
        match r.res {
            Ok(right) => if moved(r, p, toks) {
                and_tail_spec(toks, r.pos, r.depth, ExprV::AndOp { left: Box::new(left), right: Box::new(right) })
            } else {
                fail(ParseErrorV::UnexpectedEof, r.pos, r.depth)
            },
            Err(e) => fail(e, r.pos, r.depth),
        }
    } else {
        ok(left, p, d)
    }
}

/// `cmp := addsub (cmpop addsub)?`
pub closed spec fn cmp_spec(toks: Seq<TokenV>, p: int, d: int) -> Parsed<ExprV>
    decreases toks.len() - p, 26int,
{
    let l = addsub_spec(toks, p, d);
    match l.res {
        Ok(left) => match cmp_op_of(tk(toks, l.pos)) {
            Some(op) => if moved(l, p, toks) {
                let r = addsub_spec(toks, l.pos + 1, l.depth);
                match r.res {
                    Ok(right) => ok(ExprV::CompareOp { left: Box::new(left), op, right: Box::new(right) }, r.pos, r.depth),
                    Err(e) => fail(e, r.pos, r.depth),
                }
            } else {
                fail(ParseErrorV::UnexpectedEof, l.pos, l.depth)
            },
            None => ok(left, l.pos, l.depth),
        },
        Err(e) => fail(e, l.pos, l.depth),
    }
}

/// `addsub := muldiv ((+|-) muldiv)*`
pub closed spec fn addsub_spec(toks: Seq<TokenV>, p: int, d: int) -> Parsed<ExprV>
    decreases toks.len() - p, 25int,
{
    let l = muldiv_spec(toks, p, d);
    match l.res {
        Ok(left) => if moved(l, p, toks) {
            addsub_tail_spec(toks, l.pos, l.depth, left)
        } else {
            fail(ParseErrorV::UnexpectedEof, l.pos, l.depth)
        },
        Err(e) => fail(e, l.pos, l.depth),
    }
}

/// The `((+|-) muldiv)*` part, after the operand `left`.
pub closed spec fn addsub_tail_spec(toks: Seq<TokenV>, p: int, d: int, left: ExprV) -> Parsed<ExprV>
    decreases toks.len() - p, 25int,
{
    match bin_op_of(tk(toks, p)) {
        Some(op) => if op == BinOp::Add || op == BinOp::Sub {
            let r = muldiv_spec(toks, p + 1, d);
            match r.res {
                Ok(right) => if moved(r, p, toks) {
                    addsub_tail_spec(toks, r.pos, r.depth, ExprV::BinaryOp { left: Box::new(left), op, right: Box::new(right) })
                } else {
                    fail(ParseErrorV::UnexpectedEof, r.pos, r.depth)
                },
                Err(e) => fail(e, r.pos, r.depth),
            }
        } else {
            ok(left, p, d)
        },
        None => ok(left, p, d),
    }
}

/// `muldiv := unary ((*|/) unary)*`
pub closed spec fn muldiv_spec(toks: Seq<TokenV>, p: int, d: int) -> Parsed<ExprV>
    decreases toks.len() - p, 24int,
{
    let l = unary_spec(toks, p, d);
    match l.res {
        Ok(left) => if moved(l, p, toks) {
            muldiv_tail_spec(toks, l.pos, l.depth, left)
        } else {
            fail(ParseErrorV::UnexpectedEof, l.pos, l.depth)
        },
        Err(e) => fail(e, l.pos, l.depth),
    }
}

/// The `((*|/) unary)*` part, after the operand `left`.
pub closed spec fn muldiv_tail_spec(toks: Seq<TokenV>, p: int, d: int, left: ExprV) -> Parsed<ExprV>
    decreases toks.len() - p, 24int,
{
    match bin_op_of(tk(toks, p)) {
        Some(op) => if op == BinOp::Mul || op == BinOp::Div {
            let r = unary_spec(toks, p + 1, d);
            match r.res {
                Ok(right) => if moved(r, p, toks) {
                    muldiv_tail_spec(toks, r.pos, r.depth, ExprV::BinaryOp { left: Box::new(left), op, right: Box::new(right) })
                } else {
                    fail(ParseErrorV::UnexpectedEof, r.pos, r.depth)
                },
                Err(e) => fail(e, r.pos, r.depth),
            }
        } else {
            ok(left, p, d)
        },
        None => ok(left, p, d),
    }
}

/// `unary := (not | - ) unary | + unary | call`; a `+` prefix is dropped.
pub closed spec fn unary_spec(toks: Seq<TokenV>, p: int, d: int) -> Parsed<ExprV>
    decreases toks.len() - p, 23int,
{
    match unary_op_of(tk(toks, p)) {
        Some(UnaryOp::Pos) => unary_spec(toks, p + 1, d),
        Some(op) => {
            let e = unary_spec(toks, p + 1, d);
            match e.res {
                Ok(x) => ok(ExprV::Unary(op, Box::new(x)), e.pos, e.depth),
                Err(er) => fail(er, e.pos, e.depth),
            }
        },
        None => call_spec(toks, p, d),
    }
}

/// `call := atom postfix*`
pub closed spec fn call_spec(toks: Seq<TokenV>, p: int, d: int) -> Parsed<ExprV>
    decreases toks.len() - p, 22int,
{
    let a = atom_spec(toks, p, d);
    match a.res {
        Ok(x) => if moved(a, p, toks) {
            postfix_spec(toks, a.pos, a.depth, x)
        } else {
            fail(ParseErrorV::UnexpectedEof, a.pos, a.depth)
        },
        Err(e) => fail(e, a.pos, a.depth),
    }
}

/// What follows the operand `left`: any number of calls `( args )`,
/// indexings `[ expr ]`, field reads `. name` (an indexing by the name as a
/// string) and method calls `: name ( args )`.
pub closed spec fn postfix_spec(toks: Seq<TokenV>, p: int, d: int, left: ExprV) -> Parsed<ExprV>
    decreases toks.len() - p, 22int,
{
    match tk(toks, p) {
        TokenV::LParen => {
            let args = args_spec(toks, p + 1, d, TokenV::RParen);
            match args.res {
                Ok(xs) => {
                    let r = expect_spec(toks, args.pos, args.depth, TokenV::RParen);
                    match r.res {
                        Ok(_) => if moved(r, p, toks) {
                            postfix_spec(toks, r.pos, r.depth, ExprV::Call(Box::new(left), xs))
                        } else {
                            fail(ParseErrorV::UnexpectedEof, r.pos, r.depth)
                        },
                        Err(e) => fail(e, r.pos, r.depth),
                    }
                },
                Err(e) => fail(e, args.pos, args.depth),
            }
        },
        TokenV::LBracket => {
            let k = expr_spec(toks, p + 1, d);
            match k.res {
                Ok(key) => {
                    let r = expect_spec(toks, k.pos, k.depth, TokenV::RBracket);
                    match r.res {
                        Ok(_) => if moved(r, p, toks) {
                            postfix_spec(toks, r.pos, r.depth, ExprV::Index { obj: Box::new(left), key: Box::new(key) })
                        } else {
                            fail(ParseErrorV::UnexpectedEof, r.pos, r.depth)
                        },
                        Err(e) => fail(e, r.pos, r.depth),
                    }
                },
                Err(e) => fail(e, k.pos, k.depth),
            }
        },
        TokenV::Dot => match tk(toks, p + 1) {
            TokenV::Ident(name) => postfix_spec(
                toks,
                p + 2,
                d,
                ExprV::Index { obj: Box::new(left), key: Box::new(ExprV::String(name)) },
            ),
            other => fail(ParseErrorV::ExpectedIdentifier(token_text(other)), p + 2, d),
        },
        TokenV::Colon => match tk(toks, p + 1) {
            TokenV::Ident(name) => {
                let l = expect_spec(toks, p + 2, d, TokenV::LParen);
                match l.res {
                    Ok(_) => if 0 <= p && p + 3 <= toks.len() {
                        let args = args_spec(toks, p + 3, d, TokenV::RParen);
                        match args.res {
                            Ok(xs) => {
                                let r = expect_spec(toks, args.pos, args.depth, TokenV::RParen);
                                match r.res {
                                    Ok(_) => if moved(r, p, toks) {
                                        postfix_spec(toks, r.pos, r.depth, ExprV::Method { obj: Box::new(left), name, args: xs })
                                    } else {
                                        fail(ParseErrorV::UnexpectedEof, r.pos, r.depth)
                                    },
                                    Err(e) => fail(e, r.pos, r.depth),
                                }
                            },
                            Err(e) => fail(e, args.pos, args.depth),
                        }
                    } else {
                        fail(ParseErrorV::UnexpectedEof, l.pos, l.depth)
                    },
                    Err(e) => fail(e, l.pos, l.depth),
                }
            },
            other => fail(ParseErrorV::ExpectedIdentifier(token_text(other)), p + 2, d),
        },
        _ => ok(left, p, d),
    }
}

/// Expressions separated by commas, up to the token `close` (or the end).
pub closed spec fn args_spec(toks: Seq<TokenV>, p: int, d: int, close: TokenV) -> Parsed<Seq<ExprV>>
    decreases toks.len() - p, 31int,
{
    if token_tag(tk(toks, p)) == token_tag(close) || tk(toks, p) is Eof {
        ok(Seq::empty(), p, d)
    } else {
        let e = expr_spec(toks, p, d);
        match e.res {
            Ok(x) => if moved(e, p, toks) {
                let t = tk(toks, e.pos);
                if t is Comma {
                    let rest = args_spec(toks, e.pos + 1, e.depth, close);
                    match rest.res {
                        Ok(xs) => ok(seq![x] + xs, rest.pos, rest.depth),
                        Err(er) => fail(er, rest.pos, rest.depth),
                    }
                } else if !(token_tag(t) == token_tag(close) || t is Eof) {
                    fail(ParseErrorV::UnexpectedToken(token_text(t)), e.pos, e.depth)
                } else {
                    ok(seq![x], e.pos, e.depth)
                }
            } else {
                fail(ParseErrorV::UnexpectedEof, e.pos, e.depth)
            },
            Err(er) => fail(er, e.pos, e.depth),
        }
    }
}

/// `atom := string | float | integer | ( expr ) | name | true | false | { } | [ items ]`
pub closed spec fn atom_spec(toks: Seq<TokenV>, p: int, d: int) -> Parsed<ExprV>
    decreases toks.len() - p, 21int,
{
    match tk(toks, p) {
        TokenV::String(s) => ok(ExprV::String(s), p + 1, d),
        TokenV::Float(t) => ok(ExprV::Float(t), p + 1, d),
        TokenV::Integer(n) => ok(ExprV::Integer(n), p + 1, d),
        TokenV::LParen => {
            let e = expr_spec(toks, p + 1, d);
            match e.res {
                Ok(x) => {
                    let r = expect_spec(toks, e.pos, e.depth, TokenV::RParen);
                    match r.res {
                        Ok(_) => ok(x, r.pos, r.depth),
                        Err(er) => fail(er, r.pos, r.depth),
                    }
                },
                Err(er) => fail(er, e.pos, e.depth),
            }
        },
        TokenV::LBrace => {
            let r = expect_spec(toks, p + 1, d, TokenV::RBrace);
            match r.res {
                Ok(_) => ok(ExprV::Table, r.pos, r.depth),
                Err(er) => fail(er, r.pos, r.depth),
            }
        },
        TokenV::LBracket => {
            let items = args_spec(toks, p + 1, d, TokenV::RBracket);
            match items.res {
                Ok(xs) => {
                    let r = expect_spec(toks, items.pos, items.depth, TokenV::RBracket);
                    match r.res {
                        Ok(_) => ok(ExprV::Array(xs), r.pos, r.depth),
                        Err(er) => fail(er, r.pos, r.depth),
                    }
                },
                Err(er) => fail(er, items.pos, items.depth),
            }
        },
        TokenV::Ident(name) => ok(ExprV::Ident(name), p + 1, d),
        TokenV::True => ok(ExprV::Bool(true), p + 1, d),
        TokenV::False => ok(ExprV::Bool(false), p + 1, d),
        TokenV::Eof => fail(ParseErrorV::UnexpectedEof, p, d),
        other => fail(ParseErrorV::UnexpectedToken(token_text(other)), p, d),
    }
}

// ---------------------------------------------------------------------------
// One-step unfoldings of the rules, for the parser's proofs
// ---------------------------------------------------------------------------

/// One step of `program_spec`: the rule equals its definition.
pub proof fn unfold_program(toks: Seq<TokenV>, p: int, d: int)
    ensures
        program_spec(toks, p, d) == ({
            if tk(toks, p) is Eof {
                ok(Seq::empty(), p, d)
            } else {
                let s = stmt_spec(toks, p, d);
                match s.res {
                    Ok(st) => if moved(s, p, toks) {
                        let rest = program_spec(toks, s.pos, s.depth);
                        match rest.res {
                            Ok(sts) => ok(seq![st] + sts, rest.pos, rest.depth),
                            Err(e) => fail(e, rest.pos, rest.depth),
                        }
                    } else {
                        fail(ParseErrorV::UnexpectedEof, s.pos, s.depth)
                    },
                    Err(e) => fail(e, s.pos, s.depth),
                }
            }
        }),
{
}

/// One step of `block_items_spec`: the rule equals its definition.
pub proof fn unfold_block_items(toks: Seq<TokenV>, p: int, d: int)
    ensures
        block_items_spec(toks, p, d) == ({
            if tk(toks, p) is RBrace || tk(toks, p) is Eof {
                ok(Seq::empty(), p, d)
            } else {
                let s = stmt_spec(toks, p, d);
                match s.res {
                    Ok(st) => if moved(s, p, toks) {
                        let rest = block_items_spec(toks, s.pos, s.depth);
                        match rest.res {
                            Ok(sts) => ok(seq![st] + sts, rest.pos, rest.depth),
                            Err(e) => fail(e, rest.pos, rest.depth),
                        }
                    } else {
                        fail(ParseErrorV::UnexpectedEof, s.pos, s.depth)
                    },
                    Err(e) => fail(e, s.pos, s.depth),
                }
            }
        }),
{
}

/// One step of `stmt_spec`: the rule equals its definition.
pub proof fn unfold_stmt(toks: Seq<TokenV>, p: int, d: int)
    ensures
        stmt_spec(toks, p, d) == ({
            match tk(toks, p) {
                TokenV::Let => let_spec(toks, p, d),
                TokenV::If => if_spec(toks, p, d),
                TokenV::While => while_spec(toks, p, d),
                TokenV::LBrace => block_spec(toks, p, d),
                TokenV::Return => {
                    if d == 0 {
                        fail(ParseErrorV::UnexpectedToken(return_text()), p, d)
                    } else {
                        let e = expr_spec(toks, p + 1, d);
                        match e.res {
                            Ok(x) => then_semicolon(toks, ok(StmtV::Return(x), e.pos, e.depth)),
                            Err(er) => fail(er, e.pos, e.depth),
                        }
                    }
                },
                _ => expr_stmt_spec(toks, p, d),
            }
        }),
{
}

/// One step of `expr_stmt_spec`: the rule equals its definition.
pub proof fn unfold_expr_stmt(toks: Seq<TokenV>, p: int, d: int)
    ensures
        expr_stmt_spec(toks, p, d) == ({
            let e = expr_spec(toks, p, d);
            match e.res {
                Ok(left) => if moved(e, p, toks) {
                    then_semicolon(toks, assign_tail_spec(toks, e.pos, e.depth, left))
                } else {
                    fail(ParseErrorV::UnexpectedEof, e.pos, e.depth)
                },
                Err(er) => fail(er, e.pos, e.depth),
            }
        }),
{
}

/// One step of `assign_tail_spec`: the rule equals its definition.
pub proof fn unfold_assign_tail(toks: Seq<TokenV>, p: int, d: int, left: ExprV)
    ensures
        assign_tail_spec(toks, p, d, left) == ({
            match left {
                ExprV::Ident(name) => match tk(toks, p) {
                    TokenV::Assign => assign_spec(toks, p, d, name),
                    TokenV::PlusAssign => compound_spec(toks, p, d, name, BinOp::Add),
                    TokenV::MinusAssign => compound_spec(toks, p, d, name, BinOp::Sub),
                    TokenV::StarAssign => compound_spec(toks, p, d, name, BinOp::Mul),
                    TokenV::SlashAssign => compound_spec(toks, p, d, name, BinOp::Div),
                    _ => ok(StmtV::Expr(left), p, d),
                },
                ExprV::Index { obj, key } => match tk(toks, p) {
                    TokenV::Assign => index_assign_spec(toks, p, d, *obj, *key),
                    TokenV::PlusAssign => index_compound_spec(toks, p, d, *obj, *key, BinOp::Add),
                    TokenV::MinusAssign => index_compound_spec(toks, p, d, *obj, *key, BinOp::Sub),
                    TokenV::StarAssign => index_compound_spec(toks, p, d, *obj, *key, BinOp::Mul),
                    TokenV::SlashAssign => index_compound_spec(toks, p, d, *obj, *key, BinOp::Div),
                    _ => ok(StmtV::Expr(left), p, d),
                },
                _ => ok(StmtV::Expr(left), p, d),
            }
        }),
{
}

/// One step of `assign_spec`: the rule equals its definition.
pub proof fn unfold_assign(toks: Seq<TokenV>, p: int, d: int, name: Seq<char>)
    ensures
        assign_spec(toks, p, d, name) == ({
            let a = expect_spec(toks, p, d, TokenV::Assign);
            match a.res {
                Ok(_) => if 0 <= p < toks.len() {
                    let v = expr_spec(toks, p + 1, d);
                    match v.res {
                        Ok(value) => ok(StmtV::Assign { name, value }, v.pos, v.depth),
                        Err(e) => fail(e, v.pos, v.depth),
                    }
                } else {
                    fail(ParseErrorV::UnexpectedEof, a.pos, a.depth)
                },
                Err(e) => fail(e, a.pos, a.depth),
            }
        }),
{
}

/// One step of `compound_spec`: the rule equals its definition.
pub proof fn unfold_compound(toks: Seq<TokenV>, p: int, d: int, name: Seq<char>, op: BinOp)
    ensures
        compound_spec(toks, p, d, name, op) == ({
            if p >= toks.len() {
                fail(ParseErrorV::UnexpectedEof, p, d)
            } else {
                let v = cmp_spec(toks, p + 1, d);
                match v.res {
                    Ok(value) => ok(StmtV::CompoundAssign { name, op, value }, v.pos, v.depth),
                    Err(e) => fail(e, v.pos, v.depth),
                }
            }
        }),
{
}

/// One step of `index_assign_spec`: the rule equals its definition.
pub proof fn unfold_index_assign(toks: Seq<TokenV>, p: int, d: int, obj: ExprV, key: ExprV)
    ensures
        index_assign_spec(toks, p, d, obj, key) == ({
            let a = expect_spec(toks, p, d, TokenV::Assign);
            match a.res {
                Ok(_) => if 0 <= p < toks.len() {
                    let v = expr_spec(toks, p + 1, d);
                    match v.res {
                        Ok(value) => ok(StmtV::IndexAssign { obj, key, value }, v.pos, v.depth),
                        Err(e) => fail(e, v.pos, v.depth),
                    }
                } else {
                    fail(ParseErrorV::UnexpectedEof, a.pos, a.depth)
                },
                Err(e) => fail(e, a.pos, a.depth),
            }
        }),
{
}

/// One step of `index_compound_spec`: the rule equals its definition.
pub proof fn unfold_index_compound(toks: Seq<TokenV>, p: int, d: int, obj: ExprV, key: ExprV, op: BinOp)
    ensures
        index_compound_spec(toks, p, d, obj, key, op) == ({
            if p >= toks.len() {
                fail(ParseErrorV::UnexpectedEof, p, d)
            } else {
                let v = cmp_spec(toks, p + 1, d);
                match v.res {
                    Ok(value) => ok(StmtV::IndexCompoundAssign { obj, key, op, value }, v.pos, v.depth),
                    Err(e) => fail(e, v.pos, v.depth),
                }
            }
        }),
{
}

/// One step of `if_spec`: the rule equals its definition.
pub proof fn unfold_if(toks: Seq<TokenV>, p: int, d: int)
    ensures
        if_spec(toks, p, d) == ({
            if p >= toks.len() {
                fail(ParseErrorV::UnexpectedEof, p, d)
            } else {
                let c = expr_spec(toks, p + 1, d);
                match c.res {
                    Ok(condition) => if moved(c, p, toks) {
                        let t = stmt_spec(toks, c.pos, c.depth);
                        match t.res {
                            Ok(then_b) => if moved(t, p, toks) {
                                if tk(toks, t.pos) is Else {
                                    let e = stmt_spec(toks, t.pos + 1, t.depth);
                                    match e.res {
                                        Ok(else_b) => ok(
                                            StmtV::IfElse {
                                                condition,
                                                then_branch: Box::new(then_b),
                                                else_branch: Some(Box::new(else_b)),
                                            },
                                            e.pos,
                                            e.depth,
                                        ),
                                        Err(er) => fail(er, e.pos, e.depth),
                                    }
                                } else {
                                    ok(
                                        StmtV::IfElse { condition, then_branch: Box::new(then_b), else_branch: None },
                                        t.pos,
                                        t.depth,
                                    )
                                }
                            } else {
                                fail(ParseErrorV::UnexpectedEof, t.pos, t.depth)
                            },
                            Err(er) => fail(er, t.pos, t.depth),
                        }
                    } else {
                        fail(ParseErrorV::UnexpectedEof, c.pos, c.depth)
                    },
                    Err(er) => fail(er, c.pos, c.depth),
                }
            }
        }),
{
}

/// One step of `while_spec`: the rule equals its definition.
pub proof fn unfold_while(toks: Seq<TokenV>, p: int, d: int)
    ensures
        while_spec(toks, p, d) == ({
            if p >= toks.len() {
                fail(ParseErrorV::UnexpectedEof, p, d)
            } else {
                let c = expr_spec(toks, p + 1, d);
                match c.res {
                    Ok(condition) => if moved(c, p, toks) {
                        let b = stmt_spec(toks, c.pos, c.depth);
                        match b.res {
                            Ok(block) => ok(StmtV::While { condition, block: Box::new(block) }, b.pos, b.depth),
                            Err(er) => fail(er, b.pos, b.depth),
                        }
                    } else {
                        fail(ParseErrorV::UnexpectedEof, c.pos, c.depth)
                    },
                    Err(er) => fail(er, c.pos, c.depth),
                }
            }
        }),
{
}

/// One step of `block_spec`: the rule equals its definition.
pub proof fn unfold_block(toks: Seq<TokenV>, p: int, d: int)
    ensures
        block_spec(toks, p, d) == ({
            let l = expect_spec(toks, p, d, TokenV::LBrace);
            match l.res {
                Ok(_) => if 0 <= p < toks.len() {
                    let items = block_items_spec(toks, p + 1, d);
                    match items.res {
                        Ok(stmts) => {
                            let r = expect_spec(toks, items.pos, items.depth, TokenV::RBrace);
                            match r.res {
                                Ok(_) => ok(StmtV::Block(stmts), r.pos, r.depth),
                                Err(e) => fail(e, r.pos, r.depth),
                            }
                        },
                        Err(e) => fail(e, items.pos, items.depth),
                    }
                } else {
                    fail(ParseErrorV::UnexpectedEof, l.pos, l.depth)
                },
                Err(e) => fail(e, l.pos, l.depth),
            }
        }),
{
}

/// One step of `let_spec`: the rule equals its definition.
pub proof fn unfold_let(toks: Seq<TokenV>, p: int, d: int)
    ensures
        let_spec(toks, p, d) == ({
            match tk(toks, p + 1) {
                TokenV::Ident(name) => {
                    let a = expect_spec(toks, p + 2, d, TokenV::Assign);
                    match a.res {
                        Ok(_) => if 0 <= p && p + 3 <= toks.len() {
                            let v = expr_spec(toks, p + 3, d);
                            match v.res {
                                Ok(value) => then_semicolon(toks, ok(StmtV::Let { name, value }, v.pos, v.depth)),
                                Err(e) => fail(e, v.pos, v.depth),
                            }
                        } else {
                            fail(ParseErrorV::UnexpectedEof, a.pos, a.depth)
                        },
                        Err(e) => fail(e, a.pos, a.depth),
                    }
                },
                other => fail(ParseErrorV::ExpectedIdentifier(token_text(other)), p + 2, d),
            }
        }),
{
}

/// One step of `expr_spec`: the rule equals its definition.
pub proof fn unfold_expr(toks: Seq<TokenV>, p: int, d: int)
    ensures
        expr_spec(toks, p, d) == ({
            if tk(toks, p) is Fn {
                fn_spec(toks, p, d)
            } else {
                concat_spec(toks, p, d)
            }
        }),
{
}

/// One step of `params_spec`: the rule equals its definition.
pub proof fn unfold_params(toks: Seq<TokenV>, p: int, d: int)
    ensures
        params_spec(toks, p, d) == ({
            if tk(toks, p) is RParen || tk(toks, p) is Eof {
                ok(Seq::empty(), p, d)
            } else {
                match tk(toks, p) {
                    TokenV::Ident(name) => {
                        let t = tk(toks, p + 1);
                        if t is Comma {
                            let rest = params_spec(toks, p + 2, d);
                            match rest.res {
                                Ok(names) => ok(seq![name] + names, rest.pos, rest.depth),
                                Err(e) => fail(e, rest.pos, rest.depth),
                            }
                        } else if !(t is RParen || t is Eof) {
                            fail(ParseErrorV::UnexpectedToken(token_text(t)), p + 1, d)
                        } else {
                            ok(seq![name], p + 1, d)
                        }
                    },
                    other => fail(ParseErrorV::ExpectedIdentifier(token_text(other)), p + 1, d),
                }
            }
        }),
{
}

/// One step of `fn_spec`: the rule equals its definition.
pub proof fn unfold_fn(toks: Seq<TokenV>, p: int, d: int)
    ensures
        fn_spec(toks, p, d) == ({
            let l = expect_spec(toks, p + 1, d, TokenV::LParen);
            match l.res {
                Ok(_) => {
                    let ps = params_spec(toks, p + 2, d);
                    match ps.res {
                        Ok(names) => {
                            let r = expect_spec(toks, ps.pos, ps.depth, TokenV::RParen);
                            match r.res {
                                Ok(_) => if p < r.pos <= toks.len() {
                                    let b = block_spec(toks, r.pos, r.depth + 1);
                                    match b.res {
                                        Ok(body) => ok(ExprV::Fn(names, Box::new(body)), b.pos, b.depth - 1),
                                        Err(e) => fail(e, b.pos, b.depth),
                                    }
                                } else {
                                    fail(ParseErrorV::UnexpectedEof, r.pos, r.depth)
                                },
                                Err(e) => fail(e, r.pos, r.depth),
                            }
                        },
                        Err(e) => fail(e, ps.pos, ps.depth),
                    }
                },
                Err(e) => fail(e, l.pos, l.depth),
            }
        }),
{
}

/// One step of `concat_spec`: the rule equals its definition.
pub proof fn unfold_concat(toks: Seq<TokenV>, p: int, d: int)
    ensures
        concat_spec(toks, p, d) == ({
            let l = or_spec(toks, p, d);
            match l.res {
                Ok(left) => if moved(l, p, toks) {
                    concat_tail_spec(toks, l.pos, l.depth, left)
                } else {
                    fail(ParseErrorV::UnexpectedEof, l.pos, l.depth)
                },
                Err(e) => fail(e, l.pos, l.depth),
            }
        }),
{
}

/// One step of `concat_tail_spec`: the rule equals its definition.
pub proof fn unfold_concat_tail(toks: Seq<TokenV>, p: int, d: int, left: ExprV)
    ensures
        concat_tail_spec(toks, p, d, left) == ({
            if tk(toks, p) is DotDot {
                let r = or_spec(toks, p + 1, d);
                match r.res {
                    Ok(right) => if moved(r, p, toks) {
                        concat_tail_spec(toks, r.pos, r.depth, ExprV::Concat { left: Box::new(left), right: Box::new(right) })
                    } else {
                        fail(ParseErrorV::UnexpectedEof, r.pos, r.depth)
                    },
                    Err(e) => fail(e, r.pos, r.depth),
                }
            } else {
                ok(left, p, d)
            }
        }),
{
}

/// One step of `or_spec`: the rule equals its definition.
pub proof fn unfold_or(toks: Seq<TokenV>, p: int, d: int)
    ensures
        or_spec(toks, p, d) == ({
            let l = and_spec(toks, p, d);
            match l.res {
                Ok(left) => if moved(l, p, toks) {
                    or_tail_spec(toks, l.pos, l.depth, left)
                } else {
                    fail(ParseErrorV::UnexpectedEof, l.pos, l.depth)
                },
                Err(e) => fail(e, l.pos, l.depth),
            }
        }),
{
}

/// One step of `or_tail_spec`: the rule equals its definition.
pub proof fn unfold_or_tail(toks: Seq<TokenV>, p: int, d: int, left: ExprV)
    ensures
        or_tail_spec(toks, p, d, left) == ({
            if tk(toks, p) is Or {
                let r = and_spec(toks, p + 1, d);
                match r.res {
                    Ok(right) => if moved(r, p, toks) {
                        or_tail_spec(toks, r.pos, r.depth, ExprV::OrOp { left: Box::new(left), right: Box::new(right) })
                    } else {
                        fail(ParseErrorV::UnexpectedEof, r.pos, r.depth)
                    },
                    Err(e) => fail(e, r.pos, r.depth),
                }
            } else {
                ok(left, p, d)
            }
        }),
{
}

/// One step of `and_spec`: the rule equals its definition.
pub proof fn unfold_and(toks: Seq<TokenV>, p: int, d: int)
    ensures
        and_spec(toks, p, d) == ({
            let l = cmp_spec(toks, p, d);
            match l.res {
                Ok(left) => if moved(l, p, toks) {
                    and_tail_spec(toks, l.pos, l.depth, left)
                } else {
                    fail(ParseErrorV::UnexpectedEof, l.pos, l.depth)
                },
                Err(e) => fail(e, l.pos, l.depth),
            }
        }),
{
}

/// One step of `and_tail_spec`: the rule equals its definition.
pub proof fn unfold_and_tail(toks: Seq<TokenV>, p: int, d: int, left: ExprV)
    ensures
        and_tail_spec(toks, p, d, left) == ({
            if tk(toks, p) is And {
                let r = cmp_spec(toks, p + 1, d);
                match r.res {
                    Ok(right) => if moved(r, p, toks) {
                        and_tail_spec(toks, r.pos, r.depth, ExprV::AndOp { left: Box::new(left), right: Box::new(right) })
                    } else {
                        fail(ParseErrorV::UnexpectedEof, r.pos, r.depth)
                    },
                    Err(e) => fail(e, r.pos, r.depth),
                }
            } else {
                ok(left, p, d)
            }
        }),
{
}

/// One step of `cmp_spec`: the rule equals its definition.
pub proof fn unfold_cmp(toks: Seq<TokenV>, p: int, d: int)
    ensures
        cmp_spec(toks, p, d) == ({
            let l = addsub_spec(toks, p, d);
            match l.res {
                Ok(left) => match cmp_op_of(tk(toks, l.pos)) {
                    Some(op) => if moved(l, p, toks) {
                        let r = addsub_spec(toks, l.pos + 1, l.depth);
                        match r.res {
                            Ok(right) => ok(ExprV::CompareOp { left: Box::new(left), op, right: Box::new(right) }, r.pos, r.depth),
                            Err(e) => fail(e, r.pos, r.depth),
                        }
                    } else {
                        fail(ParseErrorV::UnexpectedEof, l.pos, l.depth)
                    },
                    None => ok(left, l.pos, l.depth),
                },
                Err(e) => fail(e, l.pos, l.depth),
            }
        }),
{
}

/// One step of `addsub_spec`: the rule equals its definition.
pub proof fn unfold_addsub(toks: Seq<TokenV>, p: int, d: int)
    ensures
        addsub_spec(toks, p, d) == ({
            let l = muldiv_spec(toks, p, d);
            match l.res {
                Ok(left) => if moved(l, p, toks) {
                    addsub_tail_spec(toks, l.pos, l.depth, left)
                } else {
                    fail(ParseErrorV::UnexpectedEof, l.pos, l.depth)
                },
                Err(e) => fail(e, l.pos, l.depth),
            }
        }),
{
}

/// One step of `addsub_tail_spec`: the rule equals its definition.
pub proof fn unfold_addsub_tail(toks: Seq<TokenV>, p: int, d: int, left: ExprV)
    ensures
        addsub_tail_spec(toks, p, d, left) == ({
            match bin_op_of(tk(toks, p)) {
                Some(op) => if op == BinOp::Add || op == BinOp::Sub {
                    let r = muldiv_spec(toks, p + 1, d);
                    match r.res {
                        Ok(right) => if moved(r, p, toks) {
                            addsub_tail_spec(toks, r.pos, r.depth, ExprV::BinaryOp { left: Box::new(left), op, right: Box::new(right) })
                        } else {
                            fail(ParseErrorV::UnexpectedEof, r.pos, r.depth)
                        },
                        Err(e) => fail(e, r.pos, r.depth),
                    }
                } else {
                    ok(left, p, d)
                },
                None => ok(left, p, d),
            }
        }),
{
}

/// One step of `muldiv_spec`: the rule equals its definition.
pub proof fn unfold_muldiv(toks: Seq<TokenV>, p: int, d: int)
    ensures
        muldiv_spec(toks, p, d) == ({
            let l = unary_spec(toks, p, d);
            match l.res {
                Ok(left) => if moved(l, p, toks) {
                    muldiv_tail_spec(toks, l.pos, l.depth, left)
                } else {
                    fail(ParseErrorV::UnexpectedEof, l.pos, l.depth)
                },
                Err(e) => fail(e, l.pos, l.depth),
            }
        }),
{
}

/// One step of `muldiv_tail_spec`: the rule equals its definition.
pub proof fn unfold_muldiv_tail(toks: Seq<TokenV>, p: int, d: int, left: ExprV)
    ensures
        muldiv_tail_spec(toks, p, d, left) == ({
            match bin_op_of(tk(toks, p)) {
                Some(op) => if op == BinOp::Mul || op == BinOp::Div {
                    let r = unary_spec(toks, p + 1, d);
                    match r.res {
                        Ok(right) => if moved(r, p, toks) {
                            muldiv_tail_spec(toks, r.pos, r.depth, ExprV::BinaryOp { left: Box::new(left), op, right: Box::new(right) })
                        } else {
                            fail(ParseErrorV::UnexpectedEof, r.pos, r.depth)
                        },
                        Err(e) => fail(e, r.pos, r.depth),
                    }
                } else {
                    ok(left, p, d)
                },
                None => ok(left, p, d),
            }
        }),
{
}

/// One step of `unary_spec`: the rule equals its definition.
pub proof fn unfold_unary(toks: Seq<TokenV>, p: int, d: int)
    ensures
        unary_spec(toks, p, d) == ({
            match unary_op_of(tk(toks, p)) {
                Some(UnaryOp::Pos) => unary_spec(toks, p + 1, d),
                Some(op) => {
                    let e = unary_spec(toks, p + 1, d);
                    match e.res {
                        Ok(x) => ok(ExprV::Unary(op, Box::new(x)), e.pos, e.depth),
                        Err(er) => fail(er, e.pos, e.depth),
                    }
                },
                None => call_spec(toks, p, d),
            }
        }),
{
}

/// One step of `call_spec`: the rule equals its definition.
pub proof fn unfold_call(toks: Seq<TokenV>, p: int, d: int)
    ensures
        call_spec(toks, p, d) == ({
            let a = atom_spec(toks, p, d);
            match a.res {
                Ok(x) => if moved(a, p, toks) {
                    postfix_spec(toks, a.pos, a.depth, x)
                } else {
                    fail(ParseErrorV::UnexpectedEof, a.pos, a.depth)
                },
                Err(e) => fail(e, a.pos, a.depth),
            }
        }),
{
}

/// One step of `postfix_spec`: the rule equals its definition.
pub proof fn unfold_postfix(toks: Seq<TokenV>, p: int, d: int, left: ExprV)
    ensures
        postfix_spec(toks, p, d, left) == ({
            match tk(toks, p) {
                TokenV::LParen => {
                    let args = args_spec(toks, p + 1, d, TokenV::RParen);
                    match args.res {
                        Ok(xs) => {
                            let r = expect_spec(toks, args.pos, args.depth, TokenV::RParen);
                            match r.res {
                                Ok(_) => if moved(r, p, toks) {
                                    postfix_spec(toks, r.pos, r.depth, ExprV::Call(Box::new(left), xs))
                                } else {
                                    fail(ParseErrorV::UnexpectedEof, r.pos, r.depth)
                                },
                                Err(e) => fail(e, r.pos, r.depth),
                            }
                        },
                        Err(e) => fail(e, args.pos, args.depth),
                    }
                },
                TokenV::LBracket => {
                    let k = expr_spec(toks, p + 1, d);
                    match k.res {
                        Ok(key) => {
                            let r = expect_spec(toks, k.pos, k.depth, TokenV::RBracket);
                            match r.res {
                                Ok(_) => if moved(r, p, toks) {
                                    postfix_spec(toks, r.pos, r.depth, ExprV::Index { obj: Box::new(left), key: Box::new(key) })
                                } else {
                                    fail(ParseErrorV::UnexpectedEof, r.pos, r.depth)
                                },
                                Err(e) => fail(e, r.pos, r.depth),
                            }
                        },
                        Err(e) => fail(e, k.pos, k.depth),
                    }
                },
                TokenV::Dot => match tk(toks, p + 1) {
                    TokenV::Ident(name) => postfix_spec(
                        toks,
                        p + 2,
                        d,
                        ExprV::Index { obj: Box::new(left), key: Box::new(ExprV::String(name)) },
                    ),
                    other => fail(ParseErrorV::ExpectedIdentifier(token_text(other)), p + 2, d),
                },
                TokenV::Colon => match tk(toks, p + 1) {
                    TokenV::Ident(name) => {
                        let l = expect_spec(toks, p + 2, d, TokenV::LParen);
                        match l.res {
                            Ok(_) => if 0 <= p && p + 3 <= toks.len() {
                                let args = args_spec(toks, p + 3, d, TokenV::RParen);
                                match args.res {
                                    Ok(xs) => {
                                        let r = expect_spec(toks, args.pos, args.depth, TokenV::RParen);
                                        match r.res {
                                            Ok(_) => if moved(r, p, toks) {
                                                postfix_spec(toks, r.pos, r.depth, ExprV::Method { obj: Box::new(left), name, args: xs })
                                            } else {
                                                fail(ParseErrorV::UnexpectedEof, r.pos, r.depth)
                                            },
                                            Err(e) => fail(e, r.pos, r.depth),
                                        }
                                    },
                                    Err(e) => fail(e, args.pos, args.depth),
                                }
                            } else {
                                fail(ParseErrorV::UnexpectedEof, l.pos, l.depth)
                            },
                            Err(e) => fail(e, l.pos, l.depth),
                        }
                    },
                    other => fail(ParseErrorV::ExpectedIdentifier(token_text(other)), p + 2, d),
                },
                _ => ok(left, p, d),
            }
        }),
{
}

/// One step of `args_spec`: the rule equals its definition.
pub proof fn unfold_args(toks: Seq<TokenV>, p: int, d: int, close: TokenV)
    ensures
        args_spec(toks, p, d, close) == ({
            if token_tag(tk(toks, p)) == token_tag(close) || tk(toks, p) is Eof {
                ok(Seq::empty(), p, d)
            } else {
                let e = expr_spec(toks, p, d);
                match e.res {
                    Ok(x) => if moved(e, p, toks) {
                        let t = tk(toks, e.pos);
                        if t is Comma {
                            let rest = args_spec(toks, e.pos + 1, e.depth, close);
                            match rest.res {
                                Ok(xs) => ok(seq![x] + xs, rest.pos, rest.depth),
                                Err(er) => fail(er, rest.pos, rest.depth),
                            }
                        } else if !(token_tag(t) == token_tag(close) || t is Eof) {
                            fail(ParseErrorV::UnexpectedToken(token_text(t)), e.pos, e.depth)
                        } else {
                            ok(seq![x], e.pos, e.depth)
                        }
                    } else {
                        fail(ParseErrorV::UnexpectedEof, e.pos, e.depth)
                    },
                    Err(er) => fail(er, e.pos, e.depth),
                }
            }
        }),
{
}

/// One step of `atom_spec`: the rule equals its definition.
pub proof fn unfold_atom(toks: Seq<TokenV>, p: int, d: int)
    ensures
        atom_spec(toks, p, d) == ({
            match tk(toks, p) {
                TokenV::String(s) => ok(ExprV::String(s), p + 1, d),
                TokenV::Float(t) => ok(ExprV::Float(t), p + 1, d),
                TokenV::Integer(n) => ok(ExprV::Integer(n), p + 1, d),
                TokenV::LParen => {
                    let e = expr_spec(toks, p + 1, d);
                    match e.res {
                        Ok(x) => {
                            let r = expect_spec(toks, e.pos, e.depth, TokenV::RParen);
                            match r.res {
                                Ok(_) => ok(x, r.pos, r.depth),
                                Err(er) => fail(er, r.pos, r.depth),
                            }
                        },
                        Err(er) => fail(er, e.pos, e.depth),
                    }
                },
                TokenV::LBrace => {
                    let r = expect_spec(toks, p + 1, d, TokenV::RBrace);
                    match r.res {
                        Ok(_) => ok(ExprV::Table, r.pos, r.depth),
                        Err(er) => fail(er, r.pos, r.depth),
                    }
                },
                TokenV::LBracket => {
                    let items = args_spec(toks, p + 1, d, TokenV::RBracket);
                    match items.res {
                        Ok(xs) => {
                            let r = expect_spec(toks, items.pos, items.depth, TokenV::RBracket);
                            match r.res {
                                Ok(_) => ok(ExprV::Array(xs), r.pos, r.depth),
                                Err(er) => fail(er, r.pos, r.depth),
                            }
                        },
                        Err(er) => fail(er, items.pos, items.depth),
                    }
                },
                TokenV::Ident(name) => ok(ExprV::Ident(name), p + 1, d),
                TokenV::True => ok(ExprV::Bool(true), p + 1, d),
                TokenV::False => ok(ExprV::Bool(false), p + 1, d),
                TokenV::Eof => fail(ParseErrorV::UnexpectedEof, p, d),
                other => fail(ParseErrorV::UnexpectedToken(token_text(other)), p, d),
            }
        }),
{
}

} // verus!
