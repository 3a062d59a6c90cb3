//! The syntax tree that the parser builds and the compiler reads.

use vstd::prelude::*;

verus! {

/// An arithmetic operator.
#[derive(Debug, Clone, Copy, PartialEq, Eq, Structural)]
pub enum BinOp {
    Add,
    Sub,
    Mul,
    Div,
}

/// A comparison operator.
#[derive(Debug, Clone, Copy, PartialEq, Eq, Structural)]
pub enum CmpOp {
    Eq,
    NEq,
    Gt,
    Lt,
    Gte,
    Lte,
}

/// A prefix operator. The parser drops `Pos` (a `+` prefix) and never builds it.
#[derive(Debug, Clone, Copy, PartialEq, Eq, Structural)]
pub enum UnaryOp {
    Not,
    Neg,
    Pos,
}

/// A statement.
#[derive(Debug, PartialEq)]
pub enum Stmt {
    Expr(Expr),
    Let { name: String, value: Expr },
    IfElse { condition: Expr, then_branch: Box<Stmt>, else_branch: Option<Box<Stmt>> },
    While { condition: Expr, block: Box<Stmt> },
    Assign { name: String, value: Expr },
    CompoundAssign { name: String, op: BinOp, value: Expr },
    Block(Vec<Stmt>),
    Return(Expr),
    IndexAssign { obj: Expr, key: Expr, value: Expr },
    IndexCompoundAssign { obj: Expr, key: Expr, op: BinOp, value: Expr },
}

/// An expression. A float literal is kept as the text it was written with.
#[derive(Debug, PartialEq)]
pub enum Expr {
    Integer(i64),
    Float(String),
    Bool(bool),
    Ident(String),
    String(String),
    BinaryOp { left: Box<Expr>, op: BinOp, right: Box<Expr> },
    CompareOp { left: Box<Expr>, op: CmpOp, right: Box<Expr> },
    AndOp { left: Box<Expr>, right: Box<Expr> },
    OrOp { left: Box<Expr>, right: Box<Expr> },
    Unary(UnaryOp, Box<Expr>),
    Call(Box<Expr>, Vec<Expr>),
    Fn(Vec<String>, Box<Stmt>),
    Concat { left: Box<Expr>, right: Box<Expr> },
    Index { obj: Box<Expr>, key: Box<Expr> },
    Method { obj: Box<Expr>, name: String, args: Vec<Expr> },
    Array(Vec<Expr>),
    Table,
}

/// The mathematical value of a statement.
pub enum StmtV {
    Expr(ExprV),
    Let { name: Seq<char>, value: ExprV },
    IfElse { condition: ExprV, then_branch: Box<StmtV>, else_branch: Option<Box<StmtV>> },
    While { condition: ExprV, block: Box<StmtV> },
    Assign { name: Seq<char>, value: ExprV },
    CompoundAssign { name: Seq<char>, op: BinOp, value: ExprV },
    Block(Seq<StmtV>),
    Return(ExprV),
    IndexAssign { obj: ExprV, key: ExprV, value: ExprV },
    IndexCompoundAssign { obj: ExprV, key: ExprV, op: BinOp, value: ExprV },
}

/// The mathematical value of an expression.
pub enum ExprV {
    Integer(i64),
    Float(Seq<char>),
    Bool(bool),
    Ident(Seq<char>),
    String(Seq<char>),
    BinaryOp { left: Box<ExprV>, op: BinOp, right: Box<ExprV> },
    CompareOp { left: Box<ExprV>, op: CmpOp, right: Box<ExprV> },
    AndOp { left: Box<ExprV>, right: Box<ExprV> },
    OrOp { left: Box<ExprV>, right: Box<ExprV> },
    Unary(UnaryOp, Box<ExprV>),
    Call(Box<ExprV>, Seq<ExprV>),
    Fn(Seq<Seq<char>>, Box<StmtV>),
    Concat { left: Box<ExprV>, right: Box<ExprV> },
    Index { obj: Box<ExprV>, key: Box<ExprV> },
    Method { obj: Box<ExprV>, name: Seq<char>, args: Seq<ExprV> },
    Array(Seq<ExprV>),
    Table,
}

/// The value of an expression.
pub open spec fn expr_v(e: Expr) -> ExprV
    decreases e,
{
    match e {
        Expr::Integer(n) => ExprV::Integer(n),
        Expr::Float(t) => ExprV::Float(t@),
        Expr::Bool(b) => ExprV::Bool(b),
        Expr::Ident(t) => ExprV::Ident(t@),
        Expr::String(t) => ExprV::String(t@),
        Expr::BinaryOp { left, op, right } => ExprV::BinaryOp {
            left: Box::new(expr_v(*left)),
            op,
            right: Box::new(expr_v(*right)),
        },
        Expr::CompareOp { left, op, right } => ExprV::CompareOp {
            left: Box::new(expr_v(*left)),
            op,
            right: Box::new(expr_v(*right)),
        },
        Expr::AndOp { left, right } => ExprV::AndOp {
            left: Box::new(expr_v(*left)),
            right: Box::new(expr_v(*right)),
        },
        Expr::OrOp { left, right } => ExprV::OrOp {
            left: Box::new(expr_v(*left)),
            right: Box::new(expr_v(*right)),
        },
        Expr::Unary(op, inner) => ExprV::Unary(op, Box::new(expr_v(*inner))),
        Expr::Call(callee, args) => ExprV::Call(Box::new(expr_v(*callee)), exprs_v(args@)),
        Expr::Fn(params, body) => ExprV::Fn(strings_v(params@), Box::new(stmt_v(*body))),
        Expr::Concat { left, right } => ExprV::Concat {
            left: Box::new(expr_v(*left)),
            right: Box::new(expr_v(*right)),
        },
        Expr::Index { obj, key } => ExprV::Index { obj: Box::new(expr_v(*obj)), key: Box::new(expr_v(*key)) },
        Expr::Method { obj, name, args } => ExprV::Method {
            obj: Box::new(expr_v(*obj)),
            name: name@,
            args: exprs_v(args@),
        },
        Expr::Array(items) => ExprV::Array(exprs_v(items@)),
        Expr::Table => ExprV::Table,
    }
}

/// The values of a sequence of expressions.
pub open spec fn exprs_v(es: Seq<Expr>) -> Seq<ExprV>
    decreases es,
{
    if es.len() == 0 {
        Seq::empty()
    } else {
        exprs_v(es.drop_last()).push(expr_v(es.last()))
    }
}

/// The values of a sequence of strings.
pub open spec fn strings_v(ss: Seq<String>) -> Seq<Seq<char>> {
    ss.map_values(|s: String| s@)
}

/// The value of a statement.
pub open spec fn stmt_v(s: Stmt) -> StmtV
    decreases s,
{
    match s {
        Stmt::Expr(e) => StmtV::Expr(expr_v(e)),
        Stmt::Let { name, value } => StmtV::Let { name: name@, value: expr_v(value) },
        Stmt::IfElse { condition, then_branch, else_branch } => StmtV::IfElse {
            condition: expr_v(condition),
            then_branch: Box::new(stmt_v(*then_branch)),
            else_branch: match else_branch {
                Some(b) => Some(Box::new(stmt_v(*b))),
                None => None,
            },
        },
        Stmt::While { condition, block } => StmtV::While {
            condition: expr_v(condition),
            block: Box::new(stmt_v(*block)),
        },
        Stmt::Assign { name, value } => StmtV::Assign { name: name@, value: expr_v(value) },
        Stmt::CompoundAssign { name, op, value } => StmtV::CompoundAssign {
            name: name@,
            op,
            value: expr_v(value),
        },
        Stmt::Block(stmts) => StmtV::Block(stmts_v(stmts@)),
        Stmt::Return(e) => StmtV::Return(expr_v(e)),
        Stmt::IndexAssign { obj, key, value } => StmtV::IndexAssign {
            obj: expr_v(obj),
            key: expr_v(key),
            value: expr_v(value),
        },
        Stmt::IndexCompoundAssign { obj, key, op, value } => StmtV::IndexCompoundAssign {
            obj: expr_v(obj),
            key: expr_v(key),
            op,
            value: expr_v(value),
        },
    }
}

/// The values of a sequence of statements.
pub open spec fn stmts_v(ss: Seq<Stmt>) -> Seq<StmtV>
    decreases ss,
{
    if ss.len() == 0 {
        Seq::empty()
    } else {
        stmts_v(ss.drop_last()).push(stmt_v(ss.last()))
    }
}

impl View for Expr {
    type V = ExprV;

    open spec fn view(&self) -> ExprV {
        expr_v(*self)
    }
}

impl View for Stmt {
    type V = StmtV;

    open spec fn view(&self) -> StmtV {
        stmt_v(*self)
    }
}

} // verus!

verus! {

pub proof fn lemma_exprs_v_push(es: Seq<Expr>, e: Expr)
    ensures
        exprs_v(es.push(e)) == exprs_v(es).push(expr_v(e)),
{
    assert(es.push(e).drop_last() =~= es);
}

pub proof fn lemma_stmts_v_push(ss: Seq<Stmt>, s: Stmt)
    ensures
        stmts_v(ss.push(s)) == stmts_v(ss).push(stmt_v(s)),
{
    assert(ss.push(s).drop_last() =~= ss);
}

pub proof fn lemma_strings_v_push(ss: Seq<String>, s: String)
    ensures
        strings_v(ss.push(s)) == strings_v(ss).push(s@),
{
    assert(strings_v(ss.push(s)) =~= strings_v(ss).push(s@));
}

/// One step of `expr_v`: the view of a node is built from the views of its parts.
pub proof fn lemma_expr_view(e: Expr)
    ensures
        expr_v(e) == ({
            match e {
                Expr::Integer(n) => ExprV::Integer(n),
                Expr::Float(t) => ExprV::Float(t@),
                Expr::Bool(b) => ExprV::Bool(b),
                Expr::Ident(t) => ExprV::Ident(t@),
                Expr::String(t) => ExprV::String(t@),
                Expr::BinaryOp { left, op, right } => ExprV::BinaryOp {
                    left: Box::new(expr_v(*left)),
                    op,
                    right: Box::new(expr_v(*right)),
                },
                Expr::CompareOp { left, op, right } => ExprV::CompareOp {
                    left: Box::new(expr_v(*left)),
                    op,
                    right: Box::new(expr_v(*right)),
                },
                Expr::AndOp { left, right } => ExprV::AndOp {
                    left: Box::new(expr_v(*left)),
                    right: Box::new(expr_v(*right)),
                },
                Expr::OrOp { left, right } => ExprV::OrOp {
                    left: Box::new(expr_v(*left)),
                    right: Box::new(expr_v(*right)),
                },
                Expr::Unary(op, inner) => ExprV::Unary(op, Box::new(expr_v(*inner))),
                Expr::Call(callee, args) => ExprV::Call(Box::new(expr_v(*callee)), exprs_v(args@)),
                Expr::Fn(params, body) => ExprV::Fn(strings_v(params@), Box::new(stmt_v(*body))),
                Expr::Concat { left, right } => ExprV::Concat {
                    left: Box::new(expr_v(*left)),
                    right: Box::new(expr_v(*right)),
                },
                Expr::Index { obj, key } => ExprV::Index { obj: Box::new(expr_v(*obj)), key: Box::new(expr_v(*key)) },
                Expr::Method { obj, name, args } => ExprV::Method {
                    obj: Box::new(expr_v(*obj)),
                    name: name@,
                    args: exprs_v(args@),
                },
                Expr::Array(items) => ExprV::Array(exprs_v(items@)),
                Expr::Table => ExprV::Table,
            }
        }),
{
}

/// One step of `stmt_v`: the view of a node is built from the views of its parts.
pub proof fn lemma_stmt_view(s: Stmt)
    ensures
        stmt_v(s) == ({
            match s {
                Stmt::Expr(e) => StmtV::Expr(expr_v(e)),
                Stmt::Let { name, value } => StmtV::Let { name: name@, value: expr_v(value) },
                Stmt::IfElse { condition, then_branch, else_branch } => StmtV::IfElse {
                    condition: expr_v(condition),
                    then_branch: Box::new(stmt_v(*then_branch)),
                    else_branch: match else_branch {
                        Some(b) => Some(Box::new(stmt_v(*b))),
                        None => None,
                    },
                },
                Stmt::While { condition, block } => StmtV::While {
                    condition: expr_v(condition),
                    block: Box::new(stmt_v(*block)),
                },
                Stmt::Assign { name, value } => StmtV::Assign { name: name@, value: expr_v(value) },
                Stmt::CompoundAssign { name, op, value } => StmtV::CompoundAssign {
                    name: name@,
                    op,
                    value: expr_v(value),
                },
                Stmt::Block(stmts) => StmtV::Block(stmts_v(stmts@)),
                Stmt::Return(e) => StmtV::Return(expr_v(e)),
                Stmt::IndexAssign { obj, key, value } => StmtV::IndexAssign {
                    obj: expr_v(obj),
                    key: expr_v(key),
                    value: expr_v(value),
                },
                Stmt::IndexCompoundAssign { obj, key, op, value } => StmtV::IndexCompoundAssign {
                    obj: expr_v(obj),
                    key: expr_v(key),
                    op,
                    value: expr_v(value),
                },
            }
        }),
{
}

} // verus!

verus! {

/// The view of a name expression.
pub proof fn lemma_ident_view(e: Expr)
    ensures
        e is Ident <==> expr_v(e) is Ident,
        e matches Expr::Ident(name) ==> expr_v(e) == ExprV::Ident(name@),
{
}

/// The view of an expression statement.
pub proof fn lemma_expr_stmt_view(e: Expr)
    ensures
        stmt_v(Stmt::Expr(e)) == StmtV::Expr(expr_v(e)),
{
}

} // verus!

verus! {

/// The view of a sequence of expressions has one element per expression.
pub proof fn lemma_exprs_v_index(es: Seq<Expr>)
    ensures
        exprs_v(es).len() == es.len(),
        forall|i: int| 0 <= i < es.len() ==> #[trigger] exprs_v(es)[i] == expr_v(es[i]),
    decreases es.len(),
{
    if es.len() > 0 {
        lemma_exprs_v_index(es.drop_last());
    }
}

/// The view of a sequence of statements has one element per statement.
pub proof fn lemma_stmts_v_index(ss: Seq<Stmt>)
    ensures
        stmts_v(ss).len() == ss.len(),
        forall|i: int| 0 <= i < ss.len() ==> #[trigger] stmts_v(ss)[i] == stmt_v(ss[i]),
    decreases ss.len(),
{
    if ss.len() > 0 {
        lemma_stmts_v_index(ss.drop_last());
    }
}

/// Taking one more expression adds its view at the end.
pub proof fn lemma_exprs_v_take(es: Seq<Expr>, i: int)
    requires
        0 <= i < es.len(),
    ensures
        exprs_v(es.take(i + 1)) == exprs_v(es.take(i)).push(expr_v(es[i])),
{
    assert(es.take(i + 1).drop_last() =~= es.take(i));
}

/// Taking one more statement adds its view at the end.
pub proof fn lemma_stmts_v_take(ss: Seq<Stmt>, i: int)
    requires
        0 <= i < ss.len(),
    ensures
        stmts_v(ss.take(i + 1)) == stmts_v(ss.take(i)).push(stmt_v(ss[i])),
{
    assert(ss.take(i + 1).drop_last() =~= ss.take(i));
}

} // verus!
