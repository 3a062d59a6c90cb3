//! What the compiler emits for each construct, stated over syntax-tree
//! values: the code of a statement or expression depends on the symbol
//! tables in scope and on the index at which its code starts (jump targets
//! are absolute).

use vstd::prelude::*;
use crate::ast::{BinOp, CmpOp, UnaryOp, StmtV, ExprV};
use crate::value::{ValueV, OpCodeV};

verus! {

/// A symbol table: names with their slots, in insertion order, each name once.
pub type SymTableV = Seq<(Seq<char>, usize)>;

/// The slot of `name` in a table.
pub open spec fn table_get(t: SymTableV, name: Seq<char>) -> Option<usize>
    decreases t.len(),
{
    if t.len() == 0 {
        None
    } else if t.last().0 == name {
        Some(t.last().1)
    } else {
        table_get(t.drop_last(), name)
    }
}

/// The index of the entry for `name` in a table.
pub open spec fn table_find(t: SymTableV, name: Seq<char>) -> Option<int>
    decreases t.len(),
{
    if t.len() == 0 {
        None
    } else if t.last().0 == name {
        Some(t.len() - 1)
    } else {
        table_find(t.drop_last(), name)
    }
}

/// Declaring `name` in a table: a new name gets the slot numbered by the
/// table's size, the next free one; a name already declared keeps its slot.
pub open spec fn declare(t: SymTableV, name: Seq<char>) -> SymTableV {
    match table_find(t, name) {
        Some(i) => t,
        None => t.push((name, t.len() as usize)),
    }
}

/// Declaring names in order.
pub open spec fn declare_all(t: SymTableV, names: Seq<Seq<char>>) -> SymTableV
    decreases names.len(),
{
    if names.len() == 0 {
        t
    } else {
        declare(declare_all(t, names.drop_last()), names.last())
    }
}

/// The names that the `let` statements of a block declare, in order.
pub open spec fn let_names(stmts: Seq<StmtV>) -> Seq<Seq<char>>
    decreases stmts.len(),
{
    if stmts.len() == 0 {
        Seq::empty()
    } else {
        let before = let_names(stmts.drop_last());
        match stmts.last() {
            StmtV::Let { name, value } => before.push(name),
            _ => before,
        }
    }
}

/// Where a name is bound: the index of the innermost table that holds it and
/// its slot there.
pub open spec fn resolve(tables: Seq<SymTableV>, name: Seq<char>) -> Option<(int, usize)>
    decreases tables.len(),
{
    if tables.len() == 0 {
        None
    } else {
        match table_get(tables.last(), name) {
            Some(slot) => Some((tables.len() - 1, slot)),
            None => resolve(tables.drop_last(), name),
        }
    }
}

/// The instruction that reads a name: a local (scope level counted from the
/// innermost, 1 for the innermost) or else a global.
pub open spec fn load_op(tables: Seq<SymTableV>, name: Seq<char>) -> OpCodeV {
    match resolve(tables, name) {
        Some((lev, slot)) => OpCodeV::LoadLocal((tables.len() - lev) as usize, slot),
        None => OpCodeV::LoadGlobal(name),
    }
}

/// The instruction that writes a name.
pub open spec fn store_op(tables: Seq<SymTableV>, name: Seq<char>) -> OpCodeV {
    match resolve(tables, name) {
        Some((lev, slot)) => OpCodeV::StoreLocal((tables.len() - lev) as usize, slot),
        None => OpCodeV::StoreGlobal(name),
    }
}

pub open spec fn bin_opcode(op: BinOp) -> OpCodeV {
    match op {
        BinOp::Add => OpCodeV::Add,
        BinOp::Sub => OpCodeV::Sub,
        BinOp::Mul => OpCodeV::Mul,
        BinOp::Div => OpCodeV::Div,
    }
}

pub open spec fn compare_opcode(op: CmpOp) -> OpCodeV {
    match op {
        CmpOp::Eq => OpCodeV::Eq,
        CmpOp::Gt => OpCodeV::Gt,
        CmpOp::Lt => OpCodeV::Lt,
        CmpOp::Gte => OpCodeV::Gte,
        CmpOp::Lte => OpCodeV::Lte,
        CmpOp::NEq => OpCodeV::NEq,
    }
}

/// A tree the compiler accepts: no `+` prefix node, every function body a
/// block, and every method call with fewer than `usize::MAX` arguments (its
/// call passes one more, the object).
pub open spec fn wf_expr(e: ExprV) -> bool
    decreases e,
{
    match e {
        ExprV::BinaryOp { left, op, right } => wf_expr(*left) && wf_expr(*right),
        ExprV::CompareOp { left, op, right } => wf_expr(*left) && wf_expr(*right),
        ExprV::AndOp { left, right } => wf_expr(*left) && wf_expr(*right),
        ExprV::OrOp { left, right } => wf_expr(*left) && wf_expr(*right),
        ExprV::Unary(op, inner) => op != UnaryOp::Pos && wf_expr(*inner),
        ExprV::Call(callee, args) => wf_expr(*callee) && wf_exprs(args),
        ExprV::Fn(names, body) => (*body is Block) && wf_stmt(*body),
        ExprV::Concat { left, right } => wf_expr(*left) && wf_expr(*right),
        ExprV::Index { obj, key } => wf_expr(*obj) && wf_expr(*key),
        ExprV::Method { obj, name, args } => wf_expr(*obj) && wf_exprs(args) && args.len() < usize::MAX,
        ExprV::Array(items) => wf_exprs(items),
        _ => true,
    }
}

pub open spec fn wf_exprs(es: Seq<ExprV>) -> bool
    decreases es,
{
    forall|i: int| 0 <= i < es.len() ==> wf_expr(#[trigger] es[i])
}

pub open spec fn wf_stmt(s: StmtV) -> bool
    decreases s,
{
    match s {
        StmtV::Expr(e) => wf_expr(e),
        StmtV::Let { name, value } => wf_expr(value),
        StmtV::IfElse { condition, then_branch, else_branch } => wf_expr(condition) && wf_stmt(*then_branch)
            && match else_branch {
            Some(b) => wf_stmt(*b),
            None => true,
        },
        StmtV::While { condition, block } => wf_expr(condition) && wf_stmt(*block),
        StmtV::Assign { name, value } => wf_expr(value),
        StmtV::CompoundAssign { name, op, value } => wf_expr(value),
        StmtV::Block(stmts) => wf_stmts(stmts),
        StmtV::Return(e) => wf_expr(e),
        StmtV::IndexAssign { obj, key, value } => wf_expr(obj) && wf_expr(key) && wf_expr(value),
        StmtV::IndexCompoundAssign { obj, key, op, value } => wf_expr(obj) && wf_expr(key) && wf_expr(value),
    }
}

pub open spec fn wf_stmts(ss: Seq<StmtV>) -> bool
    decreases ss,
{
    forall|i: int| 0 <= i < ss.len() ==> wf_stmt(#[trigger] ss[i])
}

/// The code of an expression whose code starts at index `base`.
pub closed spec fn cexpr(e: ExprV, tables: Seq<SymTableV>, base: int) -> Seq<OpCodeV>
    decreases e,
{
    match e {
        ExprV::Float(t) => seq![OpCodeV::Push(ValueV::Float(t))],
        ExprV::Integer(n) => seq![OpCodeV::Push(ValueV::Integer(n))],
        ExprV::Bool(b) => seq![OpCodeV::Push(ValueV::Bool(b))],
        ExprV::AndOp { left, right } => {
            let l = cexpr(*left, tables, base);
            let r = cexpr(*right, tables, base + l.len() + 1);
            l + seq![OpCodeV::And((base + l.len() + 1 + r.len()) as usize)] + r
        },
        ExprV::OrOp { left, right } => {
            let l = cexpr(*left, tables, base);
            let r = cexpr(*right, tables, base + l.len() + 1);
            l + seq![OpCodeV::Or((base + l.len() + 1 + r.len()) as usize)] + r
        },
        ExprV::BinaryOp { left, op, right } => {
            let l = cexpr(*left, tables, base);
            let r = cexpr(*right, tables, base + l.len());
            l + r + seq![bin_opcode(op)]
        },
        ExprV::CompareOp { left, op, right } => {
            let l = cexpr(*left, tables, base);
            let r = cexpr(*right, tables, base + l.len());
            l + r + seq![compare_opcode(op)]
        },
        ExprV::Unary(op, inner) => {
            let c = cexpr(*inner, tables, base);
            if op == UnaryOp::Neg {
                c.push(OpCodeV::Neg)
            } else {
                c.push(OpCodeV::Not)
            }
        },
        ExprV::Ident(name) => seq![load_op(tables, name)],
        ExprV::String(s) => seq![OpCodeV::Push(ValueV::String(s))],
        ExprV::Call(callee, args) => {
            let c = cexpr(*callee, tables, base);
            let a = cexprs(args, tables, base + c.len());
            c + a + seq![OpCodeV::Call(args.len() as usize)]
        },
        ExprV::Fn(names, body) => {
            let body_code = match *body {
                StmtV::Block(stmts) => {
                    let inner = tables.push(declare_all(declare_all(Seq::empty(), names), let_names(stmts)));
                    cstmts(stmts, inner, 0)
                },
                _ => Seq::empty(),
            };
            seq![OpCodeV::PushFn(names.len() as usize, body_code.push(OpCodeV::ExitScope))]
        },
        ExprV::Concat { left, right } => {
            let l = cexpr(*left, tables, base);
            let r = cexpr(*right, tables, base + l.len());
            l + r + seq![OpCodeV::Concat]
        },
        ExprV::Index { obj, key } => {
            let o = cexpr(*obj, tables, base);
            let k = cexpr(*key, tables, base + o.len());
            o + k + seq![OpCodeV::Index]
        },
        ExprV::Method { obj, name, args } => {
            let o = cexpr(*obj, tables, base);
            let lookup = seq![OpCodeV::Dup(1), OpCodeV::Push(ValueV::String(name)), OpCodeV::Index, OpCodeV::Swap2];
            let a = cexprs(args, tables, base + o.len() + 4);
            o + lookup + a + seq![OpCodeV::Call((args.len() + 1) as usize)]
        },
        ExprV::Array(items) => cexprs(items, tables, base).push(OpCodeV::NewArray(items.len() as usize)),
        ExprV::Table => seq![OpCodeV::NewTable],
    }
}

/// The code of a sequence of expressions, one after another.
pub closed spec fn cexprs(es: Seq<ExprV>, tables: Seq<SymTableV>, base: int) -> Seq<OpCodeV>
    decreases es,
{
    if es.len() == 0 {
        Seq::empty()
    } else {
        let first = cexpr(es[0], tables, base);
        first + cexprs(es.subrange(1, es.len() as int), tables, base + first.len())
    }
}

/// The code of a statement whose code starts at index `base`.
pub closed spec fn cstmt(s: StmtV, tables: Seq<SymTableV>, base: int) -> Seq<OpCodeV>
    decreases s,
{
    match s {
        StmtV::Expr(e) => cexpr(e, tables, base),
        StmtV::Let { name, value } => cexpr(value, tables, base).push(store_op(tables, name)),
        StmtV::Assign { name, value } => cexpr(value, tables, base).push(store_op(tables, name)),
        StmtV::Block(stmts) => {
            let inner = tables.push(declare_all(Seq::empty(), let_names(stmts)));
            seq![OpCodeV::EnterScope] + cstmts(stmts, inner, base + 1) + seq![OpCodeV::ExitScope]
        },
        StmtV::While { condition, block } => {
            let c = cexpr(condition, tables, base);
            let b = cstmt(*block, tables, base + c.len() + 1);
            c + seq![OpCodeV::JmpIfNot((base + c.len() + 1 + b.len() + 1) as usize)] + b + seq![OpCodeV::Jmp(base as usize)]
        },
        StmtV::IfElse { condition, then_branch, else_branch } => {
            let c = cexpr(condition, tables, base);
            let t = cstmt(*then_branch, tables, base + c.len() + 1);
            let after_then = base + c.len() + 1 + t.len();
            match else_branch {
                None => c + seq![OpCodeV::JmpIfNot(after_then as usize)] + t,
                Some(e) => {
                    let el = cstmt(*e, tables, after_then + 1);
                    c + seq![OpCodeV::JmpIfNot((after_then + 1) as usize)] + t + seq![OpCodeV::Jmp((after_then + 1 + el.len()) as usize)] + el
                },
            }
        },
        StmtV::Return(e) => cexpr(e, tables, base).push(OpCodeV::Ret),
        StmtV::CompoundAssign { name, op, value } => {
            let v = cexpr(value, tables, base + 1);
            (seq![load_op(tables, name)] + v).push(bin_opcode(op)).push(store_op(tables, name))
        },
        StmtV::IndexAssign { obj, key, value } => {
            let o = cexpr(obj, tables, base);
            let k = cexpr(key, tables, base + o.len());
            let v = cexpr(value, tables, base + o.len() + k.len());
            (o + k + v).push(OpCodeV::IndexAssign(false))
        },
        StmtV::IndexCompoundAssign { obj, key, op, value } => {
            let o = cexpr(obj, tables, base);
            let k = cexpr(key, tables, base + o.len());
            let v = cexpr(value, tables, base + o.len() + k.len() + 2);
            (o + k + seq![OpCodeV::Dup(2), OpCodeV::Index] + v).push(bin_opcode(op)).push(OpCodeV::IndexAssign(false))
        },
    }
}

/// The code of a sequence of statements, one after another.
pub closed spec fn cstmts(ss: Seq<StmtV>, tables: Seq<SymTableV>, base: int) -> Seq<OpCodeV>
    decreases ss,
{
    if ss.len() == 0 {
        Seq::empty()
    } else {
        let first = cstmt(ss[0], tables, base);
        first + cstmts(ss.subrange(1, ss.len() as int), tables, base + first.len())
    }
}

/// One step of `cexpr`: it equals its definition.
pub proof fn unfold_cexpr(e: ExprV, tables: Seq<SymTableV>, base: int)
    ensures
        cexpr(e, tables, base) == ({
            match e {
                ExprV::Float(t) => seq![OpCodeV::Push(ValueV::Float(t))],
                ExprV::Integer(n) => seq![OpCodeV::Push(ValueV::Integer(n))],
                ExprV::Bool(b) => seq![OpCodeV::Push(ValueV::Bool(b))],
                ExprV::AndOp { left, right } => {
                    let l = cexpr(*left, tables, base);
                    let r = cexpr(*right, tables, base + l.len() + 1);
                    l + seq![OpCodeV::And((base + l.len() + 1 + r.len()) as usize)] + r
                },
                ExprV::OrOp { left, right } => {
                    let l = cexpr(*left, tables, base);
                    let r = cexpr(*right, tables, base + l.len() + 1);
                    l + seq![OpCodeV::Or((base + l.len() + 1 + r.len()) as usize)] + r
                },
                ExprV::BinaryOp { left, op, right } => {
                    let l = cexpr(*left, tables, base);
                    let r = cexpr(*right, tables, base + l.len());
                    l + r + seq![bin_opcode(op)]
                },
                ExprV::CompareOp { left, op, right } => {
                    let l = cexpr(*left, tables, base);
                    let r = cexpr(*right, tables, base + l.len());
                    l + r + seq![compare_opcode(op)]
                },
                ExprV::Unary(op, inner) => {
                    let c = cexpr(*inner, tables, base);
                    if op == UnaryOp::Neg {
                        c.push(OpCodeV::Neg)
                    } else {
                        c.push(OpCodeV::Not)
                    }
                },
                ExprV::Ident(name) => seq![load_op(tables, name)],
                ExprV::String(s) => seq![OpCodeV::Push(ValueV::String(s))],
                ExprV::Call(callee, args) => {
                    let c = cexpr(*callee, tables, base);
                    let a = cexprs(args, tables, base + c.len());
                    c + a + seq![OpCodeV::Call(args.len() as usize)]
                },
                ExprV::Fn(names, body) => {
                    let body_code = match *body {
                        StmtV::Block(stmts) => {
                            let inner = tables.push(declare_all(declare_all(Seq::empty(), names), let_names(stmts)));
                            cstmts(stmts, inner, 0)
                        },
                        _ => Seq::empty(),
                    };
                    seq![OpCodeV::PushFn(names.len() as usize, body_code.push(OpCodeV::ExitScope))]
                },
                ExprV::Concat { left, right } => {
                    let l = cexpr(*left, tables, base);
                    let r = cexpr(*right, tables, base + l.len());
                    l + r + seq![OpCodeV::Concat]
                },
                ExprV::Index { obj, key } => {
                    let o = cexpr(*obj, tables, base);
                    let k = cexpr(*key, tables, base + o.len());
                    o + k + seq![OpCodeV::Index]
                },
                ExprV::Method { obj, name, args } => {
                    let o = cexpr(*obj, tables, base);
                    let lookup = seq![OpCodeV::Dup(1), OpCodeV::Push(ValueV::String(name)), OpCodeV::Index, OpCodeV::Swap2];
                    let a = cexprs(args, tables, base + o.len() + 4);
                    o + lookup + a + seq![OpCodeV::Call((args.len() + 1) as usize)]
                },
                ExprV::Array(items) => cexprs(items, tables, base).push(OpCodeV::NewArray(items.len() as usize)),
                ExprV::Table => seq![OpCodeV::NewTable],
            }
        }),
{
}

/// One step of `cexprs`: it equals its definition.
pub proof fn unfold_cexprs(es: Seq<ExprV>, tables: Seq<SymTableV>, base: int)
    ensures
        cexprs(es, tables, base) == ({
            if es.len() == 0 {
                Seq::empty()
            } else {
                let first = cexpr(es[0], tables, base);
                first + cexprs(es.subrange(1, es.len() as int), tables, base + first.len())
            }
        }),
{
}

/// One step of `cstmt`: it equals its definition.
pub proof fn unfold_cstmt(s: StmtV, tables: Seq<SymTableV>, base: int)
    ensures
        cstmt(s, tables, base) == ({
            match s {
                StmtV::Expr(e) => cexpr(e, tables, base),
                StmtV::Let { name, value } => cexpr(value, tables, base).push(store_op(tables, name)),
                StmtV::Assign { name, value } => cexpr(value, tables, base).push(store_op(tables, name)),
                StmtV::Block(stmts) => {
                    let inner = tables.push(declare_all(Seq::empty(), let_names(stmts)));
                    seq![OpCodeV::EnterScope] + cstmts(stmts, inner, base + 1) + seq![OpCodeV::ExitScope]
                },
                StmtV::While { condition, block } => {
                    let c = cexpr(condition, tables, base);
                    let b = cstmt(*block, tables, base + c.len() + 1);
                    c + seq![OpCodeV::JmpIfNot((base + c.len() + 1 + b.len() + 1) as usize)] + b + seq![OpCodeV::Jmp(base as usize)]
                },
                StmtV::IfElse { condition, then_branch, else_branch } => {
                    let c = cexpr(condition, tables, base);
                    let t = cstmt(*then_branch, tables, base + c.len() + 1);
                    let after_then = base + c.len() + 1 + t.len();
                    match else_branch {
                        None => c + seq![OpCodeV::JmpIfNot(after_then as usize)] + t,
                        Some(e) => {
                            let el = cstmt(*e, tables, after_then + 1);
                            c + seq![OpCodeV::JmpIfNot((after_then + 1) as usize)] + t + seq![OpCodeV::Jmp((after_then + 1 + el.len()) as usize)] + el
                        },
                    }
                },
                StmtV::Return(e) => cexpr(e, tables, base).push(OpCodeV::Ret),
                StmtV::CompoundAssign { name, op, value } => {
                    let v = cexpr(value, tables, base + 1);
                    (seq![load_op(tables, name)] + v).push(bin_opcode(op)).push(store_op(tables, name))
                },
                StmtV::IndexAssign { obj, key, value } => {
                    let o = cexpr(obj, tables, base);
                    let k = cexpr(key, tables, base + o.len());
                    let v = cexpr(value, tables, base + o.len() + k.len());
                    (o + k + v).push(OpCodeV::IndexAssign(false))
                },
                StmtV::IndexCompoundAssign { obj, key, op, value } => {
                    let o = cexpr(obj, tables, base);
                    let k = cexpr(key, tables, base + o.len());
                    let v = cexpr(value, tables, base + o.len() + k.len() + 2);
                    (o + k + seq![OpCodeV::Dup(2), OpCodeV::Index] + v).push(bin_opcode(op)).push(OpCodeV::IndexAssign(false))
                },
            }
        }),
{
}

/// One step of `cstmts`: it equals its definition.
pub proof fn unfold_cstmts(ss: Seq<StmtV>, tables: Seq<SymTableV>, base: int)
    ensures
        cstmts(ss, tables, base) == ({
            if ss.len() == 0 {
                Seq::empty()
            } else {
                let first = cstmt(ss[0], tables, base);
                first + cstmts(ss.subrange(1, ss.len() as int), tables, base + first.len())
            }
        }),
{
}

/// One step of `wf_expr`: it equals its definition.
pub proof fn unfold_wf_expr(e: ExprV)
    ensures
        wf_expr(e) == ({
            match e {
                ExprV::BinaryOp { left, op, right } => wf_expr(*left) && wf_expr(*right),
                ExprV::CompareOp { left, op, right } => wf_expr(*left) && wf_expr(*right),
                ExprV::AndOp { left, right } => wf_expr(*left) && wf_expr(*right),
                ExprV::OrOp { left, right } => wf_expr(*left) && wf_expr(*right),
                ExprV::Unary(op, inner) => op != UnaryOp::Pos && wf_expr(*inner),
                ExprV::Call(callee, args) => wf_expr(*callee) && wf_exprs(args),
                ExprV::Fn(names, body) => (*body is Block) && wf_stmt(*body),
                ExprV::Concat { left, right } => wf_expr(*left) && wf_expr(*right),
                ExprV::Index { obj, key } => wf_expr(*obj) && wf_expr(*key),
                ExprV::Method { obj, name, args } => wf_expr(*obj) && wf_exprs(args) && args.len() < usize::MAX,
                ExprV::Array(items) => wf_exprs(items),
                _ => true,
            }
        }),
{
}

/// One step of `wf_exprs`: it equals its definition.
pub proof fn unfold_wf_exprs(es: Seq<ExprV>)
    ensures
        wf_exprs(es) == ({
            forall|i: int| 0 <= i < es.len() ==> wf_expr(#[trigger] es[i])
        }),
{
}

/// One step of `wf_stmt`: it equals its definition.
pub proof fn unfold_wf_stmt(s: StmtV)
    ensures
        wf_stmt(s) == ({
            match s {
                StmtV::Expr(e) => wf_expr(e),
                StmtV::Let { name, value } => wf_expr(value),
                StmtV::IfElse { condition, then_branch, else_branch } => wf_expr(condition) && wf_stmt(*then_branch)
                    && match else_branch {
                    Some(b) => wf_stmt(*b),
                    None => true,
                },
                StmtV::While { condition, block } => wf_expr(condition) && wf_stmt(*block),
                StmtV::Assign { name, value } => wf_expr(value),
                StmtV::CompoundAssign { name, op, value } => wf_expr(value),
                StmtV::Block(stmts) => wf_stmts(stmts),
                StmtV::Return(e) => wf_expr(e),
                StmtV::IndexAssign { obj, key, value } => wf_expr(obj) && wf_expr(key) && wf_expr(value),
                StmtV::IndexCompoundAssign { obj, key, op, value } => wf_expr(obj) && wf_expr(key) && wf_expr(value),
            }
        }),
{
}

/// One step of `wf_stmts`: it equals its definition.
pub proof fn unfold_wf_stmts(ss: Seq<StmtV>)
    ensures
        wf_stmts(ss) == ({
            forall|i: int| 0 <= i < ss.len() ==> wf_stmt(#[trigger] ss[i])
        }),
{
}

/// Where an instruction jumps, if it is a jump.
pub open spec fn jump_target(op: OpCodeV) -> Option<usize> {
    match op {
        OpCodeV::Jmp(t) => Some(t),
        OpCodeV::JmpIfNot(t) => Some(t),
        OpCodeV::JmpIf(t) => Some(t),
        OpCodeV::And(t) => Some(t),
        OpCodeV::Or(t) => Some(t),
        _ => None,
    }
}

/// Every jump among the instructions lands between `lo` and `hi`.
pub open spec fn jumps_within(code: Seq<OpCodeV>, lo: int, hi: int) -> bool {
    forall|i: int| 0 <= i < code.len() ==> (#[trigger] jump_target(code[i]) matches Some(t) ==> lo <= t <= hi)
}

/// Code whose jumps all land inside it (at most at its end, where the code
/// ends), and so does the code of each function it makes.
pub open spec fn jumps_inside(code: Seq<OpCodeV>) -> bool
    decreases code,
{
    &&& jumps_within(code, 0, code.len() as int)
    &&& forall|i: int| 0 <= i < code.len() ==> (#[trigger] code[i] matches OpCodeV::PushFn(_, body) ==> jumps_inside(body))
}

/// The functions made by the instructions have code whose jumps land inside it.
pub open spec fn bodies_inside(code: Seq<OpCodeV>) -> bool {
    forall|i: int| 0 <= i < code.len() ==> (#[trigger] code[i] matches OpCodeV::PushFn(_, body) ==> jumps_inside(body))
}

/// Code, and the code of each function it makes, with at most as many
/// instructions as a `Vec` can hold.
pub open spec fn sizes_fit(code: Seq<OpCodeV>) -> bool
    decreases code,
{
    &&& code.len() <= usize::MAX
    &&& forall|i: int| 0 <= i < code.len() ==> (#[trigger] code[i] matches OpCodeV::PushFn(_, body) ==> sizes_fit(body))
}

/// The functions made by the instructions have code that fits.
pub open spec fn bodies_fit(code: Seq<OpCodeV>) -> bool {
    forall|i: int| 0 <= i < code.len() ==> (#[trigger] code[i] matches OpCodeV::PushFn(_, body) ==> sizes_fit(body))
}

} // verus!
