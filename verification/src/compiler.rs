//! The compiler from syntax trees to virtual-machine code, verified against
//! the statement of what it emits in `codegen`.

use vstd::prelude::*;
use crate::ast::{
    Stmt, Expr, BinOp, CmpOp, UnaryOp, StmtV, ExprV, expr_v, stmt_v, exprs_v, stmts_v,
    strings_v, lemma_expr_view, lemma_stmt_view, lemma_exprs_v_index, lemma_stmts_v_index,
    lemma_exprs_v_take, lemma_stmts_v_take,
};
use crate::value::{
    Value,
    OpCode,
    OpCodeV,
    op_v,
    ops_v,
    lemma_ops_v_push,
    lemma_ops_v_len,
    lemma_ops_v_update,
    clone_ops,
    unfold_op_v,
};
use crate::codegen::{
    SymTableV, table_get, table_find, declare, declare_all, let_names, resolve, load_op,
    store_op, bin_opcode, compare_opcode, wf_expr, wf_exprs, wf_stmt, wf_stmts, cexpr, cexprs,
    cstmt, cstmts, unfold_cexpr, unfold_cexprs, unfold_cstmt, unfold_cstmts, unfold_wf_expr,
    unfold_wf_exprs, unfold_wf_stmt, unfold_wf_stmts,
};

verus! {

/// The value of a symbol table of the compiler.
pub open spec fn table_v(t: Seq<(String, usize)>) -> SymTableV {
    t.map_values(|e: (String, usize)| (e.0@, e.1))
}

/// The value of the stack of symbol tables of the compiler, outermost first.
pub open spec fn tables_v(ts: Seq<Vec<(String, usize)>>) -> Seq<SymTableV> {
    ts.map_values(|t: Vec<(String, usize)>| table_v(t@))
}

/// The slot of `name` in a table.
fn lookup_slot(t: &Vec<(String, usize)>, name: &String) -> (r: Option<usize>)
    ensures
        r == table_get(table_v(t@), name@),
{
    let ghost tv = table_v(t@);
    let mut i: usize = t.len();
    proof {
        assert(tv.take(i as int) =~= tv);
    }
    while i > 0
        invariant
            i <= t.len(),
            tv == table_v(t@),
            table_get(tv, name@) == table_get(tv.take(i as int), name@),
        decreases i,
    {
        proof {
            assert(tv.take(i as int).drop_last() =~= tv.take(i - 1));
        }
        if t[i - 1].0 == *name {
            return Some(t[i - 1].1);
        }
        i = i - 1;
    }
    None
}

/// The index of the entry for `name` in a table.
fn find_entry(t: &Vec<(String, usize)>, name: &String) -> (r: Option<usize>)
    ensures
        table_find(table_v(t@), name@) == (match r {
            Some(i) => Some(i as int),
            None => None::<int>,
        }),
        r matches Some(i) ==> i < t@.len(),
{
    let ghost tv = table_v(t@);
    let mut i: usize = t.len();
    proof {
        assert(tv.take(i as int) =~= tv);
    }
    while i > 0
        invariant
            i <= t.len(),
            tv == table_v(t@),
            table_find(tv, name@) == table_find(tv.take(i as int), name@),
        decreases i,
    {
        proof {
            assert(tv.take(i as int).drop_last() =~= tv.take(i - 1));
        }
        if t[i - 1].0 == *name {
            return Some(i - 1);
        }
        i = i - 1;
    }
    None
}

/// Declares `name` in a table.
fn declare_name(t: &mut Vec<(String, usize)>, name: &String)
    ensures
        table_v(final(t)@) == declare(table_v(old(t)@), name@),
{
    let n = t.len();
    match find_entry(t, name) {
        Some(i) => {},
        None => {
            t.push((name.clone(), n));
            proof {
                assert(table_v(t@) =~= table_v(old(t)@).push((name@, n)));
            }
        },
    }
}

/// The table of a function's parameters.
fn param_table(names: &Vec<String>) -> (t: Vec<(String, usize)>)
    ensures
        table_v(t@) == declare_all(Seq::empty(), strings_v(names@)),
{
    let mut t: Vec<(String, usize)> = Vec::new();
    let mut i: usize = 0;
    proof {
        assert(strings_v(names@.take(0)) =~= Seq::<Seq<char>>::empty());
        assert(table_v(t@) =~= Seq::<(Seq<char>, usize)>::empty());
    }
    while i < names.len()
        invariant
            i <= names.len(),
            table_v(t@) == declare_all(Seq::empty(), strings_v(names@.take(i as int))),
        decreases names.len() - i,
    {
        declare_name(&mut t, &names[i]);
        proof {
            let before = strings_v(names@.take(i as int));
            assert(strings_v(names@.take(i + 1)) =~= before.push(names@[i as int]@));
            assert(before.push(names@[i as int]@).drop_last() =~= before);
        }
        i = i + 1;
    }
    proof {
        assert(names@.take(names@.len() as int) =~= names@);
    }
    t
}

/// Declares the names that the `let` statements of a block introduce.
fn declare_lets(t: &mut Vec<(String, usize)>, stmts: &Vec<Stmt>)
    ensures
        table_v(final(t)@) == declare_all(table_v(old(t)@), let_names(stmts_v(stmts@))),
{
    let mut i: usize = 0;
    proof {
        assert(stmts@.take(0) =~= Seq::<Stmt>::empty());
    }
    while i < stmts.len()
        invariant
            i <= stmts.len(),
            table_v(t@) == declare_all(table_v(old(t)@), let_names(stmts_v(stmts@.take(i as int)))),
        decreases stmts.len() - i,
    {
        proof {
            lemma_stmts_v_take(stmts@, i as int);
            assert(stmts_v(stmts@.take(i + 1)).drop_last() =~= stmts_v(stmts@.take(i as int)));
        }
        let ghost before = let_names(stmts_v(stmts@.take(i as int)));
        match &stmts[i] {
            Stmt::Let { name, value: _ } => {
                declare_name(t, name);
                proof {
                    assert(before.push(name@).drop_last() =~= before);
                }
            },
            _ => {},
        }
        i = i + 1;
    }
    proof {
        assert(stmts@.take(stmts@.len() as int) =~= stmts@);
    }
}

/// Where a name is bound: the index of the innermost table that holds it and its slot.
fn resolve_name(tables: &Vec<Vec<(String, usize)>>, name: &String) -> (r: Option<(usize, usize)>)
    ensures
        resolve(tables_v(tables@), name@) == (match r {
            Some((lev, slot)) => Some((lev as int, slot)),
            None => None::<(int, usize)>,
        }),
        r matches Some((lev, slot)) ==> lev < tables@.len(),
{
    let ghost tv = tables_v(tables@);
    let mut k: usize = tables.len();
    proof {
        assert(tv.take(k as int) =~= tv);
    }
    while k > 0
        invariant
            k <= tables.len(),
            tv == tables_v(tables@),
            resolve(tv, name@) == resolve(tv.take(k as int), name@),
        decreases k,
    {
        proof {
            assert(tv.take(k as int).drop_last() =~= tv.take(k - 1));
        }
        match lookup_slot(&tables[k - 1], name) {
            Some(slot) => {
                return Some((k - 1, slot));
            },
            None => {},
        }
        k = k - 1;
    }
    None
}

/// The instruction that reads a name.
fn load_instr(tables: &Vec<Vec<(String, usize)>>, name: &String) -> (r: OpCode)
    ensures
        op_v(r) == load_op(tables_v(tables@), name@),
{
    match resolve_name(tables, name) {
        Some((lev, slot)) => OpCode::LoadLocal(tables.len() - lev, slot),
        None => OpCode::LoadGlobal(name.clone()),
    }
}

/// The instruction that writes a name.
fn store_instr(tables: &Vec<Vec<(String, usize)>>, name: &String) -> (r: OpCode)
    ensures
        op_v(r) == store_op(tables_v(tables@), name@),
{
    match resolve_name(tables, name) {
        Some((lev, slot)) => OpCode::StoreLocal(tables.len() - lev, slot),
        None => OpCode::StoreGlobal(name.clone()),
    }
}

fn bin_instr(op: &BinOp) -> (r: OpCode)
    ensures
        op_v(r) == bin_opcode(*op),
{
    match op {
        BinOp::Add => OpCode::Add,
        BinOp::Sub => OpCode::Sub,
        BinOp::Mul => OpCode::Mul,
        BinOp::Div => OpCode::Div,
    }
}

fn compare_instr(op: &CmpOp) -> (r: OpCode)
    ensures
        op_v(r) == compare_opcode(*op),
{
    match op {
        CmpOp::Eq => OpCode::Eq,
        CmpOp::Gt => OpCode::Gt,
        CmpOp::Lt => OpCode::Lt,
        CmpOp::Gte => OpCode::Gte,
        CmpOp::Lte => OpCode::Lte,
        CmpOp::NEq => OpCode::NEq,
    }
}

/// Pushing a table onto the stack of tables pushes its value.
proof fn lemma_tables_v_push(ts: Seq<Vec<(String, usize)>>, t: Vec<(String, usize)>)
    ensures
        tables_v(ts.push(t)) == tables_v(ts).push(table_v(t@)),
{
    assert(tables_v(ts.push(t)) =~= tables_v(ts).push(table_v(t@)));
}

/// Code of statements one after another: the code of one more statement
/// follows the code of those before it.
pub proof fn lemma_cstmts_snoc(ss: Seq<StmtV>, s: StmtV, tables: Seq<SymTableV>, base: int)
    ensures
        cstmts(ss.push(s), tables, base) == cstmts(ss, tables, base) + cstmt(
            s,
            tables,
            base + cstmts(ss, tables, base).len(),
        ),
    decreases ss.len(),
{
    unfold_cstmts(ss.push(s), tables, base);
    unfold_cstmts(ss, tables, base);
    if ss.len() == 0 {
        let rest = ss.push(s).subrange(1, 1);
        assert(rest =~= Seq::<StmtV>::empty());
        unfold_cstmts(rest, tables, base + cstmt(s, tables, base).len());
        assert(cstmts(ss.push(s), tables, base) =~= cstmt(s, tables, base));
        assert(cstmts(ss, tables, base) =~= Seq::<OpCodeV>::empty());
    } else {
        let first = cstmt(ss[0], tables, base);
        let tail = ss.subrange(1, ss.len() as int);
        assert(ss.push(s).subrange(1, ss.len() as int + 1) =~= tail.push(s));
        assert(ss.push(s)[0] == ss[0]);
        lemma_cstmts_snoc(tail, s, tables, base + first.len());
        assert(cstmts(ss.push(s), tables, base) =~= cstmts(ss, tables, base) + cstmt(
            s,
            tables,
            base + cstmts(ss, tables, base).len(),
        ));
    }
}

/// Code of expressions one after another: the code of one more expression
/// follows the code of those before it.
pub proof fn lemma_cexprs_snoc(es: Seq<ExprV>, e: ExprV, tables: Seq<SymTableV>, base: int)
    ensures
        cexprs(es.push(e), tables, base) == cexprs(es, tables, base) + cexpr(
            e,
            tables,
            base + cexprs(es, tables, base).len(),
        ),
    decreases es.len(),
{
    unfold_cexprs(es.push(e), tables, base);
    unfold_cexprs(es, tables, base);
    if es.len() == 0 {
        let rest = es.push(e).subrange(1, 1);
        assert(rest =~= Seq::<ExprV>::empty());
        unfold_cexprs(rest, tables, base + cexpr(e, tables, base).len());
        assert(cexprs(es.push(e), tables, base) =~= cexpr(e, tables, base));
        assert(cexprs(es, tables, base) =~= Seq::<OpCodeV>::empty());
    } else {
        let first = cexpr(es[0], tables, base);
        let tail = es.subrange(1, es.len() as int);
        assert(es.push(e).subrange(1, es.len() as int + 1) =~= tail.push(e));
        assert(es.push(e)[0] == es[0]);
        lemma_cexprs_snoc(tail, e, tables, base + first.len());
        assert(cexprs(es.push(e), tables, base) =~= cexprs(es, tables, base) + cexpr(
            e,
            tables,
            base + cexprs(es, tables, base).len(),
        ));
    }
}

/// The code of no statements, or of no expressions, is empty.
proof fn lemma_code_of_nothing(tables: Seq<SymTableV>, base: int)
    ensures
        cstmts(Seq::empty(), tables, base) == Seq::<OpCodeV>::empty(),
        cexprs(Seq::empty(), tables, base) == Seq::<OpCodeV>::empty(),
{
    unfold_cstmts(Seq::empty(), tables, base);
    unfold_cexprs(Seq::empty(), tables, base);
}

/// Appends an instruction.
fn emit(out: &mut Vec<OpCode>, op: OpCode)
    ensures
        ops_v(final(out)@) == ops_v(old(out)@).push(op_v(op)),
        final(out)@.len() == old(out)@.len() + 1,
{
    proof {
        lemma_ops_v_push(out@, op);
    }
    out.push(op);
}

/// Replaces the instruction at `idx` (a jump whose target is now known).
fn patch(out: &mut Vec<OpCode>, idx: usize, op: OpCode)
    requires
        idx < old(out)@.len(),
    ensures
        ops_v(final(out)@) == ops_v(old(out)@).update(idx as int, op_v(op)),
        final(out)@.len() == old(out)@.len(),
{
    proof {
        lemma_ops_v_update(out@, idx as int, op);
    }
    out.set(idx, op);
}

/// Emits the code of a sequence of statements.
fn emit_stmts(tables: &mut Vec<Vec<(String, usize)>>, out: &mut Vec<OpCode>, stmts: &Vec<Stmt>)
    requires
        wf_stmts(stmts_v(stmts@)),
    ensures
        final(tables)@ == old(tables)@,
        ops_v(final(out)@) == ops_v(old(out)@) + cstmts(
            stmts_v(stmts@),
            tables_v(old(tables)@),
            old(out)@.len() as int,
        ),
    decreases stmts, 0nat,
{
    let ghost t0 = tables@;
    let ghost tv = tables_v(tables@);
    let ghost out0 = out@;
    let ghost base = out@.len() as int;
    proof {
        lemma_stmts_v_index(stmts@);
        unfold_wf_stmts(stmts_v(stmts@));
        assert forall|j: int| 0 <= j < stmts@.len() implies wf_stmt(#[trigger] stmt_v(stmts@[j])) by {
            assert(stmts_v(stmts@)[j] == stmt_v(stmts@[j]));
        }
        lemma_code_of_nothing(tv, base);
        lemma_stmts_v_index(stmts@.take(0));
        assert(stmts_v(stmts@.take(0)) =~= Seq::<StmtV>::empty());
        assert(ops_v(out0) + Seq::<OpCodeV>::empty() =~= ops_v(out0));
    }
    let mut i: usize = 0;
    while i < stmts.len()
        invariant
            i <= stmts.len(),
            tables@ == t0,
            tv == tables_v(t0),
            base == out0.len(),
            ops_v(out@) == ops_v(out0) + cstmts(stmts_v(stmts@.take(i as int)), tv, base),
            forall|j: int| 0 <= j < stmts@.len() ==> wf_stmt(#[trigger] stmt_v(stmts@[j])),
        decreases stmts.len() - i,
    {
        let ghost before = stmts_v(stmts@.take(i as int));
        let ghost mid = out@;
        proof {
            lemma_stmts_v_take(stmts@, i as int);
            lemma_cstmts_snoc(before, stmt_v(stmts@[i as int]), tv, base);
            lemma_ops_v_len(out0);
            lemma_ops_v_len(mid);
            assert(decreases_to!(stmts => stmts@));
            assert(decreases_to!(stmts@ => stmts@[i as int]));
        }
        emit_stmt(tables, out, &stmts[i]);
        proof {
            assert(ops_v(out@) =~= ops_v(out0) + cstmts(stmts_v(stmts@.take(i + 1)), tv, base));
        }
        i = i + 1;
    }
    proof {
        assert(stmts@.take(stmts@.len() as int) =~= stmts@);
    }
}

/// Emits the code of a sequence of expressions (the arguments of a call).
fn emit_args(tables: &mut Vec<Vec<(String, usize)>>, out: &mut Vec<OpCode>, args: &Vec<Expr>)
    requires
        wf_exprs(exprs_v(args@)),
    ensures
        final(tables)@ == old(tables)@,
        ops_v(final(out)@) == ops_v(old(out)@) + cexprs(
            exprs_v(args@),
            tables_v(old(tables)@),
            old(out)@.len() as int,
        ),
    decreases args, 0nat,
{
    let ghost t0 = tables@;
    let ghost tv = tables_v(tables@);
    let ghost out0 = out@;
    let ghost base = out@.len() as int;
    proof {
        lemma_exprs_v_index(args@);
        unfold_wf_exprs(exprs_v(args@));
        assert forall|j: int| 0 <= j < args@.len() implies wf_expr(#[trigger] expr_v(args@[j])) by {
            assert(exprs_v(args@)[j] == expr_v(args@[j]));
        }
        lemma_code_of_nothing(tv, base);
        lemma_exprs_v_index(args@.take(0));
        assert(exprs_v(args@.take(0)) =~= Seq::<ExprV>::empty());
        assert(ops_v(out0) + Seq::<OpCodeV>::empty() =~= ops_v(out0));
    }
    let mut i: usize = 0;
    while i < args.len()
        invariant
            i <= args.len(),
            tables@ == t0,
            tv == tables_v(t0),
            base == out0.len(),
            ops_v(out@) == ops_v(out0) + cexprs(exprs_v(args@.take(i as int)), tv, base),
            forall|j: int| 0 <= j < args@.len() ==> wf_expr(#[trigger] expr_v(args@[j])),
        decreases args.len() - i,
    {
        let ghost before = exprs_v(args@.take(i as int));
        let ghost mid = out@;
        proof {
            lemma_exprs_v_take(args@, i as int);
            lemma_cexprs_snoc(before, expr_v(args@[i as int]), tv, base);
            lemma_ops_v_len(out0);
            lemma_ops_v_len(mid);
            assert(decreases_to!(args => args@));
            assert(decreases_to!(args@ => args@[i as int]));
        }
        emit_expr(tables, out, &args[i]);
        proof {
            assert(ops_v(out@) =~= ops_v(out0) + cexprs(exprs_v(args@.take(i + 1)), tv, base));
        }
        i = i + 1;
    }
    proof {
        assert(args@.take(args@.len() as int) =~= args@);
    }
}

/// Emits the code of an `and` or an `or`: the left operand, a jump past the
/// right operand taken when the left one decides, then the right operand.
fn emit_short_circuit(tables: &mut Vec<Vec<(String, usize)>>, out: &mut Vec<OpCode>, e: &Expr)
    requires
        wf_expr(expr_v(*e)),
        e is AndOp || e is OrOp,
    ensures
        final(tables)@ == old(tables)@,
        ops_v(final(out)@) == ops_v(old(out)@) + cexpr(
            expr_v(*e),
            tables_v(old(tables)@),
            old(out)@.len() as int,
        ),
    decreases *e, 1nat,
{
    let ghost tv = tables_v(tables@);
    let ghost out0 = out@;
    let ghost base = out@.len() as int;
    let ghost ev = expr_v(*e);
    proof {
        lemma_expr_view(*e);
        unfold_cexpr(ev, tv, base);
        unfold_wf_expr(ev);
        lemma_ops_v_len(out0);
    }
    let (left, right, is_and) = match e {
        Expr::AndOp { left, right } => (left, right, true),
        Expr::OrOp { left, right } => (left, right, false),
        _ => {
            proof {
                assert(false);
            }
            return ;
        },
    };
    emit_expr(tables, out, left);
    let ghost l = cexpr(expr_v(**left), tv, base);
    let idx = out.len();
    let op = if is_and {
        OpCode::And(usize::MAX)
    } else {
        OpCode::Or(usize::MAX)
    };
    proof {
        unfold_op_v(op);
        lemma_ops_v_len(out@);
    }
    emit(out, op);
    proof {
        lemma_ops_v_len(out@);
    }
    emit_expr(tables, out, right);
    let pos = out.len();
    proof {
        lemma_ops_v_len(out@);
    }
    let op2 = if is_and {
        OpCode::And(pos)
    } else {
        OpCode::Or(pos)
    };
    proof {
        unfold_op_v(op2);
    }
    patch(out, idx, op2);
    proof {
        assert(ops_v(out@) =~= ops_v(out0) + cexpr(ev, tv, base));
    }
}

/// Emits the code of a call: the callee, the arguments, then the call.
fn emit_call(tables: &mut Vec<Vec<(String, usize)>>, out: &mut Vec<OpCode>, e: &Expr)
    requires
        wf_expr(expr_v(*e)),
        e is Call,
    ensures
        final(tables)@ == old(tables)@,
        ops_v(final(out)@) == ops_v(old(out)@) + cexpr(
            expr_v(*e),
            tables_v(old(tables)@),
            old(out)@.len() as int,
        ),
    decreases *e, 1nat,
{
    let ghost tv = tables_v(tables@);
    let ghost out0 = out@;
    let ghost base = out@.len() as int;
    let ghost ev = expr_v(*e);
    proof {
        lemma_expr_view(*e);
        unfold_cexpr(ev, tv, base);
        unfold_wf_expr(ev);
        lemma_ops_v_len(out0);
    }
    match e {
        Expr::Call(callee, args) => {
            emit_expr(tables, out, callee);
            proof {
                lemma_ops_v_len(out@);
                lemma_exprs_v_index(args@);
            }
            emit_args(tables, out, args);
            let instr = OpCode::Call(args.len());
            proof {
                unfold_op_v(instr);
            }
            emit(out, instr);
            proof {
                assert(ops_v(out@) =~= ops_v(out0) + cexpr(ev, tv, base));
            }
        },
        _ => {},
    }
}

/// Emits a method call or an array literal. A method call keeps the object,
/// looks the method up in it by name, puts the method under the object and
/// calls it with the object as its first argument; an array literal emits
/// its items and gathers them.
fn emit_collection(tables: &mut Vec<Vec<(String, usize)>>, out: &mut Vec<OpCode>, e: &Expr)
    requires
        wf_expr(expr_v(*e)),
        e is Method || e is Array,
    ensures
        final(tables)@ == old(tables)@,
        ops_v(final(out)@) == ops_v(old(out)@) + cexpr(
            expr_v(*e),
            tables_v(old(tables)@),
            old(out)@.len() as int,
        ),
    decreases *e, 1nat,
{
    let ghost tv = tables_v(tables@);
    let ghost out0 = out@;
    let ghost base = out@.len() as int;
    let ghost ev = expr_v(*e);
    proof {
        lemma_expr_view(*e);
        unfold_cexpr(ev, tv, base);
        unfold_wf_expr(ev);
        lemma_ops_v_len(out0);
    }
    match e {
        Expr::Method { obj, name, args } => {
            emit_expr(tables, out, obj);
            let dup = OpCode::Dup(1);
            let key = OpCode::Push(Value::String(name.clone()));
            let read = OpCode::Index;
            let swap = OpCode::Swap2;
            proof {
                unfold_op_v(dup);
                unfold_op_v(key);
                unfold_op_v(read);
                unfold_op_v(swap);
            }
            emit(out, dup);
            emit(out, key);
            emit(out, read);
            emit(out, swap);
            proof {
                lemma_ops_v_len(out@);
                lemma_exprs_v_index(args@);
            }
            emit_args(tables, out, args);
            let instr = OpCode::Call(args.len() + 1);
            proof {
                unfold_op_v(instr);
            }
            emit(out, instr);
            proof {
                assert(ops_v(out@) =~= ops_v(out0) + cexpr(ev, tv, base));
            }
        },
        Expr::Array(items) => {
            proof {
                lemma_exprs_v_index(items@);
            }
            emit_args(tables, out, items);
            let instr = OpCode::NewArray(items.len());
            proof {
                unfold_op_v(instr);
            }
            emit(out, instr);
            proof {
                assert(ops_v(out@) =~= ops_v(out0) + cexpr(ev, tv, base));
            }
        },
        _ => {},
    }
}

/// Emits a function literal: its body is compiled on its own, with a new
/// table holding the parameters and the body's `let` names.
fn emit_fn(tables: &mut Vec<Vec<(String, usize)>>, out: &mut Vec<OpCode>, e: &Expr)
    requires
        wf_expr(expr_v(*e)),
        e is Fn,
    ensures
        final(tables)@ == old(tables)@,
        ops_v(final(out)@) == ops_v(old(out)@) + cexpr(
            expr_v(*e),
            tables_v(old(tables)@),
            old(out)@.len() as int,
        ),
    decreases *e, 1nat,
{
    let ghost t0 = tables@;
    let ghost tv = tables_v(tables@);
    let ghost out0 = out@;
    let ghost base = out@.len() as int;
    let ghost ev = expr_v(*e);
    proof {
        lemma_expr_view(*e);
        unfold_cexpr(ev, tv, base);
        unfold_wf_expr(ev);
        lemma_ops_v_len(out0);
    }
    match e {
        Expr::Fn(names, body) => {
            let mut table = param_table(names);
            let mut inner: Vec<OpCode> = Vec::new();
            proof {
                lemma_stmt_view(**body);
                unfold_wf_stmt(stmt_v(**body));
                lemma_ops_v_len(inner@);
                assert(ops_v(inner@) =~= Seq::<OpCodeV>::empty());
            }
            match &**body {
                Stmt::Block(stmts) => {
                    declare_lets(&mut table, stmts);
                    let ghost tbl = table;
                    tables.push(table);
                    proof {
                        lemma_tables_v_push(t0, tbl);
                    }
                    emit_stmts(tables, &mut inner, stmts);
                    tables.pop();
                    proof {
                        assert(tables@ =~= t0);
                        assert(ops_v(inner@) =~= cstmts(stmts_v(stmts@), tv.push(table_v(tbl@)), 0));
                    }
                },
                _ => {},
            }
            let exit = OpCode::ExitScope;
            proof {
                unfold_op_v(exit);
            }
            emit(&mut inner, exit);
            let instr = OpCode::PushFn(names.len(), inner);
            proof {
                unfold_op_v(instr);
            }
            emit(out, instr);
            proof {
                assert(ops_v(out@) =~= ops_v(out0) + cexpr(ev, tv, base));
            }
        },
        _ => {},
    }
}

/// Emits the code of an expression.
fn emit_expr(tables: &mut Vec<Vec<(String, usize)>>, out: &mut Vec<OpCode>, e: &Expr)
    requires
        wf_expr(expr_v(*e)),
    ensures
        final(tables)@ == old(tables)@,
        ops_v(final(out)@) == ops_v(old(out)@) + cexpr(
            expr_v(*e),
            tables_v(old(tables)@),
            old(out)@.len() as int,
        ),
    decreases *e, 2nat,
{
    let ghost tv = tables_v(tables@);
    let ghost out0 = out@;
    let ghost base = out@.len() as int;
    let ghost ev = expr_v(*e);
    proof {
        lemma_expr_view(*e);
        unfold_cexpr(ev, tv, base);
        unfold_wf_expr(ev);
        lemma_ops_v_len(out0);
    }
    match e {
        Expr::AndOp { .. } | Expr::OrOp { .. } => {
            emit_short_circuit(tables, out, e);
        },
        Expr::Call(..) => {
            emit_call(tables, out, e);
        },
        Expr::Fn(..) => {
            emit_fn(tables, out, e);
        },
        Expr::BinaryOp { left, op, right } => {
            emit_expr(tables, out, left);
            proof {
                lemma_ops_v_len(out@);
            }
            emit_expr(tables, out, right);
            let instr = bin_instr(op);
            emit(out, instr);
            proof {
                assert(ops_v(out@) =~= ops_v(out0) + cexpr(ev, tv, base));
            }
        },
        Expr::CompareOp { left, op, right } => {
            emit_expr(tables, out, left);
            proof {
                lemma_ops_v_len(out@);
            }
            emit_expr(tables, out, right);
            let instr = compare_instr(op);
            emit(out, instr);
            proof {
                assert(ops_v(out@) =~= ops_v(out0) + cexpr(ev, tv, base));
            }
        },
        Expr::Method { .. } | Expr::Array(..) => {
            emit_collection(tables, out, e);
        },
        Expr::Table => {
            let instr = OpCode::NewTable;
            proof {
                unfold_op_v(instr);
            }
            emit(out, instr);
            proof {
                assert(ops_v(out@) =~= ops_v(out0) + cexpr(ev, tv, base));
            }
        },
        Expr::Concat { left, right } => {
            emit_expr(tables, out, left);
            proof {
                lemma_ops_v_len(out@);
            }
            emit_expr(tables, out, right);
            let instr = OpCode::Concat;
            proof {
                unfold_op_v(instr);
            }
            emit(out, instr);
            proof {
                assert(ops_v(out@) =~= ops_v(out0) + cexpr(ev, tv, base));
            }
        },
        Expr::Index { obj, key } => {
            emit_expr(tables, out, obj);
            proof {
                lemma_ops_v_len(out@);
            }
            emit_expr(tables, out, key);
            let instr = OpCode::Index;
            proof {
                unfold_op_v(instr);
            }
            emit(out, instr);
            proof {
                assert(ops_v(out@) =~= ops_v(out0) + cexpr(ev, tv, base));
            }
        },
        Expr::Unary(op, inner) => {
            emit_expr(tables, out, inner);
            let instr = match op {
                UnaryOp::Neg => OpCode::Neg,
                _ => OpCode::Not,
            };
            proof {
                unfold_op_v(instr);
            }
            emit(out, instr);
            proof {
                assert(ops_v(out@) =~= ops_v(out0) + cexpr(ev, tv, base));
            }
        },
        _ => {
            let op = emit_leaf(tables, e);
            emit(out, op);
            proof {
                assert(ops_v(out@) =~= ops_v(out0) + cexpr(ev, tv, base));
            }
        },
    }
}

/// The one instruction of a literal or a name.
fn emit_leaf(tables: &Vec<Vec<(String, usize)>>, e: &Expr) -> (op: OpCode)
    requires
        e is Integer || e is Float || e is Bool || e is String || e is Ident,
    ensures
        seq![op_v(op)] == cexpr(expr_v(*e), tables_v(tables@), 0),
        forall|b: int| #[trigger] cexpr(expr_v(*e), tables_v(tables@), b) == cexpr(expr_v(*e), tables_v(tables@), 0),
{
    let ghost tv = tables_v(tables@);
    proof {
        lemma_expr_view(*e);
        assert forall|b: int| #[trigger] cexpr(expr_v(*e), tv, b) == cexpr(expr_v(*e), tv, 0) by {
            unfold_cexpr(expr_v(*e), tv, b);
            unfold_cexpr(expr_v(*e), tv, 0);
        }
        unfold_cexpr(expr_v(*e), tv, 0);
    }
    let op = match e {
        Expr::Integer(n) => OpCode::Push(Value::Integer(*n)),
        Expr::Float(t) => OpCode::Push(Value::Float(t.clone())),
        Expr::Bool(b) => OpCode::Push(Value::Bool(*b)),
        Expr::String(t) => OpCode::Push(Value::String(t.clone())),
        Expr::Ident(name) => {
            let r = load_instr(tables, name);
            return r;
        },
        _ => OpCode::Ret,
    };
    proof {
        unfold_op_v(op);
    }
    op
}

/// Emits the code of a `while` or an `if`: a condition followed by a
/// conditional jump whose target is patched once the body is emitted.
fn emit_branching(tables: &mut Vec<Vec<(String, usize)>>, out: &mut Vec<OpCode>, s: &Stmt)
    requires
        wf_stmt(stmt_v(*s)),
        s is While || s is IfElse,
    ensures
        final(tables)@ == old(tables)@,
        ops_v(final(out)@) == ops_v(old(out)@) + cstmt(
            stmt_v(*s),
            tables_v(old(tables)@),
            old(out)@.len() as int,
        ),
    decreases *s, 1nat,
{
    let ghost tv = tables_v(tables@);
    let ghost out0 = out@;
    let ghost base = out@.len() as int;
    let ghost sv = stmt_v(*s);
    proof {
        lemma_stmt_view(*s);
        unfold_cstmt(sv, tv, base);
        unfold_wf_stmt(sv);
        lemma_ops_v_len(out0);
    }
    match s {
        Stmt::While { condition, block } => {
            let start = out.len();
            emit_expr(tables, out, condition);
            let idx = out.len();
            let op = OpCode::JmpIfNot(usize::MAX);
            proof {
                unfold_op_v(op);
                lemma_ops_v_len(out@);
            }
            emit(out, op);
            proof {
                lemma_ops_v_len(out@);
            }
            emit_stmt(tables, out, block);
            let back = OpCode::Jmp(start);
            proof {
                unfold_op_v(back);
            }
            emit(out, back);
            let end = out.len();
            proof {
                lemma_ops_v_len(out@);
            }
            let op2 = OpCode::JmpIfNot(end);
            proof {
                unfold_op_v(op2);
            }
            patch(out, idx, op2);
            proof {
                assert(ops_v(out@) =~= ops_v(out0) + cstmt(sv, tv, base));
            }
        },
        Stmt::IfElse { condition, then_branch, else_branch } => {
            emit_expr(tables, out, condition);
            let ghost c = cexpr(expr_v(*condition), tv, base);
            let idx = out.len();
            let op = OpCode::JmpIfNot(usize::MAX);
            proof {
                unfold_op_v(op);
                lemma_ops_v_len(out@);
            }
            emit(out, op);
            proof {
                lemma_ops_v_len(out@);
            }
            emit_stmt(tables, out, then_branch);
            let ghost th = cstmt(stmt_v(**then_branch), tv, base + c.len() + 1);
            proof {
                lemma_ops_v_len(out@);
            }
            match else_branch {
                Some(other) => {
                    let leave = out.len();
                    let op3 = OpCode::Jmp(usize::MAX);
                    proof {
                        unfold_op_v(op3);
                    }
                    emit(out, op3);
                    let else_start = out.len();
                    proof {
                        lemma_ops_v_len(out@);
                    }
                    let op2 = OpCode::JmpIfNot(else_start);
                    proof {
                        unfold_op_v(op2);
                    }
                    patch(out, idx, op2);
                    emit_stmt(tables, out, other);
                    let end = out.len();
                    proof {
                        lemma_ops_v_len(out@);
                    }
                    let op4 = OpCode::Jmp(end);
                    proof {
                        unfold_op_v(op4);
                    }
                    patch(out, leave, op4);
                    proof {
                        assert(ops_v(out@) =~= ops_v(out0) + cstmt(sv, tv, base));
                    }
                },
                None => {
                    let after_then = out.len();
                    let op2 = OpCode::JmpIfNot(after_then);
                    proof {
                        unfold_op_v(op2);
                    }
                    patch(out, idx, op2);
                    proof {
                        assert(ops_v(out@) =~= ops_v(out0) + cstmt(sv, tv, base));
                    }
                },
            }
        },
        _ => {},
    }
}

/// Emits the code of a statement.
fn emit_stmt(tables: &mut Vec<Vec<(String, usize)>>, out: &mut Vec<OpCode>, s: &Stmt)
    requires
        wf_stmt(stmt_v(*s)),
    ensures
        final(tables)@ == old(tables)@,
        ops_v(final(out)@) == ops_v(old(out)@) + cstmt(
            stmt_v(*s),
            tables_v(old(tables)@),
            old(out)@.len() as int,
        ),
    decreases *s, 2nat,
{
    let ghost t0 = tables@;
    let ghost tv = tables_v(tables@);
    let ghost out0 = out@;
    let ghost base = out@.len() as int;
    let ghost sv = stmt_v(*s);
    proof {
        lemma_stmt_view(*s);
        unfold_cstmt(sv, tv, base);
        unfold_wf_stmt(sv);
        lemma_ops_v_len(out0);
    }
    match s {
        Stmt::While { .. } | Stmt::IfElse { .. } => {
            emit_branching(tables, out, s);
        },
        Stmt::Expr(e) => {
            emit_expr(tables, out, e);
        },
        Stmt::Let { name, value } => {
            emit_expr(tables, out, value);
            let op = store_instr(tables, name);
            emit(out, op);
            proof {
                assert(ops_v(out@) =~= ops_v(out0) + cstmt(sv, tv, base));
            }
        },
        Stmt::Assign { name, value } => {
            emit_expr(tables, out, value);
            let op = store_instr(tables, name);
            emit(out, op);
            proof {
                assert(ops_v(out@) =~= ops_v(out0) + cstmt(sv, tv, base));
            }
        },
        Stmt::Return(e) => {
            emit_expr(tables, out, e);
            let op = OpCode::Ret;
            proof {
                unfold_op_v(op);
            }
            emit(out, op);
            proof {
                assert(ops_v(out@) =~= ops_v(out0) + cstmt(sv, tv, base));
            }
        },
        Stmt::CompoundAssign { name, op, value } => {
            let load = load_instr(tables, name);
            emit(out, load);
            emit_expr(tables, out, value);
            let instr = bin_instr(op);
            emit(out, instr);
            let store = store_instr(tables, name);
            emit(out, store);
            proof {
                assert(ops_v(out@) =~= ops_v(out0) + cstmt(sv, tv, base));
            }
        },
        Stmt::IndexAssign { obj, key, value } => {
            emit_expr(tables, out, obj);
            proof {
                lemma_ops_v_len(out@);
            }
            emit_expr(tables, out, key);
            proof {
                lemma_ops_v_len(out@);
            }
            emit_expr(tables, out, value);
            let instr = OpCode::IndexAssign(false);
            proof {
                unfold_op_v(instr);
            }
            emit(out, instr);
            proof {
                assert(ops_v(out@) =~= ops_v(out0) + cstmt(sv, tv, base));
            }
        },
        Stmt::IndexCompoundAssign { obj, key, op, value } => {
            emit_expr(tables, out, obj);
            proof {
                lemma_ops_v_len(out@);
            }
            emit_expr(tables, out, key);
            let dup = OpCode::Dup(2);
            let read = OpCode::Index;
            proof {
                unfold_op_v(dup);
                unfold_op_v(read);
            }
            emit(out, dup);
            emit(out, read);
            proof {
                lemma_ops_v_len(out@);
            }
            emit_expr(tables, out, value);
            let instr = bin_instr(op);
            emit(out, instr);
            let write = OpCode::IndexAssign(false);
            proof {
                unfold_op_v(write);
            }
            emit(out, write);
            proof {
                assert(ops_v(out@) =~= ops_v(out0) + cstmt(sv, tv, base));
            }
        },
        Stmt::Block(stmts) => {
            let enter = OpCode::EnterScope;
            proof {
                unfold_op_v(enter);
            }
            emit(out, enter);
            let mut table: Vec<(String, usize)> = Vec::new();
            proof {
                assert(table_v(table@) =~= Seq::<(Seq<char>, usize)>::empty());
            }
            declare_lets(&mut table, stmts);
            let ghost tbl = table;
            tables.push(table);
            proof {
                lemma_tables_v_push(t0, tbl);
            }
            emit_stmts(tables, out, stmts);
            tables.pop();
            let exit = OpCode::ExitScope;
            proof {
                unfold_op_v(exit);
            }
            emit(out, exit);
            proof {
                assert(tables@ =~= t0);
                assert(ops_v(out@) =~= ops_v(out0) + cstmt(sv, tv, base));
            }
        },
    }
}

/// The compiler. It keeps the code it has emitted so far; each statement is
/// compiled at the end of it, with no local scope open.
pub struct Compiler {
    code: Vec<OpCode>,
}

impl View for Compiler {
    type V = Seq<OpCodeV>;

    closed spec fn view(&self) -> Seq<OpCodeV> {
        ops_v(self.code@)
    }
}

impl Compiler {
    /// A compiler that has emitted nothing.
    pub fn new() -> (c: Compiler)
        ensures
            c@ == Seq::<OpCodeV>::empty(),
    {
        let c = Compiler { code: Vec::new() };
        proof {
            lemma_ops_v_len(c.code@);
        }
        c
    }

    /// The code of a whole program.
    pub fn compile_program(stmts: &Vec<Stmt>) -> (code: Vec<OpCode>)
        requires
            wf_stmts(stmts_v(stmts@)),
        ensures
            ops_v(code@) == cstmts(stmts_v(stmts@), Seq::empty(), 0),
            crate::codegen::jumps_inside(ops_v(code@)),
    {
        let mut compiler = Compiler::new();
        let code = compiler.compile(stmts);
        proof {
            crate::laws::lemma_code_fits(code);
            crate::laws::law_compiled_jumps_stay_inside(stmts_v(stmts@));
            assert(Seq::<OpCodeV>::empty() + cstmts(stmts_v(stmts@), Seq::empty(), 0) =~= cstmts(
                stmts_v(stmts@),
                Seq::empty(),
                0,
            ));
        }
        code
    }

    /// Compiles statements after the code emitted so far and returns a copy
    /// of all the code.
    pub fn compile(&mut self, stmts: &Vec<Stmt>) -> (code: Vec<OpCode>)
        requires
            wf_stmts(stmts_v(stmts@)),
        ensures
            final(self)@ == old(self)@ + cstmts(stmts_v(stmts@), Seq::empty(), old(self)@.len() as int),
            ops_v(code@) == final(self)@,
    {
        let mut tables: Vec<Vec<(String, usize)>> = Vec::new();
        proof {
            lemma_ops_v_len(self.code@);
            assert(tables_v(tables@) =~= Seq::<SymTableV>::empty());
        }
        emit_stmts(&mut tables, &mut self.code, stmts);
        clone_ops(&self.code)
    }

    /// Compiles one statement after the code emitted so far.
    pub fn compile_stmt(&mut self, stmt: &Stmt)
        requires
            wf_stmt(stmt_v(*stmt)),
        ensures
            final(self)@ == old(self)@ + cstmt(stmt_v(*stmt), Seq::empty(), old(self)@.len() as int),
    {
        let mut tables: Vec<Vec<(String, usize)>> = Vec::new();
        proof {
            lemma_ops_v_len(self.code@);
            assert(tables_v(tables@) =~= Seq::<SymTableV>::empty());
        }
        emit_stmt(&mut tables, &mut self.code, stmt);
    }
}

} // verus!
