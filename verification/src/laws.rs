//! Properties of the interpreter that span several functions or steps.

use vstd::prelude::*;
use crate::ast::{BinOp, CmpOp, UnaryOp, ExprV, StmtV};
use crate::codegen::{
    SymTableV, cexpr, cexprs, cstmt, cstmts, unfold_cexpr, unfold_cexprs, unfold_cstmt, unfold_cstmts,
    jump_target, jumps_within, jumps_inside, bodies_inside, sizes_fit, bodies_fit, bin_opcode, compare_opcode, load_op, store_op,
    declare_all, let_names, declare, table_get, table_find,
};
use crate::value::{OpCode, OpCodeV, ops_v, unfold_op_v, lemma_ops_v_len, lemma_ops_v_index};
use crate::token::TokenV;
use crate::lexer::{lex_from, next_token_spec, LexRun, Scan, scan_string, trivia_end};
use crate::grammar::cmp_op_of;
use crate::value::{ValueV, Builtin};
use crate::heap::{HeapV, assoc_get, assoc_set, chain_get, lemma_assoc_set_get, tables_keys_unique, keys_unique, lemma_assoc_set_unique};
use crate::invoke::{OutcomeV, builtin_call};
use crate::machine::{
    MachineV, ActionV, BinKind, binop, call_value, enter, index_op, index_assign_op, push,
    step_spec, frame_code, exec_op, is_held, borrow_text, plain_binop, variable_op, stack_op, object_op, magic_name, set_ip,
};

verus! {

/// Lexing that succeeds ends with the `Eof` token, and holds no other `Eof`.
pub proof fn law_lexing_ends_with_eof(s: Seq<char>, pos: int)
    ensures
        lex_from(s, pos) matches LexRun::Done(ts, q) ==> ts.len() > 0 && ts.last() is Eof && forall|i: int|
            0 <= i < ts.len() - 1 ==> !(#[trigger] ts[i] is Eof),
    decreases s.len() - pos,
{
    match next_token_spec(s, pos) {
        Scan::Token(TokenV::Eof, p) => {},
        Scan::Token(t, p) => {
            if pos < p <= s.len() {
                law_lexing_ends_with_eof(s, p);
                match lex_from(s, p) {
                    LexRun::Done(ts, q) => {
                        let all = seq![t] + ts;
                        assert forall|i: int| 0 <= i < all.len() - 1 implies !(#[trigger] all[i] is Eof) by {
                            if i > 0 {
                                assert(all[i] == ts[i - 1]);
                            }
                        }
                        assert(all.last() == ts.last());
                    },
                    _ => {},
                }
            }
        },
        _ => {},
    }
}

/// Reading a field of a table that does not hold it reads it from the
/// table's prototype.
pub proof fn law_prototype_lookup(h: HeapV, t: int, k: ValueV, fuel: nat)
    requires
        0 <= t < h.tables.len(),
        fuel > 0,
        assoc_get(h.tables[t].data, k) is None,
        h.tables[t].prototype is Some,
    ensures
        chain_get(h, t, k, fuel) == chain_get(h, h.tables[t].prototype->0 as int, k, (fuel - 1) as nat),
{
}

/// After `table[key] = value`, reading `table[key]` gives `value`.
pub proof fn law_index_after_index_assign(m: MachineV, t: usize)
    requires
        m.stack.len() >= 3,
        m.stack[m.stack.len() - 3] == ValueV::Table(t),
        t < m.heap.tables.len(),
        !is_held(m, t),
    ensures
        ({
            let k = m.stack[m.stack.len() - 2];
            let v = m.stack[m.stack.len() - 1];
            let (m1, a1) = index_assign_op(m, false);
            let (m2, a2) = index_op(push(push(m1, ValueV::Table(t)), k));
            &&& a1 == ActionV::Continue
            &&& a2 == ActionV::Continue
            &&& m2.stack == m1.stack.push(v)
        }),
{
    reveal(index_assign_op);
    reveal(index_op);
    let n = m.stack.len();
    let k = m.stack[n - 2];
    let v = m.stack[n - 1];
    let old_t = m.heap.tables[t as int];
    lemma_assoc_set_get(old_t.data, k, v, k);
    let (m1, a1) = index_assign_op(m, false);
    let m3 = push(push(m1, ValueV::Table(t)), k);
    assert(m3.stack.take(m3.stack.len() - 2) =~= m1.stack);
    assert(m1.heap.tables[t as int].data == assoc_set(old_t.data, k, v));
}

/// A method call `obj:name()` on a table passes the table as the first
/// argument: the instructions that open the call leave the method that the
/// table (or its prototypes) holds under `name`, then the table itself, and
/// the call then calls the method on the table.
pub proof fn law_method_call_passes_object(m: MachineV, t: usize, name: Seq<char>, f: ValueV)
    requires
        m.stack.len() > 0,
        m.stack.last() == ValueV::Table(t),
        chain_get(m.heap, t as int, ValueV::String(name), m.heap.tables.len()) == Some(f),
    ensures
        ({
            let (m1, a1) = exec_op(m, OpCodeV::Dup(1));
            let (m2, a2) = exec_op(m1, OpCodeV::Push(ValueV::String(name)));
            let (m3, a3) = exec_op(m2, OpCodeV::Index);
            let (m4, a4) = exec_op(m3, OpCodeV::Swap2);
            &&& a1 == ActionV::Continue
            &&& a2 == ActionV::Continue
            &&& a3 == ActionV::Continue
            &&& a4 == ActionV::Continue
            &&& m4.stack == m.stack.drop_last().push(f).push(ValueV::Table(t))
            &&& m4.heap == m.heap
            &&& exec_op(m4, OpCodeV::Call(1)) == call_value(
                MachineV { stack: m.stack.drop_last(), ..m4 },
                f,
                seq![ValueV::Table(t)],
                None,
            )
        }),
{
    reveal(stack_op);
    reveal(index_op);
    reveal(object_op);
    let n = m.stack.len();
    let (m1, a1) = exec_op(m, OpCodeV::Dup(1));
    assert(m1.stack =~= m.stack.push(ValueV::Table(t)));
    let (m2, a2) = exec_op(m1, OpCodeV::Push(ValueV::String(name)));
    let (m3, a3) = exec_op(m2, OpCodeV::Index);
    assert(m2.stack.take(m2.stack.len() - 2) =~= m.stack);
    assert(m3.stack =~= m.stack.push(f));
    let (m4, a4) = exec_op(m3, OpCodeV::Swap2);
    assert(m4.stack =~= m.stack.drop_last().push(f).push(ValueV::Table(t)));
    assert(m4.stack.take(m4.stack.len() - 1 - 1) =~= m.stack.drop_last());
    assert(m4.stack.subrange(m4.stack.len() - 1, m4.stack.len() as int) =~= seq![ValueV::Table(t)]);
}

/// A metatable function may not write to the table it was called on: while
/// it runs, `table[key] = value` on that table panics.
pub proof fn law_borrowed_table_is_not_written(m: MachineV, t: usize, keep: bool)
    requires
        m.stack.len() >= 3,
        m.stack[m.stack.len() - 3] == ValueV::Table(t),
        t < m.heap.tables.len(),
        is_held(m, t),
    ensures
        index_assign_op(m, keep) == (m, ActionV::Fault(borrow_text())),
{
    reveal(index_assign_op);
}

/// `a + b` on a table `a` whose metatable holds, under `add`, a function of
/// two parameters calls that function on `a` and `b`, with `a` borrowed
/// until it returns.
pub proof fn law_metatable_add(m: MachineV, t: usize, meta: usize, f: usize)
    requires
        m.stack.len() >= 2,
        m.stack[m.stack.len() - 2] == ValueV::Table(t),
        t < m.heap.tables.len(),
        m.heap.tables[t as int].meta == Some(meta),
        chain_get(m.heap, meta as int, ValueV::String("add"@), m.heap.tables.len()) == Some(ValueV::Func(f)),
        f < m.heap.funcs.len(),
        m.heap.funcs[f as int].param_count == 2,
    ensures
        binop(m, BinKind::Arith(BinOp::Add)) == (
            enter(
                MachineV { stack: m.stack.take(m.stack.len() - 2), ..m },
                f as int,
                seq![ValueV::Table(t), m.stack[m.stack.len() - 1]],
                Some(t),
            ),
            ActionV::Continue,
        ),
{
    reveal(binop);
    reveal(call_value);
}

/// An error raised in a function is printed, and the function returns
/// `None` to its caller, whose stack and scopes come back.
pub proof fn law_error_in_function(m: MachineV)
    requires
        m.pending is None,
        m.frames.len() >= 2,
        m.to_throw is Some,
    ensures
        step_spec(m).1 == ActionV::Print("RuntimeError:\n  "@ + m.to_throw->0),
        step_spec(m).0.stack == m.frames.last().saved.push(ValueV::Nil),
        step_spec(m).0.frames == m.frames.drop_last(),
        step_spec(m).0.to_throw is None,
{
}

/// `getPrototypeOf` after `setPrototypeOf(t, p)` gives `p`.
pub proof fn law_prototype_round_trip(h: HeapV, t: usize, p: usize)
    requires
        t < h.tables.len(),
        p < h.tables.len(),
    ensures
        ({
            let (h1, o1) = builtin_call(h, Builtin::SetPrototypeOf, seq![ValueV::Table(t), ValueV::Table(p)]);
            let (h2, o2) = builtin_call(h1, Builtin::GetPrototypeOf, seq![ValueV::Table(t)]);
            &&& o1 == OutcomeV::Return(ValueV::Nil)
            &&& o2 == OutcomeV::Return(ValueV::Table(p))
            &&& h2 == h1
        }),
{
}

/// `getMetatableOf` after `setMetatableOf(t, m)` gives `m`.
pub proof fn law_metatable_round_trip(h: HeapV, t: usize, m: usize)
    requires
        t < h.tables.len(),
        m < h.tables.len(),
    ensures
        ({
            let (h1, o1) = builtin_call(h, Builtin::SetMetatableOf, seq![ValueV::Table(t), ValueV::Table(m)]);
            let (h2, o2) = builtin_call(h1, Builtin::GetMetatableOf, seq![ValueV::Table(t)]);
            &&& o1 == OutcomeV::Return(ValueV::Nil)
            &&& o2 == OutcomeV::Return(ValueV::Table(m))
            &&& h2 == h1
        }),
{
}

/// `pop` after `push(v)` gives `v` and leaves the heap as it was; `len`
/// after `push` is one more.
pub proof fn law_array_push_pop(h: HeapV, a: usize, v: ValueV)
    requires
        a < h.arrays.len(),
    ensures
        ({
            let (h1, o1) = builtin_call(h, Builtin::ArrayPush, seq![ValueV::Array(a), v]);
            let (h2, o2) = builtin_call(h1, Builtin::ArrayPop, seq![ValueV::Array(a)]);
            &&& o1 == OutcomeV::Return(ValueV::Nil)
            &&& o2 == OutcomeV::Return(v)
            &&& h2 == h
            &&& builtin_call(h1, Builtin::ArrayLen, seq![ValueV::Array(a)]).1 == OutcomeV::Return(
                ValueV::Integer((h.arrays[a as int].len() + 1) as i64),
            )
        }),
{
    let (h1, o1) = builtin_call(h, Builtin::ArrayPush, seq![ValueV::Array(a), v]);
    assert(h1.arrays[a as int] == h.arrays[a as int].push(v));
    assert(h1.arrays[a as int].drop_last() =~= h.arrays[a as int]);
    assert(h1.arrays.update(a as int, h1.arrays[a as int].drop_last()) =~= h.arrays);
}

/// The slots of a symbol table's names are all different, and each is below
/// the table's size.
pub open spec fn slots_distinct(t: SymTableV) -> bool {
    &&& forall|i: int| 0 <= i < t.len() ==> (#[trigger] t[i]).1 < t.len()
    &&& forall|i: int, j: int| 0 <= i < j < t.len() ==> (#[trigger] t[i]).1 != (#[trigger] t[j]).1
}

proof fn lemma_found_has_slot(t: SymTableV, name: Seq<char>)
    requires
        table_find(t, name) is Some,
    ensures
        table_get(t, name) is Some,
    decreases t.len(),
{
    if t.len() > 0 && t.last().0 != name {
        lemma_found_has_slot(t.drop_last(), name);
    }
}

/// `let` declares a variable: declaring a name in a table whose names have
/// distinct slots gives the name a slot, leaves every other name its slot,
/// and keeps the slots of all names distinct.
pub proof fn law_declare_keeps_variables_apart(t: SymTableV, name: Seq<char>, other: Seq<char>)
    requires
        slots_distinct(t),
        t.len() < usize::MAX,
    ensures
        slots_distinct(declare(t, name)),
        table_get(declare(t, name), name) is Some,
        other != name ==> table_get(declare(t, name), other) == table_get(t, other),
{
    match table_find(t, name) {
        Some(i) => {
            lemma_found_has_slot(t, name);
        },
        None => {
            let t2 = t.push((name, t.len() as usize));
            assert(t2.drop_last() =~= t);
            assert forall|i: int, j: int| 0 <= i < j < t2.len() implies (#[trigger] t2[i]).1 != (#[trigger] t2[j]).1 by {
                if j == t.len() {
                    assert(t2[i] == t[i]);
                } else {
                    assert(t2[i] == t[i] && t2[j] == t[j]);
                }
            }
            assert forall|i: int| 0 <= i < t2.len() implies (#[trigger] t2[i]).1 < t2.len() by {
                if i < t.len() {
                    assert(t2[i] == t[i]);
                }
            }
        },
    }
}

/// A compound assignment `x op= e` compiles exactly as `x = x op (e)`.
pub proof fn law_compound_assign_is_assign(name: Seq<char>, op: BinOp, value: ExprV, tables: Seq<SymTableV>, base: int)
    ensures
        cstmt(StmtV::CompoundAssign { name, op, value }, tables, base) == cstmt(
            StmtV::Assign {
                name,
                value: ExprV::BinaryOp { left: Box::new(ExprV::Ident(name)), op, right: Box::new(value) },
            },
            tables,
            base,
        ),
{
    let sum = ExprV::BinaryOp { left: Box::new(ExprV::Ident(name)), op, right: Box::new(value) };
    unfold_cstmt(StmtV::CompoundAssign { name, op, value }, tables, base);
    unfold_cstmt(StmtV::Assign { name, value: sum }, tables, base);
    unfold_cexpr(sum, tables, base);
    unfold_cexpr(ExprV::Ident(name), tables, base);
    let v = cexpr(value, tables, base + 1);
    assert((seq![load_op(tables, name)] + v).push(bin_opcode(op)).push(store_op(tables, name))
        =~= (seq![load_op(tables, name)] + v + seq![bin_opcode(op)]).push(store_op(tables, name)));
}

// ---------------------------------------------------------------------------
// What single operations are for
// ---------------------------------------------------------------------------

proof fn lemma_plain_string_body(s: Seq<char>, q: char, body: Seq<char>, k: int)
    requires
        s.len() >= body.len() + 2,
        s[body.len() as int + 1] == q,
        forall|i: int| 0 <= i < body.len() ==> s[i + 1] == body[i],
        forall|i: int| 0 <= i < body.len() ==> body[i] != q && body[i] != '\\' && body[i] != '\n',
        0 <= k <= body.len(),
    ensures
        scan_string(s, k + 1, q, body.take(k), false) == Scan::Token(TokenV::String(body), body.len() as int + 2),
    decreases body.len() - k,
{
    if k == body.len() {
        assert(body.take(k) =~= body);
    } else {
        let c = s[k + 1];
        assert(c == body[k]);
        assert(body.take(k).push(c) =~= body.take(k + 1));
        lemma_plain_string_body(s, q, body, k + 1);
    }
}

/// A string literal ends only at the quote that opened it: a text that
/// starts with `"` (or `'`), then holds no such quote, backslash or line
/// break before the next such quote, lexes as one string token holding
/// everything between the two quotes (the other kind of quote included).
pub proof fn law_string_literal_ends_at_its_own_quote(s: Seq<char>, q: char, body: Seq<char>)
    requires
        q == '"' || q == '\'',
        s.len() >= body.len() + 2,
        s[0] == q,
        s[body.len() as int + 1] == q,
        forall|i: int| 0 <= i < body.len() ==> s[i + 1] == body[i],
        forall|i: int| 0 <= i < body.len() ==> body[i] != q && body[i] != '\\' && body[i] != '\n',
    ensures
        next_token_spec(s, 0) == Scan::Token(TokenV::String(body), body.len() as int + 2),
{
    assert(trivia_end(s, 0) == 0);
    assert(body.take(0) =~= Seq::<char>::empty());
    lemma_plain_string_body(s, q, body, 0);
}

/// Each comparison token means the comparison it is written as: the
/// instruction of the operator that `==`, `!=`, `<`, `>`, `<=` or `>=`
/// stands for, run on two integers, gives that comparison of them.
pub proof fn law_comparison_tokens_mean_what_they_say(m: MachineV, x: i64, y: i64)
    requires
        m.stack.len() >= 2,
        m.stack[m.stack.len() - 2] == ValueV::Integer(x),
        m.stack[m.stack.len() - 1] == ValueV::Integer(y),
    ensures
        ({
            let rest = MachineV { stack: m.stack.take(m.stack.len() - 2), ..m };
            let run = |t: TokenV| exec_op(m, compare_opcode(cmp_op_of(t)->0));
            &&& cmp_op_of(TokenV::Eq) is Some && run(TokenV::Eq) == (push(rest, ValueV::Bool(x == y)), ActionV::Continue)
            &&& cmp_op_of(TokenV::NEq) is Some && run(TokenV::NEq) == (push(rest, ValueV::Bool(x != y)), ActionV::Continue)
            &&& cmp_op_of(TokenV::Lt) is Some && run(TokenV::Lt) == (push(rest, ValueV::Bool(x < y)), ActionV::Continue)
            &&& cmp_op_of(TokenV::Gt) is Some && run(TokenV::Gt) == (push(rest, ValueV::Bool(x > y)), ActionV::Continue)
            &&& cmp_op_of(TokenV::Lte) is Some && run(TokenV::Lte) == (push(rest, ValueV::Bool(x <= y)), ActionV::Continue)
            &&& cmp_op_of(TokenV::Gte) is Some && run(TokenV::Gte) == (push(rest, ValueV::Bool(x >= y)), ActionV::Continue)
        }),
{
    reveal(binop);
    reveal(plain_binop);
}

/// A comparison compiles to the code of its operands followed by one
/// instruction that, run on two integers, gives that same comparison of them.
pub proof fn law_comparison_compiles_to_its_comparison(
    l: ExprV,
    op: CmpOp,
    r: ExprV,
    t: Seq<SymTableV>,
    base: int,
    m: MachineV,
    x: i64,
    y: i64,
)
    requires
        m.stack.len() >= 2,
        m.stack[m.stack.len() - 2] == ValueV::Integer(x),
        m.stack[m.stack.len() - 1] == ValueV::Integer(y),
    ensures
        ({
            let code = cexpr(ExprV::CompareOp { left: Box::new(l), op, right: Box::new(r) }, t, base);
            let lc = cexpr(l, t, base);
            let rc = cexpr(r, t, base + lc.len());
            let rest = MachineV { stack: m.stack.take(m.stack.len() - 2), ..m };
            let holds = match op {
                CmpOp::Eq => x == y,
                CmpOp::NEq => x != y,
                CmpOp::Lt => x < y,
                CmpOp::Gt => x > y,
                CmpOp::Lte => x <= y,
                CmpOp::Gte => x >= y,
            };
            &&& code.len() == lc.len() + rc.len() + 1
            &&& code == lc + rc + seq![code.last()]
            &&& exec_op(m, code.last()) == (push(rest, ValueV::Bool(holds)), ActionV::Continue)
        }),
{
    reveal(binop);
    reveal(plain_binop);
    unfold_cexpr(ExprV::CompareOp { left: Box::new(l), op, right: Box::new(r) }, t, base);
}

/// Writing `array[i] = v` at an index inside the array replaces that element
/// and nothing else: the length and every other element stay, no other array
/// changes, and reading `array[i]` then gives `v`.
pub proof fn law_array_write_replaces_element(m: MachineV, arr: usize, i: i64, v: ValueV)
    requires
        m.stack.len() >= 3,
        m.stack[m.stack.len() - 3] == ValueV::Array(arr),
        m.stack[m.stack.len() - 2] == ValueV::Integer(i),
        m.stack[m.stack.len() - 1] == v,
        arr < m.heap.arrays.len(),
        0 <= i < m.heap.arrays[arr as int].len(),
        i <= usize::MAX,
    ensures
        ({
            let (m1, a1) = index_assign_op(m, false);
            let before = m.heap.arrays[arr as int];
            let after = m1.heap.arrays[arr as int];
            let (m2, a2) = index_op(push(push(m1, ValueV::Array(arr)), ValueV::Integer(i)));
            &&& a1 == ActionV::Continue
            &&& m1.stack == m.stack.take(m.stack.len() - 3)
            &&& m1.heap.arrays.len() == m.heap.arrays.len()
            &&& after.len() == before.len()
            &&& after[i as int] == v
            &&& forall|j: int| 0 <= j < before.len() && j != i ==> after[j] == before[j]
            &&& forall|a: int| 0 <= a < m.heap.arrays.len() && a != arr ==> m1.heap.arrays[a] == m.heap.arrays[a]
            &&& a2 == ActionV::Continue
            &&& m2.stack == m1.stack.push(v)
        }),
{
    reveal(index_assign_op);
    reveal(index_op);
    let (m1, a1) = index_assign_op(m, false);
    let m3 = push(push(m1, ValueV::Array(arr)), ValueV::Integer(i));
    assert(m3.stack.take(m3.stack.len() - 2) =~= m1.stack);
}

/// `toInteger` without a base reads the string in base 10: calling it on a
/// string alone does what calling it with the base 10 does.
pub proof fn law_to_integer_defaults_to_base_ten(h: HeapV, s: Seq<char>)
    ensures
        builtin_call(h, Builtin::StringToInteger, seq![ValueV::String(s)])
            == builtin_call(h, Builtin::StringToInteger, seq![ValueV::String(s), ValueV::Integer(10)]),
{
}


/// The jumps of a piece of code land between `lo` and `hi`, and the code of
/// each function it makes has its jumps inside it.
pub open spec fn well_placed(code: Seq<OpCodeV>, lo: int, hi: int) -> bool {
    jumps_within(code, lo, hi) && bodies_inside(code)
}

/// A piece of code that starts at `base` ends within what a `Vec` holds, and
/// so does the code of each function it makes.
pub open spec fn room(code: Seq<OpCodeV>, base: int) -> bool {
    0 <= base && base + code.len() <= usize::MAX && bodies_fit(code)
}

proof fn lemma_split_room(a: Seq<OpCodeV>, b: Seq<OpCodeV>, base: int)
    requires
        room(a + b, base),
    ensures
        room(a, base),
        room(b, base + a.len()),
{
    assert forall|i: int| 0 <= i < a.len() implies (#[trigger] a[i] matches OpCodeV::PushFn(_, body) ==> sizes_fit(body)) by {
        assert((a + b)[i] == a[i]);
    }
    assert forall|i: int| 0 <= i < b.len() implies (#[trigger] b[i] matches OpCodeV::PushFn(_, body) ==> sizes_fit(body)) by {
        assert((a + b)[i + a.len()] == b[i]);
    }
}

proof fn lemma_join(a: Seq<OpCodeV>, b: Seq<OpCodeV>, lo: int, hi: int)
    requires
        well_placed(a, lo, hi),
        well_placed(b, lo, hi),
    ensures
        well_placed(a + b, lo, hi),
{
    assert forall|i: int| 0 <= i < (a + b).len() implies (#[trigger] jump_target((a + b)[i]) matches Some(t) ==> lo <= t <= hi) by {
        if i < a.len() {
            assert((a + b)[i] == a[i]);
        } else {
            assert((a + b)[i] == b[i - a.len()]);
        }
    }
    assert forall|i: int| 0 <= i < (a + b).len() implies (#[trigger] (a + b)[i] matches OpCodeV::PushFn(_, body) ==> jumps_inside(body)) by {
        if i < a.len() {
            assert((a + b)[i] == a[i]);
        } else {
            assert((a + b)[i] == b[i - a.len()]);
        }
    }
}

proof fn lemma_one(op: OpCodeV, lo: int, hi: int)
    requires
        jump_target(op) matches Some(t) ==> lo <= t <= hi,
        op matches OpCodeV::PushFn(_, body) ==> jumps_inside(body),
    ensures
        well_placed(seq![op], lo, hi),
{
    assert(seq![op][0] == op);
}

/// Code placed between some bounds is placed between wider ones.
proof fn lemma_widen(a: Seq<OpCodeV>, lo: int, hi: int, lo2: int, hi2: int)
    requires
        well_placed(a, lo, hi),
        lo2 <= lo,
        hi <= hi2,
    ensures
        well_placed(a, lo2, hi2),
{
}

proof fn lemma_inside_from_placed(code: Seq<OpCodeV>)
    requires
        well_placed(code, 0, code.len() as int),
    ensures
        jumps_inside(code),
{
}

proof fn lemma_cexpr_placed(e: ExprV, t: Seq<SymTableV>, base: int)
    requires
        room(cexpr(e, t, base), base),
    ensures
        well_placed(cexpr(e, t, base), base, base + cexpr(e, t, base).len()),
    decreases e,
{
    unfold_cexpr(e, t, base);
    let code = cexpr(e, t, base);
    let end = base + code.len();
    match e {
        ExprV::AndOp { left, right } => {
            let l = cexpr(*left, t, base);
            let r = cexpr(*right, t, base + l.len() + 1);
            let mid = seq![OpCodeV::And(end as usize)];
            lemma_split_room(l + mid, r, base);
            lemma_split_room(l, mid, base);
            lemma_cexpr_placed(*left, t, base);
            lemma_cexpr_placed(*right, t, base + l.len() + 1);
            lemma_widen(l, base, base + l.len(), base, end);
            lemma_widen(r, base + l.len() + 1, end, base, end);
            lemma_one(OpCodeV::And(end as usize), base, end);
            lemma_join(l, mid, base, end);
            lemma_join(l + mid, r, base, end);
        },
        ExprV::OrOp { left, right } => {
            let l = cexpr(*left, t, base);
            let r = cexpr(*right, t, base + l.len() + 1);
            let mid = seq![OpCodeV::Or(end as usize)];
            lemma_split_room(l + mid, r, base);
            lemma_split_room(l, mid, base);
            lemma_cexpr_placed(*left, t, base);
            lemma_cexpr_placed(*right, t, base + l.len() + 1);
            lemma_widen(l, base, base + l.len(), base, end);
            lemma_widen(r, base + l.len() + 1, end, base, end);
            lemma_one(OpCodeV::Or(end as usize), base, end);
            lemma_join(l, mid, base, end);
            lemma_join(l + mid, r, base, end);
        },
        ExprV::BinaryOp { left, op, right } => {
            let l = cexpr(*left, t, base);
            let r = cexpr(*right, t, base + l.len());
            let last = seq![bin_opcode(op)];
            lemma_split_room(l + r, last, base);
            lemma_split_room(l, r, base);
            lemma_cexpr_placed(*left, t, base);
            lemma_cexpr_placed(*right, t, base + l.len());
            lemma_widen(l, base, base + l.len(), base, end);
            lemma_widen(r, base + l.len(), base + l.len() + r.len(), base, end);
            lemma_one(bin_opcode(op), base, end);
            lemma_join(l, r, base, end);
            lemma_join(l + r, last, base, end);
        },
        ExprV::CompareOp { left, op, right } => {
            let l = cexpr(*left, t, base);
            let r = cexpr(*right, t, base + l.len());
            let last = seq![compare_opcode(op)];
            lemma_split_room(l + r, last, base);
            lemma_split_room(l, r, base);
            lemma_cexpr_placed(*left, t, base);
            lemma_cexpr_placed(*right, t, base + l.len());
            lemma_widen(l, base, base + l.len(), base, end);
            lemma_widen(r, base + l.len(), base + l.len() + r.len(), base, end);
            lemma_one(compare_opcode(op), base, end);
            lemma_join(l, r, base, end);
            lemma_join(l + r, last, base, end);
        },
        ExprV::Unary(op, inner) => {
            let c = cexpr(*inner, t, base);
            let last_op = if op == UnaryOp::Neg { OpCodeV::Neg } else { OpCodeV::Not };
            let last = seq![last_op];
            assert(code =~= c + last);
            lemma_split_room(c, last, base);
            lemma_cexpr_placed(*inner, t, base);
            lemma_widen(c, base, base + c.len(), base, end);
            lemma_one(last_op, base, end);
            lemma_join(c, last, base, end);
        },
        ExprV::Call(callee, args) => {
            let c = cexpr(*callee, t, base);
            let a = cexprs(args, t, base + c.len());
            let last = seq![OpCodeV::Call(args.len() as usize)];
            lemma_split_room(c + a, last, base);
            lemma_split_room(c, a, base);
            lemma_cexpr_placed(*callee, t, base);
            lemma_cexprs_placed(args, t, base + c.len());
            lemma_widen(c, base, base + c.len(), base, end);
            lemma_widen(a, base + c.len(), base + c.len() + a.len(), base, end);
            lemma_one(OpCodeV::Call(args.len() as usize), base, end);
            lemma_join(c, a, base, end);
            lemma_join(c + a, last, base, end);
        },
        ExprV::Fn(names, body) => {
            let body_code = match *body {
                StmtV::Block(stmts) => {
                    let inner = t.push(declare_all(declare_all(Seq::empty(), names), let_names(stmts)));
                    cstmts(stmts, inner, 0)
                },
                _ => Seq::empty(),
            };
            let full = body_code.push(OpCodeV::ExitScope);
            assert(code[0] == OpCodeV::PushFn(names.len() as usize, full));
            assert(sizes_fit(full));
            assert(full =~= body_code + seq![OpCodeV::ExitScope]);
            lemma_split_room(body_code, seq![OpCodeV::ExitScope], 0);
            match *body {
                StmtV::Block(stmts) => {
                    let inner = t.push(declare_all(declare_all(Seq::empty(), names), let_names(stmts)));
                    lemma_cstmts_placed(stmts, inner, 0);
                },
                _ => {},
            }
            lemma_one(OpCodeV::ExitScope, 0, full.len() as int);
            lemma_widen(body_code, 0, body_code.len() as int, 0, full.len() as int);
            lemma_join(body_code, seq![OpCodeV::ExitScope], 0, full.len() as int);
            lemma_inside_from_placed(full);
            lemma_one(OpCodeV::PushFn(names.len() as usize, full), base, end);
            assert(code =~= seq![OpCodeV::PushFn(names.len() as usize, full)]);
        },
        ExprV::Concat { left, right } => {
            let l = cexpr(*left, t, base);
            let r = cexpr(*right, t, base + l.len());
            let last = seq![OpCodeV::Concat];
            lemma_split_room(l + r, last, base);
            lemma_split_room(l, r, base);
            lemma_cexpr_placed(*left, t, base);
            lemma_cexpr_placed(*right, t, base + l.len());
            lemma_widen(l, base, base + l.len(), base, end);
            lemma_widen(r, base + l.len(), base + l.len() + r.len(), base, end);
            lemma_one(OpCodeV::Concat, base, end);
            lemma_join(l, r, base, end);
            lemma_join(l + r, last, base, end);
        },
        ExprV::Index { obj, key } => {
            let o = cexpr(*obj, t, base);
            let k = cexpr(*key, t, base + o.len());
            let last = seq![OpCodeV::Index];
            lemma_split_room(o + k, last, base);
            lemma_split_room(o, k, base);
            lemma_cexpr_placed(*obj, t, base);
            lemma_cexpr_placed(*key, t, base + o.len());
            lemma_widen(o, base, base + o.len(), base, end);
            lemma_widen(k, base + o.len(), base + o.len() + k.len(), base, end);
            lemma_one(OpCodeV::Index, base, end);
            lemma_join(o, k, base, end);
            lemma_join(o + k, last, base, end);
        },
        ExprV::Method { obj, name, args } => {
            let o = cexpr(*obj, t, base);
            let lookup = seq![OpCodeV::Dup(1), OpCodeV::Push(ValueV::String(name)), OpCodeV::Index, OpCodeV::Swap2];
            let a = cexprs(args, t, base + o.len() + 4);
            let last = seq![OpCodeV::Call((args.len() + 1) as usize)];
            lemma_split_room(o + lookup + a, last, base);
            lemma_split_room(o + lookup, a, base);
            lemma_split_room(o, lookup, base);
            lemma_cexpr_placed(*obj, t, base);
            lemma_cexprs_placed(args, t, base + o.len() + 4);
            lemma_widen(o, base, base + o.len(), base, end);
            lemma_widen(a, base + o.len() + 4, base + o.len() + 4 + a.len(), base, end);
            assert(well_placed(lookup, base, end)) by {
                assert forall|i: int| 0 <= i < lookup.len() implies (#[trigger] jump_target(lookup[i]) matches Some(x) ==> base <= x <= end) by {}
                assert forall|i: int| 0 <= i < lookup.len() implies (#[trigger] lookup[i] matches OpCodeV::PushFn(_, body) ==> jumps_inside(body)) by {}
            }
            lemma_one(OpCodeV::Call((args.len() + 1) as usize), base, end);
            lemma_join(o, lookup, base, end);
            lemma_join(o + lookup, a, base, end);
            lemma_join(o + lookup + a, last, base, end);
        },
        ExprV::Array(items) => {
            let a = cexprs(items, t, base);
            let last = seq![OpCodeV::NewArray(items.len() as usize)];
            assert(code =~= a + last);
            lemma_split_room(a, last, base);
            lemma_cexprs_placed(items, t, base);
            lemma_widen(a, base, base + a.len(), base, end);
            lemma_one(OpCodeV::NewArray(items.len() as usize), base, end);
            lemma_join(a, last, base, end);
        },
        _ => {
            assert(code.len() == 1);
            lemma_one(code[0], base, end);
            assert(code =~= seq![code[0]]);
        },
    }
}

proof fn lemma_cexprs_placed(es: Seq<ExprV>, t: Seq<SymTableV>, base: int)
    requires
        room(cexprs(es, t, base), base),
    ensures
        well_placed(cexprs(es, t, base), base, base + cexprs(es, t, base).len()),
    decreases es,
{
    unfold_cexprs(es, t, base);
    if es.len() > 0 {
        let first = cexpr(es[0], t, base);
        let rest = es.subrange(1, es.len() as int);
        let r = cexprs(rest, t, base + first.len());
        let end = base + first.len() + r.len();
        lemma_split_room(first, r, base);
        lemma_cexpr_placed(es[0], t, base);
        lemma_cexprs_placed(rest, t, base + first.len());
        lemma_widen(first, base, base + first.len(), base, end);
        lemma_widen(r, base + first.len(), end, base, end);
        lemma_join(first, r, base, end);
    }
}

proof fn lemma_cstmt_placed(s: StmtV, t: Seq<SymTableV>, base: int)
    requires
        room(cstmt(s, t, base), base),
    ensures
        well_placed(cstmt(s, t, base), base, base + cstmt(s, t, base).len()),
    decreases s,
{
    unfold_cstmt(s, t, base);
    let code = cstmt(s, t, base);
    let end = base + code.len();
    match s {
        StmtV::Expr(e) => {
            lemma_cexpr_placed(e, t, base);
        },
        StmtV::Let { name, value } => {
            let c = cexpr(value, t, base);
            let last = seq![store_op(t, name)];
            assert(code =~= c + last);
            lemma_split_room(c, last, base);
            lemma_cexpr_placed(value, t, base);
            lemma_widen(c, base, base + c.len(), base, end);
            lemma_one(store_op(t, name), base, end);
            lemma_join(c, last, base, end);
        },
        StmtV::Assign { name, value } => {
            let c = cexpr(value, t, base);
            let last = seq![store_op(t, name)];
            assert(code =~= c + last);
            lemma_split_room(c, last, base);
            lemma_cexpr_placed(value, t, base);
            lemma_widen(c, base, base + c.len(), base, end);
            lemma_one(store_op(t, name), base, end);
            lemma_join(c, last, base, end);
        },
        StmtV::Return(e) => {
            let c = cexpr(e, t, base);
            let last = seq![OpCodeV::Ret];
            assert(code =~= c + last);
            lemma_split_room(c, last, base);
            lemma_cexpr_placed(e, t, base);
            lemma_widen(c, base, base + c.len(), base, end);
            lemma_one(OpCodeV::Ret, base, end);
            lemma_join(c, last, base, end);
        },
        StmtV::CompoundAssign { name, op, value } => {
            let v = cexpr(value, t, base + 1);
            let first = seq![load_op(t, name)];
            let rest = seq![bin_opcode(op), store_op(t, name)];
            assert(code =~= first + v + rest);
            lemma_split_room(first + v, rest, base);
            lemma_split_room(first, v, base);
            lemma_cexpr_placed(value, t, base + 1);
            lemma_widen(v, base + 1, base + 1 + v.len(), base, end);
            lemma_one(load_op(t, name), base, end);
            lemma_one(bin_opcode(op), base, end);
            lemma_one(store_op(t, name), base, end);
            lemma_join(seq![bin_opcode(op)], seq![store_op(t, name)], base, end);
            assert(seq![bin_opcode(op)] + seq![store_op(t, name)] =~= rest);
            lemma_join(first, v, base, end);
            lemma_join(first + v, rest, base, end);
        },
        StmtV::IndexAssign { obj, key, value } => {
            let o = cexpr(obj, t, base);
            let k = cexpr(key, t, base + o.len());
            let v = cexpr(value, t, base + o.len() + k.len());
            let last = seq![OpCodeV::IndexAssign(false)];
            assert(code =~= o + k + v + last);
            lemma_split_room(o + k + v, last, base);
            lemma_split_room(o + k, v, base);
            lemma_split_room(o, k, base);
            lemma_cexpr_placed(obj, t, base);
            lemma_cexpr_placed(key, t, base + o.len());
            lemma_cexpr_placed(value, t, base + o.len() + k.len());
            lemma_widen(o, base, base + o.len(), base, end);
            lemma_widen(k, base + o.len(), base + o.len() + k.len(), base, end);
            lemma_widen(v, base + o.len() + k.len(), base + o.len() + k.len() + v.len(), base, end);
            lemma_one(OpCodeV::IndexAssign(false), base, end);
            lemma_join(o, k, base, end);
            lemma_join(o + k, v, base, end);
            lemma_join(o + k + v, last, base, end);
        },
        StmtV::IndexCompoundAssign { obj, key, op, value } => {
            let o = cexpr(obj, t, base);
            let k = cexpr(key, t, base + o.len());
            let read = seq![OpCodeV::Dup(2), OpCodeV::Index];
            let v = cexpr(value, t, base + o.len() + k.len() + 2);
            let rest = seq![bin_opcode(op), OpCodeV::IndexAssign(false)];
            assert(code =~= o + k + read + v + rest);
            lemma_split_room(o + k + read + v, rest, base);
            lemma_split_room(o + k + read, v, base);
            lemma_split_room(o + k, read, base);
            lemma_split_room(o, k, base);
            lemma_cexpr_placed(obj, t, base);
            lemma_cexpr_placed(key, t, base + o.len());
            lemma_cexpr_placed(value, t, base + o.len() + k.len() + 2);
            lemma_widen(o, base, base + o.len(), base, end);
            lemma_widen(k, base + o.len(), base + o.len() + k.len(), base, end);
            lemma_widen(v, base + o.len() + k.len() + 2, base + o.len() + k.len() + 2 + v.len(), base, end);
            lemma_one(OpCodeV::Dup(2), base, end);
            lemma_one(OpCodeV::Index, base, end);
            lemma_join(seq![OpCodeV::Dup(2)], seq![OpCodeV::Index], base, end);
            assert(seq![OpCodeV::Dup(2)] + seq![OpCodeV::Index] =~= read);
            lemma_one(bin_opcode(op), base, end);
            lemma_one(OpCodeV::IndexAssign(false), base, end);
            lemma_join(seq![bin_opcode(op)], seq![OpCodeV::IndexAssign(false)], base, end);
            assert(seq![bin_opcode(op)] + seq![OpCodeV::IndexAssign(false)] =~= rest);
            lemma_join(o, k, base, end);
            lemma_join(o + k, read, base, end);
            lemma_join(o + k + read, v, base, end);
            lemma_join(o + k + read + v, rest, base, end);
        },
        StmtV::Block(stmts) => {
            let inner = t.push(declare_all(Seq::empty(), let_names(stmts)));
            let body = cstmts(stmts, inner, base + 1);
            let first = seq![OpCodeV::EnterScope];
            let last = seq![OpCodeV::ExitScope];
            lemma_split_room(first + body, last, base);
            lemma_split_room(first, body, base);
            lemma_cstmts_placed(stmts, inner, base + 1);
            lemma_widen(body, base + 1, base + 1 + body.len(), base, end);
            lemma_one(OpCodeV::EnterScope, base, end);
            lemma_one(OpCodeV::ExitScope, base, end);
            lemma_join(first, body, base, end);
            lemma_join(first + body, last, base, end);
        },
        StmtV::While { condition, block } => {
            let c = cexpr(condition, t, base);
            let b = cstmt(*block, t, base + c.len() + 1);
            let jmp = seq![OpCodeV::JmpIfNot(end as usize)];
            let back = seq![OpCodeV::Jmp(base as usize)];
            lemma_split_room(c + jmp + b, back, base);
            lemma_split_room(c + jmp, b, base);
            lemma_split_room(c, jmp, base);
            lemma_cexpr_placed(condition, t, base);
            lemma_cstmt_placed(*block, t, base + c.len() + 1);
            lemma_widen(c, base, base + c.len(), base, end);
            lemma_widen(b, base + c.len() + 1, base + c.len() + 1 + b.len(), base, end);
            lemma_one(OpCodeV::JmpIfNot(end as usize), base, end);
            lemma_one(OpCodeV::Jmp(base as usize), base, end);
            lemma_join(c, jmp, base, end);
            lemma_join(c + jmp, b, base, end);
            lemma_join(c + jmp + b, back, base, end);
        },
        StmtV::IfElse { condition, then_branch, else_branch } => {
            let c = cexpr(condition, t, base);
            let th = cstmt(*then_branch, t, base + c.len() + 1);
            let after_then = base + c.len() + 1 + th.len();
            let jmp = seq![OpCodeV::JmpIfNot(after_then as usize)];
            match else_branch {
                None => {
                    lemma_split_room(c + jmp, th, base);
                    lemma_split_room(c, jmp, base);
                    lemma_cexpr_placed(condition, t, base);
                    lemma_cstmt_placed(*then_branch, t, base + c.len() + 1);
                    lemma_widen(c, base, base + c.len(), base, end);
                    lemma_widen(th, base + c.len() + 1, after_then, base, end);
                    lemma_one(OpCodeV::JmpIfNot(after_then as usize), base, end);
                    lemma_join(c, jmp, base, end);
                    lemma_join(c + jmp, th, base, end);
                },
                Some(other) => {
                    let jmp = seq![OpCodeV::JmpIfNot((after_then + 1) as usize)];
                    let el = cstmt(*other, t, after_then + 1);
                    let leave = seq![OpCodeV::Jmp(end as usize)];
                    lemma_split_room(c + jmp + th + leave, el, base);
                    lemma_split_room(c + jmp + th, leave, base);
                    lemma_split_room(c + jmp, th, base);
                    lemma_split_room(c, jmp, base);
                    lemma_cexpr_placed(condition, t, base);
                    lemma_cstmt_placed(*then_branch, t, base + c.len() + 1);
                    lemma_cstmt_placed(*other, t, after_then + 1);
                    lemma_widen(c, base, base + c.len(), base, end);
                    lemma_widen(th, base + c.len() + 1, after_then, base, end);
                    lemma_widen(el, after_then + 1, end, base, end);
                    lemma_one(OpCodeV::JmpIfNot((after_then + 1) as usize), base, end);
                    lemma_one(OpCodeV::Jmp(end as usize), base, end);
                    lemma_join(c, jmp, base, end);
                    lemma_join(c + jmp, th, base, end);
                    lemma_join(c + jmp + th, leave, base, end);
                    lemma_join(c + jmp + th + leave, el, base, end);
                },
            }
        },
    }
}

proof fn lemma_cstmts_placed(ss: Seq<StmtV>, t: Seq<SymTableV>, base: int)
    requires
        room(cstmts(ss, t, base), base),
    ensures
        well_placed(cstmts(ss, t, base), base, base + cstmts(ss, t, base).len()),
    decreases ss,
{
    unfold_cstmts(ss, t, base);
    if ss.len() > 0 {
        let first = cstmt(ss[0], t, base);
        let rest = ss.subrange(1, ss.len() as int);
        let r = cstmts(rest, t, base + first.len());
        let end = base + first.len() + r.len();
        lemma_split_room(first, r, base);
        lemma_cstmt_placed(ss[0], t, base);
        lemma_cstmts_placed(rest, t, base + first.len());
        lemma_widen(first, base, base + first.len(), base, end);
        lemma_widen(r, base + first.len(), end, base, end);
        lemma_join(first, r, base, end);
    }
}

/// The compiler's code never jumps outside itself: every jump of a
/// compiled program lands inside the program's code (at most at its end,
/// where the run ends), and so does every jump of each function's code. (It
/// is stated of code small enough for a `Vec`, as all code the compiler
/// emits is.)
pub proof fn law_compiled_jumps_stay_inside(stmts: Seq<StmtV>)
    requires
        sizes_fit(cstmts(stmts, Seq::empty(), 0)),
    ensures
        jumps_inside(cstmts(stmts, Seq::empty(), 0)),
{
    lemma_cstmts_placed(stmts, Seq::empty(), 0);
    lemma_inside_from_placed(cstmts(stmts, Seq::empty(), 0));
}

/// Code held in a `Vec`, and the code of each function it makes, fits.
pub proof fn lemma_code_fits(v: Vec<OpCode>)
    ensures
        sizes_fit(ops_v(v@)),
    decreases v,
{
    lemma_ops_v_len(v@);
    assert(v@.len() == v.len());
    let code = ops_v(v@);
    assert forall|i: int| 0 <= i < code.len() implies (#[trigger] code[i] matches OpCodeV::PushFn(_, body) ==> sizes_fit(body)) by {
        lemma_ops_v_index(v@, i);
        unfold_op_v(v@[i]);
        match v@[i] {
            OpCode::PushFn(n, inner) => {
                assert(decreases_to!(v => v@));
                assert(decreases_to!(v@ => v@[i]));
                lemma_code_fits(inner);
            },
            _ => {},
        }
    }
}

/// The heap `h2` holds at least what `h1` holds: no table, array, function
/// or scope goes away; and if no table of `h1` holds a key twice, neither
/// does a table of `h2`.
pub open spec fn heap_grows(h1: HeapV, h2: HeapV) -> bool {
    &&& (tables_keys_unique(h1) ==> tables_keys_unique(h2))
    &&& h1.tables.len() <= h2.tables.len()
    &&& h1.arrays.len() <= h2.arrays.len()
    &&& h1.funcs.len() <= h2.funcs.len()
    &&& h1.envs.len() <= h2.envs.len()
}

proof fn lemma_builtin_keeps_heap(h: HeapV, b: Builtin, args: Seq<ValueV>)
    ensures
        heap_grows(h, builtin_call(h, b, args).0),
{
}

proof fn lemma_call_keeps_heap(m: MachineV, callee: ValueV, args: Seq<ValueV>, held: Option<usize>)
    ensures
        heap_grows(m.heap, call_value(m, callee, args, held).0.heap),
{
    reveal(call_value);
    match callee {
        ValueV::BuiltInFunc(b) => lemma_builtin_keeps_heap(m.heap, b, args),
        _ => {},
    }
}

proof fn lemma_binop_keeps_heap(m: MachineV, k: BinKind)
    ensures
        heap_grows(m.heap, binop(m, k).0.heap),
{
    reveal(binop);
    reveal(plain_binop);
    let n = m.stack.len();
    if n >= 2 {
        let a = m.stack[n - 2];
        let b = m.stack[n - 1];
        let m1 = MachineV { stack: m.stack.take(n - 2), ..m };
        match a {
            ValueV::Table(t) => {
                if t < m.heap.tables.len() {
                    match m.heap.tables[t as int].meta {
                        Some(meta) => {
                            match chain_get(m.heap, meta as int, ValueV::String(magic_name(k)), m.heap.tables.len()) {
                                Some(func) => lemma_call_keeps_heap(m1, func, seq![a, b], Some(t)),
                                None => {},
                            }
                        },
                        None => {},
                    }
                }
            },
            _ => {},
        }
    }
}

proof fn lemma_index_keeps_heap(m: MachineV, keep: bool)
    ensures
        heap_grows(m.heap, index_op(m).0.heap),
        heap_grows(m.heap, index_assign_op(m, keep).0.heap),
{
    reveal(index_op);
    reveal(index_assign_op);
    let n = m.stack.len();
    if n >= 3 && tables_keys_unique(m.heap) {
        match m.stack[n - 3] {
            ValueV::Table(t) => {
                if t < m.heap.tables.len() && !is_held(m, t) {
                    let old_t = m.heap.tables[t as int];
                    let k = m.stack[n - 2];
                    let v = m.stack[n - 1];
                    lemma_assoc_set_unique(old_t.data, k, v);
                    let h2 = index_assign_op(m, keep).0.heap;
                    assert forall|i: int| 0 <= i < h2.tables.len() implies keys_unique(#[trigger] h2.tables[i].data) by {
                        if i != t {
                            assert(h2.tables[i] == m.heap.tables[i]);
                        }
                    }
                }
            },
            _ => {},
        }
    }
}

proof fn lemma_variable_keeps_heap(m: MachineV, op: OpCodeV)
    ensures
        heap_grows(m.heap, variable_op(m, op).0.heap),
{
    reveal(variable_op);
}

proof fn lemma_stack_keeps_heap(m: MachineV, op: OpCodeV)
    ensures
        heap_grows(m.heap, stack_op(m, op).0.heap),
{
    reveal(stack_op);
}

proof fn lemma_object_keeps_heap(m: MachineV, op: OpCodeV)
    ensures
        heap_grows(m.heap, object_op(m, op).0.heap),
{
    reveal(object_op);
    let n = m.stack.len();
    match op {
        OpCodeV::Call(k) => {
            if k < n {
                lemma_call_keeps_heap(
                    MachineV { stack: m.stack.take(n - k - 1), ..m },
                    m.stack[n - k - 1],
                    m.stack.subrange(n - k, n as int),
                    None,
                );
            }
        },
        _ => {},
    }
}

proof fn lemma_op_keeps_heap(m: MachineV, op: OpCodeV)
    ensures
        heap_grows(m.heap, exec_op(m, op).0.heap),
{
    match op {
        OpCodeV::Add => lemma_binop_keeps_heap(m, BinKind::Arith(BinOp::Add)),
        OpCodeV::Sub => lemma_binop_keeps_heap(m, BinKind::Arith(BinOp::Sub)),
        OpCodeV::Mul => lemma_binop_keeps_heap(m, BinKind::Arith(BinOp::Mul)),
        OpCodeV::Div => lemma_binop_keeps_heap(m, BinKind::Arith(BinOp::Div)),
        OpCodeV::Eq => lemma_binop_keeps_heap(m, BinKind::Compare(CmpOp::Eq)),
        OpCodeV::NEq => lemma_binop_keeps_heap(m, BinKind::Compare(CmpOp::NEq)),
        OpCodeV::Gt => lemma_binop_keeps_heap(m, BinKind::Compare(CmpOp::Gt)),
        OpCodeV::Lt => lemma_binop_keeps_heap(m, BinKind::Compare(CmpOp::Lt)),
        OpCodeV::Gte => lemma_binop_keeps_heap(m, BinKind::Compare(CmpOp::Gte)),
        OpCodeV::Lte => lemma_binop_keeps_heap(m, BinKind::Compare(CmpOp::Lte)),
        OpCodeV::Concat => lemma_binop_keeps_heap(m, BinKind::Concat),
        OpCodeV::Index => lemma_index_keeps_heap(m, false),
        OpCodeV::IndexAssign(keep) => lemma_index_keeps_heap(m, keep),
        OpCodeV::Push(_) => {},
        _ => {
            lemma_variable_keeps_heap(m, op);
            lemma_stack_keeps_heap(m, op);
            lemma_object_keeps_heap(m, op);
        },
    }
}

/// A step never removes anything from the heap, so a reference that points
/// at a table, an array, a function or a scope keeps pointing at one; and a
/// step never makes a table hold a key twice.
pub proof fn law_step_keeps_heap(m: MachineV)
    ensures
        heap_grows(m.heap, step_spec(m).0.heap),
{
    if m.pending is None && m.frames.len() > 0 && m.to_throw is None {
        match frame_code(m) {
            Some(code) => {
                let ip = m.frames.last().ip;
                if ip < code.len() {
                    lemma_op_keeps_heap(set_ip(m, (ip + 1) as usize), code[ip as int]);
                }
            },
            None => {},
        }
    }
}

} // verus!
