//! What one step of the virtual machine does, stated over the machine's
//! mathematical state. `vm` implements it.

use vstd::prelude::*;
use crate::ast::{BinOp, CmpOp};
use crate::value::{ValueV, OpCodeV, Builtin};
use crate::heap::{HeapV, TableV, FuncV, assoc_get, assoc_set, chain_get, empty_table};
use crate::runtime::{ValueType, ExpectedParamCount, type_text, type_of_value, count_text};
use crate::builtin::{
    truthy, plain_text, repr_text, type_error_text, overflow_error_text, index_error_text,
    operator_error_text, param_error_text,
};
use crate::invoke::{OutcomeV, builtin_call, dangling_text};
use crate::text::nat_text;

verus! {

/// A computation on floating-point numbers that the machine hands to its
/// host: floats are kept as the text `Display` gives them.
pub enum FloatTaskV {
    /// The value of a literal, written as it was in the source.
    Literal(Seq<char>),
    /// An arithmetic operation; each operand is an integer or a float.
    Arith(BinOp, ValueV, ValueV),
    /// A comparison; each operand is an integer or a float.
    Compare(CmpOp, ValueV, ValueV),
    /// The negation of a float.
    Neg(Seq<char>),
}

/// What a step asks of the host.
pub enum ActionV {
    /// Nothing: step again.
    Continue,
    /// Print this line, then step again.
    Print(Seq<char>),
    /// Print this prompt, read a line, and answer it with `answer_input`.
    Input(Seq<char>),
    /// Compute this, and answer the value with `answer_value`.
    Float(FloatTaskV),
    /// Call the function registered under this number with these arguments,
    /// and answer with `answer_value` or `answer_error`.
    Native(usize, Seq<ValueV>),
    /// The run is over, with this result.
    Done(Option<ValueV>),
    /// The interpreter gives up here (an overflow, a division by zero, a
    /// broken invariant), with this message; the machine is not to be
    /// stepped again.
    Fault(Seq<char>),
}

/// A running piece of code: the top-level code or a function's, the index of
/// the next instruction, for a function the stack and the number of scopes
/// of its caller, and the table that stays borrowed while it runs (the left
/// operand of the operator whose metatable function it is), which no code
/// may write to until it returns.
pub struct FrameV {
    pub func: Option<usize>,
    pub ip: usize,
    pub saved: Seq<ValueV>,
    pub base: usize,
    pub held: Option<usize>,
}

/// The state of the machine.
pub struct MachineV {
    pub stack: Seq<ValueV>,
    pub code: Seq<OpCodeV>,
    pub globals: Seq<(Seq<char>, ValueV)>,
    /// The scopes in reach, innermost last, as indices into the heap's scopes.
    pub locals: Seq<usize>,
    pub heap: HeapV,
    /// The running code, innermost last; none when no run is under way.
    pub frames: Seq<FrameV>,
    /// The text of an error raised and not yet reported.
    pub to_throw: Option<Seq<char>>,
    pub array_proto: usize,
    pub string_proto: usize,
    /// What the machine waits for the host to answer.
    pub pending: Option<ActionV>,
    /// The result of the last run that ended.
    pub result: Option<ValueV>,
}

/// Whether table `t` is borrowed by a running metatable function.
pub open spec fn is_held(m: MachineV, t: usize) -> bool {
    exists|i: int| 0 <= i < m.frames.len() && #[trigger] m.frames[i].held == Some(t)
}

/// The message of the panic on writing to a table that is borrowed.
pub open spec fn borrow_text() -> Seq<char> {
    "already borrowed: BorrowMutError"@
}

/// The table a built-in writes to when it is called on `args`: the target
/// of the prototype and metatable setters (given two tables) and clearers
/// (given one).
pub open spec fn written_table(b: Builtin, args: Seq<ValueV>) -> Option<usize> {
    if (b == Builtin::SetPrototypeOf || b == Builtin::SetMetatableOf) && args.len() == 2 && args[1] is Table {
        match args[0] {
            ValueV::Table(t) => Some(t),
            _ => None,
        }
    } else if (b == Builtin::ClearPrototypeOf || b == Builtin::ClearMetatableOf) && args.len() == 1 {
        match args[0] {
            ValueV::Table(t) => Some(t),
            _ => None,
        }
    } else {
        None
    }
}

/// The message of a panic on a pop from an empty stack.
pub open spec fn underflow_text() -> Seq<char> {
    "stack underflow"@
}

/// The message of a panic on a scope level that no scope has.
pub open spec fn scope_text() -> Seq<char> {
    "no scope at this level"@
}

/// The message of a panic where a prototype chain leaves the heap or loops.
pub open spec fn chain_text() -> Seq<char> {
    "prototype chain leaves the heap or does not end"@
}

/// The code of the innermost frame.
pub open spec fn frame_code(m: MachineV) -> Option<Seq<OpCodeV>> {
    match m.frames.last().func {
        None => Some(m.code),
        Some(f) => if f < m.heap.funcs.len() {
            Some(m.heap.funcs[f as int].code)
        } else {
            None
        },
    }
}

/// The machine with the innermost frame's next instruction set.
pub open spec fn set_ip(m: MachineV, ip: usize) -> MachineV {
    MachineV { frames: m.frames.update(m.frames.len() - 1, FrameV { ip, ..m.frames.last() }), ..m }
}

/// A sequence without the elements past `n`.
pub open spec fn truncate<A>(s: Seq<A>, n: nat) -> Seq<A> {
    if n < s.len() {
        s.take(n as int)
    } else {
        s
    }
}

/// A result, or the empty value.
pub open spec fn or_nil(r: Option<ValueV>) -> ValueV {
    match r {
        Some(v) => v,
        None => ValueV::Nil,
    }
}

/// The innermost frame ends with result `r`. A function's caller gets its
/// stack and its scopes back, and the result (or `None`) pushed; when the
/// top-level code ends, the run is over.
pub open spec fn finish(m: MachineV, r: Option<ValueV>) -> MachineV {
    let f = m.frames.last();
    let rest = m.frames.drop_last();
    if rest.len() == 0 {
        MachineV { frames: rest, result: r, ..m }
    } else {
        MachineV { frames: rest, locals: truncate(m.locals, f.base as nat), stack: f.saved.push(or_nil(r)), ..m }
    }
}

/// The machine with a value pushed.
pub open spec fn push(m: MachineV, v: ValueV) -> MachineV {
    MachineV { stack: m.stack.push(v), ..m }
}

/// The machine with an error raised.
pub open spec fn throw(m: MachineV, msg: Seq<char>) -> MachineV {
    MachineV { to_throw: Some(msg), ..m }
}

/// The machine waiting for the host.
pub open spec fn ask(m: MachineV, a: ActionV) -> (MachineV, ActionV) {
    (MachineV { pending: Some(a), ..m }, a)
}

/// Function `f` starts on arguments `args`: its captured scopes and a new
/// scope holding the arguments come into reach, on an empty stack; `held`
/// is the table its caller keeps borrowed meanwhile.
pub open spec fn enter(m: MachineV, f: int, args: Seq<ValueV>, held: Option<usize>) -> MachineV {
    let func = m.heap.funcs[f];
    MachineV {
        locals: m.locals + func.env + seq![m.heap.envs.len() as usize],
        heap: HeapV { envs: m.heap.envs.push(args), ..m.heap },
        frames: m.frames.push(FrameV { func: Some(f as usize), ip: 0, saved: m.stack, base: m.locals.len() as usize, held }),
        stack: Seq::empty(),
        ..m
    }
}

/// Calling a value with arguments, while the caller keeps table `held`
/// borrowed (for a metatable function). A built-in that would write to a
/// borrowed table panics instead.
#[verifier::opaque]
pub open spec fn call_value(m: MachineV, callee: ValueV, args: Seq<ValueV>, held: Option<usize>) -> (MachineV, ActionV) {
    match callee {
        ValueV::BuiltInFunc(b) => if written_table(b, args) matches Some(t) && (is_held(m, t) || held == Some(t)) {
            (m, ActionV::Fault(borrow_text()))
        } else {
            let (h, o) = builtin_call(m.heap, b, args);
            let m1 = MachineV { heap: h, ..m };
            match o {
                OutcomeV::Return(v) => (push(m1, v), ActionV::Continue),
                OutcomeV::Raise(msg) => (throw(m1, msg), ActionV::Continue),
                OutcomeV::Print(line) => (push(m1, ValueV::Nil), ActionV::Print(line)),
                OutcomeV::Ask(prompt) => ask(m1, ActionV::Input(prompt)),
                OutcomeV::CallNative(id, a) => ask(m1, ActionV::Native(id, a)),
                OutcomeV::Fault(msg) => (m, ActionV::Fault(msg)),
            }
        },
        ValueV::Func(f) => if f >= m.heap.funcs.len() {
            (m, ActionV::Fault(dangling_text()))
        } else if m.heap.funcs[f as int].param_count != args.len() {
            (
                throw(m, param_error_text(count_text(ExpectedParamCount::Constant(m.heap.funcs[f as int].param_count)), args.len())),
                ActionV::Continue,
            )
        } else {
            (enter(m, f as int, args, held), ActionV::Continue)
        },
        _ => (
            throw(m, type_error_text("Function call"@, type_text(ValueType::Function), type_text(type_of_value(callee)))),
            ActionV::Continue,
        ),
    }
}

/// The kinds of two-operand instructions.
#[derive(Clone, Copy, PartialEq, Eq, Structural)]
pub enum BinKind {
    Arith(BinOp),
    Compare(CmpOp),
    Concat,
}

/// The name of the metatable entry that overloads an operator.
pub open spec fn magic_name(k: BinKind) -> Seq<char> {
    match k {
        BinKind::Arith(BinOp::Add) => "add"@,
        BinKind::Arith(BinOp::Sub) => "sub"@,
        BinKind::Arith(BinOp::Mul) => "mul"@,
        BinKind::Arith(BinOp::Div) => "div"@,
        BinKind::Compare(CmpOp::Eq) => "eq"@,
        BinKind::Compare(CmpOp::NEq) => "ne"@,
        BinKind::Compare(CmpOp::Gt) => "gt"@,
        BinKind::Compare(CmpOp::Lt) => "lt"@,
        BinKind::Compare(CmpOp::Gte) => "gte"@,
        BinKind::Compare(CmpOp::Lte) => "lte"@,
        BinKind::Concat => "concat"@,
    }
}

/// How an operator is written in errors.
pub open spec fn operator_symbol(k: BinKind) -> Seq<char> {
    match k {
        BinKind::Arith(BinOp::Add) => "+"@,
        BinKind::Arith(BinOp::Sub) => "-"@,
        BinKind::Arith(BinOp::Mul) => "*"@,
        BinKind::Arith(BinOp::Div) => "/"@,
        BinKind::Compare(CmpOp::Eq) => "=="@,
        BinKind::Compare(CmpOp::NEq) => "!="@,
        BinKind::Compare(CmpOp::Gt) => ">"@,
        BinKind::Compare(CmpOp::Lt) => "<"@,
        BinKind::Compare(CmpOp::Gte) => ">="@,
        BinKind::Compare(CmpOp::Lte) => "<="@,
        BinKind::Concat => "+"@,
    }
}

/// Integer arithmetic; `None` where it overflows or divides by zero.
pub open spec fn int_arith(op: BinOp, x: i64, y: i64) -> Option<i64> {
    match op {
        BinOp::Add => x.checked_add(y),
        BinOp::Sub => x.checked_sub(y),
        BinOp::Mul => x.checked_mul(y),
        BinOp::Div => x.checked_div(y),
    }
}

/// The message of the panic of an integer operation that has no result.
pub open spec fn arith_panic_text(op: BinOp, y: i64) -> Seq<char> {
    match op {
        BinOp::Add => "attempt to add with overflow"@,
        BinOp::Sub => "attempt to subtract with overflow"@,
        BinOp::Mul => "attempt to multiply with overflow"@,
        BinOp::Div => if y == 0 {
            "attempt to divide by zero"@
        } else {
            "attempt to divide with overflow"@
        },
    }
}

/// Integer comparison.
pub open spec fn int_compare(op: CmpOp, x: i64, y: i64) -> bool {
    match op {
        CmpOp::Eq => x == y,
        CmpOp::NEq => x != y,
        CmpOp::Gt => x > y,
        CmpOp::Lt => x < y,
        CmpOp::Gte => x >= y,
        CmpOp::Lte => x <= y,
    }
}

/// Whether a value is a number.
pub open spec fn is_number(v: ValueV) -> bool {
    v is Integer || v is Float
}

/// The type error of an operator on values it does not take.
pub open spec fn operand_error(expected_each: Seq<char>, a: ValueV, b: ValueV) -> Seq<char> {
    type_error_text(
        Seq::empty(),
        "("@ + expected_each + ", "@ + expected_each + ")"@,
        "("@ + type_text(type_of_value(a)) + ", "@ + type_text(type_of_value(b)) + ")"@,
    )
}

/// How the types the arithmetic and comparison operators take are shown.
pub open spec fn number_types() -> Seq<char> {
    "int"@ + " | "@ + "float"@
}

/// How the types that `..` joins are shown.
pub open spec fn joinable_types() -> Seq<char> {
    "int"@ + " | "@ + "float"@ + " | "@ + "string"@ + " | "@ + "bool"@ + " | "@ + "none"@
}

/// The types that `..` joins: numbers, strings, booleans and `None`.
pub open spec fn joinable(v: ValueV) -> bool {
    v is Integer || v is Float || v is String || v is Bool || v is Nil
}

/// A two-operand instruction on operands that are not a table (`m` has them
/// popped already).
#[verifier::opaque]
pub open spec fn plain_binop(m: MachineV, k: BinKind, a: ValueV, b: ValueV) -> (MachineV, ActionV) {
    match k {
        BinKind::Arith(op) => match (a, b) {
            (ValueV::Integer(x), ValueV::Integer(y)) => match int_arith(op, x, y) {
                Some(r) => (push(m, ValueV::Integer(r)), ActionV::Continue),
                None => (m, ActionV::Fault(arith_panic_text(op, y))),
            },
            _ => if is_number(a) && is_number(b) {
                ask(m, ActionV::Float(FloatTaskV::Arith(op, a, b)))
            } else {
                (throw(m, operand_error(number_types(), a, b)), ActionV::Continue)
            },
        },
        BinKind::Compare(op) => match (a, b) {
            (ValueV::Integer(x), ValueV::Integer(y)) => (push(m, ValueV::Bool(int_compare(op, x, y))), ActionV::Continue),
            _ => if is_number(a) && is_number(b) {
                ask(m, ActionV::Float(FloatTaskV::Compare(op, a, b)))
            } else {
                (throw(m, operand_error(number_types(), a, b)), ActionV::Continue)
            },
        },
        BinKind::Concat => if joinable(a) && joinable(b) {
            (push(m, ValueV::String(plain_text(a) + plain_text(b))), ActionV::Continue)
        } else {
            (throw(m, operand_error(joinable_types(), a, b)), ActionV::Continue)
        },
    }
}

/// A two-operand instruction. A table on the left is handed to the function
/// its metatable holds for the operator, if any.
#[verifier::opaque]
pub open spec fn binop(m: MachineV, k: BinKind) -> (MachineV, ActionV) {
    let n = m.stack.len();
    if n < 2 {
        (m, ActionV::Fault(underflow_text()))
    } else {
        let a = m.stack[n - 2];
        let b = m.stack[n - 1];
        let m1 = MachineV { stack: m.stack.take(n - 2), ..m };
        match a {
            ValueV::Table(t) => if t >= m.heap.tables.len() {
                (m, ActionV::Fault(dangling_text()))
            } else {
                match m.heap.tables[t as int].meta {
                    Some(meta) => match chain_get(m.heap, meta as int, ValueV::String(magic_name(k)), m.heap.tables.len()) {
                        None => (m, ActionV::Fault(chain_text())),
                        Some(func) => if func == ValueV::Nil {
                            (throw(m1, operator_error_text(operator_symbol(k), repr_text(m.heap, a))), ActionV::Continue)
                        } else if func is Func || func is BuiltInFunc {
                            call_value(m1, func, seq![a, b], Some(t))
                        } else {
                            (
                                throw(m1, type_error_text(
                                    "table.[[metatable]]."@ + magic_name(k),
                                    type_text(ValueType::Function),
                                    type_text(type_of_value(func)),
                                )),
                                ActionV::Continue,
                            )
                        },
                    },
                    None => (throw(m1, operator_error_text(operator_symbol(k), repr_text(m.heap, a))), ActionV::Continue),
                }
            },
            _ => plain_binop(m1, k, a, b),
        }
    }
}

/// The machine with the top of the stack popped.
pub open spec fn pop(m: MachineV) -> MachineV {
    MachineV { stack: m.stack.drop_last(), ..m }
}

/// The scope `lev` levels out (1 is the innermost), or the message of the
/// panic on a level no scope has.
pub open spec fn scope_at(m: MachineV, lev: usize) -> Result<usize, Seq<char>> {
    if lev == 0 || lev > m.locals.len() {
        Err(scope_text())
    } else if m.locals[m.locals.len() - lev] >= m.heap.envs.len() {
        Err(dangling_text())
    } else {
        Ok(m.locals[m.locals.len() - lev])
    }
}

/// A scope with slot `idx` set to `v`; a scope grows to hold it, with
/// `None` in the slots between.
pub open spec fn set_slot(s: Seq<ValueV>, idx: int, v: ValueV) -> Seq<ValueV> {
    if idx < s.len() {
        s.update(idx, v)
    } else {
        (s + Seq::new((idx - s.len()) as nat, |i: int| ValueV::Nil)).push(v)
    }
}

/// The message of the panic on reading an array at its length.
pub open spec fn bounds_panic_text(len: nat) -> Seq<char> {
    "index out of bounds: the len is "@ + nat_text(len) + " but the index is "@ + nat_text(len)
}

/// What a prototype table holds for a key, or `None` (the table's own
/// entries only).
pub open spec fn proto_get(m: MachineV, proto: usize, k: ValueV) -> Option<ValueV> {
    if proto < m.heap.tables.len() {
        Some(or_nil(assoc_get(m.heap.tables[proto as int].data, k)))
    } else {
        None
    }
}

/// Reading `container[key]`.
#[verifier::opaque]
pub open spec fn index_op(m: MachineV) -> (MachineV, ActionV) {
    let n = m.stack.len();
    if n < 2 {
        (m, ActionV::Fault(underflow_text()))
    } else {
        let a = m.stack[n - 2];
        let k = m.stack[n - 1];
        let m1 = MachineV { stack: m.stack.take(n - 2), ..m };
        match a {
            ValueV::Table(t) => match chain_get(m.heap, t as int, k, m.heap.tables.len()) {
                Some(v) => (push(m1, v), ActionV::Continue),
                None => (m, ActionV::Fault(chain_text())),
            },
            ValueV::Array(arr) => match k {
                ValueV::Integer(i) => if arr >= m.heap.arrays.len() {
                    (m, ActionV::Fault(dangling_text()))
                } else {
                    let items = m.heap.arrays[arr as int];
                    if i < 0 || i > usize::MAX {
                        (throw(m1, overflow_error_text("usize"@, "i64"@)), ActionV::Continue)
                    } else if i > items.len() {
                        (throw(m1, index_error_text(i as nat, items.len())), ActionV::Continue)
                    } else if i == items.len() {
                        (m, ActionV::Fault(bounds_panic_text(items.len())))
                    } else {
                        (push(m1, items[i as int]), ActionV::Continue)
                    }
                },
                _ => match proto_get(m, m.array_proto, k) {
                    Some(v) => (push(m1, v), ActionV::Continue),
                    None => (m, ActionV::Fault(dangling_text())),
                },
            },
            ValueV::String(_) => match proto_get(m, m.string_proto, k) {
                Some(v) => (push(m1, v), ActionV::Continue),
                None => (m, ActionV::Fault(dangling_text())),
            },
            _ => (
                throw(m1, type_error_text("Index"@, type_text(ValueType::Table), type_text(type_of_value(a)))),
                ActionV::Continue,
            ),
        }
    }
}

/// Writing `container[key] = value`; with `keep`, the container stays on the stack.
#[verifier::opaque]
pub open spec fn index_assign_op(m: MachineV, keep: bool) -> (MachineV, ActionV) {
    let n = m.stack.len();
    if n < 3 {
        (m, ActionV::Fault(underflow_text()))
    } else {
        let val = m.stack[n - 1];
        let k = m.stack[n - 2];
        let con = m.stack[n - 3];
        let m1 = MachineV { stack: if keep { m.stack.take(n - 2) } else { m.stack.take(n - 3) }, ..m };
        match con {
            ValueV::Table(t) => if t >= m.heap.tables.len() {
                (m, ActionV::Fault(dangling_text()))
            } else if is_held(m, t) {
                (m, ActionV::Fault(borrow_text()))
            } else {
                let old = m.heap.tables[t as int];
                (
                    MachineV {
                        heap: HeapV {
                            tables: m.heap.tables.update(t as int, TableV { data: assoc_set(old.data, k, val), ..old }),
                            ..m.heap
                        },
                        ..m1
                    },
                    ActionV::Continue,
                )
            },
            ValueV::Array(arr) => match k {
                ValueV::Integer(i) => if arr >= m.heap.arrays.len() {
                    (m, ActionV::Fault(dangling_text()))
                } else {
                    let items = m.heap.arrays[arr as int];
                    if i < 0 || i > usize::MAX {
                        (throw(m1, overflow_error_text("usize"@, "i64"@)), ActionV::Continue)
                    } else if i > items.len() {
                        (throw(m1, index_error_text(i as nat, items.len())), ActionV::Continue)
                    } else {
                        let new_items = if i == items.len() { items.push(val) } else { items.update(i as int, val) };
                        (
                            MachineV { heap: HeapV { arrays: m.heap.arrays.update(arr as int, new_items), ..m.heap }, ..m1 },
                            ActionV::Continue,
                        )
                    }
                },
                _ => (
                    throw(m1, type_error_text("Index"@, type_text(ValueType::Table), type_text(type_of_value(con)))),
                    ActionV::Continue,
                ),
            },
            _ => (
                throw(m1, type_error_text("Index"@, type_text(ValueType::Table), type_text(type_of_value(con)))),
                ActionV::Continue,
            ),
        }
    }
}

/// Instructions on scopes and variables.
#[verifier::opaque]
pub open spec fn variable_op(m: MachineV, op: OpCodeV) -> (MachineV, ActionV) {
    let n = m.stack.len();
    match op {
        OpCodeV::LoadGlobal(name) => (push(m, or_nil(assoc_get(m.globals, name))), ActionV::Continue),
        OpCodeV::StoreGlobal(name) => if n == 0 {
            (m, ActionV::Fault(underflow_text()))
        } else {
            (MachineV { globals: assoc_set(m.globals, name, m.stack.last()), ..pop(m) }, ActionV::Continue)
        },
        OpCodeV::LoadLocal(lev, idx) => match scope_at(m, lev) {
            Err(msg) => (m, ActionV::Fault(msg)),
            Ok(e) => {
                let slots = m.heap.envs[e as int];
                (push(m, if idx < slots.len() { slots[idx as int] } else { ValueV::Nil }), ActionV::Continue)
            },
        },
        OpCodeV::StoreLocal(lev, idx) => match scope_at(m, lev) {
            Err(msg) => (m, ActionV::Fault(msg)),
            Ok(e) => {
                let slots = m.heap.envs[e as int];
                if n == 0 {
                    (m, ActionV::Fault(underflow_text()))
                } else if idx >= slots.len() && idx == usize::MAX {
                    (m, ActionV::Fault("attempt to add with overflow"@))
                } else {
                    (
                        MachineV {
                            heap: HeapV {
                                envs: m.heap.envs.update(e as int, set_slot(slots, idx as int, m.stack.last())),
                                ..m.heap
                            },
                            ..pop(m)
                        },
                        ActionV::Continue,
                    )
                }
            },
        },
        OpCodeV::EnterScope => (
            MachineV {
                heap: HeapV { envs: m.heap.envs.push(Seq::empty()), ..m.heap },
                locals: m.locals.push(m.heap.envs.len() as usize),
                ..m
            },
            ActionV::Continue,
        ),
        _ => (
            MachineV { locals: if m.locals.len() > 0 { m.locals.drop_last() } else { m.locals }, ..m },
            ActionV::Continue,
        ),
    }
}

/// Instructions on the stack alone, and jumps.
#[verifier::opaque]
pub open spec fn stack_op(m: MachineV, op: OpCodeV) -> (MachineV, ActionV) {
    let n = m.stack.len();
    match op {
        OpCodeV::Neg => if n == 0 {
            (m, ActionV::Fault(underflow_text()))
        } else {
            match m.stack.last() {
                ValueV::Integer(x) => if x == i64::MIN {
                    (m, ActionV::Fault("attempt to negate with overflow"@))
                } else {
                    (push(pop(m), ValueV::Integer((-x) as i64)), ActionV::Continue)
                },
                ValueV::Float(t) => ask(pop(m), ActionV::Float(FloatTaskV::Neg(t))),
                v => (
                    throw(pop(m), type_error_text("Operator '-' "@, type_text(ValueType::Integer), type_text(type_of_value(v)))),
                    ActionV::Continue,
                ),
            }
        },
        OpCodeV::Not => if n == 0 {
            (m, ActionV::Fault(underflow_text()))
        } else {
            (push(pop(m), ValueV::Bool(!truthy(m.stack.last()))), ActionV::Continue)
        },
        OpCodeV::And(t) => if n == 0 {
            (m, ActionV::Fault(underflow_text()))
        } else if truthy(m.stack.last()) {
            (pop(m), ActionV::Continue)
        } else {
            (set_ip(m, t), ActionV::Continue)
        },
        OpCodeV::Or(t) => if n == 0 {
            (m, ActionV::Fault(underflow_text()))
        } else if truthy(m.stack.last()) {
            (set_ip(m, t), ActionV::Continue)
        } else {
            (pop(m), ActionV::Continue)
        },
        OpCodeV::Jmp(t) => (set_ip(m, t), ActionV::Continue),
        OpCodeV::JmpIfNot(t) => if n == 0 {
            (m, ActionV::Fault(underflow_text()))
        } else if !truthy(m.stack.last()) {
            (set_ip(pop(m), t), ActionV::Continue)
        } else {
            (pop(m), ActionV::Continue)
        },
        OpCodeV::JmpIf(t) => if n == 0 {
            (m, ActionV::Fault(underflow_text()))
        } else if truthy(m.stack.last()) {
            (set_ip(pop(m), t), ActionV::Continue)
        } else {
            (pop(m), ActionV::Continue)
        },
        OpCodeV::Dup(k) => if k > n {
            (m, ActionV::Fault(underflow_text()))
        } else {
            (MachineV { stack: m.stack + m.stack.subrange(n - k, n as int), ..m }, ActionV::Continue)
        },
        _ => if n < 2 {
            (m, ActionV::Fault(underflow_text()))
        } else {
            (
                MachineV { stack: m.stack.take(n - 2).push(m.stack[n - 1]).push(m.stack[n - 2]), ..m },
                ActionV::Continue,
            )
        },
    }
}

/// Instructions that make functions, arrays and tables, call, and return.
#[verifier::opaque]
pub open spec fn object_op(m: MachineV, op: OpCodeV) -> (MachineV, ActionV) {
    let n = m.stack.len();
    match op {
        OpCodeV::PushFn(k, code) => (
            push(
                MachineV {
                    heap: HeapV { funcs: m.heap.funcs.push(FuncV { param_count: k, code, env: m.locals }), ..m.heap },
                    ..m
                },
                ValueV::Func(m.heap.funcs.len() as usize),
            ),
            ActionV::Continue,
        ),
        OpCodeV::NewArray(k) => if k > n {
            (m, ActionV::Fault(underflow_text()))
        } else {
            (
                MachineV {
                    heap: HeapV { arrays: m.heap.arrays.push(m.stack.subrange(n - k, n as int)), ..m.heap },
                    stack: m.stack.take(n - k).push(ValueV::Array(m.heap.arrays.len() as usize)),
                    ..m
                },
                ActionV::Continue,
            )
        },
        OpCodeV::NewTable => (
            push(
                MachineV { heap: HeapV { tables: m.heap.tables.push(empty_table()), ..m.heap }, ..m },
                ValueV::Table(m.heap.tables.len() as usize),
            ),
            ActionV::Continue,
        ),
        OpCodeV::Call(k) => if k >= n {
            (m, ActionV::Fault(underflow_text()))
        } else {
            call_value(MachineV { stack: m.stack.take(n - k - 1), ..m }, m.stack[n - k - 1], m.stack.subrange(n - k, n as int), None)
        },
        _ => {
            let m1 = MachineV { locals: if m.locals.len() > 0 { m.locals.drop_last() } else { m.locals }, ..m };
            if n > 0 {
                (finish(pop(m1), Some(m.stack.last())), ActionV::Continue)
            } else {
                (finish(m1, None), ActionV::Continue)
            }
        },
    }
}

/// Executing one instruction (the frame's next instruction index already
/// points past it).
pub open spec fn exec_op(m: MachineV, op: OpCodeV) -> (MachineV, ActionV) {
    match op {
        OpCodeV::Push(v) => match v {
            ValueV::Float(t) => ask(m, ActionV::Float(FloatTaskV::Literal(t))),
            _ => (push(m, v), ActionV::Continue),
        },
        OpCodeV::Add => binop(m, BinKind::Arith(BinOp::Add)),
        OpCodeV::Sub => binop(m, BinKind::Arith(BinOp::Sub)),
        OpCodeV::Mul => binop(m, BinKind::Arith(BinOp::Mul)),
        OpCodeV::Div => binop(m, BinKind::Arith(BinOp::Div)),
        OpCodeV::Eq => binop(m, BinKind::Compare(CmpOp::Eq)),
        OpCodeV::NEq => binop(m, BinKind::Compare(CmpOp::NEq)),
        OpCodeV::Gt => binop(m, BinKind::Compare(CmpOp::Gt)),
        OpCodeV::Lt => binop(m, BinKind::Compare(CmpOp::Lt)),
        OpCodeV::Gte => binop(m, BinKind::Compare(CmpOp::Gte)),
        OpCodeV::Lte => binop(m, BinKind::Compare(CmpOp::Lte)),
        OpCodeV::Concat => binop(m, BinKind::Concat),
        OpCodeV::Index => index_op(m),
        OpCodeV::IndexAssign(keep) => index_assign_op(m, keep),
        OpCodeV::LoadGlobal(_) | OpCodeV::StoreGlobal(_) | OpCodeV::LoadLocal(..) | OpCodeV::StoreLocal(..)
        | OpCodeV::EnterScope | OpCodeV::ExitScope => variable_op(m, op),
        OpCodeV::PushFn(..) | OpCodeV::NewArray(_) | OpCodeV::NewTable | OpCodeV::Call(_) | OpCodeV::Ret => object_op(m, op),
        _ => stack_op(m, op),
    }
}

/// One step of the machine. While it waits for the host, it asks again.
/// With no run under way, it reports the last result. An error raised is
/// printed, and ends the innermost frame with no result. At the end of its
/// code a frame ends with the value on top of its stack. Otherwise the next
/// instruction runs.
pub open spec fn step_spec(m: MachineV) -> (MachineV, ActionV) {
    match m.pending {
        Some(a) => (m, a),
        None => if m.frames.len() == 0 {
            (m, ActionV::Done(m.result))
        } else {
            match m.to_throw {
                Some(msg) => (finish(MachineV { to_throw: None, ..m }, None), ActionV::Print("RuntimeError:\n  "@ + msg)),
                None => match frame_code(m) {
                    None => (m, ActionV::Fault(dangling_text())),
                    Some(code) => {
                        let ip = m.frames.last().ip;
                        if ip >= code.len() {
                            if m.stack.len() > 0 {
                                (finish(pop(m), Some(m.stack.last())), ActionV::Continue)
                            } else {
                                (finish(m, None), ActionV::Continue)
                            }
                        } else {
                            exec_op(set_ip(m, (ip + 1) as usize), code[ip as int])
                        }
                    },
                },
            }
        },
    }
}

/// The machine after the host answers a value to what it asked (a float
/// computation or a registered function): the value is pushed.
pub open spec fn answer_value_spec(m: MachineV, v: ValueV) -> MachineV {
    match m.pending {
        Some(ActionV::Float(_)) | Some(ActionV::Native(..)) => push(MachineV { pending: None, ..m }, v),
        _ => m,
    }
}

/// The machine after the host answers the line read for `input`.
pub open spec fn answer_input_spec(m: MachineV, line: Seq<char>) -> MachineV {
    match m.pending {
        Some(ActionV::Input(_)) => push(MachineV { pending: None, ..m }, ValueV::String(crate::builtin::input_text(line))),
        _ => m,
    }
}

/// The machine after a registered function raises an error with this text.
pub open spec fn answer_error_spec(m: MachineV, msg: Seq<char>) -> MachineV {
    match m.pending {
        Some(ActionV::Native(..)) => throw(MachineV { pending: None, ..m }, msg),
        _ => m,
    }
}

/// The entries of the table behind `String`: its methods.
pub open spec fn string_methods() -> Seq<(ValueV, ValueV)> {
    seq![
        (ValueV::String("len"@), ValueV::BuiltInFunc(Builtin::StringLen)),
        (ValueV::String("toInteger"@), ValueV::BuiltInFunc(Builtin::StringToInteger)),
        (ValueV::String("upper"@), ValueV::BuiltInFunc(Builtin::StringUpper)),
        (ValueV::String("lower"@), ValueV::BuiltInFunc(Builtin::StringLower)),
        (ValueV::String("from"@), ValueV::BuiltInFunc(Builtin::StringFrom)),
    ]
}

/// The entries of the table behind `Array`: its methods.
pub open spec fn array_methods() -> Seq<(ValueV, ValueV)> {
    seq![
        (ValueV::String("len"@), ValueV::BuiltInFunc(Builtin::ArrayLen)),
        (ValueV::String("push"@), ValueV::BuiltInFunc(Builtin::ArrayPush)),
        (ValueV::String("pop"@), ValueV::BuiltInFunc(Builtin::ArrayPop)),
        (ValueV::String("new"@), ValueV::BuiltInFunc(Builtin::ArrayNew)),
    ]
}

/// The globals a new machine starts with: the two method tables, then the
/// global built-ins.
pub open spec fn initial_globals() -> Seq<(Seq<char>, ValueV)> {
    seq![
        ("Array"@, ValueV::Table(0)),
        ("String"@, ValueV::Table(1)),
        ("println"@, ValueV::BuiltInFunc(Builtin::Println)),
        ("repr"@, ValueV::BuiltInFunc(Builtin::Repr)),
        ("input"@, ValueV::BuiltInFunc(Builtin::Input)),
        ("type"@, ValueV::BuiltInFunc(Builtin::Type)),
        ("Table"@, ValueV::BuiltInFunc(Builtin::Table)),
        ("getMetatableOf"@, ValueV::BuiltInFunc(Builtin::GetMetatableOf)),
        ("setMetatableOf"@, ValueV::BuiltInFunc(Builtin::SetMetatableOf)),
        ("clearMetatableOf"@, ValueV::BuiltInFunc(Builtin::ClearMetatableOf)),
        ("getPrototypeOf"@, ValueV::BuiltInFunc(Builtin::GetPrototypeOf)),
        ("setPrototypeOf"@, ValueV::BuiltInFunc(Builtin::SetPrototypeOf)),
        ("clearPrototypeOf"@, ValueV::BuiltInFunc(Builtin::ClearPrototypeOf)),
    ]
}

/// A new machine for top-level code `code`: no run under way, the method
/// tables of arrays (table 0) and strings (table 1) in the heap.
pub open spec fn initial_machine(code: Seq<OpCodeV>) -> MachineV {
    MachineV {
        stack: Seq::empty(),
        code,
        globals: initial_globals(),
        locals: Seq::empty(),
        heap: HeapV {
            tables: seq![
                TableV { data: array_methods(), meta: None, prototype: None },
                TableV { data: string_methods(), meta: None, prototype: None },
            ],
            arrays: Seq::empty(),
            funcs: Seq::empty(),
            envs: Seq::empty(),
        },
        frames: Seq::empty(),
        to_throw: None,
        array_proto: 0,
        string_proto: 1,
        pending: None,
        result: None,
    }
}

/// Steps the machine until it needs its host for something other than
/// printing, at most `fuel` times: the machine then, the lines printed on
/// the way, and the action that stopped it (`Continue` when the fuel ran
/// out).
pub open spec fn run_spec(m: MachineV, fuel: nat) -> (MachineV, Seq<Seq<char>>, ActionV)
    decreases fuel,
{
    if fuel == 0 {
        (m, Seq::empty(), ActionV::Continue)
    } else {
        let (m1, a) = step_spec(m);
        match a {
            ActionV::Continue => run_spec(m1, (fuel - 1) as nat),
            ActionV::Print(line) => {
                let r = run_spec(m1, (fuel - 1) as nat);
                (r.0, seq![line] + r.1, r.2)
            },
            _ => (m1, Seq::empty(), a),
        }
    }
}

} // verus!
