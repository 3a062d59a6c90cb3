//! The stack virtual machine. It runs as a state machine: each `step` runs
//! one instruction and says what it needs from its host (a line printed, a
//! line read, a float computed, a registered function called), and the host
//! answers before stepping again.

use vstd::prelude::*;
use crate::ast::{BinOp, CmpOp};
use crate::value::{
    Value,
    ValueV,
    Builtin,
    OpCode,
    op_v,
    ops_v,
    clone_ops,
    unfold_op_v,
    lemma_ops_v_len,
    lemma_ops_v_index,
};
use crate::heap::{
    Heap,
    HeapV,
    TableData,
    TableV,
    Func,
    FuncV,
    vals_v,
    pairs_v,
    assoc_set,
    index,
    entry_get,
    entry_set,
};
use crate::runtime::{RuntimeError, ExpectedParamCount, ValueType, type_text, type_of_value, value_type, unfold_type_text};
use crate::builtin::{
    plain_text,
    append_plain,
    repr,
    error_message,
    error_text,
    trim_line,
};
use crate::invoke::{Outcome, call_builtin, builtin_call, dangling_text};
use crate::machine::{
    run_spec,
    initial_machine,
    initial_globals,
    string_methods,
    array_methods,
    ActionV,
    BinKind,
    FloatTaskV,
    FrameV,
    is_held,
    borrow_text,
    written_table,
    MachineV,
    answer_error_spec,
    answer_input_spec,
    answer_value_spec,
    arith_panic_text,
    ask,
    binop,
    bounds_panic_text,
    call_value,
    enter,
    exec_op,
    finish,
    frame_code,
    index_assign_op,
    index_op,
    int_arith,
    int_compare,
    is_number,
    joinable,
    joinable_types,
    magic_name,
    number_types,
    object_op,
    operand_error,
    operator_symbol,
    plain_binop,
    pop,
    proto_get,
    push,
    scope_at,
    set_ip,
    set_slot,
    stack_op,
    step_spec,
    throw,
    truncate,
    underflow_text,
    variable_op,
};
use crate::text::{usize_chars, append, append_text, string_of};

verus! {

/// A computation on floats that the machine hands to its host (see `FloatTaskV`).
#[derive(Debug, Clone, PartialEq)]
pub enum FloatTask {
    Literal(String),
    Arith(BinOp, Value, Value),
    Compare(CmpOp, Value, Value),
    Neg(String),
}

impl View for FloatTask {
    type V = FloatTaskV;

    open spec fn view(&self) -> FloatTaskV {
        match self {
            FloatTask::Literal(t) => FloatTaskV::Literal(t@),
            FloatTask::Arith(op, a, b) => FloatTaskV::Arith(*op, a@, b@),
            FloatTask::Compare(op, a, b) => FloatTaskV::Compare(*op, a@, b@),
            FloatTask::Neg(t) => FloatTaskV::Neg(t@),
        }
    }
}

/// What a step asks of the host (see `ActionV`).
#[derive(Debug, Clone, PartialEq)]
pub enum Action {
    Continue,
    Print(String),
    Input(String),
    Float(FloatTask),
    Native(usize, Vec<Value>),
    Done(Option<Value>),
    Fault(String),
}

/// The values of an optional value.
pub open spec fn opt_v(v: Option<Value>) -> Option<ValueV> {
    match v {
        Some(x) => Some(x@),
        None => None,
    }
}

impl View for Action {
    type V = ActionV;

    open spec fn view(&self) -> ActionV {
        match self {
            Action::Continue => ActionV::Continue,
            Action::Print(s) => ActionV::Print(s@),
            Action::Input(s) => ActionV::Input(s@),
            Action::Float(t) => ActionV::Float(t@),
            Action::Native(n, args) => ActionV::Native(*n, vals_v(args@)),
            Action::Done(r) => ActionV::Done(opt_v(*r)),
            Action::Fault(s) => ActionV::Fault(s@),
        }
    }
}

/// A copy of a sequence of values.
pub fn clone_values(vs: &Vec<Value>) -> (r: Vec<Value>)
    ensures
        vals_v(r@) == vals_v(vs@),
{
    let mut r: Vec<Value> = Vec::new();
    let mut i: usize = 0;
    while i < vs.len()
        invariant
            i <= vs.len(),
            r@.len() == i,
            forall|j: int| 0 <= j < i ==> (#[trigger] r@[j])@ == vs@[j]@,
        decreases vs.len() - i,
    {
        let d = vs[i].duplicate();
        r.push(d);
        i = i + 1;
    }
    proof {
        assert(vals_v(r@) =~= vals_v(vs@));
    }
    r
}

fn opt_duplicate(v: &Option<Value>) -> (r: Option<Value>)
    ensures
        opt_v(r) == opt_v(*v),
{
    match v {
        Some(x) => Some(x.duplicate()),
        None => None,
    }
}

impl FloatTask {
    pub fn duplicate(&self) -> (r: FloatTask)
        ensures
            r@ == self@,
    {
        match self {
            FloatTask::Literal(t) => FloatTask::Literal(t.clone()),
            FloatTask::Arith(op, a, b) => FloatTask::Arith(*op, a.duplicate(), b.duplicate()),
            FloatTask::Compare(op, a, b) => FloatTask::Compare(*op, a.duplicate(), b.duplicate()),
            FloatTask::Neg(t) => FloatTask::Neg(t.clone()),
        }
    }
}

impl Action {
    pub fn duplicate(&self) -> (r: Action)
        ensures
            r@ == self@,
    {
        match self {
            Action::Continue => Action::Continue,
            Action::Print(s) => Action::Print(s.clone()),
            Action::Input(s) => Action::Input(s.clone()),
            Action::Float(t) => Action::Float(t.duplicate()),
            Action::Native(n, args) => Action::Native(*n, clone_values(args)),
            Action::Done(r) => Action::Done(opt_duplicate(r)),
            Action::Fault(s) => Action::Fault(s.clone()),
        }
    }
}

/// A running piece of code (see `FrameV`).
pub struct Frame {
    func: Option<usize>,
    ip: usize,
    saved: Vec<Value>,
    base: usize,
    held: Option<usize>,
}

impl View for Frame {
    type V = FrameV;

    closed spec fn view(&self) -> FrameV {
        FrameV { func: self.func, ip: self.ip, saved: vals_v(self.saved@), base: self.base, held: self.held }
    }
}

/// The virtual machine.
pub struct VM {
    stack: Vec<Value>,
    code: Vec<OpCode>,
    globals: Vec<(String, Value)>,
    locals: Vec<usize>,
    heap: Heap,
    frames: Vec<Frame>,
    to_throw: Option<String>,
    array_prototype: usize,
    string_prototype: usize,
    pending: Option<Action>,
    result: Option<Value>,
}

/// The value of the global variables.
pub open spec fn globals_v(g: Seq<(String, Value)>) -> Seq<(Seq<char>, ValueV)> {
    g.map_values(|e: (String, Value)| (e.0@, e.1@))
}

impl View for VM {
    type V = MachineV;

    closed spec fn view(&self) -> MachineV {
        MachineV {
            stack: vals_v(self.stack@),
            code: ops_v(self.code@),
            globals: globals_v(self.globals@),
            locals: self.locals@,
            heap: self.heap@,
            frames: self.frames@.map_values(|f: Frame| f@),
            to_throw: match self.to_throw {
                Some(s) => Some(s@),
                None => None,
            },
            array_proto: self.array_prototype,
            string_proto: self.string_prototype,
            pending: match self.pending {
                Some(a) => Some(a@),
                None => None,
            },
            result: opt_v(self.result),
        }
    }
}

/// A built-in's call that panics leaves the heap as it was.
proof fn lemma_builtin_fault_keeps_heap(h: HeapV, b: Builtin, args: Seq<ValueV>)
    ensures
        builtin_call(h, b, args).1 is Fault ==> builtin_call(h, b, args).0 == h,
{
}

/// The text of a type error naming `thrower`.
fn type_error_msg(heap: &Heap, thrower: String, expected: ValueType, v: &Value) -> (r: String)
    ensures
        r@ == crate::builtin::type_error_text(thrower@, type_text(expected), type_text(type_of_value(v@))),
{
    let found = value_type(v);
    error_message(heap, &RuntimeError::TypeError { expected, found, thrower: Some(thrower) })
}

/// The text of the type error of an operator on operands it does not take:
/// numbers (`joinable` false) or what `..` joins (`joinable` true).
fn operand_error_msg(heap: &Heap, joinable: bool, a: &Value, b: &Value) -> (r: String)
    ensures
        r@ == operand_error(if joinable { joinable_types() } else { number_types() }, a@, b@),
{
    let (e1, e2) = if joinable {
        (crate::runtime::joinable_type(), crate::runtime::joinable_type())
    } else {
        (crate::runtime::number_type(), crate::runtime::number_type())
    };
    let ghost each = type_text(e1);
    let expected = ValueType::Two(Box::new(e1), Box::new(e2));
    let found = ValueType::Two(Box::new(value_type(a)), Box::new(value_type(b)));
    proof {
        unfold_type_text(expected);
        unfold_type_text(found);
    }
    error_message(heap, &RuntimeError::TypeError { expected, found, thrower: None })
}

impl VM {
    fn push_value(&mut self, v: Value)
        ensures
            final(self)@ == push(old(self)@, v@),
    {
        let ghost vv = v@;
        self.stack.push(v);
        proof {
            assert(vals_v(self.stack@) =~= vals_v(old(self).stack@).push(vv));
        }
    }

    fn pop_value(&mut self) -> (v: Value)
        requires
            old(self)@.stack.len() > 0,
        ensures
            final(self)@ == pop(old(self)@),
            v@ == old(self)@.stack.last(),
    {
        let v = self.stack.pop().unwrap();
        proof {
            assert(vals_v(self.stack@) =~= vals_v(old(self).stack@).drop_last());
        }
        v
    }

    fn throw_msg(&mut self, msg: String)
        ensures
            final(self)@ == throw(old(self)@, msg@),
    {
        self.to_throw = Some(msg);
    }

    fn ask_host(&mut self, a: Action) -> (r: Action)
        ensures
            (final(self)@, r@) == ask(old(self)@, a@),
    {
        self.pending = Some(a.duplicate());
        a
    }

    fn set_next(&mut self, ip: usize)
        requires
            old(self)@.frames.len() > 0,
        ensures
            final(self)@ == set_ip(old(self)@, ip),
    {
        let k = self.frames.len() - 1;
        self.frames[k].ip = ip;
        proof {
            assert(self.frames@.map_values(|f: Frame| f@) =~= old(self)@.frames.update(
                old(self)@.frames.len() - 1,
                FrameV { ip, ..old(self)@.frames.last() },
            ));
        }
    }

    fn finish_frame(&mut self, r: Option<Value>)
        requires
            old(self)@.frames.len() > 0,
        ensures
            final(self)@ == finish(old(self)@, opt_v(r)),
    {
        let f = self.frames.pop().unwrap();
        proof {
            assert(self.frames@.map_values(|f: Frame| f@) =~= old(self)@.frames.drop_last());
            assert(f@ == old(self)@.frames.last());
        }
        if self.frames.len() == 0 {
            self.result = r;
        } else {
            self.locals.truncate(f.base);
            proof {
                assert(self.locals@ =~= truncate(old(self).locals@, f.base as nat));
            }
            let mut saved = f.saved;
            let v = match r {
                Some(v) => v,
                None => Value::Nil,
            };
            let ghost vv = v@;
            saved.push(v);
            self.stack = saved;
            proof {
                assert(vals_v(self.stack@) =~= vals_v(f.saved@).push(vv));
            }
        }
    }

    /// Whether table `t` is borrowed by a running metatable function (see `is_held`).
    fn table_is_held(&self, t: usize) -> (r: bool)
        ensures
            r == is_held(self@, t),
    {
        let mut i: usize = 0;
        while i < self.frames.len()
            invariant
                i <= self.frames.len(),
                forall|j: int| 0 <= j < i ==> self.frames@[j]@.held != Some(t),
            decreases self.frames.len() - i,
        {
            let h = match self.frames[i].held {
                Some(x) => x == t,
                None => false,
            };
            if h {
                proof {
                    assert(self@.frames[i as int] == self.frames@[i as int]@);
                }
                return true;
            }
            i = i + 1;
        }
        proof {
            assert forall|j: int| 0 <= j < self@.frames.len() implies self@.frames[j].held != Some(t) by {
                assert(self@.frames[j] == self.frames@[j]@);
            }
        }
        false
    }

    /// Function `f` starts on `args` (see `enter`).
    fn enter_func(&mut self, f: usize, args: Vec<Value>, held: Option<usize>)
        requires
            f < old(self)@.heap.funcs.len(),
        ensures
            final(self)@ == enter(old(self)@, f as int, vals_v(args@), held),
    {
        let ghost m0 = self@;
        let ghost func = self@.heap.funcs[f as int];
        let base = self.locals.len();
        let env_idx = self.heap.envs.len();
        let ghost av = vals_v(args@);
        self.heap.envs.push(args);
        proof {
            assert(self.heap@.envs =~= m0.heap.envs.push(av));
            assert(self.heap@.funcs == m0.heap.funcs);
            assert(func.env == self.heap.funcs@[f as int].env@);
        }
        let ghost m1 = self@;
        let n = self.heap.funcs[f].env.len();
        let mut i: usize = 0;
        while i < n
            invariant
                i <= n,
                f < self.heap.funcs@.len(),
                n == func.env.len(),
                func.env == self.heap.funcs@[f as int].env@,
                self@ == (MachineV { locals: m1.locals + func.env.take(i as int), ..m1 }),
            decreases n - i,
        {
            let e = self.heap.funcs[f].env[i];
            self.locals.push(e);
            i = i + 1;
            proof {
                assert(self.locals@ =~= m1.locals + func.env.take(i as int));
            }
        }
        self.locals.push(env_idx);
        let mut saved: Vec<Value> = Vec::new();
        std::mem::swap(&mut saved, &mut self.stack);
        let ghost fr = Frame { func: Some(f), ip: 0, saved, base, held };
        self.frames.push(Frame { func: Some(f), ip: 0, saved, base, held });
        proof {
            assert(func.env.take(n as int) =~= func.env);
            assert(self.locals@ =~= m0.locals + func.env + seq![env_idx]);
            assert(vals_v(self.stack@) =~= Seq::<ValueV>::empty());
            assert(self.frames@.map_values(|f: Frame| f@) =~= m0.frames.push(
                FrameV { func: Some(f), ip: 0, saved: m0.stack, base: m0.locals.len() as usize, held },
            ));
        }
    }

    /// Calls a value while the caller keeps table `held` borrowed (see `call_value`).
    fn call(&mut self, callee: Value, args: Vec<Value>, held: Option<usize>) -> (r: Action)
        ensures
            (final(self)@, r@) == call_value(old(self)@, callee@, vals_v(args@), held),
    {
        proof {
            reveal(call_value);
        }
        match callee {
            Value::BuiltInFunc(b) => {
                match written_table_exec(b, &args) {
                    Some(t) => {
                        let same = match held {
                            Some(x) => x == t,
                            None => false,
                        };
                        if same || self.table_is_held(t) {
                            return borrow_fault();
                        }
                    },
                    None => {},
                }
                proof {
                    lemma_builtin_fault_keeps_heap(self@.heap, b, vals_v(args@));
                }
                let o = call_builtin(&mut self.heap, b, args);
                match o {
                    Outcome::Return(v) => {
                        self.push_value(v);
                        Action::Continue
                    },
                    Outcome::Raise(msg) => {
                        self.throw_msg(msg);
                        Action::Continue
                    },
                    Outcome::Print(line) => {
                        self.push_value(Value::Nil);
                        Action::Print(line)
                    },
                    Outcome::Ask(prompt) => self.ask_host(Action::Input(prompt)),
                    Outcome::CallNative(id, a) => self.ask_host(Action::Native(id, a)),
                    Outcome::Fault(msg) => Action::Fault(msg),
                }
            },
            Value::Func(f) => {
                if f >= self.heap.funcs.len() {
                    return Action::Fault("reference to nothing in the heap".to_owned());
                }
                let pc = self.heap.funcs[f].param_count;
                proof {
                    assert(self@.heap.funcs[f as int].param_count == pc);
                }
                if pc != args.len() {
                    let e = RuntimeError::ParamError { expected: ExpectedParamCount::Constant(pc), found: args.len() };
                    let msg = error_message(&self.heap, &e);
                    self.throw_msg(msg);
                    Action::Continue
                } else {
                    self.enter_func(f, args, held);
                    Action::Continue
                }
            },
            _ => {
                let msg = type_error_msg(&self.heap, "Function call".to_owned(), ValueType::Function, &callee);
                self.throw_msg(msg);
                Action::Continue
            },
        }
    }
}

fn magic_string(k: BinKind) -> (r: String)
    ensures
        r@ == magic_name(k),
{
    let s = match k {
        BinKind::Arith(BinOp::Add) => "add",
        BinKind::Arith(BinOp::Sub) => "sub",
        BinKind::Arith(BinOp::Mul) => "mul",
        BinKind::Arith(BinOp::Div) => "div",
        BinKind::Compare(CmpOp::Eq) => "eq",
        BinKind::Compare(CmpOp::NEq) => "ne",
        BinKind::Compare(CmpOp::Gt) => "gt",
        BinKind::Compare(CmpOp::Lt) => "lt",
        BinKind::Compare(CmpOp::Gte) => "gte",
        BinKind::Compare(CmpOp::Lte) => "lte",
        BinKind::Concat => "concat",
    };
    s.to_owned()
}

fn symbol_string(k: BinKind) -> (r: String)
    ensures
        r@ == operator_symbol(k),
{
    let s = match k {
        BinKind::Arith(BinOp::Add) => "+",
        BinKind::Arith(BinOp::Sub) => "-",
        BinKind::Arith(BinOp::Mul) => "*",
        BinKind::Arith(BinOp::Div) => "/",
        BinKind::Compare(CmpOp::Eq) => "==",
        BinKind::Compare(CmpOp::NEq) => "!=",
        BinKind::Compare(CmpOp::Gt) => ">",
        BinKind::Compare(CmpOp::Lt) => "<",
        BinKind::Compare(CmpOp::Gte) => ">=",
        BinKind::Compare(CmpOp::Lte) => "<=",
        BinKind::Concat => "+",
    };
    s.to_owned()
}

fn arith_panic_string(op: BinOp, y: i64) -> (r: String)
    ensures
        r@ == arith_panic_text(op, y),
{
    let s = match op {
        BinOp::Add => "attempt to add with overflow",
        BinOp::Sub => "attempt to subtract with overflow",
        BinOp::Mul => "attempt to multiply with overflow",
        BinOp::Div => if y == 0 {
            "attempt to divide by zero"
        } else {
            "attempt to divide with overflow"
        },
    };
    s.to_owned()
}

fn int_arith_exec(op: BinOp, x: i64, y: i64) -> (r: Option<i64>)
    ensures
        r == int_arith(op, x, y),
{
    match op {
        BinOp::Add => x.checked_add(y),
        BinOp::Sub => x.checked_sub(y),
        BinOp::Mul => x.checked_mul(y),
        BinOp::Div => x.checked_div(y),
    }
}

fn int_compare_exec(op: CmpOp, x: i64, y: i64) -> (r: bool)
    ensures
        r == int_compare(op, x, y),
{
    match op {
        CmpOp::Eq => x == y,
        CmpOp::NEq => x != y,
        CmpOp::Gt => x > y,
        CmpOp::Lt => x < y,
        CmpOp::Gte => x >= y,
        CmpOp::Lte => x <= y,
    }
}

fn is_number_exec(v: &Value) -> (r: bool)
    ensures
        r == is_number(v@),
{
    match v {
        Value::Integer(_) | Value::Float(_) => true,
        _ => false,
    }
}

fn joinable_exec(v: &Value) -> (r: bool)
    ensures
        r == joinable(v@),
{
    match v {
        Value::Integer(_) | Value::Float(_) | Value::String(_) | Value::Bool(_) | Value::Nil => true,
        _ => false,
    }
}

fn dangling_fault() -> (r: Action)
    ensures
        r@ == ActionV::Fault(dangling_text()),
{
    Action::Fault("reference to nothing in the heap".to_owned())
}

fn borrow_fault() -> (r: Action)
    ensures
        r@ == ActionV::Fault(borrow_text()),
{
    Action::Fault("already borrowed: BorrowMutError".to_owned())
}

/// The table a built-in writes to on these arguments (see `written_table`).
fn written_table_exec(b: Builtin, args: &Vec<Value>) -> (r: Option<usize>)
    ensures
        r == written_table(b, vals_v(args@)),
{
    let setter = match b {
        Builtin::SetPrototypeOf | Builtin::SetMetatableOf => true,
        _ => false,
    };
    let clearer = match b {
        Builtin::ClearPrototypeOf | Builtin::ClearMetatableOf => true,
        _ => false,
    };
    proof {
        assert(vals_v(args@).len() == args@.len());
        if args@.len() > 0 {
            assert(vals_v(args@)[0] == args@[0]@);
        }
        if args@.len() > 1 {
            assert(vals_v(args@)[1] == args@[1]@);
        }
    }
    if setter && args.len() == 2 {
        match (&args[0], &args[1]) {
            (Value::Table(t), Value::Table(_)) => Some(*t),
            _ => None,
        }
    } else if clearer && args.len() == 1 {
        match &args[0] {
            Value::Table(t) => Some(*t),
            _ => None,
        }
    } else {
        None
    }
}

fn underflow_fault() -> (r: Action)
    ensures
        r@ == ActionV::Fault(underflow_text()),
{
    Action::Fault("stack underflow".to_owned())
}

/// Sets slot `idx` of scope `e` (see `set_slot`).
fn store_slot(envs: &mut Vec<Vec<Value>>, e: usize, idx: usize, v: Value)
    requires
        e < old(envs)@.len(),
        !(idx >= old(envs)@[e as int]@.len() && idx == usize::MAX),
    ensures
        final(envs)@.map_values(|s: Vec<Value>| vals_v(s@)) == old(envs)@.map_values(|s: Vec<Value>| vals_v(s@)).update(
            e as int,
            set_slot(vals_v(old(envs)@[e as int]@), idx as int, v@),
        ),
{
    let ghost old_slots = vals_v(envs@[e as int]@);
    let ghost vv = v@;
    let mut slots: Vec<Value> = Vec::new();
    std::mem::swap(&mut slots, &mut envs[e]);
    let ghost mid = envs@;
    proof {
        assert(vals_v(slots@) == old_slots);
    }
    if idx < slots.len() {
        slots.set(idx, v);
        proof {
            assert(vals_v(slots@) =~= set_slot(old_slots, idx as int, vv));
        }
    } else {
        let start = slots.len();
        while slots.len() < idx
            invariant
                start == old_slots.len(),
                start <= slots@.len() <= idx,
                vals_v(slots@) =~= old_slots + Seq::new((slots@.len() - start) as nat, |i: int| ValueV::Nil),
            decreases idx - slots@.len(),
        {
            let ghost before = vals_v(slots@);
            slots.push(Value::Nil);
            proof {
                assert(vals_v(slots@) =~= before.push(ValueV::Nil));
                assert(old_slots + Seq::new((slots@.len() - start) as nat, |i: int| ValueV::Nil) =~= before.push(ValueV::Nil));
            }
        }
        slots.push(v);
        proof {
            assert(vals_v(slots@) =~= set_slot(old_slots, idx as int, vv));
        }
    }
    std::mem::swap(&mut slots, &mut envs[e]);
    proof {
        assert(envs@.map_values(|s: Vec<Value>| vals_v(s@)) =~= old(envs)@.map_values(|s: Vec<Value>| vals_v(s@)).update(
            e as int,
            set_slot(old_slots, idx as int, vv),
        ));
    }
}

impl VM {
    /// A two-operand instruction on operands that are not a table (see `plain_binop`).
    fn plain_binop_exec(&mut self, k: BinKind, a: Value, b: Value) -> (r: Action)
        ensures
            (final(self)@, r@) == plain_binop(old(self)@, k, a@, b@),
    {
        proof {
            reveal(plain_binop);
        }
        match k {
            BinKind::Arith(op) => {
                match (&a, &b) {
                    (Value::Integer(x), Value::Integer(y)) => {
                        match int_arith_exec(op, *x, *y) {
                            Some(r) => {
                                self.push_value(Value::Integer(r));
                                return Action::Continue;
                            },
                            None => {
                                return Action::Fault(arith_panic_string(op, *y));
                            },
                        }
                    },
                    _ => {},
                }
                if is_number_exec(&a) && is_number_exec(&b) {
                    self.ask_host(Action::Float(FloatTask::Arith(op, a, b)))
                } else {
                    let msg = operand_error_msg(&self.heap, false, &a, &b);
                    self.throw_msg(msg);
                    Action::Continue
                }
            },
            BinKind::Compare(op) => {
                match (&a, &b) {
                    (Value::Integer(x), Value::Integer(y)) => {
                        let r = int_compare_exec(op, *x, *y);
                        self.push_value(Value::Bool(r));
                        return Action::Continue;
                    },
                    _ => {},
                }
                if is_number_exec(&a) && is_number_exec(&b) {
                    self.ask_host(Action::Float(FloatTask::Compare(op, a, b)))
                } else {
                    let msg = operand_error_msg(&self.heap, false, &a, &b);
                    self.throw_msg(msg);
                    Action::Continue
                }
            },
            BinKind::Concat => {
                if joinable_exec(&a) && joinable_exec(&b) {
                    let mut out: Vec<char> = Vec::new();
                    append_plain(&mut out, &a);
                    append_plain(&mut out, &b);
                    proof {
                        assert(out@ =~= plain_text(a@) + plain_text(b@));
                    }
                    self.push_value(Value::String(string_of(&out)));
                    Action::Continue
                } else {
                    let msg = operand_error_msg(&self.heap, true, &a, &b);
                    self.throw_msg(msg);
                    Action::Continue
                }
            },
        }
    }

    /// Pops the two operands of an instruction.
    fn pop_two(&mut self) -> (r: (Value, Value))
        requires
            old(self)@.stack.len() >= 2,
        ensures
            final(self)@ == (MachineV { stack: old(self)@.stack.take(old(self)@.stack.len() - 2), ..old(self)@ }),
            r.0@ == old(self)@.stack[old(self)@.stack.len() - 2],
            r.1@ == old(self)@.stack[old(self)@.stack.len() - 1],
    {
        let b = self.pop_value();
        let a = self.pop_value();
        proof {
            assert(self@.stack =~= old(self)@.stack.take(old(self)@.stack.len() - 2));
        }
        (a, b)
    }

    /// A two-operand instruction (see `binop`).
    fn binop_exec(&mut self, k: BinKind) -> (r: Action)
        ensures
            (final(self)@, r@) == binop(old(self)@, k),
    {
        proof {
            reveal(binop);
        }
        let n = self.stack.len();
        if n < 2 {
            return underflow_fault();
        }
        let table = match &self.stack[n - 2] {
            Value::Table(t) => Some(*t),
            _ => None,
        };
        match table {
            Some(t) => {
                if t >= self.heap.tables.len() {
                    return dangling_fault();
                }
                proof {
                    assert(self@.heap.tables[t as int] == self.heap.tables@[t as int]@);
                }
                match self.heap.tables[t].meta {
                    Some(meta) => {
                        let key = Value::String(magic_string(k));
                        match index(&self.heap, meta, &key) {
                            None => Action::Fault("prototype chain leaves the heap or does not end".to_owned()),
                            Some(func) => {
                                let ghost m0 = self@;
                                let (a, b) = self.pop_two();
                                match func {
                                    Value::Nil => {
                                        let e = RuntimeError::OperatorNotSupportedError { op: symbol_string(k), table: a };
                                        let msg = error_message(&self.heap, &e);
                                        self.throw_msg(msg);
                                        Action::Continue
                                    },
                                    Value::Func(_) | Value::BuiltInFunc(_) => {
                                        let args = vec![a, b];
                                        proof {
                                            assert(vals_v(args@) =~= seq![m0.stack[n - 2], m0.stack[n - 1]]);
                                        }
                                        self.call(func, args, Some(t))
                                    },
                                    _ => {
                                        let mut th: Vec<char> = Vec::new();
                                        append_text(&mut th, "table.[[metatable]].");
                                        let mg = crate::text::chars_of(&magic_string(k));
                                        append(&mut th, &mg);
                                        let msg = type_error_msg(&self.heap, string_of(&th), ValueType::Function, &func);
                                        self.throw_msg(msg);
                                        Action::Continue
                                    },
                                }
                            },
                        }
                    },
                    None => {
                        let (a, b) = self.pop_two();
                        let e = RuntimeError::OperatorNotSupportedError { op: symbol_string(k), table: a };
                        let msg = error_message(&self.heap, &e);
                        self.throw_msg(msg);
                        Action::Continue
                    },
                }
            },
            None => {
                let (a, b) = self.pop_two();
                self.plain_binop_exec(k, a, b)
            },
        }
    }
}

fn overflow_usize_msg(heap: &Heap) -> (r: String)
    ensures
        r@ == crate::builtin::overflow_error_text("usize"@, "i64"@),
{
    let e = RuntimeError::OverflowError { required: "usize".to_owned(), found: "i64".to_owned() };
    error_message(heap, &e)
}

fn index_error_msg(heap: &Heap, index: usize, len: usize) -> (r: String)
    ensures
        r@ == crate::builtin::index_error_text(index as nat, len as nat),
{
    error_message(heap, &RuntimeError::IndexError { index, len })
}

impl VM {
    /// What a prototype table holds for a key (see `proto_get`).
    fn proto_lookup(&self, proto: usize, k: &Value) -> (r: Option<Value>)
        ensures
            opt_v(r) == proto_get(self@, proto, k@),
    {
        if proto >= self.heap.tables.len() {
            return None;
        }
        proof {
            assert(self@.heap.tables[proto as int] == self.heap.tables@[proto as int]@);
        }
        match entry_get(&self.heap.tables[proto].data, k) {
            Some(v) => Some(v),
            None => Some(Value::Nil),
        }
    }

    /// Reading `container[key]` (see `index_op`).
    fn index_exec(&mut self) -> (r: Action)
        ensures
            (final(self)@, r@) == index_op(old(self)@),
    {
        proof {
            reveal(index_op);
        }
        let n = self.stack.len();
        if n < 2 {
            return underflow_fault();
        }
        let ghost m = self@;
        match &self.stack[n - 2] {
            Value::Table(t) => {
                let t = *t;
                match index(&self.heap, t, &self.stack[n - 1]) {
                    Some(v) => {
                        let _ = self.pop_two();
                        self.push_value(v);
                        Action::Continue
                    },
                    None => Action::Fault("prototype chain leaves the heap or does not end".to_owned()),
                }
            },
            Value::Array(arr) => {
                let arr = *arr;
                match &self.stack[n - 1] {
                    Value::Integer(i) => {
                        let i = *i;
                        if arr >= self.heap.arrays.len() {
                            return dangling_fault();
                        }
                        proof {
                            assert(m.heap.arrays[arr as int] == vals_v(self.heap.arrays@[arr as int]@));
                        }
                        let len = self.heap.arrays[arr].len();
                        if i < 0 || i as u64 > usize::MAX as u64 {
                            let _ = self.pop_two();
                            let msg = overflow_usize_msg(&self.heap);
                            self.throw_msg(msg);
                            Action::Continue
                        } else if i as u64 > len as u64 {
                            let _ = self.pop_two();
                            let msg = index_error_msg(&self.heap, i as usize, len);
                            self.throw_msg(msg);
                            Action::Continue
                        } else if i as u64 == len as u64 {
                            let mut out: Vec<char> = Vec::new();
                            append_text(&mut out, "index out of bounds: the len is ");
                            let d = usize_chars(len);
                            append(&mut out, &d);
                            append_text(&mut out, " but the index is ");
                            append(&mut out, &d);
                            proof {
                                assert(out@ =~= bounds_panic_text(len as nat));
                            }
                            Action::Fault(string_of(&out))
                        } else {
                            let v = self.heap.arrays[arr][i as usize].duplicate();
                            let _ = self.pop_two();
                            self.push_value(v);
                            Action::Continue
                        }
                    },
                    k => {
                        match self.proto_lookup(self.array_prototype, k) {
                            Some(v) => {
                                let _ = self.pop_two();
                                self.push_value(v);
                                Action::Continue
                            },
                            None => dangling_fault(),
                        }
                    },
                }
            },
            Value::String(_) => {
                match self.proto_lookup(self.string_prototype, &self.stack[n - 1]) {
                    Some(v) => {
                        let _ = self.pop_two();
                        self.push_value(v);
                        Action::Continue
                    },
                    None => dangling_fault(),
                }
            },
            a => {
                let msg = type_error_msg(&self.heap, "Index".to_owned(), ValueType::Table, a);
                let _ = self.pop_two();
                self.throw_msg(msg);
                Action::Continue
            },
        }
    }

    /// Writing `container[key] = value` (see `index_assign_op`).
    fn index_assign_exec(&mut self, keep: bool) -> (r: Action)
        ensures
            (final(self)@, r@) == index_assign_op(old(self)@, keep),
    {
        proof {
            reveal(index_assign_op);
        }
        let n = self.stack.len();
        if n < 3 {
            return underflow_fault();
        }
        let ghost m = self@;
        if self.assign_target_dangles(n) {
            return dangling_fault();
        }
        let held = match &self.stack[n - 3] {
            Value::Table(t) => self.table_is_held(*t),
            _ => false,
        };
        if held {
            return borrow_fault();
        }
        let val = self.pop_value();
        let k = self.pop_value();
        proof {
            assert(vals_v(self.stack@).len() == self.stack@.len());
            assert(self@.stack == m.stack.drop_last().drop_last());
            assert(self@.stack[n - 3] == m.stack[n - 3]);
        }
        let con = if keep {
            self.stack[n - 3].duplicate()
        } else {
            self.pop_value()
        };
        proof {
            if keep {
                assert(self@.stack =~= m.stack.take(n - 2));
            } else {
                assert(self@.stack =~= m.stack.take(n - 3));
            }
        }
        match con {
            Value::Table(t) => {
                let ghost old_t = self@.heap.tables[t as int];
                proof {
                    assert(old_t == self.heap.tables@[t as int]@);
                }
                entry_set(&mut self.heap.tables[t].data, k, val);
                proof {
                    assert(self@.heap.tables =~= m.heap.tables.update(t as int, TableV { data: assoc_set(old_t.data, m.stack[n - 2], m.stack[n - 1]), ..old_t }));
                }
                Action::Continue
            },
            Value::Array(arr) => {
                match k {
                    Value::Integer(i) => {
                        let len = self.heap.arrays[arr].len();
                        proof {
                            assert(m.heap.arrays[arr as int] == vals_v(self.heap.arrays@[arr as int]@));
                        }
                        if i < 0 || i as u64 > usize::MAX as u64 {
                            let msg = overflow_usize_msg(&self.heap);
                            self.throw_msg(msg);
                            Action::Continue
                        } else if i as u64 > len as u64 {
                            let msg = index_error_msg(&self.heap, i as usize, len);
                            self.throw_msg(msg);
                            Action::Continue
                        } else {
                            let ghost items = m.heap.arrays[arr as int];
                            let ghost vv = val@;
                            if i as u64 == len as u64 {
                                self.heap.arrays[arr].push(val);
                                proof {
                                    assert(vals_v(self.heap.arrays@[arr as int]@) =~= items.push(vv));
                                }
                            } else {
                                self.heap.arrays[arr].set(i as usize, val);
                                proof {
                                    assert(vals_v(self.heap.arrays@[arr as int]@) =~= items.update(i as int, vv));
                                }
                            }
                            proof {
                                let new_items = if i == items.len() { items.push(vv) } else { items.update(i as int, vv) };
                                assert(self@.heap.arrays =~= m.heap.arrays.update(arr as int, new_items));
                            }
                            Action::Continue
                        }
                    },
                    _ => {
                        let msg = type_error_msg(&self.heap, "Index".to_owned(), ValueType::Table, &Value::Array(arr));
                        self.throw_msg(msg);
                        Action::Continue
                    },
                }
            },
            _ => {
                let msg = type_error_msg(&self.heap, "Index".to_owned(), ValueType::Table, &con);
                self.throw_msg(msg);
                Action::Continue
            },
        }
    }

}

impl VM {
    /// Whether the container of an assignment is a reference to nothing.
    fn assign_target_dangles(&self, n: usize) -> (r: bool)
        requires
            n == self@.stack.len(),
            n >= 3,
        ensures
            r == (match (self@.stack[n - 3], self@.stack[n - 2]) {
                (ValueV::Table(t), _) => t >= self@.heap.tables.len(),
                (ValueV::Array(a), ValueV::Integer(_)) => a >= self@.heap.arrays.len(),
                _ => false,
            }),
    {
        match (&self.stack[n - 3], &self.stack[n - 2]) {
            (Value::Table(t), _) => *t >= self.heap.tables.len(),
            (Value::Array(arr), Value::Integer(_)) => *arr >= self.heap.arrays.len(),
            _ => false,
        }
    }
}

/// The index of the entry for `name` among the globals.
fn global_index(globals: &Vec<(String, Value)>, name: &String) -> (r: Option<usize>)
    ensures
        crate::heap::assoc_find(globals_v(globals@), name@) == (match r {
            Some(i) => Some(i as int),
            None => None::<int>,
        }),
        r matches Some(i) ==> i < globals@.len(),
{
    let ghost gv = globals_v(globals@);
    let mut i: usize = globals.len();
    proof {
        assert(gv.take(i as int) =~= gv);
    }
    while i > 0
        invariant
            i <= globals.len(),
            gv == globals_v(globals@),
            crate::heap::assoc_find(gv, name@) == crate::heap::assoc_find(gv.take(i as int), name@),
        decreases i,
    {
        proof {
            assert(gv.take(i as int).drop_last() =~= gv.take(i - 1));
        }
        if globals[i - 1].0 == *name {
            return Some(i - 1);
        }
        i = i - 1;
    }
    None
}

/// Sets a global variable.
fn set_global(globals: &mut Vec<(String, Value)>, name: String, v: Value)
    ensures
        globals_v(final(globals)@) == assoc_set(globals_v(old(globals)@), name@, v@),
{
    let ghost kv = (name@, v@);
    match global_index(globals, &name) {
        Some(i) => {
            globals.set(i, (name, v));
            proof {
                assert(globals_v(globals@) =~= globals_v(old(globals)@).update(i as int, kv));
            }
        },
        None => {
            globals.push((name, v));
            proof {
                assert(globals_v(globals@) =~= globals_v(old(globals)@).push(kv));
            }
        },
    }
}

impl VM {
    /// The scope `lev` levels out (see `scope_at`).
    fn scope_index(&self, lev: usize) -> (r: Result<usize, String>)
        ensures
            match r {
                Ok(e) => scope_at(self@, lev) == Ok::<usize, Seq<char>>(e),
                Err(msg) => scope_at(self@, lev) == Err::<usize, Seq<char>>(msg@),
            },
    {
        if lev == 0 || lev > self.locals.len() {
            return Err("no scope at this level".to_owned());
        }
        let e = self.locals[self.locals.len() - lev];
        if e >= self.heap.envs.len() {
            return Err("reference to nothing in the heap".to_owned());
        }
        Ok(e)
    }

    /// Instructions on scopes and variables (see `variable_op`).
    fn variable_exec(&mut self, op: OpCode) -> (r: Action)
        requires
            op is LoadGlobal || op is StoreGlobal || op is LoadLocal || op is StoreLocal || op is EnterScope
                || op is ExitScope,
        ensures
            (final(self)@, r@) == variable_op(old(self)@, op_v(op)),
    {
        proof {
            reveal(variable_op);
        }
        proof {
            unfold_op_v(op);
        }
        match op {
            OpCode::LoadGlobal(name) => {
                let v = match global_index(&self.globals, &name) {
                    Some(i) => self.globals[i].1.duplicate(),
                    None => Value::Nil,
                };
                self.push_value(v);
                Action::Continue
            },
            OpCode::StoreGlobal(name) => {
                if self.stack.len() == 0 {
                    return underflow_fault();
                }
                let v = self.pop_value();
                set_global(&mut self.globals, name, v);
                Action::Continue
            },
            OpCode::LoadLocal(lev, idx) => {
                match self.scope_index(lev) {
                    Err(msg) => Action::Fault(msg),
                    Ok(e) => {
                        proof {
                            assert(self@.heap.envs[e as int] == vals_v(self.heap.envs@[e as int]@));
                        }
                        let v = if idx < self.heap.envs[e].len() {
                            self.heap.envs[e][idx].duplicate()
                        } else {
                            Value::Nil
                        };
                        self.push_value(v);
                        Action::Continue
                    },
                }
            },
            OpCode::StoreLocal(lev, idx) => {
                match self.scope_index(lev) {
                    Err(msg) => Action::Fault(msg),
                    Ok(e) => {
                        proof {
                            assert(self@.heap.envs[e as int] == vals_v(self.heap.envs@[e as int]@));
                        }
                        if self.stack.len() == 0 {
                            return underflow_fault();
                        }
                        if idx >= self.heap.envs[e].len() && idx == usize::MAX {
                            return Action::Fault("attempt to add with overflow".to_owned());
                        }
                        let v = self.pop_value();
                        store_slot(&mut self.heap.envs, e, idx, v);
                        Action::Continue
                    },
                }
            },
            OpCode::EnterScope => {
                let i = self.heap.envs.len();
                let fresh: Vec<Value> = Vec::new();
                proof {
                    assert(vals_v(fresh@) =~= Seq::<ValueV>::empty());
                }
                self.heap.envs.push(fresh);
                self.locals.push(i);
                proof {
                    assert(self@.heap.envs =~= old(self)@.heap.envs.push(Seq::empty()));
                }
                Action::Continue
            },
            _ => {
                if self.locals.len() > 0 {
                    self.locals.pop();
                }
                Action::Continue
            },
        }
    }

    /// Instructions on the stack alone, and jumps (see `stack_op`).
    fn stack_exec(&mut self, op: OpCode) -> (r: Action)
        requires
            old(self)@.frames.len() > 0,
            op is Neg || op is Not || op is And || op is Or || op is Jmp || op is JmpIfNot || op is JmpIf
                || op is Dup || op is Swap2,
        ensures
            (final(self)@, r@) == stack_op(old(self)@, op_v(op)),
    {
        proof {
            reveal(stack_op);
        }
        proof {
            unfold_op_v(op);
        }
        let n = self.stack.len();
        match op {
            OpCode::Neg => {
                if n == 0 {
                    return underflow_fault();
                }
                let v = self.pop_value();
                match v {
                    Value::Integer(x) => {
                        if x == i64::MIN {
                            self.push_value(Value::Integer(x));
                            proof {
                                assert(self@.stack =~= old(self)@.stack);
                            }
                            Action::Fault("attempt to negate with overflow".to_owned())
                        } else {
                            self.push_value(Value::Integer(-x));
                            Action::Continue
                        }
                    },
                    Value::Float(t) => self.ask_host(Action::Float(FloatTask::Neg(t))),
                    other => {
                        let msg = type_error_msg(&self.heap, "Operator '-' ".to_owned(), ValueType::Integer, &other);
                        self.throw_msg(msg);
                        Action::Continue
                    },
                }
            },
            OpCode::Not => {
                if n == 0 {
                    return underflow_fault();
                }
                let v = self.pop_value();
                let t = v.is_truthy();
                self.push_value(Value::Bool(!t));
                Action::Continue
            },
            OpCode::And(t) => {
                if n == 0 {
                    return underflow_fault();
                }
                if self.stack[n - 1].is_truthy() {
                    let _ = self.pop_value();
                } else {
                    self.set_next(t);
                }
                Action::Continue
            },
            OpCode::Or(t) => {
                if n == 0 {
                    return underflow_fault();
                }
                if self.stack[n - 1].is_truthy() {
                    self.set_next(t);
                } else {
                    let _ = self.pop_value();
                }
                Action::Continue
            },
            OpCode::Jmp(t) => {
                self.set_next(t);
                Action::Continue
            },
            OpCode::JmpIfNot(t) => {
                if n == 0 {
                    return underflow_fault();
                }
                let v = self.pop_value();
                if !v.is_truthy() {
                    self.set_next(t);
                }
                Action::Continue
            },
            OpCode::JmpIf(t) => {
                if n == 0 {
                    return underflow_fault();
                }
                let v = self.pop_value();
                if v.is_truthy() {
                    self.set_next(t);
                }
                Action::Continue
            },
            OpCode::Dup(k) => {
                if k > n {
                    return underflow_fault();
                }
                let mut i: usize = n - k;
                let ghost s0 = self@;
                while i < n
                    invariant
                        n == s0.stack.len(),
                        k <= n,
                        n - k <= i <= n,
                        self@ == (MachineV { stack: s0.stack + s0.stack.subrange(n - k, i as int), ..s0 }),
                    decreases n - i,
                {
                    proof {
                        assert(vals_v(self.stack@).len() == self.stack@.len());
                        assert(self@.stack[i as int] == s0.stack[i as int]);
                    }
                    let ghost prev = self@.stack;
                    let v = self.stack[i].duplicate();
                    self.push_value(v);
                    proof {
                        assert(v@ == s0.stack[i as int]);
                        assert(self@.stack == prev.push(s0.stack[i as int]));
                    }
                    i = i + 1;
                    proof {
                        assert(self@.stack =~= s0.stack + s0.stack.subrange(n - k, i as int));
                    }
                }
                Action::Continue
            },
            _ => {
                if n < 2 {
                    return underflow_fault();
                }
                let (a, b) = self.pop_two();
                self.push_value(b);
                self.push_value(a);
                Action::Continue
            },
        }
    }

    /// Instructions that make functions, arrays and tables, call, and return
    /// (see `object_op`).
    fn object_exec(&mut self, op: OpCode) -> (r: Action)
        requires
            old(self)@.frames.len() > 0,
            op is PushFn || op is NewArray || op is NewTable || op is Call || op is Ret,
        ensures
            (final(self)@, r@) == object_op(old(self)@, op_v(op)),
    {
        proof {
            reveal(object_op);
        }
        proof {
            unfold_op_v(op);
        }
        let n = self.stack.len();
        match op {
            OpCode::PushFn(k, code) => {
                let i = self.heap.funcs.len();
                let env = self.locals.clone();
                let f = Func { param_count: k, code, env };
                let ghost fv = f@;
                self.heap.funcs.push(f);
                proof {
                    assert(self@.heap.funcs =~= old(self)@.heap.funcs.push(fv));
                }
                self.push_value(Value::Func(i));
                Action::Continue
            },
            OpCode::NewArray(k) => {
                if k > n {
                    return underflow_fault();
                }
                let items = self.stack.split_off(n - k);
                let ghost iv = vals_v(items@);
                let i = self.heap.arrays.len();
                self.heap.arrays.push(items);
                proof {
                    assert(iv =~= old(self)@.stack.subrange(n - k, n as int));
                    assert(self@.heap.arrays =~= old(self)@.heap.arrays.push(iv));
                    assert(vals_v(self.stack@) =~= old(self)@.stack.take(n - k));
                }
                self.push_value(Value::Array(i));
                Action::Continue
            },
            OpCode::NewTable => {
                let v = crate::builtin::Table(&mut self.heap);
                self.push_value(v);
                Action::Continue
            },
            OpCode::Call(k) => {
                if k >= n {
                    return underflow_fault();
                }
                let args = self.stack.split_off(n - k);
                let callee = self.stack.pop().unwrap();
                proof {
                    assert(vals_v(args@) =~= old(self)@.stack.subrange(n - k, n as int));
                    assert(vals_v(self.stack@) =~= old(self)@.stack.take(n - k - 1));
                }
                self.call(callee, args, None)
            },
            _ => {
                if self.locals.len() > 0 {
                    self.locals.pop();
                }
                if n > 0 {
                    let v = self.pop_value();
                    self.finish_frame(Some(v));
                } else {
                    self.finish_frame(None);
                }
                Action::Continue
            },
        }
    }
}

impl VM {
    /// Runs one instruction (see `exec_op`).
    fn exec(&mut self, op: OpCode) -> (r: Action)
        requires
            old(self)@.frames.len() > 0,
        ensures
            (final(self)@, r@) == exec_op(old(self)@, op_v(op)),
    {
        proof {
            unfold_op_v(op);
        }
        match op {
            OpCode::Push(v) => match v {
                Value::Float(t) => self.ask_host(Action::Float(FloatTask::Literal(t))),
                other => {
                    self.push_value(other);
                    Action::Continue
                },
            },
            OpCode::Add => self.binop_exec(BinKind::Arith(BinOp::Add)),
            OpCode::Sub => self.binop_exec(BinKind::Arith(BinOp::Sub)),
            OpCode::Mul => self.binop_exec(BinKind::Arith(BinOp::Mul)),
            OpCode::Div => self.binop_exec(BinKind::Arith(BinOp::Div)),
            OpCode::Eq => self.binop_exec(BinKind::Compare(CmpOp::Eq)),
            OpCode::NEq => self.binop_exec(BinKind::Compare(CmpOp::NEq)),
            OpCode::Gt => self.binop_exec(BinKind::Compare(CmpOp::Gt)),
            OpCode::Lt => self.binop_exec(BinKind::Compare(CmpOp::Lt)),
            OpCode::Gte => self.binop_exec(BinKind::Compare(CmpOp::Gte)),
            OpCode::Lte => self.binop_exec(BinKind::Compare(CmpOp::Lte)),
            OpCode::Concat => self.binop_exec(BinKind::Concat),
            OpCode::Index => self.index_exec(),
            OpCode::IndexAssign(keep) => self.index_assign_exec(keep),
            other => {
                if matches!(other, OpCode::LoadGlobal(_) | OpCode::StoreGlobal(_) | OpCode::LoadLocal(..)
                    | OpCode::StoreLocal(..) | OpCode::EnterScope | OpCode::ExitScope) {
                    self.variable_exec(other)
                } else if matches!(other, OpCode::PushFn(..) | OpCode::NewArray(_) | OpCode::NewTable
                    | OpCode::Call(_) | OpCode::Ret) {
                    self.object_exec(other)
                } else {
                    self.stack_exec(other)
                }
            },
        }
    }

    /// The next instruction of the innermost frame: `None` where the frame's
    /// function is not in the heap, `Some(None)` at the end of its code.
    fn fetch(&self) -> (r: Option<Option<OpCode>>)
        requires
            self@.frames.len() > 0,
        ensures
            match frame_code(self@) {
                None => r is None,
                Some(code) => if self@.frames.last().ip >= code.len() {
                    r == Some(None::<OpCode>)
                } else {
                    r matches Some(Some(op)) && op_v(op) == code[self@.frames.last().ip as int]
                        && self@.frames.last().ip < usize::MAX
                },
            },
    {
        let k = self.frames.len() - 1;
        let ip = self.frames[k].ip;
        match self.frames[k].func {
            None => {
                proof {
                    lemma_ops_v_len(self.code@);
                }
                if ip < self.code.len() {
                    proof {
                        lemma_ops_v_index(self.code@, ip as int);
                    }
                    Some(Some(self.code[ip].duplicate()))
                } else {
                    Some(None)
                }
            },
            Some(f) => {
                if f < self.heap.funcs.len() {
                    proof {
                        assert(self@.heap.funcs[f as int] == self.heap.funcs@[f as int]@);
                        lemma_ops_v_len(self.heap.funcs@[f as int].code@);
                    }
                    if ip < self.heap.funcs[f].code.len() {
                        proof {
                            lemma_ops_v_index(self.heap.funcs@[f as int].code@, ip as int);
                        }
                        Some(Some(self.heap.funcs[f].code[ip].duplicate()))
                    } else {
                        Some(None)
                    }
                } else {
                    None
                }
            },
        }
    }

    /// One step of the machine (see `step_spec`).
    pub fn step(&mut self) -> (r: Action)
        ensures
            (final(self)@, r@) == step_spec(old(self)@),
    {
        match &self.pending {
            Some(a) => {
                return a.duplicate();
            },
            None => {},
        }
        if self.frames.len() == 0 {
            return Action::Done(opt_duplicate(&self.result));
        }
        let raised = match &self.to_throw {
            Some(msg) => Some(msg.clone()),
            None => None,
        };
        match raised {
            Some(msg) => {
                self.to_throw = None;
                self.finish_frame(None);
                let mut out: Vec<char> = Vec::new();
                append_text(&mut out, "RuntimeError:\n  ");
                let c = crate::text::chars_of(&msg);
                append(&mut out, &c);
                return Action::Print(string_of(&out));
            },
            None => {},
        }
        let k = self.frames.len() - 1;
        let ip = self.frames[k].ip;
        proof {
            assert(self@.frames.last().ip == ip);
        }
        match self.fetch() {
            None => dangling_fault(),
            Some(None) => {
                if self.stack.len() > 0 {
                    let v = self.pop_value();
                    self.finish_frame(Some(v));
                } else {
                    self.finish_frame(None);
                }
                Action::Continue
            },
            Some(Some(op)) => {
                self.set_next(ip + 1);
                self.exec(op)
            },
        }
    }

    /// The host answers a value to what the machine asked (see `answer_value_spec`).
    pub fn answer_value(&mut self, v: Value)
        ensures
            final(self)@ == answer_value_spec(old(self)@, v@),
    {
        let waiting = match &self.pending {
            Some(Action::Float(_)) | Some(Action::Native(..)) => true,
            _ => false,
        };
        if waiting {
            self.pending = None;
            self.push_value(v);
        }
    }

    /// The host answers the line it read for `input` (see `answer_input_spec`).
    pub fn answer_input(&mut self, line: &String)
        ensures
            final(self)@ == answer_input_spec(old(self)@, line@),
    {
        let waiting = match &self.pending {
            Some(Action::Input(_)) => true,
            _ => false,
        };
        if waiting {
            self.pending = None;
            self.push_value(Value::String(trim_line(line)));
        }
    }

    /// A registered function raised an error (see `answer_error_spec`).
    pub fn answer_error(&mut self, e: &RuntimeError)
        ensures
            final(self)@ == answer_error_spec(old(self)@, error_text(old(self)@.heap, *e)),
    {
        let waiting = match &self.pending {
            Some(Action::Native(..)) => true,
            _ => false,
        };
        if waiting {
            let msg = error_message(&self.heap, e);
            self.pending = None;
            self.throw_msg(msg);
        }
    }

    /// Starts a run of the top-level code.
    pub fn start(&mut self)
        ensures
            final(self)@ == (MachineV {
                frames: seq![FrameV { func: None, ip: 0, saved: Seq::empty(), base: 0, held: None }],
                pending: None,
                result: None,
                ..old(self)@
            }),
    {
        let top = Frame { func: None, ip: 0, saved: Vec::new(), base: 0, held: None };
        let ghost tv = top@;
        self.frames = vec![top];
        self.pending = None;
        self.result = None;
        proof {
            assert(tv.saved =~= Seq::<ValueV>::empty());
            assert(self.frames@.map_values(|f: Frame| f@) =~= seq![tv]);
        }
    }

    /// Raises an error; it is printed at the next step.
    pub fn throw(&mut self, error: &RuntimeError)
        ensures
            final(self)@ == throw(old(self)@, error_text(old(self)@.heap, *error)),
    {
        let msg = error_message(&self.heap, error);
        self.throw_msg(msg);
    }

    /// Replaces the top-level code.
    pub fn replace_code(&mut self, code: Vec<OpCode>)
        ensures
            final(self)@ == (MachineV { code: ops_v(code@), ..old(self)@ }),
    {
        self.code = code;
    }

    /// A copy of the top-level code.
    pub fn peek_code(&self) -> (r: Vec<OpCode>)
        ensures
            ops_v(r@) == self@.code,
    {
        clone_ops(&self.code)
    }

    /// Makes the function registered by the host under number `id` a global
    /// named `name`.
    pub fn register_func(&mut self, name: &String, id: usize)
        ensures
            final(self)@ == (MachineV {
                globals: assoc_set(old(self)@.globals, name@, ValueV::BuiltInFunc(Builtin::Native(id))),
                ..old(self)@
            }),
    {
        set_global(&mut self.globals, name.clone(), Value::BuiltInFunc(Builtin::Native(id)));
    }
}

fn method(name: &str, b: Builtin) -> (r: (Value, Value))
    ensures
        r.0@ == ValueV::String(name@),
        r.1@ == ValueV::BuiltInFunc(b),
{
    (Value::String(name.to_owned()), Value::BuiltInFunc(b))
}

fn global(name: &str, v: Value) -> (r: (String, Value))
    ensures
        r.0@ == name@,
        r.1@ == v@,
{
    (name.to_owned(), v)
}

impl VM {
    /// A machine for top-level code `code` (see `initial_machine`).
    pub fn new(code: Vec<OpCode>) -> (vm: VM)
        ensures
            vm@ == initial_machine(ops_v(code@)),
    {
        let arr = vec![
            method("len", Builtin::ArrayLen),
            method("push", Builtin::ArrayPush),
            method("pop", Builtin::ArrayPop),
            method("new", Builtin::ArrayNew),
        ];
        let strs = vec![
            method("len", Builtin::StringLen),
            method("toInteger", Builtin::StringToInteger),
            method("upper", Builtin::StringUpper),
            method("lower", Builtin::StringLower),
            method("from", Builtin::StringFrom),
        ];
        proof {
            assert(pairs_v(arr@) =~= array_methods());
            assert(pairs_v(strs@) =~= string_methods());
        }
        let tables = vec![
            TableData { data: arr, meta: None, prototype: None },
            TableData { data: strs, meta: None, prototype: None },
        ];
        let globals = vec![
            global("Array", Value::Table(0)),
            global("String", Value::Table(1)),
            global("println", Value::BuiltInFunc(Builtin::Println)),
            global("repr", Value::BuiltInFunc(Builtin::Repr)),
            global("input", Value::BuiltInFunc(Builtin::Input)),
            global("type", Value::BuiltInFunc(Builtin::Type)),
            global("Table", Value::BuiltInFunc(Builtin::Table)),
            global("getMetatableOf", Value::BuiltInFunc(Builtin::GetMetatableOf)),
            global("setMetatableOf", Value::BuiltInFunc(Builtin::SetMetatableOf)),
            global("clearMetatableOf", Value::BuiltInFunc(Builtin::ClearMetatableOf)),
            global("getPrototypeOf", Value::BuiltInFunc(Builtin::GetPrototypeOf)),
            global("setPrototypeOf", Value::BuiltInFunc(Builtin::SetPrototypeOf)),
            global("clearPrototypeOf", Value::BuiltInFunc(Builtin::ClearPrototypeOf)),
        ];
        proof {
            assert(globals_v(globals@) =~= initial_globals());
        }
        let heap = Heap { tables, arrays: Vec::new(), funcs: Vec::new(), envs: Vec::new() };
        let vm = VM {
            stack: Vec::new(),
            code,
            globals,
            locals: Vec::new(),
            heap,
            frames: Vec::new(),
            to_throw: None,
            array_prototype: 0,
            string_prototype: 1,
            pending: None,
            result: None,
        };
        proof {
            assert(vm@.stack =~= Seq::<ValueV>::empty());
            assert(vm@.heap.tables =~= initial_machine(ops_v(code@)).heap.tables);
            assert(vm@.heap.arrays =~= Seq::<Seq<ValueV>>::empty());
            assert(vm@.heap.funcs =~= Seq::<FuncV>::empty());
            assert(vm@.heap.envs =~= Seq::<Seq<ValueV>>::empty());
            assert(vm@.frames =~= Seq::<FrameV>::empty());
            assert(vm@.locals =~= Seq::<usize>::empty());
        }
        vm
    }
}

/// The texts of a sequence of strings.
pub open spec fn texts_v(s: Seq<String>) -> Seq<Seq<char>> {
    s.map_values(|t: String| t@)
}

impl VM {
    /// Steps until the machine needs its host for something other than
    /// printing, at most `fuel` times; the lines printed are appended to
    /// `printed` (see `run_spec`).
    pub fn run_until_host(&mut self, fuel: usize, printed: &mut Vec<String>) -> (r: Action)
        ensures
            final(self)@ == run_spec(old(self)@, fuel as nat).0,
            texts_v(final(printed)@) == texts_v(old(printed)@) + run_spec(old(self)@, fuel as nat).1,
            r@ == run_spec(old(self)@, fuel as nat).2,
    {
        let ghost m0 = self@;
        let ghost p0 = texts_v(printed@);
        let mut left = fuel;
        let mut stop: Option<Action> = None;
        proof {
            assert(p0 =~= texts_v(printed@) + Seq::<Seq<char>>::empty());
            assert(run_spec(m0, fuel as nat).1 =~= Seq::<Seq<char>>::empty() + run_spec(self@, left as nat).1);
        }
        while left > 0 && stop.is_none()
            invariant
                stop is None ==> run_spec(m0, fuel as nat).0 == run_spec(self@, left as nat).0,
                stop is None ==> run_spec(m0, fuel as nat).2 == run_spec(self@, left as nat).2,
                stop is None ==> p0 + run_spec(m0, fuel as nat).1 == texts_v(printed@) + run_spec(self@, left as nat).1,
                stop matches Some(a) ==> run_spec(m0, fuel as nat).0 == self@ && run_spec(m0, fuel as nat).2 == a@
                    && p0 + run_spec(m0, fuel as nat).1 == texts_v(printed@),
            decreases left,
        {
            let ghost before = self@;
            let ghost pb = texts_v(printed@);
            let a = self.step();
            left = left - 1;
            match a {
                Action::Continue => {},
                Action::Print(line) => {
                    let ghost lv = line@;
                    printed.push(line);
                    proof {
                        assert(texts_v(printed@) =~= pb.push(lv));
                        assert(pb + run_spec(before, (left + 1) as nat).1 =~= texts_v(printed@) + run_spec(self@, left as nat).1);
                    }
                },
                other => {
                    proof {
                        let r = run_spec(before, (left + 1) as nat);
                        assert(r.1 =~= Seq::<Seq<char>>::empty());
                        assert(pb + Seq::<Seq<char>>::empty() =~= pb);
                    }
                    stop = Some(other);
                },
            }
        }
        match stop {
            Some(a) => a,
            None => {
                proof {
                    assert(texts_v(printed@) + Seq::<Seq<char>>::empty() =~= texts_v(printed@));
                }
                Action::Continue
            },
        }
    }
}

} // verus!
