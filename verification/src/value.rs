//! Runtime values and the instructions of the virtual machine.

use vstd::prelude::*;

verus! {

/// A function that the machine provides itself.
#[derive(Debug, Clone, Copy, PartialEq, Eq, Structural)]
pub enum Builtin {
    Println,
    Input,
    Repr,
    Type,
    Table,
    GetMetatableOf,
    SetMetatableOf,
    ClearMetatableOf,
    GetPrototypeOf,
    SetPrototypeOf,
    ClearPrototypeOf,
    StringFrom,
    StringLen,
    StringToInteger,
    StringLower,
    StringUpper,
    ArrayNew,
    ArrayLen,
    ArrayPush,
    ArrayPop,
    /// A function registered by the embedding program, by its number.
    Native(usize),
}

/// A value of the language.
///
/// A float is kept as the text that `Display` gives it (for a literal not
/// yet evaluated, the text it was written with); functions, arrays and tables
/// are references, by index, into the machine's heap.
#[derive(Debug, Clone, PartialEq)]
pub enum Value {
    Float(String),
    Integer(i64),
    Bool(bool),
    String(String),
    BuiltInFunc(Builtin),
    Func(usize),
    Array(usize),
    Table(usize),
    Nil,
}

/// The mathematical value of a `Value`.
pub enum ValueV {
    Float(Seq<char>),
    Integer(i64),
    Bool(bool),
    String(Seq<char>),
    BuiltInFunc(Builtin),
    Func(usize),
    Array(usize),
    Table(usize),
    Nil,
}

impl View for Value {
    type V = ValueV;

    open spec fn view(&self) -> ValueV {
        match self {
            Value::Float(t) => ValueV::Float(t@),
            Value::Integer(n) => ValueV::Integer(*n),
            Value::Bool(b) => ValueV::Bool(*b),
            Value::String(s) => ValueV::String(s@),
            Value::BuiltInFunc(b) => ValueV::BuiltInFunc(*b),
            Value::Func(i) => ValueV::Func(*i),
            Value::Array(i) => ValueV::Array(*i),
            Value::Table(i) => ValueV::Table(*i),
            Value::Nil => ValueV::Nil,
        }
    }
}

impl Value {
    /// A copy of the value (references are copied, not what they point to).
    pub fn duplicate(&self) -> (r: Value)
        ensures
            r@ == self@,
    {
        match self {
            Value::Float(t) => Value::Float(t.clone()),
            Value::Integer(n) => Value::Integer(*n),
            Value::Bool(b) => Value::Bool(*b),
            Value::String(s) => Value::String(s.clone()),
            Value::BuiltInFunc(b) => Value::BuiltInFunc(*b),
            Value::Func(i) => Value::Func(*i),
            Value::Array(i) => Value::Array(*i),
            Value::Table(i) => Value::Table(*i),
            Value::Nil => Value::Nil,
        }
    }
}

/// An instruction of the virtual machine. Jump targets are indices into the
/// code that holds the instruction.
#[derive(Debug, PartialEq)]
pub enum OpCode {
    Push(Value),
    StoreGlobal(String),
    LoadGlobal(String),
    /// Scope level counted from the innermost (1 is the innermost), and slot.
    StoreLocal(usize, usize),
    LoadLocal(usize, usize),
    Jmp(usize),
    JmpIfNot(usize),
    JmpIf(usize),
    Add,
    Sub,
    Mul,
    Div,
    Eq,
    Gt,
    Lt,
    Gte,
    Lte,
    NEq,
    Neg,
    Ret,
    Call(usize),
    EnterScope,
    ExitScope,
    PushFn(usize, Vec<OpCode>),
    Not,
    And(usize),
    Or(usize),
    Concat,
    Index,
    IndexAssign(bool),
    Dup(usize),
    Swap2,
    NewArray(usize),
    NewTable,
}

/// The mathematical value of an instruction.
pub enum OpCodeV {
    Push(ValueV),
    StoreGlobal(Seq<char>),
    LoadGlobal(Seq<char>),
    StoreLocal(usize, usize),
    LoadLocal(usize, usize),
    Jmp(usize),
    JmpIfNot(usize),
    JmpIf(usize),
    Add,
    Sub,
    Mul,
    Div,
    Eq,
    Gt,
    Lt,
    Gte,
    Lte,
    NEq,
    Neg,
    Ret,
    Call(usize),
    EnterScope,
    ExitScope,
    PushFn(usize, Seq<OpCodeV>),
    Not,
    And(usize),
    Or(usize),
    Concat,
    Index,
    IndexAssign(bool),
    Dup(usize),
    Swap2,
    NewArray(usize),
    NewTable,
}

/// The value of an instruction.
pub open spec fn op_v(op: OpCode) -> OpCodeV
    decreases op,
{
    match op {
        OpCode::Push(v) => OpCodeV::Push(v@),
        OpCode::StoreGlobal(n) => OpCodeV::StoreGlobal(n@),
        OpCode::LoadGlobal(n) => OpCodeV::LoadGlobal(n@),
        OpCode::StoreLocal(a, b) => OpCodeV::StoreLocal(a, b),
        OpCode::LoadLocal(a, b) => OpCodeV::LoadLocal(a, b),
        OpCode::Jmp(t) => OpCodeV::Jmp(t),
        OpCode::JmpIfNot(t) => OpCodeV::JmpIfNot(t),
        OpCode::JmpIf(t) => OpCodeV::JmpIf(t),
        OpCode::Add => OpCodeV::Add,
        OpCode::Sub => OpCodeV::Sub,
        OpCode::Mul => OpCodeV::Mul,
        OpCode::Div => OpCodeV::Div,
        OpCode::Eq => OpCodeV::Eq,
        OpCode::Gt => OpCodeV::Gt,
        OpCode::Lt => OpCodeV::Lt,
        OpCode::Gte => OpCodeV::Gte,
        OpCode::Lte => OpCodeV::Lte,
        OpCode::NEq => OpCodeV::NEq,
        OpCode::Neg => OpCodeV::Neg,
        OpCode::Ret => OpCodeV::Ret,
        OpCode::Call(n) => OpCodeV::Call(n),
        OpCode::EnterScope => OpCodeV::EnterScope,
        OpCode::ExitScope => OpCodeV::ExitScope,
        OpCode::PushFn(n, code) => OpCodeV::PushFn(n, ops_v(code@)),
        OpCode::Not => OpCodeV::Not,
        OpCode::And(t) => OpCodeV::And(t),
        OpCode::Or(t) => OpCodeV::Or(t),
        OpCode::Concat => OpCodeV::Concat,
        OpCode::Index => OpCodeV::Index,
        OpCode::IndexAssign(keep) => OpCodeV::IndexAssign(keep),
        OpCode::Dup(n) => OpCodeV::Dup(n),
        OpCode::Swap2 => OpCodeV::Swap2,
        OpCode::NewArray(n) => OpCodeV::NewArray(n),
        OpCode::NewTable => OpCodeV::NewTable,
    }
}

/// The values of a sequence of instructions.
pub open spec fn ops_v(ops: Seq<OpCode>) -> Seq<OpCodeV>
    decreases ops,
{
    if ops.len() == 0 {
        Seq::empty()
    } else {
        ops_v(ops.drop_last()).push(op_v(ops.last()))
    }
}

impl View for OpCode {
    type V = OpCodeV;

    open spec fn view(&self) -> OpCodeV {
        op_v(*self)
    }
}

pub proof fn lemma_ops_v_push(ops: Seq<OpCode>, op: OpCode)
    ensures
        ops_v(ops.push(op)) == ops_v(ops).push(op_v(op)),
{
    assert(ops.push(op).drop_last() =~= ops);
}

pub proof fn lemma_ops_v_len(ops: Seq<OpCode>)
    ensures
        ops_v(ops).len() == ops.len(),
    decreases ops.len(),
{
    if ops.len() > 0 {
        lemma_ops_v_len(ops.drop_last());
    }
}

pub proof fn lemma_ops_v_index(ops: Seq<OpCode>, i: int)
    requires
        0 <= i < ops.len(),
    ensures
        ops_v(ops)[i] == op_v(ops[i]),
    decreases ops.len(),
{
    lemma_ops_v_len(ops.drop_last());
    if i < ops.len() - 1 {
        lemma_ops_v_index(ops.drop_last(), i);
    }
}

pub proof fn lemma_ops_v_update(ops: Seq<OpCode>, i: int, op: OpCode)
    requires
        0 <= i < ops.len(),
    ensures
        ops_v(ops.update(i, op)) == ops_v(ops).update(i, op_v(op)),
{
    lemma_ops_v_len(ops);
    lemma_ops_v_len(ops.update(i, op));
    assert forall|j: int| 0 <= j < ops.len() implies #[trigger] ops_v(ops.update(i, op))[j] == ops_v(ops).update(i, op_v(op))[j] by {
        lemma_ops_v_index(ops.update(i, op), j);
        lemma_ops_v_index(ops, j);
    }
    assert(ops_v(ops.update(i, op)) =~= ops_v(ops).update(i, op_v(op)));
}

} // verus!

verus! {

/// One step of `op_v`: it equals its definition.
pub proof fn unfold_op_v(op: OpCode)
    ensures
        op_v(op) == ({
            match op {
                OpCode::Push(v) => OpCodeV::Push(v@),
                OpCode::StoreGlobal(n) => OpCodeV::StoreGlobal(n@),
                OpCode::LoadGlobal(n) => OpCodeV::LoadGlobal(n@),
                OpCode::StoreLocal(a, b) => OpCodeV::StoreLocal(a, b),
                OpCode::LoadLocal(a, b) => OpCodeV::LoadLocal(a, b),
                OpCode::Jmp(t) => OpCodeV::Jmp(t),
                OpCode::JmpIfNot(t) => OpCodeV::JmpIfNot(t),
                OpCode::JmpIf(t) => OpCodeV::JmpIf(t),
                OpCode::Add => OpCodeV::Add,
                OpCode::Sub => OpCodeV::Sub,
                OpCode::Mul => OpCodeV::Mul,
                OpCode::Div => OpCodeV::Div,
                OpCode::Eq => OpCodeV::Eq,
                OpCode::Gt => OpCodeV::Gt,
                OpCode::Lt => OpCodeV::Lt,
                OpCode::Gte => OpCodeV::Gte,
                OpCode::Lte => OpCodeV::Lte,
                OpCode::NEq => OpCodeV::NEq,
                OpCode::Neg => OpCodeV::Neg,
                OpCode::Ret => OpCodeV::Ret,
                OpCode::Call(n) => OpCodeV::Call(n),
                OpCode::EnterScope => OpCodeV::EnterScope,
                OpCode::ExitScope => OpCodeV::ExitScope,
                OpCode::PushFn(n, code) => OpCodeV::PushFn(n, ops_v(code@)),
                OpCode::Not => OpCodeV::Not,
                OpCode::And(t) => OpCodeV::And(t),
                OpCode::Or(t) => OpCodeV::Or(t),
                OpCode::Concat => OpCodeV::Concat,
                OpCode::Index => OpCodeV::Index,
                OpCode::IndexAssign(keep) => OpCodeV::IndexAssign(keep),
                OpCode::Dup(n) => OpCodeV::Dup(n),
                OpCode::Swap2 => OpCodeV::Swap2,
                OpCode::NewArray(n) => OpCodeV::NewArray(n),
                OpCode::NewTable => OpCodeV::NewTable,
            }
        }),
{
}

/// The values of a prefix one longer end with the value of the next instruction.
pub proof fn lemma_ops_v_take(ops: Seq<OpCode>, i: int)
    requires
        0 <= i < ops.len(),
    ensures
        ops_v(ops.take(i + 1)) == ops_v(ops.take(i)).push(op_v(ops[i])),
{
    assert(ops.take(i + 1).drop_last() =~= ops.take(i));
}

} // verus!

verus! {

impl OpCode {
    /// A copy of the instruction.
    pub fn duplicate(&self) -> (r: OpCode)
        ensures
            op_v(r) == op_v(*self),
        decreases *self,
    {
        proof {
            unfold_op_v(*self);
        }
        let r = match self {
            OpCode::Push(v) => OpCode::Push(v.duplicate()),
            OpCode::StoreGlobal(n) => OpCode::StoreGlobal(n.clone()),
            OpCode::LoadGlobal(n) => OpCode::LoadGlobal(n.clone()),
            OpCode::StoreLocal(a, b) => OpCode::StoreLocal(*a, *b),
            OpCode::LoadLocal(a, b) => OpCode::LoadLocal(*a, *b),
            OpCode::Jmp(t) => OpCode::Jmp(*t),
            OpCode::JmpIfNot(t) => OpCode::JmpIfNot(*t),
            OpCode::JmpIf(t) => OpCode::JmpIf(*t),
            OpCode::Add => OpCode::Add,
            OpCode::Sub => OpCode::Sub,
            OpCode::Mul => OpCode::Mul,
            OpCode::Div => OpCode::Div,
            OpCode::Eq => OpCode::Eq,
            OpCode::Gt => OpCode::Gt,
            OpCode::Lt => OpCode::Lt,
            OpCode::Gte => OpCode::Gte,
            OpCode::Lte => OpCode::Lte,
            OpCode::NEq => OpCode::NEq,
            OpCode::Neg => OpCode::Neg,
            OpCode::Ret => OpCode::Ret,
            OpCode::Call(n) => OpCode::Call(*n),
            OpCode::EnterScope => OpCode::EnterScope,
            OpCode::ExitScope => OpCode::ExitScope,
            OpCode::PushFn(n, code) => OpCode::PushFn(*n, clone_ops(code)),
            OpCode::Not => OpCode::Not,
            OpCode::And(t) => OpCode::And(*t),
            OpCode::Or(t) => OpCode::Or(*t),
            OpCode::Concat => OpCode::Concat,
            OpCode::Index => OpCode::Index,
            OpCode::IndexAssign(keep) => OpCode::IndexAssign(*keep),
            OpCode::Dup(n) => OpCode::Dup(*n),
            OpCode::Swap2 => OpCode::Swap2,
            OpCode::NewArray(n) => OpCode::NewArray(*n),
            OpCode::NewTable => OpCode::NewTable,
        };
        proof {
            unfold_op_v(r);
        }
        r
    }
}

/// A copy of a sequence of instructions.
pub fn clone_ops(ops: &Vec<OpCode>) -> (r: Vec<OpCode>)
    ensures
        ops_v(r@) == ops_v(ops@),
    decreases ops,
{
    let mut r: Vec<OpCode> = Vec::new();
    let mut i: usize = 0;
    proof {
        assert(ops@.take(0) =~= Seq::<OpCode>::empty());
        assert(r@ =~= Seq::<OpCode>::empty());
    }
    while i < ops.len()
        invariant
            i <= ops.len(),
            ops_v(r@) == ops_v(ops@.take(i as int)),
        decreases ops.len() - i,
    {
        proof {
            assert(decreases_to!(ops => ops@));
            assert(decreases_to!(ops@ => ops@[i as int]));
        }
        let d = ops[i].duplicate();
        proof {
            lemma_ops_v_push(r@, d);
            lemma_ops_v_take(ops@, i as int);
        }
        r.push(d);
        i = i + 1;
    }
    proof {
        assert(ops@.take(ops@.len() as int) =~= ops@);
    }
    r
}

} // verus!
