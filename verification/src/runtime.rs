//! The types that runtime errors speak of, and the text of each error.

use vstd::prelude::*;
use crate::text::{nat_text, usize_chars, append, append_text};

verus! {

/// The type of a value, as errors name it.
#[derive(Debug, PartialEq)]
pub enum ValueType {
    Integer,
    Float,
    Bool,
    String,
    Function,
    /// A set of values (shown as `set`).
    HashSet,
    Array,
    Table,
    /// The last alternative, then the others: shown as `others | ... | last`.
    Union(Box<ValueType>, Vec<ValueType>),
    Two(Box<ValueType>, Box<ValueType>),
    /// The type of the empty value (shown as `none`).
    Nil,
}

/// How a type is shown.
pub open spec fn type_text(t: ValueType) -> Seq<char>
    decreases t,
{
    match t {
        ValueType::Integer => "int"@,
        ValueType::Float => "float"@,
        ValueType::Bool => "bool"@,
        ValueType::String => "string"@,
        ValueType::Function => "function"@,
        ValueType::HashSet => "set"@,
        ValueType::Array => "array"@,
        ValueType::Table => "table"@,
        ValueType::Nil => "none"@,
        ValueType::Union(last, others) => alternatives_text(others@) + type_text(*last),
        ValueType::Two(a, b) => "("@ + type_text(*a) + ", "@ + type_text(*b) + ")"@,
    }
}

/// Each type followed by ` | `.
pub open spec fn alternatives_text(ts: Seq<ValueType>) -> Seq<char>
    decreases ts,
{
    if ts.len() == 0 {
        Seq::empty()
    } else {
        type_text(ts[0]) + " | "@ + alternatives_text(ts.subrange(1, ts.len() as int))
    }
}

/// One step of `type_text`.
pub proof fn unfold_type_text(t: ValueType)
    ensures
        type_text(t) == (match t {
            ValueType::Integer => "int"@,
            ValueType::Float => "float"@,
            ValueType::Bool => "bool"@,
            ValueType::String => "string"@,
            ValueType::Function => "function"@,
            ValueType::HashSet => "set"@,
            ValueType::Array => "array"@,
            ValueType::Table => "table"@,
            ValueType::Nil => "none"@,
            ValueType::Union(last, others) => alternatives_text(others@) + type_text(*last),
            ValueType::Two(a, b) => "("@ + type_text(*a) + ", "@ + type_text(*b) + ")"@,
        }),
{
}

/// One step of `alternatives_text`.
pub proof fn unfold_alternatives_text(ts: Seq<ValueType>)
    ensures
        alternatives_text(ts) == (if ts.len() == 0 {
            Seq::empty()
        } else {
            type_text(ts[0]) + " | "@ + alternatives_text(ts.subrange(1, ts.len() as int))
        }),
{
}

/// Appends how a type is shown.
pub fn append_type(out: &mut Vec<char>, t: &ValueType)
    ensures
        final(out)@ == old(out)@ + type_text(*t),
    decreases *t, 1nat,
{
    proof {
        unfold_type_text(*t);
    }
    match t {
        ValueType::Integer => append_text(out, "int"),
        ValueType::Float => append_text(out, "float"),
        ValueType::Bool => append_text(out, "bool"),
        ValueType::String => append_text(out, "string"),
        ValueType::Function => append_text(out, "function"),
        ValueType::HashSet => append_text(out, "set"),
        ValueType::Array => append_text(out, "array"),
        ValueType::Table => append_text(out, "table"),
        ValueType::Nil => append_text(out, "none"),
        ValueType::Union(last, others) => {
            append_alternatives(out, others);
            append_type(out, last);
            proof {
                assert(out@ =~= old(out)@ + type_text(*t));
            }
        },
        ValueType::Two(a, b) => {
            append_text(out, "(");
            append_type(out, a);
            append_text(out, ", ");
            append_type(out, b);
            append_text(out, ")");
            proof {
                assert(out@ =~= old(out)@ + type_text(*t));
            }
        },
    }
}

/// Appends each type followed by ` | `.
fn append_alternatives(out: &mut Vec<char>, ts: &Vec<ValueType>)
    ensures
        final(out)@ == old(out)@ + alternatives_text(ts@),
    decreases ts, 0nat,
{
    let mut i: usize = 0;
    proof {
        assert(ts@.subrange(0, ts@.len() as int) =~= ts@);
        assert(old(out)@ + Seq::<char>::empty() =~= old(out)@);
    }
    while i < ts.len()
        invariant
            i <= ts.len(),
            old(out)@ + alternatives_text(ts@) == out@ + alternatives_text(ts@.subrange(i as int, ts@.len() as int)),
        decreases ts.len() - i,
    {
        let ghost rest = ts@.subrange(i as int, ts@.len() as int);
        proof {
            unfold_alternatives_text(rest);
            assert(rest.subrange(1, rest.len() as int) =~= ts@.subrange(i + 1, ts@.len() as int));
            assert(rest[0] == ts@[i as int]);
            assert(decreases_to!(ts => ts@));
            assert(decreases_to!(ts@ => ts@[i as int]));
        }
        let ghost before = out@;
        append_type(out, &ts[i]);
        append_text(out, " | ");
        proof {
            assert(out@ + alternatives_text(ts@.subrange(i + 1, ts@.len() as int)) =~= before + alternatives_text(rest));
        }
        i = i + 1;
    }
    proof {
        assert(ts@.subrange(ts@.len() as int, ts@.len() as int) =~= Seq::<ValueType>::empty());
        unfold_alternatives_text(Seq::<ValueType>::empty());
        assert(out@ + Seq::<char>::empty() =~= out@);
    }
}

/// How many arguments a function takes.
#[derive(Debug, Clone, PartialEq)]
pub enum ExpectedParamCount {
    Constant(usize),
    /// From the first to the second, both included.
    Range(usize, usize),
}

/// How an expected argument count is shown.
pub open spec fn count_text(c: ExpectedParamCount) -> Seq<char> {
    match c {
        ExpectedParamCount::Constant(n) => nat_text(n as nat),
        ExpectedParamCount::Range(a, b) => nat_text(a as nat) + "~"@ + nat_text(b as nat),
    }
}

/// Appends how an expected argument count is shown.
pub fn append_count(out: &mut Vec<char>, c: &ExpectedParamCount)
    ensures
        final(out)@ == old(out)@ + count_text(*c),
{
    match c {
        ExpectedParamCount::Constant(n) => {
            let d = usize_chars(*n);
            append(out, &d);
        },
        ExpectedParamCount::Range(a, b) => {
            let da = usize_chars(*a);
            append(out, &da);
            append_text(out, "~");
            let db = usize_chars(*b);
            append(out, &db);
            proof {
                assert(out@ =~= old(out)@ + count_text(*c));
            }
        },
    }
}

/// The type that the arithmetic and comparison operators accept on each side.
pub fn number_type() -> (t: ValueType)
    ensures
        type_text(t) == "int"@ + " | "@ + "float"@,
{
    let t = ValueType::Union(Box::new(ValueType::Float), vec![ValueType::Integer]);
    proof {
        let others = seq![ValueType::Integer];
        assert(t->Union_1@ == others);
        unfold_alternatives_text(others);
        unfold_alternatives_text(others.subrange(1, 1));
        assert(others.subrange(1, 1) =~= Seq::<ValueType>::empty());
        unfold_type_text(t);
        unfold_type_text(ValueType::Float);
        unfold_type_text(ValueType::Integer);
        assert(alternatives_text(others) =~= "int"@ + " | "@);
        assert(type_text(t) =~= "int"@ + " | "@ + "float"@);
    }
    t
}

/// An error that a running program raises. It is printed, and the function
/// that raised it returns no value.
#[derive(Debug, PartialEq)]
pub enum RuntimeError {
    ParamError { expected: ExpectedParamCount, found: usize },
    TypeError { expected: ValueType, found: ValueType, thrower: Option<String> },
    OverflowError { required: String, found: String },
    IndexError { index: usize, len: usize },
    OperatorNotSupportedError { op: String, table: crate::value::Value },
}

/// The type of a value.
pub open spec fn type_of_value(v: crate::value::ValueV) -> ValueType {
    match v {
        crate::value::ValueV::Integer(_) => ValueType::Integer,
        crate::value::ValueV::Float(_) => ValueType::Float,
        crate::value::ValueV::Bool(_) => ValueType::Bool,
        crate::value::ValueV::Func(_) => ValueType::Function,
        crate::value::ValueV::BuiltInFunc(_) => ValueType::Function,
        crate::value::ValueV::Nil => ValueType::Nil,
        crate::value::ValueV::String(_) => ValueType::String,
        crate::value::ValueV::Array(_) => ValueType::Array,
        crate::value::ValueV::Table(_) => ValueType::Table,
    }
}

/// The type of a value.
pub fn value_type(v: &crate::value::Value) -> (t: ValueType)
    ensures
        t == type_of_value(v@),
{
    match v {
        crate::value::Value::Integer(_) => ValueType::Integer,
        crate::value::Value::Float(_) => ValueType::Float,
        crate::value::Value::Bool(_) => ValueType::Bool,
        crate::value::Value::Func(_) => ValueType::Function,
        crate::value::Value::BuiltInFunc(_) => ValueType::Function,
        crate::value::Value::Nil => ValueType::Nil,
        crate::value::Value::String(_) => ValueType::String,
        crate::value::Value::Array(_) => ValueType::Array,
        crate::value::Value::Table(_) => ValueType::Table,
    }
}

/// The type that `..` accepts on each side.
pub fn joinable_type() -> (t: ValueType)
    ensures
        type_text(t) == "int"@ + " | "@ + "float"@ + " | "@ + "string"@ + " | "@ + "bool"@ + " | "@ + "none"@,
{
    let t = ValueType::Union(
        Box::new(ValueType::Nil),
        vec![ValueType::Integer, ValueType::Float, ValueType::String, ValueType::Bool],
    );
    proof {
        let others = seq![ValueType::Integer, ValueType::Float, ValueType::String, ValueType::Bool];
        assert(t->Union_1@ == others);
        unfold_type_text(t);
        unfold_type_text(ValueType::Nil);
        unfold_type_text(ValueType::Integer);
        unfold_type_text(ValueType::Float);
        unfold_type_text(ValueType::String);
        unfold_type_text(ValueType::Bool);
        let o1 = others.subrange(1, 4);
        let o2 = o1.subrange(1, 3);
        let o3 = o2.subrange(1, 2);
        let o4 = o3.subrange(1, 1);
        unfold_alternatives_text(others);
        unfold_alternatives_text(o1);
        unfold_alternatives_text(o2);
        unfold_alternatives_text(o3);
        unfold_alternatives_text(o4);
        assert(o1 =~= seq![ValueType::Float, ValueType::String, ValueType::Bool]);
        assert(o2 =~= seq![ValueType::String, ValueType::Bool]);
        assert(o3 =~= seq![ValueType::Bool]);
        assert(o4 =~= Seq::<ValueType>::empty());
        assert(type_text(t) =~= "int"@ + " | "@ + "float"@ + " | "@ + "string"@ + " | "@ + "bool"@ + " | "@ + "none"@);
    }
    t
}

/// The arguments of a call of a built-in.
pub struct Args {
    pub values: Vec<crate::value::Value>,
}

impl Args {
    pub fn new(values: Vec<crate::value::Value>) -> (r: Args)
        ensures
            r.values == values,
    {
        Args { values }
    }

    /// Argument `i`, or the error a call with too few arguments gets: it
    /// needs at least `i + 1` of them.
    pub fn get_arg(&self, i: usize) -> (r: Result<&crate::value::Value, RuntimeError>)
        requires
            i < usize::MAX,
        ensures
            i < self.values@.len() ==> r == Ok::<&crate::value::Value, RuntimeError>(&self.values@[i as int]),
            i >= self.values@.len() ==> r == Err::<&crate::value::Value, RuntimeError>(
                RuntimeError::ParamError {
                    expected: ExpectedParamCount::Constant((i + 1) as usize),
                    found: self.values@.len() as usize,
                },
            ),
    {
        if i < self.values.len() {
            Ok(&self.values[i])
        } else {
            Err(RuntimeError::ParamError { expected: ExpectedParamCount::Constant(i + 1), found: self.values.len() })
        }
    }

    /// Checks that there are exactly `len` arguments.
    pub fn ensure_len(&self, len: usize) -> (r: Result<(), RuntimeError>)
        ensures
            self.values@.len() == len ==> r is Ok,
            self.values@.len() != len ==> r == Err::<(), RuntimeError>(
                RuntimeError::ParamError { expected: ExpectedParamCount::Constant(len), found: self.values@.len() as usize },
            ),
    {
        if self.values.len() != len {
            Err(RuntimeError::ParamError { expected: ExpectedParamCount::Constant(len), found: self.values.len() })
        } else {
            Ok(())
        }
    }

    /// Checks that there are from `lo` to `hi` arguments (both included).
    pub fn ensure_len_ranged(&self, lo: usize, hi: usize) -> (r: Result<(), RuntimeError>)
        ensures
            lo <= self.values@.len() <= hi ==> r is Ok,
            !(lo <= self.values@.len() <= hi) ==> r == Err::<(), RuntimeError>(
                RuntimeError::ParamError { expected: ExpectedParamCount::Range(lo, hi), found: self.values@.len() as usize },
            ),
    {
        let n = self.values.len();
        if !(lo <= n && n <= hi) {
            Err(RuntimeError::ParamError { expected: ExpectedParamCount::Range(lo, hi), found: n })
        } else {
            Ok(())
        }
    }
}

} // verus!
