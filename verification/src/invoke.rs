//! Calling a built-in function: the checks on the number and the types of
//! the arguments, then the function itself.

use vstd::prelude::*;
use crate::value::{Value, ValueV, Builtin};
use crate::heap::{Heap, HeapV, vals_v};
use crate::runtime::{RuntimeError, ExpectedParamCount, ValueType, type_text, type_of_value, value_type, unfold_type_text};
use crate::builtin::{
    Table, Array_new, Array_len, Array_push, Array_pop, setPrototypeOf, clearPrototypeOf,
    getPrototypeOf, setMetatableOf, clearMetatableOf, getMetatableOf, String_len, String_lower,
    String_upper, String_toInteger, String_from, repr, repr_text, type_of, kind_name, plain_text,
    println_line, println_text, lowercase_text, uppercase_text, parse_radix, heap_with_new_table,
    heap_with_prototype, heap_with_meta, param_error_text, type_error_text, overflow_error_text,
    error_text, error_message,
};
use crate::text::{nat_text, usize_chars, append, append_text, string_of, text};

verus! {

/// What a call of a built-in comes to.
#[derive(Debug, Clone, PartialEq)]
pub enum Outcome {
    /// It returns a value.
    Return(Value),
    /// It raises an error, with this text.
    Raise(String),
    /// It prints this line and returns `None`.
    Print(String),
    /// It prints this prompt and returns the line that is read next.
    Ask(String),
    /// It is the function registered under this number, called with these arguments.
    CallNative(usize, Vec<Value>),
    /// The call cannot go on (a broken invariant of the heap, or an input the
    /// interpreter gives up on); the message says why.
    Fault(String),
}

pub enum OutcomeV {
    Return(ValueV),
    Raise(Seq<char>),
    Print(Seq<char>),
    Ask(Seq<char>),
    CallNative(usize, Seq<ValueV>),
    Fault(Seq<char>),
}

impl View for Outcome {
    type V = OutcomeV;

    open spec fn view(&self) -> OutcomeV {
        match self {
            Outcome::Return(v) => OutcomeV::Return(v@),
            Outcome::Raise(s) => OutcomeV::Raise(s@),
            Outcome::Print(s) => OutcomeV::Print(s@),
            Outcome::Ask(s) => OutcomeV::Ask(s@),
            Outcome::CallNative(n, args) => OutcomeV::CallNative(*n, vals_v(args@)),
            Outcome::Fault(s) => OutcomeV::Fault(s@),
        }
    }
}

/// Who a type error in a built-in's arguments names.
pub open spec fn fn_info(name: Seq<char>) -> Seq<char> {
    "Built-in Function `"@ + name + "()`"@
}

/// The error for a wrong number of arguments.
pub open spec fn arity_error(expected: ExpectedParamCount, found: nat) -> OutcomeV {
    OutcomeV::Raise(param_error_text(crate::runtime::count_text(expected), found))
}

/// The message of a panic on a reference to nothing in the heap.
pub open spec fn dangling_text() -> Seq<char> {
    "reference to nothing in the heap"@
}

/// An argument that must be a table: its index, or what the call comes to instead.
pub open spec fn table_arg(h: HeapV, v: ValueV, name: Seq<char>) -> Result<int, OutcomeV> {
    match v {
        ValueV::Table(t) => if t < h.tables.len() {
            Ok(t as int)
        } else {
            Err(OutcomeV::Fault(dangling_text()))
        },
        _ => Err(OutcomeV::Raise(type_error_text(fn_info(name), type_text(ValueType::Table), type_text(type_of_value(v))))),
    }
}

/// An argument that must be an array.
pub open spec fn array_arg(h: HeapV, v: ValueV, name: Seq<char>) -> Result<int, OutcomeV> {
    match v {
        ValueV::Array(a) => if a < h.arrays.len() {
            Ok(a as int)
        } else {
            Err(OutcomeV::Fault(dangling_text()))
        },
        _ => Err(OutcomeV::Raise(type_error_text(fn_info(name), type_text(ValueType::Array), type_text(type_of_value(v))))),
    }
}

/// An argument that must be a string.
pub open spec fn string_arg(v: ValueV, name: Seq<char>) -> Result<Seq<char>, OutcomeV> {
    match v {
        ValueV::String(s) => Ok(s),
        _ => Err(OutcomeV::Raise(type_error_text(fn_info(name), type_text(ValueType::String), type_text(type_of_value(v))))),
    }
}

/// The message of the panic of `from_str_radix` on a radix out of range.
pub open spec fn radix_panic_text(radix: nat) -> Seq<char> {
    "from_str_radix_int: must lie in the range `[2, 36]` - found "@ + nat_text(radix)
}

/// What the conversion of an integer to `u32` reports when it does not fit.
pub open spec fn conversion_error_text() -> Seq<char> {
    "out of range integral type conversion attempted"@
}

/// The base that `toInteger` reads with: 10 when none is given; or what the
/// call comes to instead.
pub open spec fn base_arg(args: Seq<ValueV>) -> Result<u32, OutcomeV> {
    if args.len() < 2 {
        Ok(10u32)
    } else {
        match args[1] {
            ValueV::Integer(n) => if 0 <= n <= u32::MAX {
                Ok(n as u32)
            } else {
                Err(OutcomeV::Raise(overflow_error_text("u32"@, conversion_error_text())))
            },
            v => Err(OutcomeV::Raise(type_error_text(fn_info(builtin_name_of(Builtin::StringToInteger)), type_text(ValueType::Integer), type_text(type_of_value(v))))),
        }
    }
}

/// What a call of the one-table built-ins does, once the table is known.
pub open spec fn table_builtin(h: HeapV, b: Builtin, t: int) -> (HeapV, OutcomeV) {
    match b {
        Builtin::GetMetatableOf => (h, OutcomeV::Return(match h.tables[t].meta {
            Some(m) => ValueV::Table(m),
            None => ValueV::Nil,
        })),
        Builtin::ClearMetatableOf => (heap_with_meta(h, t, None), OutcomeV::Return(ValueV::Nil)),
        Builtin::GetPrototypeOf => (h, OutcomeV::Return(match h.tables[t].prototype {
            Some(p) => ValueV::Table(p),
            None => ValueV::Nil,
        })),
        _ => (heap_with_prototype(h, t, None), OutcomeV::Return(ValueV::Nil)),
    }
}

/// What calling built-in `b` with arguments `args` does to the heap, and
/// what it comes to.
pub open spec fn builtin_call(h: HeapV, b: Builtin, args: Seq<ValueV>) -> (HeapV, OutcomeV) {
    let n = args.len();
    match b {
        Builtin::Println => (h, OutcomeV::Print(println_text(args))),
        Builtin::Input => if n > 1 {
            (h, arity_error(ExpectedParamCount::Range(0, 1), n))
        } else if n == 1 {
            match string_arg(args[0], builtin_name_of(b)) {
                Ok(s) => (h, OutcomeV::Ask(s)),
                Err(o) => (h, o),
            }
        } else {
            (h, OutcomeV::Ask(Seq::empty()))
        },
        Builtin::Repr => if n != 1 {
            (h, arity_error(ExpectedParamCount::Constant(1), n))
        } else {
            (h, OutcomeV::Return(ValueV::String(repr_text(h, args[0]))))
        },
        Builtin::Type => if n != 1 {
            (h, arity_error(ExpectedParamCount::Constant(1), n))
        } else {
            (h, OutcomeV::Return(ValueV::String(kind_name(args[0]))))
        },
        Builtin::Table => if n != 0 {
            (h, arity_error(ExpectedParamCount::Constant(0), n))
        } else {
            (heap_with_new_table(h), OutcomeV::Return(ValueV::Table(h.tables.len() as usize)))
        },
        Builtin::GetMetatableOf | Builtin::ClearMetatableOf | Builtin::GetPrototypeOf
        | Builtin::ClearPrototypeOf => if n != 1 {
            (h, arity_error(ExpectedParamCount::Constant(1), n))
        } else {
            match table_arg(h, args[0], builtin_name_of(b)) {
                Ok(t) => table_builtin(h, b, t),
                Err(o) => (h, o),
            }
        },
        Builtin::SetMetatableOf | Builtin::SetPrototypeOf => if n != 2 {
            (h, arity_error(ExpectedParamCount::Constant(2), n))
        } else {
            match table_arg(h, args[0], builtin_name_of(b)) {
                Ok(t) => match table_arg(h, args[1], builtin_name_of(b)) {
                    Ok(other) => if b == Builtin::SetMetatableOf {
                        (heap_with_meta(h, t, Some(other as usize)), OutcomeV::Return(ValueV::Nil))
                    } else {
                        (heap_with_prototype(h, t, Some(other as usize)), OutcomeV::Return(ValueV::Nil))
                    },
                    Err(o) => (h, o),
                },
                Err(o) => (h, o),
            }
        },
        Builtin::StringFrom => if n != 1 {
            (h, arity_error(ExpectedParamCount::Constant(1), n))
        } else {
            (h, OutcomeV::Return(ValueV::String(plain_text(args[0]))))
        },
        Builtin::StringLen | Builtin::StringLower | Builtin::StringUpper => if n != 1 {
            (h, arity_error(ExpectedParamCount::Constant(1), n))
        } else {
            match string_arg(args[0], builtin_name_of(b)) {
                Ok(s) => (h, OutcomeV::Return(
                    if b == Builtin::StringLen {
                        ValueV::Integer((vstd::utf8::encode_utf8(s).len() as usize) as i64)
                    } else if b == Builtin::StringLower {
                        ValueV::String(lowercase_text(s))
                    } else {
                        ValueV::String(uppercase_text(s))
                    },
                )),
                Err(o) => (h, o),
            }
        },
        Builtin::StringToInteger => if n < 1 || n > 2 {
            (h, arity_error(ExpectedParamCount::Range(1, 2), n))
        } else {
            match string_arg(args[0], builtin_name_of(b)) {
                Ok(s) => match base_arg(args) {
                    Ok(base) => if 2 <= base <= 36 {
                        (h, OutcomeV::Return(match parse_radix(s, base) {
                            Some(v) => ValueV::Integer(v),
                            None => ValueV::Nil,
                        }))
                    } else {
                        (h, OutcomeV::Fault(radix_panic_text(base as nat)))
                    },
                    Err(o) => (h, o),
                },
                Err(o) => (h, o),
            }
        },
        Builtin::ArrayNew => if n != 0 {
            (h, arity_error(ExpectedParamCount::Constant(0), n))
        } else {
            (HeapV { arrays: h.arrays.push(Seq::empty()), ..h }, OutcomeV::Return(ValueV::Array(h.arrays.len() as usize)))
        },
        Builtin::ArrayLen | Builtin::ArrayPop => if n != 1 {
            (h, arity_error(ExpectedParamCount::Constant(1), n))
        } else {
            match array_arg(h, args[0], builtin_name_of(b)) {
                Ok(a) => if b == Builtin::ArrayLen {
                    (h, OutcomeV::Return(ValueV::Integer(h.arrays[a].len() as i64)))
                } else if h.arrays[a].len() == 0 {
                    (h, OutcomeV::Return(ValueV::Nil))
                } else {
                    (
                        HeapV { arrays: h.arrays.update(a, h.arrays[a].drop_last()), ..h },
                        OutcomeV::Return(h.arrays[a].last()),
                    )
                },
                Err(o) => (h, o),
            }
        },
        Builtin::ArrayPush => if n != 2 {
            (h, arity_error(ExpectedParamCount::Constant(2), n))
        } else {
            match array_arg(h, args[0], builtin_name_of(b)) {
                Ok(a) => (
                    HeapV { arrays: h.arrays.update(a, h.arrays[a].push(args[1])), ..h },
                    OutcomeV::Return(ValueV::Nil),
                ),
                Err(o) => (h, o),
            }
        },
        Builtin::Native(id) => (h, OutcomeV::CallNative(id, args)),
    }
}

/// The name a built-in is known by in its errors.
pub open spec fn builtin_name_of(b: Builtin) -> Seq<char> {
    crate::builtin::builtin_name(b)
}

/// Who a type error in built-in `b`'s arguments names.
fn fn_info_string(b: &Builtin) -> (r: String)
    ensures
        r@ == fn_info(builtin_name_of(*b)),
{
    let mut out: Vec<char> = Vec::new();
    append_text(&mut out, "Built-in Function `");
    crate::builtin::append_builtin_name(&mut out, b);
    append_text(&mut out, "()`");
    proof {
        assert(out@ =~= fn_info(builtin_name_of(*b)));
    }
    string_of(&out)
}

/// The call raises this error.
fn raise(heap: &Heap, e: RuntimeError) -> (r: Outcome)
    ensures
        r@ == OutcomeV::Raise(error_text(heap@, e)),
{
    Outcome::Raise(error_message(heap, &e))
}

/// The call has the wrong number of arguments.
fn arity(heap: &Heap, expected: ExpectedParamCount, found: usize) -> (r: Outcome)
    ensures
        r@ == arity_error(expected, found as nat),
{
    raise(heap, RuntimeError::ParamError { expected, found })
}

/// An argument of built-in `b` is not of the type it takes.
fn wrong_type(heap: &Heap, b: &Builtin, expected: ValueType, v: &Value) -> (r: Outcome)
    ensures
        r@ == OutcomeV::Raise(type_error_text(fn_info(builtin_name_of(*b)), type_text(expected), type_text(type_of_value(v@)))),
{
    let thrower = fn_info_string(b);
    let found = value_type(v);
    raise(heap, RuntimeError::TypeError { expected, found, thrower: Some(thrower) })
}

fn dangling() -> (r: Outcome)
    ensures
        r@ == OutcomeV::Fault(dangling_text()),
{
    Outcome::Fault("reference to nothing in the heap".to_owned())
}

fn get_table_arg(heap: &Heap, v: &Value, b: &Builtin) -> (r: Result<usize, Outcome>)
    ensures
        match r {
            Ok(t) => table_arg(heap@, v@, builtin_name_of(*b)) == Ok::<int, OutcomeV>(t as int),
            Err(o) => table_arg(heap@, v@, builtin_name_of(*b)) == Err::<int, OutcomeV>(o@),
        },
{
    match v {
        Value::Table(t) => if *t < heap.tables.len() {
            Ok(*t)
        } else {
            Err(dangling())
        },
        _ => {
            proof {
                unfold_type_text(ValueType::Table);
            }
            Err(wrong_type(heap, b, ValueType::Table, v))
        },
    }
}

fn get_array_arg(heap: &Heap, v: &Value, b: &Builtin) -> (r: Result<usize, Outcome>)
    ensures
        match r {
            Ok(a) => array_arg(heap@, v@, builtin_name_of(*b)) == Ok::<int, OutcomeV>(a as int),
            Err(o) => array_arg(heap@, v@, builtin_name_of(*b)) == Err::<int, OutcomeV>(o@),
        },
{
    match v {
        Value::Array(a) => if *a < heap.arrays.len() {
            Ok(*a)
        } else {
            Err(dangling())
        },
        _ => Err(wrong_type(heap, b, ValueType::Array, v)),
    }
}

fn get_string_arg<'a>(heap: &Heap, v: &'a Value, b: &Builtin) -> (r: Result<&'a String, Outcome>)
    ensures
        match r {
            Ok(s) => string_arg(v@, builtin_name_of(*b)) == Ok::<Seq<char>, OutcomeV>(s@),
            Err(o) => string_arg(v@, builtin_name_of(*b)) == Err::<Seq<char>, OutcomeV>(o@),
        },
{
    match v {
        Value::String(s) => Ok(s),
        _ => Err(wrong_type(heap, b, ValueType::String, v)),
    }
}

fn get_base_arg(heap: &Heap, args: &Vec<Value>) -> (r: Result<u32, Outcome>)
    ensures
        match r {
            Ok(base) => base_arg(vals_v(args@)) == Ok::<u32, OutcomeV>(base),
            Err(o) => base_arg(vals_v(args@)) == Err::<u32, OutcomeV>(o@),
        },
{
    if args.len() < 2 {
        Ok(10u32)
    } else {
        match &args[1] {
            Value::Integer(n) => if 0 <= *n && *n <= 4294967295i64 {
                Ok(*n as u32)
            } else {
                let e = RuntimeError::OverflowError {
                    required: "u32".to_owned(),
                    found: "out of range integral type conversion attempted".to_owned(),
                };
                Err(raise(heap, e))
            },
            v => Err(wrong_type(heap, &Builtin::StringToInteger, ValueType::Integer, v)),
        }
    }
}

/// Calls built-in `b` with arguments `args` (see `builtin_call`).
pub fn call_builtin(heap: &mut Heap, b: Builtin, args: Vec<Value>) -> (r: Outcome)
    ensures
        (final(heap)@, r@) == builtin_call(old(heap)@, b, vals_v(args@)),
{
    let n = args.len();
    let ghost av = vals_v(args@);
    proof {
        assert(av.len() == n);
        assert forall|i: int| 0 <= i < n implies av[i] == args@[i]@ by {}
    }
    match b {
        Builtin::Println => Outcome::Print(println_line(&args)),
        Builtin::Input => if n > 1 {
            arity(heap, ExpectedParamCount::Range(0, 1), n)
        } else if n == 1 {
            match get_string_arg(heap, &args[0], &b) {
                Ok(s) => Outcome::Ask(s.clone()),
                Err(o) => o,
            }
        } else {
            Outcome::Ask(String::new())
        },
        Builtin::Repr => if n != 1 {
            arity(heap, ExpectedParamCount::Constant(1), n)
        } else {
            Outcome::Return(Value::String(repr(heap, &args[0])))
        },
        Builtin::Type => if n != 1 {
            arity(heap, ExpectedParamCount::Constant(1), n)
        } else {
            Outcome::Return(Value::String(type_of(&args[0])))
        },
        Builtin::Table => if n != 0 {
            arity(heap, ExpectedParamCount::Constant(0), n)
        } else {
            Outcome::Return(Table(heap))
        },
        Builtin::GetMetatableOf | Builtin::ClearMetatableOf | Builtin::GetPrototypeOf
        | Builtin::ClearPrototypeOf => if n != 1 {
            arity(heap, ExpectedParamCount::Constant(1), n)
        } else {
            match get_table_arg(heap, &args[0], &b) {
                Ok(t) => match b {
                    Builtin::GetMetatableOf => Outcome::Return(getMetatableOf(heap, t)),
                    Builtin::ClearMetatableOf => {
                        clearMetatableOf(heap, t);
                        Outcome::Return(Value::Nil)
                    },
                    Builtin::GetPrototypeOf => Outcome::Return(getPrototypeOf(heap, t)),
                    _ => {
                        clearPrototypeOf(heap, t);
                        Outcome::Return(Value::Nil)
                    },
                },
                Err(o) => o,
            }
        },
        Builtin::SetMetatableOf | Builtin::SetPrototypeOf => if n != 2 {
            arity(heap, ExpectedParamCount::Constant(2), n)
        } else {
            match get_table_arg(heap, &args[0], &b) {
                Ok(t) => match get_table_arg(heap, &args[1], &b) {
                    Ok(other) => {
                        if b == Builtin::SetMetatableOf {
                            setMetatableOf(heap, t, other);
                        } else {
                            setPrototypeOf(heap, t, other);
                        }
                        Outcome::Return(Value::Nil)
                    },
                    Err(o) => o,
                },
                Err(o) => o,
            }
        },
        Builtin::StringFrom => if n != 1 {
            arity(heap, ExpectedParamCount::Constant(1), n)
        } else {
            Outcome::Return(String_from(&args[0]))
        },
        Builtin::StringLen | Builtin::StringLower | Builtin::StringUpper => if n != 1 {
            arity(heap, ExpectedParamCount::Constant(1), n)
        } else {
            match get_string_arg(heap, &args[0], &b) {
                Ok(s) => if b == Builtin::StringLen {
                    Outcome::Return(Value::Integer(String_len(s)))
                } else if b == Builtin::StringLower {
                    Outcome::Return(Value::String(String_lower(s)))
                } else {
                    Outcome::Return(Value::String(String_upper(s)))
                },
                Err(o) => o,
            }
        },
        Builtin::StringToInteger => if n < 1 || n > 2 {
            arity(heap, ExpectedParamCount::Range(1, 2), n)
        } else {
            match get_string_arg(heap, &args[0], &b) {
                Ok(s) => match get_base_arg(heap, &args) {
                    Ok(base) => if 2 <= base && base <= 36 {
                        Outcome::Return(String_toInteger(s, base))
                    } else {
                        let mut out: Vec<char> = Vec::new();
                        append_text(&mut out, "from_str_radix_int: must lie in the range `[2, 36]` - found ");
                        let d = usize_chars(base as usize);
                        append(&mut out, &d);
                        Outcome::Fault(string_of(&out))
                    },
                    Err(o) => o,
                },
                Err(o) => o,
            }
        },
        Builtin::ArrayNew => if n != 0 {
            arity(heap, ExpectedParamCount::Constant(0), n)
        } else {
            Outcome::Return(Array_new(heap))
        },
        Builtin::ArrayLen | Builtin::ArrayPop => if n != 1 {
            arity(heap, ExpectedParamCount::Constant(1), n)
        } else {
            match get_array_arg(heap, &args[0], &b) {
                Ok(a) => if b == Builtin::ArrayLen {
                    Outcome::Return(Value::Integer(Array_len(heap, a)))
                } else {
                    Outcome::Return(Array_pop(heap, a))
                },
                Err(o) => o,
            }
        },
        Builtin::ArrayPush => if n != 2 {
            arity(heap, ExpectedParamCount::Constant(2), n)
        } else {
            match get_array_arg(heap, &args[0], &b) {
                Ok(a) => {
                    let v = args[1].duplicate();
                    Array_push(heap, a, v);
                    Outcome::Return(Value::Nil)
                },
                Err(o) => o,
            }
        },
        Builtin::Native(id) => Outcome::CallNative(id, args),
    }
}

} // verus!
