use atoy::builtin::{
    clearMetatableOf, clearPrototypeOf, getMetatableOf, getPrototypeOf, repr, setMetatableOf,
    setPrototypeOf, trim_line, Array_len, Array_new, Array_pop, Array_push, String_from,
    String_len, String_lower, String_toInteger, String_upper, Table,
};
use atoy::heap::{entry_get, entry_set, index, Heap};
use atoy::invoke::{call_builtin, Outcome};
use atoy::runtime::{Args, ExpectedParamCount, RuntimeError};
use atoy::value::{Builtin, Value};

#[test]
fn string_length_counts_bytes() {
    assert_eq!(String_len(&"abc".to_owned()), 3);
    assert_eq!(String_len(&"héllo".to_owned()), 6);
    assert_eq!(String_len(&"".to_owned()), 0);
}

#[test]
fn string_case() {
    assert_eq!(String_lower(&"AbC".to_owned()), "abc");
    assert_eq!(String_upper(&"straße".to_owned()), "STRASSE");
}

#[test]
fn string_to_integer() {
    assert_eq!(String_toInteger(&"ff".to_owned(), 16), Value::Integer(255));
    assert_eq!(String_toInteger(&"-12".to_owned(), 10), Value::Integer(-12));
    assert_eq!(String_toInteger(&"12x".to_owned(), 10), Value::Nil);
}

#[test]
fn string_from_values() {
    assert_eq!(String_from(&Value::Integer(-3)), Value::String("-3".to_owned()));
    assert_eq!(String_from(&Value::String("s".to_owned())), Value::String("s".to_owned()));
    assert_eq!(String_from(&Value::Nil), Value::String("None".to_owned()));
    assert_eq!(Value::Bool(false).to_string(), "false");
    assert_eq!(Value::Float("2.5".to_owned()).to_string(), "2.5");
}

#[test]
fn tables_and_prototypes() {
    let mut heap = Heap::new();
    let t = Table(&mut heap);
    let p = Table(&mut heap);
    assert_eq!(t, Value::Table(0));
    assert_eq!(p, Value::Table(1));
    assert_eq!(getPrototypeOf(&heap, 0), Value::Nil);
    setPrototypeOf(&mut heap, 0, 1);
    assert_eq!(getPrototypeOf(&heap, 0), Value::Table(1));
    clearPrototypeOf(&mut heap, 0);
    assert_eq!(getPrototypeOf(&heap, 0), Value::Nil);
    setMetatableOf(&mut heap, 1, 0);
    assert_eq!(getMetatableOf(&heap, 1), Value::Table(0));
    clearMetatableOf(&mut heap, 1);
    assert_eq!(getMetatableOf(&heap, 1), Value::Nil);
}

#[test]
fn index_follows_the_prototype_chain() {
    let mut heap = Heap::new();
    let _ = Table(&mut heap);
    let _ = Table(&mut heap);
    heap.tables[1].data.push((Value::String("k".to_owned()), Value::Integer(7)));
    setPrototypeOf(&mut heap, 0, 1);
    assert_eq!(index(&heap, 0, &Value::String("k".to_owned())), Some(Value::Integer(7)));
    assert_eq!(index(&heap, 0, &Value::String("z".to_owned())), Some(Value::Nil));
    setPrototypeOf(&mut heap, 1, 0);
    assert_eq!(index(&heap, 0, &Value::String("z".to_owned())), None);
}

#[test]
fn arrays() {
    let mut heap = Heap::new();
    let a = Array_new(&mut heap);
    assert_eq!(a, Value::Array(0));
    assert_eq!(Array_len(&heap, 0), 0);
    Array_push(&mut heap, 0, Value::Integer(5));
    Array_push(&mut heap, 0, Value::Bool(true));
    assert_eq!(Array_len(&heap, 0), 2);
    assert_eq!(Array_pop(&mut heap, 0), Value::Bool(true));
    assert_eq!(Array_pop(&mut heap, 0), Value::Integer(5));
    assert_eq!(Array_pop(&mut heap, 0), Value::Nil);
}

#[test]
fn repr_numbers_what_it_has_shown() {
    let mut heap = Heap::new();
    let _ = Array_new(&mut heap);
    Array_push(&mut heap, 0, Value::Integer(1));
    Array_push(&mut heap, 0, Value::Integer(1));
    Array_push(&mut heap, 0, Value::Array(0));
    Array_push(&mut heap, 0, Value::String("s".to_owned()));
    assert_eq!(repr(&heap, &Value::Array(0)), "Array#0 [1, 1, #0, \"s\"]");
    let _ = Table(&mut heap);
    heap.tables[0].data.push((Value::String("k".to_owned()), Value::Array(0)));
    assert_eq!(repr(&heap, &Value::Table(0)), "Table#0 {[\"k\"]: Array#1 [1, 1, #1, \"s\"]}");
}

#[test]
fn builtin_argument_checks() {
    let mut heap = Heap::new();
    assert_eq!(
        call_builtin(&mut heap, Builtin::StringLen, vec![]),
        Outcome::Raise("ParamError: Function takes 1 args but 0 were provided".to_owned())
    );
    assert_eq!(
        call_builtin(&mut heap, Builtin::StringLen, vec![Value::Integer(1)]),
        Outcome::Raise("TypeError: Built-in Function `String_len()` expected type string but found int".to_owned())
    );
    assert_eq!(
        call_builtin(&mut heap, Builtin::StringToInteger, vec![Value::String("7".to_owned()), Value::Integer(-1)]),
        Outcome::Raise("OverflowError: Required u32 but found out of range integral type conversion attempted".to_owned())
    );
    assert_eq!(
        call_builtin(&mut heap, Builtin::Input, vec![Value::Nil, Value::Nil]),
        Outcome::Raise("ParamError: Function takes 0~1 args but 2 were provided".to_owned())
    );
    assert_eq!(
        call_builtin(&mut heap, Builtin::SetPrototypeOf, vec![Value::Integer(1), Value::Nil]),
        Outcome::Raise("TypeError: Built-in Function `setPrototypeOf()` expected type table but found int".to_owned())
    );
    assert_eq!(
        call_builtin(&mut heap, Builtin::StringToInteger, vec![Value::String("7".to_owned()), Value::Integer(40)]),
        Outcome::Fault("from_str_radix_int: must lie in the range `[2, 36]` - found 40".to_owned())
    );
    assert_eq!(
        call_builtin(&mut heap, Builtin::Type, vec![Value::Float("1.5".to_owned())]),
        Outcome::Return(Value::String("float".to_owned()))
    );
}

#[test]
fn input_line_endings() {
    assert_eq!(trim_line(&"abc\r\n".to_owned()), "abc");
    assert_eq!(trim_line(&"abc\n".to_owned()), "abc");
    assert_eq!(trim_line(&"abc".to_owned()), "abc");
}

#[test]
fn truthiness() {
    assert!(!Value::Nil.is_truthy());
    assert!(!Value::Integer(0).is_truthy());
    assert!(Value::Integer(-1).is_truthy());
    assert!(!Value::Float("0".to_owned()).is_truthy());
    assert!(!Value::Float("NaN".to_owned()).is_truthy());
    assert!(Value::Float("0.5".to_owned()).is_truthy());
    assert!(Value::String("".to_owned()).is_truthy());
    assert!(!Value::String("a".to_owned()).is_truthy());
    assert!(Value::Table(0).is_truthy());
    assert!(Value::Func(3).is_truthy());
}

#[test]
fn argument_counts() {
    let args = Args::new(vec![Value::Integer(1), Value::Nil]);
    assert_eq!(args.get_arg(1), Ok(&Value::Nil));
    assert_eq!(
        args.get_arg(2),
        Err(RuntimeError::ParamError { expected: ExpectedParamCount::Constant(3), found: 2 })
    );
    assert_eq!(
        Args::new(vec![]).get_arg(0),
        Err(RuntimeError::ParamError { expected: ExpectedParamCount::Constant(1), found: 0 })
    );
    assert_eq!(args.ensure_len(2), Ok(()));
    assert_eq!(
        args.ensure_len(3),
        Err(RuntimeError::ParamError { expected: ExpectedParamCount::Constant(3), found: 2 })
    );
    assert_eq!(args.ensure_len_ranged(1, 2), Ok(()));
    assert_eq!(
        args.ensure_len_ranged(0, 1),
        Err(RuntimeError::ParamError { expected: ExpectedParamCount::Range(0, 1), found: 2 })
    );
}

#[test]
fn string_to_integer_signs_and_bounds() {
    assert_eq!(String_toInteger(&"+7".to_owned(), 10), Value::Integer(7));
    assert_eq!(String_toInteger(&"-".to_owned(), 10), Value::Nil);
    assert_eq!(String_toInteger(&"".to_owned(), 10), Value::Nil);
    assert_eq!(String_toInteger(&"Zz".to_owned(), 36), Value::Integer(35 * 36 + 35));
    assert_eq!(String_toInteger(&"-9223372036854775808".to_owned(), 10), Value::Integer(i64::MIN));
    assert_eq!(String_toInteger(&"9223372036854775808".to_owned(), 10), Value::Nil);
}

#[test]
fn repr_shows_repeated_plain_values_in_full() {
    let mut heap = Heap::new();
    let _ = Array_new(&mut heap);
    Array_push(&mut heap, 0, Value::Integer(1));
    Array_push(&mut heap, 0, Value::Integer(1));
    assert_eq!(repr(&heap, &Value::Array(0)), "Array#0 [1, 1]");
}

#[test]
fn setting_a_key_again_replaces_its_entry() {
    let mut data: Vec<(Value, Value)> = Vec::new();
    entry_set(&mut data, Value::String("x".to_owned()), Value::Integer(1));
    entry_set(&mut data, Value::Integer(2), Value::Bool(true));
    entry_set(&mut data, Value::String("x".to_owned()), Value::Integer(3));
    assert_eq!(data.len(), 2);
    assert_eq!(entry_get(&data, &Value::String("x".to_owned())), Some(Value::Integer(3)));
}
