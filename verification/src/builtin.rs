//! The built-in functions of the language, and how values are shown.

#![allow(non_snake_case)]

use vstd::prelude::*;
use crate::value::{Value, ValueV, Builtin};
use crate::heap::{Heap, HeapV, TableData, TableV, vals_v, empty_table};
use crate::runtime::{RuntimeError, count_text, type_text, append_count, append_type};
use crate::text::{nat_text, int_text, usize_chars, int_chars, append, append_text, string_of, text};

verus! {

/// The name a built-in is known by (a registered one by its number).
pub open spec fn builtin_name(b: Builtin) -> Seq<char> {
    match b {
        Builtin::Println => "println"@,
        Builtin::Input => "input"@,
        Builtin::Repr => "repr"@,
        Builtin::Type => "type"@,
        Builtin::Table => "Table"@,
        Builtin::GetMetatableOf => "getMetatableOf"@,
        Builtin::SetMetatableOf => "setMetatableOf"@,
        Builtin::ClearMetatableOf => "clearMetatableOf"@,
        Builtin::GetPrototypeOf => "getPrototypeOf"@,
        Builtin::SetPrototypeOf => "setPrototypeOf"@,
        Builtin::ClearPrototypeOf => "clearPrototypeOf"@,
        Builtin::StringFrom => "String_from"@,
        Builtin::StringLen => "String_len"@,
        Builtin::StringToInteger => "String_toInteger"@,
        Builtin::StringLower => "String_lower"@,
        Builtin::StringUpper => "String_upper"@,
        Builtin::ArrayNew => "Array_new"@,
        Builtin::ArrayLen => "Array_len"@,
        Builtin::ArrayPush => "Array_push"@,
        Builtin::ArrayPop => "Array_pop"@,
        Builtin::Native(n) => "native#"@ + nat_text(n as nat),
    }
}

/// Appends the name of a built-in.
pub fn append_builtin_name(out: &mut Vec<char>, b: &Builtin)
    ensures
        final(out)@ == old(out)@ + builtin_name(*b),
{
    match b {
        Builtin::Println => append_text(out, "println"),
        Builtin::Input => append_text(out, "input"),
        Builtin::Repr => append_text(out, "repr"),
        Builtin::Type => append_text(out, "type"),
        Builtin::Table => append_text(out, "Table"),
        Builtin::GetMetatableOf => append_text(out, "getMetatableOf"),
        Builtin::SetMetatableOf => append_text(out, "setMetatableOf"),
        Builtin::ClearMetatableOf => append_text(out, "clearMetatableOf"),
        Builtin::GetPrototypeOf => append_text(out, "getPrototypeOf"),
        Builtin::SetPrototypeOf => append_text(out, "setPrototypeOf"),
        Builtin::ClearPrototypeOf => append_text(out, "clearPrototypeOf"),
        Builtin::StringFrom => append_text(out, "String_from"),
        Builtin::StringLen => append_text(out, "String_len"),
        Builtin::StringToInteger => append_text(out, "String_toInteger"),
        Builtin::StringLower => append_text(out, "String_lower"),
        Builtin::StringUpper => append_text(out, "String_upper"),
        Builtin::ArrayNew => append_text(out, "Array_new"),
        Builtin::ArrayLen => append_text(out, "Array_len"),
        Builtin::ArrayPush => append_text(out, "Array_push"),
        Builtin::ArrayPop => append_text(out, "Array_pop"),
        Builtin::Native(n) => {
            append_text(out, "native#");
            let d = usize_chars(*n);
            append(out, &d);
            proof {
                assert(out@ =~= old(out)@ + builtin_name(*b));
            }
        },
    }
}

/// The text of a value as `to_string` gives it: a string is its own text;
/// functions, arrays and tables are shown by the heap index that identifies them.
pub open spec fn plain_text(v: ValueV) -> Seq<char> {
    match v {
        ValueV::Float(t) => t,
        ValueV::Integer(n) => int_text(n as int),
        ValueV::Bool(b) => if b { "true"@ } else { "false"@ },
        ValueV::String(s) => s,
        ValueV::BuiltInFunc(b) => "Builtin Function at "@ + builtin_name(b),
        ValueV::Func(i) => "Function at #"@ + nat_text(i as nat),
        ValueV::Array(i) => "Array at #"@ + nat_text(i as nat),
        ValueV::Table(i) => "Table at #"@ + nat_text(i as nat),
        ValueV::Nil => "None"@,
    }
}

/// The text of a value as `Display` shows it: as `plain_text`, but a string
/// in double quotes.
pub open spec fn shown_text(v: ValueV) -> Seq<char> {
    match v {
        ValueV::String(s) => "\""@ + s + "\""@,
        _ => plain_text(v),
    }
}

/// Appends the text of a value as `to_string` gives it.
pub fn append_plain(out: &mut Vec<char>, v: &Value)
    ensures
        final(out)@ == old(out)@ + plain_text(v@),
{
    match v {
        Value::Float(t) => {
            let c = crate::text::chars_of(t);
            append(out, &c);
        },
        Value::Integer(n) => {
            let c = int_chars(*n);
            append(out, &c);
        },
        Value::Bool(b) => {
            if *b {
                append_text(out, "true");
            } else {
                append_text(out, "false");
            }
        },
        Value::String(s) => {
            let c = crate::text::chars_of(s);
            append(out, &c);
        },
        Value::BuiltInFunc(b) => {
            append_text(out, "Builtin Function at ");
            append_builtin_name(out, b);
            proof {
                assert(out@ =~= old(out)@ + plain_text(v@));
            }
        },
        Value::Func(i) => {
            append_text(out, "Function at #");
            let c = usize_chars(*i);
            append(out, &c);
            proof {
                assert(out@ =~= old(out)@ + plain_text(v@));
            }
        },
        Value::Array(i) => {
            append_text(out, "Array at #");
            let c = usize_chars(*i);
            append(out, &c);
            proof {
                assert(out@ =~= old(out)@ + plain_text(v@));
            }
        },
        Value::Table(i) => {
            append_text(out, "Table at #");
            let c = usize_chars(*i);
            append(out, &c);
            proof {
                assert(out@ =~= old(out)@ + plain_text(v@));
            }
        },
        Value::Nil => append_text(out, "None"),
    }
}

/// Appends the text of a value as `Display` shows it.
pub fn append_shown(out: &mut Vec<char>, v: &Value)
    ensures
        final(out)@ == old(out)@ + shown_text(v@),
{
    match v {
        Value::String(s) => {
            append_text(out, "\"");
            let c = crate::text::chars_of(s);
            append(out, &c);
            append_text(out, "\"");
            proof {
                assert(out@ =~= old(out)@ + shown_text(v@));
            }
        },
        _ => append_plain(out, v),
    }
}

impl Value {
    /// The text of the value (see `plain_text`).
    pub fn to_string(&self) -> (r: String)
        ensures
            r@ == plain_text(self@),
    {
        let mut out: Vec<char> = Vec::new();
        append_plain(&mut out, self);
        proof {
            assert(out@ =~= plain_text(self@));
        }
        string_of(&out)
    }

    /// Whether the value counts as true (see `truthy`).
    pub fn is_truthy(&self) -> (r: bool)
        ensures
            r == truthy(self@),
    {
        match self {
            Value::Integer(n) => *n != 0,
            Value::Float(t) => {
                let zero = "0".to_owned();
                let neg_zero = "-0".to_owned();
                let nan = "NaN".to_owned();
                !(*t == zero || *t == neg_zero || *t == nan)
            },
            Value::Bool(b) => *b,
            Value::String(s) => {
                let c = crate::text::chars_of(s);
                c.len() == 0
            },
            Value::Nil => false,
            _ => true,
        }
    }
}

/// The text of a value as `Display` shows it.
pub fn show(v: &Value) -> (r: String)
    ensures
        r@ == shown_text(v@),
{
    let mut out: Vec<char> = Vec::new();
    append_shown(&mut out, v);
    proof {
        assert(out@ =~= shown_text(v@));
    }
    string_of(&out)
}

/// Whether a value counts as true: `None` and the numbers zero and NaN do
/// not, a boolean is itself, functions, arrays and tables do, and a string
/// does when it is empty.
pub open spec fn truthy(v: ValueV) -> bool {
    match v {
        ValueV::Integer(n) => n != 0,
        ValueV::Float(t) => !(t == "0"@ || t == "-0"@ || t == "NaN"@),
        ValueV::Bool(b) => b,
        ValueV::String(s) => s.len() == 0,
        ValueV::Nil => false,
        _ => true,
    }
}

/// The name of a value's type, as `type` gives it.
pub open spec fn kind_name(v: ValueV) -> Seq<char> {
    match v {
        ValueV::Integer(_) => "int"@,
        ValueV::Float(_) => "float"@,
        ValueV::Bool(_) => "bool"@,
        ValueV::Func(_) => "function"@,
        ValueV::BuiltInFunc(_) => "function"@,
        ValueV::Nil => "none"@,
        ValueV::String(_) => "string"@,
        ValueV::Array(_) => "array"@,
        ValueV::Table(_) => "table"@,
    }
}

/// The name of a value's type (the built-in `type`).
pub fn type_of(v: &Value) -> (r: String)
    ensures
        r@ == kind_name(v@),
{
    let s = match v {
        Value::Integer(_) => "int",
        Value::Float(_) => "float",
        Value::Bool(_) => "bool",
        Value::Func(_) => "function",
        Value::BuiltInFunc(_) => "function",
        Value::Nil => "none",
        Value::String(_) => "string",
        Value::Array(_) => "array",
        Value::Table(_) => "table",
    };
    s.to_owned()
}

/// The heap with one more table, empty.
pub open spec fn heap_with_new_table(h: HeapV) -> HeapV {
    HeapV { tables: h.tables.push(empty_table()), ..h }
}

/// Makes a new empty table (the built-in `Table`).
pub fn Table(heap: &mut Heap) -> (r: Value)
    ensures
        final(heap)@ == heap_with_new_table(old(heap)@),
        r@ == ValueV::Table(old(heap)@.tables.len() as usize),
        r matches Value::Table(i) && i == old(heap)@.tables.len(),
{
    let i = heap.tables.len();
    let t = TableData { data: Vec::new(), meta: None, prototype: None };
    proof {
        assert(t@.data =~= Seq::<(ValueV, ValueV)>::empty());
    }
    heap.tables.push(t);
    proof {
        assert(heap@.tables =~= old(heap)@.tables.push(empty_table()));
    }
    Value::Table(i)
}

/// Makes a new empty array (the method `Array.new`).
pub fn Array_new(heap: &mut Heap) -> (r: Value)
    ensures
        final(heap)@ == (HeapV { arrays: old(heap)@.arrays.push(Seq::empty()), ..old(heap)@ }),
        r@ == ValueV::Array(old(heap)@.arrays.len() as usize),
        r matches Value::Array(i) && i == old(heap)@.arrays.len(),
{
    let i = heap.arrays.len();
    let a: Vec<Value> = Vec::new();
    proof {
        assert(vals_v(a@) =~= Seq::<ValueV>::empty());
    }
    heap.arrays.push(a);
    proof {
        assert(heap@.arrays =~= old(heap)@.arrays.push(Seq::empty()));
    }
    Value::Array(i)
}

/// The heap with table `t`'s prototype changed.
pub open spec fn heap_with_prototype(h: HeapV, t: int, p: Option<usize>) -> HeapV {
    HeapV { tables: h.tables.update(t, TableV { prototype: p, ..h.tables[t] }), ..h }
}

/// The heap with table `t`'s metatable changed.
pub open spec fn heap_with_meta(h: HeapV, t: int, m: Option<usize>) -> HeapV {
    HeapV { tables: h.tables.update(t, TableV { meta: m, ..h.tables[t] }), ..h }
}

/// Sets the prototype of a table.
pub fn setPrototypeOf(heap: &mut Heap, target: usize, prototype: usize)
    requires
        target < old(heap)@.tables.len(),
    ensures
        final(heap)@ == heap_with_prototype(old(heap)@, target as int, Some(prototype)),
{
    heap.tables[target].prototype = Some(prototype);
    proof {
        assert(heap@.tables =~= heap_with_prototype(old(heap)@, target as int, Some(prototype)).tables);
    }
}

/// Removes the prototype of a table.
pub fn clearPrototypeOf(heap: &mut Heap, target: usize)
    requires
        target < old(heap)@.tables.len(),
    ensures
        final(heap)@ == heap_with_prototype(old(heap)@, target as int, None),
{
    heap.tables[target].prototype = None;
    proof {
        assert(heap@.tables =~= heap_with_prototype(old(heap)@, target as int, None).tables);
    }
}

/// The prototype of a table, or `None`.
pub fn getPrototypeOf(heap: &Heap, target: usize) -> (r: Value)
    requires
        target < heap@.tables.len(),
    ensures
        r@ == (match heap@.tables[target as int].prototype {
            Some(p) => ValueV::Table(p),
            None => ValueV::Nil,
        }),
{
    proof {
        assert(heap@.tables[target as int] == heap.tables@[target as int]@);
    }
    match heap.tables[target].prototype {
        Some(p) => Value::Table(p),
        None => Value::Nil,
    }
}

/// Sets the metatable of a table.
pub fn setMetatableOf(heap: &mut Heap, target: usize, meta: usize)
    requires
        target < old(heap)@.tables.len(),
    ensures
        final(heap)@ == heap_with_meta(old(heap)@, target as int, Some(meta)),
{
    heap.tables[target].meta = Some(meta);
    proof {
        assert(heap@.tables =~= heap_with_meta(old(heap)@, target as int, Some(meta)).tables);
    }
}

/// Removes the metatable of a table.
pub fn clearMetatableOf(heap: &mut Heap, target: usize)
    requires
        target < old(heap)@.tables.len(),
    ensures
        final(heap)@ == heap_with_meta(old(heap)@, target as int, None),
{
    heap.tables[target].meta = None;
    proof {
        assert(heap@.tables =~= heap_with_meta(old(heap)@, target as int, None).tables);
    }
}

/// The metatable of a table, or `None`.
pub fn getMetatableOf(heap: &Heap, target: usize) -> (r: Value)
    requires
        target < heap@.tables.len(),
    ensures
        r@ == (match heap@.tables[target as int].meta {
            Some(m) => ValueV::Table(m),
            None => ValueV::Nil,
        }),
{
    proof {
        assert(heap@.tables[target as int] == heap.tables@[target as int]@);
    }
    match heap.tables[target].meta {
        Some(m) => Value::Table(m),
        None => Value::Nil,
    }
}

/// The number of elements of an array.
pub fn Array_len(heap: &Heap, array: usize) -> (r: i64)
    requires
        array < heap@.arrays.len(),
    ensures
        r == heap@.arrays[array as int].len() as i64,
{
    proof {
        assert(heap@.arrays[array as int] == vals_v(heap.arrays@[array as int]@));
    }
    heap.arrays[array].len() as i64
}

/// Appends a value to an array.
pub fn Array_push(heap: &mut Heap, array: usize, value: Value)
    requires
        array < old(heap)@.arrays.len(),
    ensures
        final(heap)@ == (HeapV {
            arrays: old(heap)@.arrays.update(array as int, old(heap)@.arrays[array as int].push(value@)),
            ..old(heap)@
        }),
{
    let ghost v = value@;
    heap.arrays[array].push(value);
    proof {
        assert(vals_v(heap.arrays@[array as int]@) =~= old(heap)@.arrays[array as int].push(v));
        assert(heap@.arrays =~= old(heap)@.arrays.update(array as int, old(heap)@.arrays[array as int].push(v)));
    }
}

/// Removes and returns the last element of an array, or `None` when it is empty.
pub fn Array_pop(heap: &mut Heap, array: usize) -> (r: Value)
    requires
        array < old(heap)@.arrays.len(),
    ensures
        old(heap)@.arrays[array as int].len() == 0 ==> r@ == ValueV::Nil && final(heap)@ == old(heap)@,
        old(heap)@.arrays[array as int].len() > 0 ==> r@ == old(heap)@.arrays[array as int].last() && final(heap)@
            == (HeapV {
            arrays: old(heap)@.arrays.update(array as int, old(heap)@.arrays[array as int].drop_last()),
            ..old(heap)@
        }),
{
    proof {
        assert(old(heap)@.arrays[array as int] == vals_v(old(heap).arrays@[array as int]@));
    }
    match heap.arrays[array].pop() {
        Some(v) => {
            proof {
                assert(vals_v(heap.arrays@[array as int]@) =~= old(heap)@.arrays[array as int].drop_last());
                assert(heap@.arrays =~= old(heap)@.arrays.update(array as int, old(heap)@.arrays[array as int].drop_last()));
            }
            v
        },
        None => {
            proof {
                assert(heap@.arrays =~= old(heap)@.arrays);
            }
            Value::Nil
        },
    }
}

/// The length in bytes of a string (the method `len`): the length of its
/// UTF-8 encoding.
pub fn String_len(val: &String) -> (r: i64)
    ensures
        r == (vstd::utf8::encode_utf8(val@).len() as usize) as i64,
{
    let s = val.as_str();
    let n = s.len();
    n as i64
}

/// A name for what `str::to_lowercase` gives: the lowercase mapping of each
/// character by Unicode's tables, which may turn one character into several.
pub uninterp spec fn lowercase_text(s: Seq<char>) -> Seq<char>;

/// A name for what `str::to_uppercase` gives: the uppercase mapping of each
/// character by Unicode's tables, which may turn one character into several.
pub uninterp spec fn uppercase_text(s: Seq<char>) -> Seq<char>;

/// The value of `c` as a digit in base `radix` (as `char::to_digit` reads
/// it: `0`-`9`, then letters of either case from 10 on), if it is one.
pub open spec fn radix_digit(c: char, radix: u32) -> Option<int> {
    let d: int = if '0' <= c <= '9' {
        c as int - '0' as int
    } else if 'a' <= c <= 'z' {
        c as int - 'a' as int + 10
    } else if 'A' <= c <= 'Z' {
        c as int - 'A' as int + 10
    } else {
        radix as int
    };
    if d < radix {
        Some(d)
    } else {
        None
    }
}

/// The number written by the digits `t` in base `radix`, if each is a digit.
pub open spec fn radix_value(t: Seq<char>, radix: u32) -> Option<int>
    decreases t.len(),
{
    if t.len() == 0 {
        Some(0)
    } else {
        match (radix_value(t.drop_last(), radix), radix_digit(t.last(), radix)) {
            (Some(a), Some(d)) => Some(a * radix + d),
            _ => None,
        }
    }
}

/// What `i64::from_str_radix` gives on a text and a radix from 2 to 36: an
/// optional `+` or `-`, then one or more digits of the radix, read as a
/// number that fits in an `i64`; nothing on any other text.
pub open spec fn parse_radix(s: Seq<char>, radix: u32) -> Option<i64> {
    let neg = s.len() > 0 && s[0] == '-';
    let digits = if s.len() > 0 && (s[0] == '-' || s[0] == '+') { s.drop_first() } else { s };
    if digits.len() == 0 {
        None
    } else {
        match radix_value(digits, radix) {
            Some(v) => {
                let x = if neg { -v } else { v };
                if i64::MIN <= x <= i64::MAX {
                    Some(x as i64)
                } else {
                    None
                }
            },
            None => None,
        }
    }
}

/// `str::to_lowercase`. The contract names the result: it depends on the
/// text alone; the mapping follows Unicode's tables and is not restated.
#[verifier::external_body]
fn to_lowercase(s: &String) -> (r: String)
    ensures
        r@ == lowercase_text(s@),
{
    s.to_lowercase()
}

/// `str::to_uppercase`. The contract names the result: it depends on the
/// text alone; the mapping follows Unicode's tables and is not restated.
#[verifier::external_body]
fn to_uppercase(s: &String) -> (r: String)
    ensures
        r@ == uppercase_text(s@),
{
    s.to_uppercase()
}

/// `i64::from_str_radix`, which panics on a radix outside 2 to 36 (so
/// `requires` leaves those out). The contract states the number it reads
/// and the texts it accepts (see `parse_radix`).
#[verifier::external_body]
fn from_str_radix(s: &String, radix: u32) -> (r: Option<i64>)
    requires
        2 <= radix <= 36,
    ensures
        r == parse_radix(s@, radix),
{
    match i64::from_str_radix(s.as_str(), radix) {
        Ok(n) => Some(n),
        Err(_) => None,
    }
}

/// The string in lower case (the method `lower`).
pub fn String_lower(val: &String) -> (r: String)
    ensures
        r@ == lowercase_text(val@),
{
    to_lowercase(val)
}

/// The string in upper case (the method `upper`).
pub fn String_upper(val: &String) -> (r: String)
    ensures
        r@ == uppercase_text(val@),
{
    to_uppercase(val)
}

/// What `toInteger` gives for what parsing found: the number, or `None`.
pub fn integer_or_none(parsed: Option<i64>) -> (r: Value)
    ensures
        r@ == (match parsed {
            Some(n) => ValueV::Integer(n),
            None => ValueV::Nil,
        }),
{
    match parsed {
        Some(n) => Value::Integer(n),
        None => Value::Nil,
    }
}

/// The string read as an integer in the given base (the method
/// `toInteger`), or `None` where it is not one. The base must be from 2 to
/// 36; no other base is accepted.
pub fn String_toInteger(val: &String, base: u32) -> (r: Value)
    requires
        2 <= base <= 36,
    ensures
        r@ == (match parse_radix(val@, base) {
            Some(n) => ValueV::Integer(n),
            None => ValueV::Nil,
        }),
{
    let parsed = from_str_radix(val, base);
    integer_or_none(parsed)
}

/// A value as a string (the method `String.from`): a string is itself, any
/// other value its `to_string` text.
pub fn String_from(val: &Value) -> (r: Value)
    ensures
        r@ == ValueV::String(plain_text(val@)),
{
    match val {
        Value::String(s) => Value::String(s.clone()),
        _ => Value::String(val.to_string()),
    }
}

/// The line that `println` prints: the values' `to_string` texts, separated
/// by single spaces.
pub open spec fn println_text(vals: Seq<ValueV>) -> Seq<char>
    decreases vals.len(),
{
    if vals.len() == 0 {
        Seq::empty()
    } else if vals.len() == 1 {
        plain_text(vals[0])
    } else {
        println_text(vals.drop_last()) + " "@ + plain_text(vals.last())
    }
}

/// The line that `println` prints for its arguments.
pub fn println_line(vals: &Vec<Value>) -> (r: String)
    ensures
        r@ == println_text(vals_v(vals@)),
{
    let mut out: Vec<char> = Vec::new();
    let mut i: usize = 0;
    while i < vals.len()
        invariant
            i <= vals.len(),
            out@ == println_text(vals_v(vals@.take(i as int))),
        decreases vals.len() - i,
    {
        proof {
            assert(vals_v(vals@.take(i + 1)).drop_last() =~= vals_v(vals@.take(i as int)));
            assert(vals_v(vals@.take(i + 1)).last() == vals@[i as int]@);
        }
        if i > 0 {
            append_text(&mut out, " ");
        }
        append_plain(&mut out, &vals[i]);
        proof {
            if i == 0 {
                assert(out@ =~= plain_text(vals@[0]@));
            }
        }
        i = i + 1;
    }
    proof {
        assert(vals@.take(vals@.len() as int) =~= vals@);
    }
    string_of(&out)
}

/// A line as `input` returns it: without its line ending (`\r\n` or `\n`).
pub open spec fn input_text(line: Seq<char>) -> Seq<char> {
    if line.len() >= 2 && line[line.len() - 2] == '\r' && line[line.len() - 1] == '\n' {
        line.subrange(0, line.len() - 2)
    } else if line.len() >= 1 && line[line.len() - 1] == '\n' {
        line.subrange(0, line.len() - 1)
    } else {
        line
    }
}

/// Removes the line ending of a line that was read.
pub fn trim_line(line: &String) -> (r: String)
    ensures
        r@ == input_text(line@),
{
    let mut c = crate::text::chars_of(line);
    let n = c.len();
    if n >= 2 && c[n - 2] == '\r' && c[n - 1] == '\n' {
        c.pop();
        c.pop();
        proof {
            assert(c@ =~= line@.subrange(0, line@.len() - 2));
        }
    } else if n >= 1 && c[n - 1] == '\n' {
        c.pop();
        proof {
            assert(c@ =~= line@.subrange(0, line@.len() - 1));
        }
    }
    string_of(&c)
}

/// The position of a value in a sequence (its last occurrence).
pub open spec fn position_of(s: Seq<ValueV>, v: ValueV) -> Option<int>
    decreases s.len(),
{
    if s.len() == 0 {
        None
    } else if s.last() == v {
        Some(s.len() - 1)
    } else {
        position_of(s.drop_last(), v)
    }
}

/// What `repr` shows of a value, given the arrays and tables already shown
/// (each is numbered by its position there, and shown again as `#` and that
/// number), and those shown after it. An array or a table is shown with its
/// number and its contents; any other value as `Display` shows it, every
/// time it occurs. `fuel`
/// bounds the nesting; it runs out only past as many levels as the heap
/// holds arrays and tables.
pub closed spec fn repr_value(h: HeapV, v: ValueV, seen: Seq<ValueV>, fuel: nat) -> (Seq<char>, Seq<ValueV>)
    decreases fuel, 0nat, 0nat,
{
    if !(v is Array || v is Table) {
        (shown_text(v), seen)
    } else {
    match position_of(seen, v) {
        Some(id) => ("#"@ + nat_text(id as nat), seen),
        None => {
            let id = seen.len();
            let seen1 = seen.push(v);
            match v {
                ValueV::Array(i) => if i < h.arrays.len() && fuel > 0 {
                    let r = repr_items(h, h.arrays[i as int], seen1, (fuel - 1) as nat);
                    ("Array#"@ + nat_text(id) + " ["@ + r.0 + "]"@, r.1)
                } else {
                    (shown_text(v), seen1)
                },
                ValueV::Table(i) => if i < h.tables.len() && fuel > 0 {
                    let r = repr_entries(h, h.tables[i as int].data, seen1, (fuel - 1) as nat);
                    ("Table#"@ + nat_text(id) + " {"@ + r.0 + "}"@, r.1)
                } else {
                    (shown_text(v), seen1)
                },
                _ => (shown_text(v), seen1),
            }
        },
    }
    }
}

/// What `repr` shows of the elements of an array, separated by `, `.
pub closed spec fn repr_items(h: HeapV, items: Seq<ValueV>, seen: Seq<ValueV>, fuel: nat) -> (Seq<char>, Seq<ValueV>)
    decreases fuel, 1nat, items.len(),
{
    if items.len() == 0 {
        (Seq::empty(), seen)
    } else {
        let p = repr_items(h, items.drop_last(), seen, fuel);
        let l = repr_value(h, items.last(), p.1, fuel);
        let sep = if items.len() > 1 { ", "@ } else { Seq::empty() };
        (p.0 + sep + l.0, l.1)
    }
}

/// What `repr` shows of the entries of a table, each as `[key]: value`,
/// separated by `, `.
pub closed spec fn repr_entries(h: HeapV, entries: Seq<(ValueV, ValueV)>, seen: Seq<ValueV>, fuel: nat) -> (Seq<char>, Seq<ValueV>)
    decreases fuel, 1nat, entries.len(),
{
    if entries.len() == 0 {
        (Seq::empty(), seen)
    } else {
        let p = repr_entries(h, entries.drop_last(), seen, fuel);
        let l = repr_value(h, entries.last().1, p.1, fuel);
        let sep = if entries.len() > 1 { ", "@ } else { Seq::empty() };
        (p.0 + sep + "["@ + shown_text(entries.last().0) + "]: "@ + l.0, l.1)
    }
}

/// The nesting that `repr` allows: one more than the arrays and tables of
/// the heap (or the largest size, if that is more).
pub open spec fn repr_fuel(h: HeapV) -> nat {
    if h.arrays.len() + h.tables.len() < usize::MAX {
        (h.arrays.len() + h.tables.len() + 1) as nat
    } else {
        usize::MAX as nat
    }
}

/// What the built-in `repr` shows of a value.
pub open spec fn repr_text(h: HeapV, v: ValueV) -> Seq<char> {
    repr_value(h, v, Seq::empty(), repr_fuel(h)).0
}

pub proof fn unfold_repr_value(h: HeapV, v: ValueV, seen: Seq<ValueV>, fuel: nat)
    ensures
        repr_value(h, v, seen, fuel) == (if !(v is Array || v is Table) {
            (shown_text(v), seen)
        } else {
        match position_of(seen, v) {
            Some(id) => ("#"@ + nat_text(id as nat), seen),
            None => {
                let id = seen.len();
                let seen1 = seen.push(v);
                match v {
                    ValueV::Array(i) => if i < h.arrays.len() && fuel > 0 {
                        let r = repr_items(h, h.arrays[i as int], seen1, (fuel - 1) as nat);
                        ("Array#"@ + nat_text(id) + " ["@ + r.0 + "]"@, r.1)
                    } else {
                        (shown_text(v), seen1)
                    },
                    ValueV::Table(i) => if i < h.tables.len() && fuel > 0 {
                        let r = repr_entries(h, h.tables[i as int].data, seen1, (fuel - 1) as nat);
                        ("Table#"@ + nat_text(id) + " {"@ + r.0 + "}"@, r.1)
                    } else {
                        (shown_text(v), seen1)
                    },
                    _ => (shown_text(v), seen1),
                }
            },
        }
        }),
{
}

pub proof fn unfold_repr_items(h: HeapV, items: Seq<ValueV>, seen: Seq<ValueV>, fuel: nat)
    ensures
        repr_items(h, items, seen, fuel) == (if items.len() == 0 {
            (Seq::empty(), seen)
        } else {
            let p = repr_items(h, items.drop_last(), seen, fuel);
            let l = repr_value(h, items.last(), p.1, fuel);
            let sep = if items.len() > 1 { ", "@ } else { Seq::empty() };
            (p.0 + sep + l.0, l.1)
        }),
{
}

pub proof fn unfold_repr_entries(h: HeapV, entries: Seq<(ValueV, ValueV)>, seen: Seq<ValueV>, fuel: nat)
    ensures
        repr_entries(h, entries, seen, fuel) == (if entries.len() == 0 {
            (Seq::empty(), seen)
        } else {
            let p = repr_entries(h, entries.drop_last(), seen, fuel);
            let l = repr_value(h, entries.last().1, p.1, fuel);
            let sep = if entries.len() > 1 { ", "@ } else { Seq::empty() };
            (p.0 + sep + "["@ + shown_text(entries.last().0) + "]: "@ + l.0, l.1)
        }),
{
}

/// The position of a value among those already shown.
fn find_seen(seen: &Vec<Value>, v: &Value) -> (r: Option<usize>)
    ensures
        position_of(vals_v(seen@), v@) == (match r {
            Some(i) => Some(i as int),
            None => None::<int>,
        }),
{
    let ghost sv = vals_v(seen@);
    let mut i: usize = seen.len();
    proof {
        assert(sv.take(i as int) =~= sv);
    }
    while i > 0
        invariant
            i <= seen.len(),
            sv == vals_v(seen@),
            position_of(sv, v@) == position_of(sv.take(i as int), v@),
        decreases i,
    {
        proof {
            assert(sv.take(i as int).drop_last() =~= sv.take(i - 1));
        }
        if crate::heap::same_value(&seen[i - 1], v) {
            return Some(i - 1);
        }
        i = i - 1;
    }
    None
}

/// Appends what `repr` shows of a value (see `repr_value`).
fn repr_into(heap: &Heap, v: &Value, seen: &mut Vec<Value>, out: &mut Vec<char>, fuel: usize)
    ensures
        final(out)@ == old(out)@ + repr_value(heap@, v@, vals_v(old(seen)@), fuel as nat).0,
        vals_v(final(seen)@) == repr_value(heap@, v@, vals_v(old(seen)@), fuel as nat).1,
    decreases fuel, 0nat, 0nat,
{
    let ghost s0 = vals_v(seen@);
    proof {
        unfold_repr_value(heap@, v@, s0, fuel as nat);
    }
    match v {
        Value::Array(_) | Value::Table(_) => {},
        _ => {
            append_shown(out, v);
            return ;
        },
    }
    match find_seen(seen, v) {
        Some(id) => {
            append_text(out, "#");
            let d = usize_chars(id);
            append(out, &d);
            proof {
                assert(out@ =~= old(out)@ + repr_value(heap@, v@, s0, fuel as nat).0);
            }
            return ;
        },
        None => {},
    }
    let id = seen.len();
    seen.push(v.duplicate());
    proof {
        assert(vals_v(seen@) =~= s0.push(v@));
    }
    match v {
        Value::Array(i) => {
            if *i < heap.arrays.len() && fuel > 0 {
                append_text(out, "Array#");
                let d = usize_chars(id);
                append(out, &d);
                append_text(out, " [");
                repr_items_into(heap, *i, seen, out, fuel - 1);
                append_text(out, "]");
                proof {
                    assert(out@ =~= old(out)@ + repr_value(heap@, v@, s0, fuel as nat).0);
                }
                return ;
            }
        },
        Value::Table(i) => {
            if *i < heap.tables.len() && fuel > 0 {
                append_text(out, "Table#");
                let d = usize_chars(id);
                append(out, &d);
                append_text(out, " {");
                repr_entries_into(heap, *i, seen, out, fuel - 1);
                append_text(out, "}");
                proof {
                    assert(out@ =~= old(out)@ + repr_value(heap@, v@, s0, fuel as nat).0);
                }
                return ;
            }
        },
        _ => {},
    }
    append_shown(out, v);
}

/// Appends what `repr` shows of the elements of array `arr`.
fn repr_items_into(heap: &Heap, arr: usize, seen: &mut Vec<Value>, out: &mut Vec<char>, fuel: usize)
    requires
        arr < heap@.arrays.len(),
    ensures
        final(out)@ == old(out)@ + repr_items(heap@, heap@.arrays[arr as int], vals_v(old(seen)@), fuel as nat).0,
        vals_v(final(seen)@) == repr_items(heap@, heap@.arrays[arr as int], vals_v(old(seen)@), fuel as nat).1,
    decreases fuel, 1nat, 0nat,
{
    let ghost items = heap@.arrays[arr as int];
    let ghost s0 = vals_v(seen@);
    let ghost out0 = out@;
    let n = heap.arrays[arr].len();
    proof {
        assert(items == vals_v(heap.arrays@[arr as int]@));
        assert(items.take(0) =~= Seq::<ValueV>::empty());
        unfold_repr_items(heap@, items.take(0), s0, fuel as nat);
        assert(out@ =~= out0 + Seq::<char>::empty());
    }
    let mut i: usize = 0;
    while i < n
        invariant
            i <= n,
            arr < heap@.arrays.len(),
            n == items.len(),
            items == vals_v(heap.arrays@[arr as int]@),
            out@ == out0 + repr_items(heap@, items.take(i as int), s0, fuel as nat).0,
            vals_v(seen@) == repr_items(heap@, items.take(i as int), s0, fuel as nat).1,
        decreases n - i,
    {
        proof {
            unfold_repr_items(heap@, items.take(i + 1), s0, fuel as nat);
            assert(items.take(i + 1).drop_last() =~= items.take(i as int));
            assert(items.take(i + 1).last() == heap.arrays@[arr as int]@[i as int]@);
        }
        if i > 0 {
            append_text(out, ", ");
        }
        repr_into(heap, &heap.arrays[arr][i], seen, out, fuel);
        proof {
            assert(out@ =~= out0 + repr_items(heap@, items.take(i + 1), s0, fuel as nat).0);
        }
        i = i + 1;
    }
    proof {
        assert(items.take(n as int) =~= items);
    }
}

/// Appends what `repr` shows of the entries of table `t`.
fn repr_entries_into(heap: &Heap, t: usize, seen: &mut Vec<Value>, out: &mut Vec<char>, fuel: usize)
    requires
        t < heap@.tables.len(),
    ensures
        final(out)@ == old(out)@ + repr_entries(heap@, heap@.tables[t as int].data, vals_v(old(seen)@), fuel as nat).0,
        vals_v(final(seen)@) == repr_entries(heap@, heap@.tables[t as int].data, vals_v(old(seen)@), fuel as nat).1,
    decreases fuel, 1nat, 0nat,
{
    let ghost entries = heap@.tables[t as int].data;
    let ghost s0 = vals_v(seen@);
    let ghost out0 = out@;
    let n = heap.tables[t].data.len();
    proof {
        assert(heap@.tables[t as int] == heap.tables@[t as int]@);
        assert(entries.take(0) =~= Seq::<(ValueV, ValueV)>::empty());
        unfold_repr_entries(heap@, entries.take(0), s0, fuel as nat);
        assert(out@ =~= out0 + Seq::<char>::empty());
    }
    let mut i: usize = 0;
    while i < n
        invariant
            i <= n,
            t < heap@.tables.len(),
            n == entries.len(),
            entries == crate::heap::pairs_v(heap.tables@[t as int].data@),
            out@ == out0 + repr_entries(heap@, entries.take(i as int), s0, fuel as nat).0,
            vals_v(seen@) == repr_entries(heap@, entries.take(i as int), s0, fuel as nat).1,
        decreases n - i,
    {
        proof {
            unfold_repr_entries(heap@, entries.take(i + 1), s0, fuel as nat);
            assert(entries.take(i + 1).drop_last() =~= entries.take(i as int));
            assert(entries.take(i + 1).last() == entries[i as int]);
        }
        if i > 0 {
            append_text(out, ", ");
        }
        append_text(out, "[");
        append_shown(out, &heap.tables[t].data[i].0);
        append_text(out, "]: ");
        repr_into(heap, &heap.tables[t].data[i].1, seen, out, fuel);
        proof {
            assert(out@ =~= out0 + repr_entries(heap@, entries.take(i + 1), s0, fuel as nat).0);
        }
        i = i + 1;
    }
    proof {
        assert(entries.take(n as int) =~= entries);
    }
}

/// What the built-in `repr` shows of a value: see `repr_value`.
pub fn repr(heap: &Heap, v: &Value) -> (r: String)
    ensures
        r@ == repr_text(heap@, v@),
{
    let mut seen: Vec<Value> = Vec::new();
    let mut out: Vec<char> = Vec::new();
    let fuel = if heap.arrays.len() < usize::MAX - heap.tables.len() {
        heap.arrays.len() + heap.tables.len() + 1
    } else {
        usize::MAX
    };
    proof {
        assert(vals_v(seen@) =~= Seq::<ValueV>::empty());
    }
    repr_into(heap, v, &mut seen, &mut out, fuel);
    proof {
        assert(out@ =~= repr_text(heap@, v@));
    }
    string_of(&out)
}

/// The text of an argument-count error.
pub open spec fn param_error_text(expected: Seq<char>, found: nat) -> Seq<char> {
    "ParamError: Function takes "@ + expected + " args but "@ + nat_text(found) + " were provided"@
}

/// The text of a type error.
pub open spec fn type_error_text(thrower: Seq<char>, expected: Seq<char>, found: Seq<char>) -> Seq<char> {
    "TypeError: "@ + thrower + " expected type "@ + expected + " but found "@ + found
}

/// The text of an overflow error.
pub open spec fn overflow_error_text(required: Seq<char>, found: Seq<char>) -> Seq<char> {
    "OverflowError: Required "@ + required + " but found "@ + found
}

/// The text of an index error.
pub open spec fn index_error_text(index: nat, len: nat) -> Seq<char> {
    "IndexError: Index "@ + nat_text(index) + " out of bounds for length "@ + nat_text(len)
}

/// The text of an error for an operator that a table does not support.
pub open spec fn operator_error_text(op: Seq<char>, shown: Seq<char>) -> Seq<char> {
    "OperatorNotSupportedError: Operator `"@ + op + "` is not supported for `"@ + shown + "`"@
}

/// The text of an error, as it is printed after `RuntimeError:`.
pub open spec fn error_text(h: HeapV, e: RuntimeError) -> Seq<char> {
    match e {
        RuntimeError::ParamError { expected, found } => param_error_text(count_text(expected), found as nat),
        RuntimeError::TypeError { expected, found, thrower } => type_error_text(
            match thrower {
                Some(t) => t@,
                None => Seq::empty(),
            },
            type_text(expected),
            type_text(found),
        ),
        RuntimeError::OverflowError { required, found } => overflow_error_text(required@, found@),
        RuntimeError::IndexError { index, len } => index_error_text(index as nat, len as nat),
        RuntimeError::OperatorNotSupportedError { op, table } => operator_error_text(op@, repr_text(h, table@)),
    }
}

/// The text of an error.
pub fn error_message(heap: &Heap, e: &RuntimeError) -> (r: String)
    ensures
        r@ == error_text(heap@, *e),
{
    let mut out: Vec<char> = Vec::new();
    match e {
        RuntimeError::ParamError { expected, found } => {
            append_text(&mut out, "ParamError: Function takes ");
            append_count(&mut out, expected);
            append_text(&mut out, " args but ");
            let d = usize_chars(*found);
            append(&mut out, &d);
            append_text(&mut out, " were provided");
        },
        RuntimeError::TypeError { expected, found, thrower } => {
            append_text(&mut out, "TypeError: ");
            match thrower {
                Some(t) => {
                    let c = crate::text::chars_of(t);
                    append(&mut out, &c);
                },
                None => {},
            }
            append_text(&mut out, " expected type ");
            append_type(&mut out, expected);
            append_text(&mut out, " but found ");
            append_type(&mut out, found);
        },
        RuntimeError::OverflowError { required, found } => {
            append_text(&mut out, "OverflowError: Required ");
            let c = crate::text::chars_of(required);
            append(&mut out, &c);
            append_text(&mut out, " but found ");
            let c2 = crate::text::chars_of(found);
            append(&mut out, &c2);
        },
        RuntimeError::IndexError { index, len } => {
            append_text(&mut out, "IndexError: Index ");
            let d = usize_chars(*index);
            append(&mut out, &d);
            append_text(&mut out, " out of bounds for length ");
            let d2 = usize_chars(*len);
            append(&mut out, &d2);
        },
        RuntimeError::OperatorNotSupportedError { op, table } => {
            append_text(&mut out, "OperatorNotSupportedError: Operator `");
            let c = crate::text::chars_of(op);
            append(&mut out, &c);
            append_text(&mut out, "` is not supported for `");
            let r = repr(heap, table);
            let c2 = crate::text::chars_of(&r);
            append(&mut out, &c2);
            append_text(&mut out, "`");
        },
    }
    proof {
        assert(out@ =~= error_text(heap@, *e));
    }
    string_of(&out)
}

} // verus!
