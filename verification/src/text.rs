//! Character and string helpers shared by the lexer, the parser and the
//! virtual machine.

use vstd::prelude::*;

verus! {

/// Whether `c` has Unicode's `White_Space` property, as `char::is_whitespace`
/// decides it: tab to carriage return, space, next line, no-break space,
/// ogham space, the spaces from en quad to hair space, the line and
/// paragraph separators, narrow no-break space, medium mathematical space
/// and ideographic space.
pub open spec fn char_is_whitespace(c: char) -> bool {
    let v = c as u32;
    ||| 0x9 <= v <= 0xD
    ||| v == 0x20
    ||| v == 0x85
    ||| v == 0xA0
    ||| v == 0x1680
    ||| 0x2000 <= v <= 0x200A
    ||| v == 0x2028
    ||| v == 0x2029
    ||| v == 0x202F
    ||| v == 0x205F
    ||| v == 0x3000
}

/// Whether `c` is white space (the characters `char_is_whitespace` lists,
/// those `char::is_whitespace` accepts).
pub(crate) fn is_whitespace(c: char) -> (r: bool)
    ensures
        r == char_is_whitespace(c),
{
    let v = c as u32;
    (0x9 <= v && v <= 0xD) || v == 0x20 || v == 0x85 || v == 0xA0 || v == 0x1680 || (0x2000 <= v && v <= 0x200A)
        || v == 0x2028 || v == 0x2029 || v == 0x202F || v == 0x205F || v == 0x3000
}

/// The characters of a string, in order (`str::chars` collected into a `Vec`).
#[verifier::external_body]
pub(crate) fn chars_of(s: &String) -> (v: Vec<char>)
    ensures
        v@ == s@,
{
    s.chars().collect()
}

/// A string made of the given characters (`String::from_iter`).
#[verifier::external_body]
pub(crate) fn string_of(v: &Vec<char>) -> (s: String)
    ensures
        s@ == v@,
{
    v.iter().collect()
}

/// Whether `v` is the code of a Unicode scalar value: at most `0x10FFFF`
/// and not a surrogate.
pub open spec fn is_scalar_value(v: u32) -> bool {
    v <= 0x10FFFF && !(0xD800 <= v <= 0xDFFF)
}

/// `char::from_u32`: the character with code `v`, when `v` is a Unicode scalar value.
#[verifier::external_body]
pub(crate) fn char_from_u32(v: u32) -> (r: Option<char>)
    ensures
        r is Some <==> is_scalar_value(v),
        r matches Some(c) ==> c as u32 == v,
{
    char::from_u32(v)
}

} // verus!

verus! {

/// The decimal digit character for `d` (`0 <= d < 10`).
pub open spec fn digit_char(d: int) -> char {
    if d == 0 { '0' } else if d == 1 { '1' } else if d == 2 { '2' } else if d == 3 { '3' }
    else if d == 4 { '4' } else if d == 5 { '5' } else if d == 6 { '6' } else if d == 7 { '7' }
    else if d == 8 { '8' } else { '9' }
}

/// The decimal numeral of a natural number, without leading zeros.
pub open spec fn nat_text(n: nat) -> Seq<char>
    decreases n,
{
    if n < 10 {
        seq![digit_char(n as int)]
    } else {
        nat_text(n / 10) + seq![digit_char((n % 10) as int)]
    }
}

/// The decimal numeral of an integer, with a leading `-` when it is negative
/// (the form `Display` gives integers).
pub open spec fn int_text(n: int) -> Seq<char> {
    if n < 0 {
        seq!['-'] + nat_text((-n) as nat)
    } else {
        nat_text(n as nat)
    }
}

fn digit_to_char(d: u64) -> (c: char)
    requires
        d < 10,
    ensures
        c == digit_char(d as int),
{
    if d == 0 { '0' } else if d == 1 { '1' } else if d == 2 { '2' } else if d == 3 { '3' }
    else if d == 4 { '4' } else if d == 5 { '5' } else if d == 6 { '6' } else if d == 7 { '7' }
    else if d == 8 { '8' } else { '9' }
}

/// The decimal digits of `n`, most significant first.
pub fn nat_digits(n: u64) -> (r: Vec<char>)
    ensures
        r@ == nat_text(n as nat),
    decreases n,
{
    if n < 10 {
        vec![digit_to_char(n)]
    } else {
        let mut r = nat_digits(n / 10);
        r.push(digit_to_char(n % 10));
        r
    }
}

/// The decimal digits of a signed integer, with a leading `-` when negative.
pub fn int_chars(n: i64) -> (r: Vec<char>)
    ensures
        r@ == int_text(n as int),
{
    if n < 0 {
        let mag: u64 = if n == i64::MIN { 9223372036854775808u64 } else { (-n) as u64 };
        let mut r = vec!['-'];
        let ds = nat_digits(mag);
        append(&mut r, &ds);
        r
    } else {
        nat_digits(n as u64)
    }
}

/// The decimal text of a signed integer (`i64::to_string`).
pub fn int_to_string(n: i64) -> (r: String)
    ensures
        r@ == int_text(n as int),
{
    string_of(&int_chars(n))
}

/// The decimal digits of a size or a count.
pub fn usize_chars(n: usize) -> (r: Vec<char>)
    ensures
        r@ == nat_text(n as nat),
{
    nat_digits(n as u64)
}

/// Appends characters.
pub fn append(out: &mut Vec<char>, more: &Vec<char>)
    ensures
        final(out)@ == old(out)@ + more@,
{
    let mut i: usize = 0;
    while i < more.len()
        invariant
            i <= more.len(),
            out@ == old(out)@ + more@.subrange(0, i as int),
        decreases more.len() - i,
    {
        out.push(more[i]);
        i = i + 1;
        assert(more@.subrange(0, i as int) == more@.subrange(0, i - 1) + seq![more@[i - 1]]);
    }
    assert(more@.subrange(0, more.len() as int) == more@);
}

/// The characters of a string literal.
pub fn text(s: &str) -> (r: Vec<char>)
    ensures
        r@ == s@,
{
    chars_of(&s.to_owned())
}

/// Appends the characters of a string literal.
pub fn append_text(out: &mut Vec<char>, s: &str)
    ensures
        final(out)@ == old(out)@ + s@,
{
    let t = text(s);
    append(out, &t);
}

/// The text of a string as `str::escape_debug` shows it: quotes, backslashes
/// and control characters escaped.
pub uninterp spec fn escape_debug_text(s: Seq<char>) -> Seq<char>;

/// `str::escape_debug`, collected into a string. The contract names the
/// result: it depends on the text alone; which characters are escaped follows
/// Unicode's tables and is not restated here.
#[verifier::external_body]
pub(crate) fn escape_debug(s: &String) -> (r: String)
    ensures
        r@ == escape_debug_text(s@),
{
    s.escape_debug().to_string()
}

} // verus!

verus! {

/// A character is the character of its own code.
pub proof fn lemma_char_code_roundtrip(c: char)
    ensures
        (c as u32) as char == c,
{
}

} // verus!
