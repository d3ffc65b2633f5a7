//! Text helpers shared by the other modules: characters of a string,
//! comparison, decimal rendering and integer parsing.

use vstd::prelude::*;
use vstd::std_specs::iter::IteratorSpec;
use vstd::string::StringExecFns;
use vstd::utf8::{encode_utf8, encode_utf8_decode_utf8};

verus! {

/// `String::push` appends one character to the end of the string.
pub assume_specification[ String::push ](s: &mut String, ch: char)
    ensures
        final(s)@ == old(s)@.push(ch),
;

/// The number of bytes that `s` takes in UTF-8.
pub open spec fn byte_len(s: Seq<char>) -> nat {
    encode_utf8(s).len()
}

/// The number of bytes that `s` takes in UTF-8.
pub fn byte_length(s: &str) -> (n: usize)
    ensures
        n == byte_len(s@),
{
    s.as_bytes().len()
}

/// The characters of `s`, in order.
pub fn chars_of(s: &str) -> (v: Vec<char>)
    ensures
        v@ == s@,
{
    broadcast use vstd::string::group_string_axioms;

    let mut v: Vec<char> = Vec::new();
    let mut it = s.chars();
    loop
        invariant
            it.obeys_prophetic_iter_laws(),
            it.decrease() is Some,
            v@ + it.remaining() == s@,
        ensures
            v@ == s@,
        decreases it.decrease()->0,
    {
        match it.next() {
            Some(c) => {
                v.push(c);
            },
            None => {
                break ;
            },
        }
    }
    v
}

/// Appends the characters `v[from..to]` to `out`.
pub fn push_range(out: &mut String, v: &Vec<char>, from: usize, to: usize)
    requires
        from <= to <= v.len(),
    ensures
        final(out)@ == old(out)@ + v@.subrange(from as int, to as int),
{
    let mut i: usize = from;
    while i < to
        invariant
            from <= i <= to <= v.len(),
            out@ == old(out)@ + v@.subrange(from as int, i as int),
        decreases to - i,
    {
        out.push(v[i]);
        i += 1;
    }
}

/// The text made of the characters `v[from..to]`.
pub fn text_of_range(v: &Vec<char>, from: usize, to: usize) -> (s: String)
    requires
        from <= to <= v.len(),
    ensures
        s@ == v@.subrange(from as int, to as int),
{
    let mut s = String::new();
    push_range(&mut s, v, from, to);
    s
}

/// `before`, then `text`.
pub fn concat(before: &str, text: &str) -> (r: String)
    ensures
        r@ == before@ + text@,
{
    let mut r = String::from_str(before);
    r.append(text);
    r
}

/// `before`, then `text`, then `after`.
pub fn enclose(before: &str, text: &str, after: &str) -> (r: String)
    ensures
        r@ == before@ + text@ + after@,
{
    let mut r = String::from_str(before);
    r.append(text);
    r.append(after);
    r
}

/// Whether two strings hold the same characters.
pub fn same_text(a: &str, b: &str) -> (r: bool)
    ensures
        r == (a@ == b@),
{
    let x = a.as_bytes();
    let y = b.as_bytes();
    proof {
        encode_utf8_decode_utf8(a@);
        encode_utf8_decode_utf8(b@);
    }
    if x.len() != y.len() {
        return false;
    }
    let mut i: usize = 0;
    while i < x.len()
        invariant
            x@ == encode_utf8(a@),
            y@ == encode_utf8(b@),
            x.len() == y.len(),
            i <= x.len(),
            forall|j: int| 0 <= j < i ==> x@[j] == y@[j],
        decreases x.len() - i,
    {
        if x[i] != y[i] {
            return false;
        }
        i += 1;
    }
    assert(x@ =~= y@);
    true
}

/// The character that stands for the digit `d`, which is below ten.
pub open spec fn digit_char(d: nat) -> char {
    (48 + d) as char
}

/// The decimal digits of `n`, most significant first, with no leading zero.
pub open spec fn decimal(n: nat) -> Seq<char>
    decreases n,
{
    if n < 10 {
        seq![digit_char(n)]
    } else {
        decimal(n / 10).push(digit_char(n % 10))
    }
}

/// The decimal digits of `i`, after a minus sign where `i` is negative.
pub open spec fn signed_decimal(i: int) -> Seq<char> {
    if i < 0 {
        seq!['-'] + decimal((-i) as nat)
    } else {
        decimal(i as nat)
    }
}

fn digit_of(d: u8) -> (c: char)
    requires
        d < 10,
    ensures
        c == digit_char(d as nat),
{
    (48u8 + d) as char
}

/// Appends the decimal digits of `n` to `out`.
pub fn push_decimal(out: &mut String, n: u128)
    ensures
        final(out)@ == old(out)@ + decimal(n as nat),
    decreases n,
{
    if n >= 10 {
        push_decimal(out, n / 10);
    }
    out.push(digit_of((n % 10) as u8));
}

/// Appends the decimal digits of `i` to `out`, after a minus sign where `i`
/// is negative.
pub fn push_signed_decimal(out: &mut String, i: i64)
    ensures
        final(out)@ == old(out)@ + signed_decimal(i as int),
{
    if i < 0 {
        out.push('-');
        let magnitude: u128 = (-(i as i128)) as u128;
        push_decimal(out, magnitude);
    } else {
        push_decimal(out, i as u128);
    }
}

/// Why a text is not the decimal form of an integer of the wanted type.
#[derive(Debug, Clone, Copy, PartialEq, Eq, Structural)]
pub enum IntFailure {
    /// The text is empty.
    Empty,
    /// A character is not a digit, or the text is a lone sign.
    InvalidDigit,
    /// The number is above the type's largest value.
    PosOverflow,
    /// The number is below the type's smallest value.
    NegOverflow,
}

/// The sentence that describes each failure.
pub open spec fn failure_message(f: IntFailure) -> Seq<char> {
    match f {
        IntFailure::Empty => "cannot parse integer from empty string"@,
        IntFailure::InvalidDigit => "invalid digit found in string"@,
        IntFailure::PosOverflow => "number too large to fit in target type"@,
        IntFailure::NegOverflow => "number too small to fit in target type"@,
    }
}

impl IntFailure {
    /// The sentence that describes this failure.
    pub fn message(&self) -> (m: &'static str)
        ensures
            m@ == failure_message(*self),
    {
        match self {
            IntFailure::Empty => "cannot parse integer from empty string",
            IntFailure::InvalidDigit => "invalid digit found in string",
            IntFailure::PosOverflow => "number too large to fit in target type",
            IntFailure::NegOverflow => "number too small to fit in target type",
        }
    }
}

/// Whether `c` is one of the ten decimal digits.
pub open spec fn is_digit(c: char) -> bool {
    48 <= c as int <= 57
}

/// The number that the digit `c` stands for; zero for any other character.
pub open spec fn digit_value(c: char) -> nat {
    if is_digit(c) {
        (c as int - 48) as nat
    } else {
        0
    }
}

/// The number that `s` denotes when read as decimal digits.
pub open spec fn digits_value(s: Seq<char>) -> nat
    decreases s.len(),
{
    if s.len() == 0 {
        0
    } else {
        10 * digits_value(s.drop_last()) + digit_value(s.last())
    }
}

/// The length of the longest prefix of `s` that is made of digits.
pub open spec fn digit_prefix_len(s: Seq<char>) -> nat
    decreases s.len(),
{
    if s.len() == 0 || !is_digit(s[0]) {
        0
    } else {
        1 + digit_prefix_len(s.drop_first())
    }
}

/// Reads `body` as an unsigned decimal number that may not exceed `max`.
/// Characters are taken from the left: the number overflows as soon as the
/// digits read so far denote more than `max`, and the text is invalid at the
/// first character that is no digit; whichever comes first decides.
pub open spec fn magnitude(body: Seq<char>, max: nat) -> Result<nat, IntFailure> {
    let k = digit_prefix_len(body) as int;
    if digits_value(body.take(k)) > max {
        Err(IntFailure::PosOverflow)
    } else if k < body.len() {
        Err(IntFailure::InvalidDigit)
    } else {
        Ok(digits_value(body))
    }
}

/// Whether `s` is a plus or a minus sign and nothing else.
pub open spec fn is_lone_sign(s: Seq<char>) -> bool {
    s.len() == 1 && (s[0] == '+' || s[0] == '-')
}

/// Reads `s` as an unsigned integer of at most `max`: an optional plus sign,
/// then one or more digits.
pub open spec fn unsigned_value(s: Seq<char>, max: nat) -> Result<nat, IntFailure> {
    if s.len() == 0 {
        Err(IntFailure::Empty)
    } else if is_lone_sign(s) {
        Err(IntFailure::InvalidDigit)
    } else if s[0] == '+' {
        magnitude(s.skip(1), max)
    } else {
        magnitude(s, max)
    }
}

/// Reads `s` as a signed integer between `-(max + 1)` and `max`: an optional
/// plus or minus sign, then one or more digits.
pub open spec fn signed_value(s: Seq<char>, max: nat) -> Result<int, IntFailure> {
    if s.len() == 0 {
        Err(IntFailure::Empty)
    } else if is_lone_sign(s) {
        Err(IntFailure::InvalidDigit)
    } else if s[0] == '-' {
        match magnitude(s.skip(1), max + 1) {
            Ok(m) => Ok(-(m as int)),
            Err(IntFailure::PosOverflow) => Err(IntFailure::NegOverflow),
            Err(e) => Err(e),
        }
    } else {
        match magnitude(if s[0] == '+' { s.skip(1) } else { s }, max) {
            Ok(m) => Ok(m as int),
            Err(e) => Err(e),
        }
    }
}

/// A prefix of digits followed by the end or by a character that is no digit
/// is the longest prefix of digits.
proof fn lemma_digit_prefix(s: Seq<char>, k: int)
    requires
        0 <= k <= s.len(),
        forall|j: int| 0 <= j < k ==> is_digit(s[j]),
        k < s.len() ==> !is_digit(s[k]),
    ensures
        digit_prefix_len(s) == k,
    decreases s.len(),
{
    if k > 0 {
        let rest = s.drop_first();
        lemma_digit_prefix(rest, k - 1);
    }
}

/// The longest prefix of digits is at least as long as any prefix of digits.
proof fn lemma_digit_prefix_at_least(s: Seq<char>, k: int)
    requires
        0 <= k <= s.len(),
        forall|j: int| 0 <= j < k ==> is_digit(s[j]),
    ensures
        k <= digit_prefix_len(s) <= s.len(),
    decreases s.len(),
{
    if s.len() > 0 && is_digit(s[0]) {
        let rest = s.drop_first();
        if k > 0 {
            lemma_digit_prefix_at_least(rest, k - 1);
        } else {
            lemma_digit_prefix_at_least(rest, 0);
        }
    }
}

/// Reading more characters never gives a smaller number.
proof fn lemma_digits_value_grows(s: Seq<char>, a: int, b: int)
    requires
        0 <= a <= b <= s.len(),
    ensures
        digits_value(s.take(a)) <= digits_value(s.take(b)),
    decreases b - a,
{
    if a < b {
        lemma_digits_value_grows(s, a, b - 1);
        assert(s.take(b).drop_last() == s.take(b - 1));
    }
}

fn parse_magnitude(v: &Vec<char>, start: usize, max: u64) -> (r: Result<u64, IntFailure>)
    requires
        start <= v.len(),
        max >= 9,
    ensures
        match r {
            Ok(n) => n <= max && magnitude(v@.skip(start as int), max as nat) == Ok::<
                nat,
                IntFailure,
            >(n as nat),
            Err(e) => magnitude(v@.skip(start as int), max as nat) == Err::<nat, IntFailure>(e),
        },
{
    let ghost body = v@.skip(start as int);
    let mut acc: u64 = 0;
    let mut i: usize = start;
    while i < v.len()
        invariant
            start <= i <= v.len(),
            max >= 9,
            body == v@.skip(start as int),
            forall|j: int| 0 <= j < i - start ==> is_digit(body[j]),
            acc == digits_value(body.take(i - start)),
            acc <= max,
        decreases v.len() - i,
    {
        let c = v[i];
        if c < '0' || c > '9' {
            proof {
                lemma_digit_prefix(body, i - start);
            }
            return Err(IntFailure::InvalidDigit);
        }
        let d = (c as u8 - 48) as u64;
        assert(body.take(i - start + 1).drop_last() == body.take(i - start));
        if acc > (max - d) / 10 {
            proof {
                lemma_digit_prefix_at_least(body, i - start + 1);
                lemma_digits_value_grows(body, i - start + 1, digit_prefix_len(body) as int);
            }
            return Err(IntFailure::PosOverflow);
        }
        acc = acc * 10 + d;
        i += 1;
    }
    proof {
        lemma_digit_prefix(body, body.len() as int);
        assert(body.take(body.len() as int) == body);
    }
    Ok(acc)
}

fn starts_with_sign(v: &Vec<char>) -> (r: bool)
    ensures
        r == (v.len() > 0 && (v@[0] == '+' || v@[0] == '-')),
{
    v.len() > 0 && (v[0] == '+' || v[0] == '-')
}

/// Reads `s` as a `u64`.
pub fn parse_u64(s: &str) -> (r: Result<u64, IntFailure>)
    ensures
        match r {
            Ok(n) => unsigned_value(s@, u64::MAX as nat) == Ok::<nat, IntFailure>(n as nat),
            Err(e) => unsigned_value(s@, u64::MAX as nat) == Err::<nat, IntFailure>(e),
        },
{
    let v = chars_of(s);
    if v.len() == 0 {
        return Err(IntFailure::Empty);
    }
    if v.len() == 1 && starts_with_sign(&v) {
        return Err(IntFailure::InvalidDigit);
    }
    if v[0] == '+' {
        parse_magnitude(&v, 1, u64::MAX)
    } else {
        assert(v@.skip(0) == v@);
        parse_magnitude(&v, 0, u64::MAX)
    }
}

/// Reads `s` as a `usize`.
pub fn parse_usize(s: &str) -> (r: Result<usize, IntFailure>)
    ensures
        match r {
            Ok(n) => unsigned_value(s@, usize::MAX as nat) == Ok::<nat, IntFailure>(n as nat),
            Err(e) => unsigned_value(s@, usize::MAX as nat) == Err::<nat, IntFailure>(e),
        },
{
    let v = chars_of(s);
    if v.len() == 0 {
        return Err(IntFailure::Empty);
    }
    if v.len() == 1 && starts_with_sign(&v) {
        return Err(IntFailure::InvalidDigit);
    }
    let start: usize = if v[0] == '+' {
        1
    } else {
        0
    };
    assert(v@.skip(0) == v@);
    match parse_magnitude(&v, start, usize::MAX as u64) {
        Ok(n) => Ok(n as usize),
        Err(e) => Err(e),
    }
}

/// Reads `s` as an `i32`.
pub fn parse_i32(s: &str) -> (r: Result<i32, IntFailure>)
    ensures
        match r {
            Ok(n) => signed_value(s@, i32::MAX as nat) == Ok::<int, IntFailure>(n as int),
            Err(e) => signed_value(s@, i32::MAX as nat) == Err::<int, IntFailure>(e),
        },
{
    let v = chars_of(s);
    if v.len() == 0 {
        return Err(IntFailure::Empty);
    }
    if v.len() == 1 && starts_with_sign(&v) {
        return Err(IntFailure::InvalidDigit);
    }
    if v[0] == '-' {
        match parse_magnitude(&v, 1, 2147483648) {
            Ok(m) => Ok((-(m as i64)) as i32),
            Err(IntFailure::PosOverflow) => Err(IntFailure::NegOverflow),
            Err(e) => Err(e),
        }
    } else {
        let start: usize = if v[0] == '+' {
            1
        } else {
            0
        };
        assert(v@.skip(0) == v@);
        match parse_magnitude(&v, start, 2147483647) {
            Ok(m) => Ok(m as i32),
            Err(e) => Err(e),
        }
    }
}

/// Whether `c` is white space: a blank, a tab, a line break or one of the
/// other separators that Unicode lists under White_Space.
pub open spec fn is_whitespace(c: char) -> bool {
    let code = c as int;
    ||| 0x09 <= code <= 0x0D
    ||| code == 0x20
    ||| code == 0x85
    ||| code == 0xA0
    ||| code == 0x1680
    ||| 0x2000 <= code <= 0x200A
    ||| code == 0x2028
    ||| code == 0x2029
    ||| code == 0x202F
    ||| code == 0x205F
    ||| code == 0x3000
}

/// Whether `c` is white space.
pub fn whitespace(c: char) -> (r: bool)
    ensures
        r == is_whitespace(c),
{
    let code = c as u32;
    (0x09 <= code && code <= 0x0D) || code == 0x20 || code == 0x85 || code == 0xA0 || code
        == 0x1680 || (0x2000 <= code && code <= 0x200A) || code == 0x2028 || code == 0x2029
        || code == 0x202F || code == 0x205F || code == 0x3000
}

/// The items one after the other, with `sep` between each two.
pub open spec fn joined(items: Seq<Seq<char>>, sep: Seq<char>) -> Seq<char>
    decreases items.len(),
{
    if items.len() == 0 {
        Seq::empty()
    } else if items.len() == 1 {
        items[0]
    } else {
        joined(items.drop_last(), sep) + sep + items.last()
    }
}

/// The items between square brackets, with a comma and a blank between each
/// two.
pub open spec fn bracketed(items: Seq<Seq<char>>) -> Seq<char> {
    seq!['['] + joined(items, seq![',', ' ']) + seq![']']
}

} // verus!
