//! Character-level helpers: conversions between strings and character
//! vectors, decimal rendering and parsing of integers, padding.

use vstd::prelude::*;

verus! {

/// Appends one character with `String::push`: afterwards the text is the old
/// text followed by exactly that character.
#[verifier::external_body]
pub(crate) fn push_char(s: &mut String, c: char)
    ensures
        final(s)@ == old(s)@.push(c),
{
    s.push(c)
}

/// The characters of a string, in order.
pub fn to_chars(s: &str) -> (v: Vec<char>)
    ensures
        v@ == s@,
{
    let mut v: Vec<char> = Vec::new();
    for c in it: s.chars()
        invariant
            v@ == it.seq().subrange(0, it.index() as int),
            it.seq() == s@,
    {
        v.push(c);
    }
    v
}

/// The string made of the given characters, in order.
pub fn from_chars(v: &Vec<char>) -> (s: String)
    ensures
        s@ == v@,
{
    let mut s = String::new();
    let mut i: usize = 0;
    while i < v.len()
        invariant
            i <= v.len(),
            s@ == v@.subrange(0, i as int),
        decreases v.len() - i,
    {
        push_char(&mut s, v[i]);
        i = i + 1;
        assert(s@ =~= v@.subrange(0, i as int));
    }
    assert(v@.subrange(0, v.len() as int) =~= v@);
    s
}

/// Appends the characters `v[from..to]` to `out`.
pub fn push_range(out: &mut Vec<char>, v: &Vec<char>, from: usize, to: usize)
    requires
        from <= to <= v.len(),
    ensures
        final(out)@ == old(out)@ + v@.subrange(from as int, to as int),
{
    let mut i: usize = from;
    while i < to
        invariant
            from <= i <= to <= v.len(),
            out@ == old(out)@ + v@.subrange(from as int, i as int),
        decreases to - i,
    {
        out.push(v[i]);
        i = i + 1;
        assert(out@ =~= old(out)@ + v@.subrange(from as int, i as int));
    }
}

/// Appends every character of `s` to `out`.
pub fn push_str(out: &mut Vec<char>, s: &str)
    ensures
        final(out)@ == old(out)@ + s@,
{
    let v = to_chars(s);
    push_range(out, &v, 0, v.len());
    assert(v@.subrange(0, v.len() as int) =~= v@);
}

/// Appends `count` copies of `c` to `out`.
pub fn push_repeated(out: &mut Vec<char>, c: char, count: usize)
    ensures
        final(out)@ == old(out)@ + Seq::new(count as nat, |i: int| c),
{
    let mut i: usize = 0;
    while i < count
        invariant
            i <= count,
            out@ == old(out)@ + Seq::new(i as nat, |k: int| c),
        decreases count - i,
    {
        out.push(c);
        i = i + 1;
        assert(out@ =~= old(out)@ + Seq::new(i as nat, |k: int| c));
    }
}

/// The decimal digit for `d`, `'0'` for anything outside `0..=9`.
pub open spec fn spec_digit(d: int) -> char {
    if d == 1 {
        '1'
    } else if d == 2 {
        '2'
    } else if d == 3 {
        '3'
    } else if d == 4 {
        '4'
    } else if d == 5 {
        '5'
    } else if d == 6 {
        '6'
    } else if d == 7 {
        '7'
    } else if d == 8 {
        '8'
    } else if d == 9 {
        '9'
    } else {
        '0'
    }
}

pub fn digit(d: u64) -> (c: char)
    ensures
        c == spec_digit(d as int),
{
    if d == 1 {
        '1'
    } else if d == 2 {
        '2'
    } else if d == 3 {
        '3'
    } else if d == 4 {
        '4'
    } else if d == 5 {
        '5'
    } else if d == 6 {
        '6'
    } else if d == 7 {
        '7'
    } else if d == 8 {
        '8'
    } else if d == 9 {
        '9'
    } else {
        '0'
    }
}

/// The value of a decimal digit character, `None` for any other character.
pub open spec fn spec_digit_value(c: char) -> Option<int> {
    if c == '0' {
        Some(0)
    } else if c == '1' {
        Some(1)
    } else if c == '2' {
        Some(2)
    } else if c == '3' {
        Some(3)
    } else if c == '4' {
        Some(4)
    } else if c == '5' {
        Some(5)
    } else if c == '6' {
        Some(6)
    } else if c == '7' {
        Some(7)
    } else if c == '8' {
        Some(8)
    } else if c == '9' {
        Some(9)
    } else {
        None
    }
}

pub fn digit_value(c: char) -> (r: Option<u8>)
    ensures
        r is Some <==> spec_digit_value(c) is Some,
        r is Some ==> r->0 as int == spec_digit_value(c)->0 && r->0 <= 9,
{
    if c == '0' {
        Some(0)
    } else if c == '1' {
        Some(1)
    } else if c == '2' {
        Some(2)
    } else if c == '3' {
        Some(3)
    } else if c == '4' {
        Some(4)
    } else if c == '5' {
        Some(5)
    } else if c == '6' {
        Some(6)
    } else if c == '7' {
        Some(7)
    } else if c == '8' {
        Some(8)
    } else if c == '9' {
        Some(9)
    } else {
        None
    }
}

/// Decimal digits of a natural number, most significant first, without
/// leading zeros (`0` is `"0"`).
pub open spec fn spec_nat_text(n: nat) -> Seq<char>
    decreases n,
{
    if n < 10 {
        seq![spec_digit(n as int)]
    } else {
        spec_nat_text(n / 10).push(spec_digit((n % 10) as int))
    }
}

/// Decimal rendering of an integer: a minus sign for negative numbers, then
/// the digits of the magnitude.
pub open spec fn spec_int_text(i: int) -> Seq<char> {
    if i < 0 {
        seq!['-'] + spec_nat_text((-i) as nat)
    } else {
        spec_nat_text(i as nat)
    }
}

pub fn push_nat(out: &mut Vec<char>, n: u64)
    ensures
        final(out)@ == old(out)@ + spec_nat_text(n as nat),
    decreases n,
{
    if n < 10 {
        out.push(digit(n));
        assert(out@ =~= old(out)@ + spec_nat_text(n as nat));
    } else {
        push_nat(out, n / 10);
        out.push(digit(n % 10));
        assert(out@ =~= old(out)@ + spec_nat_text(n as nat));
    }
}

pub fn push_int(out: &mut Vec<char>, i: i64)
    ensures
        final(out)@ == old(out)@ + spec_int_text(i as int),
{
    if i < 0 {
        out.push('-');
        let magnitude: u64 = ((-(i + 1)) as u64) + 1;
        push_nat(out, magnitude);
        assert(out@ =~= old(out)@ + spec_int_text(i as int));
    } else {
        push_nat(out, i as u64);
    }
}

pub fn nat_text(n: u64) -> (v: Vec<char>)
    ensures
        v@ == spec_nat_text(n as nat),
{
    let mut v: Vec<char> = Vec::new();
    push_nat(&mut v, n);
    assert(v@ =~= spec_nat_text(n as nat));
    v
}

pub fn int_text(i: i64) -> (v: Vec<char>)
    ensures
        v@ == spec_int_text(i as int),
{
    let mut v: Vec<char> = Vec::new();
    push_int(&mut v, i);
    assert(v@ =~= spec_int_text(i as int));
    v
}

/// `text` right-aligned in a field of `width` characters: spaces are put in
/// front of it until it is `width` long; a longer text is left as it is.
pub open spec fn spec_pad_left(text: Seq<char>, width: nat) -> Seq<char> {
    if text.len() >= width {
        text
    } else {
        Seq::new((width - text.len()) as nat, |i: int| ' ') + text
    }
}

pub fn push_padded_nat(out: &mut Vec<char>, n: u64, width: usize)
    ensures
        final(out)@ == old(out)@ + spec_pad_left(spec_nat_text(n as nat), width as nat),
{
    let digits = nat_text(n);
    if digits.len() < width {
        push_repeated(out, ' ', width - digits.len());
    }
    push_range(out, &digits, 0, digits.len());
    assert(digits@.subrange(0, digits.len() as int) =~= digits@);
    assert(out@ =~= old(out)@ + spec_pad_left(spec_nat_text(n as nat), width as nat));
}

/// Whether two character vectors hold the same text.
pub fn same_text(a: &Vec<char>, b: &Vec<char>) -> (r: bool)
    ensures
        r == (a@ == b@),
{
    if a.len() != b.len() {
        return false;
    }
    let mut i: usize = 0;
    while i < a.len()
        invariant
            a.len() == b.len(),
            i <= a.len(),
            a@.subrange(0, i as int) == b@.subrange(0, i as int),
        decreases a.len() - i,
    {
        if a[i] != b[i] {
            return false;
        }
        i = i + 1;
        assert(a@.subrange(0, i as int) =~= a@.subrange(0, i - 1).push(a@[i - 1]));
        assert(b@.subrange(0, i as int) =~= b@.subrange(0, i - 1).push(b@[i - 1]));
    }
    assert(a@.subrange(0, a.len() as int) =~= a@);
    assert(b@.subrange(0, b.len() as int) =~= b@);
    true
}

/// Whether the characters of `v` are exactly those of the string `s`.
pub fn is_text(v: &Vec<char>, s: &str) -> (r: bool)
    ensures
        r == (v@ == s@),
{
    let w = to_chars(s);
    same_text(v, &w)
}

} // verus!

verus! {

/// The number that a run of decimal digits stands for, `None` where a
/// character is not a digit. The empty run stands for `0`.
pub open spec fn spec_digits_value(digits: Seq<char>) -> Option<int>
    decreases digits.len(),
{
    if digits.len() == 0 {
        Some(0)
    } else {
        match (spec_digits_value(digits.drop_last()), spec_digit_value(digits.last())) {
            (Some(high), Some(low)) => Some(high * 10 + low),
            _ => None,
        }
    }
}

/// What reading an integer from a text gives: an optional sign, then at
/// least one digit and nothing but digits; the number must fit in 64 bits.
/// The error tells an empty text, a character that is no digit, a number
/// that is too large and one that is too small apart.
pub open spec fn spec_parse_int(text: Seq<char>) -> Result<i64, IntError> {
    if text.len() == 0 {
        Err(IntError::Empty)
    } else {
        let negative = text[0] == '-';
        let digits = if text[0] == '-' || text[0] == '+' {
            text.drop_first()
        } else {
            text
        };
        if digits.len() == 0 {
            Err(IntError::InvalidDigit)
        } else {
            match spec_digits_value(digits) {
                None => Err(IntError::InvalidDigit),
                Some(magnitude) => if negative {
                    if -magnitude < i64::MIN {
                        Err(IntError::NegOverflow)
                    } else {
                        Ok((-magnitude) as i64)
                    }
                } else {
                    if magnitude > i64::MAX {
                        Err(IntError::PosOverflow)
                    } else {
                        Ok(magnitude as i64)
                    }
                },
            }
        }
    }
}

/// Why a text is not an integer.
#[derive(Debug, Clone, Copy, PartialEq, Eq, Structural)]
pub enum IntError {
    Empty,
    InvalidDigit,
    PosOverflow,
    NegOverflow,
}

impl IntError {
    pub open spec fn spec_message(self) -> Seq<char> {
        match self {
            IntError::Empty => "cannot parse integer from empty string"@,
            IntError::InvalidDigit => "invalid digit found in string"@,
            IntError::PosOverflow => "number too large to fit in target type"@,
            IntError::NegOverflow => "number too small to fit in target type"@,
        }
    }

    pub fn message(&self) -> (s: &'static str)
        ensures
            s@ == self.spec_message(),
    {
        match self {
            IntError::Empty => "cannot parse integer from empty string",
            IntError::InvalidDigit => "invalid digit found in string",
            IntError::PosOverflow => "number too large to fit in target type",
            IntError::NegOverflow => "number too small to fit in target type",
        }
    }
}

proof fn lemma_digits_value_step(digits: Seq<char>, n: int)
    requires
        0 < n <= digits.len(),
    ensures
        spec_digits_value(digits.subrange(0, n)) == match (
            spec_digits_value(digits.subrange(0, n - 1)),
            spec_digit_value(digits[n - 1]),
        ) {
            (Some(high), Some(low)) => Some(high * 10 + low),
            _ => None,
        },
{
    assert(digits.subrange(0, n).drop_last() =~= digits.subrange(0, n - 1));
    assert(digits.subrange(0, n).last() == digits[n - 1]);
}

proof fn lemma_digits_value_nonnegative(digits: Seq<char>)
    ensures
        spec_digits_value(digits) matches Some(v) ==> v >= 0,
    decreases digits.len(),
{
    if digits.len() > 0 {
        lemma_digits_value_nonnegative(digits.drop_last());
    }
}

proof fn lemma_digits_value_grows(digits: Seq<char>, n: int)
    requires
        0 <= n <= digits.len(),
        spec_digits_value(digits) is Some,
    ensures
        spec_digits_value(digits.subrange(0, n)) matches Some(v) && v <= spec_digits_value(
            digits,
        )->0,
    decreases digits.len() - n,
{
    if n == digits.len() {
        assert(digits.subrange(0, n) =~= digits);
    } else {
        lemma_digits_value_prefix_some(digits, n + 1);
        lemma_digits_value_grows(digits, n + 1);
        lemma_digits_value_step(digits, n + 1);
        lemma_digits_value_nonnegative(digits.subrange(0, n));
    }
}

proof fn lemma_digits_value_prefix_some(digits: Seq<char>, n: int)
    requires
        0 <= n <= digits.len(),
        spec_digits_value(digits) is Some,
    ensures
        spec_digits_value(digits.subrange(0, n)) is Some,
    decreases digits.len() - n,
{
    if n == digits.len() {
        assert(digits.subrange(0, n) =~= digits);
    } else {
        lemma_digits_value_prefix_some(digits, n + 1);
        lemma_digits_value_step(digits, n + 1);
    }
}

proof fn lemma_digits_value_none(digits: Seq<char>, n: int)
    requires
        0 <= n <= digits.len(),
        spec_digits_value(digits.subrange(0, n)) is None,
    ensures
        spec_digits_value(digits) is None,
{
    if spec_digits_value(digits) is Some {
        lemma_digits_value_prefix_some(digits, n);
    }
}

/// The magnitude that the digits `text[from..]` stand for, up to the
/// largest magnitude of a 64-bit integer.
fn parse_magnitude(text: &Vec<char>, from: usize) -> (r: Result<u64, IntError>)
    requires
        from <= text.len(),
    ensures
        match spec_digits_value(text@.subrange(from as int, text.len() as int)) {
            None => r == Err::<u64, IntError>(IntError::InvalidDigit),
            Some(v) => if v > 0x8000_0000_0000_0000 {
                r == Err::<u64, IntError>(IntError::PosOverflow)
            } else {
                r == Ok::<u64, IntError>(v as u64)
            },
        },
{
    let ghost digits = text@.subrange(from as int, text.len() as int);
    let mut value: u64 = 0;
    let mut overflow = false;
    let mut i: usize = from;
    while i < text.len()
        invariant
            from <= i <= text.len(),
            digits == text@.subrange(from as int, text.len() as int),
            spec_digits_value(digits.subrange(0, i - from)) is Some,
            !overflow ==> spec_digits_value(digits.subrange(0, i - from)) == Some(value as int)
                && value <= 0x8000_0000_0000_0000,
            overflow ==> spec_digits_value(digits.subrange(0, i - from))->0
                > 0x8000_0000_0000_0000,
        decreases text.len() - i,
    {
        proof {
            lemma_digits_value_step(digits, i - from + 1);
            lemma_digits_value_nonnegative(digits.subrange(0, i - from));
        }
        match digit_value(text[i]) {
            None => {
                proof {
                    lemma_digits_value_none(digits, i - from + 1);
                }
                return Err(IntError::InvalidDigit);
            },
            Some(d) => {
                if !overflow {
                    if value > 0x0ccc_cccc_cccc_cccc {
                        overflow = true;
                    } else {
                        let next = value * 10 + d as u64;
                        if next > 0x8000_0000_0000_0000 {
                            overflow = true;
                        } else {
                            value = next;
                        }
                    }
                }
            },
        }
        i = i + 1;
    }
    assert(digits.subrange(0, text.len() - from) =~= digits);
    if overflow {
        Err(IntError::PosOverflow)
    } else {
        Ok(value)
    }
}

/// Reads an integer from a text.
pub fn parse_int(text: &Vec<char>) -> (r: Result<i64, IntError>)
    ensures
        r == spec_parse_int(text@),
{
    if text.len() == 0 {
        return Err(IntError::Empty);
    }
    let negative = text[0] == '-';
    let from: usize = if text[0] == '-' || text[0] == '+' {
        1
    } else {
        0
    };
    proof {
        if from == 1 {
            assert(text@.subrange(1, text.len() as int) =~= text@.drop_first());
        } else {
            assert(text@.subrange(0, text.len() as int) =~= text@);
        }
    }
    if from == text.len() {
        return Err(IntError::InvalidDigit);
    }
    let ghost digits = text@.subrange(from as int, text.len() as int);
    proof {
        lemma_digits_value_nonnegative(digits);
    }
    let parsed = parse_magnitude(text, from);
    assert(parsed is Ok ==> spec_digits_value(digits) == Some(parsed->Ok_0 as int)
        && parsed->Ok_0 <= 0x8000_0000_0000_0000);
    assert(parsed == Err::<u64, IntError>(IntError::InvalidDigit) ==> spec_digits_value(digits)
        is None);
    assert(parsed == Err::<u64, IntError>(IntError::PosOverflow) ==> spec_digits_value(digits)
        is Some && spec_digits_value(digits)->0 > 0x8000_0000_0000_0000);
    match parsed {
        Err(IntError::PosOverflow) => {
            if negative {
                Err(IntError::NegOverflow)
            } else {
                Err(IntError::PosOverflow)
            }
        },
        Err(e) => Err(e),
        Ok(magnitude) => {
            if negative {
                if magnitude == 0x8000_0000_0000_0000 {
                    Ok(i64::MIN)
                } else {
                    Ok(-(magnitude as i64))
                }
            } else if magnitude == 0x8000_0000_0000_0000 {
                Err(IntError::PosOverflow)
            } else {
                Ok(magnitude as i64)
            }
        },
    }
}

} // verus!
