//! Numbers and flags as text: decimal and hexadecimal digits, the value of a
//! digit string, the digits of a value, and `true` / `false`.

use vstd::prelude::*;

verus! {

// ---------------------------------------------------------------------------
// Digits
// ---------------------------------------------------------------------------

/// Whether `c` is one of `0` to `9`.
pub open spec fn is_digit(c: char) -> bool {
    0x30 <= c as u32 <= 0x39
}

/// Whether `c` is one of `0` to `9`, `a` to `f` or `A` to `F`.
pub open spec fn is_hex_digit(c: char) -> bool {
    ||| 0x30 <= c as u32 <= 0x39
    ||| 0x61 <= c as u32 <= 0x66
    ||| 0x41 <= c as u32 <= 0x46
}

/// The value of a decimal or hexadecimal digit; 0 for any other character.
pub open spec fn digit_value(c: char) -> nat {
    let n = c as u32;
    if 0x30 <= n <= 0x39 {
        (n - 0x30) as nat
    } else if 0x61 <= n <= 0x66 {
        (n - 0x61 + 10) as nat
    } else if 0x41 <= n <= 0x46 {
        (n - 0x41 + 10) as nat
    } else {
        0
    }
}

/// The digit, in lower case, with the value `d`; `0` where `d` is no digit's
/// value.
pub open spec fn digit_char(d: int) -> char {
    if d == 1 {
        '1'
    } else if d == 2 {
        '2'
    } else if d == 3 {
        '3'
    } else if d == 4 {
        '4'
    } else if d == 5 {
        '5'
    } else if d == 6 {
        '6'
    } else if d == 7 {
        '7'
    } else if d == 8 {
        '8'
    } else if d == 9 {
        '9'
    } else if d == 10 {
        'a'
    } else if d == 11 {
        'b'
    } else if d == 12 {
        'c'
    } else if d == 13 {
        'd'
    } else if d == 14 {
        'e'
    } else if d == 15 {
        'f'
    } else {
        '0'
    }
}

/// Whether every character of `s` is a decimal digit.
pub open spec fn all_digits(s: Seq<char>) -> bool {
    forall|i: int| 0 <= i < s.len() ==> is_digit(#[trigger] s[i])
}

/// Whether every character of `s` is a hexadecimal digit.
pub open spec fn all_hex_digits(s: Seq<char>) -> bool {
    forall|i: int| 0 <= i < s.len() ==> is_hex_digit(#[trigger] s[i])
}

/// The number that the decimal digits of `s` write, the first digit weighing
/// most.
pub open spec fn decimal_value(s: Seq<char>) -> nat
    decreases s.len(),
{
    if s.len() == 0 {
        0
    } else {
        decimal_value(s.drop_last()) * 10 + digit_value(s.last())
    }
}

/// The number that the hexadecimal digits of `s` write, the first digit
/// weighing most.
pub open spec fn hex_value(s: Seq<char>) -> nat
    decreases s.len(),
{
    if s.len() == 0 {
        0
    } else {
        hex_value(s.drop_last()) * 16 + digit_value(s.last())
    }
}

/// The decimal digits of `n`, without leading zeros; `0` for zero.
pub open spec fn decimal_text(n: nat) -> Seq<char>
    decreases n,
{
    if n < 10 {
        seq![digit_char(n as int)]
    } else {
        decimal_text(n / 10).push(digit_char((n % 10) as int))
    }
}

/// The hexadecimal digits of `n`, in lower case and without leading zeros;
/// `0` for zero.
pub open spec fn hex_text(n: nat) -> Seq<char>
    decreases n,
{
    if n < 16 {
        seq![digit_char(n as int)]
    } else {
        hex_text(n / 16).push(digit_char((n % 16) as int))
    }
}

/// The decimal text of a signed number: a minus sign before the digits of a
/// negative one.
pub open spec fn integer_text(n: int) -> Seq<char> {
    if n < 0 {
        seq!['-'] + decimal_text((-n) as nat)
    } else {
        decimal_text(n as nat)
    }
}

/// Whether `c` is a decimal digit.
pub fn char_is_digit(c: char) -> (digit: bool)
    ensures
        digit == is_digit(c),
{
    let n: u32 = c as u32;
    0x30 <= n && n <= 0x39
}

/// The value of `c` where it is a hexadecimal digit.
pub fn hex_digit_of(c: char) -> (value: Option<u8>)
    ensures
        value is Some <==> is_hex_digit(c),
        value matches Some(d) ==> d == digit_value(c) && d < 16,
{
    let n: u32 = c as u32;
    if 0x30 <= n && n <= 0x39 {
        Some((n - 0x30) as u8)
    } else if 0x61 <= n && n <= 0x66 {
        Some((n - 0x61 + 10) as u8)
    } else if 0x41 <= n && n <= 0x46 {
        Some((n - 0x41 + 10) as u8)
    } else {
        None
    }
}

/// The digit with the value `d`.
fn digit_for(d: u8) -> (c: char)
    requires
        d < 16,
    ensures
        c == digit_char(d as int),
        is_hex_digit(c),
        digit_value(c) == d,
        d < 10 ==> is_digit(c),
{
    match d {
        0 => '0',
        1 => '1',
        2 => '2',
        3 => '3',
        4 => '4',
        5 => '5',
        6 => '6',
        7 => '7',
        8 => '8',
        9 => '9',
        10 => 'a',
        11 => 'b',
        12 => 'c',
        13 => 'd',
        14 => 'e',
        _ => 'f',
    }
}

// ---------------------------------------------------------------------------
// From a value to its digits
// ---------------------------------------------------------------------------

/// The decimal digits of `n`.
pub fn decimal_chars(n: u64) -> (out: Vec<char>)
    ensures
        out@ == decimal_text(n as nat),
    decreases n,
{
    if n < 10 {
        let mut out: Vec<char> = Vec::new();
        out.push(digit_for(n as u8));
        assert(out@ == seq![digit_char(n as int)]);
        out
    } else {
        let mut out = decimal_chars(n / 10);
        out.push(digit_for((n % 10) as u8));
        out
    }
}

/// The hexadecimal digits of `n`, in lower case.
pub fn hex_chars(n: u16) -> (out: Vec<char>)
    ensures
        out@ == hex_text(n as nat),
    decreases n,
{
    if n < 16 {
        let mut out: Vec<char> = Vec::new();
        out.push(digit_for(n as u8));
        assert(out@ == seq![digit_char(n as int)]);
        out
    } else {
        let mut out = hex_chars(n / 16);
        out.push(digit_for((n % 16) as u8));
        out
    }
}

/// The decimal text of a signed number.
pub fn integer_chars(n: i64) -> (out: Vec<char>)
    ensures
        out@ == integer_text(n as int),
{
    if n < 0 {
        // The magnitude of the least `i64` does not fit in an `i64`: it is
        // taken in `u64`, one more than the magnitude of `n + 1`.
        let magnitude: u64 = ((-(n + 1)) as u64) + 1;
        let digits = decimal_chars(magnitude);
        let mut out: Vec<char> = Vec::new();
        out.push('-');
        let mut i: usize = 0;
        while i < digits.len()
            invariant
                i <= digits.len(),
                out@ == seq!['-'] + digits@.take(i as int),
            decreases digits.len() - i,
        {
            out.push(digits[i]);
            i += 1;
            assert(digits@.take(i as int) == digits@.take(i - 1).push(digits@[i - 1]));
        }
        assert(digits@.take(digits.len() as int) == digits@);
        out
    } else {
        decimal_chars(n as u64)
    }
}

// ---------------------------------------------------------------------------
// From digits to their value
// ---------------------------------------------------------------------------

/// A longer digit string writes a number at least as large as its prefix.
pub proof fn lemma_decimal_value_grows(s: Seq<char>, k: int)
    requires
        0 <= k <= s.len(),
    ensures
        decimal_value(s.take(k)) <= decimal_value(s),
    decreases s.len(),
{
    if k < s.len() {
        lemma_decimal_value_grows(s.drop_last(), k);
        assert(s.drop_last().take(k) == s.take(k));
    } else {
        assert(s.take(k) == s);
    }
}

/// A digit's character has the digit's value, and is a decimal digit where
/// the value is below ten.
pub proof fn lemma_digit_char(d: int)
    requires
        0 <= d < 16,
    ensures
        digit_value(digit_char(d)) == d,
        is_hex_digit(digit_char(d)),
        d < 10 ==> is_digit(digit_char(d)),
        d > 0 ==> digit_char(d) != '0',
{
}

/// The decimal digits of a number write that number: they are digits, at
/// least one, without a zero in front of a number above zero, and no more
/// than the size of the number asks for.
pub proof fn lemma_decimal_text(n: nat)
    ensures
        decimal_text(n).len() >= 1,
        all_digits(decimal_text(n)),
        decimal_value(decimal_text(n)) == n,
        n > 0 ==> decimal_text(n)[0] != '0',
        n < 10 ==> decimal_text(n).len() == 1,
        n < 100 ==> decimal_text(n).len() <= 2,
        n < 1000 ==> decimal_text(n).len() <= 3,
    decreases n,
{
    let text = decimal_text(n);
    if n < 10 {
        lemma_digit_char(n as int);
        assert(text.drop_last() == Seq::<char>::empty());
        assert(decimal_value(text.drop_last()) == 0);
    } else {
        let front = decimal_text(n / 10);
        let digit = digit_char((n % 10) as int);
        lemma_decimal_text(n / 10);
        lemma_digit_char((n % 10) as int);
        assert(text.drop_last() == front);
        assert(text.last() == digit);
        assert(text[0] == front[0]);
        assert forall|i: int| 0 <= i < text.len() implies is_digit(#[trigger] text[i]) by {
            if i < front.len() {
                assert(text[i] == front[i]);
            }
        }
    }
}

/// The hexadecimal digits of a number write that number: they are digits, at
/// least one, and no more than the size of the number asks for.
pub proof fn lemma_hex_text(n: nat)
    ensures
        hex_text(n).len() >= 1,
        all_hex_digits(hex_text(n)),
        hex_value(hex_text(n)) == n,
        n < 0x10 ==> hex_text(n).len() == 1,
        n < 0x100 ==> hex_text(n).len() <= 2,
        n < 0x1000 ==> hex_text(n).len() <= 3,
        n < 0x10000 ==> hex_text(n).len() <= 4,
    decreases n,
{
    let text = hex_text(n);
    if n < 16 {
        lemma_digit_char(n as int);
        assert(text.drop_last() == Seq::<char>::empty());
        assert(hex_value(text.drop_last()) == 0);
    } else {
        let front = hex_text(n / 16);
        let digit = digit_char((n % 16) as int);
        lemma_hex_text(n / 16);
        lemma_digit_char((n % 16) as int);
        assert(text.drop_last() == front);
        assert(text.last() == digit);
        assert forall|i: int| 0 <= i < text.len() implies is_hex_digit(#[trigger] text[i]) by {
            if i < front.len() {
                assert(text[i] == front[i]);
            }
        }
    }
}

/// The number that an unsigned decimal literal writes: digits, at least one,
/// after an optional plus sign. `None` for any other text.
pub open spec fn unsigned_value(s: Seq<char>) -> Option<nat> {
    let digits = if s.len() > 0 && s[0] == '+' {
        s.skip(1)
    } else {
        s
    };
    if digits.len() > 0 && all_digits(digits) {
        Some(decimal_value(digits))
    } else {
        None
    }
}

/// The `u32` that `s` writes as an unsigned decimal literal; `None` where it
/// is no such literal or the number does not fit.
pub open spec fn u32_value(s: Seq<char>) -> Option<u32> {
    match unsigned_value(s) {
        Some(n) => if n <= u32::MAX {
            Some(n as u32)
        } else {
            None
        },
        None => None,
    }
}

/// Reads an unsigned decimal literal that fits in 32 bits.
pub fn parse_u32(v: &Vec<char>) -> (value: Option<u32>)
    ensures
        value == u32_value(v@),
{
    let from: usize = if v.len() > 0 && v[0] == '+' {
        1
    } else {
        0
    };
    let ghost digits = v@.skip(from as int);
    assert(v@.skip(0) == v@);
    if from == v.len() {
        return None;
    }
    let mut acc: u64 = 0;
    let mut i: usize = from;
    assert(digits.take(0) == Seq::<char>::empty());
    while i < v.len()
        invariant
            from <= i <= v.len(),
            digits == v@.skip(from as int),
            digits.len() > 0,
            unsigned_value(v@) == if all_digits(digits) {
                Some(decimal_value(digits))
            } else {
                None
            },
            all_digits(digits.take(i - from)),
            acc == decimal_value(digits.take(i - from)),
            acc <= u32::MAX,
        decreases v.len() - i,
    {
        let c = v[i];
        assert(c == digits[i - from]);
        if !char_is_digit(c) {
            return None;
        }
        let ghost longer = digits.take(i - from + 1);
        assert(longer.drop_last() == digits.take(i - from));
        assert(longer.last() == c);
        assert forall|j: int| 0 <= j < longer.len() implies is_digit(#[trigger] longer[j]) by {
            if j < i - from {
                assert(longer[j] == digits.take(i - from)[j]);
            }
        }
        acc = acc * 10 + ((c as u32 - 0x30) as u64);
        if acc > 0xffff_ffff {
            proof {
                lemma_decimal_value_grows(digits, i - from + 1);
            }
            return None;
        }
        i += 1;
    }
    assert(digits.take(v.len() - from) == digits);
    Some(acc as u32)
}

// ---------------------------------------------------------------------------
// Flags
// ---------------------------------------------------------------------------

/// The flag that `s` writes: `true` or `false`, in exactly these letters.
pub open spec fn flag_value(s: Seq<char>) -> Option<bool> {
    if s == seq!['t', 'r', 'u', 'e'] {
        Some(true)
    } else if s == seq!['f', 'a', 'l', 's', 'e'] {
        Some(false)
    } else {
        None
    }
}

/// The text of a flag.
pub open spec fn flag_text(flag: bool) -> Seq<char> {
    if flag {
        seq!['t', 'r', 'u', 'e']
    } else {
        seq!['f', 'a', 'l', 's', 'e']
    }
}

/// Reads `true` or `false`.
pub fn parse_flag(v: &Vec<char>) -> (value: Option<bool>)
    ensures
        value == flag_value(v@),
{
    if v.len() == 4 && v[0] == 't' && v[1] == 'r' && v[2] == 'u' && v[3] == 'e' {
        assert(v@ =~= seq!['t', 'r', 'u', 'e']);
        Some(true)
    } else if v.len() == 5 && v[0] == 'f' && v[1] == 'a' && v[2] == 'l' && v[3] == 's' && v[4]
        == 'e' {
        assert(v@ =~= seq!['f', 'a', 'l', 's', 'e']);
        Some(false)
    } else {
        proof {
            if v@ == seq!['t', 'r', 'u', 'e'] {
                assert(v@[0] == 't' && v@[1] == 'r' && v@[2] == 'u' && v@[3] == 'e');
            }
            if v@ == seq!['f', 'a', 'l', 's', 'e'] {
                assert(v@[0] == 'f' && v@[1] == 'a' && v@[2] == 'l' && v@[3] == 's' && v@[4]
                    == 'e');
            }
        }
        None
    }
}

/// The text of a flag, as characters.
pub fn flag_chars(flag: bool) -> (out: Vec<char>)
    ensures
        out@ == flag_text(flag),
{
    let mut out: Vec<char> = Vec::new();
    if flag {
        out.push('t');
        out.push('r');
        out.push('u');
        out.push('e');
    } else {
        out.push('f');
        out.push('a');
        out.push('l');
        out.push('s');
        out.push('e');
    }
    assert(out@ =~= flag_text(flag));
    out
}

} // verus!
