//! Numbers as text.

use crate::text;
use vstd::prelude::*;

verus! {

// ---------------------------------------------------------------------------
// Decimal
// ---------------------------------------------------------------------------

pub open spec fn is_digit(c: char) -> bool {
    '0' <= c <= '9'
}

pub open spec fn digit_value(c: char) -> int {
    c as int - '0' as int
}

/// The decimal digit for `d`, with `d` below ten.
pub open spec fn digit_char(d: int) -> char {
    ('0' as u8 + d) as u8 as char
}

pub open spec fn all_digits(s: Seq<char>) -> bool {
    forall|i: int| 0 <= i < s.len() ==> is_digit(#[trigger] s[i])
}

/// The number that a run of decimal digits writes.
pub open spec fn digits_value(s: Seq<char>) -> int
    decreases s.len(),
{
    if s.len() == 0 {
        0
    } else {
        10 * digits_value(s.drop_last()) + digit_value(s.last())
    }
}

/// The text after an optional plus sign.
pub open spec fn after_plus(s: Seq<char>) -> Seq<char> {
    if s.len() > 0 && s[0] == '+' {
        s.skip(1)
    } else {
        s
    }
}

/// Reads an unsigned decimal number: an optional plus sign and at least one
/// digit, and a value of at most `max`.
pub open spec fn parse_unsigned(s: Seq<char>, max: int) -> Option<int> {
    let digits = after_plus(s);
    if digits.len() > 0 && all_digits(digits) && digits_value(digits) <= max {
        Some(digits_value(digits))
    } else {
        None
    }
}

proof fn lemma_value_of_prefix(s: Seq<char>, n: int)
    requires
        all_digits(s),
        0 <= n <= s.len(),
    ensures
        0 <= digits_value(s.take(n)) <= digits_value(s),
    decreases s.len() - n,
{
    if n == s.len() {
        assert(s.take(n) =~= s);
        lemma_value_nonnegative(s);
    } else {
        lemma_value_of_prefix(s, n + 1);
        assert(s.take(n + 1).drop_last() =~= s.take(n));
        lemma_value_nonnegative(s.take(n));
        assert(is_digit(s[n]));
    }
}

pub proof fn lemma_value_nonnegative(s: Seq<char>)
    requires
        all_digits(s),
    ensures
        0 <= digits_value(s),
    decreases s.len(),
{
    if s.len() > 0 {
        assert(is_digit(s.last()));
        lemma_value_nonnegative(s.drop_last());
    }
}

/// Reads an unsigned decimal number of at most `max`.
pub(crate) fn parse_number(cs: &[char], max: u64) -> (r: Option<u64>)
    ensures
        match r {
            Some(n) => parse_unsigned(cs@, max as int) == Some(n as int),
            None => parse_unsigned(cs@, max as int) is None,
        },
{
    let start: usize = if cs.len() > 0 && cs[0] == '+' {
        1
    } else {
        0
    };
    let ghost digits = after_plus(cs@);
    assert(digits =~= cs@.skip(start as int));
    if start == cs.len() {
        return None;
    }
    let mut value: u64 = 0;
    let mut i: usize = start;
    while i < cs.len()
        invariant
            start <= i <= cs@.len(),
            digits == cs@.skip(start as int),
            digits == after_plus(cs@),
            all_digits(digits.take(i - start)),
            value == digits_value(digits.take(i - start)),
            value <= max,
        decreases cs@.len() - i,
    {
        let c = cs[i];
        assert(digits[i - start] == c);
        if !('0' <= c && c <= '9') {
            assert(!all_digits(digits)) by {
                assert(!is_digit(digits[i - start]));
            }
            return None;
        }
        let d: u64 = (c as u8 - '0' as u8) as u64;
        proof {
            assert(digits.take(i + 1 - start).drop_last() =~= digits.take(i - start));
            assert(digits_value(digits.take(i + 1 - start)) == 10 * value + d);
        }
        let next: u128 = 10 * (value as u128) + (d as u128);
        if next > max as u128 {
            proof {
                if all_digits(digits) {
                    lemma_value_of_prefix(digits, i + 1 - start);
                }
            }
            return None;
        }
        proof {
            assert forall|k: int| 0 <= k < i + 1 - start implies is_digit(
                #[trigger] digits.take(i + 1 - start)[k],
            ) by {
                if k < i - start {
                    assert(digits.take(i - start)[k] == digits[k]);
                }
            }
        }
        value = next as u64;
        i += 1;
    }
    assert(digits.take(i - start) =~= digits);
    Some(value)
}

/// The decimal digits of `n`, without leading zeros.
pub open spec fn decimal(n: nat) -> Seq<char>
    decreases n,
{
    if n < 10 {
        seq![digit_char(n as int)]
    } else {
        decimal(n / 10).push(digit_char((n % 10) as int))
    }
}

/// The decimal notation of `n`, with a minus sign where it is negative.
pub open spec fn signed_decimal(n: int) -> Seq<char> {
    if n < 0 {
        seq!['-'] + decimal((-n) as nat)
    } else {
        decimal(n as nat)
    }
}

/// Decimal digits write the number that they were made from.
pub proof fn lemma_decimal_value(n: nat)
    ensures
        decimal(n).len() > 0,
        all_digits(decimal(n)),
        digits_value(decimal(n)) == n,
    decreases n,
{
    if n < 10 {
        assert(decimal(n).drop_last() =~= Seq::<char>::empty());
        assert(digits_value(Seq::<char>::empty()) == 0);
    } else {
        lemma_decimal_value(n / 10);
        assert(decimal(n).drop_last() =~= decimal(n / 10));
        assert forall|i: int| 0 <= i < decimal(n).len() implies is_digit(
            #[trigger] decimal(n)[i],
        ) by {
            if i < decimal(n / 10).len() {
                assert(decimal(n / 10)[i] == decimal(n)[i]);
            }
        }
    }
}

/// Reading the decimal notation of a number within bounds gives it back.
pub proof fn lemma_parse_decimal(n: nat, max: int)
    requires
        n <= max,
    ensures
        parse_unsigned(decimal(n), max) == Some(n as int),
{
    lemma_decimal_value(n);
    assert(is_digit(decimal(n)[0]));
}

/// A number in decimal digits is read exactly where it is not above the bound,
/// and as that number.
pub proof fn numbers_are_read_up_to_their_bound(n: nat, max: int)
    ensures
        n <= max ==> parse_unsigned(decimal(n), max) == Some(n as int),
        n > max ==> parse_unsigned(decimal(n), max) is None,
{
    lemma_decimal_value(n);
    assert(is_digit(decimal(n)[0]));
}

/// Another digit makes ten times the number, and the digit more; a plus sign in
/// front changes nothing; and nothing but digits is a number.
pub proof fn numbers_are_read_digit_by_digit(s: Seq<char>, c: char, max: int)
    ensures
        s.len() > 0 && s[0] != '+' && '0' <= c <= '9' ==> (match parse_unsigned(s, max) {
            Some(n) => parse_unsigned(s.push(c), max) == (if 10 * n + (c as int - 48) <= max {
                Some(10 * n + (c as int - 48))
            } else {
                None
            }),
            None => parse_unsigned(s.push(c), max) is None,
        }),
        '0' <= c <= '9' && c as int - 48 <= max ==> parse_unsigned(seq![c], max) == Some(
            c as int - 48,
        ),
        s.len() > 0 && s[0] != '+' ==> parse_unsigned(seq!['+'] + s, max) == parse_unsigned(s, max),
        !('0' <= c <= '9') && s.contains(c) && s.len() > 0 && s[0] != '+' ==> parse_unsigned(
            s,
            max,
        ) is None,
        parse_unsigned(Seq::empty(), max) is None,
{
    let more = s.push(c);
    if s.len() > 0 && s[0] != '+' && '0' <= c <= '9' {
        assert(more[0] == s[0]);
        assert(after_plus(more) == more);
        assert(more.drop_last() =~= s);
        if all_digits(s) {
            assert(all_digits(more)) by {
                assert forall|i: int| 0 <= i < more.len() implies is_digit(#[trigger] more[i]) by {
                    if i < s.len() {
                        assert(more[i] == s[i]);
                    }
                }
            }
            lemma_value_nonnegative(s);
        } else {
            let i = choose|i: int| 0 <= i < s.len() && !is_digit(#[trigger] s[i]);
            assert(more[i] == s[i]);
            assert(!is_digit(more[i]));
        }
    }
    assert(seq![c].drop_last() =~= Seq::<char>::empty());
    assert(digits_value(Seq::<char>::empty()) == 0);
    assert(digits_value(seq![c]) == digit_value(c));
    assert((seq!['+'] + s).skip(1) =~= s);
    if s.contains(c) && !('0' <= c <= '9') {
        let i = choose|i: int| 0 <= i < s.len() && s[i] == c;
        assert(!is_digit(s[i]));
    }
}

/// Different numbers have different decimal notations.
pub proof fn signed_decimals_differ(n: int, m: int)
    ensures
        signed_decimal(n) == signed_decimal(m) ==> n == m,
{
    if signed_decimal(n) == signed_decimal(m) {
        if n >= 0 {
            lemma_decimal_value(n as nat);
            assert(is_digit(signed_decimal(n)[0]));
        } else {
            lemma_decimal_value((-n) as nat);
            assert(signed_decimal(n).skip(1) =~= decimal((-n) as nat));
        }
        if m >= 0 {
            lemma_decimal_value(m as nat);
            assert(is_digit(signed_decimal(m)[0]));
        } else {
            lemma_decimal_value((-m) as nat);
            assert(signed_decimal(m).skip(1) =~= decimal((-m) as nat));
        }
    }
}

/// The decimal notation of a number is its digits: the last one is what is left
/// of it after tens, and those before it are the notation of the tens.
pub proof fn decimals_are_digits(n: nat)
    ensures
        decimal(n).last() as int == 48 + n % 10,
        n >= 10 ==> decimal(n).drop_last() == decimal(n / 10),
        n < 10 ==> decimal(n).len() == 1,
{
    if n >= 10 {
        assert(decimal(n).drop_last() =~= decimal(n / 10));
    }
}

/// No character of a decimal notation is white space.
pub proof fn lemma_decimal_no_space(n: int)
    ensures
        forall|i: int| 0 <= i < signed_decimal(n).len() ==> !text::is_space(#[trigger] signed_decimal(n)[i]),
        signed_decimal(n).len() > 0,
{
    let m: nat = if n < 0 {
        (-n) as nat
    } else {
        n as nat
    };
    lemma_decimal_value(m);
    assert forall|i: int| 0 <= i < signed_decimal(n).len() implies !text::is_space(
        #[trigger] signed_decimal(n)[i],
    ) by {
        if n < 0 {
            if i > 0 {
                assert(signed_decimal(n)[i] == decimal(m)[i - 1]);
                assert(is_digit(decimal(m)[i - 1]));
            }
        } else {
            assert(is_digit(decimal(m)[i]));
        }
    }
}

/// Appends the decimal notation of `n`.
pub(crate) fn push_decimal(out: &mut String, n: u64)
    ensures
        final(out)@ == old(out)@ + decimal(n as nat),
    decreases n,
{
    if n >= 10 {
        push_decimal(out, n / 10);
    }
    let d: u8 = (n % 10) as u8;
    let ghost before = out@;
    out.push((48u8 + d) as char);
    proof {
        assert(digit_char(d as int) == (48u8 + d) as u8 as char);
        if n < 10 {
            assert(out@ =~= old(out)@ + decimal(n as nat));
        } else {
            assert(out@ =~= old(out)@ + decimal(n as nat));
        }
    }
}

/// The magnitude of a signed number.
fn magnitude(n: i64) -> (r: u64)
    ensures
        r == (if n < 0 {
            -n
        } else {
            n as int
        }),
{
    if n < 0 {
        if n == i64::MIN {
            9223372036854775808
        } else {
            (-n) as u64
        }
    } else {
        n as u64
    }
}

/// Appends the decimal notation of a signed number.
pub(crate) fn push_signed_decimal(out: &mut String, n: i64)
    ensures
        final(out)@ == old(out)@ + signed_decimal(n as int),
{
    if n < 0 {
        out.push('-');
    }
    push_decimal(out, magnitude(n));
    proof {
        assert(out@ =~= old(out)@ + signed_decimal(n as int));
    }
}

// ---------------------------------------------------------------------------
// Hexadecimal
// ---------------------------------------------------------------------------

/// The hexadecimal digit for `d`, with `d` below sixteen.
pub open spec fn hex_char(d: int) -> char {
    if d < 10 {
        ('0' as u8 + d) as u8 as char
    } else {
        ('a' as u8 + (d - 10)) as u8 as char
    }
}

/// A byte as two hexadecimal digits.
pub open spec fn hex_byte(b: u8) -> Seq<char> {
    seq![hex_char(b as int / 16), hex_char(b as int % 16)]
}

/// The value of a hexadecimal digit.
pub open spec fn hex_value(c: char) -> int {
    if '0' <= c <= '9' {
        c as int - 48
    } else {
        c as int - 87
    }
}

/// The two hexadecimal digits of a byte write that byte, in small letters.
pub proof fn hex_digits_write_their_byte(b: u8)
    ensures
        hex_byte(b).len() == 2,
        16 * hex_value(hex_byte(b)[0]) + hex_value(hex_byte(b)[1]) == b,
        forall|i: int|
            0 <= i < 2 ==> '0' <= #[trigger] hex_byte(b)[i] <= '9' || 'a' <= hex_byte(b)[i] <= 'f',
{
}

fn hex_digit(d: u8) -> (c: char)
    requires
        d < 16,
    ensures
        c == hex_char(d as int),
{
    if d < 10 {
        (48u8 + d) as char
    } else {
        (97u8 + (d - 10)) as char
    }
}

/// Appends a byte as two hexadecimal digits.
pub(crate) fn push_hex(out: &mut String, b: u8)
    ensures
        final(out)@ == old(out)@ + hex_byte(b),
{
    out.push(hex_digit(b / 16));
    out.push(hex_digit(b % 16));
    proof {
        assert(out@ =~= old(out)@ + hex_byte(b));
    }
}

/// A negative number is written as a hyphen and the digits of what it lacks; any other
/// by its digits alone.
pub proof fn negative_numbers_have_a_hyphen(n: nat)
    ensures
        signed_decimal(n as int) == decimal(n),
        n > 0 ==> signed_decimal(-(n as int)) == seq!['-'] + decimal(n),
{
}

} // verus!
