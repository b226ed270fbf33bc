//! Whole numbers as decimal text.
//!
//! A number has exactly one text: its digits without leading zeros, behind a
//! minus sign if it is negative.  Reading accepts these texts and no others,
//! so that reading and writing are inverses of each other.

use vstd::prelude::*;

verus! {

/// The ASCII code of the decimal digit `digit`.
pub open spec fn digit_char(digit: int) -> u8
    recommends
        0 <= digit < 10,
{
    (48 + digit) as u8
}

/// Whether `byte` is the ASCII code of a decimal digit.
pub open spec fn is_digit(byte: u8) -> bool {
    48 <= byte <= 57
}

/// The ASCII code of the minus sign.
pub open spec fn minus_sign() -> u8 {
    45
}

/// The digits of `n`, the most significant first.
pub open spec fn digits_of(n: nat) -> Seq<u8>
    decreases n,
{
    if n < 10 {
        seq![digit_char(n as int)]
    } else {
        digits_of(n / 10).push(digit_char((n % 10) as int))
    }
}

/// The decimal text of `n`.
pub open spec fn decimal_text(n: int) -> Seq<u8> {
    if n < 0 {
        seq![minus_sign()] + digits_of((-n) as nat)
    } else {
        digits_of(n as nat)
    }
}

/// The number that the digits `digits` stand for.
pub open spec fn value_of(digits: Seq<u8>) -> nat
    decreases digits.len(),
{
    if digits.len() == 0 {
        0
    } else {
        (value_of(digits.drop_last()) * 10 + (digits.last() - 48)) as nat
    }
}

/// The number whose decimal text is `text`, if it is one that fits in 64
/// bits with a sign.
pub open spec fn parsed_decimal(text: Seq<u8>) -> Option<i64> {
    if exists|n: i64| decimal_text(n as int) == text {
        Some(choose|n: i64| decimal_text(n as int) == text)
    } else {
        None
    }
}

/// The digits of a number are digits, there is at least one, and the first
/// is a zero only for zero itself.
pub proof fn lemma_digits_shape(n: nat)
    ensures
        digits_of(n).len() >= 1,
        forall|i: int| 0 <= i < digits_of(n).len() ==> is_digit(#[trigger] digits_of(n)[i]),
        digits_of(n)[0] == digit_char(0) ==> n == 0,
        n == 0 ==> digits_of(n) == seq![digit_char(0)],
    decreases n,
{
    if n >= 10 {
        lemma_digits_shape(n / 10);
        let high = digits_of(n / 10);
        assert forall|i: int| 0 <= i < digits_of(n).len() implies is_digit(
            #[trigger] digits_of(n)[i],
        ) by {
            if i < high.len() {
                assert(digits_of(n)[i] == high[i]);
            }
        }
        assert(digits_of(n)[0] == high[0]);
    }
}

/// The digits of a number stand for that number.
pub proof fn lemma_value_of_digits(n: nat)
    ensures
        value_of(digits_of(n)) == n,
    decreases n,
{
    if n < 10 {
        let digits = digits_of(n);
        assert(digits.drop_last() =~= Seq::<u8>::empty());
        assert(value_of(digits.drop_last()) == 0);
    } else {
        lemma_value_of_digits(n / 10);
        let digits = digits_of(n);
        assert(digits.drop_last() =~= digits_of(n / 10));
    }
}

/// What a run of digits stands for is no less than what any of its
/// beginnings stands for.
proof fn lemma_value_of_prefix(digits: Seq<u8>, k: int)
    requires
        0 <= k <= digits.len(),
        forall|i: int| 0 <= i < digits.len() ==> is_digit(#[trigger] digits[i]),
    ensures
        value_of(digits.take(k)) <= value_of(digits),
    decreases digits.len() - k,
{
    if k == digits.len() {
        assert(digits.take(k) =~= digits);
    } else {
        let shorter = digits.drop_last();
        assert(shorter.take(k) =~= digits.take(k));
        lemma_value_of_prefix(shorter, k);
    }
}

/// Two numbers with the same decimal text are the same number.
pub proof fn lemma_decimal_text_injective(a: int, b: int)
    requires
        decimal_text(a) == decimal_text(b),
    ensures
        a == b,
{
    let low_a = if a < 0 { (-a) as nat } else { a as nat };
    let low_b = if b < 0 { (-b) as nat } else { b as nat };
    lemma_digits_shape(low_a);
    lemma_digits_shape(low_b);
    lemma_value_of_digits(low_a);
    lemma_value_of_digits(low_b);
    if a < 0 && b < 0 {
        assert(digits_of(low_a) =~= decimal_text(a).skip(1));
        assert(digits_of(low_b) =~= decimal_text(b).skip(1));
    } else if a < 0 {
        assert(decimal_text(a)[0] == minus_sign());
        assert(is_digit(digits_of(low_b)[0]));
    } else if b < 0 {
        assert(decimal_text(b)[0] == minus_sign());
        assert(is_digit(digits_of(low_a)[0]));
    }
}

/// Reading is the inverse of writing: the decimal text of a number is read
/// as that number.
pub proof fn lemma_parse_inverts_print(n: i64)
    ensures
        parsed_decimal(decimal_text(n as int)) == Some(n),
{
    let found = choose|m: i64| decimal_text(m as int) == decimal_text(n as int);
    lemma_decimal_text_injective(found as int, n as int);
}

/// A decimal text holds digits behind at most one minus sign: it has no
/// byte that is neither.
pub proof fn lemma_decimal_text_alphabet(n: int, i: int)
    requires
        0 <= i < decimal_text(n).len(),
    ensures
        is_digit(decimal_text(n)[i]) || (i == 0 && n < 0 && decimal_text(n)[i] == minus_sign()),
        decimal_text(n).len() >= 1,
        is_digit(decimal_text(n).last()),
{
    let low = if n < 0 { (-n) as nat } else { n as nat };
    lemma_digits_shape(low);
    if n < 0 && i > 0 {
        assert(decimal_text(n)[i] == digits_of(low)[i - 1]);
    }
    assert(decimal_text(n).last() == digits_of(low).last());
}

/// What follows from a text being the decimal text of `n`: how it starts,
/// and that what stands behind the sign are the digits of the size of `n`.
proof fn lemma_text_of_number(n: int, text: Seq<u8>)
    requires
        decimal_text(n) == text,
    ensures
        text.len() >= 1,
        (text[0] == minus_sign()) == (n < 0),
        n < 0 ==> text.skip(1) == digits_of((-n) as nat),
        n >= 0 ==> text == digits_of(n as nat),
{
    let low = if n < 0 { (-n) as nat } else { n as nat };
    lemma_digits_shape(low);
    if n < 0 {
        assert(text.skip(1) =~= digits_of(low));
    } else {
        assert(is_digit(digits_of(low)[0]));
    }
}

/// Appends the decimal text of `n` to `out`.
pub fn push_decimal(out: &mut Vec<u8>, n: i64)
    ensures
        final(out)@ == old(out)@ + decimal_text(n as int),
{
    let ghost before = out@;
    let low: u64 = if n < 0 {
        out.push(45);
        ((-(n + 1)) as u64) + 1
    } else {
        n as u64
    };
    let ghost signed = out@;
    let ghost digits = digits_of(low as nat);
    proof {
        lemma_digits_shape(low as nat);
    }
    // The digits come out least significant first.
    let mut backwards: Vec<u8> = Vec::new();
    backwards.push(48 + (low % 10) as u8);
    let mut rest: u64 = low / 10;
    while rest > 0
        invariant
            digits == digits_of(low as nat),
            backwards@.len() >= 1,
            ({
                let pending = if rest > 0 {
                    digits_of(rest as nat)
                } else {
                    Seq::<u8>::empty()
                };
                &&& digits.len() == pending.len() + backwards@.len()
                &&& digits.take(pending.len() as int) == pending
            }),
            forall|i: int|
                0 <= i < backwards@.len() ==> backwards@[i] == digits[digits.len() - 1 - i],
        decreases rest,
    {
        let ghost pending = digits_of(rest as nat);
        let ghost shorter = if rest / 10 > 0 {
            digits_of((rest / 10) as nat)
        } else {
            Seq::<u8>::empty()
        };
        proof {
            lemma_digits_shape(rest as nat);
            assert(pending =~= shorter.push(digit_char((rest % 10) as int)));
            assert(digits[pending.len() - 1] == pending[pending.len() - 1]);
            assert(digits.take(shorter.len() as int) =~= shorter) by {
                assert forall|i: int| 0 <= i < shorter.len() implies digits[i] == shorter[i] by {
                    assert(digits[i] == pending[i]);
                }
            }
        }
        backwards.push(48 + (rest % 10) as u8);
        rest = rest / 10;
    }
    let mut left: usize = backwards.len();
    while left > 0
        invariant
            left <= backwards@.len(),
            backwards@.len() == digits.len(),
            forall|i: int|
                0 <= i < backwards@.len() ==> backwards@[i] == digits[digits.len() - 1 - i],
            out@ == signed + digits.take(digits.len() - left),
        decreases left,
    {
        left -= 1;
        out.push(backwards[left]);
        assert(digits.take(digits.len() - left) =~= digits.take(digits.len() - left - 1).push(
            digits[digits.len() - left - 1],
        ));
    }
    assert(digits.take(digits.len() as int) =~= digits);
    assert(out@ =~= before + decimal_text(n as int));
}

/// The decimal text of `n`.
pub fn print_decimal(n: i64) -> (text: Vec<u8>)
    ensures
        text@ == decimal_text(n as int),
{
    let mut text: Vec<u8> = Vec::new();
    push_decimal(&mut text, n);
    assert(text@ =~= decimal_text(n as int));
    text
}

/// Reads a number from its decimal text.  Anything but the one text of a
/// number that fits in 64 bits with a sign is refused: an empty text, a plus
/// sign, leading zeros, `-0`, other characters, and numbers out of range.
pub fn parse_decimal(text: &[u8]) -> (number: Option<i64>)
    ensures
        number == parsed_decimal(text@),
{
    let len: usize = text.len();
    if len == 0 {
        assert forall|n: i64| decimal_text(n as int) != text@ by {
            if decimal_text(n as int) == text@ {
                lemma_text_of_number(n as int, text@);
            }
        }
        return None;
    }
    let negative: bool = text[0] == 45;
    let start: usize = if negative { 1 } else { 0 };
    if start == len {
        assert forall|n: i64| decimal_text(n as int) != text@ by {
            if decimal_text(n as int) == text@ {
                lemma_text_of_number(n as int, text@);
                lemma_digits_shape((-n) as nat);
            }
        }
        return None;
    }
    let first: u8 = text[start];
    if first < 48 || first > 57 || (first == 48 && (len - start > 1 || negative)) {
        assert forall|n: i64| decimal_text(n as int) != text@ by {
            if decimal_text(n as int) == text@ {
                lemma_text_of_number(n as int, text@);
                let low = if n < 0 { (-n) as nat } else { n as nat };
                lemma_digits_shape(low);
                assert(digits_of(low)[0] == first);
            }
        }
        return None;
    }
    let limit: u64 = if negative { 9223372036854775808 } else { 9223372036854775807 };
    let mut acc: u64 = (first - 48) as u64;
    let mut at: usize = start + 1;
    assert(text@.subrange(start as int, at as int) =~= digits_of(acc as nat));
    while at < len
        invariant
            len == text@.len(),
            start < at <= len,
            start == (if negative { 1usize } else { 0usize }),
            negative == (text@[0] == minus_sign()),
            limit == (if negative { 9223372036854775808u64 } else { 9223372036854775807u64 }),
            acc <= limit,
            len - start > 1 || negative ==> acc >= 1,
            digits_of(acc as nat) == text@.subrange(start as int, at as int),
        decreases len - at,
    {
        let byte: u8 = text[at];
        let ghost seen = text@.subrange(start as int, at as int);
        let ghost longer = text@.subrange(start as int, at + 1);
        proof {
            assert(longer =~= seen.push(byte));
            assert(longer.drop_last() =~= seen);
            lemma_value_of_digits(acc as nat);
        }
        if byte < 48 || byte > 57 {
            assert forall|n: i64| decimal_text(n as int) != text@ by {
                if decimal_text(n as int) == text@ {
                    lemma_decimal_text_alphabet(n as int, at as int);
                }
            }
            return None;
        }
        let digit: u64 = (byte - 48) as u64;
        if acc > (limit - digit) / 10 {
            assert forall|n: i64| decimal_text(n as int) != text@ by {
                if decimal_text(n as int) == text@ {
                    lemma_text_of_number(n as int, text@);
                    let low = if n < 0 { (-n) as nat } else { n as nat };
                    let digits = text@.skip(start as int);
                    assert(digits =~= digits_of(low));
                    lemma_digits_shape(low);
                    lemma_value_of_digits(low);
                    assert(digits.take(at + 1 - start) =~= longer);
                    lemma_value_of_prefix(digits, at + 1 - start);
                    assert(value_of(longer) == acc * 10 + digit);
                }
            }
            return None;
        }
        acc = acc * 10 + digit;
        at += 1;
        assert(digits_of(acc as nat) =~= longer);
    }
    proof {
        assert(text@.subrange(start as int, len as int) =~= text@.skip(start as int));
    }
    let number: i64 = if negative {
        if acc == 9223372036854775808 {
            -9223372036854775808
        } else {
            -(acc as i64)
        }
    } else {
        acc as i64
    };
    proof {
        if negative {
            assert(text@ =~= seq![minus_sign()] + text@.skip(1));
        } else {
            assert(text@.skip(0) =~= text@);
        }
        assert(decimal_text(number as int) == text@);
        let found = choose|m: i64| decimal_text(m as int) == text@;
        lemma_decimal_text_injective(found as int, number as int);
    }
    Some(number)
}

} // verus!
