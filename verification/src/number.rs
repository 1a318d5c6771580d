//! Positions as decimal text: how an index is written in a listing, and how
//! the index given on the command line is read.

use vstd::prelude::*;

verus! {

/// Whether `c` is one of the decimal digits `0` to `9`.
pub open spec fn is_digit(c: char) -> bool {
    '0' <= c <= '9'
}

/// The number that the digit `c` stands for.
pub open spec fn digit_value(c: char) -> nat {
    (c as u32 - '0' as u32) as nat
}

/// The digit that stands for `d`, a number below ten.
pub open spec fn digit_of(d: nat) -> char {
    (d + '0' as u32) as char
}

/// Whether `digits` is made of decimal digits only.
pub open spec fn all_digits(digits: Seq<char>) -> bool {
    forall|i: int| 0 <= i < digits.len() ==> is_digit(#[trigger] digits[i])
}

/// The number that a sequence of decimal digits stands for, the most
/// significant digit first.
pub open spec fn digits_value(digits: Seq<char>) -> nat
    decreases digits.len(),
{
    if digits.len() == 0 {
        0
    } else {
        digits_value(digits.drop_last()) * 10 + digit_value(digits.last())
    }
}

/// `text` without the plus sign in front of it, if it has one.
pub open spec fn unsigned_part(text: Seq<char>) -> Seq<char> {
    if text.len() > 0 && text[0] == '+' {
        text.skip(1)
    } else {
        text
    }
}

/// The index that `text` stands for: an optional plus sign, then one or more
/// decimal digits and nothing else, with a value that fits in a `usize`.
/// `None` for every other text.
pub open spec fn index_of(text: Seq<char>) -> Option<usize> {
    let digits = unsigned_part(text);
    if digits.len() > 0 && all_digits(digits) && digits_value(digits) <= usize::MAX {
        Some(digits_value(digits) as usize)
    } else {
        None
    }
}

/// `n` written in decimal, without a sign or leading zeros.
pub open spec fn decimal(n: nat) -> Seq<char>
    decreases n,
{
    if n < 10 {
        seq![digit_of(n)]
    } else {
        decimal(n / 10).push(digit_of(n % 10))
    }
}

/// A longer run of digits stands for a number that is no smaller than the
/// number its beginning stands for.
pub proof fn lemma_digits_value_grows(digits: Seq<char>, k: int)
    requires
        0 <= k <= digits.len(),
    ensures
        digits_value(digits.take(k)) <= digits_value(digits),
    decreases digits.len(),
{
    if k == digits.len() {
        assert(digits.take(k) == digits);
    } else {
        assert(digits.drop_last().take(k) == digits.take(k));
        lemma_digits_value_grows(digits.drop_last(), k);
    }
}

/// Reads the index that `text` stands for, if it stands for one.
pub fn parse_index(text: &str) -> (index: Option<usize>)
    ensures
        index == index_of(text@),
{
    let ghost digits = unsigned_part(text@);
    let ghost off: int = text@.len() - digits.len();
    let mut value: usize = 0;
    let mut seen_digit = false;
    let mut at_start = true;
    proof {
        assert(digits.take(0) == Seq::<char>::empty());
    }
    for c in it: text.chars()
        invariant
            it.seq() == text@,
            digits == unsigned_part(text@),
            off == text@.len() - digits.len(),
            at_start <==> it.index() == 0,
            !at_start ==> it.index() >= off,
            seen_digit <==> !at_start && it.index() > off,
            at_start ==> value == 0,
            !at_start ==> all_digits(digits.take(it.index() - off)),
            !at_start ==> value == digits_value(digits.take(it.index() - off)),
    {
        let ghost i = it.index();
        if at_start && c == '+' {
            proof {
                assert(digits.take(0) == Seq::<char>::empty());
            }
        } else {
            let ghost k = i - off;
            proof {
                assert(digits[k] == c);
                assert(digits.take(k + 1).drop_last() == digits.take(k));
                assert(digits.take(k + 1).last() == c);
                lemma_digits_value_grows(digits, k + 1);
            }
            if !(c >= '0' && c <= '9') {
                return None;
            }
            let d: usize = (c as u32 - '0' as u32) as usize;
            let shifted = match value.checked_mul(10) {
                Some(shifted) => shifted,
                None => {
                    return None;
                },
            };
            value = match shifted.checked_add(d) {
                Some(sum) => sum,
                None => {
                    return None;
                },
            };
            seen_digit = true;
        }
        at_start = false;
    }
    proof {
        if !at_start {
            assert(digits.take(text@.len() - off) == digits);
        }
    }
    if seen_digit {
        Some(value)
    } else {
        None
    }
}

/// Appends `n`, written in decimal, to `out`.
fn push_decimal(out: &mut String, n: usize)
    ensures
        final(out)@ == old(out)@ + decimal(n as nat),
    decreases n,
{
    if n >= 10 {
        push_decimal(out, n / 10);
    }
    let d: u8 = (n % 10) as u8;
    out.push(('0' as u8 + d) as char);
    proof {
        let digit = digit_of((n % 10) as nat);
        if n >= 10 {
            assert(old(out)@ + decimal((n / 10) as nat).push(digit) == (old(out)@ + decimal(
                (n / 10) as nat,
            )).push(digit));
        } else {
            assert(old(out)@ + seq![digit] == old(out)@.push(digit));
        }
    }
}

/// Writes `n` in decimal, without a sign or leading zeros.
pub fn to_decimal(n: usize) -> (text: String)
    ensures
        text@ == decimal(n as nat),
{
    let mut text = String::new();
    push_decimal(&mut text, n);
    proof {
        assert(Seq::<char>::empty() + decimal(n as nat) == decimal(n as nat));
    }
    text
}

/// A number written in decimal is made of digits that stand for that number.
pub proof fn lemma_decimal_digits(n: nat)
    ensures
        decimal(n).len() > 0,
        all_digits(decimal(n)),
        digits_value(decimal(n)) == n,
    decreases n,
{
    let digit = digit_of(n % 10);
    assert(is_digit(digit) && digit_value(digit) == n % 10);
    if n >= 10 {
        lemma_decimal_digits(n / 10);
        let front = decimal(n / 10);
        assert(decimal(n).drop_last() == front);
        assert(decimal(n).last() == digit);
        assert(digits_value(decimal(n)) == digits_value(front) * 10 + digit_value(digit));
        assert forall|i: int| 0 <= i < decimal(n).len() implies is_digit(
            #[trigger] decimal(n)[i],
        ) by {
            if i < front.len() {
                assert(decimal(n)[i] == front[i]);
            }
        }
    } else {
        assert(decimal(n).drop_last() == Seq::<char>::empty());
        assert(digits_value(decimal(n).drop_last()) == 0);
        assert(decimal(n).last() == digit);
    }
}

/// A position, written as a listing shows it, is read back as that position.
pub proof fn lemma_decimal_is_read_back(n: usize)
    ensures
        index_of(decimal(n as nat)) == Some(n),
{
    lemma_decimal_digits(n as nat);
    assert(is_digit(decimal(n as nat)[0]));
}

} // verus!
