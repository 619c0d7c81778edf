//! Numbers written in decimal digits.

use vstd::prelude::*;
use vstd::string::StringExecFns;

verus! {

/// The character of a digit.
pub open spec fn digit_spec(d: int) -> char {
    if d == 0 {
        '0'
    } else if d == 1 {
        '1'
    } else if d == 2 {
        '2'
    } else if d == 3 {
        '3'
    } else if d == 4 {
        '4'
    } else if d == 5 {
        '5'
    } else if d == 6 {
        '6'
    } else if d == 7 {
        '7'
    } else if d == 8 {
        '8'
    } else {
        '9'
    }
}

/// A number in decimal digits, without leading zeros.
pub open spec fn decimal_spec(n: nat) -> Seq<char>
    decreases n,
{
    if n < 10 {
        seq![digit_spec(n as int)]
    } else {
        decimal_spec(n / 10).push(digit_spec((n % 10) as int))
    }
}

/// The text of a digit.
fn digit_str(d: usize) -> (text: &'static str)
    requires
        d < 10,
    ensures
        text@ == seq![digit_spec(d as int)],
{
    proof {
        reveal_strlit("0");
        reveal_strlit("1");
        reveal_strlit("2");
        reveal_strlit("3");
        reveal_strlit("4");
        reveal_strlit("5");
        reveal_strlit("6");
        reveal_strlit("7");
        reveal_strlit("8");
        reveal_strlit("9");
    }
    let text = if d == 0 {
        "0"
    } else if d == 1 {
        "1"
    } else if d == 2 {
        "2"
    } else if d == 3 {
        "3"
    } else if d == 4 {
        "4"
    } else if d == 5 {
        "5"
    } else if d == 6 {
        "6"
    } else if d == 7 {
        "7"
    } else if d == 8 {
        "8"
    } else {
        "9"
    };
    assert(text@ =~= seq![digit_spec(d as int)]);
    text
}

/// A number in decimal digits.
pub fn decimal(n: usize) -> (text: String)
    ensures
        text@ == decimal_spec(n as nat),
    decreases n,
{
    if n < 10 {
        digit_str(n).to_owned()
    } else {
        let mut text = decimal(n / 10);
        text.append(digit_str(n % 10));
        assert(text@ =~= decimal_spec((n / 10) as nat).push(digit_spec((n % 10) as int)));
        text
    }
}

/// A number is written in digits alone.
pub proof fn lemma_decimal_digits(n: nat)
    ensures
        forall|k: int|
            0 <= k < decimal_spec(n).len() ==> '0' <= #[trigger] decimal_spec(n)[k] <= '9',
    decreases n,
{
    let text = decimal_spec(n);
    if n >= 10 {
        lemma_decimal_digits(n / 10);
    }
    assert forall|k: int| 0 <= k < text.len() implies '0' <= #[trigger] text[k] <= '9' by {
        if n < 10 {
            assert(text[k] == digit_spec(n as int));
        } else {
            let high = decimal_spec(n / 10);
            if k < high.len() {
                assert(text[k] == high[k]);
            } else {
                assert(text[k] == digit_spec((n % 10) as int));
            }
        }
    }
}

/// A number below a thousand has at most three digits.
pub proof fn lemma_decimal_len(n: nat)
    ensures
        decimal_spec(n).len() >= 1,
        n < 10 ==> decimal_spec(n).len() == 1,
        10 <= n < 100 ==> decimal_spec(n).len() == 2,
        100 <= n < 1000 ==> decimal_spec(n).len() == 3,
    decreases n,
{
    if n >= 10 {
        lemma_decimal_len(n / 10);
    }
}

/// The value of a decimal digit.
pub open spec fn digit_value(c: char) -> Option<int> {
    if '0' <= c <= '9' {
        Some(c as int - '0' as int)
    } else {
        None
    }
}

/// The number that a run of decimal digits denotes, if it is one.
pub open spec fn digits_value(digits: Seq<char>) -> Option<int>
    decreases digits.len(),
{
    if digits.len() == 0 {
        Some(0)
    } else {
        match (digits_value(digits.drop_last()), digit_value(digits.last())) {
            (Some(high), Some(low)) => Some(10 * high + low),
            _ => None,
        }
    }
}

/// The number that a text denotes: decimal digits, at least one, behind a
/// plus sign or none, and not beyond the largest number.
pub open spec fn parse_spec(text: Seq<char>) -> Option<usize> {
    let digits = if text.len() > 0 && text[0] == '+' {
        text.drop_first()
    } else {
        text
    };
    if digits.len() == 0 {
        None
    } else {
        match digits_value(digits) {
            Some(value) => if value <= usize::MAX {
                Some(value as usize)
            } else {
                None
            },
            None => None,
        }
    }
}

/// The value of digits is not negative, and more digits do not denote less.
pub proof fn lemma_digits_value(digits: Seq<char>, n: int)
    requires
        0 <= n <= digits.len(),
        digits_value(digits) is Some,
    ensures
        digits_value(digits.subrange(0, n)) is Some,
        0 <= digits_value(digits.subrange(0, n))->Some_0 <= digits_value(digits)->Some_0,
    decreases digits.len() - n,
{
    if n == digits.len() {
        assert(digits.subrange(0, n) =~= digits);
        lemma_digits_nonnegative(digits);
    } else {
        lemma_digits_value(digits, n + 1);
        let longer = digits.subrange(0, n + 1);
        assert(longer.drop_last() =~= digits.subrange(0, n));
        lemma_digits_nonnegative(digits.subrange(0, n));
    }
}

/// The value of digits is not negative.
pub proof fn lemma_digits_nonnegative(digits: Seq<char>)
    ensures
        digits_value(digits) is Some ==> digits_value(digits)->Some_0 >= 0,
    decreases digits.len(),
{
    if digits.len() > 0 {
        lemma_digits_nonnegative(digits.drop_last());
    }
}

/// Once digits are none or denote too much, so do they with more behind them.
pub proof fn lemma_digits_stay_bad(digits: Seq<char>, n: int)
    requires
        0 <= n <= digits.len(),
        digits_value(digits.subrange(0, n)) is None || digits_value(
            digits.subrange(0, n),
        )->Some_0 > usize::MAX,
    ensures
        digits_value(digits) is None || digits_value(digits)->Some_0 > usize::MAX,
{
    if digits_value(digits) is Some {
        lemma_digits_value(digits, n);
    }
}

/// The number that a text denotes.
pub fn parse_decimal(text: &str) -> (number: Option<usize>)
    ensures
        number == parse_spec(text@),
{
    let chars = crate::langs::chars_of(text);
    let start: usize = if chars.len() > 0 && chars[0] == '+' {
        1
    } else {
        0
    };
    let ghost digits = chars@.subrange(start as int, chars.len() as int);
    assert(start == 1 ==> digits =~= text@.drop_first());
    assert(start == 0 ==> digits =~= text@);
    if chars.len() == start {
        return None;
    }
    let mut value: usize = 0;
    let mut i: usize = start;
    while i < chars.len()
        invariant
            start <= i <= chars.len(),
            start < chars.len(),
            chars@ == text@,
            start == 1 ==> text@[0] == '+' && digits == text@.drop_first(),
            start == 0 ==> !(text@[0] == '+') && digits == text@,
            start <= 1,
            digits == chars@.subrange(start as int, chars.len() as int),
            digits_value(digits.subrange(0, i - start)) == Some(value as int),
        decreases chars.len() - i,
    {
        let c = chars[i];
        let ghost seen = digits.subrange(0, i - start);
        let ghost longer = digits.subrange(0, i + 1 - start);
        proof {
            assert(longer.drop_last() =~= seen);
            assert(longer.last() == c);
        }
        if !('0' <= c && c <= '9') {
            proof {
                assert(digit_value(c) is None);
                assert(digits_value(longer) is None);
                lemma_digits_stay_bad(digits, i + 1 - start);
            }
            return None;
        }
        assert(digit_value(c) == Some(c as int - '0' as int));
        let low = (c as u32 - '0' as u32) as usize;
        let next = match value.checked_mul(10) {
            Some(scaled) => scaled.checked_add(low),
            None => None,
        };
        match next {
            Some(next) => {
                value = next;
            },
            None => {
                proof {
                    assert(digits_value(longer) == Some(10 * value + low));
                    lemma_digits_stay_bad(digits, i + 1 - start);
                }
                return None;
            },
        }
        i += 1;
    }
    assert(digits.subrange(0, i - start) =~= digits);
    Some(value)
}

} // verus!
