//! Numbers in decimal notation.

use vstd::prelude::*;

verus! {

/// The character of a digit from 0 to 9.
pub open spec fn digit_char(d: int) -> char {
    if d == 0 {
        '0'
    } else if d == 1 {
        '1'
    } else if d == 2 {
        '2'
    } else if d == 3 {
        '3'
    } else if d == 4 {
        '4'
    } else if d == 5 {
        '5'
    } else if d == 6 {
        '6'
    } else if d == 7 {
        '7'
    } else if d == 8 {
        '8'
    } else {
        '9'
    }
}

/// The digit that a character stands for, if it is one of `0` to `9`.
pub open spec fn digit_of(c: char) -> Option<int> {
    if c == '0' {
        Some(0)
    } else if c == '1' {
        Some(1)
    } else if c == '2' {
        Some(2)
    } else if c == '3' {
        Some(3)
    } else if c == '4' {
        Some(4)
    } else if c == '5' {
        Some(5)
    } else if c == '6' {
        Some(6)
    } else if c == '7' {
        Some(7)
    } else if c == '8' {
        Some(8)
    } else if c == '9' {
        Some(9)
    } else {
        None
    }
}

/// The decimal notation of a number, without leading zeros.
pub open spec fn decimal(n: nat) -> Seq<char>
    decreases n,
{
    if n < 10 {
        seq![digit_char(n as int)]
    } else {
        decimal(n / 10).push(digit_char((n % 10) as int))
    }
}

/// Every character of `s` is a digit.
pub open spec fn all_digits(s: Seq<char>) -> bool {
    forall|i: int| 0 <= i < s.len() ==> (#[trigger] digit_of(s[i])) is Some
}

/// The number that a sequence of digits denotes; a character that is no
/// digit counts as zero.
pub open spec fn digits_value(s: Seq<char>) -> nat
    decreases s.len(),
{
    if s.len() == 0 {
        0
    } else {
        let d = match digit_of(s.last()) {
            Some(d) => d as nat,
            None => 0,
        };
        10 * digits_value(s.drop_last()) + d
    }
}

/// The number that `s` denotes, if it fits in 64 bits: `s` is one or more
/// digits, with one `+` before them or none.
pub open spec fn number(s: Seq<char>) -> Option<u64> {
    let digits = if s.len() > 0 && s[0] == '+' {
        s.skip(1)
    } else {
        s
    };
    if digits.len() > 0 && all_digits(digits) && digits_value(digits) <= u64::MAX {
        Some(digits_value(digits) as u64)
    } else {
        None
    }
}

/// A longer sequence of digits denotes no smaller a number than its beginning.
pub proof fn lemma_digits_value_grows(s: Seq<char>, n: int)
    requires
        0 <= n <= s.len(),
    ensures
        digits_value(s.take(n)) <= digits_value(s),
    decreases s.len() - n,
{
    if n == s.len() {
        assert(s.take(n) =~= s);
    } else {
        lemma_digits_value_grows(s, n + 1);
        assert(s.take(n + 1).drop_last() =~= s.take(n));
    }
}

/// The decimal notation of a number is made of digits, at least one, and
/// denotes that number.
pub proof fn lemma_decimal(n: nat)
    ensures
        decimal(n).len() > 0,
        all_digits(decimal(n)),
        digits_value(decimal(n)) == n,
        !decimal(n).contains(' '),
        decimal(n)[0] != '+',
    decreases n,
{
    let s = decimal(n);
    if n < 10 {
        assert(s.drop_last() =~= Seq::<char>::empty());
        assert(digits_value(s.drop_last()) == 0);
        assert(s.last() == digit_char(n as int));
    } else {
        lemma_decimal(n / 10);
        let head = decimal(n / 10);
        assert(s.drop_last() =~= head);
        assert(s.last() == digit_char((n % 10) as int));
        assert(s[0] == head[0]);
        assert forall|i: int| 0 <= i < s.len() implies (#[trigger] digit_of(s[i])) is Some by {
            if i < head.len() {
                assert(s[i] == head[i]);
            }
        }
        if s.contains(' ') {
            let i = choose|i: int| 0 <= i < s.len() && s[i] == ' ';
            if i < head.len() {
                assert(head[i] == ' ');
                assert(head.contains(' '));
            }
        }
    }
}

/// Reading the decimal notation of a number that fits in 64 bits gives the number back.
pub proof fn lemma_decimal_round_trip(n: u64)
    ensures
        number(decimal(n as nat)) == Some(n),
{
    lemma_decimal(n as nat);
}

/// The character of a digit from 0 to 9.
fn char_of_digit(d: u64) -> (c: char)
    requires
        d < 10,
    ensures
        c == digit_char(d as int),
{
    if d == 0 {
        '0'
    } else if d == 1 {
        '1'
    } else if d == 2 {
        '2'
    } else if d == 3 {
        '3'
    } else if d == 4 {
        '4'
    } else if d == 5 {
        '5'
    } else if d == 6 {
        '6'
    } else if d == 7 {
        '7'
    } else if d == 8 {
        '8'
    } else {
        '9'
    }
}

/// The digit that a character stands for, if it is one of `0` to `9`.
fn digit_of_char(c: char) -> (d: Option<u64>)
    ensures
        match d {
            Some(d) => digit_of(c) == Some(d as int) && d < 10,
            None => digit_of(c) is None,
        },
{
    match c {
        '0' => Some(0),
        '1' => Some(1),
        '2' => Some(2),
        '3' => Some(3),
        '4' => Some(4),
        '5' => Some(5),
        '6' => Some(6),
        '7' => Some(7),
        '8' => Some(8),
        '9' => Some(9),
        _ => None,
    }
}

/// Append the decimal notation of a number to `out`.
pub fn push_decimal(out: &mut Vec<char>, n: u64)
    ensures
        final(out)@ == old(out)@ + decimal(n as nat),
    decreases n,
{
    if n >= 10 {
        push_decimal(out, n / 10);
    }
    out.push(char_of_digit(n % 10));
    proof {
        assert(final(out)@ =~= old(out)@ + decimal(n as nat));
    }
}

/// Read a number in decimal notation: one or more digits, with one `+`
/// before them or none. Anything else, or a number that does not fit in 64
/// bits, gives `None`.
pub fn parse_number(chars: &Vec<char>) -> (n: Option<u64>)
    ensures
        n == number(chars@),
{
    let start: usize = if chars.len() > 0 && chars[0] == '+' {
        1
    } else {
        0
    };
    if start == chars.len() {
        return None;
    }
    let ghost digits = chars@.skip(start as int);
    proof {
        assert(chars@.skip(0) =~= chars@);
        assert(digits_value(digits.take(0)) == 0);
    }
    let mut value: u64 = 0;
    let mut i: usize = start;
    while i < chars.len()
        invariant
            start <= i <= chars.len(),
            digits == chars@.skip(start as int),
            digits.len() > 0,
            digits == (if chars@.len() > 0 && chars@[0] == '+' {
                chars@.skip(1)
            } else {
                chars@
            }),
            all_digits(digits.take(i - start)),
            value == digits_value(digits.take(i - start)),
        decreases chars.len() - i,
    {
        let ghost seen = digits.take(i - start);
        let ghost more = digits.take(i - start + 1);
        proof {
            assert(more.drop_last() =~= seen);
            assert(more.last() == chars@[i as int]);
            lemma_digits_value_grows(digits, i - start + 1);
        }
        match digit_of_char(chars[i]) {
            None => {
                proof {
                    assert(digit_of(digits[i - start]) is None);
                }
                return None;
            },
            Some(d) => {
                if value > (u64::MAX - d) / 10 {
                    return None;
                }
                value = value * 10 + d;
                proof {
                    assert forall|k: int| 0 <= k < more.len() implies (#[trigger] digit_of(
                        more[k],
                    )) is Some by {
                        if k < seen.len() {
                            assert(more[k] == seen[k]);
                        }
                    }
                }
            },
        }
        i += 1;
    }
    proof {
        assert(digits.take(i - start) =~= digits);
    }
    Some(value)
}

} // verus!
