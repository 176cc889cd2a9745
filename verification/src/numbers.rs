//! Whole numbers read from text.

use vstd::prelude::*;

verus! {

/// The value of a decimal digit, if the character is one.
pub open spec fn digit_value(c: char) -> Option<nat> {
    if c == '0' {
        Some(0)
    } else if c == '1' {
        Some(1)
    } else if c == '2' {
        Some(2)
    } else if c == '3' {
        Some(3)
    } else if c == '4' {
        Some(4)
    } else if c == '5' {
        Some(5)
    } else if c == '6' {
        Some(6)
    } else if c == '7' {
        Some(7)
    } else if c == '8' {
        Some(8)
    } else if c == '9' {
        Some(9)
    } else {
        None
    }
}

/// The number that a run of decimal digits stands for; nothing if a
/// character of the run is no digit.
pub open spec fn digits_value(s: Seq<char>) -> Option<nat>
    decreases s.len(),
{
    if s.len() == 0 {
        Some(0)
    } else {
        match (digits_value(s.drop_last()), digit_value(s.last())) {
            (Some(head), Some(d)) => Some(head * 10 + d),
            _ => None,
        }
    }
}

/// The digits of a number in text: the text without a leading plus sign.
pub open spec fn digits_of(s: Seq<char>) -> Seq<char> {
    if s.len() > 0 && s[0] == '+' {
        s.drop_first()
    } else {
        s
    }
}

/// The number that a text stands for, if it is an unsigned decimal number of
/// at most `max`: an optional plus sign and then one or more digits.
pub open spec fn unsigned_value(s: Seq<char>, max: nat) -> Option<nat> {
    if digits_of(s).len() == 0 {
        None
    } else {
        match digits_value(digits_of(s)) {
            Some(v) => if v <= max {
                Some(v)
            } else {
                None
            },
            None => None,
        }
    }
}

/// A run of digits whose beginning stands for more than `max` stands for
/// more than `max` itself, if it stands for a number at all.
pub proof fn lemma_digits_grow(s: Seq<char>, n: int, max: nat)
    requires
        0 <= n <= s.len(),
        digits_value(s.take(n)) matches Some(v) && v > max,
    ensures
        digits_value(s) matches Some(v) ==> v > max,
    decreases s.len() - n,
{
    if n < s.len() {
        let next = s.take(n + 1);
        assert(next.drop_last() == s.take(n));
        if digits_value(next) is Some {
            lemma_digits_grow(s, n + 1, max);
        } else {
            lemma_digits_stop(s, n + 1);
        }
    } else {
        assert(s.take(n) == s);
    }
}

/// A run of digits whose beginning stands for no number stands for none.
pub proof fn lemma_digits_stop(s: Seq<char>, n: int)
    requires
        0 <= n <= s.len(),
        digits_value(s.take(n)) is None,
    ensures
        digits_value(s) is None,
    decreases s.len() - n,
{
    if n < s.len() {
        let next = s.take(n + 1);
        assert(next.drop_last() == s.take(n));
        lemma_digits_stop(s, n + 1);
    } else {
        assert(s.take(n) == s);
    }
}

/// The value of a decimal digit, if the character is one.
fn digit_of(c: char) -> (r: Option<u64>)
    ensures
        match r {
            Some(d) => digit_value(c) == Some(d as nat) && d < 10,
            None => digit_value(c) is None,
        },
{
    match c {
        '0' => Some(0),
        '1' => Some(1),
        '2' => Some(2),
        '3' => Some(3),
        '4' => Some(4),
        '5' => Some(5),
        '6' => Some(6),
        '7' => Some(7),
        '8' => Some(8),
        '9' => Some(9),
        _ => None,
    }
}

/// Reads an unsigned decimal number of at most `max`: an optional plus sign
/// and then one or more digits, with nothing before or after.
pub fn parse_unsigned(word: &str, max: u64) -> (r: Option<u64>)
    ensures
        match r {
            Some(v) => unsigned_value(word@, max as nat) == Some(v as nat),
            None => unsigned_value(word@, max as nat) is None,
        },
{
    let len = word.unicode_len();
    if len == 0 {
        return None;
    }
    let start: usize = if word.get_char(0) == '+' {
        1
    } else {
        0
    };
    if start == len {
        return None;
    }
    let ghost digits = digits_of(word@);
    let mut value: u64 = 0;
    let mut i: usize = start;
    assert(digits.take(0) == Seq::<char>::empty());
    while i < len
        invariant
            start <= i <= len,
            len == word@.len(),
            digits == digits_of(word@),
            digits.len() == len - start,
            forall|k: int| 0 <= k < digits.len() ==> digits[k] == word@[start + k],
            digits_value(digits.take(i - start)) == Some(value as nat),
            value <= max,
        decreases len - i,
    {
        let c = word.get_char(i);
        let ghost seen = digits.take(i - start);
        let ghost next = digits.take(i - start + 1);
        proof {
            assert(next.drop_last() == seen);
            assert(next.last() == c);
        }
        match digit_of(c) {
            None => {
                proof {
                    lemma_digits_stop(digits, i - start + 1);
                }
                return None;
            },
            Some(d) => {
                if max < d || value > (max - d) / 10 {
                    proof {
                        assert(value * 10 + d > max);
                        lemma_digits_grow(digits, i - start + 1, max as nat);
                    }
                    return None;
                }
                value = value * 10 + d;
            },
        }
        i += 1;
    }
    assert(digits.take(len - start) == digits);
    Some(value)
}

} // verus!
