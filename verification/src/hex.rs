//! Hexadecimal numerals for `u64`.
//!
//! Writing produces the shortest lowercase numeral. Reading accepts what
//! `u64::from_str_radix(_, 16)` accepts: an optional `+`, then one or more
//! digits in either case, with a value that fits in 64 bits.

use vstd::prelude::*;
use vstd::string::*;

verus! {

/// Why a numeral could not be read.
#[derive(Clone, Copy, Debug, PartialEq, Eq, Structural)]
pub enum IntErrorKind {
    /// There was nothing to read.
    Empty,
    /// A character that is no hexadecimal digit, or a sign with nothing after it.
    InvalidDigit,
    /// The value does not fit in 64 bits.
    PosOverflow,
}

/// The lowercase digit that stands for `d`, for `0 <= d < 16`.
pub open spec fn digit_char(d: int) -> char
    recommends
        0 <= d < 16,
{
    if d < 10 {
        (48 + d) as char
    } else {
        (87 + d) as char
    }
}

/// The value of a hexadecimal digit in either case; `None` for any other character.
pub open spec fn digit_value(c: char) -> Option<int> {
    let u = c as int;
    if 48 <= u <= 57 {
        Some(u - 48)
    } else if 97 <= u <= 102 {
        Some(u - 87)
    } else if 65 <= u <= 70 {
        Some(u - 55)
    } else {
        None
    }
}

/// The shortest lowercase numeral of `n`.
pub open spec fn numeral(n: nat) -> Seq<char>
    decreases n,
{
    if n < 16 {
        seq![digit_char(n as int)]
    } else {
        numeral(n / 16).push(digit_char((n % 16) as int))
    }
}

/// The value of a run of digits read left to right, or the first failure met:
/// a character that is no digit, or a value that has outgrown 64 bits.
pub open spec fn digits_value(digits: Seq<char>) -> Result<u64, IntErrorKind>
    decreases digits.len(),
{
    if digits.len() == 0 {
        Ok(0)
    } else {
        match digits_value(digits.drop_last()) {
            Err(e) => Err(e),
            Ok(acc) => match digit_value(digits.last()) {
                None => Err(IntErrorKind::InvalidDigit),
                Some(d) => if acc * 16 + d <= u64::MAX {
                    Ok((acc * 16 + d) as u64)
                } else {
                    Err(IntErrorKind::PosOverflow)
                },
            },
        }
    }
}

/// The value of a numeral: an optional `+`, then at least one digit.
pub open spec fn numeral_value(text: Seq<char>) -> Result<u64, IntErrorKind> {
    if text.len() == 0 {
        Err(IntErrorKind::Empty)
    } else if text[0] == '+' {
        if text.len() == 1 {
            Err(IntErrorKind::InvalidDigit)
        } else {
            digits_value(text.drop_first())
        }
    } else {
        digits_value(text)
    }
}

/// Whether `c` is one of `0`..`9`, `a`..`f`.
pub open spec fn is_lower_digit(c: char) -> bool {
    48 <= c as int <= 57 || 97 <= c as int <= 102
}

/// A numeral is never empty and holds lowercase digits only.
pub proof fn lemma_numeral_shape(n: nat)
    ensures
        numeral(n).len() >= 1,
        forall|i: int| 0 <= i < numeral(n).len() ==> is_lower_digit(#[trigger] numeral(n)[i]),
    decreases n,
{
    if n >= 16 {
        lemma_numeral_shape(n / 16);
    }
}

/// Reading the digits of a numeral gives back the number it was written from.
pub proof fn lemma_digits_of_numeral(n: nat)
    requires
        n <= u64::MAX,
    ensures
        (digits_value(numeral(n)) == Ok::<u64, IntErrorKind>(n as u64)),
    decreases n,
{
    let text = numeral(n);
    if n < 16 {
        assert(text.drop_last() =~= Seq::<char>::empty());
        assert(digits_value(text.drop_last()) == Ok::<u64, IntErrorKind>(0));
        assert(digit_value(text.last()) == Some(n as int));
    } else {
        lemma_digits_of_numeral(n / 16);
        assert(text.drop_last() =~= numeral(n / 16));
        assert(text.last() == digit_char((n % 16) as int));
        assert(digit_value(text.last()) == Some((n % 16) as int));
        assert((n / 16) * 16 + n % 16 == n);
    }
}

/// Reading a written numeral gives back the number.
pub proof fn lemma_numeral_round_trip(n: nat)
    requires
        n <= u64::MAX,
    ensures
        (numeral_value(numeral(n)) == Ok::<u64, IntErrorKind>(n as u64)),
{
    lemma_numeral_shape(n);
    lemma_digits_of_numeral(n);
    assert(is_lower_digit(numeral(n)[0]));
}

fn digit_of(c: char) -> (r: Option<u64>)
    ensures
        match r {
            Some(d) => digit_value(c) == Some(d as int),
            None => digit_value(c) is None,
        },
{
    let u: u32 = c as u32;
    if 48 <= u && u <= 57 {
        Some((u - 48) as u64)
    } else if 97 <= u && u <= 102 {
        Some((u - 87) as u64)
    } else if 65 <= u && u <= 70 {
        Some((u - 55) as u64)
    } else {
        None
    }
}

/// Reads the numeral that `text` holds from `from` up to, not including, `to`.
pub fn parse_hex(text: &Vec<char>, from: usize, to: usize) -> (r: Result<u64, IntErrorKind>)
    requires
        from <= to <= text.len(),
    ensures
        r == numeral_value(text@.subrange(from as int, to as int)),
{
    let ghost whole = text@.subrange(from as int, to as int);
    if from == to {
        return Err(IntErrorKind::Empty);
    }
    let mut start: usize = from;
    if text[from] == '+' {
        if to - from == 1 {
            return Err(IntErrorKind::InvalidDigit);
        }
        start = from + 1;
        assert(whole.drop_first() =~= text@.subrange(start as int, to as int));
    }
    let ghost digits = text@.subrange(start as int, to as int);
    assert(numeral_value(whole) == digits_value(digits));
    let mut acc: u64 = 0;
    let mut i: usize = start;
    while i < to
        invariant
            start <= i <= to <= text.len(),
            digits == text@.subrange(start as int, to as int),
            numeral_value(text@.subrange(from as int, to as int)) == digits_value(digits),
            digits_value(text@.subrange(start as int, i as int)) == Ok::<u64, IntErrorKind>(acc),
        decreases to - i,
    {
        let ghost seen = text@.subrange(start as int, i as int);
        let ghost next = text@.subrange(start as int, i + 1);
        assert(next.drop_last() =~= seen);
        assert(next.last() == text@[i as int]);
        match digit_of(text[i]) {
            None => {
                proof {
                    assert(digits.take(i + 1 - start) =~= next);
                    lemma_failure_stays(digits, i + 1 - start);
                }
                return Err(IntErrorKind::InvalidDigit);
            },
            Some(d) => {
                if acc > 0x0fff_ffff_ffff_ffff {
                    proof {
                        assert(digits.take(i + 1 - start) =~= next);
                        lemma_failure_stays(digits, i + 1 - start);
                    }
                    return Err(IntErrorKind::PosOverflow);
                }
                acc = acc * 16 + d;
            },
        }
        i = i + 1;
    }
    assert(text@.subrange(start as int, i as int) =~= digits);
    Ok(acc)
}

/// Once a prefix of the digits has failed, the whole run fails in the same way.
pub proof fn lemma_failure_stays(digits: Seq<char>, k: int)
    requires
        0 <= k <= digits.len(),
        digits_value(digits.take(k)) is Err,
    ensures
        digits_value(digits) == digits_value(digits.take(k)),
    decreases digits.len() - k,
{
    if k < digits.len() {
        let longer = digits.take(k + 1);
        assert(longer.drop_last() =~= digits.take(k));
        lemma_failure_stays(digits, k + 1);
    } else {
        assert(digits.take(k) =~= digits);
    }
}

fn digit_str(d: u64) -> (s: &'static str)
    requires
        d < 16,
    ensures
        s@ == seq![digit_char(d as int)],
{
    proof {
        reveal_strlit("0");
        reveal_strlit("1");
        reveal_strlit("2");
        reveal_strlit("3");
        reveal_strlit("4");
        reveal_strlit("5");
        reveal_strlit("6");
        reveal_strlit("7");
        reveal_strlit("8");
        reveal_strlit("9");
        reveal_strlit("a");
        reveal_strlit("b");
        reveal_strlit("c");
        reveal_strlit("d");
        reveal_strlit("e");
        reveal_strlit("f");
    }
    let s = if d == 0 {
        "0"
    } else if d == 1 {
        "1"
    } else if d == 2 {
        "2"
    } else if d == 3 {
        "3"
    } else if d == 4 {
        "4"
    } else if d == 5 {
        "5"
    } else if d == 6 {
        "6"
    } else if d == 7 {
        "7"
    } else if d == 8 {
        "8"
    } else if d == 9 {
        "9"
    } else if d == 10 {
        "a"
    } else if d == 11 {
        "b"
    } else if d == 12 {
        "c"
    } else if d == 13 {
        "d"
    } else if d == 14 {
        "e"
    } else {
        "f"
    };
    assert(s@ =~= seq![digit_char(d as int)]);
    s
}

/// Appends the numeral of `n` to `out`.
pub fn push_hex(out: &mut String, n: u64)
    ensures
        final(out)@ == old(out)@ + numeral(n as nat),
    decreases n,
{
    if n >= 16 {
        push_hex(out, n / 16);
    }
    out.append(digit_str(n % 16));
    assert(out@ =~= old(out)@ + numeral(n as nat));
}

} // verus!
