//! Unsigned numbers in decimal notation, as header values hold them.

use vstd::prelude::*;

verus! {

/// The byte `+`, which may stand before a number.
pub const PLUS: u8 = 43;

/// The byte `0`, the first of the ten digits.
pub const ZERO: u8 = 48;

/// The byte `9`, the last of the ten digits.
pub const NINE: u8 = 57;

/// Whether a byte is one of the digits `0` to `9`.
pub open spec fn is_digit(b: u8) -> bool {
    ZERO <= b <= NINE
}

/// Whether `s` holds digits only.
pub open spec fn is_digits(s: Seq<u8>) -> bool {
    forall|i: int| 0 <= i < s.len() ==> is_digit(#[trigger] s[i])
}

/// The number that a string of digits denotes in base ten; the empty
/// string denotes zero.
pub open spec fn digits_value(s: Seq<u8>) -> nat
    decreases s.len(),
{
    if s.len() == 0 {
        0
    } else {
        (10 * digits_value(s.drop_last()) + (s.last() - ZERO)) as nat
    }
}

/// The number that `s` denotes, where it is a number that fits: an optional
/// `+`, then at least one digit and nothing else.
pub open spec fn spec_parse_usize(s: Seq<u8>) -> Option<usize> {
    let d = if s.len() > 0 && s.first() == PLUS {
        s.drop_first()
    } else {
        s
    };
    if d.len() > 0 && is_digits(d) && digits_value(d) <= usize::MAX {
        Some(digits_value(d) as usize)
    } else {
        None
    }
}

/// A string of digits denotes at least what any of its prefixes denotes.
pub proof fn digits_value_grows(s: Seq<u8>, n: int)
    requires
        is_digits(s),
        0 <= n <= s.len(),
    ensures
        digits_value(s.take(n)) <= digits_value(s),
    decreases s.len(),
{
    if n == s.len() {
        assert(s.take(n) =~= s);
    } else {
        digits_value_grows(s.drop_last(), n);
        assert(s.drop_last().take(n) =~= s.take(n));
    }
}

/// Reads an unsigned decimal number.
pub fn parse_usize(s: &[u8]) -> (r: Option<usize>)
    ensures
        r == spec_parse_usize(s@),
{
    let start: usize = if s.len() > 0 && s[0] == PLUS {
        1
    } else {
        0
    };
    let ghost d = s@.skip(start as int);
    assert(s@.skip(0) =~= s@);
    if start == s.len() {
        return None;
    }
    let mut acc: usize = 0;
    let mut i: usize = start;
    assert(d.take(0) =~= Seq::<u8>::empty());
    while i < s.len()
        invariant
            start <= i <= s.len(),
            d == s@.skip(start as int),
            spec_parse_usize(s@) == if is_digits(d) && digits_value(d) <= usize::MAX {
                Some(digits_value(d) as usize)
            } else {
                None
            },
            is_digits(d.take(i - start)),
            acc == digits_value(d.take(i - start)),
        decreases s.len() - i,
    {
        let c: u8 = s[i];
        assert(d[i - start] == c);
        if c < ZERO || c > NINE {
            return None;
        }
        let ghost next = d.take(i - start + 1);
        assert(next.drop_last() =~= d.take(i - start));
        assert(next.last() == c);
        assert(is_digits(next));
        proof {
            if is_digits(d) {
                digits_value_grows(d, i - start + 1);
            }
        }
        let digit: usize = (c - ZERO) as usize;
        match acc.checked_mul(10) {
            None => {
                return None;
            },
            Some(tens) => match tens.checked_add(digit) {
                None => {
                    return None;
                },
                Some(sum) => {
                    acc = sum;
                },
            },
        }
        i += 1;
    }
    assert(d.take(i - start) =~= d);
    Some(acc)
}

/// The decimal notation of `n`, without leading zeros.
pub open spec fn decimal(n: nat) -> Seq<u8>
    decreases n,
{
    if n < 10 {
        seq![(ZERO + n) as u8]
    } else {
        decimal(n / 10).push((ZERO + n % 10) as u8)
    }
}

/// Appends the decimal notation of `n` to `out`.
pub fn push_decimal(out: &mut Vec<u8>, n: usize)
    ensures
        final(out)@ == old(out)@ + decimal(n as nat),
    decreases n,
{
    if n >= 10 {
        push_decimal(out, n / 10);
    }
    let digit: u8 = (n % 10) as u8;
    out.push(ZERO + digit);
    assert(final(out)@ =~= old(out)@ + decimal(n as nat));
}

/// The decimal notation of a number is a nonempty string of digits that
/// denotes it.
pub proof fn decimal_denotes(n: nat)
    ensures
        decimal(n).len() > 0,
        is_digits(decimal(n)),
        digits_value(decimal(n)) == n,
    decreases n,
{
    if n < 10 {
        assert(decimal(n).drop_last() =~= Seq::<u8>::empty());
        assert(digits_value(decimal(n).drop_last()) == 0);
    } else {
        decimal_denotes(n / 10);
        assert(decimal(n).drop_last() =~= decimal(n / 10));
    }
}

/// Reading the decimal notation of a number gives the number back.
pub proof fn parse_of_decimal(n: usize)
    ensures
        spec_parse_usize(decimal(n as nat)) == Some(n),
{
    decimal_denotes(n as nat);
    assert(is_digit(decimal(n as nat)[0]));
}

} // verus!
