//! Decimal integer literals.

use vstd::prelude::*;

verus! {

/// Whether `c` is a decimal digit.
pub open spec fn is_digit(c: char) -> bool {
    '0' <= c <= '9'
}

/// The number that the digit `c` writes.
pub open spec fn digit_value(c: char) -> int {
    c as int - '0' as int
}

/// Whether `s` holds nothing but decimal digits.
pub open spec fn all_digits(s: Seq<char>) -> bool {
    forall|i: int| 0 <= i < s.len() ==> is_digit(#[trigger] s[i])
}

/// The number that the digits of `s` write in base ten.
pub open spec fn digits_value(s: Seq<char>) -> int
    decreases s.len(),
{
    if s.len() == 0 {
        0
    } else {
        digits_value(s.drop_last()) * 10 + digit_value(s.last())
    }
}

/// The integer that `s` writes: an optional sign, `+` or `-`, then one or more
/// decimal digits and nothing else.
pub open spec fn decimal_value(s: Seq<char>) -> Option<int> {
    if s.len() > 0 && (s[0] == '-' || s[0] == '+') {
        let digits = s.subrange(1, s.len() as int);
        if digits.len() > 0 && all_digits(digits) {
            Some(
                if s[0] == '-' {
                    -digits_value(digits)
                } else {
                    digits_value(digits)
                },
            )
        } else {
            None
        }
    } else if s.len() > 0 && all_digits(s) {
        Some(digits_value(s))
    } else {
        None
    }
}

/// The value of `s` as a 64-bit signed integer, where it writes one.
pub open spec fn spec_parse_i64(s: Seq<char>) -> Option<i64> {
    match decimal_value(s) {
        Some(v) => if i64::MIN <= v <= i64::MAX {
            Some(v as i64)
        } else {
            None
        },
        None => None,
    }
}

/// Digits write no number below zero.
proof fn lemma_digits_value_nonnegative(s: Seq<char>)
    requires
        all_digits(s),
    ensures
        0 <= digits_value(s),
    decreases s.len(),
{
    if s.len() > 0 {
        lemma_digits_value_nonnegative(s.drop_last());
        assert(is_digit(s.last()));
    }
}

/// Reads a decimal integer: `Some` of its value where `text` writes one that
/// fits in 64 bits, `None` for any other text.
pub fn parse_i64(text: &str) -> (r: Option<i64>)
    ensures
        r == spec_parse_i64(text@),
{
    let ghost s = text@;
    let mut signed: bool = false;
    let mut negative: bool = false;
    let mut started: bool = false;
    // the value read so far: below zero for a negative literal
    let mut acc: i64 = 0;
    let mut valid: bool = true;
    let mut fits: bool = true;
    for c in it: text.chars()
        invariant
            it.seq() == s,
            signed ==> it.index() >= 1 && (s[0] == '-' || s[0] == '+'),
            !signed && it.index() >= 1 ==> s[0] != '-' && s[0] != '+',
            negative <==> signed && s[0] == '-',
            started <==> it.index() > (if signed { 1int } else { 0int }),
            valid <==> all_digits(s.subrange(if signed { 1int } else { 0int }, it.index() as int)),
            valid ==> (fits <==> digits_value(
                s.subrange(if signed { 1int } else { 0int }, it.index() as int),
            ) <= (if negative {
                -(i64::MIN as int)
            } else {
                i64::MAX as int
            })),
            valid && fits ==> acc as int == (if negative {
                -digits_value(s.subrange(1, it.index() as int))
            } else {
                digits_value(s.subrange(if signed { 1int } else { 0int }, it.index() as int))
            }),
    {
        let ghost i = it.index() as int;
        let ghost from = if signed { 1int } else { 0int };
        if !started && !signed && (c == '-' || c == '+') {
            signed = true;
            negative = c == '-';
            assert(s.subrange(1, i + 1) =~= Seq::<char>::empty());
        } else {
            proof {
                assert(s.subrange(from, i + 1).drop_last() =~= s.subrange(from, i));
                assert(s.subrange(from, i + 1).last() == c);
                if valid && is_digit(c) {
                    assert forall|j: int| 0 <= j < s.subrange(from, i + 1).len() implies is_digit(
                        #[trigger] s.subrange(from, i + 1)[j],
                    ) by {
                        if j < i - from {
                            assert(s.subrange(from, i + 1)[j] == s.subrange(from, i)[j]);
                        }
                    }
                } else if valid {
                    assert(!is_digit(s.subrange(from, i + 1)[i - from]));
                } else {
                    let j = choose|j: int|
                        0 <= j < s.subrange(from, i).len() && !is_digit(s.subrange(from, i)[j]);
                    assert(!is_digit(s.subrange(from, i + 1)[j]));
                }
                if valid {
                    lemma_digits_value_nonnegative(s.subrange(from, i));
                }
            }
            if !(c >= '0' && c <= '9') {
                valid = false;
            } else if valid && fits {
                let d: i64 = (c as u8 - '0' as u8) as i64;
                if negative {
                    if acc < (i64::MIN + d) / 10 {
                        fits = false;
                    } else {
                        acc = acc * 10 - d;
                    }
                } else {
                    if acc > (i64::MAX - d) / 10 {
                        fits = false;
                    } else {
                        acc = acc * 10 + d;
                    }
                }
            }
            started = true;
        }
    }
    proof {
        let from = if signed { 1int } else { 0int };
        assert(s.subrange(from, s.len() as int) =~= if signed {
            s.subrange(1, s.len() as int)
        } else {
            s
        });
        if s.len() > 0 && !signed {
            assert(s.subrange(0, s.len() as int) =~= s);
        }
    }
    if !started || !valid || !fits {
        None
    } else {
        Some(acc)
    }
}

} // verus!
