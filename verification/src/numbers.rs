//! Numeric value parsing.  Opcode values are integers or decimal numbers;
//! a decimal is kept exactly as written, as a sign, an unscaled mantissa and
//! a count of fractional digits, so classification never loses precision and
//! range checks are exact rational comparisons.

use vstd::prelude::*;
use crate::lexer::digit_char;

verus! {

/// `10^n`.
pub open spec fn pow10(n: nat) -> int
    decreases n,
{
    if n == 0 {
        1
    } else {
        10 * pow10((n - 1) as nat)
    }
}

pub proof fn lemma_pow10_positive(n: nat)
    ensures
        pow10(n) >= 1,
    decreases n,
{
    if n > 0 {
        lemma_pow10_positive((n - 1) as nat);
    }
}

pub proof fn lemma_pow10_monotone(a: nat, b: nat)
    requires
        a <= b,
    ensures
        pow10(a) <= pow10(b),
    decreases b,
{
    if a < b {
        lemma_pow10_monotone(a, (b - 1) as nat);
        lemma_pow10_positive((b - 1) as nat);
    }
}

/// Numeric value of a digit character.
pub open spec fn digit_val(c: char) -> int {
    c as int - '0' as int
}

/// Whether every character of `s` is a decimal digit.
pub open spec fn all_digits(s: Seq<char>) -> bool {
    forall|i: int| 0 <= i < s.len() ==> digit_char(#[trigger] s[i])
}

/// Value of a digit string, most significant digit first.
pub open spec fn digits_val(s: Seq<char>) -> int
    decreases s.len(),
{
    if s.len() == 0 {
        0
    } else {
        digits_val(s.drop_last()) * 10 + digit_val(s.last())
    }
}

pub proof fn lemma_digits_val_bound(s: Seq<char>)
    requires
        all_digits(s),
    ensures
        0 <= digits_val(s) < pow10(s.len()),
    decreases s.len(),
{
    if s.len() > 0 {
        lemma_digits_val_bound(s.drop_last());
        assert(digit_char(s.last()));
        assert(0 <= digit_val(s.last()) <= 9);
    }
}

/// Longest digit run this parser accepts; keeps every mantissa below
/// `10^15`, so scaled range comparisons stay inside `i64`.
pub open spec fn max_digits() -> int {
    15
}

/// Most fractional digits a decimal may carry.
pub open spec fn max_scale() -> int {
    6
}

/// Value denoted by an unsigned digit string: present only when the string
/// is non-empty, all digits, and no longer than `max_digits`.
pub open spec fn parse_uint_spec(s: Seq<char>) -> Option<int> {
    if s.len() > 0 && s.len() <= max_digits() && all_digits(s) {
        Some(digits_val(s))
    } else {
        None
    }
}

/// Value denoted by an optionally `-`-signed digit string.
pub open spec fn parse_int_spec(s: Seq<char>) -> Option<int> {
    if s.len() > 0 && s[0] == '-' {
        match parse_uint_spec(s.drop_first()) {
            Some(v) => Some(-v),
            None => None,
        }
    } else {
        parse_uint_spec(s)
    }
}

/// An exact decimal number: the denoted value is
/// `(-1)^neg * mantissa / 10^scale`.  Kept exactly as written, so a value
/// read back from a classified opcode is the value that stood in the text.
#[derive(Debug, Clone, Copy, PartialEq, Eq, Structural)]
pub struct Decimal {
    pub neg: bool,
    pub mantissa: u64,
    pub scale: u8,
}

impl Decimal {
    /// Every decimal this library builds satisfies this: the mantissa fits
    /// below `10^max_digits` and the scale is at most `max_scale`.
    pub open spec fn wf(self) -> bool {
        self.mantissa < pow10(max_digits() as nat) && self.scale <= max_scale()
    }

    /// Signed unscaled value.
    pub open spec fn num(self) -> int {
        if self.neg {
            -(self.mantissa as int)
        } else {
            self.mantissa as int
        }
    }

    /// Whether the denoted value lies in the inclusive range `[lo, hi]`.
    pub open spec fn in_range(self, lo: int, hi: int) -> bool {
        lo * pow10(self.scale as nat) <= self.num() <= hi * pow10(self.scale as nat)
    }
}

/// Decimal denoted by `s`: an optional `-`, one or more integer digits,
/// then optionally `.` and one to `max_scale` fractional digits.  The
/// mantissa is the digit string with the point removed; in all it may hold
/// at most `max_digits` digits.
pub open spec fn parse_dec_spec(s: Seq<char>) -> Option<Decimal> {
    let neg = s.len() > 0 && s[0] == '-';
    let body = if neg {
        s.drop_first()
    } else {
        s
    };
    parse_dec_body_spec(body, neg)
}

/// Helper for [`parse_dec_spec`]: parses the unsigned part.
pub open spec fn parse_dec_body_spec(body: Seq<char>, neg: bool) -> Option<Decimal> {
    match body.index_of_first('.') {
        Some(dot) => {
            let int_part = body.subrange(0, dot);
            let frac_part = body.subrange(dot + 1, body.len() as int);
            if int_part.len() > 0 && frac_part.len() > 0 && frac_part.len() <= max_scale()
                && int_part.len() + frac_part.len() <= max_digits() && all_digits(int_part)
                && all_digits(frac_part) {
                Some(
                    Decimal {
                        neg,
                        mantissa: digits_val(int_part + frac_part) as u64,
                        scale: frac_part.len() as u8,
                    },
                )
            } else {
                None
            }
        },
        None => {
            if body.len() > 0 && body.len() <= max_digits() && all_digits(body) {
                Some(Decimal { neg, mantissa: digits_val(body) as u64, scale: 0 })
            } else {
                None
            }
        },
    }
}

/// Parses the unsigned digit run `s[lo..hi]`.
pub fn parse_uint(s: &Vec<char>, lo: usize, hi: usize) -> (r: Option<u64>)
    requires
        lo <= hi <= s@.len(),
    ensures
        match r {
            Some(v) => parse_uint_spec(s@.subrange(lo as int, hi as int)) == Some(v as int) && v
                < pow10(max_digits() as nat),
            None => parse_uint_spec(s@.subrange(lo as int, hi as int)) is None,
        },
{
    let ghost whole = s@.subrange(lo as int, hi as int);
    if hi == lo || hi - lo > 15 {
        return None;
    }
    let mut acc: u64 = 0;
    let mut k: usize = lo;
    while k < hi
        invariant
            lo <= k <= hi <= s@.len(),
            hi - lo <= 15,
            whole == s@.subrange(lo as int, hi as int),
            all_digits(s@.subrange(lo as int, k as int)),
            acc == digits_val(s@.subrange(lo as int, k as int)),
            acc < pow10((k - lo) as nat),
        decreases hi - k,
    {
        let c = s[k];
        if !crate::lexer::is_digit_char(c) {
            proof {
                assert(whole[k - lo] == c);
                assert(!all_digits(whole));
            }
            return None;
        }
        let d: u64 = (c as u32 - '0' as u32) as u64;
        proof {
            let prev = s@.subrange(lo as int, k as int);
            let cur = s@.subrange(lo as int, k as int + 1);
            assert(cur.drop_last() =~= prev);
            assert(cur.last() == c);
            assert(d == digit_val(c));
            lemma_pow10_monotone((k - lo) as nat, 14);
            assert(pow10(14) * 10 == pow10(15)) by {
                reveal_with_fuel(pow10, 16);
            };
            assert(acc * 10 + d < pow10((k + 1 - lo) as nat)) by (nonlinear_arith)
                requires
                    acc < pow10((k - lo) as nat),
                    0 <= d <= 9,
                    pow10((k + 1 - lo) as nat) == 10 * pow10((k - lo) as nat),
            ;
            assert(pow10((k + 1 - lo) as nat) == 10 * pow10((k - lo) as nat));
            lemma_pow10_monotone((k + 1 - lo) as nat, 15);
            assert(pow10(15) == 1000000000000000) by {
                reveal_with_fuel(pow10, 16);
            };
        }
        acc = acc * 10 + d;
        k += 1;
    }
    proof {
        assert(s@.subrange(lo as int, hi as int) =~= whole);
        lemma_pow10_monotone((hi - lo) as nat, 15);
    }
    Some(acc)
}

/// Parses the optionally signed digit run `s[lo..hi]`.
pub fn parse_int(s: &Vec<char>, lo: usize, hi: usize) -> (r: Option<i64>)
    ensures
        lo <= hi <= s@.len() ==> match r {
            Some(v) => parse_int_spec(s@.subrange(lo as int, hi as int)) == Some(v as int)
                && -pow10(max_digits() as nat) < v < pow10(max_digits() as nat),
            None => parse_int_spec(s@.subrange(lo as int, hi as int)) is None,
        },
{
    if !(lo <= hi && hi <= s.len()) {
        return None;
    }
    let ghost whole = s@.subrange(lo as int, hi as int);
    if lo < hi && s[lo] == '-' {
        proof {
            assert(whole[0] == '-');
            assert(whole.drop_first() =~= s@.subrange(lo as int + 1, hi as int));
        }
        match parse_uint(s, lo + 1, hi) {
            Some(v) => {
                proof {
                    assert(pow10(max_digits() as nat) == 1000000000000000) by {
                        reveal_with_fuel(pow10, 16);
                    };
                }
                Some(-(v as i64))
            },
            None => None,
        }
    } else {
        proof {
            if whole.len() > 0 {
                assert(whole[0] == s@[lo as int]);
            }
        }
        match parse_uint(s, lo, hi) {
            Some(v) => {
                proof {
                    assert(pow10(max_digits() as nat) == 1000000000000000) by {
                        reveal_with_fuel(pow10, 16);
                    };
                }
                Some(v as i64)
            },
            None => None,
        }
    }
}

/// Parses the decimal run `s[lo..hi]`.
#[verifier::rlimit(60)]
pub fn parse_dec(s: &Vec<char>, lo: usize, hi: usize) -> (r: Option<Decimal>)
    requires
        lo <= hi <= s@.len(),
    ensures
        r == parse_dec_spec(s@.subrange(lo as int, hi as int)),
        r matches Some(d) ==> d.wf(),
{
    let ghost whole = s@.subrange(lo as int, hi as int);
    let neg = lo < hi && s[lo] == '-';
    let body_lo = if neg {
        lo + 1
    } else {
        lo
    };
    let ghost body = s@.subrange(body_lo as int, hi as int);
    proof {
        if neg {
            assert(whole[0] == '-');
            assert(whole.drop_first() =~= body);
        } else {
            if whole.len() > 0 {
                assert(whole[0] == s@[lo as int]);
            }
        }
    }
    // find the decimal point inside the body
    let mut dot: usize = body_lo;
    while dot < hi && s[dot] != '.'
        invariant
            body_lo <= dot <= hi <= s@.len(),
            body == s@.subrange(body_lo as int, hi as int),
            forall|m: int| body_lo <= m < dot ==> s@[m] != '.',
        decreases hi - dot,
    {
        dot += 1;
    }
    if dot == hi {
        // no decimal point: a plain integer body
        proof {
            assert(forall|m: int| 0 <= m < body.len() ==> body[m] == s@[body_lo + m]);
            assert(!body.contains('.'));
            assert(body.index_of_first('.') is None) by {
                body.index_of_first_ensures('.');
            };
        }
        match parse_uint(s, body_lo, hi) {
            Some(v) => {
                proof {
                    lemma_pow10_monotone(0, max_scale() as nat);
                }
                Some(Decimal { neg, mantissa: v, scale: 0 })
            },
            None => None,
        }
    } else {
        proof {
            assert(body[dot - body_lo] == '.');
            assert(body.contains('.'));
            assert(forall|m: int| 0 <= m < dot - body_lo ==> body[m] == s@[body_lo + m] && body[m]
                != '.');
            assert(body.index_of_first('.') == Some(dot - body_lo)) by {
                body.index_of_first_ensures('.');
            };
        }
        let int_digits = dot - body_lo;
        let frac_digits = hi - (dot + 1);
        if int_digits == 0 || frac_digits == 0 || frac_digits > 6 || int_digits + frac_digits
            > 15 {
            proof {
                assert(body.subrange(0, dot - body_lo).len() == int_digits);
                assert(body.subrange(dot - body_lo + 1, body.len() as int).len() == frac_digits);
            }
            return None;
        }
        let ghost int_part = body.subrange(0, dot - body_lo);
        let ghost frac_part = body.subrange(dot - body_lo + 1, body.len() as int);
        proof {
            assert(int_part =~= s@.subrange(body_lo as int, dot as int));
            assert(frac_part =~= s@.subrange(dot as int + 1, hi as int));
        }
        // the mantissa is the digit string with the point removed
        let mut joined: Vec<char> = crate::lexer::copy_range(s, body_lo, dot);
        let mut k: usize = dot + 1;
        while k < hi
            invariant
                dot + 1 <= k <= hi <= s@.len(),
                joined@ =~= s@.subrange(body_lo as int, dot as int) + s@.subrange(
                    dot as int + 1,
                    k as int,
                ),
            decreases hi - k,
        {
            joined.push(s[k]);
            k += 1;
        }
        proof {
            assert(joined@ =~= int_part + frac_part);
            assert(joined@.len() == int_digits + frac_digits);
        }
        match parse_uint(&joined, 0, joined.len()) {
            Some(v) => {
                proof {
                    assert(joined@.subrange(0, joined@.len() as int) =~= joined@);
                    assert(all_digits(int_part)) by {
                        assert(forall|m: int|
                            0 <= m < int_part.len() ==> int_part[m] == joined@[m]);
                    };
                    assert(all_digits(frac_part)) by {
                        assert(forall|m: int|
                            0 <= m < frac_part.len() ==> frac_part[m] == joined@[int_part.len() + m]);
                    };
                }
                Some(Decimal { neg, mantissa: v, scale: frac_digits as u8 })
            },
            None => {
                proof {
                    assert(joined@.subrange(0, joined@.len() as int) =~= joined@);
                    if all_digits(int_part) && all_digits(frac_part) {
                        assert(all_digits(joined@)) by {
                            assert(forall|m: int|
                                0 <= m < joined@.len() ==> digit_char(joined@[m])) by {
                                assert(forall|m: int|
                                    0 <= m < int_part.len() ==> joined@[m] == int_part[m]);
                                assert(forall|m: int|
                                    int_part.len() <= m < joined@.len() ==> joined@[m]
                                        == frac_part[m - int_part.len()]);
                            };
                        };
                    }
                }
                None
            },
        }
    }
}

/// Exact inclusive range check for a decimal against integer bounds.
pub fn dec_in_range(d: &Decimal, lo: i64, hi: i64) -> (r: bool)
    requires
        d.wf(),
        -1000000000 <= lo <= 1000000000,
        -1000000000 <= hi <= 1000000000,
    ensures
        r == d.in_range(lo as int, hi as int),
{
    let scale_factor: i64 = pow10_i64(d.scale);
    proof {
        lemma_pow10_positive(d.scale as nat);
        lemma_pow10_monotone(d.scale as nat, max_scale() as nat);
        assert(pow10(max_scale() as nat) == 1000000) by {
            reveal_with_fuel(pow10, 7);
        };
        assert(pow10(max_digits() as nat) == 1000000000000000) by {
            reveal_with_fuel(pow10, 16);
        };
        assert(lo * pow10(d.scale as nat) >= -1000000000 * 1000000) by (nonlinear_arith)
            requires
                lo >= -1000000000,
                1 <= pow10(d.scale as nat) <= 1000000,
        ;
        assert(lo * pow10(d.scale as nat) <= 1000000000 * 1000000) by (nonlinear_arith)
            requires
                lo <= 1000000000,
                1 <= pow10(d.scale as nat) <= 1000000,
        ;
        assert(hi * pow10(d.scale as nat) >= -1000000000 * 1000000) by (nonlinear_arith)
            requires
                hi >= -1000000000,
                1 <= pow10(d.scale as nat) <= 1000000,
        ;
        assert(hi * pow10(d.scale as nat) <= 1000000000 * 1000000) by (nonlinear_arith)
            requires
                hi <= 1000000000,
                1 <= pow10(d.scale as nat) <= 1000000,
        ;
    }
    let lo_scaled: i64 = lo * scale_factor;
    let hi_scaled: i64 = hi * scale_factor;
    let num: i64 = if d.neg {
        -(d.mantissa as i64)
    } else {
        d.mantissa as i64
    };
    lo_scaled <= num && num <= hi_scaled
}

/// `10^n` as an `i64`, for scales up to `max_scale`.
pub fn pow10_i64(n: u8) -> (r: i64)
    requires
        n <= max_scale(),
    ensures
        r == pow10(n as nat),
{
    proof {
        reveal_with_fuel(pow10, 7);
    }
    if n == 0 {
        1
    } else if n == 1 {
        10
    } else if n == 2 {
        100
    } else if n == 3 {
        1000
    } else if n == 4 {
        10000
    } else if n == 5 {
        100000
    } else {
        1000000
    }
}

} // verus!
