//! Exact decimal amounts.
//!
//! `Decimal` carries an amount exactly as it was supplied from the outside:
//! an integer mantissa together with the number of fractional digits.
//! `Amount` is the engine's fixed-point currency type: a signed count of
//! ten-thousandths, so every `Amount` has exactly four fractional digits.
//! A `Decimal` whose native precision exceeds four fractional digits cannot
//! be converted to an `Amount`; that rejection is the validation rule for
//! externally supplied amounts.

use vstd::prelude::*;
use vstd::string::StringSliceAdditionalSpecFns;

verus! {

/// An unvalidated decimal value: `mantissa * 10^(-scale)`.
#[derive(Clone, Copy, Debug, PartialEq, Eq, Structural)]
pub struct Decimal {
    pub mantissa: i64,
    pub scale: u32,
}

/// A fixed-point currency amount, counted in ten-thousandths.
#[derive(Clone, Copy, Debug, PartialEq, Eq, Structural)]
pub struct Amount {
    pub units: i64,
}

impl View for Amount {
    type V = int;

    open spec fn view(&self) -> int {
        self.units as int
    }
}

pub open spec fn pow10(n: nat) -> int
    decreases n,
{
    if n == 0 {
        1
    } else {
        10 * pow10((n - 1) as nat)
    }
}

/// The exact value of a decimal, expressed in ten-thousandths.
/// Meaningful when `d.scale <= 4`.
pub open spec fn decimal_units(d: Decimal) -> int {
    d.mantissa * pow10((4 - d.scale) as nat)
}

/// Whether a decimal can be held by an `Amount`: at most four fractional
/// digits, and a value whose count of ten-thousandths fits the machine word.
pub open spec fn decimal_representable(d: Decimal) -> bool {
    &&& d.scale <= 4
    &&& -(i64::MAX as int) <= decimal_units(d)
    &&& decimal_units(d) <= i64::MAX as int
}

/// An ASCII decimal digit.
pub open spec fn is_ascii_digit(b: u8) -> bool {
    48 <= b <= 57
}

pub open spec fn all_digits(s: Seq<u8>) -> bool {
    forall|i: int| 0 <= i < s.len() ==> is_ascii_digit(#[trigger] s[i])
}

/// The integer a sequence of ASCII digits denotes.
pub open spec fn digits_val(s: Seq<u8>) -> int
    decreases s.len(),
{
    if s.len() == 0 {
        0
    } else {
        10 * digits_val(s.drop_last()) + (s.last() - 48)
    }
}

/// Whether the byte at `s[0]` is a minus sign.
pub open spec fn is_neg(s: Seq<u8>) -> bool {
    s.len() > 0 && s[0] == 45
}

/// The text after the optional minus sign.
pub open spec fn body_of(s: Seq<u8>) -> Seq<u8> {
    if is_neg(s) {
        s.skip(1)
    } else {
        s
    }
}

/// How many digits a body split at `k` holds.
pub open spec fn split_digit_count(b: Seq<u8>, k: int) -> int {
    if k == b.len() {
        k
    } else {
        b.len() - 1
    }
}

/// A decimal body split at `k`: digits up to `k`; then either the end, or a
/// decimal point at `k` followed by at least one more digit; at most 18
/// digits in all, so that the mantissa fits the machine word.
pub open spec fn valid_body_split(b: Seq<u8>, k: int) -> bool {
    &&& 1 <= k <= b.len()
    &&& forall|i: int| 0 <= i < k ==> is_ascii_digit(#[trigger] b[i])
    &&& k < b.len() ==> b[k] == 46 && k + 1 < b.len() && (forall|i: int|
        k < i < b.len() ==> is_ascii_digit(#[trigger] b[i]))
    &&& split_digit_count(b, k) <= 18
}

/// A decimal literal: an optional minus sign, one or more integer digits,
/// and an optional fractional part of one or more digits.
pub open spec fn valid_decimal_seq(s: Seq<u8>) -> bool {
    exists|k: int| valid_body_split(body_of(s), k)
}

/// The magnitude of the mantissa of a split body: its digits, with the
/// decimal point cut out.
pub open spec fn split_mantissa_mag(b: Seq<u8>, k: int) -> int {
    if k == b.len() {
        digits_val(b)
    } else {
        digits_val(b.take(k) + b.skip(k + 1))
    }
}

/// The scale of a split body: the count of fractional digits.
pub open spec fn split_scale(b: Seq<u8>, k: int) -> int {
    if k == b.len() {
        0
    } else {
        b.len() - k - 1
    }
}

/// The decimal a valid literal denotes.
pub open spec fn spec_parsed_decimal(s: Seq<u8>) -> Decimal {
    let b = body_of(s);
    let k: int = choose|k: int| valid_body_split(b, k);
    let mag: int = split_mantissa_mag(b, k);
    Decimal {
        mantissa: (if is_neg(s) {
            -mag
        } else {
            mag
        }) as i64,
        scale: split_scale(b, k) as u32,
    }
}

/// A body splits at one position only: the decimal point's, or the end.
proof fn lemma_split_unique(b: Seq<u8>, k1: int, k2: int)
    requires
        valid_body_split(b, k1),
        valid_body_split(b, k2),
    ensures
        k1 == k2,
{
    if k1 < k2 {
        assert(is_ascii_digit(b[k1]));
    } else if k2 < k1 {
        assert(is_ascii_digit(b[k2]));
    }
}

proof fn lemma_pow10_18()
    ensures
        pow10(18) == 1_000_000_000_000_000_000,
{
    assert(pow10(0) == 1);
    assert(pow10(1) == 10);
    assert(pow10(2) == 100);
    assert(pow10(3) == 1000);
    assert(pow10(4) == 10000);
    assert(pow10(5) == 100000);
    assert(pow10(6) == 1000000);
    assert(pow10(7) == 10000000);
    assert(pow10(8) == 100000000);
    assert(pow10(9) == 1000000000);
    assert(pow10(10) == 10000000000);
    assert(pow10(11) == 100000000000);
    assert(pow10(12) == 1000000000000);
    assert(pow10(13) == 10000000000000);
    assert(pow10(14) == 100000000000000);
    assert(pow10(15) == 1000000000000000);
    assert(pow10(16) == 10000000000000000);
    assert(pow10(17) == 100000000000000000);
    assert(pow10(18) == 1000000000000000000);
}

/// `10^n` grows with `n`.
proof fn lemma_pow10_increases(m: nat, n: nat)
    requires
        m <= n,
    ensures
        pow10(m) <= pow10(n),
        1 <= pow10(n),
    decreases n,
{
    if n > 0 {
        if m == n {
            lemma_pow10_increases((m - 1) as nat, (n - 1) as nat);
        } else {
            lemma_pow10_increases(m, (n - 1) as nat);
        }
    }
}

impl Decimal {
    /// Parses a decimal literal: an optional minus sign, integer digits,
    /// and an optional fractional part after a decimal point. At most 18
    /// digits are accepted, so the mantissa always fits the machine word.
    pub fn parse(s: &str) -> (r: Option<Decimal>)
        ensures
            match r {
                Some(d) => valid_decimal_seq(s.spec_bytes()) && d == spec_parsed_decimal(
                    s.spec_bytes(),
                ),
                None => !valid_decimal_seq(s.spec_bytes()),
            },
    {
        let bytes = s.as_bytes();
        let n = bytes.len();
        let ghost b = body_of(bytes@);
        let neg = n > 0 && bytes[0] == 45u8;
        let start: usize = if neg {
            1
        } else {
            0
        };
        proof {
            assert(b =~= bytes@.skip(start as int));
        }

        // One pass over the body: find the decimal point, and reject any
        // byte that is neither a digit nor the single decimal point.
        let mut i: usize = start;
        let mut dot: usize = n;  // `n` marks "no decimal point seen"
        while i < n
            invariant
                start <= i <= n <= bytes@.len(),
                bytes@ == s.spec_bytes(),
                b == body_of(bytes@),
                b == bytes@.skip(start as int),
                n == bytes@.len(),
                dot == n || (start <= dot < i && bytes@[dot as int] == 46),
                forall|j: int|
                    start <= j < i && j != dot ==> is_ascii_digit(#[trigger] bytes@[j]),
            decreases n - i,
        {
            let c: u8 = bytes[i];
            if c == 46u8 {
                if dot != n {
                    proof {
                        let d1: int = dot as int - start as int;
                        let d2: int = i as int - start as int;
                        assert forall|k: int| !valid_body_split(b, k) by {
                            if valid_body_split(b, k) {
                                assert(b[d1] == 46);
                                assert(b[d2] == 46);
                                if k != d1 {
                                    assert(is_ascii_digit(b[d1]));
                                } else {
                                    assert(is_ascii_digit(b[d2]));
                                }
                            }
                        }
                    }
                    return None;
                }
                dot = i;
            } else if c < 48u8 || c > 57u8 {
                proof {
                    let j: int = i as int - start as int;
                    assert(b[j] == c);
                    assert forall|k: int| !valid_body_split(b, k) by {
                        if valid_body_split(b, k) {
                            if k != j {
                                assert(is_ascii_digit(b[j]));
                            }
                        }
                    }
                }
                return None;
            }
            i += 1;
        }

        // Shape checks: at least one integer digit, at least one digit
        // after the decimal point, at most 18 digits in all.
        let int_end: usize = if dot == n {
            n
        } else {
            dot
        };
        if int_end <= start {
            proof {
                assert forall|k: int| !valid_body_split(b, k) by {
                    if valid_body_split(b, k) {
                        if b.len() > 0 {
                            assert(b[0] == 46);
                            assert(is_ascii_digit(b[0]));
                        }
                    }
                }
            }
            return None;
        }
        if dot != n && dot + 1 == n {
            proof {
                let j: int = dot as int - start as int;
                assert(b[j] == 46);
                assert forall|k: int| !valid_body_split(b, k) by {
                    if valid_body_split(b, k) {
                        if k != j {
                            assert(is_ascii_digit(b[j]));
                        }
                    }
                }
            }
            return None;
        }
        let digit_total: usize = if dot == n {
            n - start
        } else {
            n - start - 1
        };
        let ghost kb: int = int_end - start;
        proof {
            assert(split_digit_count(b, kb) == digit_total);
        }
        if digit_total > 18 {
            proof {
                assert forall|k: int| !valid_body_split(b, k) by {
                    if valid_body_split(b, k) {
                        lemma_split_unique_hint(b, k, kb, dot == n, (dot - start) as int);
                    }
                }
            }
            return None;
        }
        proof {
            assert(valid_body_split(b, kb));
        }

        // The digits of the mantissa, the decimal point cut out.
        let ghost digits: Seq<u8> = if kb == b.len() as int {
            b
        } else {
            b.take(kb) + b.skip(kb + 1)
        };
        proof {
            assert(digits.len() == digit_total);
            assert(all_digits(digits));
            lemma_pow10_18();
        }

        let mut mag: i64 = 0;
        let mut count: usize = 0;
        let mut j: usize = start;
        while j < n
            invariant
                start <= j <= n <= bytes@.len(),
                b == bytes@.skip(start as int),
                n == bytes@.len(),
                dot == n || (start <= dot < n && bytes@[dot as int] == 46),
                int_end == if dot == n { n as int } else { dot as int },
                start < int_end,
                kb == int_end - start,
                valid_body_split(b, kb),
                digits == (if kb == b.len() as int { b } else { b.take(kb) + b.skip(kb + 1) }),
                digits.len() == digit_total,
                digit_total <= 18,
                all_digits(digits),
                count == j - start - (if dot < j { 1int } else { 0int }),
                0 <= count <= digit_total,
                mag == digits_val(digits.take(count as int)),
                0 <= mag < pow10(count as nat),
                pow10(18) == 1_000_000_000_000_000_000,
            decreases n - j,
        {
            if j != dot {
                let c: u8 = bytes[j];
                proof {
                    let jj: int = j as int - start as int;
                    assert(b[jj] == c);
                    if jj < kb {
                        assert(digits[count as int] == b[jj]);
                    } else {
                        assert(jj > kb);
                        assert(digits[count as int] == b[jj]);
                    }
                    assert(is_ascii_digit(c));
                    assert(digits.take(count as int + 1) =~= digits.take(count as int).push(
                        digits[count as int],
                    ));
                    assert(digits.take(count as int + 1).drop_last() =~= digits.take(
                        count as int,
                    ));
                    lemma_pow10_increases((count + 1) as nat, 18);
                }
                mag = mag * 10 + ((c - 48u8) as i64);
                count += 1;
            }
            j += 1;
        }
        proof {
            assert(count == digit_total);
            assert(digits.take(count as int) =~= digits);
            assert(mag == split_mantissa_mag(b, kb));
            let kc: int = choose|k: int| valid_body_split(b, k);
            lemma_split_unique(b, kc, kb);
            assert(is_neg(bytes@) == neg);
        }
        let mantissa: i64 = if neg {
            -mag
        } else {
            mag
        };
        let scale_len: usize = if dot == n {
            0
        } else {
            n - dot - 1
        };
        proof {
            assert(split_scale(b, kb) == scale_len);
        }
        Some(Decimal { mantissa, scale: scale_len as u32 })
    }
}

/// Any valid split of a body equals the one the scanner found.
proof fn lemma_split_unique_hint(b: Seq<u8>, k: int, kb: int, no_dot: bool, dot_pos: int)
    requires
        valid_body_split(b, k),
        no_dot ==> kb == b.len() && all_digits(b),
        !no_dot ==> 0 <= dot_pos < b.len() && b[dot_pos] == 46 && kb == dot_pos,
    ensures
        k == kb,
{
    if no_dot {
        if k < b.len() {
            assert(is_ascii_digit(b[k]));
        }
    } else {
        if k != dot_pos {
            assert(is_ascii_digit(b[dot_pos]));
        }
    }
}

impl Amount {
    /// The zero amount.
    pub fn zero() -> (r: Amount)
        ensures
            r@ == 0,
    {
        Amount { units: 0 }
    }

    /// Converts an externally supplied decimal to a fixed-point amount,
    /// rejecting any decimal with more than four fractional digits and any
    /// value too large for the machine word.
    pub fn from_decimal(d: &Decimal) -> (r: Option<Amount>)
        ensures
            match r {
                Some(a) => decimal_representable(*d) && a@ == decimal_units(*d),
                None => !decimal_representable(*d),
            },
    {
        proof {
            assert(pow10(0) == 1);
            assert(pow10(1) == 10);
            assert(pow10(2) == 100);
            assert(pow10(3) == 1000);
            assert(pow10(4) == 10000);
        }
        match d.scale {
            0 => {
                if -922_337_203_685_477 <= d.mantissa && d.mantissa <= 922_337_203_685_477 {
                    Some(Amount { units: d.mantissa * 10_000 })
                } else {
                    None
                }
            },
            1 => {
                if -9_223_372_036_854_775 <= d.mantissa && d.mantissa <= 9_223_372_036_854_775 {
                    Some(Amount { units: d.mantissa * 1_000 })
                } else {
                    None
                }
            },
            2 => {
                if -92_233_720_368_547_758 <= d.mantissa && d.mantissa <= 92_233_720_368_547_758 {
                    Some(Amount { units: d.mantissa * 100 })
                } else {
                    None
                }
            },
            3 => {
                if -922_337_203_685_477_580 <= d.mantissa && d.mantissa <= 922_337_203_685_477_580 {
                    Some(Amount { units: d.mantissa * 10 })
                } else {
                    None
                }
            },
            4 => {
                if d.mantissa > i64::MIN {
                    Some(Amount { units: d.mantissa })
                } else {
                    None
                }
            },
            _ => None,
        }
    }

    /// True of amounts below zero.
    pub fn is_negative(&self) -> (r: bool)
        ensures
            r == (self@ < 0),
    {
        self.units < 0
    }

    /// Exact comparison.
    pub fn gt(&self, other: &Amount) -> (r: bool)
        ensures
            r == (self@ > other@),
    {
        self.units > other.units
    }

    /// Exact addition; `None` when the sum does not fit the machine word.
    pub fn checked_add(&self, other: &Amount) -> (r: Option<Amount>)
        ensures
            match r {
                Some(a) => a@ == self@ + other@,
                None => !(i64::MIN <= self@ + other@ <= i64::MAX),
            },
    {
        if other.units >= 0 {
            if self.units <= i64::MAX - other.units {
                Some(Amount { units: self.units + other.units })
            } else {
                None
            }
        } else {
            if self.units >= i64::MIN - other.units {
                Some(Amount { units: self.units + other.units })
            } else {
                None
            }
        }
    }

    /// Exact subtraction; `None` when the difference does not fit the
    /// machine word.
    pub fn checked_sub(&self, other: &Amount) -> (r: Option<Amount>)
        ensures
            match r {
                Some(a) => a@ == self@ - other@,
                None => !(i64::MIN <= self@ - other@ <= i64::MAX),
            },
    {
        if other.units <= 0 {
            if self.units <= i64::MAX + other.units {
                Some(Amount { units: self.units - other.units })
            } else {
                None
            }
        } else {
            if self.units >= i64::MIN + other.units {
                Some(Amount { units: self.units - other.units })
            } else {
                None
            }
        }
    }
}

} // verus!
