//! Unsigned 256-bit amounts, stored as four 64-bit limbs (little-endian).
//!
//! Amounts are denominated in an asset's smallest unit and must fit an
//! unsigned 256-bit range, so the library carries them as four `u64` limbs
//! and proves every operation against the mathematical value of the limbs.
//! The value is written in Horner form (every product has the constant
//! 2^64 as one factor) so that most proofs stay in linear arithmetic.

use vstd::prelude::*;
use vstd::arithmetic::div_mod::{
    lemma_fundamental_div_mod, lemma_fundamental_div_mod_converse, lemma_multiply_divide_lt,
};
use vstd::arithmetic::mul::{lemma_mul_is_commutative, lemma_mul_upper_bound};

verus! {

/// 2^256, one past the largest representable amount.
pub open spec fn u256_bound() -> int {
    0x1_0000_0000_0000_0000int
        * (0x1_0000_0000_0000_0000 * (0x1_0000_0000_0000_0000 * 0x1_0000_0000_0000_0000))
}

/// An unsigned 256-bit integer: `limb0` is least significant.
#[derive(Clone, Copy, PartialEq, Eq, Structural, Debug)]
pub struct Uint256 {
    pub limb0: u64,
    pub limb1: u64,
    pub limb2: u64,
    pub limb3: u64,
}

/// The value of four limbs together with a carry limb above them.
pub open spec fn val_with_carry(x: Uint256, c: u64) -> int {
    x.limb0 as int + 0x1_0000_0000_0000_0000 * (x.limb1 as int + 0x1_0000_0000_0000_0000 * (
    x.limb2 as int + 0x1_0000_0000_0000_0000 * (x.limb3 as int + 0x1_0000_0000_0000_0000 * (
    c as int))))
}

impl Uint256 {
    /// The mathematical value of the four limbs.
    pub open spec fn val(&self) -> int {
        self.limb0 as int + 0x1_0000_0000_0000_0000 * (self.limb1 as int
            + 0x1_0000_0000_0000_0000 * (self.limb2 as int + 0x1_0000_0000_0000_0000 * (
        self.limb3 as int)))
    }

    /// Every limb vector denotes a value in the 256-bit range.
    pub proof fn lemma_val_bound(&self)
        ensures
            0 <= self.val() < u256_bound(),
    {
    }

    /// The zero amount.
    pub fn zero() -> (r: Uint256)
        ensures
            r.val() == 0,
    {
        Uint256 { limb0: 0, limb1: 0, limb2: 0, limb3: 0 }
    }

    /// Embed a machine word.
    pub fn from_u64(x: u64) -> (r: Uint256)
        ensures
            r.val() == x as int,
    {
        Uint256 { limb0: x, limb1: 0, limb2: 0, limb3: 0 }
    }

    /// Whether the amount is zero.
    pub fn is_zero(&self) -> (r: bool)
        ensures
            r == (self.val() == 0),
    {
        self.limb0 == 0 && self.limb1 == 0 && self.limb2 == 0 && self.limb3 == 0
    }

    /// Strict comparison by value.
    pub fn gt(&self, other: &Uint256) -> (r: bool)
        ensures
            r == (self.val() > other.val()),
    {
        if self.limb3 != other.limb3 {
            self.limb3 > other.limb3
        } else if self.limb2 != other.limb2 {
            self.limb2 > other.limb2
        } else if self.limb1 != other.limb1 {
            self.limb1 > other.limb1
        } else {
            self.limb0 > other.limb0
        }
    }

    /// Multiply by a machine word; the product may carry one limb out.
    pub fn mul_small(&self, m: u64) -> (r: (Uint256, u64))
        ensures
            val_with_carry(r.0, r.1) == self.val() * m as int,
    {
        proof {
            lemma_mul_upper_bound(self.limb0 as int, 0xffff_ffff_ffff_ffff, m as int,
                0xffff_ffff_ffff_ffff);
            lemma_mul_upper_bound(self.limb1 as int, 0xffff_ffff_ffff_ffff, m as int,
                0xffff_ffff_ffff_ffff);
            lemma_mul_upper_bound(self.limb2 as int, 0xffff_ffff_ffff_ffff, m as int,
                0xffff_ffff_ffff_ffff);
            lemma_mul_upper_bound(self.limb3 as int, 0xffff_ffff_ffff_ffff, m as int,
                0xffff_ffff_ffff_ffff);
        }
        let t0: u128 = (self.limb0 as u128) * (m as u128);
        let r0: u64 = (t0 % 0x1_0000_0000_0000_0000u128) as u64;
        let c0: u64 = (t0 / 0x1_0000_0000_0000_0000u128) as u64;
        let t1: u128 = (self.limb1 as u128) * (m as u128) + (c0 as u128);
        let r1: u64 = (t1 % 0x1_0000_0000_0000_0000u128) as u64;
        let c1: u64 = (t1 / 0x1_0000_0000_0000_0000u128) as u64;
        let t2: u128 = (self.limb2 as u128) * (m as u128) + (c1 as u128);
        let r2: u64 = (t2 % 0x1_0000_0000_0000_0000u128) as u64;
        let c2: u64 = (t2 / 0x1_0000_0000_0000_0000u128) as u64;
        let t3: u128 = (self.limb3 as u128) * (m as u128) + (c2 as u128);
        let r3: u64 = (t3 % 0x1_0000_0000_0000_0000u128) as u64;
        let c3: u64 = (t3 / 0x1_0000_0000_0000_0000u128) as u64;
        let out = Uint256 { limb0: r0, limb1: r1, limb2: r2, limb3: r3 };
        proof {
            let b: int = 0x1_0000_0000_0000_0000;
            lemma_fundamental_div_mod(t0 as int, b);
            lemma_fundamental_div_mod(t1 as int, b);
            lemma_fundamental_div_mod(t2 as int, b);
            lemma_fundamental_div_mod(t3 as int, b);
            assert((self.limb0 as int + b * (self.limb1 as int + b * (self.limb2 as int + b * (
            self.limb3 as int)))) * m as int == self.limb0 as int * m as int + b * (
            self.limb1 as int * m as int + b * (self.limb2 as int * m as int + b * (
            self.limb3 as int * m as int)))) by (nonlinear_arith);
        }
        (out, c3)
    }

    /// Add a machine word; the sum may carry out (the carry is 0 or 1).
    pub fn add_small(&self, d: u64) -> (r: (Uint256, u64))
        ensures
            val_with_carry(r.0, r.1) == self.val() + d as int,
            r.1 <= 1,
    {
        let t0: u128 = (self.limb0 as u128) + (d as u128);
        let r0: u64 = (t0 % 0x1_0000_0000_0000_0000u128) as u64;
        let c0: u64 = (t0 / 0x1_0000_0000_0000_0000u128) as u64;
        let t1: u128 = (self.limb1 as u128) + (c0 as u128);
        let r1: u64 = (t1 % 0x1_0000_0000_0000_0000u128) as u64;
        let c1: u64 = (t1 / 0x1_0000_0000_0000_0000u128) as u64;
        let t2: u128 = (self.limb2 as u128) + (c1 as u128);
        let r2: u64 = (t2 % 0x1_0000_0000_0000_0000u128) as u64;
        let c2: u64 = (t2 / 0x1_0000_0000_0000_0000u128) as u64;
        let t3: u128 = (self.limb3 as u128) + (c2 as u128);
        let r3: u64 = (t3 % 0x1_0000_0000_0000_0000u128) as u64;
        let c3: u64 = (t3 / 0x1_0000_0000_0000_0000u128) as u64;
        let out = Uint256 { limb0: r0, limb1: r1, limb2: r2, limb3: r3 };
        proof {
            let b: int = 0x1_0000_0000_0000_0000;
            lemma_fundamental_div_mod(t0 as int, b);
            lemma_fundamental_div_mod(t1 as int, b);
            lemma_fundamental_div_mod(t2 as int, b);
            lemma_fundamental_div_mod(t3 as int, b);
        }
        (out, c3)
    }

    /// Divide by a nonzero machine word, returning quotient and remainder.
    pub fn divmod_small(&self, d: u64) -> (r: (Uint256, u64))
        requires
            d >= 1,
        ensures
            r.0.val() == self.val() / d as int,
            r.1 as int == self.val() % d as int,
            r.1 < d,
    {
        let dd: u128 = d as u128;
        let cur3: u128 = self.limb3 as u128;
        let q3: u64 = (cur3 / dd) as u64;
        let rem3: u64 = (cur3 % dd) as u64;
        proof {
            let b: int = 0x1_0000_0000_0000_0000;
            assert((cur3 as int) < (d as int) * 0x1_0000_0000_0000_0000) by (nonlinear_arith)
                requires
                    cur3 < 0x1_0000_0000_0000_0000u128,
                    d >= 1,
            ;
            lemma_multiply_divide_lt(cur3 as int, d as int, b);
            lemma_fundamental_div_mod(cur3 as int, d as int);
        }
        let cur2: u128 = (rem3 as u128) * 0x1_0000_0000_0000_0000u128 + (self.limb2 as u128);
        let q2: u64 = (cur2 / dd) as u64;
        let rem2: u64 = (cur2 % dd) as u64;
        proof {
            let b: int = 0x1_0000_0000_0000_0000;
            assert((cur2 as int) < (d as int) * 0x1_0000_0000_0000_0000) by (nonlinear_arith)
                requires
                    (cur2 as int) == (rem3 as int) * 0x1_0000_0000_0000_0000 + (self.limb2 as int),
                    rem3 < d,
                    self.limb2 <= 0xffff_ffff_ffff_ffffu64,
            ;
            lemma_multiply_divide_lt(cur2 as int, d as int, b);
            lemma_fundamental_div_mod(cur2 as int, d as int);
        }
        let cur1: u128 = (rem2 as u128) * 0x1_0000_0000_0000_0000u128 + (self.limb1 as u128);
        let q1: u64 = (cur1 / dd) as u64;
        let rem1: u64 = (cur1 % dd) as u64;
        proof {
            let b: int = 0x1_0000_0000_0000_0000;
            assert((cur1 as int) < (d as int) * 0x1_0000_0000_0000_0000) by (nonlinear_arith)
                requires
                    (cur1 as int) == (rem2 as int) * 0x1_0000_0000_0000_0000 + (self.limb1 as int),
                    rem2 < d,
                    self.limb1 <= 0xffff_ffff_ffff_ffffu64,
            ;
            lemma_multiply_divide_lt(cur1 as int, d as int, b);
            lemma_fundamental_div_mod(cur1 as int, d as int);
        }
        let cur0: u128 = (rem1 as u128) * 0x1_0000_0000_0000_0000u128 + (self.limb0 as u128);
        let q0: u64 = (cur0 / dd) as u64;
        let rem0: u64 = (cur0 % dd) as u64;
        proof {
            let b: int = 0x1_0000_0000_0000_0000;
            assert((cur0 as int) < (d as int) * 0x1_0000_0000_0000_0000) by (nonlinear_arith)
                requires
                    (cur0 as int) == (rem1 as int) * 0x1_0000_0000_0000_0000 + (self.limb0 as int),
                    rem1 < d,
                    self.limb0 <= 0xffff_ffff_ffff_ffffu64,
            ;
            lemma_multiply_divide_lt(cur0 as int, d as int, b);
            lemma_fundamental_div_mod(cur0 as int, d as int);
        }
        let quot = Uint256 { limb0: q0, limb1: q1, limb2: q2, limb3: q3 };
        proof {
            let b: int = 0x1_0000_0000_0000_0000;
            let di: int = d as int;
            assert(di * (q0 as int + 0x1_0000_0000_0000_0000 * (q1 as int
                + 0x1_0000_0000_0000_0000 * (q2 as int + 0x1_0000_0000_0000_0000 * (q3 as int))))
                == di * (q0 as int) + 0x1_0000_0000_0000_0000 * (di * (q1 as int)
                + 0x1_0000_0000_0000_0000 * (di * (q2 as int) + 0x1_0000_0000_0000_0000 * (di * (
                q3 as int))))) by (nonlinear_arith);
            assert(self.val() == di * quot.val() + rem0 as int);
            lemma_mul_is_commutative(di, quot.val());
            lemma_fundamental_div_mod_converse(self.val(), di, quot.val(), rem0 as int);
        }
        (quot, rem0)
    }
}

/// A decimal digit.
pub open spec fn is_digit(c: char) -> bool {
    48 <= c as int && c as int <= 57
}

/// The numeric value of a digit character.
pub open spec fn digit_val(c: char) -> int {
    c as int - 48
}

/// Every character of the sequence is a decimal digit.
pub open spec fn all_digits(s: Seq<char>) -> bool {
    forall|k: int| 0 <= k < s.len() ==> is_digit(s[k])
}

/// The value of a sequence of decimal digits, most significant first.
pub open spec fn dec_value(s: Seq<char>) -> int
    decreases s.len(),
{
    if s.len() == 0 {
        0
    } else {
        dec_value(s.drop_last()) * 10 + digit_val(s.last())
    }
}

/// A well-formed amount string: nonempty, all digits, in the 256-bit range.
pub open spec fn valid_amount(s: Seq<char>) -> bool {
    s.len() > 0 && all_digits(s) && dec_value(s) < u256_bound()
}

/// A digit string denotes a non-negative value.
pub proof fn lemma_dec_value_nonneg(s: Seq<char>)
    requires
        all_digits(s),
    ensures
        dec_value(s) >= 0,
    decreases s.len(),
{
    if s.len() > 0 {
        assert(all_digits(s.drop_last()));
        lemma_dec_value_nonneg(s.drop_last());
    }
}

/// Extending a digit string never decreases its value.
pub proof fn lemma_dec_value_prefix_le(s: Seq<char>, i: int)
    requires
        0 <= i <= s.len(),
        all_digits(s),
    ensures
        dec_value(s.take(i)) <= dec_value(s),
    decreases s.len() - i,
{
    if i < s.len() {
        assert(s.take(i + 1).drop_last() =~= s.take(i));
        assert(s.take(i + 1).last() == s[i]);
        assert(all_digits(s.take(i)));
        lemma_dec_value_nonneg(s.take(i));
        lemma_dec_value_prefix_le(s, i + 1);
    } else {
        assert(s.take(i) =~= s);
    }
}

impl Uint256 {
    /// Parse a decimal amount string in the asset's smallest unit.
    ///
    /// Returns the parsed amount exactly when the string is nonempty, all
    /// decimal digits, and its value fits the unsigned 256-bit range.
    pub fn from_decimal(s: &str) -> (r: Option<Uint256>)
        ensures
            match r {
                Some(a) => valid_amount(s@) && a.val() == dec_value(s@),
                None => !valid_amount(s@),
            },
    {
        let n = s.unicode_len();
        if n == 0 {
            return None;
        }
        let mut acc = Uint256::zero();
        let mut i: usize = 0;
        while i < n
            invariant
                0 <= i <= n,
                n == s@.len(),
                all_digits(s@.take(i as int)),
                acc.val() == dec_value(s@.take(i as int)),
            decreases n - i,
        {
            let c = s.get_char(i);
            let cv = c as u32;
            if cv < 48 || cv > 57 {
                proof {
                    assert(!is_digit(s@[i as int]));
                }
                return None;
            }
            let d: u64 = (cv - 48) as u64;
            proof {
                assert(s@.take(i as int + 1).drop_last() =~= s@.take(i as int));
                assert(s@.take(i as int + 1).last() == s@[i as int]);
                assert(all_digits(s@.take(i as int + 1)));
            }
            let (m, carry) = acc.mul_small(10);
            if carry != 0 {
                proof {
                    assert(val_with_carry(m, carry) >= u256_bound());
                    assert(dec_value(s@.take(i as int + 1)) >= u256_bound());
                    if all_digits(s@) {
                        lemma_dec_value_prefix_le(s@, i as int + 1);
                    }
                }
                return None;
            }
            let (a2, ovf) = m.add_small(d);
            if ovf != 0 {
                proof {
                    assert(val_with_carry(a2, ovf) >= u256_bound());
                    assert(dec_value(s@.take(i as int + 1)) >= u256_bound());
                    if all_digits(s@) {
                        lemma_dec_value_prefix_le(s@, i as int + 1);
                    }
                }
                return None;
            }
            acc = a2;
            i = i + 1;
        }
        proof {
            assert(s@.take(n as int) =~= s@);
        }
        Some(acc)
    }
}

} // verus!

