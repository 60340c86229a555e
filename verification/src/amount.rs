//! Resolution of a literal-or-percentage amount against a live balance.

use vstd::prelude::*;
use crate::uint256::{Uint256, u256_bound, val_with_carry};
use vstd::arithmetic::div_mod::{
    lemma_div_is_ordered, lemma_fundamental_div_mod, lemma_fundamental_div_mod_converse,
    lemma_mod_pos_bound,
};
use vstd::arithmetic::mul::lemma_mul_upper_bound;

verus! {

/// The concrete quantity a request denotes: the literal value itself, or
/// the floor of `literal` parts-per-hundred of the balance.
pub open spec fn concrete_amount(literal: int, is_percentage: bool, balance: int) -> int {
    if is_percentage {
        (balance * literal) / 100
    } else {
        literal
    }
}

/// A resolved transfer quantity.
#[derive(Clone, Copy, PartialEq, Eq, Structural, Debug)]
pub enum ResolvedAmount {
    /// The concrete quantity, exactly.
    Amount(Uint256),
    /// The concrete quantity exceeds the source balance (a percentage above
    /// one hundred); it need not even fit 256 bits, so no value is given.
    ExceedsBalance,
}

/// Resolve a literal-or-percentage amount against a live balance.
///
/// Without the percentage flag the concrete quantity is the literal value,
/// exactly, whatever the balance. With the flag it is
/// `floor(balance * literal / 100)`; when that quantity is within the
/// balance it is returned exactly, otherwise `ExceedsBalance` is returned.
pub fn resolve_amount(literal: &Uint256, is_percentage: bool, balance: &Uint256) -> (r:
    ResolvedAmount)
    ensures
        match r {
            ResolvedAmount::Amount(a) => a.val() == concrete_amount(
                literal.val(),
                is_percentage,
                balance.val(),
            ),
            ResolvedAmount::ExceedsBalance => is_percentage && concrete_amount(
                literal.val(),
                is_percentage,
                balance.val(),
            ) > balance.val(),
        },
        is_percentage && concrete_amount(literal.val(), is_percentage, balance.val())
            > balance.val() ==> (r is ExceedsBalance),
{
    if !is_percentage {
        return ResolvedAmount::Amount(*literal);
    }
    let ghost bal: int = balance.val();
    let ghost lit: int = literal.val();
    if balance.is_zero() {
        proof {
            assert(bal * lit == 0) by (nonlinear_arith)
                requires
                    bal == 0,
            ;
        }
        return ResolvedAmount::Amount(Uint256::zero());
    }
    // balance >= 1 from here on.
    let (q, rr) = literal.divmod_small(100);
    let (s, u) = balance.divmod_small(100);
    proof {
        lemma_fundamental_div_mod(lit, 100);
        lemma_fundamental_div_mod(bal, 100);
        assert(lit == 100 * q.val() + rr);
        assert(bal == 100 * s.val() + u);
    }
    if q.is_zero() {
        // literal < 100: the concrete amount is s * literal + (u * literal) / 100,
        // where balance == 100 * s + u.
        proof {
            balance.lemma_val_bound();
            lemma_div_is_ordered(bal, u256_bound() - 1, 100);
            lemma_mul_upper_bound(s.val(), (u256_bound() - 1) / 100, rr as int, 99);
        }
        let (m, carry) = s.mul_small(rr);
        proof {
            assert(carry == 0) by {
                if carry != 0 {
                    assert(val_with_carry(m, carry) >= u256_bound());
                }
            }
            assert((u as int) * (rr as int) <= 9801) by (nonlinear_arith)
                requires
                    u <= 99,
                    rr <= 99,
            ;
        }
        let prod: u64 = u * rr;
        let small: u64 = prod / 100;
        proof {
            // balance * literal == 100 * (s * literal) + u * literal
            assert(bal * (rr as int) == 100 * (s.val() * (rr as int)) + (u as int) * (rr as int))
                by (nonlinear_arith)
                requires
                    bal == 100 * s.val() + u,
            ;
            lemma_fundamental_div_mod(prod as int, 100);
            lemma_mod_pos_bound(prod as int, 100);
            lemma_fundamental_div_mod_converse(
                bal * (rr as int),
                100,
                s.val() * (rr as int) + small as int,
                (prod as int) % 100,
            );
            // the result stays within the balance
            assert(bal * (rr as int) <= 99 * bal) by (nonlinear_arith)
                requires
                    rr <= 99,
                    bal >= 0,
            ;
        }
        let (res, ovf) = m.add_small(small);
        proof {
            assert(ovf == 0) by {
                if ovf != 0 {
                    assert(val_with_carry(res, ovf) >= u256_bound());
                }
            }
        }
        return ResolvedAmount::Amount(res);
    }
    // q >= 1 and balance >= 1.
    if q.limb0 >= 2 || q.limb1 != 0 || q.limb2 != 0 || q.limb3 != 0 {
        // literal >= 200, so the concrete amount is at least twice the balance.
        proof {
            assert(q.val() >= 2);
            assert(bal * lit >= 200 * bal) by (nonlinear_arith)
                requires
                    lit >= 200,
                    bal >= 1,
            ;
            lemma_div_is_ordered(200 * bal, bal * lit, 100);
            lemma_fundamental_div_mod_converse(200 * bal, 100, 2 * bal, 0);
        }
        return ResolvedAmount::ExceedsBalance;
    }
    // q == 1: literal == 100 + rr with rr < 100, so the concrete amount is
    // balance + (balance * rr) / 100.
    proof {
        assert(q.val() == 1);
        assert(bal * lit == 100 * bal + bal * (rr as int)) by (nonlinear_arith)
            requires
                lit == 100 + rr,
        ;
        assert(bal * (rr as int) >= 0) by (nonlinear_arith)
            requires
                bal >= 0,
                rr >= 0,
        ;
        lemma_fundamental_div_mod(bal * (rr as int), 100);
        lemma_mod_pos_bound(bal * (rr as int), 100);
        lemma_fundamental_div_mod_converse(
            bal * lit,
            100,
            bal + (bal * (rr as int)) / 100,
            (bal * (rr as int)) % 100,
        );
    }
    if rr == 0 {
        proof {
            assert(bal * (rr as int) == 0) by (nonlinear_arith)
                requires
                    rr == 0,
            ;
        }
        return ResolvedAmount::Amount(*balance);
    }
    // rr >= 1: the concrete amount exceeds the balance iff balance * rr >= 100.
    if balance.limb1 != 0 || balance.limb2 != 0 || balance.limb3 != 0 || balance.limb0 >= 100 {
        proof {
            assert(bal >= 100);
            assert(bal * (rr as int) >= 100) by (nonlinear_arith)
                requires
                    bal >= 100,
                    rr >= 1,
            ;
            lemma_div_is_ordered(100, bal * (rr as int), 100);
        }
        return ResolvedAmount::ExceedsBalance;
    }
    // balance < 100, so balance * rr fits a machine word.
    proof {
        assert(bal == balance.limb0);
        assert(balance.limb0 * rr <= 9801) by (nonlinear_arith)
            requires
                balance.limb0 <= 99,
                rr <= 99,
        ;
    }
    let p2: u64 = balance.limb0 * rr;
    if p2 >= 100 {
        proof {
            lemma_div_is_ordered(100, bal * (rr as int), 100);
        }
        ResolvedAmount::ExceedsBalance
    } else {
        proof {
            lemma_fundamental_div_mod_converse(bal * (rr as int), 100, 0, bal * (rr as int));
        }
        ResolvedAmount::Amount(*balance)
    }
}

} // verus!
