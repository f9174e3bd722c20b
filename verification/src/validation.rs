//! Shared validation rules and the fee arithmetic.
use vstd::prelude::*;

use crate::contract::ChainBountyContract;
use crate::types::ContractError;

verus! {

/// Maximum allowed platform fee: 10% in basis points.
pub const MAX_FEE_BPS: u32 = 1000;

/// Minimum title length (characters).
pub const MIN_TITLE_LEN: u32 = 3;

/// Basis points in a whole (100%).
pub const BPS_DENOMINATOR: u32 = 10000;

/// Validate platform fee is within acceptable range.
pub fn require_valid_fee(fee_bps: u32) -> (r: Result<(), ContractError>)
    ensures
        r == (if fee_bps > MAX_FEE_BPS {
            Err(ContractError::InvalidFee)
        } else {
            Ok(())
        }),
{
    if fee_bps > MAX_FEE_BPS {
        return Err(ContractError::InvalidFee);
    }
    Ok(())
}

/// Validate amount is positive.
pub fn require_positive_amount(amount: i128) -> (r: Result<(), ContractError>)
    ensures
        r == (if amount <= 0 {
            Err(ContractError::InvalidAmount)
        } else {
            Ok(())
        }),
{
    if amount <= 0 {
        return Err(ContractError::InvalidAmount);
    }
    Ok(())
}

/// Validate that `deadline` lies after the ledger time `now`.
pub fn require_future_deadline(now: u64, deadline: u64) -> (r: Result<(), ContractError>)
    ensures
        r == (if deadline <= now {
            Err(ContractError::InvalidDeadline)
        } else {
            Ok(())
        }),
{
    if deadline <= now {
        return Err(ContractError::InvalidDeadline);
    }
    Ok(())
}

/// Validate that `deadline` has not yet passed at ledger time `now`
/// (used at claim and submit time).
pub fn require_not_expired(now: u64, deadline: u64) -> (r: Result<(), ContractError>)
    ensures
        r == (if now > deadline {
            Err(ContractError::DeadlineExpired)
        } else {
            Ok(())
        }),
{
    if now > deadline {
        return Err(ContractError::DeadlineExpired);
    }
    Ok(())
}

/// A UTF-8 continuation byte (`0b10xx_xxxx`): one that does not begin a
/// character.
pub open spec fn is_continuation_byte(b: u8) -> bool {
    0x80 <= b < 0xC0
}

/// The number of characters in UTF-8 text: the bytes that begin a character.
pub open spec fn char_count(s: Seq<u8>) -> nat
    decreases s.len(),
{
    if s.len() == 0 {
        0
    } else {
        char_count(s.drop_last()) + if is_continuation_byte(s.last()) {
            0nat
        } else {
            1nat
        }
    }
}

/// Counts the characters of UTF-8 text.
pub fn count_chars(s: &Vec<u8>) -> (r: usize)
    ensures
        r == char_count(s@),
{
    let mut n: usize = 0;
    let mut i: usize = 0;
    while i < s.len()
        invariant
            i <= s.len(),
            n == char_count(s@.subrange(0, i as int)),
            n <= i,
        decreases s.len() - i,
    {
        assert(s@.subrange(0, i + 1).drop_last() =~= s@.subrange(0, i as int));
        let b = s[i];
        if !(0x80 <= b && b < 0xC0) {
            n = n + 1;
        }
        i = i + 1;
    }
    assert(s@.subrange(0, s.len() as int) =~= s@);
    n
}

/// Validate a string input (UTF-8 text) has at least `MIN_TITLE_LEN`
/// characters.
pub fn require_non_empty_string(s: &Vec<u8>) -> (r: Result<(), ContractError>)
    ensures
        r == (if char_count(s@) < MIN_TITLE_LEN {
            Err(ContractError::InvalidInput)
        } else {
            Ok(())
        }),
{
    if count_chars(s) < MIN_TITLE_LEN as usize {
        return Err(ContractError::InvalidInput);
    }
    Ok(())
}

/// Validate dispute split percentage is between 0 and 100.
pub fn require_valid_split(pct: u32) -> (r: Result<(), ContractError>)
    ensures
        r == (if pct > 100 {
            Err(ContractError::InvalidSplit)
        } else {
            Ok(())
        }),
{
    if pct > 100 {
        return Err(ContractError::InvalidSplit);
    }
    Ok(())
}

/// `a * m / d`, rounded down, for a non-negative `a` and a ratio `m / d` of
/// at most one. The result is exact for every such `a`: the product is never
/// formed, so nothing overflows.
pub fn mul_div(a: i128, m: u32, d: u32) -> (r: i128)
    requires
        a >= 0,
        0 < d,
        m <= d,
    ensures
        r == (a as int) * (m as int) / (d as int),
        0 <= r <= a,
{
    let q: i128 = a / (d as i128);
    let rem: i128 = a % (d as i128);
    proof {
        let (ai, mi, di, qi, ri) = (a as int, m as int, d as int, q as int, rem as int);
        assert(ai == qi * di + ri && 0 <= ri < di) by {
            vstd::arithmetic::div_mod::lemma_fundamental_div_mod(ai, di);
        }
        assert(0 <= qi * mi <= qi * di) by (nonlinear_arith)
            requires
                qi >= 0,
                0 <= mi <= di,
        ;
        assert(0 <= ri * mi <= ri * di) by (nonlinear_arith)
            requires
                0 <= ri < di,
                0 <= mi <= di,
        ;
        assert(ri * di < 0x1_0000_0000_0000_0000) by (nonlinear_arith)
            requires
                0 <= ri < di,
                di <= 0xffff_ffff,
        ;
        assert((ri * mi) / di <= ri) by {
            vstd::arithmetic::div_mod::lemma_div_is_ordered(ri * mi, ri * di, di);
            vstd::arithmetic::div_mod::lemma_div_multiples_vanish(ri, di);
        }
        assert(0 <= (ri * mi) / di) by {
            vstd::arithmetic::div_mod::lemma_div_pos_is_pos(ri * mi, di);
        }
    }
    let part: i128 = (rem * (m as i128)) / (d as i128);
    let r: i128 = q * (m as i128) + part;
    proof {
        let (ai, mi, di, qi, ri) = (a as int, m as int, d as int, q as int, rem as int);
        let pi = part as int;
        let s = (ri * mi) % di;
        assert(ri * mi == pi * di + s && 0 <= s < di) by {
            vstd::arithmetic::div_mod::lemma_fundamental_div_mod(ri * mi, di);
        }
        assert(ai * mi == (qi * mi + pi) * di + s) by (nonlinear_arith)
            requires
                ai == qi * di + ri,
                ri * mi == pi * di + s,
        ;
        vstd::arithmetic::div_mod::lemma_fundamental_div_mod_converse(
            ai * mi,
            di,
            qi * mi + pi,
            s,
        );
        assert(ai * mi <= ai * di) by (nonlinear_arith)
            requires
                ai >= 0,
                0 <= mi <= di,
        ;
        assert(0 <= ai * mi) by (nonlinear_arith)
            requires
                ai >= 0,
                mi >= 0,
        ;
        vstd::arithmetic::div_mod::lemma_div_is_ordered(ai * mi, ai * di, di);
        vstd::arithmetic::div_mod::lemma_div_multiples_vanish(ai, di);
    }
    r
}

/// The platform fee on `amount` at `fee_bps` basis points, rounded down.
pub open spec fn fee_of(amount: int, fee_bps: int) -> int {
    amount * fee_bps / 10000
}

/// Split an escrowed `amount` into the contributor's payout and the platform
/// fee at `fee_bps` basis points (integer division truncates in favour of the
/// payee).
pub fn compute_fee_split(amount: i128, fee_bps: u32) -> (r: (i128, i128))
    requires
        amount >= 0,
        fee_bps <= BPS_DENOMINATOR,
    ensures
        r.1 == fee_of(amount as int, fee_bps as int),
        r.1 == (amount as int) * (fee_bps as int) / 10000,
        r.0 == amount - r.1,
        0 <= r.1 <= amount,
        fee_bps <= MAX_FEE_BPS ==> 10 * r.1 <= amount,
{
    let fee = mul_div(amount, fee_bps, BPS_DENOMINATOR);
    proof {
        crate::laws::lemma_fee_bounds(amount as int, fee_bps as int);
    }
    (amount - fee, fee)
}

/// The platform fee in basis points (0 before initialization).
pub fn get_fee_bps(state: &ChainBountyContract) -> (r: u32)
    ensures
        r == state@.fee_bps,
{
    state.fee_bps
}

} // verus!
