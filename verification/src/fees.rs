//! The split of a payment between the platform and the instructor.

use vstd::prelude::*;
use crate::model::{div100, fee_split};
use crate::types::Error;

verus! {

/// Splits `amount` into the platform's share, `amount * pct / 100` rounded
/// toward zero, and the instructor's share, what remains.
pub fn split_fee(amount: i128, pct: u32) -> (r: Result<(i128, i128), Error>)
    ensures
        r == fee_split(amount, pct),
{
    match amount.checked_mul(pct as i128) {
        None => Err(Error::FeeOverflow),
        Some(v) => {
            let platform: i128 = if v >= 0 {
                v / 100
            } else {
                let w: i128 = -(v + 1);
                let carry: i128 = if w % 100 == 99 { 1 } else { 0 };
                -(w / 100 + carry)
            };
            assert(platform == div100(v as int)) by {
                if v < 0 {
                    let w = -(v + 1);
                    assert((w + 1) / 100 == w / 100 + (if w % 100 == 99 { 1int } else { 0int })) by (nonlinear_arith)
                        requires w >= 0;
                }
            }
            match amount.checked_sub(platform) {
                None => Err(Error::FeeOverflow),
                Some(rest) => Ok((platform, rest)),
            }
        },
    }
}

/// Payment conservation: for an amount of at least 0 and a percentage of at
/// most 100 the split is refused exactly when `amount * pct` exceeds the
/// 128-bit range; otherwise the two shares add up to the amount, both lie
/// between 0 and the amount, and the platform's share is `amount * pct / 100`
/// rounded down.
pub proof fn lemma_fee_split_conserves(amount: i128, pct: u32)
    requires
        amount >= 0,
        pct <= 100,
    ensures
        fee_split(amount, pct) is Ok <==> amount * pct <= i128::MAX,
        fee_split(amount, pct) matches Ok((p, i)) ==> {
            &&& p + i == amount
            &&& 0 <= p <= amount
            &&& 0 <= i <= amount
            &&& p == (amount * pct) / 100
        },
{
    assert(0 <= amount * pct <= amount * 100) by (nonlinear_arith)
        requires
            amount >= 0,
            pct <= 100,
    ;
    assert((amount * pct) / 100 <= amount) by (nonlinear_arith)
        requires
            0 <= amount * pct <= amount * 100,
    ;
}

} // verus!
