use vstd::prelude::*;

use vstd::arithmetic::div_mod::{
    lemma_div_is_ordered, lemma_div_multiples_vanish, lemma_div_pos_is_pos,
    lemma_fundamental_div_mod, lemma_mod_division_less_than_divisor,
};
use vstd::arithmetic::mul::{
    lemma_mul_inequality, lemma_mul_is_commutative, lemma_mul_is_distributive_add,
    lemma_mul_nonnegative,
};

use crate::error::ContractError;
use crate::state::{Royalty, RoyaltyV};

verus! {

/// The fixed-point unit of royalty rates: a rate of `RATE_ONE` is a share
/// of one hundred percent.
pub const RATE_ONE: u128 = 1_000_000_000_000_000_000;

/// The cut one schedule entry takes of `total`: `total * rate / RATE_ONE`,
/// truncated toward zero.
pub open spec fn cut_of(total: u128, rate: u128) -> int {
    (total * rate) / (RATE_ONE as int)
}

/// What is left of `total` after the first `k` schedule entries took their
/// cuts; negative when those cuts together exceed `total`.
pub open spec fn rem_after(total: u128, sch: Seq<RoyaltyV>, k: int) -> int
    decreases k,
{
    if k <= 0 {
        total as int
    } else {
        rem_after(total, sch, k - 1) - cut_of(total, sch[k - 1].royalty_rate)
    }
}

/// The sum of the first `k` rates of the schedule.
pub open spec fn rates_sum(sch: Seq<RoyaltyV>, k: int) -> int
    decreases k,
{
    if k <= 0 {
        0
    } else {
        rates_sum(sch, k - 1) + sch[k - 1].royalty_rate
    }
}

/// The whole schedule can be paid out of `total`: no running remainder ever
/// goes negative.
pub open spec fn can_distribute(total: u128, sch: Seq<RoyaltyV>) -> bool {
    rem_after(total, sch, sch.len() as int) >= 0
}

proof fn lemma_cut_nonneg(total: u128, rate: u128)
    ensures
        0 <= cut_of(total, rate),
{
    lemma_mul_nonnegative(total as int, rate as int);
    lemma_div_pos_is_pos(total * rate, RATE_ONE as int);
}

proof fn lemma_rem_nonincreasing(total: u128, sch: Seq<RoyaltyV>, k1: int, k2: int)
    requires
        0 <= k1 <= k2,
    ensures
        rem_after(total, sch, k2) <= rem_after(total, sch, k1),
    decreases k2 - k1,
{
    if k2 > k1 {
        lemma_rem_nonincreasing(total, sch, k1, k2 - 1);
        lemma_cut_nonneg(total, sch[k2 - 1].royalty_rate);
    }
}

/// A longer prefix of the schedule never has a smaller rate sum.
pub proof fn lemma_rates_sum_mono(sch: Seq<RoyaltyV>, k1: int, k2: int)
    requires
        0 <= k1 <= k2,
    ensures
        rates_sum(sch, k1) <= rates_sum(sch, k2),
    decreases k2 - k1,
{
    if k2 > k1 {
        lemma_rates_sum_mono(sch, k1, k2 - 1);
    }
}

proof fn lemma_rates_sum_nonneg(sch: Seq<RoyaltyV>, k: int)
    ensures
        0 <= rates_sum(sch, k),
    decreases k,
{
    if k > 0 {
        lemma_rates_sum_nonneg(sch, k - 1);
    }
}

/// Division by a common positive divisor is superadditive on non-negative
/// numerators.
proof fn lemma_div_superadd(x: int, y: int, d: int)
    requires
        0 <= x,
        0 <= y,
        0 < d,
    ensures
        x / d + y / d <= (x + y) / d,
{
    lemma_fundamental_div_mod(x, d);
    lemma_fundamental_div_mod(y, d);
    lemma_mod_division_less_than_divisor(x, d);
    lemma_mod_division_less_than_divisor(y, d);
    let s = x / d + y / d;
    assert(d * s == d * (x / d) + d * (y / d)) by {
        lemma_mul_is_distributive_add(d, x / d, y / d);
    }
    assert(d * s <= x + y);
    lemma_div_is_ordered(d * s, x + y, d);
    lemma_div_multiples_vanish(s, d);
}

proof fn lemma_cuts_prefix_bound(total: u128, sch: Seq<RoyaltyV>, k: int)
    requires
        0 <= k,
    ensures
        total as int - rem_after(total, sch, k) <= (total * rates_sum(sch, k)) / (
        RATE_ONE as int),
    decreases k,
{
    let t = total as int;
    let d = RATE_ONE as int;
    if k == 0 {
        assert(t * rates_sum(sch, 0) == 0) by {
            lemma_mul_is_commutative(t, 0);
        }
        lemma_div_pos_is_pos(0, d);
    } else {
        lemma_cuts_prefix_bound(total, sch, k - 1);
        let r = sch[k - 1].royalty_rate as int;
        lemma_rates_sum_nonneg(sch, k - 1);
        lemma_mul_nonnegative(t, rates_sum(sch, k - 1));
        lemma_mul_nonnegative(t, r);
        lemma_div_superadd(t * rates_sum(sch, k - 1), t * r, d);
        assert(t * rates_sum(sch, k - 1) + t * r == t * rates_sum(sch, k)) by {
            lemma_mul_is_distributive_add(t, rates_sum(sch, k - 1), r);
        }
    }
}

/// Law of the distributor: for any settlement amount and any royalty
/// schedule whose rates sum to at most one, the schedule never overdraws
/// the amount — every per-entry cut can be subtracted in order without the
/// remainder going negative, so the cuts plus the residual
/// (`rem_after` over the whole schedule) make up the amount exactly.
pub proof fn lemma_bounded_rates_distribute(total: u128, sch: Seq<RoyaltyV>)
    requires
        rates_sum(sch, sch.len() as int) <= RATE_ONE,
    ensures
        can_distribute(total, sch),
        0 <= rem_after(total, sch, sch.len() as int),
        (total as int - rem_after(total, sch, sch.len() as int)) + rem_after(
            total,
            sch,
            sch.len() as int,
        ) == total as int,
{
    let t = total as int;
    let d = RATE_ONE as int;
    let n = sch.len() as int;
    lemma_cuts_prefix_bound(total, sch, n);
    lemma_rates_sum_nonneg(sch, n);
    lemma_mul_inequality(rates_sum(sch, n), d, t);
    lemma_mul_is_commutative(t, rates_sum(sch, n));
    lemma_mul_is_commutative(t, d);
    lemma_div_is_ordered(t * rates_sum(sch, n), t * d, d);
    lemma_div_multiples_vanish(t, d);
}

/// One settlement payment: a royalty recipient and its cut.
#[derive(Debug)]
pub struct RoyaltyPayment {
    pub address: String,
    pub amount: u128,
}

/// Mathematical image of [`RoyaltyPayment`].
pub struct RoyaltyPaymentV {
    pub address: Seq<char>,
    pub amount: u128,
}

impl View for RoyaltyPayment {
    type V = RoyaltyPaymentV;

    open spec fn view(&self) -> RoyaltyPaymentV {
        RoyaltyPaymentV { address: self.address@, amount: self.amount }
    }
}

impl DeepView for RoyaltyPayment {
    type V = RoyaltyPaymentV;

    open spec fn deep_view(&self) -> RoyaltyPaymentV {
        self@
    }
}

/// Relies on `cosmwasm_std::Uint128::checked_multiply_ratio`: the quotient
/// `amount * numer / denom`, floored, computed on a 256-bit intermediate
/// product; `None` exactly when the quotient does not fit in 128 bits.
#[verifier::external_body]
fn mul_ratio_floor(amount: u128, numer: u128, denom: u128) -> (r: Option<u128>)
    requires
        denom != 0,
    ensures
        ({
            let q = (amount * numer) / (denom as int);
            if q <= u128::MAX {
                r == Some(q as u128)
            } else {
                r == None::<u128>
            }
        }),
{
    match cosmwasm_std::Uint128::new(amount).checked_multiply_ratio(numer, denom) {
        Ok(v) => Some(v.u128()),
        Err(_) => None,
    }
}

/// Splits `total` among the schedule's recipients plus a residual for the
/// seller: each entry receives its cut in schedule order, the residual
/// absorbs all truncation error, and the cuts plus the residual sum exactly
/// to `total`. Fails with `ArithmeticUnderflow` exactly when the cuts
/// together would exceed `total`.
pub fn distribute(total: u128, schedule: &Vec<Royalty>) -> (r: Result<
    (Vec<RoyaltyPayment>, u128),
    ContractError,
>)
    ensures
        r is Ok <==> can_distribute(total, schedule.deep_view()),
        r matches Ok(p) ==> {
            let sch = schedule.deep_view();
            &&& p.0.deep_view().len() == sch.len()
            &&& forall|i: int|
                0 <= i < sch.len() ==> p.0.deep_view()[i] == (RoyaltyPaymentV {
                    address: sch[i].address,
                    amount: cut_of(total, sch[i].royalty_rate) as u128,
                })
            &&& p.1 as int == rem_after(total, sch, sch.len() as int)
        },
        r is Err ==> r == Err::<(Vec<RoyaltyPayment>, u128), ContractError>(
            ContractError::ArithmeticUnderflow,
        ),
{
    let ghost sch = schedule.deep_view();
    let n = schedule.len();
    let mut cuts: Vec<RoyaltyPayment> = Vec::new();
    let mut remaining: u128 = total;
    let mut i: usize = 0;
    while i < n
        invariant
            sch == schedule.deep_view(),
            n == schedule@.len(),
            0 <= i <= n,
            remaining as int == rem_after(total, sch, i as int),
            cuts.deep_view().len() == i,
            forall|j: int|
                0 <= j < i ==> cuts.deep_view()[j] == (RoyaltyPaymentV {
                    address: sch[j].address,
                    amount: cut_of(total, sch[j].royalty_rate) as u128,
                }),
        decreases n - i,
    {
        let rate = schedule[i].royalty_rate;
        proof {
            assert(sch[i as int].royalty_rate == rate);
        }
        match mul_ratio_floor(total, rate, RATE_ONE) {
            None => {
                proof {
                    lemma_rem_nonincreasing(total, sch, i + 1, n as int);
                }
                return Err(ContractError::ArithmeticUnderflow);
            },
            Some(cut) => {
                if cut > remaining {
                    proof {
                        lemma_rem_nonincreasing(total, sch, i + 1, n as int);
                    }
                    return Err(ContractError::ArithmeticUnderflow);
                }
                remaining = remaining - cut;
                let ghost before = cuts.deep_view();
                cuts.push(
                    RoyaltyPayment { address: schedule[i].address.clone(), amount: cut },
                );
                proof {
                    assert(cuts.deep_view() =~= before.push(
                        RoyaltyPaymentV {
                            address: sch[i as int].address,
                            amount: cut_of(total, sch[i as int].royalty_rate) as u128,
                        },
                    ));
                }
                i += 1;
            },
        }
    }
    Ok((cuts, remaining))
}

} // verus!
