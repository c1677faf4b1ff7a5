//! The size of one installment.

use vstd::prelude::*;

verus! {

/// The number of seconds in a year of 365 days.
pub const SECONDS_IN_YEAR: u64 = 31_536_000;

/// The quotient of `a` by a positive `b`, rounded towards zero.
pub open spec fn trunc_div(a: int, b: int) -> int {
    if a >= 0 {
        a / b
    } else {
        -((-a) / b)
    }
}

/// How many whole intervals of `step` seconds fit in a year.
pub open spec fn periods_per_year(step: u64) -> int {
    SECONDS_IN_YEAR as int / step as int
}

/// The installment for a yearly `amount` drawn every `step` seconds: the
/// amount divided by the number of whole intervals in a year, rounded towards
/// zero. It has a meaning only where at least one interval fits in a year.
pub open spec fn spec_period_amount(amount: i128, step: u64) -> int {
    trunc_div(amount as int, periods_per_year(step))
}

/// Terms on which a schedule can run: the step is positive, at least one
/// interval fits in a year, and the installment is not zero.
pub open spec fn spec_terms_valid(amount: i128, step: u64) -> bool {
    &&& 0 < step <= SECONDS_IN_YEAR
    &&& spec_period_amount(amount, step) != 0
}

/// At least one interval fits in a year exactly when the step is no longer
/// than a year, and never more intervals than the year has seconds.
pub proof fn lemma_periods_positive(step: u64)
    requires
        step > 0,
    ensures
        periods_per_year(step) >= 1 <==> step <= SECONDS_IN_YEAR,
        0 <= periods_per_year(step) <= SECONDS_IN_YEAR,
{
    let y = SECONDS_IN_YEAR as int;
    let s = step as int;
    assert(s <= y ==> y / s >= 1) by (nonlinear_arith)
        requires
            s > 0,
            y > 0,
    ;
    assert(s > y ==> y / s == 0) by (nonlinear_arith)
        requires
            s > 0,
            y > 0,
    ;
    assert(0 <= y / s <= y) by (nonlinear_arith)
        requires
            s > 0,
            y > 0,
    ;
}

/// How many whole intervals of `step` seconds fit in a year.
pub fn periods_in_year(step: u64) -> (n: u64)
    requires
        step > 0,
    ensures
        n == periods_per_year(step),
        n >= 1 <==> step <= SECONDS_IN_YEAR,
        n <= SECONDS_IN_YEAR,
{
    proof {
        lemma_periods_positive(step);
    }
    SECONDS_IN_YEAR / step
}

/// The installment for a yearly `amount` drawn every `step` seconds.
pub fn period_amount(amount: i128, step: u64) -> (p: i128)
    requires
        0 < step <= SECONDS_IN_YEAR,
    ensures
        p == spec_period_amount(amount, step),
{
    let periods: u64 = periods_in_year(step);
    amount / (periods as i128)
}

/// Whether a schedule can run on these terms.
pub fn terms_valid(amount: i128, step: u64) -> (ok: bool)
    ensures
        ok == spec_terms_valid(amount, step),
{
    if step == 0 || step > SECONDS_IN_YEAR {
        false
    } else {
        period_amount(amount, step) != 0
    }
}

/// The installment never exceeds the yearly amount in size, and has its sign.
pub proof fn lemma_period_amount_bounds(amount: i128, step: u64)
    requires
        0 < step <= SECONDS_IN_YEAR,
    ensures
        amount >= 0 ==> 0 <= spec_period_amount(amount, step) <= amount,
        amount <= 0 ==> amount <= spec_period_amount(amount, step) <= 0,
{
    let n = periods_per_year(step);
    lemma_periods_positive(step);
    let a = amount as int;
    if a >= 0 {
        assert(0 <= a / n <= a) by (nonlinear_arith)
            requires
                a >= 0,
                n >= 1,
        ;
    } else {
        assert(0 <= (-a) / n <= -a) by (nonlinear_arith)
            requires
                -a >= 0,
                n >= 1,
        ;
    }
}

} // verus!
