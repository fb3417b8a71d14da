//! Exponential backoff: the policy, the state it governs, and the closed form
//! of the delay after a run of failures.

use vstd::prelude::*;
use vstd::arithmetic::div_mod::{
    lemma_div_is_ordered, lemma_div_multiples_vanish, lemma_div_multiples_vanish_fancy,
    lemma_fundamental_div_mod, lemma_mod_bound,
};
use vstd::arithmetic::power::{lemma_pow0, lemma_pow_positive, pow};
use vstd::math::min;
use crate::numbers::lemma_whole_product;

verus! {

/// Immutable configuration of the delay between reconnection attempts.
///
/// Delays are whole milliseconds. The growth factor is the rational number
/// `multiplier_num / multiplier_den`; a product that is not whole is rounded up, so
/// that a delay never falls short of the exact product.
#[derive(Clone, Copy, Debug, PartialEq, Eq)]
pub struct BackoffPolicy {
    /// Delay that a session starts from, and returns to after every successful connection.
    pub initial_delay_ms: u64,
    /// Upper bound of every grown delay.
    pub max_delay_ms: u64,
    /// Numerator of the growth factor.
    pub multiplier_num: u32,
    /// Denominator of the growth factor; zero makes the policy invalid.
    pub multiplier_den: u32,
    /// Attempts allowed since the last successful connection; `None` is unbounded.
    pub max_attempts: Option<u32>,
}

/// Mutable half of the backoff: the current delay and the attempts made since the
/// last successful connection.
#[derive(Clone, Copy, Debug, PartialEq, Eq)]
pub struct BackoffState {
    pub delay_ms: u64,
    pub attempts: u64,
}

impl BackoffPolicy {
    /// A policy is well formed when its growth factor has a denominator.
    pub open spec fn wf(self) -> bool {
        self.multiplier_den > 0
    }

    /// The growth factor is above one.
    pub open spec fn grows(self) -> bool {
        self.multiplier_num > self.multiplier_den
    }

    /// The initial delay does not exceed the maximum and the factor is at least one,
    /// so that grown delays stay between the two.
    pub open spec fn ordered(self) -> bool {
        &&& self.initial_delay_ms <= self.max_delay_ms
        &&& self.multiplier_num >= self.multiplier_den
    }

    /// `min(max_delay, ceil(current * multiplier))`.
    pub open spec fn spec_next_delay(self, current: u64) -> u64 {
        let scaled = (current as int * self.multiplier_num as int + self.multiplier_den as int
            - 1) / (self.multiplier_den as int);
        if scaled < self.max_delay_ms as int {
            scaled as u64
        } else {
            self.max_delay_ms
        }
    }

    /// The delay reached from the initial one by `failures` growth steps.
    pub open spec fn delay_after(self, failures: nat) -> u64
        decreases failures,
    {
        if failures == 0 {
            self.initial_delay_ms
        } else {
            self.spec_next_delay(self.delay_after((failures - 1) as nat))
        }
    }

    /// Whether a further attempt is allowed once `attempts` have been made.
    pub open spec fn spec_allows(self, attempts: u64) -> bool {
        match self.max_attempts {
            Some(cap) => attempts < cap,
            None => true,
        }
    }

    pub fn is_valid(&self) -> (valid: bool)
        ensures
            valid == self.wf(),
    {
        self.multiplier_den > 0
    }

    /// Grows `current` by the factor and caps it at the maximum delay.
    pub fn next_delay(&self, current: u64) -> (next: u64)
        requires
            self.wf(),
        ensures
            next == self.spec_next_delay(current),
    {
        assert(current as int * self.multiplier_num as int <= u64::MAX as int * u32::MAX as int)
            by (nonlinear_arith);
        let product: u128 = (current as u128) * (self.multiplier_num as u128);
        let scaled: u128 = (product + (self.multiplier_den as u128 - 1)) / (
        self.multiplier_den as u128);
        if scaled < self.max_delay_ms as u128 {
            scaled as u64
        } else {
            self.max_delay_ms
        }
    }

    pub fn allows(&self, attempts: u64) -> (allowed: bool)
        ensures
            allowed == self.spec_allows(attempts),
    {
        match self.max_attempts {
            Some(cap) => attempts < cap as u64,
            None => true,
        }
    }
}

impl BackoffState {
    /// The state of a fresh or freshly reconnected session.
    pub open spec fn spec_initial(policy: BackoffPolicy) -> BackoffState {
        BackoffState { delay_ms: policy.initial_delay_ms, attempts: 0 }
    }

    /// The state after one more failed or ended attempt.
    pub open spec fn spec_failed(self, policy: BackoffPolicy) -> BackoffState {
        BackoffState {
            delay_ms: policy.spec_next_delay(self.delay_ms),
            attempts: if self.attempts < u64::MAX {
                (self.attempts + 1) as u64
            } else {
                self.attempts
            },
        }
    }

    /// The state after `failures` failed attempts in a row, counted from a reset.
    pub open spec fn after_failures(policy: BackoffPolicy, failures: nat) -> BackoffState
        decreases failures,
    {
        if failures == 0 {
            Self::spec_initial(policy)
        } else {
            Self::after_failures(policy, (failures - 1) as nat).spec_failed(policy)
        }
    }

    pub fn initial(policy: &BackoffPolicy) -> (state: BackoffState)
        ensures
            state == Self::spec_initial(*policy),
    {
        BackoffState { delay_ms: policy.initial_delay_ms, attempts: 0 }
    }

    /// Counts one more attempt (saturating) and grows the delay.
    pub fn failed(&self, policy: &BackoffPolicy) -> (state: BackoffState)
        requires
            policy.wf(),
        ensures
            state == self.spec_failed(*policy),
    {
        let attempts: u64 = if self.attempts < u64::MAX {
            self.attempts + 1
        } else {
            self.attempts
        };
        BackoffState { delay_ms: policy.next_delay(self.delay_ms), attempts }
    }
}

/// One growth step never lowers a delay that is within the cap, and never passes the cap.
pub proof fn lemma_step_bounds(policy: BackoffPolicy, current: u64)
    requires
        policy.wf(),
        policy.multiplier_num >= policy.multiplier_den,
        current <= policy.max_delay_ms,
    ensures
        current <= policy.spec_next_delay(current) <= policy.max_delay_ms,
{
    let num = policy.multiplier_num as int;
    let den = policy.multiplier_den as int;
    let c = current as int;
    assert(den * c <= c * num + den - 1) by (nonlinear_arith)
        requires
            0 <= c,
            0 < den <= num,
    ;
    lemma_div_is_ordered(den * c, c * num + den - 1, den);
    lemma_div_multiples_vanish(c, den);
}

/// Rounding up: the scaled delay times the denominator is at least the product, and
/// less than the product plus the denominator.
proof fn lemma_rounded_up(product: int, den: int)
    requires
        0 <= product,
        0 < den,
    ensures
        product <= ((product + den - 1) / den) * den < product + den,
{
    let scaled = (product + den - 1) / den;
    lemma_fundamental_div_mod(product + den - 1, den);
    lemma_mod_bound(product + den - 1, den);
    assert(den * scaled == scaled * den) by (nonlinear_arith);
}

/// A growth step that nothing is rounded in. The factor is `a / b` in some terms
/// (`num == common * a`, `den == common * b`); from the whole multiple `x * b`, or
/// from the cap where that multiple is at or above it, the next delay is
/// `min(max_delay, x * a)`.
proof fn lemma_exact_step(policy: BackoffPolicy, current: u64, x: int, common: int, a: int, b: int)
    requires
        policy.wf(),
        policy.multiplier_num >= policy.multiplier_den,
        common > 0,
        b > 0,
        policy.multiplier_num == common * a,
        policy.multiplier_den == common * b,
        0 <= x,
        current == x * b || (current == policy.max_delay_ms && policy.max_delay_ms <= x * b),
    ensures
        policy.spec_next_delay(current) == min(policy.max_delay_ms as int, x * a),
{
    let num = policy.multiplier_num as int;
    let den = policy.multiplier_den as int;
    let cap = policy.max_delay_ms as int;
    assert(b <= a) by (nonlinear_arith)
        requires
            common * b <= common * a,
            common > 0,
    ;
    if current == x * b {
        assert((x * b) * num == den * (x * a)) by (nonlinear_arith)
            requires
                num == common * a,
                den == common * b,
        ;
        lemma_div_multiples_vanish_fancy(x * a, den - 1, den);
    } else {
        lemma_step_bounds(policy, current);
        assert(x * b <= x * a) by (nonlinear_arith)
            requires
                0 <= x,
                b <= a,
        ;
    }
}

/// The delay after `step` of `failures` growth steps that nothing is rounded in: the
/// factor is `a / b` in some terms and the initial delay is `unit * b^failures`.
proof fn lemma_delay_partial(
    policy: BackoffPolicy,
    failures: nat,
    unit: int,
    common: int,
    a: int,
    b: int,
    step: nat,
)
    requires
        policy.wf(),
        policy.multiplier_num >= policy.multiplier_den,
        common > 0,
        a > 0,
        b > 0,
        unit >= 0,
        policy.multiplier_num == common * a,
        policy.multiplier_den == common * b,
        1 <= step <= failures,
        policy.initial_delay_ms == unit * pow(b, failures),
    ensures
        policy.delay_after(step) == min(
            policy.max_delay_ms as int,
            unit * pow(b, (failures - step) as nat) * pow(a, step),
        ),
    decreases step,
{
    let rest = (failures - step) as nat;
    let before = (step - 1) as nat;
    let x = unit * pow(b, rest) * pow(a, before);
    lemma_pow_positive(b, rest);
    lemma_pow_positive(a, before);
    assert(0 <= x) by (nonlinear_arith)
        requires
            x == unit * pow(b, rest) * pow(a, before),
            0 <= unit,
            0 < pow(b, rest),
            0 < pow(a, before),
    ;
    assert(pow(b, (rest + 1) as nat) == b * pow(b, rest)) by {
        reveal(pow);
    }
    assert(pow(a, step) == a * pow(a, before)) by {
        reveal(pow);
    }
    assert(unit * pow(b, (rest + 1) as nat) * pow(a, before) == x * b) by (nonlinear_arith)
        requires
            x == unit * pow(b, rest) * pow(a, before),
            pow(b, (rest + 1) as nat) == b * pow(b, rest),
    ;
    assert(unit * pow(b, rest) * pow(a, step) == x * a) by (nonlinear_arith)
        requires
            x == unit * pow(b, rest) * pow(a, before),
            pow(a, step) == a * pow(a, before),
    ;
    if step == 1 {
        lemma_pow0(a);
        assert(x * b == unit * pow(b, failures)) by (nonlinear_arith)
            requires
                unit * pow(b, (rest + 1) as nat) * pow(a, before) == x * b,
                pow(a, before) == 1,
                (rest + 1) as nat == failures,
        ;
    } else {
        lemma_delay_partial(policy, failures, unit, common, a, b, before);
    }
    lemma_exact_step(policy, policy.delay_after(before), x, common, a, b);
}

/// Closed form of the backoff delay. For a growth factor `m = num / den` above one,
/// wherever the exact product `d0 * m^k` is a whole number, the delay after `k >= 1`
/// failures in a row is `min(max_delay, d0 * m^k)`. The product is the whole number
/// `whole` where `d0 * num^k == whole * den^k`.
pub proof fn law_delay_closed_form(policy: BackoffPolicy, failures: nat, whole: nat)
    requires
        policy.wf(),
        policy.grows(),
        failures >= 1,
        policy.initial_delay_ms * pow(policy.multiplier_num as int, failures) == whole * pow(
            policy.multiplier_den as int,
            failures,
        ),
    ensures
        policy.delay_after(failures) == min(policy.max_delay_ms as int, whole as int),
{
    let terms = lemma_whole_product(
        policy.initial_delay_ms as nat,
        policy.multiplier_num as nat,
        policy.multiplier_den as nat,
        failures,
        whole,
    );
    lemma_delay_partial(policy, failures, terms.unit, terms.common, terms.a, terms.b, failures);
    lemma_pow0(terms.b);
    assert(terms.unit * 1 * pow(terms.a, failures) == terms.unit * pow(terms.a, failures))
        by (nonlinear_arith);
}

/// Whatever is rounded, the delay after `k` failures in a row is at least
/// `min(max_delay, d0 * m^k)` for a growth factor `m = num / den` of one or more:
/// `delay * den^k >= min(max_delay * den^k, d0 * num^k)`.
pub proof fn law_delay_reaches_product(policy: BackoffPolicy, failures: nat)
    requires
        policy.wf(),
        policy.multiplier_num >= policy.multiplier_den,
    ensures
        policy.delay_after(failures) * pow(policy.multiplier_den as int, failures) >= min(
            policy.max_delay_ms * pow(policy.multiplier_den as int, failures),
            policy.initial_delay_ms * pow(policy.multiplier_num as int, failures),
        ),
    decreases failures,
{
    let num = policy.multiplier_num as int;
    let den = policy.multiplier_den as int;
    let cap = policy.max_delay_ms as int;
    let d0 = policy.initial_delay_ms as int;
    if failures == 0 {
        lemma_pow0(num);
        lemma_pow0(den);
    } else {
        let before = (failures - 1) as nat;
        law_delay_reaches_product(policy, before);
        let prev = policy.delay_after(before) as int;
        let next = policy.delay_after(failures) as int;
        let dens = pow(den, before);
        let nums = pow(num, before);
        assert(pow(den, failures) == den * dens) by {
            reveal(pow);
        }
        assert(pow(num, failures) == num * nums) by {
            reveal(pow);
        }
        lemma_pow_positive(den, before);
        lemma_pow_positive(num, before);
        let scaled = (prev * num + den - 1) / den;
        assert(0 <= prev * num) by (nonlinear_arith)
            requires
                0 <= prev,
                0 <= num,
        ;
        lemma_rounded_up(prev * num, den);
        if next == cap {
            assert(next * (den * dens) == cap * (den * dens));
        } else {
            assert(next == scaled);
            let bound = min(cap * dens, d0 * nums);
            assert(prev * dens >= bound);
            assert(scaled * (den * dens) >= num * bound) by (nonlinear_arith)
                requires
                    scaled * den >= prev * num,
                    prev * dens >= bound,
                    0 < dens,
                    0 < num,
            ;
            if bound == cap * dens {
                assert(num * bound >= cap * (den * dens)) by (nonlinear_arith)
                    requires
                        bound == cap * dens,
                        num >= den,
                        0 <= cap,
                        0 < dens,
                ;
            } else {
                assert(num * bound == d0 * (num * nums)) by (nonlinear_arith)
                    requires
                        bound == d0 * nums,
                ;
            }
        }
    }
}

/// Where the exact product `d0 * m^k` is at or above the maximum delay, the delay
/// after `k >= 1` failures in a row is the maximum delay.
pub proof fn law_delay_capped(policy: BackoffPolicy, failures: nat)
    requires
        policy.wf(),
        policy.multiplier_num >= policy.multiplier_den,
        failures >= 1,
        policy.initial_delay_ms * pow(policy.multiplier_num as int, failures)
            >= policy.max_delay_ms * pow(policy.multiplier_den as int, failures),
    ensures
        policy.delay_after(failures) == policy.max_delay_ms,
{
    let den = policy.multiplier_den as int;
    let cap = policy.max_delay_ms as int;
    let delay = policy.delay_after(failures) as int;
    let dens = pow(den, failures);
    law_delay_reaches_product(policy, failures);
    lemma_pow_positive(den, failures);
    assert(delay <= cap);
    assert(delay >= cap) by (nonlinear_arith)
        requires
            delay * dens >= cap * dens,
            0 < dens,
    ;
}

/// A delay above zero grows with every failure until it is capped, for a growth
/// factor above one.
pub proof fn law_delay_grows(policy: BackoffPolicy, current: u64)
    requires
        policy.wf(),
        policy.grows(),
        0 < current < policy.max_delay_ms,
    ensures
        current < policy.spec_next_delay(current),
{
    let num = policy.multiplier_num as int;
    let den = policy.multiplier_den as int;
    let c = current as int;
    assert(0 <= c * num) by (nonlinear_arith)
        requires
            0 <= c,
            0 <= num,
    ;
    lemma_rounded_up(c * num, den);
    let scaled = (c * num + den - 1) / den;
    assert(scaled > c) by (nonlinear_arith)
        requires
            scaled * den >= c * num,
            num > den,
            den > 0,
            c > 0,
    ;
}

/// With an initial delay at or below the maximum and a factor of at least one, the
/// delay after any number of failures lies between the two, and a further failure
/// never lowers it.
pub proof fn law_delay_bounded(policy: BackoffPolicy, failures: nat)
    requires
        policy.wf(),
        policy.ordered(),
    ensures
        policy.initial_delay_ms <= policy.delay_after(failures) <= policy.max_delay_ms,
        policy.delay_after(failures) <= policy.delay_after(failures + 1),
    decreases failures,
{
    if failures > 0 {
        law_delay_bounded(policy, (failures - 1) as nat);
    }
    lemma_step_bounds(policy, policy.delay_after(failures));
}

/// After `k` failed attempts in a row the state holds the delay `delay_after(k)` and
/// has counted `k` attempts, as far as the counter reaches.
pub proof fn law_state_after_failures(policy: BackoffPolicy, failures: nat)
    ensures
        BackoffState::after_failures(policy, failures).delay_ms == policy.delay_after(failures),
        BackoffState::after_failures(policy, failures).attempts == min(
            failures as int,
            u64::MAX as int,
        ),
    decreases failures,
{
    if failures > 0 {
        law_state_after_failures(policy, (failures - 1) as nat);
    }
}

} // verus!
