//! The scoring policy: what a line clear is worth, and how fast pieces fall
//! at a given score.

use vstd::prelude::*;
use vstd::arithmetic::div_mod::{
    lemma_div_is_ordered, lemma_div_multiples_vanish_quotient, lemma_fundamental_div_mod_converse,
};

verus! {

/// Points between one speed step and the next.
pub const LEVEL_SPAN: u64 = 1000;

/// `base` to the power of `exp`.
pub open spec fn power(base: int, exp: nat) -> int
    decreases exp,
{
    if exp == 0 {
        1
    } else {
        base * power(base, (exp - 1) as nat)
    }
}

/// The number whose digits in `base`, least significant first, are `digits`.
spec fn digits_value(digits: Seq<u32>, base: int) -> int
    decreases digits.len(),
{
    if digits.len() == 0 {
        0
    } else {
        digits_value(digits.drop_last(), base) + digits.last() * power(
            base,
            (digits.len() - 1) as nat,
        )
    }
}

/// Every digit is below `base`.
spec fn digits_below(digits: Seq<u32>, base: int) -> bool {
    forall|i: int| 0 <= i < digits.len() ==> (#[trigger] digits[i]) < base
}

/// A power of a positive base is positive.
proof fn lemma_power_positive(base: int, exp: nat)
    requires
        base > 0,
    ensures
        power(base, exp) > 0,
    decreases exp,
{
    if exp > 0 {
        lemma_power_positive(base, (exp - 1) as nat);
        assert(base * power(base, (exp - 1) as nat) > 0) by (nonlinear_arith)
            requires
                base > 0,
                power(base, (exp - 1) as nat) > 0,
        ;
    }
}

/// A power of a natural number is a natural number.
proof fn lemma_power_nonnegative(base: int, exp: nat)
    requires
        base >= 0,
    ensures
        power(base, exp) >= 0,
    decreases exp,
{
    if exp > 0 {
        lemma_power_nonnegative(base, (exp - 1) as nat);
    }
}

/// Digits below `base` write a number below `base` to the power of their
/// count.
proof fn lemma_digits_bound(digits: Seq<u32>, base: int)
    requires
        base >= 1,
        digits_below(digits, base),
    ensures
        0 <= digits_value(digits, base) < power(base, digits.len()),
    decreases digits.len(),
{
    if digits.len() > 0 {
        let rest = digits.drop_last();
        let top = power(base, (digits.len() - 1) as nat);
        lemma_digits_bound(rest, base);
        let last = digits.last() as int;
        assert(0 <= last * top && last * top + top <= base * top) by (nonlinear_arith)
            requires
                0 <= last < base,
                top > 0,
        ;
    }
}

/// A quantity that has shrunk below one stays below one.
proof fn lemma_stays_below_one(amount: int, num: int, den: int, from: nat, to: nat)
    requires
        0 <= amount,
        0 <= num <= den,
        0 < den,
        from <= to,
        amount * power(num, from) < power(den, from),
    ensures
        0 <= amount * power(num, to) < power(den, to),
    decreases to - from,
{
    lemma_power_nonnegative(num, from);
    if from < to {
        let before = (to - 1) as nat;
        lemma_stays_below_one(amount, num, den, from, before);
        let n = amount * power(num, before);
        let d = power(den, before);
        assert(amount * (num * power(num, before)) == num * n) by (nonlinear_arith)
            requires
                n == amount * power(num, before),
        ;
        assert(0 <= num * n && num * n < den * d) by (nonlinear_arith)
            requires
                0 <= n < d,
                0 <= num <= den,
                0 < den,
        ;
    }
}

/// What a line clear is worth and how the fall interval shrinks with the
/// score.
#[derive(Clone, Copy, Debug)]
pub struct ScoringPolicy {
    /// Points for each cleared row.
    pub score_per_line: u32,
    /// Fall interval at score zero, in milliseconds.
    pub base_interval_ms: u64,
    /// Numerator of the factor that each speed step applies to the interval.
    pub speed_numerator: u32,
    /// Denominator of that factor.
    pub speed_denominator: u32,
}

impl ScoringPolicy {
    /// The factor is a fraction that does not exceed one.
    pub open spec fn valid(self) -> bool {
        0 < self.speed_denominator && self.speed_numerator <= self.speed_denominator
    }

    /// Points for clearing `lines` rows at once.
    pub open spec fn spec_score_delta(self, lines: int) -> int {
        lines * self.score_per_line
    }

    /// Number of speed steps taken at `score`.
    pub open spec fn level(score: int) -> nat {
        (score / (LEVEL_SPAN as int)) as nat
    }

    /// The base interval after `steps` speed steps, in whole milliseconds:
    /// the base times the factor to the power of `steps`, rounded down.
    pub open spec fn interval_after(self, steps: nat) -> int {
        (self.base_interval_ms * power(self.speed_numerator as int, steps)) / power(
            self.speed_denominator as int,
            steps,
        )
    }

    /// Fall interval at `score`, in whole milliseconds.
    pub open spec fn spec_fall_interval(self, score: int) -> int {
        self.interval_after(Self::level(score))
    }

    /// The standard policy: 100 points a row; one second at the start,
    /// nine tenths of the interval with every speed step.
    pub open spec fn standard_spec() -> ScoringPolicy {
        ScoringPolicy {
            score_per_line: 100,
            base_interval_ms: 1000,
            speed_numerator: 9,
            speed_denominator: 10,
        }
    }

    /// 100 points a row; one second at the start, nine tenths of the
    /// interval with every speed step.
    pub fn standard() -> (policy: ScoringPolicy)
        ensures
            policy.valid(),
            policy == Self::standard_spec(),
    {
        ScoringPolicy {
            score_per_line: 100,
            base_interval_ms: 1000,
            speed_numerator: 9,
            speed_denominator: 10,
        }
    }

    /// Whether the speed factor is a fraction that does not exceed one.
    pub fn is_valid(&self) -> (ok: bool)
        ensures
            ok == self.valid(),
    {
        0 < self.speed_denominator && self.speed_numerator <= self.speed_denominator
    }

    /// Points for clearing `lines_cleared` rows at once.
    pub fn score_delta(&self, lines_cleared: u32) -> (delta: u64)
        ensures
            delta == self.spec_score_delta(lines_cleared as int),
            delta == lines_cleared * self.score_per_line,
    {
        let lines = lines_cleared as u64;
        let each = self.score_per_line as u64;
        assert(lines * each <= 0xffff_ffff * 0xffff_ffff) by (nonlinear_arith)
            requires
                lines <= 0xffff_ffff,
                each <= 0xffff_ffff,
        ;
        lines * each
    }

    /// Multiplies the number that `digits` write in `base` by `factor`, in
    /// place, and returns what is carried out of the top digit.
    fn scale_digits(digits: &mut Vec<u32>, factor: u32, base: u32) -> (carry: u32)
        requires
            1 <= base,
            factor <= base,
            digits_below(old(digits)@, base as int),
        ensures
            final(digits)@.len() == old(digits)@.len(),
            digits_below(final(digits)@, base as int),
            carry <= factor,
            digits_value(final(digits)@, base as int) + carry * power(
                base as int,
                old(digits)@.len(),
            ) == factor * digits_value(old(digits)@, base as int),
    {
        let ghost before = digits@;
        let ghost b = base as int;
        let len = digits.len();
        let mut carry: u32 = 0;
        let mut i: usize = 0;
        while i < len
            invariant
                1 <= base,
                b == base,
                factor <= base,
                len == before.len(),
                digits@.len() == len,
                i <= len,
                carry <= factor,
                digits_below(before, b),
                digits_below(digits@, b),
                forall|j: int| i <= j < len ==> digits@[j] == before[j],
                digits_value(digits@.take(i as int), b) + carry * power(b, i as nat) == factor
                    * digits_value(before.take(i as int), b),
            decreases len - i,
        {
            let ghost low = digits@.take(i as int);
            let ghost low_before = before.take(i as int);
            let digit = digits[i];
            assert(digit as u64 * factor as u64 + carry as u64 <= base as u64 * factor as u64)
                by (nonlinear_arith)
                requires
                    digit < base,
                    carry <= factor,
            ;
            assert(base as u64 * factor as u64 <= 0xffff_ffff * 0xffff_ffff) by (nonlinear_arith)
                requires
                    base <= 0xffff_ffff,
                    factor <= 0xffff_ffff,
            ;
            let t: u64 = digit as u64 * factor as u64 + carry as u64;
            let kept: u64 = t % (base as u64);
            let next: u64 = t / (base as u64);
            assert(t == b * next + kept && next <= factor) by (nonlinear_arith)
                requires
                    t <= b * factor,
                    b >= 1,
                    kept == t % (b as u64),
                    next == t / (b as u64),
                    b == base,
            ;
            digits[i] = kept as u32;
            proof {
                let p = power(b, i as nat);
                assert(digits@.take(i + 1).drop_last() =~= low);
                assert(before.take(i + 1).drop_last() =~= low_before);
                let v = digits_value(low, b);
                let w = digits_value(low_before, b);
                assert((b * next + kept) * p == next * (b * p) + kept * p) by (nonlinear_arith);
                assert((digit * factor + carry) * p == factor * (digit * p) + carry * p)
                    by (nonlinear_arith);
                assert(factor * (w + digit * p) == factor * w + factor * (digit * p))
                    by (nonlinear_arith);
                assert(v + kept * p + next * (b * p) == factor * (w + digit * p));
            }
            carry = next as u32;
            i += 1;
        }
        assert(digits@.take(len as int) =~= digits@);
        assert(before.take(len as int) =~= before);
        carry
    }

    /// Fall interval at `score`, in whole milliseconds: the base interval
    /// times the speed factor once for every full `LEVEL_SPAN` points,
    /// rounded down.  There is no floor but zero.
    ///
    /// The product is kept exact from step to step, as a whole part and the
    /// digits of the fraction in the base of the factor's denominator, so
    /// that rounding happens once, at the end.  The work stops as soon as
    /// the whole part is zero: from there on the interval stays zero.
    pub fn fall_interval(&self, score: u64) -> (ms: u64)
        requires
            self.valid(),
        ensures
            ms == self.spec_fall_interval(score as int),
    {
        let steps: u64 = score / LEVEL_SPAN;
        let num = self.speed_numerator;
        let den = self.speed_denominator;
        let ghost amount = self.base_interval_ms as int;
        let ghost n = num as int;
        let ghost d = den as int;
        if num == den {
            proof {
                let p = power(d, steps as nat);
                lemma_power_positive(d, steps as nat);
                lemma_fundamental_div_mod_converse(amount * p, p, amount, 0);
            }
            return self.base_interval_ms;
        }
        let mut whole: u64 = self.base_interval_ms;
        let mut fraction: Vec<u32> = Vec::new();
        let mut done: u64 = 0;
        while done < steps && whole > 0
            invariant
                n == num,
                d == den,
                amount == self.base_interval_ms,
                n < d,
                done <= steps,
                fraction@.len() == done,
                digits_below(fraction@, d),
                whole * power(d, done as nat) + digits_value(fraction@, d) == amount * power(
                    n,
                    done as nat,
                ),
            decreases steps - done,
        {
            let ghost low_before = digits_value(fraction@, d);
            let ghost p = power(d, done as nat);
            let ghost q = power(n, done as nat);
            let carry = Self::scale_digits(&mut fraction, num, den);
            let ghost low = digits_value(fraction@, d);
            let ghost scaled = fraction@;
            assert(num as u128 * whole as u128 + carry as u128 <= 0xffff_ffff
                * 0xffff_ffff_ffff_ffff + 0xffff_ffff) by (nonlinear_arith)
                requires
                    num <= 0xffff_ffff,
                    whole <= 0xffff_ffff_ffff_ffff,
                    carry <= 0xffff_ffff,
            ;
            let t: u128 = num as u128 * whole as u128 + carry as u128;
            let digit: u128 = t % (den as u128);
            let next: u128 = t / (den as u128);
            assert(t == d * next + digit && next <= whole) by (nonlinear_arith)
                requires
                    t == n * whole + carry,
                    carry <= n,
                    0 <= n < d,
                    digit == t % (d as u128),
                    next == t / (d as u128),
                    d == den,
            ;
            fraction.push(digit as u32);
            proof {
                assert(fraction@.drop_last() =~= scaled);
                assert((n * whole + carry) * p == n * (whole * p) + carry * p)
                    by (nonlinear_arith);
                assert((d * next + digit) * p == next * (d * p) + digit * p) by (nonlinear_arith);
                assert(n * (whole * p + low_before) == n * (whole * p) + n * low_before)
                    by (nonlinear_arith);
                assert(n * (amount * q) == amount * (n * q)) by (nonlinear_arith);
                assert(next * (d * p) + (low + digit * p) == amount * (n * q));
            }
            whole = next as u64;
            done += 1;
        }
        proof {
            let top = power(d, steps as nat);
            let all = amount * power(n, steps as nat);
            lemma_digits_bound(fraction@, d);
            if done == steps {
                lemma_fundamental_div_mod_converse(all, top, whole as int, digits_value(fraction@, d));
            } else {
                lemma_stays_below_one(amount, n, d, done as nat, steps as nat);
                lemma_fundamental_div_mod_converse(all, top, 0, all);
            }
        }
        whole
    }
}

/// One more speed step never lengthens the interval.
pub proof fn lemma_interval_step(policy: ScoringPolicy, steps: nat)
    requires
        policy.valid(),
    ensures
        0 <= policy.interval_after(steps + 1) <= policy.interval_after(steps),
{
    let amount = policy.base_interval_ms as int;
    let n = policy.speed_numerator as int;
    let d = policy.speed_denominator as int;
    let p = power(d, steps);
    let q = amount * power(n, steps);
    lemma_power_positive(d, steps);
    lemma_power_positive(d, steps + 1);
    lemma_power_nonnegative(n, steps);
    assert(0 <= q && amount * (n * power(n, steps)) == n * q && 0 <= n * q <= d * q)
        by (nonlinear_arith)
        requires
            q == amount * power(n, steps),
            0 <= amount,
            0 <= power(n, steps),
            0 <= n <= d,
    ;
    lemma_div_is_ordered(n * q, d * q, d * p);
    lemma_div_multiples_vanish_quotient(d, q, p);
}

/// The fall interval never grows with the score: of two scores, the higher
/// has the shorter or the same interval.
pub proof fn law_fall_interval_non_increasing(policy: ScoringPolicy, lower: int, higher: int)
    requires
        policy.valid(),
        0 <= lower <= higher,
    ensures
        policy.spec_fall_interval(higher) <= policy.spec_fall_interval(lower),
{
    let from = ScoringPolicy::level(lower);
    let to = ScoringPolicy::level(higher);
    lemma_interval_chain(policy, from, to);
}

/// More speed steps never lengthen the interval.
pub proof fn lemma_interval_chain(policy: ScoringPolicy, from: nat, to: nat)
    requires
        policy.valid(),
        from <= to,
    ensures
        policy.interval_after(to) <= policy.interval_after(from),
    decreases to - from,
{
    if from < to {
        lemma_interval_chain(policy, from, (to - 1) as nat);
        lemma_interval_step(policy, (to - 1) as nat);
    }
}

/// The interval never exceeds the base interval and never falls below zero.
pub proof fn lemma_interval_bounds(policy: ScoringPolicy, steps: nat)
    requires
        policy.valid(),
    ensures
        0 <= policy.interval_after(steps) <= policy.base_interval_ms,
        policy.interval_after(0) == policy.base_interval_ms,
{
    lemma_interval_chain(policy, 0, steps);
    if steps > 0 {
        lemma_interval_step(policy, (steps - 1) as nat);
    }
}

/// Clearing nothing scores nothing, and the points grow with the rows.
pub proof fn law_score_delta(policy: ScoringPolicy, fewer: int, more: int)
    requires
        0 <= fewer <= more,
    ensures
        policy.spec_score_delta(0) == 0,
        policy.spec_score_delta(fewer) <= policy.spec_score_delta(more),
{
    assert(fewer * policy.score_per_line <= more * policy.score_per_line) by (nonlinear_arith)
        requires
            0 <= fewer <= more,
            0 <= policy.score_per_line,
    ;
}

} // verus!
