use vstd::prelude::*;

verus! {

/// The most control points one cycle of the stochastic waveform may have.
pub const MAX_NUM_CPS: usize = 12;

/// The distribution selector that the synthesizer uses for amplitude steps (logistic).
pub const AMP_DIST: i32 = 2;

/// The distribution selector that the synthesizer uses for duration steps (hyperbolic
/// cosine); the pitch compensation is measured for this one.
pub const DUR_DIST: i32 = 3;

/// The probability distributions that drive the random walks of the waveform.
#[derive(Clone, Copy, Debug, PartialEq, Eq, Structural)]
pub enum Distribution {
    Linear,
    Cauchy,
    Logistic,
    HyperbolicCosine,
    Arcsine,
    Exponential,
    Sinus,
}

/// The distribution that selector `which` names; unknown selectors are linear.
pub open spec fn distribution_of(which: i32) -> Distribution {
    if which == 1 {
        Distribution::Cauchy
    } else if which == 2 {
        Distribution::Logistic
    } else if which == 3 {
        Distribution::HyperbolicCosine
    } else if which == 4 {
        Distribution::Arcsine
    } else if which == 5 {
        Distribution::Exponential
    } else if which == 6 {
        Distribution::Sinus
    } else {
        Distribution::Linear
    }
}

impl Distribution {
    /// The distribution that selector `which` names.
    pub fn from_selector(which: i32) -> (d: Distribution)
        ensures
            d == distribution_of(which),
    {
        match which {
            1 => Distribution::Cauchy,
            2 => Distribution::Logistic,
            3 => Distribution::HyperbolicCosine,
            4 => Distribution::Arcsine,
            5 => Distribution::Exponential,
            6 => Distribution::Sinus,
            _ => Distribution::Linear,
        }
    }
}

/// The number of control points actually used for a requested `num_cps`: clamped to
/// `1..=MAX_NUM_CPS`, so that out-of-range modulation cannot break the waveform.
pub open spec fn spec_control_point_count(num_cps: int) -> int {
    if num_cps < 1 {
        1
    } else if num_cps > MAX_NUM_CPS {
        MAX_NUM_CPS as int
    } else {
        num_cps
    }
}

/// The number of control points used for a requested `num_cps`.
pub fn control_point_count(num_cps: usize) -> (n: usize)
    ensures
        n == spec_control_point_count(num_cps as int),
        1 <= n <= MAX_NUM_CPS,
{
    if num_cps < 1 {
        1
    } else if num_cps > MAX_NUM_CPS {
        MAX_NUM_CPS
    } else {
        num_cps
    }
}

/// The control point that follows `index` when `num_cps` are requested.
pub fn next_control_point(index: usize, num_cps: usize) -> (next: usize)
    requires
        index < usize::MAX,
    ensures
        next == (index + 1) % spec_control_point_count(num_cps as int),
        next < spec_control_point_count(num_cps as int) <= MAX_NUM_CPS,
{
    let num = control_point_count(num_cps);
    (index + 1) % num
}

/// The control point reached from `index` after `steps` steps with `count` points.
pub open spec fn control_point_after(index: int, count: int, steps: nat) -> int
    decreases steps,
{
    if steps == 0 {
        index
    } else {
        (control_point_after(index, count, (steps - 1) as nat) + 1) % count
    }
}

proof fn lemma_control_point_after(index: int, count: int, steps: nat)
    requires
        0 <= index < count,
    ensures
        control_point_after(index, count, steps) == (index + steps) % count,
    decreases steps,
{
    if steps > 0 {
        lemma_control_point_after(index, count, (steps - 1) as nat);
        let x = index + steps - 1;
        assert(control_point_after(index, count, steps) == (x % count + 1) % count);
        if count == 1 {
            assert((x + 1) % 1 == 0) by (nonlinear_arith);
            assert(((x % 1) + 1) % 1 == 0) by (nonlinear_arith);
        } else {
            vstd::arithmetic::div_mod::lemma_small_mod(1, count as nat);
            vstd::arithmetic::div_mod::lemma_add_mod_noop(x, 1, count);
            assert((x % count + 1int % count) % count == (x + 1) % count);
        }
        assert(x + 1 == index + steps);
    } else {
        vstd::arithmetic::div_mod::lemma_small_mod(index as nat, count as nat);
    }
}

/// The waveform visits its control points in turn: from any point, `count` steps
/// lead back to it, and no fewer steps do.
pub proof fn law_control_points_cycle(index: int, count: int, steps: nat)
    requires
        0 <= index < count,
        0 < steps <= count,
    ensures
        control_point_after(index, count, steps) == index <==> steps == count,
{
    lemma_control_point_after(index, count, steps);
    if steps == count {
        vstd::arithmetic::div_mod::lemma_mod_add_multiples_vanish(index, count);
        vstd::arithmetic::div_mod::lemma_small_mod(index as nat, count as nat);
    } else {
        if index + steps < count {
            vstd::arithmetic::div_mod::lemma_small_mod((index + steps) as nat, count as nat);
        } else {
            vstd::arithmetic::div_mod::lemma_mod_sub_multiples_vanish(index + steps, count);
            vstd::arithmetic::div_mod::lemma_small_mod((index + steps - count) as nat, count as nat);
        }
    }
}

} // verus!
