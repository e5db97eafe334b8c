//! The stability validator: an energy bound on the belief state, and an
//! optional bound on its variance.

use vstd::prelude::*;
use crate::double::{Double, ONE_BITS};

verus! {

/// The pattern of `0.001`, the variance that strict entropy mode tolerates.
pub const ENTROPY_THRESHOLD_BITS: u64 = 0x3F50_624D_D2F1_A9FC;

/// The sum of the squares of the elements, added in order from the left,
/// starting from positive zero.
pub open spec fn sum_of_squares(s: Seq<Double>) -> Double
    decreases s.len(),
{
    if s.len() == 0 {
        Double { bits: 0 }
    } else {
        sum_of_squares(s.drop_last()).plus_spec(s.last().times_spec(s.last()))
    }
}

/// The sum of the elements, added in order from the left, starting from
/// positive zero.
pub open spec fn total(s: Seq<Double>) -> Double
    decreases s.len(),
{
    if s.len() == 0 {
        Double { bits: 0 }
    } else {
        total(s.drop_last()).plus_spec(s.last())
    }
}

/// The sum of the squared distances of the elements from `center`.
pub open spec fn squared_deviations(s: Seq<Double>, center: Double) -> Double
    decreases s.len(),
{
    if s.len() == 0 {
        Double { bits: 0 }
    } else {
        let delta = s.last().minus_spec(center);
        squared_deviations(s.drop_last(), center).plus_spec(delta.times_spec(delta))
    }
}

/// The arithmetic mean; NaN for no elements.
pub open spec fn mean(s: Seq<Double>) -> Double {
    total(s).over_spec(Double::from_count_spec(s.len() as u64))
}

/// The population variance: the mean squared distance from the mean.
pub open spec fn population_variance(s: Seq<Double>) -> Double {
    squared_deviations(s, mean(s)).over_spec(Double::from_count_spec(s.len() as u64))
}

/// Why a state was found unstable.
#[derive(Clone, Copy, Debug, PartialEq, Eq, Structural)]
pub enum StabilityError {
    /// The energy exceeds one.
    Unstable { energy: Double },
    /// Strict entropy mode only: the variance exceeds the threshold.
    EntropyViolation { variance: Double, threshold: Double },
}

#[derive(Clone, Copy, Debug)]
pub struct LyapunovValidator {
    energy_threshold: Double,
    strict_entropy_mode: bool,
}

/// Computes `sum_of_squares`.
pub fn energy_of(state: &Vec<Double>) -> (energy: Double)
    ensures
        energy == sum_of_squares(state@),
{
    let mut acc: Double = Double::zero();
    let mut i: usize = 0;
    while i < state.len()
        invariant
            i <= state.len(),
            acc == sum_of_squares(state@.take(i as int)),
        decreases state.len() - i,
    {
        let x: Double = state[i];
        proof {
            let next = state@.take(i + 1);
            assert(next.drop_last() =~= state@.take(i as int));
            assert(next.last() == x);
        }
        acc = acc.plus(x.times(x));
        i = i + 1;
    }
    proof {
        assert(state@.take(i as int) =~= state@);
    }
    acc
}

/// Computes `population_variance`.
pub fn variance_of(state: &Vec<Double>) -> (variance: Double)
    ensures
        variance == population_variance(state@),
{
    let count: Double = Double::from_count(state.len() as u64);
    let mut sum: Double = Double::zero();
    let mut i: usize = 0;
    while i < state.len()
        invariant
            i <= state.len(),
            sum == total(state@.take(i as int)),
        decreases state.len() - i,
    {
        proof {
            let next = state@.take(i + 1);
            assert(next.drop_last() =~= state@.take(i as int));
            assert(next.last() == state@[i as int]);
        }
        sum = sum.plus(state[i]);
        i = i + 1;
    }
    proof {
        assert(state@.take(i as int) =~= state@);
    }
    let center: Double = sum.over(count);
    let mut acc: Double = Double::zero();
    let mut j: usize = 0;
    while j < state.len()
        invariant
            j <= state.len(),
            acc == squared_deviations(state@.take(j as int), center),
        decreases state.len() - j,
    {
        proof {
            let next = state@.take(j + 1);
            assert(next.drop_last() =~= state@.take(j as int));
            assert(next.last() == state@[j as int]);
        }
        let delta: Double = state[j].minus(center);
        acc = acc.plus(delta.times(delta));
        j = j + 1;
    }
    proof {
        assert(state@.take(j as int) =~= state@);
    }
    acc.over(count)
}

impl LyapunovValidator {
    /// The variance above which strict entropy mode rejects a state.
    pub closed spec fn threshold(&self) -> Double {
        self.energy_threshold
    }

    /// Whether the variance bound is enforced.
    pub closed spec fn strict(&self) -> bool {
        self.strict_entropy_mode
    }

    /// What `check_stability` answers for a state.
    pub open spec fn verdict(&self, state: Seq<Double>) -> Result<(), StabilityError> {
        let energy = sum_of_squares(state);
        let variance = population_variance(state);
        if energy.gt_spec(Double { bits: ONE_BITS }) {
            Err(StabilityError::Unstable { energy })
        } else if self.strict() && variance.gt_spec(self.threshold()) {
            Err(StabilityError::EntropyViolation { variance, threshold: self.threshold() })
        } else {
            Ok(())
        }
    }

    /// A validator with the variance bound switched off.
    pub fn new() -> (v: Self)
        ensures
            !v.strict(),
            v.threshold().bits == ENTROPY_THRESHOLD_BITS,
    {
        Self {
            energy_threshold: Double { bits: ENTROPY_THRESHOLD_BITS },
            strict_entropy_mode: false,
        }
    }

    /// The same validator with strict entropy mode switched on or off.
    pub fn with_strict_entropy_mode(self, strict: bool) -> (v: Self)
        ensures
            v.strict() == strict,
            v.threshold() == self.threshold(),
    {
        Self { energy_threshold: self.energy_threshold, strict_entropy_mode: strict }
    }

    pub fn strict_entropy_mode(&self) -> (strict: bool)
        ensures
            strict == self.strict(),
    {
        self.strict_entropy_mode
    }

    pub fn entropy_threshold(&self) -> (threshold: Double)
        ensures
            threshold == self.threshold(),
    {
        self.energy_threshold
    }

    /// Rejects a state whose energy exceeds one and, in strict entropy mode,
    /// one whose variance exceeds the threshold.  An energy that is NaN
    /// exceeds nothing.
    pub fn check_stability(&self, state_vector: &Vec<Double>) -> (r: Result<(), StabilityError>)
        ensures
            r == self.verdict(state_vector@),
    {
        let energy: Double = energy_of(state_vector);
        if energy.gt(Double::one()) {
            return Err(StabilityError::Unstable { energy });
        }
        if self.strict_entropy_mode {
            let variance: Double = variance_of(state_vector);
            if variance.gt(self.energy_threshold) {
                return Err(
                    StabilityError::EntropyViolation { variance, threshold: self.energy_threshold },
                );
            }
        }
        Ok(())
    }
}

/// With the variance bound off, the energy alone decides: a state passes if
/// its energy is at most one, and fails with that energy if it exceeds one.
pub proof fn lemma_energy_decides(validator: LyapunovValidator, state: Seq<Double>)
    requires
        !validator.strict(),
    ensures
        sum_of_squares(state).le_spec(Double { bits: ONE_BITS }) ==> validator.verdict(state) is Ok,
        sum_of_squares(state).gt_spec(Double { bits: ONE_BITS }) ==> validator.verdict(state) == Err::<
            (),
            StabilityError,
        >(StabilityError::Unstable { energy: sum_of_squares(state) }),
        validator.verdict(state) is Ok <==> !sum_of_squares(state).gt_spec(Double { bits: ONE_BITS }),
{
}

} // verus!
