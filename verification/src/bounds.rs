//! Operator-declared bounds and the projection of a state into them.

use vstd::prelude::*;
use crate::double::{Double, ONE_BITS};

verus! {

/// The pattern of `-1.0`.
pub const MINUS_ONE_BITS: u64 = 0xBFF0_0000_0000_0000;

/// Why a pair of bounds was refused.
#[derive(Clone, Copy, Debug, PartialEq, Eq, Structural)]
pub enum BoundsConstructionError {
    /// A bound is NaN or infinite.
    NonFinite,
    /// Both bounds are finite, and `min` is not below `max`.
    Inverted,
}

/// Why a projection failed.
#[derive(Clone, Copy, Debug, PartialEq, Eq, Structural)]
pub enum BoundsError {
    /// The element at `index` is NaN or infinite; no earlier element is.
    NonFinite { index: usize, value: Double },
    /// After clamping, the element at `index` is still outside the bounds.
    BoundsViolation { index: usize, value: Double, min: Double, max: Double },
}

/// Whether `min` and `max` may serve as bounds: both finite, `min` strictly
/// below `max`.
pub open spec fn admissible(min: Double, max: Double) -> bool {
    min.is_finite_spec() && max.is_finite_spec() && min.lt_spec(max)
}

/// What the construction of bounds answers for a pair.
pub open spec fn admission(min: Double, max: Double) -> Result<(), BoundsConstructionError> {
    if !min.is_finite_spec() || !max.is_finite_spec() {
        Err(BoundsConstructionError::NonFinite)
    } else if min.ge_spec(max) {
        Err(BoundsConstructionError::Inverted)
    } else {
        Ok(())
    }
}

fn assess(min: Double, max: Double) -> (r: Result<(), BoundsConstructionError>)
    ensures
        r == admission(min, max),
        r.is_ok() == admissible(min, max),
{
    if !min.is_finite() || !max.is_finite() {
        Err(BoundsConstructionError::NonFinite)
    } else if min.ge(max) {
        Err(BoundsConstructionError::Inverted)
    } else {
        Ok(())
    }
}

/// Operator-specified bounds for output control.
#[derive(Debug, Clone, Copy, PartialEq, Eq, Structural)]
pub struct OperatorBounds {
    pub min: Double,
    pub max: Double,
}

impl OperatorBounds {
    /// Both bounds finite, `min` strictly below `max`.
    pub open spec fn valid(self) -> bool {
        admissible(self.min, self.max)
    }

    /// `min` is strictly below `max`; neither is NaN.
    pub open spec fn ordered(self) -> bool {
        self.min.lt_spec(self.max)
    }

    /// Whether `x` lies within the bounds, ends included.
    pub open spec fn holds(self, x: Double) -> bool {
        x.within(self.min, self.max)
    }

    /// The bounds `[min, max]`, if the pair is admissible.
    pub fn new(min: Double, max: Double) -> (r: Result<Self, BoundsConstructionError>)
        ensures
            r.is_ok() == admissible(min, max),
            match r {
                Ok(bounds) => bounds.min == min && bounds.max == max && bounds.valid(),
                Err(e) => admission(min, max) == Err::<(), BoundsConstructionError>(e),
            },
    {
        match assess(min, max) {
            Ok(()) => Ok(Self { min, max }),
            Err(e) => Err(e),
        }
    }

    /// The bounds `[-1.0, 1.0]`.
    pub fn default() -> (bounds: Self)
        ensures
            bounds.min.bits == MINUS_ONE_BITS,
            bounds.max.bits == ONE_BITS,
            bounds.valid(),
    {
        Self { min: Double { bits: MINUS_ONE_BITS }, max: Double { bits: ONE_BITS } }
    }

    pub fn is_valid(&self) -> (ok: bool)
        ensures
            ok == self.valid(),
    {
        self.min.is_finite() && self.max.is_finite() && self.min.lt(self.max)
    }

    pub fn contains(&self, x: Double) -> (ok: bool)
        ensures
            ok == self.holds(x),
    {
        self.min.le(x) && x.le(self.max)
    }
}

/// What the operator asks of a cycle: bounds, and a word on why.
pub struct OperatorIntent {
    pub min_bound: Double,
    pub max_bound: Double,
    pub description: String,
}

impl OperatorIntent {
    pub open spec fn valid(&self) -> bool {
        admissible(self.min_bound, self.max_bound)
    }

    /// The intent with bounds `[min, max]`, if the pair is admissible.
    pub fn new(min: Double, max: Double, description: String) -> (r: Result<
        Self,
        BoundsConstructionError,
    >)
        ensures
            r.is_ok() == admissible(min, max),
            match r {
                Ok(intent) => intent.min_bound == min && intent.max_bound == max
                    && intent.description == description && intent.valid(),
                Err(e) => admission(min, max) == Err::<(), BoundsConstructionError>(e),
            },
    {
        match assess(min, max) {
            Ok(()) => Ok(Self { min_bound: min, max_bound: max, description }),
            Err(e) => Err(e),
        }
    }

    pub open spec fn bounds_spec(&self) -> OperatorBounds {
        OperatorBounds { min: self.min_bound, max: self.max_bound }
    }

    /// The bounds of the intent.
    pub fn bounds(&self) -> (bounds: OperatorBounds)
        ensures
            bounds == self.bounds_spec(),
    {
        OperatorBounds { min: self.min_bound, max: self.max_bound }
    }
}

/// The position of the first element that is NaN or infinite; the length of
/// the state if every element is finite.
pub open spec fn first_non_finite(state: Seq<Double>) -> int
    decreases state.len(),
{
    if state.len() == 0 {
        0
    } else if !state[0].is_finite_spec() {
        0
    } else {
        1 + first_non_finite(state.drop_first())
    }
}

/// Every element clamped into the bounds.
pub open spec fn clamped(state: Seq<Double>, bounds: OperatorBounds) -> Seq<Double> {
    Seq::new(state.len(), |i: int| state[i].clamp_spec(bounds.min, bounds.max))
}

/// What `project` answers: the clamped state, or the first element that is
/// not finite.
pub open spec fn projection(state: Seq<Double>, bounds: OperatorBounds) -> Result<
    Seq<Double>,
    BoundsError,
> {
    let at = first_non_finite(state);
    if at < state.len() {
        Err(BoundsError::NonFinite { index: at as usize, value: state[at] })
    } else {
        Ok(clamped(state, bounds))
    }
}

/// `first_non_finite` is the one position that is not finite and has only
/// finite elements before it.
pub proof fn lemma_first_non_finite(state: Seq<Double>, at: int)
    requires
        0 <= at <= state.len(),
        forall|j: int| 0 <= j < at ==> (#[trigger] state[j]).is_finite_spec(),
        at < state.len() ==> !state[at].is_finite_spec(),
    ensures
        first_non_finite(state) == at,
    decreases state.len(),
{
    if state.len() > 0 && at > 0 {
        let rest = state.drop_first();
        assert forall|j: int| 0 <= j < at - 1 implies (#[trigger] rest[j]).is_finite_spec() by {
            assert(rest[j] == state[j + 1]);
        }
        lemma_first_non_finite(rest, at - 1);
    }
}

/// Clamps states into operator bounds and checks the result.
pub struct SafetyProjector {}

impl SafetyProjector {
    /// Projects a state into the bounds.
    ///
    /// A state with an element that is NaN or infinite is refused before any
    /// clamping, with the first such element.  Otherwise every element is
    /// clamped, and the result is scanned once more for an element that is
    /// not finite or not within the bounds; with `min` below `max` that scan
    /// never finds one.
    pub fn project(state: &Vec<Double>, bounds: &OperatorBounds) -> (r: Result<
        Vec<Double>,
        BoundsError,
    >)
        requires
            bounds.ordered(),
        ensures
            match r {
                Ok(projected) => projection(state@, *bounds) == Ok::<Seq<Double>, BoundsError>(
                    projected@,
                ),
                Err(e) => projection(state@, *bounds) == Err::<Seq<Double>, BoundsError>(e),
            },
            r.is_ok() ==> forall|i: int|
                0 <= i < state@.len() ==> bounds.holds(#[trigger] r.unwrap()@[i]),
            !(r matches Err(BoundsError::BoundsViolation { .. })),
    {
        let mut i: usize = 0;
        while i < state.len()
            invariant
                i <= state.len(),
                forall|j: int| 0 <= j < i ==> (#[trigger] state@[j]).is_finite_spec(),
            decreases state.len() - i,
        {
            let value: Double = state[i];
            if !value.is_finite() {
                proof {
                    lemma_first_non_finite(state@, i as int);
                }
                return Err(BoundsError::NonFinite { index: i, value });
            }
            i = i + 1;
        }
        proof {
            lemma_first_non_finite(state@, state@.len() as int);
        }
        let mut projected: Vec<Double> = Vec::new();
        let mut k: usize = 0;
        while k < state.len()
            invariant
                k <= state.len(),
                bounds.ordered(),
                projected@.len() == k,
                forall|j: int| 0 <= j < state@.len() ==> (#[trigger] state@[j]).is_finite_spec(),
                forall|j: int|
                    0 <= j < k ==> #[trigger] projected@[j] == state@[j].clamp_spec(
                        bounds.min,
                        bounds.max,
                    ),
            decreases state.len() - k,
        {
            projected.push(state[k].clamp(bounds.min, bounds.max));
            k = k + 1;
        }
        assert(projected@ =~= clamped(state@, *bounds));
        let mut c: usize = 0;
        while c < projected.len()
            invariant
                c <= projected.len(),
                bounds.ordered(),
                projected@ == clamped(state@, *bounds),
                forall|j: int| 0 <= j < state@.len() ==> (#[trigger] state@[j]).is_finite_spec(),
                forall|j: int| 0 <= j < c ==> bounds.holds(#[trigger] projected@[j]),
            decreases projected.len() - c,
        {
            let value: Double = projected[c];
            assert(value == state@[c as int].clamp_spec(bounds.min, bounds.max));
            if !value.is_finite() || !bounds.contains(value) {
                return Err(
                    BoundsError::BoundsViolation {
                        index: c,
                        value,
                        min: bounds.min,
                        max: bounds.max,
                    },
                );
            }
            c = c + 1;
        }
        Ok(projected)
    }
}

/// Bounds are refused exactly when a bound is not finite or `min` is not
/// below `max`.
pub proof fn lemma_admission(min: Double, max: Double)
    ensures
        admission(min, max) is Err <==> (min.ge_spec(max) || !min.is_finite_spec()
            || !max.is_finite_spec()),
        admission(min, max) is Ok <==> admissible(min, max),
{
}

/// Clamping into ordered bounds puts every finite value within them and
/// leaves it finite; clamping a second time changes nothing.
pub proof fn lemma_clamp(x: Double, bounds: OperatorBounds)
    requires
        bounds.ordered(),
        x.is_finite_spec(),
    ensures
        bounds.holds(x.clamp_spec(bounds.min, bounds.max)),
        x.clamp_spec(bounds.min, bounds.max).is_finite_spec(),
        x.clamp_spec(bounds.min, bounds.max).clamp_spec(bounds.min, bounds.max) == x.clamp_spec(
            bounds.min,
            bounds.max,
        ),
        bounds.holds(x) ==> x.clamp_spec(bounds.min, bounds.max) == x,
{
}

/// A state projects exactly when all its elements are finite.  It then
/// projects, into ordered bounds, to a state of finite elements within them;
/// and that state projects to itself.
pub proof fn lemma_projection_in_bounds(state: Seq<Double>, bounds: OperatorBounds)
    requires
        bounds.ordered(),
    ensures
        projection(state, bounds) is Ok <==> (forall|i: int|
            0 <= i < state.len() ==> (#[trigger] state[i]).is_finite_spec()),
        projection(state, bounds) matches Ok(projected) ==> {
            &&& projected.len() == state.len()
            &&& forall|i: int|
                0 <= i < projected.len() ==> bounds.holds(#[trigger] projected[i])
                    && projected[i].is_finite_spec()
            &&& projection(projected, bounds) == Ok::<Seq<Double>, BoundsError>(projected)
        },
{
    let at = first_non_finite(state);
    lemma_first_non_finite_is_first(state);
    if at >= state.len() {
        let projected = clamped(state, bounds);
        assert forall|i: int| 0 <= i < projected.len() implies bounds.holds(#[trigger] projected[i])
            && projected[i].is_finite_spec() by {
            lemma_clamp(state[i], bounds);
        }
        lemma_first_non_finite(projected, projected.len() as int);
        assert forall|i: int| 0 <= i < projected.len() implies #[trigger] clamped(projected, bounds)[i]
            == projected[i] by {
            lemma_clamp(state[i], bounds);
        }
        assert(clamped(projected, bounds) =~= projected);
    }
}

/// `first_non_finite` lies within the state or at its end; the element there
/// is not finite, and every element before it is.
pub proof fn lemma_first_non_finite_is_first(state: Seq<Double>)
    ensures
        0 <= first_non_finite(state) <= state.len(),
        first_non_finite(state) < state.len() ==> !state[first_non_finite(state)].is_finite_spec(),
        forall|j: int| 0 <= j < first_non_finite(state) ==> (#[trigger] state[j]).is_finite_spec(),
    decreases state.len(),
{
    if state.len() > 0 && state[0].is_finite_spec() {
        let rest = state.drop_first();
        lemma_first_non_finite_is_first(rest);
        assert forall|j: int| 0 <= j < first_non_finite(state) implies (#[trigger] state[j]).is_finite_spec() by {
            if j > 0 {
                assert(state[j] == rest[j - 1]);
            }
        }
    }
}

} // verus!
