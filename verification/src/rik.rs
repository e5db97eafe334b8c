//! The cycle engine: gate, update, validate, project, seal, sign.

use vstd::prelude::*;
pub use crate::bounds::{OperatorBounds, OperatorIntent};
use crate::bounds::{projection, BoundsError, SafetyProjector};
use crate::crypto::{CkksProvider, ProvenanceSigner};
use crate::double::Double;
use crate::invariants::{LyapunovValidator, StabilityError};
use crate::substrate::SovereignState;

verus! {

/// The number of elements of a belief state and of an observation.
pub const STATE_DIM: usize = 10;

/// The pattern of `0.01`, the value of every element of the stand-in
/// observation.
pub const OBSERVATION_BITS: u64 = 0x3F84_7AE1_47AE_147B;

/// The attestation of one completed cycle: the hexadecimal signature over the
/// belief state that the cycle left.
#[derive(Debug)]
pub struct CycleReceipt {
    pub hash: String,
}

/// Why a cycle failed.
#[derive(Clone, Copy, Debug, PartialEq, Eq, Structural)]
pub enum CycleError {
    /// The integrity gate is shut: the engine holds a token that is not the
    /// root token.
    IntegrityViolation,
    /// The updated state is not stable.
    Stability(StabilityError),
    /// The updated state cannot be projected into the bounds.
    Bounds(BoundsError),
    /// The signature just made does not verify under the engine's own public
    /// key: the key pair is corrupt.  Not to be retried.
    SigningFault,
}

/// Where a cycle stands.  An engine at rest is `Idle` before its first cycle
/// and `Complete` or `Failed` after each.
#[derive(Clone, Copy, Debug, PartialEq, Eq, Structural)]
pub enum CycleStage {
    Idle,
    IntegrityChecked,
    Updated,
    Validated,
    Projected,
    Sealed,
    Complete,
    Failed(CycleError),
}

/// The element-wise sum of a state and an observation of the same length.
pub open spec fn updated(state: Seq<Double>, observation: Seq<Double>) -> Seq<Double> {
    Seq::new(state.len(), |i: int| state[i].plus_spec(observation[i]))
}

/// The stand-in observation: `0.01` in every element.
pub open spec fn stub_observation() -> Seq<Double> {
    Seq::new(STATE_DIM as nat, |i: int| Double { bits: OBSERVATION_BITS })
}

/// Applies the per-cycle update rule.
pub struct BeliefStateTracker {}

impl BeliefStateTracker {
    /// Adds the observation to the state, element by element.
    pub fn update(state: &Vec<Double>, observation: &Vec<Double>) -> (next: Vec<Double>)
        requires
            observation@.len() == state@.len(),
        ensures
            next@ == updated(state@, observation@),
    {
        let mut next: Vec<Double> = Vec::new();
        let mut i: usize = 0;
        while i < state.len()
            invariant
                i <= state.len(),
                observation@.len() == state@.len(),
                next@.len() == i,
                forall|j: int|
                    0 <= j < i ==> #[trigger] next@[j] == state@[j].plus_spec(observation@[j]),
            decreases state.len() - i,
        {
            next.push(state[i].plus(observation[i]));
            i = i + 1;
        }
        assert(next@ =~= updated(state@, observation@));
        next
    }
}

/// The engine: an integrity gate, a validator, a sealer, a signer, the belief
/// state that it alone owns, and the record of the last completed cycle.
pub struct RikEngine {
    state: SovereignState,
    validator: LyapunovValidator,
    ckks: CkksProvider,
    signer: ProvenanceSigner,
    belief_state: Vec<Double>,
    operator_bounds: OperatorBounds,
    stage: CycleStage,
    cycle_count: u64,
    sealed_state: Vec<u8>,
    last_hash: Option<String>,
}

/// How a cycle ends, from the state before it: the error, if any, and the
/// belief state it leaves.
pub open spec fn cycle_outcome(
    intact: bool,
    validator: LyapunovValidator,
    bounds: OperatorBounds,
    belief: Seq<Double>,
    observation: Seq<Double>,
) -> (Option<CycleError>, Seq<Double>) {
    let next = updated(belief, observation);
    if !intact {
        (Some(CycleError::IntegrityViolation), belief)
    } else {
        match validator.verdict(next) {
            Err(e) => (Some(CycleError::Stability(e)), next),
            Ok(()) => match projection(next, bounds) {
                Err(e) => (Some(CycleError::Bounds(e)), next),
                Ok(projected) => (None, projected),
            },
        }
    }
}

impl RikEngine {
    /// The belief state has its fixed length and the bounds are admissible.
    #[verifier::type_invariant]
    spec fn whole(&self) -> bool {
        &&& self.belief_state@.len() == STATE_DIM
        &&& self.operator_bounds.valid()
    }

    /// The integrity gate, as handed in at construction.
    pub closed spec fn gate(&self) -> SovereignState {
        self.state
    }

    /// The stability validator.
    pub closed spec fn stability(&self) -> LyapunovValidator {
        self.validator
    }

    /// The sealer of states.
    pub closed spec fn provider(&self) -> CkksProvider {
        self.ckks
    }

    /// The signer of receipts.
    pub closed spec fn provenance(&self) -> ProvenanceSigner {
        self.signer
    }

    /// The belief state.
    pub closed spec fn belief(&self) -> Seq<Double> {
        self.belief_state@
    }

    /// The bounds that a cycle projects into.
    pub closed spec fn bounds(&self) -> OperatorBounds {
        self.operator_bounds
    }

    /// Where the last cycle ended.
    pub closed spec fn stage_spec(&self) -> CycleStage {
        self.stage
    }

    /// The number of cycles completed, held at `u64::MAX` once reached.
    pub closed spec fn completed(&self) -> u64 {
        self.cycle_count
    }

    /// The commitment to the state of the last completed cycle; empty before
    /// the first.
    pub closed spec fn sealed(&self) -> Seq<u8> {
        self.sealed_state@
    }

    /// The hash of the last receipt, if any cycle has completed.
    pub closed spec fn last_receipt(&self) -> Option<Seq<char>> {
        match self.last_hash {
            Some(hash) => Some(hash@),
            None => None,
        }
    }

    /// Gate, validator, provider and signer are those of `other`.
    pub open spec fn same_setup(&self, other: &RikEngine) -> bool {
        &&& self.gate() == other.gate()
        &&& self.stability() == other.stability()
        &&& self.provider() == other.provider()
        &&& self.provenance() == other.provenance()
    }

    /// Nothing that a completed cycle records has changed from `other`.
    pub open spec fn same_record(&self, other: &RikEngine) -> bool {
        &&& self.completed() == other.completed()
        &&& self.sealed() == other.sealed()
        &&& self.last_receipt() == other.last_receipt()
    }

    /// An engine at rest: all-zero belief state, bounds `[-1.0, 1.0]`, a fresh
    /// key pair, the variance bound switched off.
    pub fn new(state: SovereignState) -> (engine: Self)
        ensures
            engine.gate() == state,
            engine.belief() == Seq::new(STATE_DIM as nat, |i: int| Double { bits: 0 }),
            engine.bounds().min.bits == crate::bounds::MINUS_ONE_BITS,
            engine.bounds().max.bits == crate::double::ONE_BITS,
            !engine.stability().strict(),
            engine.stability().threshold().bits == crate::invariants::ENTROPY_THRESHOLD_BITS,
            engine.provider().level() == 128,
            engine.provenance().paired(),
            engine.stage_spec() == CycleStage::Idle,
            engine.completed() == 0,
            engine.sealed().len() == 0,
            engine.last_receipt().is_none(),
    {
        let mut belief_state: Vec<Double> = Vec::new();
        let mut i: usize = 0;
        while i < STATE_DIM
            invariant
                i <= STATE_DIM,
                belief_state@.len() == i,
                forall|j: int| 0 <= j < i ==> (#[trigger] belief_state@[j]).bits == 0,
            decreases STATE_DIM - i,
        {
            belief_state.push(Double::zero());
            i = i + 1;
        }
        assert(belief_state@ =~= Seq::new(STATE_DIM as nat, |i: int| Double { bits: 0 }));
        Self {
            state,
            validator: LyapunovValidator::new(),
            ckks: CkksProvider::init(),
            signer: ProvenanceSigner::new(),
            belief_state,
            operator_bounds: OperatorBounds::default(),
            stage: CycleStage::Idle,
            cycle_count: 0,
            sealed_state: Vec::new(),
            last_hash: None,
        }
    }

    /// Sets the bounds that later cycles project into.
    pub fn set_operator_bounds(&mut self, bounds: OperatorBounds)
        requires
            bounds.valid(),
        ensures
            final(self).bounds() == bounds,
            final(self).gate() == old(self).gate(),
            final(self).stability() == old(self).stability(),
            final(self).provider() == old(self).provider(),
            final(self).provenance() == old(self).provenance(),
            final(self).belief() == old(self).belief(),
            final(self).stage_spec() == old(self).stage_spec(),
            final(self).same_record(old(self)),
    {
        proof {
            use_type_invariant(&*self);
        }
        self.operator_bounds = bounds;
    }

    /// Switches the variance bound of the stability check on or off.
    pub fn set_strict_entropy_mode(&mut self, strict: bool)
        ensures
            final(self).stability().strict() == strict,
            final(self).stability().threshold() == old(self).stability().threshold(),
            final(self).gate() == old(self).gate(),
            final(self).provider() == old(self).provider(),
            final(self).provenance() == old(self).provenance(),
            final(self).bounds() == old(self).bounds(),
            final(self).belief() == old(self).belief(),
            final(self).stage_spec() == old(self).stage_spec(),
            final(self).same_record(old(self)),
    {
        proof {
            use_type_invariant(&*self);
        }
        self.validator = self.validator.with_strict_entropy_mode(strict);
    }

    /// The stand-in for a sensor reading.
    fn observe_environment(&self) -> (observation: Vec<Double>)
        ensures
            observation@ == stub_observation(),
    {
        let mut observation: Vec<Double> = Vec::new();
        let mut i: usize = 0;
        while i < STATE_DIM
            invariant
                i <= STATE_DIM,
                observation@.len() == i,
                forall|j: int|
                    0 <= j < i ==> (#[trigger] observation@[j]).bits == OBSERVATION_BITS,
            decreases STATE_DIM - i,
        {
            observation.push(Double::from_bits(OBSERVATION_BITS));
            i = i + 1;
        }
        assert(observation@ =~= stub_observation());
        observation
    }

    /// Setup, bounds and record are those of `before`.
    spec fn carries(&self, before: &RikEngine) -> bool {
        &&& self.state == before.state
        &&& self.validator == before.validator
        &&& self.ckks == before.ckks
        &&& self.signer == before.signer
        &&& self.operator_bounds == before.operator_bounds
        &&& self.cycle_count == before.cycle_count
        &&& self.sealed_state == before.sealed_state
        &&& self.last_hash == before.last_hash
    }

    /// From rest to `IntegrityChecked` if the token held is the root token, and
    /// to `Failed` if it is not.
    fn pass_gate(&mut self) -> (open: bool)
        ensures
            open == old(self).state.intact(),
            final(self).carries(old(self)),
            final(self).belief_state == old(self).belief_state,
            final(self).stage == if open {
                CycleStage::IntegrityChecked
            } else {
                CycleStage::Failed(CycleError::IntegrityViolation)
            },
    {
        proof {
            use_type_invariant(&*self);
        }
        let open: bool = self.state.verify_integrity();
        if open {
            self.stage = CycleStage::IntegrityChecked;
        } else {
            self.stage = CycleStage::Failed(CycleError::IntegrityViolation);
        }
        open
    }

    /// From `IntegrityChecked` to `Updated`.
    fn absorb(&mut self, observation: &Vec<Double>)
        requires
            old(self).stage == CycleStage::IntegrityChecked,
            observation@.len() == STATE_DIM,
        ensures
            final(self).carries(old(self)),
            final(self).belief_state@ == updated(old(self).belief_state@, observation@),
            final(self).stage == CycleStage::Updated,
    {
        proof {
            use_type_invariant(&*self);
        }
        self.belief_state = BeliefStateTracker::update(&self.belief_state, observation);
        self.stage = CycleStage::Updated;
    }

    /// From `Updated` to `Validated`, or to `Failed`.
    fn validate(&mut self) -> (r: Result<(), StabilityError>)
        requires
            old(self).stage == CycleStage::Updated,
        ensures
            r == old(self).validator.verdict(old(self).belief_state@),
            final(self).carries(old(self)),
            final(self).belief_state == old(self).belief_state,
            final(self).stage == match r {
                Ok(()) => CycleStage::Validated,
                Err(e) => CycleStage::Failed(CycleError::Stability(e)),
            },
    {
        proof {
            use_type_invariant(&*self);
        }
        let r: Result<(), StabilityError> = self.validator.check_stability(&self.belief_state);
        match r {
            Ok(()) => {
                self.stage = CycleStage::Validated;
            },
            Err(e) => {
                self.stage = CycleStage::Failed(CycleError::Stability(e));
            },
        }
        r
    }

    /// From `Validated` to `Projected`, or to `Failed`.
    fn project(&mut self) -> (r: Result<(), BoundsError>)
        requires
            old(self).stage == CycleStage::Validated,
        ensures
            final(self).carries(old(self)),
            match r {
                Ok(()) => {
                    &&& projection(old(self).belief_state@, old(self).operator_bounds) == Ok::<
                        Seq<Double>,
                        BoundsError,
                    >(final(self).belief_state@)
                    &&& final(self).stage == CycleStage::Projected
                    &&& forall|i: int|
                        0 <= i < final(self).belief_state@.len() ==> old(self).operator_bounds.holds(
                            #[trigger] final(self).belief_state@[i],
                        )
                },
                Err(e) => {
                    &&& projection(old(self).belief_state@, old(self).operator_bounds) == Err::<
                        Seq<Double>,
                        BoundsError,
                    >(e)
                    &&& final(self).belief_state == old(self).belief_state
                    &&& final(self).stage == CycleStage::Failed(CycleError::Bounds(e))
                },
            },
    {
        proof {
            use_type_invariant(&*self);
        }
        match SafetyProjector::project(&self.belief_state, &self.operator_bounds) {
            Ok(projected) => {
                proof {
                    crate::bounds::lemma_projection_in_bounds(
                        self.belief_state@,
                        self.operator_bounds,
                    );
                }
                self.belief_state = projected;
                self.stage = CycleStage::Projected;
                Ok(())
            },
            Err(e) => {
                self.stage = CycleStage::Failed(CycleError::Bounds(e));
                Err(e)
            },
        }
    }

    /// From `Projected` to `Sealed`.
    fn seal(&mut self)
        requires
            old(self).stage == CycleStage::Projected,
        ensures
            final(self).state == old(self).state,
            final(self).validator == old(self).validator,
            final(self).ckks == old(self).ckks,
            final(self).signer == old(self).signer,
            final(self).operator_bounds == old(self).operator_bounds,
            final(self).cycle_count == old(self).cycle_count,
            final(self).last_hash == old(self).last_hash,
            final(self).belief_state == old(self).belief_state,
            final(self).sealed_state@ == old(self).ckks.commitment(old(self).belief_state@),
            final(self).stage == CycleStage::Sealed,
    {
        proof {
            use_type_invariant(&*self);
        }
        self.sealed_state = self.ckks.encrypt_state(&self.belief_state);
        self.stage = CycleStage::Sealed;
    }

    /// From `Sealed` to `Complete`.  The signature is checked against the
    /// public key before it is handed out; with a whole key pair that check
    /// never fails.
    fn attest(&mut self) -> (r: Result<CycleReceipt, CycleError>)
        requires
            old(self).stage == CycleStage::Sealed,
        ensures
            r matches Ok(receipt) && {
                &&& receipt.hash@ == old(self).signer.receipt_hash(old(self).belief_state@)
                &&& receipt.hash@.len() == 128
                &&& old(self).signer.accepts(old(self).belief_state@, receipt.hash@)
                &&& final(self).last_receipt() == Some(receipt.hash@)
            },
            final(self).state == old(self).state,
            final(self).validator == old(self).validator,
            final(self).ckks == old(self).ckks,
            final(self).signer == old(self).signer,
            final(self).operator_bounds == old(self).operator_bounds,
            final(self).sealed_state == old(self).sealed_state,
            final(self).belief_state == old(self).belief_state,
            final(self).cycle_count == if old(self).cycle_count < u64::MAX {
                (old(self).cycle_count + 1) as u64
            } else {
                u64::MAX
            },
            final(self).stage == CycleStage::Complete,
    {
        proof {
            use_type_invariant(&*self);
        }
        let hash: String = self.signer.sign_cycle(&self.belief_state);
        if !self.signer.verify_provenance(&self.belief_state, hash.as_str()) {
            self.stage = CycleStage::Failed(CycleError::SigningFault);
            return Err(CycleError::SigningFault);
        }
        self.last_hash = Some(hash.clone());
        if self.cycle_count < u64::MAX {
            self.cycle_count = self.cycle_count + 1;
        }
        self.stage = CycleStage::Complete;
        Ok(CycleReceipt { hash })
    }

    /// What one cycle on `observation` under `bounds` makes of the engine
    /// `before`.
    ///
    /// A shut gate fails the cycle and leaves the belief state as it was.
    /// Otherwise the observation is added; an unstable sum, or one with an
    /// element that is not finite, fails the cycle and stays.  Otherwise the
    /// sum is clamped into the bounds, sealed and signed, and the cycle
    /// counts.
    pub open spec fn cycled_under(
        &self,
        before: &RikEngine,
        bounds: OperatorBounds,
        observation: Seq<Double>,
    ) -> bool {
        let (error, belief) = cycle_outcome(
            before.gate().intact(),
            before.stability(),
            bounds,
            before.belief(),
            observation,
        );
        &&& self.same_setup(before)
        &&& self.bounds() == bounds
        &&& self.belief() == belief
        &&& match error {
            Some(e) => {
                &&& self.stage_spec() == CycleStage::Failed(e)
                &&& self.same_record(before)
            },
            None => {
                let hash = self.provenance().receipt_hash(belief);
                &&& self.last_receipt() == Some(hash)
                &&& hash.len() == 128
                &&& self.provenance().accepts(belief, hash)
                &&& self.sealed() == self.provider().commitment(belief)
                &&& self.stage_spec() == CycleStage::Complete
                &&& self.completed() == if before.completed() < u64::MAX {
                    (before.completed() + 1) as u64
                } else {
                    u64::MAX
                }
                &&& forall|i: int| 0 <= i < belief.len() ==> bounds.holds(#[trigger] belief[i])
            },
        }
    }

    /// What one cycle on `observation` makes of the engine `before`, under
    /// the bounds that it holds.
    pub open spec fn cycled(&self, before: &RikEngine, observation: Seq<Double>) -> bool {
        self.cycled_under(before, before.bounds(), observation)
    }

    /// What a cycle returns: the error of a failed cycle, or the receipt that
    /// the engine `self` holds after a completed one.
    pub open spec fn returned(
        &self,
        before: &RikEngine,
        bounds: OperatorBounds,
        observation: Seq<Double>,
        r: Result<CycleReceipt, CycleError>,
    ) -> bool {
        let error = cycle_outcome(
            before.gate().intact(),
            before.stability(),
            bounds,
            before.belief(),
            observation,
        ).0;
        match r {
            Ok(receipt) => error is None && self.last_receipt() == Some(receipt.hash@),
            Err(e) => error == Some(e),
        }
    }

    /// `cycled`, and `r` is what the cycle returned.
    pub open spec fn ran_cycle(
        &self,
        before: &RikEngine,
        observation: Seq<Double>,
        r: Result<CycleReceipt, CycleError>,
    ) -> bool {
        &&& self.cycled(before, observation)
        &&& self.returned(before, before.bounds(), observation, r)
    }

    /// Runs one cycle on the given observation: exactly once, to the end or
    /// to the first failure.  Nothing is retried.
    pub fn step(&mut self, observation: &Vec<Double>) -> (r: Result<CycleReceipt, CycleError>)
        requires
            observation@.len() == STATE_DIM,
        ensures
            final(self).ran_cycle(old(self), observation@, r),
    {
        if !self.pass_gate() {
            return Err(CycleError::IntegrityViolation);
        }
        self.absorb(observation);
        if let Err(e) = self.validate() {
            return Err(CycleError::Stability(e));
        }
        if let Err(e) = self.project() {
            return Err(CycleError::Bounds(e));
        }
        self.seal();
        self.attest()
    }

    /// Runs one cycle on the stand-in observation.
    pub fn execute_cycle(&mut self) -> (r: Result<CycleReceipt, CycleError>)
        ensures
            final(self).ran_cycle(old(self), stub_observation(), r),
    {
        let observation: Vec<Double> = self.observe_environment();
        self.step(&observation)
    }

    /// Takes the bounds of the intent, then runs one cycle on the stand-in
    /// observation.
    pub fn execute_cycle_with(&mut self, intent: &OperatorIntent) -> (r: Result<
        CycleReceipt,
        CycleError,
    >)
        requires
            intent.valid(),
        ensures
            final(self).cycled_under(old(self), intent.bounds_spec(), stub_observation()),
            final(self).returned(old(self), intent.bounds_spec(), stub_observation(), r),
    {
        self.set_operator_bounds(intent.bounds());
        self.execute_cycle()
    }

    /// Whether the last receipt is a signature of this engine's key pair over
    /// the belief state as it is now; false before the first receipt.
    pub fn verify_provenance(&self) -> (ok: bool)
        ensures
            ok == match self.last_receipt() {
                Some(hash) => self.provenance().accepts(self.belief(), hash),
                None => false,
            },
    {
        match &self.last_hash {
            Some(hash) => self.signer.verify_provenance(&self.belief_state, hash.as_str()),
            None => false,
        }
    }

    /// A copy of the belief state.
    pub fn get_state(&self) -> (state: Vec<Double>)
        ensures
            state@ == self.belief(),
            state@.len() == STATE_DIM,
    {
        proof {
            use_type_invariant(self);
        }
        let mut state: Vec<Double> = Vec::new();
        let mut i: usize = 0;
        while i < self.belief_state.len()
            invariant
                i <= self.belief_state.len(),
                state@ == self.belief_state@.take(i as int),
            decreases self.belief_state.len() - i,
        {
            state.push(self.belief_state[i]);
            assert(state@ =~= self.belief_state@.take(i + 1));
            i = i + 1;
        }
        assert(self.belief_state@.take(i as int) =~= self.belief_state@);
        state
    }

    /// The number of cycles completed.
    pub fn get_cycle_count(&self) -> (count: u64)
        ensures
            count == self.completed(),
    {
        self.cycle_count
    }

    /// The bounds that the next cycle projects into.
    pub fn operator_bounds(&self) -> (bounds: OperatorBounds)
        ensures
            bounds == self.bounds(),
    {
        self.operator_bounds
    }

    /// Where the last cycle ended; `Idle` before the first.
    pub fn stage(&self) -> (stage: CycleStage)
        ensures
            stage == self.stage_spec(),
    {
        self.stage
    }

    /// The commitment to the state of the last completed cycle.
    pub fn sealed_state(&self) -> (sealed: &Vec<u8>)
        ensures
            sealed@ == self.sealed(),
    {
        &self.sealed_state
    }

    /// The public key under which receipts verify.
    pub fn public_key(&self) -> (key: Vec<u8>)
        ensures
            key@ == self.provenance().public(),
    {
        self.signer.public_key()
    }
}

/// An engine that holds a wrong token runs no cycle: whatever the bounds and
/// the observation, the cycle fails on its integrity test, the belief state
/// and the record stay as they were, and the token is as wrong afterwards.
pub proof fn lemma_shut_gate_runs_nothing(
    before: &RikEngine,
    after: &RikEngine,
    bounds: OperatorBounds,
    observation: Seq<Double>,
    r: Result<CycleReceipt, CycleError>,
)
    requires
        !before.gate().intact(),
        after.cycled_under(before, bounds, observation),
        after.returned(before, bounds, observation, r),
    ensures
        r is Err,
        r->Err_0 == CycleError::IntegrityViolation,
        after.belief() == before.belief(),
        after.same_record(before),
        after.stage_spec() == CycleStage::Failed(CycleError::IntegrityViolation),
        !after.gate().intact(),
{
}

/// After a completed cycle every element of the belief state is finite and
/// lies within the bounds, and the receipt verifies against that state.
pub proof fn lemma_completed_cycle(
    before: &RikEngine,
    after: &RikEngine,
    bounds: OperatorBounds,
    observation: Seq<Double>,
    r: Result<CycleReceipt, CycleError>,
)
    requires
        bounds.ordered(),
        after.cycled_under(before, bounds, observation),
        after.returned(before, bounds, observation, r),
        r is Ok,
    ensures
        forall|i: int|
            0 <= i < after.belief().len() ==> bounds.holds(#[trigger] after.belief()[i])
                && after.belief()[i].is_finite_spec(),
        after.provenance().accepts(after.belief(), r->Ok_0.hash@),
        after.stage_spec() == CycleStage::Complete,
{
    let next = updated(before.belief(), observation);
    crate::bounds::lemma_projection_in_bounds(next, bounds);
}

} // verus!
