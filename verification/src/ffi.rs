//! The foreign boundary: engines behind integer handles.
//!
//! A registry owns every engine.  A handle is a number; zero is the null
//! handle, and the handle of a destroyed engine stays dead, so that a use
//! after destruction is an error and not a fault.  Values are copied in and
//! out; nothing the registry owns escapes.

use vstd::prelude::*;
use crate::double::Double;
use crate::rik::{cycle_outcome, CycleError, CycleStage, RikEngine, STATE_DIM};
use crate::substrate::SovereignState;

verus! {

/// Status codes of the boundary.
#[derive(Clone, Copy, Debug, PartialEq, Eq, Structural)]
pub enum DeoxysStatus {
    Success,
    ErrorNullPointer,
    ErrorInvalidHandle,
    ErrorInvariantViolation,
    ErrorInternal,
}

impl DeoxysStatus {
    pub open spec fn code_spec(self) -> int {
        match self {
            DeoxysStatus::Success => 0int,
            DeoxysStatus::ErrorNullPointer => -1,
            DeoxysStatus::ErrorInvalidHandle => -2,
            DeoxysStatus::ErrorInvariantViolation => -3,
            DeoxysStatus::ErrorInternal => -4,
        }
    }

    /// The number that crosses the boundary.
    pub fn code(self) -> (code: i32)
        ensures
            code == self.code_spec(),
    {
        match self {
            DeoxysStatus::Success => 0,
            DeoxysStatus::ErrorNullPointer => -1,
            DeoxysStatus::ErrorInvalidHandle => -2,
            DeoxysStatus::ErrorInvariantViolation => -3,
            DeoxysStatus::ErrorInternal => -4,
        }
    }
}

/// What a live handle stands for: an engine, and the dimensions it was asked
/// for.
pub struct DeoxysHandle {
    engine: RikEngine,
    state_dim: u32,
    constraint_dim: u32,
    control_dim: u32,
}

impl DeoxysHandle {
    pub closed spec fn engine(&self) -> RikEngine {
        self.engine
    }

    /// The three dimensions given at creation.
    pub closed spec fn dims(&self) -> (u32, u32, u32) {
        (self.state_dim, self.constraint_dim, self.control_dim)
    }
}

/// The table from handles to engines.
pub struct DeoxysRegistry {
    slots: Vec<Option<DeoxysHandle>>,
}

/// An observation made of `input`: cut to the state's length, or filled up
/// with positive zeros.
pub open spec fn shaped(input: Seq<Double>) -> Seq<Double> {
    Seq::new(STATE_DIM as nat, |i: int| if i < input.len() { input[i] } else { Double { bits: 0 } })
}

/// `output` with as much of `state` copied to its front as fits.
pub open spec fn copied_out(output: Seq<Double>, state: Seq<Double>) -> Seq<Double> {
    Seq::new(output.len(), |i: int| if i < state.len() { state[i] } else { output[i] })
}

fn shape_observation(input: &Vec<Double>) -> (observation: Vec<Double>)
    ensures
        observation@ == shaped(input@),
{
    let mut observation: Vec<Double> = Vec::new();
    let mut i: usize = 0;
    while i < STATE_DIM
        invariant
            i <= STATE_DIM,
            observation@.len() == i,
            forall|j: int| 0 <= j < i ==> #[trigger] observation@[j] == shaped(input@)[j],
        decreases STATE_DIM - i,
    {
        if i < input.len() {
            observation.push(input[i]);
        } else {
            observation.push(Double::zero());
        }
        i = i + 1;
    }
    assert(observation@ =~= shaped(input@));
    observation
}

fn copy_out(output: &mut Vec<Double>, state: &Vec<Double>)
    ensures
        final(output)@ == copied_out(old(output)@, state@),
{
    let mut i: usize = 0;
    while i < output.len() && i < state.len()
        invariant
            output@.len() == old(output)@.len(),
            i <= output@.len(),
            i <= state@.len(),
            forall|j: int| 0 <= j < i ==> #[trigger] output@[j] == state@[j],
            forall|j: int| i <= j < output@.len() ==> #[trigger] output@[j] == old(output)@[j],
        decreases output.len() - i,
    {
        output[i] = state[i];
        i = i + 1;
    }
    assert(output@ =~= copied_out(old(output)@, state@));
}

impl DeoxysRegistry {
    /// The entries by position; a destroyed one is `None`.  Handle `h` names
    /// position `h - 1`.
    pub closed spec fn entries(&self) -> Seq<Option<DeoxysHandle>> {
        self.slots@
    }

    /// Whether `handle` names a live engine.
    pub open spec fn live(&self, handle: usize) -> bool {
        0 < handle <= self.entries().len() && self.entries()[handle - 1] is Some
    }

    /// The engine that a live handle names.
    pub open spec fn engine_of(&self, handle: usize) -> RikEngine {
        self.entries()[handle - 1]->Some_0.engine()
    }

    /// Every entry but that of `handle` is as in `before`.
    pub open spec fn same_but(&self, before: &DeoxysRegistry, handle: usize) -> bool {
        &&& self.entries().len() == before.entries().len()
        &&& forall|i: int|
            0 <= i < self.entries().len() && i != handle - 1 ==> #[trigger] self.entries()[i]
                == before.entries()[i]
    }

    /// An empty registry.
    pub fn new() -> (registry: Self)
        ensures
            registry.entries().len() == 0,
    {
        Self { slots: Vec::new() }
    }

    /// The dimensions that the engine of `handle` was created with; `None`
    /// for a handle that names no live engine.
    pub fn dimensions(&self, handle: usize) -> (dims: Option<(u32, u32, u32)>)
        ensures
            dims == if self.live(handle) {
                Some(self.entries()[handle - 1]->Some_0.dims())
            } else {
                None::<(u32, u32, u32)>
            },
    {
        if !self.is_live(handle) {
            return None;
        }
        match &self.slots[handle - 1] {
            Some(entry) => Some((entry.state_dim, entry.constraint_dim, entry.control_dim)),
            None => None,
        }
    }

    fn is_live(&self, handle: usize) -> (ok: bool)
        ensures
            ok == self.live(handle),
    {
        handle > 0 && handle <= self.slots.len() && self.slots[handle - 1].is_some()
    }
}

/// Registers a new engine and returns its handle; the null handle if the
/// registry is full.  The engine holds the root token.  The dimensions are
/// kept for the record: the state always has `STATE_DIM` elements.
pub fn deoxys_init(
    registry: &mut DeoxysRegistry,
    state_dim: u32,
    constraint_dim: u32,
    control_dim: u32,
) -> (handle: usize)
    ensures
        handle == if old(registry).entries().len() < usize::MAX {
            old(registry).entries().len() + 1
        } else {
            0
        },
        handle == 0 ==> final(registry).entries() == old(registry).entries(),
        handle != 0 ==> {
            let engine = final(registry).engine_of(handle);
            &&& final(registry).entries().len() == handle
            &&& final(registry).entries().take(handle - 1) == old(registry).entries()
            &&& final(registry).live(handle)
            &&& final(registry).entries()[handle - 1]->Some_0.dims() == (
                state_dim,
                constraint_dim,
                control_dim,
            )
            &&& engine.gate().intact()
            &&& engine.belief() == Seq::new(STATE_DIM as nat, |i: int| Double { bits: 0 })
            &&& engine.bounds().min.bits == crate::bounds::MINUS_ONE_BITS
            &&& engine.bounds().max.bits == crate::double::ONE_BITS
            &&& !engine.stability().strict()
            &&& engine.stability().threshold().bits == crate::invariants::ENTROPY_THRESHOLD_BITS
            &&& engine.provider().level() == 128
            &&& engine.provenance().paired()
            &&& engine.stage_spec() == CycleStage::Idle
            &&& engine.completed() == 0
            &&& engine.sealed().len() == 0
            &&& engine.last_receipt().is_none()
        },
{
    if registry.slots.len() == usize::MAX {
        return 0;
    }
    let engine: RikEngine = RikEngine::new(SovereignState::new("C_EQUALS_XNXALEXIS_ROOT"));
    registry.slots.push(Some(DeoxysHandle { engine, state_dim, constraint_dim, control_dim }));
    let handle: usize = registry.slots.len();
    assert(registry.entries().take(handle - 1) =~= old(registry).entries());
    handle
}

/// Runs one cycle of the engine that `handle` names, on an observation made
/// of `input`.  On success the belief state is copied to the front of
/// `output`, as far as it fits; on any failure `output` is left alone.
pub fn deoxys_step(
    registry: &mut DeoxysRegistry,
    handle: usize,
    input: &Vec<Double>,
    output: &mut Vec<Double>,
) -> (status: DeoxysStatus)
    ensures
        final(registry).same_but(old(registry), handle),
        !old(registry).live(handle) ==> {
            &&& status == if handle == 0 {
                DeoxysStatus::ErrorNullPointer
            } else {
                DeoxysStatus::ErrorInvalidHandle
            }
            &&& final(registry).entries() == old(registry).entries()
            &&& final(output)@ == old(output)@
        },
        old(registry).live(handle) ==> {
            let before = old(registry).engine_of(handle);
            let after = final(registry).engine_of(handle);
            let failed = cycle_outcome(
                before.gate().intact(),
                before.stability(),
                before.bounds(),
                before.belief(),
                shaped(input@),
            ).0 is Some;
            &&& final(registry).live(handle)
            &&& final(registry).entries()[handle - 1]->Some_0.dims() == old(
                registry,
            ).entries()[handle - 1]->Some_0.dims()
            &&& after.cycled(&before, shaped(input@))
            &&& status == if failed {
                DeoxysStatus::ErrorInvariantViolation
            } else {
                DeoxysStatus::Success
            }
            &&& final(output)@ == if failed {
                old(output)@
            } else {
                copied_out(old(output)@, after.belief())
            }
        },
{
    if handle == 0 {
        return DeoxysStatus::ErrorNullPointer;
    }
    if !registry.is_live(handle) {
        return DeoxysStatus::ErrorInvalidHandle;
    }
    let observation: Vec<Double> = shape_observation(input);
    let status: DeoxysStatus = match &mut registry.slots[handle - 1] {
        Some(entry) => {
            match entry.engine.step(&observation) {
                Ok(_) => {
                    let state: Vec<Double> = entry.engine.get_state();
                    copy_out(output, &state);
                    DeoxysStatus::Success
                },
                Err(CycleError::SigningFault) => DeoxysStatus::ErrorInternal,
                Err(_) => DeoxysStatus::ErrorInvariantViolation,
            }
        },
        None => DeoxysStatus::ErrorInvalidHandle,
    };
    status
}

/// Copies the belief state of the engine that `handle` names to the front of
/// `output`, as far as it fits.
pub fn deoxys_get_state(registry: &DeoxysRegistry, handle: usize, output: &mut Vec<Double>) -> (status:
    DeoxysStatus)
    ensures
        status == if handle == 0 {
            DeoxysStatus::ErrorNullPointer
        } else if !registry.live(handle) {
            DeoxysStatus::ErrorInvalidHandle
        } else {
            DeoxysStatus::Success
        },
        final(output)@ == if registry.live(handle) {
            copied_out(old(output)@, registry.engine_of(handle).belief())
        } else {
            old(output)@
        },
{
    if handle == 0 {
        return DeoxysStatus::ErrorNullPointer;
    }
    if !registry.is_live(handle) {
        return DeoxysStatus::ErrorInvalidHandle;
    }
    match &registry.slots[handle - 1] {
        Some(entry) => {
            let state: Vec<Double> = entry.engine.get_state();
            copy_out(output, &state);
            DeoxysStatus::Success
        },
        None => DeoxysStatus::ErrorInvalidHandle,
    }
}

/// The number of cycles that the engine has completed, cut to 32 bits; zero
/// for a handle that names no live engine.
pub fn deoxys_get_cycle_count(registry: &DeoxysRegistry, handle: usize) -> (count: u32)
    ensures
        count == if registry.live(handle) {
            registry.engine_of(handle).completed() % 0x1_0000_0000
        } else {
            0
        },
{
    if !registry.is_live(handle) {
        return 0;
    }
    match &registry.slots[handle - 1] {
        Some(entry) => (entry.engine.get_cycle_count() % 0x1_0000_0000) as u32,
        None => 0,
    }
}

/// Checks the last receipt of the engine against its belief state.
pub fn deoxys_verify_provenance(registry: &DeoxysRegistry, handle: usize) -> (status: DeoxysStatus)
    ensures
        status == if handle == 0 {
            DeoxysStatus::ErrorNullPointer
        } else if !registry.live(handle) {
            DeoxysStatus::ErrorInvalidHandle
        } else {
            let engine = registry.engine_of(handle);
            let verified = match engine.last_receipt() {
                Some(hash) => engine.provenance().accepts(engine.belief(), hash),
                None => false,
            };
            if verified {
                DeoxysStatus::Success
            } else {
                DeoxysStatus::ErrorInternal
            }
        },
{
    if handle == 0 {
        return DeoxysStatus::ErrorNullPointer;
    }
    if !registry.is_live(handle) {
        return DeoxysStatus::ErrorInvalidHandle;
    }
    match &registry.slots[handle - 1] {
        Some(entry) => {
            if entry.engine.verify_provenance() {
                DeoxysStatus::Success
            } else {
                DeoxysStatus::ErrorInternal
            }
        },
        None => DeoxysStatus::ErrorInvalidHandle,
    }
}

/// Releases the engine that `handle` names.  The handle is dead from then
/// on; destroying it again, or destroying a handle that never lived, does
/// nothing.
pub fn deoxys_destroy(registry: &mut DeoxysRegistry, handle: usize)
    ensures
        final(registry).same_but(old(registry), handle),
        !final(registry).live(handle),
        !old(registry).live(handle) ==> final(registry).entries() == old(registry).entries(),
{
    if registry.is_live(handle) {
        registry.slots[handle - 1] = None;
    }
}

/// The version of the library.
pub fn deoxys_version() -> (version: String)
    ensures
        version@ == "2.0.0"@,
{
    "2.0.0".to_owned()
}

} // verus!
