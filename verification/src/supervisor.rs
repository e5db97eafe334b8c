//! The supervisory loop as a state machine: what to ask the operator, when
//! to run a cycle, when to pause and when to stop.
//!
//! The caller performs each action and hands back the event that it led to:
//! a bound typed in, a line of text, the end of a cycle, the end of a pause.
//! A cycle is asked for only in answer to an approval.

use vstd::prelude::*;
use crate::bounds::{admissible, admission, BoundsConstructionError, OperatorIntent, MINUS_ONE_BITS};
use crate::double::{Double, ONE_BITS};

verus! {

/// The time that one cycle may take, in nanoseconds: twenty cycles a second.
pub const CYCLE_TARGET_NANOS: u64 = 50_000_000;

/// What the operator typed where a bound was asked for.
#[derive(Clone, Copy, Debug, PartialEq, Eq, Structural)]
pub enum BoundEntry {
    /// Nothing but white space.
    Blank,
    /// Text that is no number.
    Unreadable,
    /// A number, finite or not.
    Value(Double),
}

/// How a bound was arrived at.
#[derive(Clone, Copy, Debug, PartialEq, Eq, Structural)]
pub enum BoundNote {
    /// The operator's number was taken.
    Taken,
    /// Nothing was typed: the fallback was taken, silently.
    Defaulted,
    /// The text was no number: the fallback was taken.
    Unreadable,
    /// The number was NaN or infinite: the fallback was taken.
    NonFinite,
}

/// What the operator is asked.
#[derive(Clone, Copy, Debug, PartialEq, Eq, Structural)]
pub enum Prompt {
    MinBound,
    MaxBound,
    Description,
    Approval,
    /// After a rejection: go on to the next approval round, or exit.
    Continue,
}

/// What the caller is to do next.
#[derive(Clone, Copy, Debug, PartialEq, Eq, Structural)]
pub enum Action {
    /// Ask the operator, and hand back what was typed.
    Ask(Prompt),
    /// Run one cycle under the intent held, and hand back how it ended.
    Execute,
    /// Tell the operator that the bounds were refused, then resume.
    Refuse(BoundsConstructionError),
    /// Sleep for `nanos` nanoseconds, then resume.  `overrun` says that the
    /// cycle took the whole target time or more; there is then nothing to
    /// sleep.
    Pause { nanos: u64, overrun: bool },
    /// The operator ended the session.
    Shutdown,
    /// A cycle failed: stop for good.
    Halt,
    /// The event did not fit the phase; nothing changed.
    Ignored,
}

/// Where the loop stands.
#[derive(Clone, Copy, Debug, PartialEq, Eq, Structural)]
pub enum Phase {
    EnteringMin,
    EnteringMax,
    EnteringDescription,
    Refusing,
    Approving,
    Rejected,
    Executing,
    Pausing,
    Stopped,
    Halted,
}

/// `str::trim`: the text without leading and trailing white space.
pub uninterp spec fn trimmed(text: Seq<char>) -> Seq<char>;

/// `str::to_lowercase`: the text in lower case.
pub uninterp spec fn lowercased(text: Seq<char>) -> Seq<char>;

/// `str::trim` of std: the part of the text between its leading and its
/// trailing white space.
#[verifier::external_body]
fn trim(text: &str) -> (inner: String)
    ensures
        inner@ == trimmed(text@),
{
    text.trim().to_string()
}

/// `str::to_lowercase` of std: the text with every character in lower case.
#[verifier::external_body]
fn to_lowercase(text: &str) -> (lower: String)
    ensures
        lower@ == lowercased(text@),
{
    text.to_lowercase()
}

/// The answer as it is compared: trimmed, in lower case.
pub open spec fn answer(line: Seq<char>) -> Seq<char> {
    lowercased(trimmed(line))
}

/// An approval is `y` or `yes`, in any case, with any white space around.
pub open spec fn approves(line: Seq<char>) -> bool {
    answer(line) == "y"@ || answer(line) == "yes"@
}

/// The word that ends the session is `exit`, in any case, with any white
/// space around.
pub open spec fn exits(line: Seq<char>) -> bool {
    answer(line) == "exit"@
}

/// The description typed, trimmed; `Standard bounds` if nothing was typed.
pub open spec fn description_of(line: Seq<char>) -> Seq<char> {
    if trimmed(line).len() == 0 {
        "Standard bounds"@
    } else {
        trimmed(line)
    }
}

/// The bound that an entry stands for: its number if that is finite, the
/// fallback otherwise.
pub open spec fn resolved(entry: BoundEntry, fallback: Double) -> (Double, BoundNote) {
    match entry {
        BoundEntry::Blank => (fallback, BoundNote::Defaulted),
        BoundEntry::Unreadable => (fallback, BoundNote::Unreadable),
        BoundEntry::Value(v) => if v.is_finite_spec() {
            (v, BoundNote::Taken)
        } else {
            (fallback, BoundNote::NonFinite)
        },
    }
}

/// The pause that fills a cycle up to the target time.
pub open spec fn pause_after(elapsed_nanos: u64) -> Action {
    if elapsed_nanos < CYCLE_TARGET_NANOS {
        Action::Pause { nanos: (CYCLE_TARGET_NANOS - elapsed_nanos) as u64, overrun: false }
    } else {
        Action::Pause { nanos: 0, overrun: true }
    }
}

pub open spec fn next_round(round: u64) -> u64 {
    if round < u64::MAX {
        (round + 1) as u64
    } else {
        round
    }
}

pub fn is_approval(line: &str) -> (ok: bool)
    ensures
        ok == approves(line@),
{
    let inner: String = trim(line);
    let lower: String = to_lowercase(inner.as_str());
    let y: String = "y".to_owned();
    let yes: String = "yes".to_owned();
    lower == y || lower == yes
}

pub fn is_exit(line: &str) -> (ok: bool)
    ensures
        ok == exits(line@),
{
    let inner: String = trim(line);
    let lower: String = to_lowercase(inner.as_str());
    let exit: String = "exit".to_owned();
    lower == exit
}

pub fn resolve_description(line: &str) -> (description: String)
    ensures
        description@ == description_of(line@),
{
    let inner: String = trim(line);
    if inner.as_str().unicode_len() == 0 {
        "Standard bounds".to_owned()
    } else {
        inner
    }
}

pub fn resolve_bound(entry: BoundEntry, fallback: Double) -> (r: (Double, BoundNote))
    ensures
        r == resolved(entry, fallback),
{
    match entry {
        BoundEntry::Blank => (fallback, BoundNote::Defaulted),
        BoundEntry::Unreadable => (fallback, BoundNote::Unreadable),
        BoundEntry::Value(v) => {
            if v.is_finite() {
                (v, BoundNote::Taken)
            } else {
                (fallback, BoundNote::NonFinite)
            }
        },
    }
}

/// The loop's memory: the phase, the approval round, and the intent as far as
/// it has been entered.
pub struct Supervisor {
    phase: Phase,
    round: u64,
    min: Double,
    max: Double,
    description: String,
    note: BoundNote,
}

impl Supervisor {
    pub closed spec fn phase_spec(&self) -> Phase {
        self.phase
    }

    /// The number of the approval round, from one.
    pub closed spec fn round_spec(&self) -> u64 {
        self.round
    }

    pub closed spec fn min_spec(&self) -> Double {
        self.min
    }

    pub closed spec fn max_spec(&self) -> Double {
        self.max
    }

    pub closed spec fn description_spec(&self) -> Seq<char> {
        self.description@
    }

    /// How the bound entered last was arrived at.
    pub closed spec fn note_spec(&self) -> BoundNote {
        self.note
    }

    /// While an approval is asked for and while a cycle runs, the bounds held
    /// are admissible.
    #[verifier::type_invariant]
    spec fn whole(&self) -> bool {
        (self.phase == Phase::Approving || self.phase == Phase::Executing) ==> admissible(
            self.min,
            self.max,
        )
    }

    /// `self` holds the intent that `before` held.
    pub open spec fn same_intent(&self, before: &Supervisor) -> bool {
        &&& self.min_spec() == before.min_spec()
        &&& self.max_spec() == before.max_spec()
        &&& self.description_spec() == before.description_spec()
        &&& self.note_spec() == before.note_spec()
    }

    /// Nothing differs from `before`.
    pub open spec fn unchanged(&self, before: &Supervisor) -> bool {
        &&& self.same_intent(before)
        &&& self.phase_spec() == before.phase_spec()
        &&& self.round_spec() == before.round_spec()
    }

    /// A supervisor at the start of round one.  The first action is to ask
    /// for the lower bound.
    pub fn new() -> (r: (Self, Action))
        ensures
            r.0.phase_spec() == Phase::EnteringMin,
            r.0.round_spec() == 1,
            r.0.min_spec().bits == MINUS_ONE_BITS,
            r.0.max_spec().bits == ONE_BITS,
            r.0.description_spec() == "Standard bounds"@,
            r.0.note_spec() == BoundNote::Defaulted,
            r.1 == Action::Ask(Prompt::MinBound),
    {
        (
            Self {
                phase: Phase::EnteringMin,
                round: 1,
                min: Double { bits: MINUS_ONE_BITS },
                max: Double { bits: ONE_BITS },
                description: "Standard bounds".to_owned(),
                note: BoundNote::Defaulted,
            },
            Action::Ask(Prompt::MinBound),
        )
    }

    /// The operator typed a bound.  The lower bound falls back to `-1.0`, the
    /// upper to `1.0`.
    pub fn on_bound(&mut self, entry: BoundEntry) -> (action: Action)
        ensures
            final(self).round_spec() == old(self).round_spec(),
            final(self).description_spec() == old(self).description_spec(),
            action != Action::Execute,
            match old(self).phase_spec() {
                Phase::EnteringMin => {
                    let (bound, note) = resolved(entry, Double { bits: MINUS_ONE_BITS });
                    &&& final(self).phase_spec() == Phase::EnteringMax
                    &&& final(self).min_spec() == bound
                    &&& final(self).note_spec() == note
                    &&& final(self).max_spec() == old(self).max_spec()
                    &&& action == Action::Ask(Prompt::MaxBound)
                },
                Phase::EnteringMax => {
                    let (bound, note) = resolved(entry, Double { bits: ONE_BITS });
                    &&& final(self).phase_spec() == Phase::EnteringDescription
                    &&& final(self).max_spec() == bound
                    &&& final(self).note_spec() == note
                    &&& final(self).min_spec() == old(self).min_spec()
                    &&& action == Action::Ask(Prompt::Description)
                },
                _ => final(self).unchanged(old(self)) && action == Action::Ignored,
            },
    {
        proof {
            use_type_invariant(&*self);
        }
        match self.phase {
            Phase::EnteringMin => {
                let (bound, note) = resolve_bound(entry, Double { bits: MINUS_ONE_BITS });
                self.min = bound;
                self.note = note;
                self.phase = Phase::EnteringMax;
                Action::Ask(Prompt::MaxBound)
            },
            Phase::EnteringMax => {
                let (bound, note) = resolve_bound(entry, Double { bits: ONE_BITS });
                self.max = bound;
                self.note = note;
                self.phase = Phase::EnteringDescription;
                Action::Ask(Prompt::Description)
            },
            _ => Action::Ignored,
        }
    }

    /// The operator typed a line: the description, the answer to the request
    /// for approval, or the answer after a rejection.
    ///
    /// A cycle is asked for in one case only: an approval is awaited and the
    /// line approves.
    pub fn on_line(&mut self, line: &str) -> (action: Action)
        ensures
            final(self).min_spec() == old(self).min_spec(),
            final(self).max_spec() == old(self).max_spec(),
            final(self).note_spec() == old(self).note_spec(),
            (action == Action::Execute) == (old(self).phase_spec() == Phase::Approving && approves(
                line@,
            )),
            match old(self).phase_spec() {
                Phase::EnteringDescription => {
                    &&& final(self).description_spec() == description_of(line@)
                    &&& final(self).round_spec() == old(self).round_spec()
                    &&& match admission(old(self).min_spec(), old(self).max_spec()) {
                        Ok(()) => final(self).phase_spec() == Phase::Approving && action
                            == Action::Ask(Prompt::Approval),
                        Err(e) => final(self).phase_spec() == Phase::Refusing && action
                            == Action::Refuse(e),
                    }
                },
                Phase::Approving => {
                    &&& final(self).description_spec() == old(self).description_spec()
                    &&& final(self).round_spec() == old(self).round_spec()
                    &&& if approves(line@) {
                        final(self).phase_spec() == Phase::Executing && action == Action::Execute
                    } else {
                        final(self).phase_spec() == Phase::Rejected && action == Action::Ask(
                            Prompt::Continue,
                        )
                    }
                },
                Phase::Rejected => {
                    &&& final(self).description_spec() == old(self).description_spec()
                    &&& if exits(line@) {
                        &&& final(self).phase_spec() == Phase::Stopped
                        &&& final(self).round_spec() == old(self).round_spec()
                        &&& action == Action::Shutdown
                    } else {
                        &&& final(self).phase_spec() == Phase::EnteringMin
                        &&& final(self).round_spec() == next_round(old(self).round_spec())
                        &&& action == Action::Ask(Prompt::MinBound)
                    }
                },
                _ => final(self).unchanged(old(self)) && action == Action::Ignored,
            },
    {
        proof {
            use_type_invariant(&*self);
        }
        match self.phase {
            Phase::EnteringDescription => {
                self.description = resolve_description(line);
                if !self.min.is_finite() || !self.max.is_finite() {
                    self.phase = Phase::Refusing;
                    Action::Refuse(BoundsConstructionError::NonFinite)
                } else if self.min.ge(self.max) {
                    self.phase = Phase::Refusing;
                    Action::Refuse(BoundsConstructionError::Inverted)
                } else {
                    self.phase = Phase::Approving;
                    Action::Ask(Prompt::Approval)
                }
            },
            Phase::Approving => {
                if is_approval(line) {
                    self.phase = Phase::Executing;
                    Action::Execute
                } else {
                    self.phase = Phase::Rejected;
                    Action::Ask(Prompt::Continue)
                }
            },
            Phase::Rejected => {
                if is_exit(line) {
                    self.phase = Phase::Stopped;
                    Action::Shutdown
                } else {
                    self.begin_round();
                    Action::Ask(Prompt::MinBound)
                }
            },
            _ => Action::Ignored,
        }
    }

    fn begin_round(&mut self)
        ensures
            final(self).phase == Phase::EnteringMin,
            final(self).round == next_round(old(self).round),
            final(self).min == old(self).min,
            final(self).max == old(self).max,
            final(self).description == old(self).description,
            final(self).note == old(self).note,
    {
        proof {
            use_type_invariant(&*self);
        }
        self.phase = Phase::EnteringMin;
        if self.round < u64::MAX {
            self.round = self.round + 1;
        }
    }

    /// A cycle ended.  A failed cycle halts the loop for good; a completed one
    /// is followed by the pause that fills up the target time.
    pub fn on_cycle(&mut self, succeeded: bool, elapsed_nanos: u64) -> (action: Action)
        ensures
            final(self).same_intent(old(self)),
            final(self).round_spec() == old(self).round_spec(),
            action != Action::Execute,
            if old(self).phase_spec() == Phase::Executing {
                if succeeded {
                    final(self).phase_spec() == Phase::Pausing && action == pause_after(
                        elapsed_nanos,
                    )
                } else {
                    final(self).phase_spec() == Phase::Halted && action == Action::Halt
                }
            } else {
                final(self).unchanged(old(self)) && action == Action::Ignored
            },
    {
        proof {
            use_type_invariant(&*self);
        }
        match self.phase {
            Phase::Executing => {
                if !succeeded {
                    self.phase = Phase::Halted;
                    Action::Halt
                } else {
                    self.phase = Phase::Pausing;
                    if elapsed_nanos < CYCLE_TARGET_NANOS {
                        Action::Pause { nanos: CYCLE_TARGET_NANOS - elapsed_nanos, overrun: false }
                    } else {
                        Action::Pause { nanos: 0, overrun: true }
                    }
                }
            },
            _ => Action::Ignored,
        }
    }

    /// The caller has told the operator of a refusal, or has slept.  After a
    /// refusal the bounds are asked for again in the same round; after a
    /// pause the next round begins.
    pub fn on_resumed(&mut self) -> (action: Action)
        ensures
            final(self).same_intent(old(self)),
            action != Action::Execute,
            match old(self).phase_spec() {
                Phase::Refusing => {
                    &&& final(self).phase_spec() == Phase::EnteringMin
                    &&& final(self).round_spec() == old(self).round_spec()
                    &&& action == Action::Ask(Prompt::MinBound)
                },
                Phase::Pausing => {
                    &&& final(self).phase_spec() == Phase::EnteringMin
                    &&& final(self).round_spec() == next_round(old(self).round_spec())
                    &&& action == Action::Ask(Prompt::MinBound)
                },
                _ => final(self).unchanged(old(self)) && action == Action::Ignored,
            },
    {
        proof {
            use_type_invariant(&*self);
        }
        match self.phase {
            Phase::Refusing => {
                self.phase = Phase::EnteringMin;
                Action::Ask(Prompt::MinBound)
            },
            Phase::Pausing => {
                self.begin_round();
                Action::Ask(Prompt::MinBound)
            },
            _ => Action::Ignored,
        }
    }

    /// The intent that the operator is asked to approve, or has approved.
    pub fn intent(&self) -> (intent: Option<OperatorIntent>)
        ensures
            intent.is_some() == (self.phase_spec() == Phase::Approving || self.phase_spec()
                == Phase::Executing),
            intent.is_some() ==> {
                &&& intent.unwrap().min_bound == self.min_spec()
                &&& intent.unwrap().max_bound == self.max_spec()
                &&& intent.unwrap().description@ == self.description_spec()
                &&& intent.unwrap().valid()
            },
    {
        proof {
            use_type_invariant(self);
        }
        match self.phase {
            Phase::Approving | Phase::Executing => {
                match OperatorIntent::new(self.min, self.max, self.description.clone()) {
                    Ok(intent) => Some(intent),
                    Err(_) => None,
                }
            },
            _ => None,
        }
    }

    /// The bounds as entered so far, admissible or not.
    pub fn entered_bounds(&self) -> (bounds: (Double, Double))
        ensures
            bounds == (self.min_spec(), self.max_spec()),
    {
        (self.min, self.max)
    }

    pub fn phase(&self) -> (phase: Phase)
        ensures
            phase == self.phase_spec(),
    {
        self.phase
    }

    pub fn round(&self) -> (round: u64)
        ensures
            round == self.round_spec(),
    {
        self.round
    }

    /// How the bound entered last was arrived at.
    pub fn bound_note(&self) -> (note: BoundNote)
        ensures
            note == self.note_spec(),
    {
        self.note
    }
}

} // verus!
