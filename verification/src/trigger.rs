//! The trigger data model: one monitored condition, the errors the registry
//! operations return, and the notifications they emit.

use vstd::prelude::*;

verus! {

/// Mathematical model of a [`Trigger`]: every text field as a sequence of
/// characters, plus the two flags.
#[verifier::ext_equal]
pub struct TriggerSpec {
    pub trigger_type: Seq<char>,
    pub phase: Seq<char>,
    pub title: Seq<char>,
    pub source: Seq<char>,
    pub river_basin: Seq<char>,
    pub params_hash: Seq<char>,
    pub is_mandatory: bool,
    pub is_triggered: bool,
}

/// One monitored condition. The identifier under which it is registered is
/// held by the registry, not by the trigger itself.
///
/// `source` and `params_hash` are mutable after creation; `is_triggered`
/// may move from `false` to `true` exactly once and never back; all other
/// fields are immutable once the trigger is created.
#[derive(Debug, PartialEq, Eq)]
pub struct Trigger {
    pub trigger_type: String,
    pub phase: String,
    pub title: String,
    pub source: String,
    pub river_basin: String,
    pub params_hash: String,
    pub is_mandatory: bool,
    pub is_triggered: bool,
}

impl View for Trigger {
    type V = TriggerSpec;

    open spec fn view(&self) -> TriggerSpec {
        TriggerSpec {
            trigger_type: self.trigger_type@,
            phase: self.phase@,
            title: self.title@,
            source: self.source@,
            river_basin: self.river_basin@,
            params_hash: self.params_hash@,
            is_mandatory: self.is_mandatory,
            is_triggered: self.is_triggered,
        }
    }
}

impl Clone for Trigger {
    fn clone(&self) -> (res: Self)
        ensures
            res@ == self@,
    {
        Trigger {
            trigger_type: self.trigger_type.clone(),
            phase: self.phase.clone(),
            title: self.title.clone(),
            source: self.source.clone(),
            river_basin: self.river_basin.clone(),
            params_hash: self.params_hash.clone(),
            is_mandatory: self.is_mandatory,
            is_triggered: self.is_triggered,
        }
    }
}

/// Why a registry operation was refused. Every failure is reported as a
/// value; a failing operation changes nothing and emits nothing.
#[derive(Clone, Copy, Debug, PartialEq, Eq, Structural)]
pub enum TriggerError {
    /// A trigger with the requested id already exists; creation refused.
    TriggerAlreadyExists,
    /// No trigger with the requested id exists.
    TriggerNotFound,
    /// The request would move `is_triggered` from `true` back to `false`.
    InvalidTriggerState,
}

/// Mathematical model of a [`TriggerEvent`].
#[verifier::ext_equal]
pub enum EventSpec {
    Added(Seq<char>, TriggerSpec),
    Triggered(Seq<char>, TriggerSpec),
    Updated(Seq<char>, TriggerSpec),
}

/// A notification emitted by a successful mutating operation, carrying the
/// trigger's id and a snapshot of the trigger as stored after the call.
#[derive(Debug, PartialEq, Eq)]
pub enum TriggerEvent {
    /// A new trigger was created under a fresh id.
    Added(String, Trigger),
    /// A trigger moved from untriggered to triggered.
    Triggered(String, Trigger),
    /// A trigger's stored fields were rewritten (including by triggering).
    Updated(String, Trigger),
}

impl View for TriggerEvent {
    type V = EventSpec;

    open spec fn view(&self) -> EventSpec {
        match self {
            TriggerEvent::Added(id, t) => EventSpec::Added(id@, t@),
            TriggerEvent::Triggered(id, t) => EventSpec::Triggered(id@, t@),
            TriggerEvent::Updated(id, t) => EventSpec::Updated(id@, t@),
        }
    }
}

} // verus!
