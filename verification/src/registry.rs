//! The trigger registry: an id-keyed table of triggers together with the
//! stream of notifications that successful mutations emit.
//!
//! The host that owns the persisted table loads it, applies exactly one
//! operation, and stores it back; the event stream records what must be
//! published for that call. Every operation is specified against the
//! mathematical transition functions [`spec_add`], [`spec_get`],
//! [`spec_update`] and [`spec_mark`] over a [`RegistryView`].

use vstd::prelude::*;

use crate::trigger::EventSpec;
use crate::trigger::Trigger;
use crate::trigger::TriggerError;
use crate::trigger::TriggerEvent;
use crate::trigger::TriggerSpec;

verus! {

/// Mathematical model of the registry: the id-keyed table of triggers and
/// the notifications emitted so far, in order.
#[verifier::ext_equal]
pub struct RegistryView {
    pub triggers: Map<Seq<char>, TriggerSpec>,
    pub events: Seq<EventSpec>,
}

/// The trigger a successful creation stores: the supplied fields, untriggered.
pub open spec fn new_trigger_spec(
    trigger_type: Seq<char>,
    phase: Seq<char>,
    title: Seq<char>,
    source: Seq<char>,
    river_basin: Seq<char>,
    params_hash: Seq<char>,
    is_mandatory: bool,
) -> TriggerSpec {
    TriggerSpec {
        trigger_type: trigger_type,
        phase: phase,
        title: title,
        source: source,
        river_basin: river_basin,
        params_hash: params_hash,
        is_mandatory: is_mandatory,
        is_triggered: false,
    }
}

/// Transition of a creation request: refused without effect when the id is
/// taken, otherwise the new trigger is stored and one `Added` notification
/// is appended.
pub open spec fn spec_add(
    reg: RegistryView,
    id: Seq<char>,
    trigger_type: Seq<char>,
    phase: Seq<char>,
    title: Seq<char>,
    source: Seq<char>,
    river_basin: Seq<char>,
    params_hash: Seq<char>,
    is_mandatory: bool,
) -> (RegistryView, Result<(), TriggerError>) {
    if reg.triggers.contains_key(id) {
        (reg, Err(TriggerError::TriggerAlreadyExists))
    } else {
        let t = new_trigger_spec(
            trigger_type,
            phase,
            title,
            source,
            river_basin,
            params_hash,
            is_mandatory,
        );
        (
            RegistryView {
                triggers: reg.triggers.insert(id, t),
                events: reg.events.push(EventSpec::Added(id, t)),
            },
            Ok(()),
        )
    }
}

/// Result of a read: the stored trigger, or nothing when the id is absent.
pub open spec fn spec_get(reg: RegistryView, id: Seq<char>) -> Option<TriggerSpec> {
    if reg.triggers.contains_key(id) {
        Some(reg.triggers[id])
    } else {
        None
    }
}

/// A trigger with the optional replacement fields applied and every other
/// field kept.
pub open spec fn patched(
    t: TriggerSpec,
    new_params_hash: Option<Seq<char>>,
    new_source: Option<Seq<char>>,
) -> TriggerSpec {
    TriggerSpec {
        trigger_type: t.trigger_type,
        phase: t.phase,
        title: t.title,
        source: match new_source {
            Some(s) => s,
            None => t.source,
        },
        river_basin: t.river_basin,
        params_hash: match new_params_hash {
            Some(p) => p,
            None => t.params_hash,
        },
        is_mandatory: t.is_mandatory,
        is_triggered: t.is_triggered,
    }
}

/// Transition of a partial update. Absent id: refused without effect.
/// A request to turn the triggered flag back off: refused without effect.
/// Otherwise the optional fields are applied; a genuine forward transition
/// of the flag appends a `Triggered` notification, and every successful
/// update appends an `Updated` notification carrying the final trigger.
pub open spec fn spec_update(
    reg: RegistryView,
    id: Seq<char>,
    new_params_hash: Option<Seq<char>>,
    new_source: Option<Seq<char>>,
    set_triggered: Option<bool>,
) -> (RegistryView, Result<(), TriggerError>) {
    if !reg.triggers.contains_key(id) {
        (reg, Err(TriggerError::TriggerNotFound))
    } else {
        let t0 = reg.triggers[id];
        if set_triggered == Some(false) && t0.is_triggered {
            (reg, Err(TriggerError::InvalidTriggerState))
        } else {
            let fires = set_triggered == Some(true) && !t0.is_triggered;
            let t1 = patched(t0, new_params_hash, new_source);
            let t2 = TriggerSpec {
                trigger_type: t1.trigger_type,
                phase: t1.phase,
                title: t1.title,
                source: t1.source,
                river_basin: t1.river_basin,
                params_hash: t1.params_hash,
                is_mandatory: t1.is_mandatory,
                is_triggered: t0.is_triggered || fires,
            };
            let evs = if fires {
                reg.events.push(EventSpec::Triggered(id, t2)).push(EventSpec::Updated(id, t2))
            } else {
                reg.events.push(EventSpec::Updated(id, t2))
            };
            (RegistryView { triggers: reg.triggers.insert(id, t2), events: evs }, Ok(()))
        }
    }
}

/// Transition of the one-purpose triggering entry point. Absent id: refused
/// without effect. Already triggered: an idempotent no-op that still
/// succeeds, with no new notification. Otherwise the flag moves to `true`
/// and one `Triggered` notification is appended.
pub open spec fn spec_mark(reg: RegistryView, id: Seq<char>) -> (
    RegistryView,
    Result<(), TriggerError>,
) {
    if !reg.triggers.contains_key(id) {
        (reg, Err(TriggerError::TriggerNotFound))
    } else if reg.triggers[id].is_triggered {
        (reg, Ok(()))
    } else {
        let t0 = reg.triggers[id];
        let t = TriggerSpec {
            trigger_type: t0.trigger_type,
            phase: t0.phase,
            title: t0.title,
            source: t0.source,
            river_basin: t0.river_basin,
            params_hash: t0.params_hash,
            is_mandatory: t0.is_mandatory,
            is_triggered: true,
        };
        (
            RegistryView {
                triggers: reg.triggers.insert(id, t),
                events: reg.events.push(EventSpec::Triggered(id, t)),
            },
            Ok(()),
        )
    }
}

/// The view of an optional owned string.
pub open spec fn opt_str_view(o: Option<String>) -> Option<Seq<char>> {
    match o {
        Some(s) => Some(s@),
        None => None,
    }
}

/// The view of an optional returned trigger.
pub open spec fn opt_trigger_view(o: Option<Trigger>) -> Option<TriggerSpec> {
    match o {
        Some(t) => Some(t@),
        None => None,
    }
}

/// No id occurs twice among the entries.
pub open spec fn unique_ids(s: Seq<(String, Trigger)>) -> bool {
    forall|i: int, j: int| 0 <= i < j < s.len() ==> s[i].0@ != s[j].0@
}

/// The id-keyed table that a sequence of entries denotes; on a duplicate
/// id the later entry wins.
pub open spec fn entries_map(s: Seq<(String, Trigger)>) -> Map<Seq<char>, TriggerSpec>
    decreases s.len(),
{
    if s.len() == 0 {
        Map::empty()
    } else {
        entries_map(s.drop_last()).insert(s.last().0@, s.last().1@)
    }
}

proof fn lemma_entries_map_domain(s: Seq<(String, Trigger)>, k: Seq<char>)
    ensures
        entries_map(s).contains_key(k) <==> (exists|i: int|
            0 <= i < s.len() && s[i].0@ == k),
    decreases s.len(),
{
    if s.len() > 0 {
        lemma_entries_map_domain(s.drop_last(), k);
        if s.last().0@ == k {
            assert(s[s.len() - 1].0@ == k);
        } else {
            if entries_map(s).contains_key(k) {
                let i = choose|i: int| 0 <= i < s.drop_last().len() && s.drop_last()[i].0@ == k;
                assert(s[i].0@ == k);
            }
            if exists|i: int| 0 <= i < s.len() && s[i].0@ == k {
                let i = choose|i: int| 0 <= i < s.len() && s[i].0@ == k;
                assert(s.drop_last()[i].0@ == k);
            }
        }
    }
}

proof fn lemma_entries_map_index(s: Seq<(String, Trigger)>, i: int)
    requires
        unique_ids(s),
        0 <= i < s.len(),
    ensures
        entries_map(s).contains_key(s[i].0@),
        entries_map(s)[s[i].0@] == s[i].1@,
    decreases s.len(),
{
    if i < s.len() - 1 {
        assert(unique_ids(s.drop_last())) by {
            assert forall|a: int, b: int|
                0 <= a < b < s.drop_last().len() implies s.drop_last()[a].0@
                != s.drop_last()[b].0@ by {
                assert(s[a].0@ != s[b].0@);
            }
        }
        lemma_entries_map_index(s.drop_last(), i);
        assert(s.drop_last()[i] == s[i]);
        assert(s.last().0@ != s[i].0@);
    }
}

proof fn lemma_entries_map_update(s: Seq<(String, Trigger)>, i: int, p: (String, Trigger))
    requires
        unique_ids(s),
        0 <= i < s.len(),
        p.0@ == s[i].0@,
    ensures
        entries_map(s.update(i, p)) =~= entries_map(s).insert(p.0@, p.1@),
        unique_ids(s.update(i, p)),
    decreases s.len(),
{
    let t = s.update(i, p);
    assert(forall|j: int| 0 <= j < s.len() ==> t[j].0@ == s[j].0@);
    if i == s.len() - 1 {
        assert(t.drop_last() =~= s.drop_last());
        assert(entries_map(t) =~= entries_map(s).insert(p.0@, p.1@));
    } else {
        assert(unique_ids(s.drop_last())) by {
            assert forall|a: int, b: int|
                0 <= a < b < s.drop_last().len() implies s.drop_last()[a].0@
                != s.drop_last()[b].0@ by {
                assert(s[a].0@ != s[b].0@);
            }
        }
        assert(t.drop_last() =~= s.drop_last().update(i, p));
        lemma_entries_map_update(s.drop_last(), i, p);
        assert(s.last().0@ != p.0@);
        assert(entries_map(t) =~= entries_map(s).insert(p.0@, p.1@));
    }
}

/// The registry itself: the id-keyed table of triggers, with the
/// notifications emitted by successful operations since construction.
pub struct Contract {
    entries: Vec<(String, Trigger)>,
    events: Vec<TriggerEvent>,
}

impl View for Contract {
    type V = RegistryView;

    closed spec fn view(&self) -> RegistryView {
        RegistryView {
            triggers: entries_map(self.entries@),
            events: self.events@.map_values(|e: TriggerEvent| e@),
        }
    }
}

impl Contract {
    /// Well-formedness: no id is stored twice.
    pub closed spec fn wf(&self) -> bool {
        unique_ids(self.entries@)
    }

    /// An empty registry: no triggers, no notifications.
    pub fn new() -> (r: Contract)
        ensures
            r.wf(),
            r@.triggers == Map::<Seq<char>, TriggerSpec>::empty(),
            r@.events == Seq::<EventSpec>::empty(),
    {
        let r = Contract { entries: Vec::new(), events: Vec::new() };
        proof {
            assert(r@.triggers =~= Map::<Seq<char>, TriggerSpec>::empty());
            assert(r@.events =~= Seq::<EventSpec>::empty());
        }
        r
    }

    fn find_index(&self, id: &String) -> (r: Option<usize>)
        requires
            self.wf(),
        ensures
            match r {
                Some(i) => i < self.entries@.len() && self.entries@[i as int].0@ == id@
                    && self@.triggers.contains_key(id@) && self@.triggers[id@]
                    == self.entries@[i as int].1@,
                None => !self@.triggers.contains_key(id@),
            },
    {
        let n: usize = self.entries.len();
        let mut i: usize = 0;
        while i < n
            invariant
                self.wf(),
                n == self.entries@.len(),
                i <= n,
                forall|j: int| 0 <= j < i ==> self.entries@[j].0@ != id@,
            decreases n - i,
        {
            if self.entries[i].0 == *id {
                proof {
                    lemma_entries_map_index(self.entries@, i as int);
                }
                return Some(i);
            }
            i += 1;
        }
        proof {
            lemma_entries_map_domain(self.entries@, id@);
        }
        None
    }

    /// Creates a trigger under a caller-chosen id. Refused with
    /// `TriggerAlreadyExists`, changing nothing and emitting nothing, when
    /// the id is already taken; otherwise the trigger is stored with
    /// `is_triggered` set to `false` and one `Added` notification is
    /// appended. This is the sole path that introduces a new id.
    pub fn add_trigger(
        &mut self,
        id: String,
        trigger_type: String,
        phase: String,
        title: String,
        source: String,
        river_basin: String,
        params_hash: String,
        is_mandatory: bool,
    ) -> (r: Result<(), TriggerError>)
        requires
            old(self).wf(),
        ensures
            final(self).wf(),
            ({
                let outcome = spec_add(
                    old(self)@,
                    id@,
                    trigger_type@,
                    phase@,
                    title@,
                    source@,
                    river_basin@,
                    params_hash@,
                    is_mandatory,
                );
                final(self)@ == outcome.0 && r == outcome.1
            }),
    {
        match self.find_index(&id) {
            Some(_) => Err(TriggerError::TriggerAlreadyExists),
            None => {
                let trigger = Trigger {
                    trigger_type: trigger_type,
                    phase: phase,
                    title: title,
                    source: source,
                    river_basin: river_basin,
                    params_hash: params_hash,
                    is_mandatory: is_mandatory,
                    is_triggered: false,
                };
                let snapshot = trigger.clone();
                let ghost s0 = self.entries@;
                let ghost e0 = self.events@;
                proof {
                    lemma_entries_map_domain(s0, id@);
                }
                self.entries.push((id.clone(), trigger));
                self.events.push(TriggerEvent::Added(id, snapshot));
                proof {
                    assert(self.entries@.drop_last() =~= s0);
                    assert(self@.triggers =~= entries_map(s0).insert(
                        self.entries@.last().0@,
                        self.entries@.last().1@,
                    ));
                    assert(self@.events =~= e0.map_values(|e: TriggerEvent| e@).push(
                        self.events@.last()@,
                    ));
                }
                Ok(())
            },
        }
    }

    /// Reads the trigger stored under `id`, or nothing when the id is
    /// absent. No side effects: the table and the notification stream stay
    /// as they are.
    pub fn get_trigger(&self, id: String) -> (r: Option<Trigger>)
        requires
            self.wf(),
        ensures
            opt_trigger_view(r) == spec_get(self@, id@),
    {
        match self.find_index(&id) {
            Some(i) => Some(self.entries[i].1.clone()),
            None => None,
        }
    }

    /// Partially updates the trigger stored under `id`: each optional
    /// argument that is present overwrites its field, the others stay
    /// untouched. Refused with `TriggerNotFound` when the id is absent, and
    /// with `InvalidTriggerState` when the call asks to turn the triggered
    /// flag back off; both refusals change nothing and emit nothing. A
    /// genuine forward transition of the flag appends a `Triggered`
    /// notification; every successful call appends an `Updated`
    /// notification carrying the trigger as finally stored.
    pub fn update_trigger_params(
        &mut self,
        id: String,
        new_params_hash: Option<String>,
        new_source: Option<String>,
        is_triggered: Option<bool>,
    ) -> (r: Result<(), TriggerError>)
        requires
            old(self).wf(),
        ensures
            final(self).wf(),
            ({
                let outcome = spec_update(
                    old(self)@,
                    id@,
                    opt_str_view(new_params_hash),
                    opt_str_view(new_source),
                    is_triggered,
                );
                final(self)@ == outcome.0 && r == outcome.1
            }),
    {
        let idx = match self.find_index(&id) {
            None => {
                return Err(TriggerError::TriggerNotFound);
            },
            Some(i) => i,
        };
        let currently_triggered = self.entries[idx].1.is_triggered;
        let fires: bool = match is_triggered {
            Some(requested) => {
                if !requested && currently_triggered {
                    return Err(TriggerError::InvalidTriggerState);
                }
                requested && !currently_triggered
            },
            None => false,
        };
        let mut updated = self.entries[idx].1.clone();
        if let Some(hash) = new_params_hash {
            updated.params_hash = hash;
        }
        if let Some(src) = new_source {
            updated.source = src;
        }
        if fires {
            updated.is_triggered = true;
        }
        let ghost s0 = self.entries@;
        let ghost e0 = self.events@;
        let stored = updated.clone();
        self.entries[idx] = (id.clone(), stored);
        if fires {
            self.events.push(TriggerEvent::Triggered(id.clone(), updated.clone()));
        }
        self.events.push(TriggerEvent::Updated(id, updated));
        proof {
            lemma_entries_map_update(s0, idx as int, self.entries@[idx as int]);
            assert(self@.events =~= self.events@.map_values(|e: TriggerEvent| e@));
            if fires {
                assert(self.events@ =~= e0.push(self.events@[self.events@.len() - 2]).push(
                    self.events@.last(),
                ));
                assert(self@.events =~= e0.map_values(|e: TriggerEvent| e@).push(
                    self.events@[self.events@.len() - 2]@,
                ).push(self.events@.last()@));
            } else {
                assert(self.events@.drop_last() =~= e0);
                assert(self@.events =~= e0.map_values(|e: TriggerEvent| e@).push(
                    self.events@.last()@,
                ));
            }
        }
        Ok(())
    }

    /// Marks the trigger stored under `id` as triggered. Refused with
    /// `TriggerNotFound` when the id is absent. Marking an already
    /// triggered trigger is an idempotent no-op that still succeeds and
    /// emits nothing. A genuine forward transition stores the flag and
    /// appends one `Triggered` notification.
    pub fn mark_triggered(&mut self, id: String) -> (r: Result<(), TriggerError>)
        requires
            old(self).wf(),
        ensures
            final(self).wf(),
            ({
                let outcome = spec_mark(old(self)@, id@);
                final(self)@ == outcome.0 && r == outcome.1
            }),
    {
        let idx = match self.find_index(&id) {
            None => {
                return Err(TriggerError::TriggerNotFound);
            },
            Some(i) => i,
        };
        if self.entries[idx].1.is_triggered {
            return Ok(());
        }
        let mut updated = self.entries[idx].1.clone();
        updated.is_triggered = true;
        let ghost s0 = self.entries@;
        let ghost e0 = self.events@;
        let stored = updated.clone();
        self.entries[idx] = (id.clone(), stored);
        self.events.push(TriggerEvent::Triggered(id, updated));
        proof {
            lemma_entries_map_update(s0, idx as int, self.entries@[idx as int]);
            assert(self.events@.drop_last() =~= e0);
            assert(self@.events =~= e0.map_values(|e: TriggerEvent| e@).push(
                self.events@.last()@,
            ));
        }
        Ok(())
    }

    /// Rebuilds a registry from a persisted table handed over as plain
    /// entries, with an empty notification stream. Returns nothing when
    /// two entries carry the same id: no run of this registry ever stores
    /// such a table.
    pub fn from_entries(entries: Vec<(String, Trigger)>) -> (r: Option<Contract>)
        ensures
            match r {
                Some(c) => c.wf() && c@.triggers == entries_map(entries@) && c@.events
                    == Seq::<EventSpec>::empty(),
                None => !unique_ids(entries@),
            },
    {
        let n: usize = entries.len();
        let mut i: usize = 0;
        while i < n
            invariant
                n == entries@.len(),
                i <= n,
                forall|a: int, b: int| 0 <= a < b < i ==> entries@[a].0@ != entries@[b].0@,
            decreases n - i,
        {
            let mut j: usize = 0;
            while j < i
                invariant
                    n == entries@.len(),
                    i < n,
                    j <= i,
                    forall|a: int, b: int| 0 <= a < b < i ==> entries@[a].0@ != entries@[b].0@,
                    forall|a: int| 0 <= a < j ==> entries@[a].0@ != entries@[i as int].0@,
                decreases i - j,
            {
                if entries[j].0 == entries[i].0 {
                    return None;
                }
                j += 1;
            }
            i += 1;
        }
        let c = Contract { entries: entries, events: Vec::new() };
        proof {
            assert(c@.events =~= Seq::<EventSpec>::empty());
        }
        Some(c)
    }

    /// The stored table as plain entries, for the host to persist; each id
    /// occurs once.
    pub fn entries(&self) -> (r: &Vec<(String, Trigger)>)
        requires
            self.wf(),
        ensures
            unique_ids(r@),
            entries_map(r@) == self@.triggers,
    {
        &self.entries
    }

    /// The notifications emitted by the successful mutating operations on
    /// this registry since its construction, oldest first.
    pub fn events(&self) -> (r: &Vec<TriggerEvent>)
        ensures
            r@.map_values(|e: TriggerEvent| e@) == self@.events,
    {
        &self.events
    }
}

} // verus!
