//! Laws of the registry, stated over the transition functions that the
//! operations' contracts use and proved once for all inputs.

use vstd::prelude::*;

use crate::registry::RegistryView;
use crate::registry::new_trigger_spec;
use crate::registry::spec_add;
use crate::registry::spec_get;
use crate::registry::spec_mark;
use crate::registry::spec_update;
use crate::trigger::EventSpec;
use crate::trigger::TriggerError;
use crate::trigger::TriggerSpec;

verus! {

/// Creating a trigger under a fresh id succeeds, and reading that id back
/// returns exactly the supplied fields, with the triggered flag off.
pub proof fn lemma_add_then_get(
    reg: RegistryView,
    id: Seq<char>,
    trigger_type: Seq<char>,
    phase: Seq<char>,
    title: Seq<char>,
    source: Seq<char>,
    river_basin: Seq<char>,
    params_hash: Seq<char>,
    is_mandatory: bool,
)
    requires
        !reg.triggers.contains_key(id),
    ensures
        ({
            let o = spec_add(
                reg,
                id,
                trigger_type,
                phase,
                title,
                source,
                river_basin,
                params_hash,
                is_mandatory,
            );
            o.1 == Ok::<(), TriggerError>(()) && spec_get(o.0, id) == Some(
                new_trigger_spec(
                    trigger_type,
                    phase,
                    title,
                    source,
                    river_basin,
                    params_hash,
                    is_mandatory,
                ),
            ) && !new_trigger_spec(
                trigger_type,
                phase,
                title,
                source,
                river_basin,
                params_hash,
                is_mandatory,
            ).is_triggered
        }),
{
}

/// Creating a trigger under a taken id is refused with
/// `TriggerAlreadyExists`, and the whole registry — the existing entry's
/// fields and flag included — stays exactly as it was, with no new
/// notification.
pub proof fn lemma_add_duplicate(
    reg: RegistryView,
    id: Seq<char>,
    trigger_type: Seq<char>,
    phase: Seq<char>,
    title: Seq<char>,
    source: Seq<char>,
    river_basin: Seq<char>,
    params_hash: Seq<char>,
    is_mandatory: bool,
)
    requires
        reg.triggers.contains_key(id),
    ensures
        ({
            let o = spec_add(
                reg,
                id,
                trigger_type,
                phase,
                title,
                source,
                river_basin,
                params_hash,
                is_mandatory,
            );
            o.1 == Err::<(), TriggerError>(TriggerError::TriggerAlreadyExists) && o.0 == reg
                && spec_get(o.0, id) == spec_get(reg, id)
        }),
{
}

/// Reading an id that the registry does not hold returns nothing.
pub proof fn lemma_get_absent(reg: RegistryView, id: Seq<char>)
    requires
        !reg.triggers.contains_key(id),
    ensures
        spec_get(reg, id) == None::<TriggerSpec>,
{
}

/// Only creation introduces an id: a successful creation extends the set
/// of stored ids by exactly the new id and leaves every other entry as it
/// was, while updates and markings never change the set of stored ids.
pub proof fn lemma_only_add_creates(
    reg: RegistryView,
    id: Seq<char>,
    trigger_type: Seq<char>,
    phase: Seq<char>,
    title: Seq<char>,
    source: Seq<char>,
    river_basin: Seq<char>,
    params_hash: Seq<char>,
    is_mandatory: bool,
    new_params_hash: Option<Seq<char>>,
    new_source: Option<Seq<char>>,
    set_triggered: Option<bool>,
)
    ensures
        spec_update(
            reg,
            id,
            new_params_hash,
            new_source,
            set_triggered,
        ).0.triggers.dom() == reg.triggers.dom(),
        spec_mark(reg, id).0.triggers.dom() == reg.triggers.dom(),
        !reg.triggers.contains_key(id) ==> spec_add(
            reg,
            id,
            trigger_type,
            phase,
            title,
            source,
            river_basin,
            params_hash,
            is_mandatory,
        ).0.triggers.dom() == reg.triggers.dom().insert(id),
        forall|k: Seq<char>|
            k != id && reg.triggers.contains_key(k) ==> spec_add(
                reg,
                id,
                trigger_type,
                phase,
                title,
                source,
                river_basin,
                params_hash,
                is_mandatory,
            ).0.triggers[k] == reg.triggers[k],
{
    assert(spec_update(
        reg,
        id,
        new_params_hash,
        new_source,
        set_triggered,
    ).0.triggers.dom() =~= reg.triggers.dom());
    assert(spec_mark(reg, id).0.triggers.dom() =~= reg.triggers.dom());
    if !reg.triggers.contains_key(id) {
        assert(spec_add(
            reg,
            id,
            trigger_type,
            phase,
            title,
            source,
            river_basin,
            params_hash,
            is_mandatory,
        ).0.triggers.dom() =~= reg.triggers.dom().insert(id));
    }
}

/// Marking is idempotent: once a marking succeeds, marking the same id
/// again succeeds and is a complete no-op — same table, same
/// notifications.
pub proof fn lemma_mark_idempotent(reg: RegistryView, id: Seq<char>)
    ensures
        ({
            let once = spec_mark(reg, id);
            let twice = spec_mark(once.0, id);
            once.1 == Ok::<(), TriggerError>(()) ==> twice.1 == Ok::<(), TriggerError>(())
                && twice.0 == once.0
        }),
{
}

/// Requesting the forward transition again through a partial update, after
/// the trigger has fired, succeeds and leaves the stored table unchanged;
/// it appends only the `Updated` notification, never a second `Triggered`
/// one.
pub proof fn lemma_retrigger_is_noop(reg: RegistryView, id: Seq<char>)
    requires
        reg.triggers.contains_key(id),
        reg.triggers[id].is_triggered,
    ensures
        ({
            let o = spec_update(reg, id, None, None, Some(true));
            o.1 == Ok::<(), TriggerError>(()) && o.0.triggers == reg.triggers && o.0.events
                == reg.events.push(EventSpec::Updated(id, reg.triggers[id]))
        }),
{
    let o = spec_update(reg, id, None, None, Some(true));
    assert(o.0.triggers =~= reg.triggers);
}

/// The triggered flag never moves back: asking a partial update to turn it
/// off on a triggered entry is refused with `InvalidTriggerState`, the
/// registry stays exactly as it was, and the stored flag stays on.
pub proof fn lemma_no_untrigger(
    reg: RegistryView,
    id: Seq<char>,
    new_params_hash: Option<Seq<char>>,
    new_source: Option<Seq<char>>,
)
    requires
        reg.triggers.contains_key(id),
        reg.triggers[id].is_triggered,
    ensures
        ({
            let o = spec_update(reg, id, new_params_hash, new_source, Some(false));
            o.1 == Err::<(), TriggerError>(TriggerError::InvalidTriggerState) && o.0 == reg
                && o.0.triggers[id].is_triggered
        }),
{
}

/// A successful partial update changes exactly the fields that were
/// supplied: an absent argument leaves its field untouched, the immutable
/// fields never change, and every other entry of the table is exactly as
/// it was.
pub proof fn lemma_update_frame(
    reg: RegistryView,
    id: Seq<char>,
    new_params_hash: Option<Seq<char>>,
    new_source: Option<Seq<char>>,
    set_triggered: Option<bool>,
)
    requires
        reg.triggers.contains_key(id),
    ensures
        ({
            let o = spec_update(reg, id, new_params_hash, new_source, set_triggered);
            o.1 == Ok::<(), TriggerError>(()) ==> {
                let before = reg.triggers[id];
                let after = o.0.triggers[id];
                &&& after.trigger_type == before.trigger_type
                &&& after.phase == before.phase
                &&& after.title == before.title
                &&& after.river_basin == before.river_basin
                &&& after.is_mandatory == before.is_mandatory
                &&& (new_params_hash matches Some(p) ==> after.params_hash == p)
                &&& (new_params_hash is None ==> after.params_hash == before.params_hash)
                &&& (new_source matches Some(s) ==> after.source == s)
                &&& (new_source is None ==> after.source == before.source)
                &&& (set_triggered is None ==> after.is_triggered == before.is_triggered)
                &&& o.0.triggers.dom() == reg.triggers.dom()
                &&& forall|k: Seq<char>|
                    k != id && reg.triggers.contains_key(k) ==> o.0.triggers[k]
                        == reg.triggers[k]
            }
        }),
{
    let o = spec_update(reg, id, new_params_hash, new_source, set_triggered);
    if o.1 == Ok::<(), TriggerError>(()) {
        assert(o.0.triggers.dom() =~= reg.triggers.dom());
    }
}

/// The triggered flag is monotonic under every operation: whatever a
/// partial update or a marking does, and whichever entry it targets, an
/// entry whose flag is on keeps it on.
pub proof fn lemma_triggered_monotonic(
    reg: RegistryView,
    id: Seq<char>,
    new_params_hash: Option<Seq<char>>,
    new_source: Option<Seq<char>>,
    set_triggered: Option<bool>,
    k: Seq<char>,
)
    requires
        reg.triggers.contains_key(k),
        reg.triggers[k].is_triggered,
    ensures
        ({
            let o = spec_update(reg, id, new_params_hash, new_source, set_triggered);
            o.0.triggers.contains_key(k) && o.0.triggers[k].is_triggered
        }),
        ({
            let o = spec_mark(reg, id);
            o.0.triggers.contains_key(k) && o.0.triggers[k].is_triggered
        }),
{
}

} // verus!
