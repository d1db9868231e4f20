use trigger_registry::registry::Contract;
use trigger_registry::trigger::Trigger;
use trigger_registry::trigger::TriggerError;
use trigger_registry::trigger::TriggerEvent;

fn add(
    c: &mut Contract,
    id: &str,
    trigger_type: &str,
    phase: &str,
    title: &str,
    source: &str,
    river_basin: &str,
    params_hash: &str,
    is_mandatory: bool,
) -> Result<(), TriggerError> {
    c.add_trigger(
        id.to_string(),
        trigger_type.to_string(),
        phase.to_string(),
        title.to_string(),
        source.to_string(),
        river_basin.to_string(),
        params_hash.to_string(),
        is_mandatory,
    )
}

#[test]
fn test_add_and_get_trigger() {
    let mut c = Contract::new();
    add(&mut c, "test1", "flood", "response", "Test", "sensor", "nile", "hash123", true)
        .unwrap();

    let stored = c.get_trigger("test1".to_string()).unwrap();
    assert_eq!(stored.title, "Test".to_string());
    assert_eq!(stored.trigger_type, "flood".to_string());
    assert_eq!(stored.phase, "response".to_string());
    assert_eq!(stored.source, "sensor".to_string());
    assert_eq!(stored.river_basin, "nile".to_string());
    assert_eq!(stored.params_hash, "hash123".to_string());
    assert_eq!(stored.is_mandatory, true);
    assert_eq!(stored.is_triggered, false);
}

#[test]
fn test_update_trigger_to_triggered() {
    let mut c = Contract::new();
    add(&mut c, "test2", "flood", "response", "Test", "sensor", "nile", "hash123", true)
        .unwrap();

    c.mark_triggered("test2".to_string()).unwrap();
    let stored = c.get_trigger("test2".to_string()).unwrap();
    assert!(stored.is_triggered);
    assert_eq!(stored.title, "Test".to_string());
    assert_eq!(stored.params_hash, "hash123".to_string());
    assert_eq!(stored.source, "sensor".to_string());
}

#[test]
fn test_update_trigger_params() {
    let mut c = Contract::new();
    add(
        &mut c,
        "test3",
        "drought",
        "monitoring",
        "Drought Alert",
        "weather_api",
        "amazon",
        "old_hash456",
        false,
    )
    .unwrap();

    c.update_trigger_params(
        "test3".to_string(),
        Some("new_hash789".to_string()),
        Some("new_weather_api".to_string()),
        None,
    )
    .unwrap();

    let stored = c.get_trigger("test3".to_string()).unwrap();
    assert_eq!(stored.params_hash, "new_hash789".to_string());
    assert_eq!(stored.source, "new_weather_api".to_string());
    assert_eq!(stored.trigger_type, "drought".to_string());
    assert_eq!(stored.phase, "monitoring".to_string());
    assert_eq!(stored.title, "Drought Alert".to_string());
    assert_eq!(stored.river_basin, "amazon".to_string());
    assert_eq!(stored.is_mandatory, false);
    assert_eq!(stored.is_triggered, false);
}

#[test]
fn test_nonexistent_trigger() {
    let c = Contract::new();
    assert!(c.get_trigger("nonexistent".to_string()).is_none());
}

#[test]
fn test_duplicate_trigger_id() {
    let mut c = Contract::new();
    add(&mut c, "test4", "flood", "alert", "Flood Warning", "sensor", "yangtze", "hash789", true)
        .unwrap();

    let result = add(
        &mut c,
        "test4",
        "drought",
        "monitoring",
        "Drought Warning",
        "weather_api",
        "amazon",
        "new_hash456",
        false,
    );
    assert_eq!(result, Err(TriggerError::TriggerAlreadyExists));

    let stored = c.get_trigger("test4".to_string()).unwrap();
    assert_eq!(stored.title, "Flood Warning".to_string());
    assert_eq!(stored.params_hash, "hash789".to_string());
}

#[test]
fn partial_update_of_params_hash_keeps_source() {
    let mut c = Contract::new();
    add(&mut c, "t1", "manual", "readiness", "T1", "s1", "basin", "h1", false).unwrap();

    c.update_trigger_params("t1".to_string(), Some("h2".to_string()), None, None).unwrap();

    let stored = c.get_trigger("t1".to_string()).unwrap();
    assert_eq!(stored.params_hash, "h2".to_string());
    assert_eq!(stored.source, "s1".to_string());
    assert_eq!(stored.trigger_type, "manual".to_string());
    assert_eq!(stored.phase, "readiness".to_string());
    assert_eq!(stored.title, "T1".to_string());
    assert_eq!(stored.river_basin, "basin".to_string());
    assert_eq!(stored.is_mandatory, false);
    assert_eq!(stored.is_triggered, false);
}

#[test]
fn partial_update_of_source_keeps_params_hash() {
    let mut c = Contract::new();
    add(&mut c, "t1", "manual", "readiness", "T1", "s1", "basin", "h1", true).unwrap();

    c.update_trigger_params("t1".to_string(), None, Some("s2".to_string()), None).unwrap();

    let stored = c.get_trigger("t1".to_string()).unwrap();
    assert_eq!(stored.source, "s2".to_string());
    assert_eq!(stored.params_hash, "h1".to_string());
    assert_eq!(stored.is_mandatory, true);
}

#[test]
fn duplicate_add_keeps_first_fields() {
    let mut c = Contract::new();
    add(&mut c, "t1", "flood", "response", "First", "s1", "nile", "h1", true).unwrap();

    let second = add(&mut c, "t1", "drought", "monitoring", "Second", "s2", "amazon", "h2", false);
    assert_eq!(second, Err(TriggerError::TriggerAlreadyExists));

    let stored = c.get_trigger("t1".to_string()).unwrap();
    assert_eq!(stored.trigger_type, "flood".to_string());
    assert_eq!(stored.phase, "response".to_string());
    assert_eq!(stored.title, "First".to_string());
    assert_eq!(stored.source, "s1".to_string());
    assert_eq!(stored.river_basin, "nile".to_string());
    assert_eq!(stored.params_hash, "h1".to_string());
    assert_eq!(stored.is_mandatory, true);
    assert_eq!(stored.is_triggered, false);
    assert_eq!(c.events().len(), 1);
}

#[test]
fn mark_triggered_emits_one_notification_and_rejects_reversal() {
    let mut c = Contract::new();
    add(&mut c, "t1", "flood", "response", "T1", "s1", "nile", "h1", true).unwrap();

    c.mark_triggered("t1".to_string()).unwrap();
    assert!(c.get_trigger("t1".to_string()).unwrap().is_triggered);

    let triggered: Vec<&TriggerEvent> = c
        .events()
        .iter()
        .filter(|e| matches!(e, TriggerEvent::Triggered(_, _)))
        .collect();
    assert_eq!(triggered.len(), 1);

    let reversal = c.update_trigger_params("t1".to_string(), None, None, Some(false));
    assert_eq!(reversal, Err(TriggerError::InvalidTriggerState));
    assert!(c.get_trigger("t1".to_string()).unwrap().is_triggered);
}

#[test]
fn mark_triggered_is_idempotent() {
    let mut c = Contract::new();
    add(&mut c, "t1", "flood", "response", "T1", "s1", "nile", "h1", true).unwrap();

    assert_eq!(c.mark_triggered("t1".to_string()), Ok(()));
    let events_after_first = c.events().len();
    assert_eq!(c.mark_triggered("t1".to_string()), Ok(()));
    assert_eq!(c.events().len(), events_after_first);
    assert!(c.get_trigger("t1".to_string()).unwrap().is_triggered);
}

#[test]
fn retrigger_through_update_adds_no_second_triggered_event() {
    let mut c = Contract::new();
    add(&mut c, "t1", "flood", "response", "T1", "s1", "nile", "h1", true).unwrap();

    c.update_trigger_params("t1".to_string(), None, None, Some(true)).unwrap();
    let again = c.update_trigger_params("t1".to_string(), None, None, Some(true));
    assert_eq!(again, Ok(()));

    let triggered: Vec<&TriggerEvent> = c
        .events()
        .iter()
        .filter(|e| matches!(e, TriggerEvent::Triggered(_, _)))
        .collect();
    assert_eq!(triggered.len(), 1);
    assert!(c.get_trigger("t1".to_string()).unwrap().is_triggered);
}

#[test]
fn operations_on_unknown_id_are_refused() {
    let mut c = Contract::new();
    assert!(c.get_trigger("unknown".to_string()).is_none());

    let update = c.update_trigger_params(
        "unknown".to_string(),
        Some("h2".to_string()),
        None,
        None,
    );
    assert_eq!(update, Err(TriggerError::TriggerNotFound));

    let mark = c.mark_triggered("unknown".to_string());
    assert_eq!(mark, Err(TriggerError::TriggerNotFound));
    assert_eq!(c.events().len(), 0);
}

#[test]
fn add_emits_added_with_stored_snapshot() {
    let mut c = Contract::new();
    add(&mut c, "t1", "flood", "response", "T1", "s1", "nile", "h1", true).unwrap();

    let expected = Trigger {
        trigger_type: "flood".to_string(),
        phase: "response".to_string(),
        title: "T1".to_string(),
        source: "s1".to_string(),
        river_basin: "nile".to_string(),
        params_hash: "h1".to_string(),
        is_mandatory: true,
        is_triggered: false,
    };
    assert_eq!(c.events().len(), 1);
    assert_eq!(c.events()[0], TriggerEvent::Added("t1".to_string(), expected));
}

#[test]
fn triggering_update_emits_triggered_then_updated() {
    let mut c = Contract::new();
    add(&mut c, "t1", "flood", "response", "T1", "s1", "nile", "h1", true).unwrap();

    c.update_trigger_params(
        "t1".to_string(),
        Some("h2".to_string()),
        None,
        Some(true),
    )
    .unwrap();

    let expected = Trigger {
        trigger_type: "flood".to_string(),
        phase: "response".to_string(),
        title: "T1".to_string(),
        source: "s1".to_string(),
        river_basin: "nile".to_string(),
        params_hash: "h2".to_string(),
        is_mandatory: true,
        is_triggered: true,
    };
    assert_eq!(c.events().len(), 3);
    assert_eq!(
        c.events()[1],
        TriggerEvent::Triggered("t1".to_string(), expected)
    );
    let expected_again = Trigger {
        trigger_type: "flood".to_string(),
        phase: "response".to_string(),
        title: "T1".to_string(),
        source: "s1".to_string(),
        river_basin: "nile".to_string(),
        params_hash: "h2".to_string(),
        is_mandatory: true,
        is_triggered: true,
    };
    assert_eq!(
        c.events()[2],
        TriggerEvent::Updated("t1".to_string(), expected_again)
    );
}

#[test]
fn update_with_no_fields_set_succeeds_and_changes_nothing() {
    let mut c = Contract::new();
    add(&mut c, "t1", "flood", "response", "T1", "s1", "nile", "h1", true).unwrap();

    assert_eq!(c.update_trigger_params("t1".to_string(), None, None, None), Ok(()));

    let stored = c.get_trigger("t1".to_string()).unwrap();
    assert_eq!(stored.params_hash, "h1".to_string());
    assert_eq!(stored.source, "s1".to_string());
    assert_eq!(stored.is_triggered, false);
    assert_eq!(c.events().len(), 2);
    assert!(matches!(c.events()[1], TriggerEvent::Updated(_, _)));
}

#[test]
fn untriggered_entry_accepts_explicit_false() {
    let mut c = Contract::new();
    add(&mut c, "t1", "flood", "response", "T1", "s1", "nile", "h1", true).unwrap();

    let result = c.update_trigger_params("t1".to_string(), None, None, Some(false));
    assert_eq!(result, Ok(()));
    assert_eq!(c.get_trigger("t1".to_string()).unwrap().is_triggered, false);
}

#[test]
fn two_triggers_are_stored_independently() {
    let mut c = Contract::new();
    add(&mut c, "t1", "flood", "response", "T1", "s1", "nile", "h1", true).unwrap();
    add(&mut c, "t2", "drought", "readiness", "T2", "s2", "amazon", "h2", false).unwrap();

    c.mark_triggered("t1".to_string()).unwrap();

    let first = c.get_trigger("t1".to_string()).unwrap();
    let second = c.get_trigger("t2".to_string()).unwrap();
    assert!(first.is_triggered);
    assert!(!second.is_triggered);
    assert_eq!(second.title, "T2".to_string());
    assert_eq!(second.params_hash, "h2".to_string());
}
