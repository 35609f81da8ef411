use nefu::power_save_blocker::{
    get_active_count, is_stopped, start_blocking, stop_blocking, PowerSaveBlocker,
    PowerSaveBlockerType,
};

#[test]
fn test_power_save_blocker_start_stop() {
    let mut blocker = PowerSaveBlocker::new();
    let id = blocker.start(PowerSaveBlockerType::PreventSleep);
    assert!(!blocker.is_stopped(id));
    assert_eq!(blocker.active_count(), 1);

    blocker.stop(id);
    assert!(blocker.is_stopped(id));
    assert_eq!(blocker.active_count(), 0);
}

#[test]
fn test_multiple_blockers() {
    let mut blocker = PowerSaveBlocker::new();
    let id1 = blocker.start(PowerSaveBlockerType::PreventSleep);
    let id2 = blocker.start(PowerSaveBlockerType::PreventDisplaySleep);
    assert_eq!(blocker.active_count(), 2);

    blocker.stop(id1);
    assert_eq!(blocker.active_count(), 1);

    blocker.stop(id2);
    assert_eq!(blocker.active_count(), 0);
}

#[test]
fn test_global_functions() {
    let mut blocker = PowerSaveBlocker::new();
    let id = start_blocking(&mut blocker, PowerSaveBlockerType::PreventSleep);
    assert!(!is_stopped(&blocker, id));
    assert!(get_active_count(&blocker) >= 1);

    stop_blocking(&mut blocker, id);
    assert!(is_stopped(&blocker, id));
}

// ---- further cases ----

#[test]
fn ids_are_distinct_and_listed() {
    let mut blocker = PowerSaveBlocker::new();
    let a = blocker.start(PowerSaveBlockerType::PreventSleep);
    let b = blocker.start(PowerSaveBlockerType::PreventDisplaySleep);
    assert_ne!(a, b);
    let mut active = blocker.get_active_blockers();
    active.sort_by_key(|p| p.0);
    assert_eq!(active.len(), 2);
    assert_eq!(active[0], (a, PowerSaveBlockerType::PreventSleep));
    assert_eq!(active[1], (b, PowerSaveBlockerType::PreventDisplaySleep));
}

#[test]
fn stopping_unknown_id_changes_nothing() {
    let mut blocker = PowerSaveBlocker::new();
    let a = blocker.start(PowerSaveBlockerType::PreventSleep);
    blocker.stop(a + 100);
    assert_eq!(blocker.active_count(), 1);
    assert!(blocker.is_stopped(a + 100));
}
