use prompt_player::power::PowerManager;

const T0: u64 = 1_000_000;
const MIN: u64 = 60_000;

#[test]
fn starts_disabled() {
    let p = PowerManager::new();
    assert!(!p.is_enabled(), "keep-awake starts off every launch");
}

#[test]
fn toggle_flips_and_returns_new_state() {
    let mut p = PowerManager::new();
    assert!(p.toggle_at(T0), "first toggle enables");
    assert!(p.is_enabled());
    assert!(!p.toggle_at(T0), "second toggle disables");
    assert!(!p.is_enabled());
}

#[test]
fn set_is_idempotent() {
    let mut p = PowerManager::new();
    assert!(p.set_at(true, T0));
    assert!(p.set_at(true, T0), "re-enabling stays enabled");
    assert!(p.is_enabled());
    assert!(!p.set_at(false, T0));
    assert!(!p.set_at(false, T0), "re-disabling stays disabled");
    assert!(!p.is_enabled());
}

#[test]
fn timed_session_expires_exactly_once() {
    let mut p = PowerManager::new();
    p.set_for_at(true, 60, T0);
    assert!(p.is_enabled());
    assert_eq!(p.duration_mins(), 60);
    assert!(!p.expire_if_due_at(T0 + 59 * MIN));
    assert!(p.is_enabled(), "must stay on until the deadline");
    assert!(p.expire_if_due_at(T0 + 60 * MIN));
    assert!(!p.is_enabled());
    assert!(!p.expire_if_due_at(T0 + 90 * MIN));
}

#[test]
fn indefinite_session_never_expires() {
    let mut p = PowerManager::new();
    p.set_for_at(true, 0, T0);
    assert!(p.remaining_at(T0).is_none());
    assert!(!p.expire_if_due_at(T0 + 86_400_000 * 4));
    assert!(p.is_enabled());
}

#[test]
fn remaining_counts_down_and_saturates() {
    let mut p = PowerManager::new();
    p.set_for_at(true, 30, T0);
    assert_eq!(p.remaining_at(T0 + 600_000), Some(1_200_000));
    assert_eq!(p.remaining_at(T0 + 9_999_000), Some(0));
}

#[test]
fn turning_off_clears_the_deadline() {
    let mut p = PowerManager::new();
    p.set_for_at(true, 30, T0);
    p.set_for_at(false, 0, T0 + 10_000);
    assert!(p.remaining_at(T0 + 20_000).is_none());
    assert_eq!(p.duration_mins(), 0);
    assert!(!p.expire_if_due_at(T0 + 9_999_000));
}

#[test]
fn re_enabling_restarts_the_clock() {
    let mut p = PowerManager::new();
    p.set_for_at(true, 30, T0);
    p.set_for_at(true, 30, T0 + 29 * MIN);
    assert!(!p.expire_if_due_at(T0 + 30 * MIN));
    assert!(p.expire_if_due_at(T0 + 59 * MIN));
}

#[test]
fn toggle_for_starts_a_bounded_session() {
    let mut p = PowerManager::new();
    assert!(p.toggle_for_at(120, T0));
    assert_eq!(p.duration_mins(), 120);
    assert!(p.remaining_at(T0).is_some());
    assert!(!p.toggle_for_at(120, T0));
    assert!(p.remaining_at(T0).is_none());
}

#[test]
fn expire_is_a_noop_while_disabled() {
    let mut p = PowerManager::new();
    assert!(!p.expire_if_due_at(T0));
}
