use gridnav::classifier::{edges, ArmedSet};
use gridnav::keys::KeyId;

#[test]
fn unarmed_held_key_never_fires() {
    // A key already down when its binding becomes active: held on every
    // poll, never armed, never fires.
    let mut armed = ArmedSet::new();
    for _ in 0..5 {
        assert!(!armed.held_with_check(KeyId::J, true));
    }
    assert!(!armed.contains(KeyId::J));
}

#[test]
fn release_arms_and_then_every_held_poll_fires() {
    let mut armed = ArmedSet::new();
    // Held from the start: silent.
    assert!(!armed.held_with_check(KeyId::J, true));
    // Observed released once: armed, but a release never fires.
    assert!(!armed.held_with_check(KeyId::J, false));
    assert!(armed.contains(KeyId::J));
    // From now on every held poll fires, and firing keeps the armament.
    for _ in 0..3 {
        assert!(armed.held_with_check(KeyId::J, true));
    }
    assert!(armed.contains(KeyId::J));
}

#[test]
fn armed_key_survives_release_polls() {
    let mut armed = ArmedSet::new();
    assert!(!armed.held_with_check(KeyId::K, false));
    assert!(!armed.held_with_check(KeyId::K, false));
    assert!(armed.held_with_check(KeyId::K, true));
}

#[test]
fn clear_disarms_everything() {
    let mut armed = ArmedSet::new();
    armed.held_with_check(KeyId::J, false);
    armed.held_with_check(KeyId::K, false);
    assert!(armed.contains(KeyId::J) && armed.contains(KeyId::K));
    armed.clear();
    assert!(!armed.contains(KeyId::J) && !armed.contains(KeyId::K));
    assert!(!armed.held_with_check(KeyId::J, true));
}

#[test]
fn arming_one_key_leaves_others_alone() {
    let mut armed = ArmedSet::new();
    armed.held_with_check(KeyId::J, false);
    assert!(armed.contains(KeyId::J));
    assert!(!armed.contains(KeyId::K));
}

#[test]
fn edges_are_newly_held_keys() {
    let prev = vec![KeyId::A, KeyId::B];
    let now = vec![KeyId::B, KeyId::C];
    let e = edges(&prev, &now);
    assert_eq!(e, vec![KeyId::C]);
}

#[test]
fn edges_from_empty_previous_poll() {
    let prev: Vec<KeyId> = vec![];
    let now = vec![KeyId::A, KeyId::B];
    assert_eq!(edges(&prev, &now), vec![KeyId::A, KeyId::B]);
    assert_eq!(edges(&now, &now), vec![]);
}
