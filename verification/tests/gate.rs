use hostguard::gate::{Gate, Gated};

#[test]
fn gate_requires_consecutive_samples() {
    let mut g = Gate::default();
    assert_eq!(g.observe("k", true, 2), Gated::No);
    assert_eq!(g.observe("k", true, 2), Gated::Newly);
}

#[test]
fn gate_reports_newly_once_then_still() {
    let mut g = Gate::default();
    g.observe("k", true, 1);
    for _ in 0..5 {
        assert_eq!(
            g.observe("k", true, 1),
            Gated::Still,
            "a persisting condition must not re-report, or it writes one \
             incident file per poll and fills /var/log"
        );
    }
}

#[test]
fn gate_resets_when_the_condition_clears() {
    let mut g = Gate::default();
    g.observe("k", true, 2);
    assert_eq!(g.observe("k", true, 2), Gated::Newly);
    assert_eq!(g.observe("k", false, 2), Gated::No);
    // A recurrence is a new incident and must report again.
    assert_eq!(g.observe("k", true, 2), Gated::No);
    assert_eq!(g.observe("k", true, 2), Gated::Newly);
}

#[test]
fn gate_keys_are_independent() {
    let mut g = Gate::default();
    assert_eq!(g.observe("a", true, 1), Gated::Newly);
    assert_eq!(g.observe("b", true, 1), Gated::Newly);
}

#[test]
fn gated_active_covers_newly_and_still() {
    assert!(Gated::Newly.active());
    assert!(Gated::Still.active());
    assert!(!Gated::No.active());
}

#[test]
fn other_conditions_do_not_break_a_streak() {
    let mut g = Gate::default();
    assert_eq!(g.observe("a", true, 3), Gated::No);
    assert_eq!(g.observe("b", false, 3), Gated::No);
    assert_eq!(g.observe("a", true, 3), Gated::No);
    assert_eq!(g.observe("b", true, 3), Gated::No);
    assert_eq!(g.observe("a", true, 3), Gated::Newly);
    assert_eq!(g.observe("a", true, 3), Gated::Still);
}

#[test]
fn a_condition_never_seen_is_clear() {
    let mut g = Gate::default();
    assert_eq!(g.observe("k", false, 1), Gated::No);
    assert_eq!(g.observe("k", true, 0), Gated::Still);
}
