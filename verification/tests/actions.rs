use hostguard::actions::{ActionPolicy, Budget, Decision};

fn policy() -> ActionPolicy {
    ActionPolicy { cooldown_sec: 600, budget_window_sec: 3600, max_actions_per_window: 3 }
}

#[test]
fn first_action_is_admitted() {
    let mut b = Budget::new();
    assert_eq!(b.try_admit("a.service", 1000, &policy(), false), Decision::Shed);
}

#[test]
fn same_unit_is_held_off_during_cooldown() {
    let mut b = Budget::new();
    b.try_admit("a.service", 1000, &policy(), false);
    assert_eq!(b.try_admit("a.service", 1300, &policy(), false), Decision::SuppressedCooldown);
    assert_eq!(b.try_admit("a.service", 1600, &policy(), false), Decision::Shed);
}

#[test]
fn cooldown_is_per_unit_not_global() {
    let mut b = Budget::new();
    b.try_admit("a.service", 1000, &policy(), false);
    assert_eq!(b.try_admit("b.service", 1001, &policy(), false), Decision::Shed);
}

#[test]
fn budget_caps_a_flapping_loop() {
    let mut b = Budget::new();
    for i in 0..3 {
        assert_eq!(
            b.try_admit(&format!("u{i}.service"), 1000 + i, &policy(), false),
            Decision::Shed
        );
    }
    assert_eq!(b.try_admit("u3.service", 1004, &policy(), false), Decision::SuppressedBudget);
}

#[test]
fn budget_recovers_once_the_window_slides_past() {
    let mut b = Budget::new();
    for i in 0..3 {
        b.try_admit(&format!("u{i}.service"), 1000 + i, &policy(), false);
    }
    assert_eq!(b.try_admit("u9.service", 1000 + 3601, &policy(), false), Decision::Shed);
}

#[test]
fn suppressed_attempts_do_not_consume_budget() {
    let mut b = Budget::new();
    b.try_admit("a.service", 1000, &policy(), false);
    for t in 1..50 {
        b.try_admit("a.service", 1000 + t, &policy(), false);
    }
    assert_eq!(b.actions_in_window(), 1, "cooldown hits burned budget");
}

#[test]
fn observe_only_never_records_an_action() {
    let mut b = Budget::new();
    assert_eq!(
        b.try_admit("a.service", 1000, &policy(), true),
        Decision::SuppressedObserveOnly
    );
    assert_eq!(b.actions_in_window(), 0);
    // And it left no cooldown behind, so a live run right after is admitted.
    assert_eq!(b.try_admit("a.service", 1001, &policy(), false), Decision::Shed);
}

#[test]
fn clock_going_backwards_does_not_panic_or_admit_a_flood() {
    let mut b = Budget::new();
    b.try_admit("a.service", 1000, &policy(), false);
    assert_eq!(b.try_admit("a.service", 5, &policy(), false), Decision::SuppressedCooldown);
}

#[test]
fn cooldown_ends_at_its_last_second() {
    let mut b = Budget::new();
    b.try_admit("a.service", 1000, &policy(), false);
    assert_eq!(b.try_admit("a.service", 1599, &policy(), false), Decision::SuppressedCooldown);
    assert_eq!(b.try_admit("a.service", 1600, &policy(), false), Decision::Shed);
}

#[test]
fn an_action_leaves_the_window_at_its_full_length() {
    let policy = ActionPolicy { cooldown_sec: 0, budget_window_sec: 10, max_actions_per_window: 1 };
    let mut b = Budget::new();
    assert_eq!(b.try_admit("a.service", 100, &policy, false), Decision::Shed);
    assert_eq!(b.try_admit("b.service", 109, &policy, false), Decision::SuppressedBudget);
    assert_eq!(b.actions_in_window(), 1);
    assert_eq!(b.try_admit("b.service", 110, &policy, false), Decision::Shed);
    assert_eq!(b.actions_in_window(), 1);
}

#[test]
fn no_window_sees_more_actions_than_allowed() {
    let policy = ActionPolicy { cooldown_sec: 7, budget_window_sec: 20, max_actions_per_window: 2 };
    let mut b = Budget::new();
    let mut shed: Vec<u64> = Vec::new();
    for t in 1..200u64 {
        let unit = format!("u{}.service", t % 3);
        if b.try_admit(&unit, t, &policy, false) == Decision::Shed {
            shed.push(t);
        }
    }
    assert!(shed.len() > 10);
    for end in 0..220u64 {
        let inside = shed.iter().filter(|&&t| t <= end && t + 20 > end).count();
        assert!(inside <= 2, "{inside} actions in the window that ends at {end}");
    }
}

#[test]
fn an_action_at_the_start_of_the_clock_counts() {
    let policy = ActionPolicy { cooldown_sec: 600, budget_window_sec: 3600, max_actions_per_window: 1 };
    let mut b = Budget::new();
    assert_eq!(b.try_admit("a.service", 0, &policy, false), Decision::Shed);
    assert_eq!(b.try_admit("b.service", 0, &policy, false), Decision::SuppressedBudget);
    assert_eq!(b.try_admit("b.service", 1, &policy, false), Decision::SuppressedBudget);
    assert_eq!(b.try_admit("a.service", 1, &policy, false), Decision::SuppressedCooldown);
    assert_eq!(b.try_admit("b.service", 3599, &policy, false), Decision::SuppressedBudget);
    assert_eq!(b.try_admit("b.service", 3600, &policy, false), Decision::Shed);
}

#[test]
fn a_suppressed_attempt_makes_no_difference_later() {
    let decide = |attempt: bool| {
        let policy =
            ActionPolicy { cooldown_sec: 30, budget_window_sec: 100, max_actions_per_window: 2 };
        let mut b = Budget::new();
        b.try_admit("a.service", 10, &policy, false);
        b.try_admit("b.service", 40, &policy, false);
        if attempt {
            assert_eq!(b.try_admit("c.service", 90, &policy, false), Decision::SuppressedBudget);
        }
        (90..300u64)
            .map(|t| b.try_admit(if t % 2 == 0 { "a.service" } else { "c.service" }, t, &policy, false))
            .collect::<Vec<Decision>>()
    };
    assert_eq!(decide(true), decide(false));
}

#[test]
fn a_copy_remembers_the_same_of_its_units() {
    let mut b = Budget::new();
    b.try_admit("a.service", 1000, &policy(), false);
    b.try_admit("b.service", 1000, &policy(), false);
    let mut copy = b.copy_for(&vec![("a.service".to_string(), true), ("c.service".to_string(), true)]);
    assert_eq!(copy.actions_in_window(), 2);
    assert_eq!(copy.try_admit("a.service", 1001, &policy(), false), Decision::SuppressedCooldown);
    assert_eq!(copy.try_admit("c.service", 1001, &policy(), false), Decision::Shed);
    assert_eq!(b.actions_in_window(), 2);
}

#[test]
fn observe_only_tells_cooldown_and_budget_as_the_live_path_does() {
    let mut b = Budget::new();
    b.try_admit("a.service", 1000, &policy(), false);
    assert_eq!(b.try_admit("a.service", 1001, &policy(), true), Decision::SuppressedCooldown);
    b.try_admit("b.service", 1001, &policy(), false);
    b.try_admit("c.service", 1002, &policy(), false);
    assert_eq!(b.try_admit("d.service", 1003, &policy(), true), Decision::SuppressedBudget);
}

#[test]
fn no_budget_admits_nothing() {
    let policy = ActionPolicy { cooldown_sec: 0, budget_window_sec: 3600, max_actions_per_window: 0 };
    let mut b = Budget::new();
    assert_eq!(b.try_admit("a.service", 9, &policy, false), Decision::SuppressedBudget);
}
