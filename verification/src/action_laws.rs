//! Laws of shedding: a unit is shed whenever it may be, and only then.

use crate::actions;
use crate::actions::{ActionPolicy, Budget, Decision, Memory, Request};
use vstd::prelude::*;

verus! {

/// How many of the times lie less than `window` seconds before `now`, or behind it.
pub open spec fn recent_times(times: Seq<u64>, now: u64, window: u64) -> nat
    decreases times.len(),
{
    if times.len() == 0 {
        0
    } else {
        recent_times(times.drop_last(), now, window) + if now - times[times.len() - 1] < window {
            1nat
        } else {
            0nat
        }
    }
}

/// The times that lie less than `window` seconds before `now`, or behind it, in order.
pub open spec fn kept_times(times: Seq<u64>, now: u64, window: u64) -> Seq<u64>
    decreases times.len(),
{
    if times.len() == 0 {
        Seq::empty()
    } else if now - times[0] < window {
        seq![times[0]] + kept_times(times.drop_first(), now, window)
    } else {
        kept_times(times.drop_first(), now, window)
    }
}

/// Recent times are as many as are counted.
proof fn lemma_recent(times: Seq<u64>, now: u64, window: u64)
    ensures
        recent_times(times, now, window) == actions::since(times, now - window).len(),
    decreases times.len(),
{
    reveal(Seq::filter);
    if times.len() != 0 {
        lemma_recent(times.drop_last(), now, window);
    }
}

/// Kept times are those that are counted.
proof fn lemma_kept(times: Seq<u64>, now: u64, window: u64)
    ensures
        kept_times(times, now, window) == actions::since(times, now - window),
    decreases times.len(),
{
    let cutoff = now - window;
    let p = |t: u64| t > cutoff;
    if times.len() == 0 {
        reveal(Seq::filter);
        assert(actions::since(times, cutoff) == Seq::<u64>::empty());
    } else {
        lemma_kept(times.drop_first(), now, window);
        lemma_filter_front(times, p);
    }
}

/// A filter keeps the first item or not, and then what it keeps of the others.
proof fn lemma_filter_front(s: Seq<u64>, p: spec_fn(u64) -> bool)
    requires
        s.len() > 0,
    ensures
        s.filter(p) == if p(s[0]) {
            seq![s[0]] + s.drop_first().filter(p)
        } else {
            s.drop_first().filter(p)
        },
    decreases s.len(),
{
    reveal(Seq::filter);
    let others = s.drop_first();
    if s.len() == 1 {
        assert(s.drop_last() == Seq::<u64>::empty());
        assert(others == Seq::<u64>::empty());
        assert(s.drop_last().filter(p) == Seq::<u64>::empty());
        assert(others.filter(p) == Seq::<u64>::empty());
        assert(seq![s[0]] + Seq::<u64>::empty() == Seq::<u64>::empty().push(s[0]));
    } else {
        let shorter = s.drop_last();
        lemma_filter_front(shorter, p);
        assert(shorter.drop_first() == others.drop_last());
        assert(others.last() == s.last());
        let middle = others.drop_last().filter(p);
        assert((seq![s[0]] + middle).push(s.last()) == seq![s[0]] + middle.push(s.last()));
    }
}

/// Whether a unit was shed less than `cooldown` seconds ago. On a clock that went back it was.
pub open spec fn too_soon(memory: Memory, unit: Seq<char>, now: u64, cooldown: u64) -> bool {
    &&& memory.last_action.contains_key(unit)
    &&& cooldown > 0
    &&& now - memory.last_action[unit] < cooldown
}

/// What a request is answered, and what is remembered then, whatever the clock does: a unit that
/// was shed less than its cooldown ago is held off, and nothing changes; else a full window holds
/// it off; else observe-only does; else it is shed. Actions that have left the window are
/// forgotten, and what is shed is remembered with its time.
pub proof fn a_request_is_answered_by_cooldown_then_budget(
    budget: &mut Budget,
    unit: &str,
    now: u64,
    policy: &ActionPolicy,
    observe_only: bool,
    verdict: Decision,
)
    requires
        call_ensures(Budget::try_admit, (budget, unit, now, policy, observe_only), verdict),
    ensures
        ({
            let before = old(budget)@;
            let after = final(budget)@;
            let held = too_soon(before, unit@, now, policy.cooldown_sec);
            let full = recent_times(before.history, now, policy.budget_window_sec)
                >= policy.max_actions_per_window;
            let kept = kept_times(before.history, now, policy.budget_window_sec);
            &&& verdict == Decision::SuppressedCooldown <==> held
            &&& verdict == Decision::SuppressedBudget <==> !held && full
            &&& verdict == Decision::SuppressedObserveOnly <==> !held && !full && observe_only
            &&& verdict == Decision::Shed <==> !held && !full && !observe_only
            &&& held ==> after == before
            &&& !held && verdict != Decision::Shed ==> after.last_action == before.last_action
                && after.history == kept
            &&& verdict == Decision::Shed ==> after.last_action == before.last_action.insert(
                unit@,
                now,
            ) && after.history == kept.push(now)
        }),
{
    lemma_recent(budget@.history, now, policy.budget_window_sec);
    lemma_kept(budget@.history, now, policy.budget_window_sec);
}

/// A new budget has admitted nothing, and a budget tells how many actions it remembers.
pub proof fn a_new_budget_is_empty(new: Budget, budget: &Budget, n: usize)
    requires
        call_ensures(Budget::new, (), new),
        call_ensures(Budget::actions_in_window, (budget,), n),
    ensures
        new@.history.len() == 0,
        forall|unit: Seq<char>| !(#[trigger] new@.last_action.contains_key(unit)),
        n == budget@.history.len(),
{
}

/// What is decided on the request at position `i`.
pub open spec fn answered(policy: ActionPolicy, requests: Seq<Request>, i: int) -> Decision {
    let r = requests[i];
    actions::decision(
        actions::after(policy, requests.take(i)),
        r.unit,
        r.now,
        policy,
        r.observe_only,
    )
}

/// Whether a request before position `n` for `unit` was admitted less than `cooldown` seconds
/// before `now`.
pub open spec fn admitted_lately(
    policy: ActionPolicy,
    requests: Seq<Request>,
    n: int,
    unit: Seq<char>,
    now: u64,
) -> bool {
    exists|j: int|
        0 <= j < n && #[trigger] answered(policy, requests, j) == Decision::Shed && requests[j].unit
            == unit && now - requests[j].now < policy.cooldown_sec
}

/// How many requests before position `n` were admitted, of any unit, less than a window before
/// `now`.
pub open spec fn admissions(policy: ActionPolicy, requests: Seq<Request>, n: int, now: u64) -> nat
    decreases n,
{
    if n <= 0 {
        0
    } else {
        admissions(policy, requests, n - 1, now) + if answered(policy, requests, n - 1)
            == Decision::Shed && now - requests[n - 1].now < policy.budget_window_sec {
            1nat
        } else {
            0nat
        }
    }
}

/// The admissions are counted by the times of what was shed.
proof fn lemma_admissions(policy: ActionPolicy, requests: Seq<Request>, n: int, now: u64)
    requires
        0 <= n <= requests.len(),
    ensures
        admissions(policy, requests, n, now) == actions::since(
            actions::shed_times(policy, requests.take(n)),
            now - policy.budget_window_sec,
        ).len(),
    decreases n,
{
    let cutoff = now - policy.budget_window_sec;
    let p = |t: u64| t > cutoff;
    if n == 0 {
        reveal(Seq::filter);
        assert(requests.take(0) == Seq::<Request>::empty());
    } else {
        lemma_admissions(policy, requests, n - 1, now);
        assert(requests.take(n).drop_last() == requests.take(n - 1));
        assert(requests.take(n).last() == requests[n - 1]);
        let before = actions::shed_times(policy, requests.take(n - 1));
        actions::lemma_filter_push(before, requests[n - 1].now, p);
    }
}

/// The time that is remembered of a unit is that of its last admission.
proof fn lemma_last(policy: ActionPolicy, requests: Seq<Request>, n: int, unit: Seq<char>)
    requires
        actions::in_order(requests),
        0 <= n <= requests.len(),
    ensures
        ({
            let last = actions::after(policy, requests.take(n)).last_action;
            &&& last.contains_key(unit) ==> exists|j: int|
                0 <= j < n && #[trigger] answered(policy, requests, j) == Decision::Shed
                    && requests[j].unit == unit && requests[j].now == last[unit]
            &&& forall|j: int|
                0 <= j < n && #[trigger] answered(policy, requests, j) == Decision::Shed
                    && requests[j].unit == unit ==> last.contains_key(unit) && requests[j].now
                    <= last[unit]
        }),
    decreases n,
{
    if n == 0 {
        assert(requests.take(0) == Seq::<Request>::empty());
    } else {
        lemma_last(policy, requests, n - 1, unit);
        assert(requests.take(n).drop_last() == requests.take(n - 1));
        assert(requests.take(n).last() == requests[n - 1]);
        let before = actions::after(policy, requests.take(n - 1)).last_action;
        let last = actions::after(policy, requests.take(n)).last_action;
        assert(answered(policy, requests, n - 1) == Decision::Shed || last == before);
        assert forall|j: int|
            0 <= j < n && #[trigger] answered(policy, requests, j) == Decision::Shed
                && requests[j].unit == unit implies last.contains_key(unit) && requests[j].now
            <= last[unit] by {
            assert(requests[j].now <= requests[n - 1].now);
        }
    }
}

/// A unit is shed whenever it may be, and only then. Of requests to a new budget, on a clock that
/// never goes back: one is held off by the cooldown exactly where an earlier request for the same
/// unit was admitted less than `cooldown_sec` seconds ago; else by the budget exactly where
/// `max_actions_per_window` requests, of any unit, were admitted less than `budget_window_sec`
/// seconds ago; else it is admitted, unless units are only observed.
pub proof fn a_unit_is_shed_whenever_it_may_be(policy: ActionPolicy, requests: Seq<Request>, i: int)
    requires
        actions::in_order(requests),
        0 <= i < requests.len(),
    ensures
        ({
            let r = requests[i];
            let held = admitted_lately(policy, requests, i, r.unit, r.now);
            let full = admissions(policy, requests, i, r.now) >= policy.max_actions_per_window;
            &&& actions::admitted(policy, requests, i) <==> !held && !full && !r.observe_only
            &&& answered(policy, requests, i) == if held {
                Decision::SuppressedCooldown
            } else if full {
                Decision::SuppressedBudget
            } else if r.observe_only {
                Decision::SuppressedObserveOnly
            } else {
                Decision::Shed
            }
        }),
{
    let r = requests[i];
    let before = requests.take(i);
    let memory = actions::after(policy, before);
    let cutoff = r.now - policy.budget_window_sec;
    assert(actions::in_order(before)) by {
        assert forall|a: int, b: int| 0 <= a <= b < before.len() implies (
        #[trigger] before[a]).now <= (#[trigger] before[b]).now by {
            assert(before[a] == requests[a] && before[b] == requests[b]);
        }
    }
    if i > 0 {
        assert(before.last() == requests[i - 1]);
        assert(requests[i - 1].now <= requests[i].now);
    }
    actions::lemma_history_agrees(policy, before, cutoff);
    lemma_admissions(policy, requests, i, r.now);
    lemma_last(policy, requests, i, r.unit);
    assert forall|j: int| 0 <= j < i implies requests[j].now <= #[trigger] requests[i].now by {
        assert(requests[j].now <= requests[i].now);
    }
    if actions::cooling_down(memory, r.unit, r.now, policy) {
        let j = choose|j: int|
            0 <= j < i && #[trigger] answered(policy, requests, j) == Decision::Shed
                && requests[j].unit == r.unit && requests[j].now == memory.last_action[r.unit];
        assert(requests[j].now <= requests[i].now);
        assert(admitted_lately(policy, requests, i, r.unit, r.now));
    }
    if admitted_lately(policy, requests, i, r.unit, r.now) {
        let j = choose|j: int|
            0 <= j < i && #[trigger] answered(policy, requests, j) == Decision::Shed
                && requests[j].unit == r.unit && r.now - requests[j].now < policy.cooldown_sec;
        assert(requests[j].now <= requests[i].now);
        assert(actions::cooling_down(memory, r.unit, r.now, policy));
    }
}

/// Whether one of the first `n` requests was for `unit`, was admitted, and lies less than
/// `cooldown` seconds before `now`.
pub open spec fn shed_lately(
    requests: Seq<Request>,
    verdicts: Seq<Decision>,
    n: int,
    unit: Seq<char>,
    now: u64,
    cooldown: u64,
) -> bool {
    exists|j: int|
        0 <= j < n && #[trigger] verdicts[j] == Decision::Shed && requests[j].unit == unit && now
            - requests[j].now < cooldown
}

/// How many of the first `n` requests were admitted, of any unit, and lie less than `window`
/// seconds before `now`.
pub open spec fn shed_count(
    requests: Seq<Request>,
    verdicts: Seq<Decision>,
    n: int,
    now: u64,
    window: u64,
) -> nat
    decreases n,
{
    if n <= 0 {
        0
    } else {
        shed_count(requests, verdicts, n - 1, now, window) + if verdicts[n - 1] == Decision::Shed
            && now - requests[n - 1].now < window {
            1nat
        } else {
            0nat
        }
    }
}

/// States and verdicts that follow from each other are those of the requests.
proof fn lemma_states(
    policy: ActionPolicy,
    requests: Seq<Request>,
    states: Seq<Memory>,
    verdicts: Seq<Decision>,
    n: int,
    now: u64,
)
    requires
        0 <= n <= requests.len(),
        states[0] == actions::nothing_remembered(),
        forall|k: int|
            0 <= k < n ==> #[trigger] verdicts[k] == actions::decision(
                states[k],
                requests[k].unit,
                requests[k].now,
                policy,
                requests[k].observe_only,
            ) && states[k + 1] == actions::remembered(
                states[k],
                requests[k].unit,
                requests[k].now,
                policy,
                requests[k].observe_only,
            ),
    ensures
        states[n] == actions::after(policy, requests.take(n)),
        forall|k: int|
            0 <= k < n ==> #[trigger] verdicts[k] == answered(policy, requests, k),
        shed_count(requests, verdicts, n, now, policy.budget_window_sec) == admissions(
            policy,
            requests,
            n,
            now,
        ),
    decreases n,
{
    if n == 0 {
        assert(requests.take(0) == Seq::<Request>::empty());
    } else {
        lemma_states(policy, requests, states, verdicts, n - 1, now);
        assert(requests.take(n).drop_last() == requests.take(n - 1));
        assert(requests.take(n).last() == requests[n - 1]);
        let last = verdicts[n - 1];
        assert(last == answered(policy, requests, n - 1));
    }
}

/// A budget answers by what it has admitted, and by nothing else. Where a new budget is asked time
/// after time, on a clock that never goes back, each call leaving it as the next one finds it: a
/// request is answered that its unit cools down exactly where an earlier one for the same unit was
/// admitted less than `cooldown_sec` seconds ago; else that the budget is spent exactly where
/// `max_actions_per_window` earlier ones, of any unit, were admitted less than `budget_window_sec`
/// seconds ago; else it is admitted, unless units are only observed.
pub proof fn a_budget_answers_by_what_it_admitted(
    policy: ActionPolicy,
    new: Budget,
    requests: Seq<Request>,
    states: Seq<Memory>,
    verdicts: Seq<Decision>,
    i: int,
)
    requires
        forall|a: int, b: int|
            0 <= a <= b < requests.len() ==> (#[trigger] requests[a]).now <= (
            #[trigger] requests[b]).now,
        call_ensures(Budget::new, (), new),
        states[0] == new@,
        forall|k: int|
            #![trigger verdicts[k]]
            0 <= k < requests.len() ==> exists|budget: &mut Budget, unit: &str, p: &ActionPolicy|
                #![trigger call_ensures(
                    Budget::try_admit,
                    (budget, unit, requests[k].now, p, requests[k].observe_only),
                    verdicts[k],
                )]
                {
                    &&& call_ensures(
                        Budget::try_admit,
                        (budget, unit, requests[k].now, p, requests[k].observe_only),
                        verdicts[k],
                    )
                    &&& unit@ == requests[k].unit
                    &&& *p == policy
                    &&& (*budget)@ == states[k]
                    &&& (*final(budget))@ == states[k + 1]
                },
        0 <= i < requests.len(),
    ensures
        ({
            let r = requests[i];
            let held = shed_lately(requests, verdicts, i, r.unit, r.now, policy.cooldown_sec);
            let full = shed_count(requests, verdicts, i, r.now, policy.budget_window_sec)
                >= policy.max_actions_per_window;
            verdicts[i] == if held {
                Decision::SuppressedCooldown
            } else if full {
                Decision::SuppressedBudget
            } else if r.observe_only {
                Decision::SuppressedObserveOnly
            } else {
                Decision::Shed
            }
        }),
{
    assert forall|k: int| 0 <= k < requests.len() implies #[trigger] verdicts[k]
        == actions::decision(
        states[k],
        requests[k].unit,
        requests[k].now,
        policy,
        requests[k].observe_only,
    ) && states[k + 1] == actions::remembered(
        states[k],
        requests[k].unit,
        requests[k].now,
        policy,
        requests[k].observe_only,
    ) by {
        let v = verdicts[k];
    }
    let r = requests[i];
    lemma_states(policy, requests, states, verdicts, i, r.now);
    a_unit_is_shed_whenever_it_may_be(policy, requests, i);
    assert(verdicts[i] == answered(policy, requests, i));
    if admitted_lately(policy, requests, i, r.unit, r.now) {
        let j = choose|j: int|
            0 <= j < i && #[trigger] answered(policy, requests, j) == Decision::Shed
                && requests[j].unit == r.unit && r.now - requests[j].now < policy.cooldown_sec;
        assert(verdicts[j] == Decision::Shed);
    }
    if shed_lately(requests, verdicts, i, r.unit, r.now, policy.cooldown_sec) {
        let j = choose|j: int|
            0 <= j < i && #[trigger] verdicts[j] == Decision::Shed && requests[j].unit == r.unit
                && r.now - requests[j].now < policy.cooldown_sec;
        assert(answered(policy, requests, j) == Decision::Shed);
    }
}

} // verus!
