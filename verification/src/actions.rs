//! Shed policy: stop a *named* unit under memory emergency.
//!
//! systemd-oomd already kills by cgroup pressure and should stay the first line
//! of defence. What it cannot express is "sacrifice this specific service to
//! keep sshd reachable": its choice follows pressure, not an operator's
//! ranking of what is expendable.

use vstd::hash_map::StringHashMap;
use vstd::prelude::*;

verus! {

/// How often units may be shed.
#[derive(Debug, Clone, Copy)]
pub struct ActionPolicy {
    pub cooldown_sec: u64,
    pub budget_window_sec: u64,
    pub max_actions_per_window: usize,
}

/// Whether a unit may be shed, and if not, why.
#[derive(Debug, Clone, Copy, PartialEq, Eq, Structural)]
pub enum Decision {
    Shed,
    SuppressedCooldown,
    SuppressedBudget,
    SuppressedObserveOnly,
}

/// What a [`Budget`] remembers: when each unit was last shed, and when actions were taken.
pub struct Memory {
    pub last_action: Map<Seq<char>, u64>,
    pub history: Seq<u64>,
}

/// `a - b`, or zero if that is negative.
pub open spec fn less(a: u64, b: u64) -> u64 {
    if a >= b {
        (a - b) as u64
    } else {
        0
    }
}

/// The times that lie behind `cutoff`.
pub open spec fn since(times: Seq<u64>, cutoff: int) -> Seq<u64> {
    times.filter(|t: u64| t > cutoff)
}

/// Whether `unit` was shed too short a time ago to be shed again at `now`.
pub open spec fn cooling_down(memory: Memory, unit: Seq<char>, now: u64, policy: ActionPolicy) -> bool {
    memory.last_action.contains_key(unit) && less(now, memory.last_action[unit])
        < policy.cooldown_sec
}

/// The actions that the budget still counts at `now`: those less than `budget_window_sec` seconds
/// old.
pub open spec fn counted(memory: Memory, now: u64, policy: ActionPolicy) -> Seq<u64> {
    since(memory.history, now - policy.budget_window_sec)
}

/// What is decided on a request to shed `unit` at `now`. Observe-only comes last, so that a dry
/// run exercises the same cooldown and budget arithmetic the live path would.
pub open spec fn decision(
    memory: Memory,
    unit: Seq<char>,
    now: u64,
    policy: ActionPolicy,
    observe_only: bool,
) -> Decision {
    if cooling_down(memory, unit, now, policy) {
        Decision::SuppressedCooldown
    } else if counted(memory, now, policy).len() >= policy.max_actions_per_window {
        Decision::SuppressedBudget
    } else if observe_only {
        Decision::SuppressedObserveOnly
    } else {
        Decision::Shed
    }
}

/// What is remembered after a request to shed `unit` at `now`. Actions that no longer count are
/// forgotten, unless the unit is cooling down; only an admitted action is added.
pub open spec fn remembered(
    memory: Memory,
    unit: Seq<char>,
    now: u64,
    policy: ActionPolicy,
    observe_only: bool,
) -> Memory {
    match decision(memory, unit, now, policy, observe_only) {
        Decision::SuppressedCooldown => memory,
        Decision::Shed => Memory {
            last_action: memory.last_action.insert(unit, now),
            history: counted(memory, now, policy).push(now),
        },
        _ => Memory { history: counted(memory, now, policy), ..memory },
    }
}

/// Whether two budgets remember the same of `unit`.
pub open spec fn alike(a: Memory, b: Memory, unit: Seq<char>) -> bool {
    &&& a.last_action.contains_key(unit) == b.last_action.contains_key(unit)
    &&& a.last_action.contains_key(unit) ==> a.last_action[unit] == b.last_action[unit]
}

/// Rate limiting for destructive actions, keyed by unit.
///
/// State is in memory by design: a resident daemon that is restarted has,
/// correctly, forgotten its cooldowns.
pub struct Budget {
    last_action: StringHashMap<u64>,
    history: Vec<u64>,
}

impl View for Budget {
    type V = Memory;

    closed spec fn view(&self) -> Memory {
        Memory { last_action: self.last_action@, history: self.history@ }
    }
}

/// What is remembered before any request.
pub open spec fn nothing_remembered() -> Memory {
    Memory { last_action: Map::empty(), history: Seq::empty() }
}

impl Budget {
    /// A budget that has admitted nothing yet.
    #[must_use]
    pub fn new() -> (budget: Self)
        ensures
            budget@ == nothing_remembered(),
    {
        Budget { last_action: StringHashMap::new(), history: Vec::new() }
    }

    /// Decide whether `unit` may be shed at `now` (seconds), recording the
    /// action if so. Suppressed attempts do not consume budget.
    pub fn try_admit(
        &mut self,
        unit: &str,
        now: u64,
        policy: &ActionPolicy,
        observe_only: bool,
    ) -> (verdict: Decision)
        ensures
            verdict == decision(old(self)@, unit@, now, *policy, observe_only),
            final(self)@ == remembered(old(self)@, unit@, now, *policy, observe_only),
    {
        if let Some(last) = self.last_action.get(unit) {
            if now.saturating_sub(*last) < policy.cooldown_sec {
                return Decision::SuppressedCooldown;
            }
        }
        self.forget(now, policy.budget_window_sec);
        if self.history.len() >= policy.max_actions_per_window {
            return Decision::SuppressedBudget;
        }
        if observe_only {
            return Decision::SuppressedObserveOnly;
        }
        self.last_action.insert(unit.to_owned(), now);
        self.history.push(now);
        Decision::Shed
    }

    /// Forgets the actions that are `window` seconds old or more.
    fn forget(&mut self, now: u64, window: u64)
        ensures
            final(self)@ == (Memory {
                history: since(old(self)@.history, now - window),
                ..old(self)@
            }),
    {
        let mut kept: Vec<u64> = Vec::new();
        let ghost cutoff = now - window;
        let ghost recent = |t: u64| t > cutoff;
        let mut i: usize = 0;
        assert(self.history@.take(0).filter(recent) == Seq::<u64>::empty()) by {
            reveal(Seq::filter);
        }
        while i < self.history.len()
            invariant
                i <= self.history.len(),
                cutoff == now - window,
                recent == (|t: u64| t > cutoff),
                kept@ == self.history@.take(i as int).filter(recent),
            decreases self.history.len() - i,
        {
            proof {
                reveal(Seq::filter);
                assert(self.history@.take(i + 1).drop_last() == self.history@.take(i as int));
            }
            let t = self.history[i];
            if t > now || now - t < window {
                kept.push(t);
            }
            i += 1;
        }
        assert(self.history@.take(i as int) == self.history@);
        self.history = kept;
    }

    /// A budget of its own that remembers the same of these units.
    pub fn copy_for(&self, units: &Vec<(String, bool)>) -> (copy: Self)
        ensures
            copy@.history == self@.history,
            forall|i: int| 0 <= i < units.len() ==> alike(copy@, self@, (#[trigger] units[i]).0@),
    {
        let mut copy = Budget { last_action: StringHashMap::new(), history: Vec::new() };
        let mut i: usize = 0;
        while i < self.history.len()
            invariant
                i <= self.history.len(),
                copy.history@ == self.history@.take(i as int),
                copy.last_action@ == Map::<Seq<char>, u64>::empty(),
            decreases self.history.len() - i,
        {
            copy.history.push(self.history[i]);
            i += 1;
        }
        let mut k: usize = 0;
        while k < units.len()
            invariant
                k <= units.len(),
                copy.history@ == self.history@,
                copy.last_action@.submap_of(self.last_action@),
                forall|i: int|
                    0 <= i < k ==> alike(copy@, self@, (#[trigger] units[i]).0@),
            decreases units.len() - k,
        {
            let unit = &units[k].0;
            if let Some(last) = self.last_action.get(unit.as_str()) {
                copy.last_action.insert(unit.clone(), *last);
            }
            k += 1;
        }
        copy
    }

    /// How many actions are remembered.
    #[must_use]
    pub fn actions_in_window(&self) -> (n: usize)
        ensures
            n == self@.history.len(),
    {
        self.history.len()
    }
}

/// A request to shed a unit.
pub struct Request {
    pub unit: Seq<char>,
    pub now: u64,
    pub observe_only: bool,
}

/// What a budget remembers that was new before these requests.
pub open spec fn after(policy: ActionPolicy, requests: Seq<Request>) -> Memory
    decreases requests.len(),
{
    if requests.len() == 0 {
        nothing_remembered()
    } else {
        let r = requests.last();
        remembered(after(policy, requests.drop_last()), r.unit, r.now, policy, r.observe_only)
    }
}

/// Whether the request at position `i` is admitted.
pub open spec fn admitted(policy: ActionPolicy, requests: Seq<Request>, i: int) -> bool {
    let r = requests[i];
    decision(after(policy, requests.take(i)), r.unit, r.now, policy, r.observe_only)
        == Decision::Shed
}

/// When requests were admitted, in order.
pub open spec fn shed_times(policy: ActionPolicy, requests: Seq<Request>) -> Seq<u64>
    decreases requests.len(),
{
    if requests.len() == 0 {
        Seq::empty()
    } else {
        let before = shed_times(policy, requests.drop_last());
        let r = requests.last();
        if decision(after(policy, requests.drop_last()), r.unit, r.now, policy, r.observe_only)
            == Decision::Shed {
            before.push(r.now)
        } else {
            before
        }
    }
}

/// Whether the requests come in the order of a clock that never goes back.
pub open spec fn in_order(requests: Seq<Request>) -> bool {
    forall|i: int, j: int|
        0 <= i <= j < requests.len() ==> (#[trigger] requests[i]).now <= (#[trigger] requests[j]).now
}

/// How many of the times lie in the window of length `width` that ends at `end`.
pub open spec fn in_window(times: Seq<u64>, end: int, width: u64) -> nat {
    times.filter(|t: u64| end - width < t && t <= end).len()
}

/// A wider filter keeps no fewer items.
proof fn lemma_wider(s: Seq<u64>, p: spec_fn(u64) -> bool, q: spec_fn(u64) -> bool)
    requires
        forall|i: int| 0 <= i < s.len() && p(#[trigger] s[i]) ==> q(s[i]),
    ensures
        s.filter(p).len() <= s.filter(q).len(),
    decreases s.len(),
{
    reveal(Seq::filter);
    if s.len() != 0 {
        assert forall|i: int| 0 <= i < s.drop_last().len() && p(
            #[trigger] s.drop_last()[i],
        ) implies q(s.drop_last()[i]) by {
            assert(s.drop_last()[i] == s[i]);
        }
        lemma_wider(s.drop_last(), p, q);
        assert(p(s[s.len() - 1]) ==> q(s[s.len() - 1]));
    }
}

/// A filter that no item passes keeps nothing.
proof fn lemma_none(s: Seq<u64>, p: spec_fn(u64) -> bool)
    requires
        forall|i: int| 0 <= i < s.len() ==> !p(#[trigger] s[i]),
    ensures
        s.filter(p).len() == 0,
{
    lemma_wider(s, p, |t: u64| false);
    lemma_nothing(s);
}

/// The filter that keeps nothing keeps nothing.
proof fn lemma_nothing(s: Seq<u64>)
    ensures
        s.filter(|t: u64| false).len() == 0,
    decreases s.len(),
{
    reveal(Seq::filter);
    if s.len() != 0 {
        lemma_nothing(s.drop_last());
    }
}

/// Filtering one more item.
pub(crate) proof fn lemma_filter_push(s: Seq<u64>, x: u64, p: spec_fn(u64) -> bool)
    ensures
        s.push(x).filter(p) == if p(x) {
            s.filter(p).push(x)
        } else {
            s.filter(p)
        },
{
    reveal(Seq::filter);
    assert(s.push(x).drop_last() == s);
}

/// Of two cutoffs in a row the later decides.
proof fn lemma_since_since(s: Seq<u64>, a: int, b: int)
    requires
        a <= b,
    ensures
        since(since(s, a), b) == since(s, b),
    decreases s.len(),
{
    reveal(Seq::filter);
    if s.len() != 0 {
        lemma_since_since(s.drop_last(), a, b);
        let x = s.last();
        let earlier = since(s.drop_last(), a);
        if x > a {
            lemma_filter_push(earlier, x, |t: u64| t > b);
        }
    }
}

/// Every admitted time is that of some request.
proof fn lemma_shed_times_bounded(policy: ActionPolicy, requests: Seq<Request>, end: u64)
    requires
        forall|i: int| 0 <= i < requests.len() ==> (#[trigger] requests[i]).now <= end,
    ensures
        forall|k: int|
            0 <= k < shed_times(policy, requests).len() ==> #[trigger] shed_times(
                policy,
                requests,
            )[k] <= end,
    decreases requests.len(),
{
    if requests.len() != 0 {
        let earlier = requests.drop_last();
        assert forall|i: int| 0 <= i < earlier.len() implies (#[trigger] earlier[i]).now <= end by {
            assert(earlier[i] == requests[i]);
        }
        lemma_shed_times_bounded(policy, earlier, end);
        assert(requests[requests.len() - 1].now <= end);
        assert forall|k: int| 0 <= k < shed_times(policy, requests).len() implies
            #[trigger] shed_times(policy, requests)[k] <= end by {
            let before = shed_times(policy, earlier);
            if k < before.len() {
                assert(shed_times(policy, requests)[k] == before[k]);
            }
        }
    }
}

/// What is remembered agrees with what was admitted, from the last cutoff on.
pub(crate) proof fn lemma_history_agrees(policy: ActionPolicy, requests: Seq<Request>, cutoff: int)
    requires
        in_order(requests),
        requests.len() > 0 ==> cutoff >= requests.last().now - policy.budget_window_sec,
    ensures
        since(after(policy, requests).history, cutoff) == since(
            shed_times(policy, requests),
            cutoff,
        ),
    decreases requests.len(),
{
    if requests.len() != 0 {
        let earlier = requests.drop_last();
        let r = requests.last();
        let memory = after(policy, earlier);
        let own = r.now - policy.budget_window_sec;
        assert(in_order(earlier));
        if earlier.len() > 0 {
            assert(requests[requests.len() - 2].now <= requests[requests.len() - 1].now);
            assert(earlier.last() == requests[requests.len() - 2]);
        }
        lemma_history_agrees(policy, earlier, cutoff);
        lemma_since_since(memory.history, own, cutoff);
        match decision(memory, r.unit, r.now, policy, r.observe_only) {
            Decision::Shed => {
                lemma_filter_push(counted(memory, r.now, policy), r.now, |t: u64| t > cutoff);
                lemma_filter_push(shed_times(policy, earlier), r.now, |t: u64| t > cutoff);
            },
            _ => {},
        }
    }
}

/// The budget holds: however requests come, on a clock that never goes back, no window of
/// `budget_window_sec` seconds sees more than `max_actions_per_window` units shed.
pub proof fn budget_holds(policy: ActionPolicy, requests: Seq<Request>, end: u64)
    requires
        in_order(requests),
    ensures
        in_window(shed_times(policy, requests), end as int, policy.budget_window_sec)
            <= policy.max_actions_per_window,
    decreases requests.len(),
{
    let width = policy.budget_window_sec;
    let inside = |t: u64| end - width < t && t <= end;
    if requests.len() == 0 {
        reveal(Seq::filter);
    } else {
        let earlier = requests.drop_last();
        let r = requests.last();
        let memory = after(policy, earlier);
        let before = shed_times(policy, earlier);
        assert(in_order(earlier));
        budget_holds(policy, earlier, end);
        if decision(memory, r.unit, r.now, policy, r.observe_only) == Decision::Shed {
            lemma_filter_push(before, r.now, inside);
            assert forall|i: int| 0 <= i < earlier.len() implies (#[trigger] earlier[i]).now
                <= r.now by {
                assert(earlier[i] == requests[i]);
                assert(requests[i].now <= requests[requests.len() - 1].now);
            }
            lemma_shed_times_bounded(policy, earlier, r.now);
            if r.now <= end && r.now <= end - width {
                lemma_none(before, inside);
            } else if r.now <= end {
                let cutoff = r.now - width;
                let recent = |t: u64| t > cutoff;
                assert forall|i: int| 0 <= i < before.len() && inside(
                    #[trigger] before[i],
                ) implies recent(before[i]) by {}
                lemma_wider(before, inside, recent);
                if earlier.len() > 0 {
                    assert(requests[requests.len() - 2].now <= requests[requests.len() - 1].now);
                    assert(earlier.last() == requests[requests.len() - 2]);
                }
                lemma_history_agrees(policy, earlier, cutoff);
            }
        }
    }
}

/// A unit that was shed is remembered, with a time no earlier.
proof fn lemma_last_action(policy: ActionPolicy, requests: Seq<Request>, i: int)
    requires
        in_order(requests),
        0 <= i < requests.len(),
        admitted(policy, requests, i),
    ensures
        after(policy, requests).last_action.contains_key(requests[i].unit),
        after(policy, requests).last_action[requests[i].unit] >= requests[i].now,
    decreases requests.len(),
{
    let earlier = requests.drop_last();
    if i == requests.len() - 1 {
        assert(requests.take(i) == earlier);
    } else {
        assert(in_order(earlier));
        assert(earlier.take(i) == requests.take(i));
        assert(earlier[i] == requests[i]);
        lemma_last_action(policy, earlier, i);
        assert(requests[i].now <= requests[requests.len() - 1].now);
    }
}

/// The cooldown holds: on a clock that never goes back, two admissions of one unit lie at least
/// `cooldown_sec` seconds apart.
pub proof fn cooldown_holds(policy: ActionPolicy, requests: Seq<Request>, i: int, j: int)
    requires
        in_order(requests),
        0 <= i < j < requests.len(),
        requests[i].unit == requests[j].unit,
        admitted(policy, requests, i),
        admitted(policy, requests, j),
    ensures
        requests[j].now - requests[i].now >= policy.cooldown_sec,
{
    let before = requests.take(j);
    assert(in_order(before));
    assert(before.take(i) == requests.take(i));
    assert(before[i] == requests[i]);
    lemma_last_action(policy, before, i);
    assert(requests[i].now <= requests[j].now);
}

/// What lies behind a cutoff is part of the whole.
proof fn lemma_since_subset(s: Seq<u64>, cutoff: int)
    ensures
        since(s, cutoff).len() <= s.len(),
        forall|t: u64| since(s, cutoff).contains(t) ==> s.contains(t),
    decreases s.len(),
{
    reveal(Seq::filter);
    if s.len() != 0 {
        let earlier = s.drop_last();
        lemma_since_subset(earlier, cutoff);
        assert forall|t: u64| since(s, cutoff).contains(t) implies s.contains(t) by {
            let k = choose|k: int| 0 <= k < since(s, cutoff).len() && since(s, cutoff)[k] == t;
            if k < since(earlier, cutoff).len() {
                assert(since(earlier, cutoff)[k] == t);
                assert(earlier.contains(t));
                let m = choose|m: int| 0 <= m < earlier.len() && earlier[m] == t;
                assert(s[m] == t);
            } else {
                assert(s[s.len() - 1] == t);
            }
        }
    }
}

/// A suppressed attempt consumes nothing: no unit's last action changes, and no action is added
/// to those that the budget counts.
pub proof fn suppressed_attempts_consume_nothing(
    memory: Memory,
    unit: Seq<char>,
    now: u64,
    policy: ActionPolicy,
    observe_only: bool,
)
    requires
        decision(memory, unit, now, policy, observe_only) != Decision::Shed,
    ensures
        remembered(memory, unit, now, policy, observe_only).last_action == memory.last_action,
        remembered(memory, unit, now, policy, observe_only).history.len() <= memory.history.len(),
        forall|t: u64|
            remembered(memory, unit, now, policy, observe_only).history.contains(t)
                ==> memory.history.contains(t),
{
    lemma_since_subset(memory.history, now - policy.budget_window_sec);
}

/// What is decided on requests, in order, by a budget that remembers `memory` before them.
pub open spec fn decisions(memory: Memory, policy: ActionPolicy, requests: Seq<Request>) -> Seq<
    Decision,
>
    decreases requests.len(),
{
    if requests.len() == 0 {
        Seq::empty()
    } else {
        let r = requests[0];
        seq![decision(memory, r.unit, r.now, policy, r.observe_only)] + decisions(
            remembered(memory, r.unit, r.now, policy, r.observe_only),
            policy,
            requests.drop_first(),
        )
    }
}

/// Budgets that count the same from `now` on decide the same.
proof fn lemma_same_decisions(
    a: Memory,
    b: Memory,
    now: u64,
    policy: ActionPolicy,
    requests: Seq<Request>,
)
    requires
        a.last_action == b.last_action,
        forall|t: u64| t >= now ==> #[trigger] counted(a, t, policy) == counted(b, t, policy),
        in_order(requests),
        requests.len() > 0 ==> requests[0].now >= now,
    ensures
        decisions(a, policy, requests) == decisions(b, policy, requests),
    decreases requests.len(),
{
    if requests.len() != 0 {
        let r = requests[0];
        let rest = requests.drop_first();
        let next_a = remembered(a, r.unit, r.now, policy, r.observe_only);
        let next_b = remembered(b, r.unit, r.now, policy, r.observe_only);
        assert(counted(a, r.now, policy) == counted(b, r.now, policy));
        assert(in_order(rest));
        if rest.len() > 0 {
            assert(requests[0].now <= requests[1].now);
        }
        assert forall|t: u64| t >= r.now implies #[trigger] counted(next_a, t, policy) == counted(
            next_b,
            t,
            policy,
        ) by {
            assert(counted(a, t, policy) == counted(b, t, policy));
        }
        lemma_same_decisions(next_a, next_b, r.now, policy, rest);
    }
}

/// A suppressed attempt makes no difference: on a clock that never goes back, whatever is asked
/// later is decided as if the attempt had not been made.
pub proof fn suppressed_attempts_make_no_difference(
    memory: Memory,
    unit: Seq<char>,
    now: u64,
    policy: ActionPolicy,
    observe_only: bool,
    later: Seq<Request>,
)
    requires
        decision(memory, unit, now, policy, observe_only) != Decision::Shed,
        in_order(later),
        later.len() > 0 ==> later[0].now >= now,
    ensures
        decisions(remembered(memory, unit, now, policy, observe_only), policy, later) == decisions(
            memory,
            policy,
            later,
        ),
{
    let next = remembered(memory, unit, now, policy, observe_only);
    assert forall|t: u64| t >= now implies #[trigger] counted(next, t, policy) == counted(
        memory,
        t,
        policy,
    ) by {
        lemma_since_since(
            memory.history,
            now - policy.budget_window_sec,
            t - policy.budget_window_sec,
        );
    }
    lemma_same_decisions(next, memory, now, policy, later);
}

/// A dry run decides as the live path would, but for the action itself: observe-only is told
/// exactly where a unit would be shed, and nothing is shed.
pub proof fn observe_only_mirrors_the_live_path(
    memory: Memory,
    unit: Seq<char>,
    now: u64,
    policy: ActionPolicy,
)
    ensures
        decision(memory, unit, now, policy, true) != Decision::Shed,
        decision(memory, unit, now, policy, true) == Decision::SuppressedObserveOnly <==> decision(
            memory,
            unit,
            now,
            policy,
            false,
        ) == Decision::Shed,
        decision(memory, unit, now, policy, false) != Decision::Shed ==> decision(
            memory,
            unit,
            now,
            policy,
            true,
        ) == decision(memory, unit, now, policy, false),
{
}

} // verus!
