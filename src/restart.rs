//! The restart scheduler: on each outer tick, every agent is told to shut
//! down (and so restart) one at a time, in registry order, with a fixed
//! stagger delay after each; a failed shutdown call ends the cycle early.
use vstd::prelude::*;
use crate::pool::Agent;

verus! {

/// The default time between the starts of two restart cycles.
pub const DEFAULT_PERIOD_SECS: u64 = 3600;

/// The default delay after each agent's restart.
pub const DEFAULT_STAGGER_SECS: u64 = 120;

/// The two delays of the scheduler.
#[derive(Debug, Clone, Copy, PartialEq, Eq)]
pub struct RestartConfig {
    /// Seconds between the starts of two cycles.
    pub period_secs: u64,
    /// Seconds to wait after each agent's restart.
    pub stagger_secs: u64,
}

impl RestartConfig {
    /// An hourly cycle with a two-minute stagger.
    pub fn hourly() -> (r: RestartConfig)
        ensures
            r.period_secs == DEFAULT_PERIOD_SECS,
            r.stagger_secs == DEFAULT_STAGGER_SECS,
    {
        RestartConfig { period_secs: DEFAULT_PERIOD_SECS, stagger_secs: DEFAULT_STAGGER_SECS }
    }
}

/// Where the scheduler stands.
#[derive(Debug, Clone, Copy, PartialEq, Eq, Structural)]
pub enum RestartState {
    /// Waiting for the next outer tick.
    Idle,
    /// The shutdown call to the agent at this index is under way.
    Restarting(usize),
    /// The stagger delay after the agent at this index is running.
    Waiting(usize),
}

/// What happened since the last step.
#[derive(Debug, Clone, Copy, PartialEq, Eq, Structural)]
pub enum RestartEvent {
    /// The outer interval fired.
    Tick,
    /// The shutdown call returned.
    Restarted,
    /// The shutdown call failed.
    RestartFailed,
    /// The stagger delay ran out.
    WaitOver,
}

/// What the scheduler asks to be done next.
#[derive(Debug, Clone, PartialEq, Eq)]
pub enum RestartAction {
    /// Wait for the next outer tick.
    AwaitTick,
    /// Send a DELETE to this URL.
    Shutdown(String),
    /// Sleep this many seconds.
    Sleep(u64),
}

/// The URL that tells an agent to shut down.
pub open spec fn shutdown_url(agent: Agent) -> Seq<char> {
    agent.url@ + "/shutdown"@
}

/// Whether a state refers only to agents of a pool of `n`.
pub open spec fn state_in_pool(s: RestartState, n: nat) -> bool {
    match s {
        RestartState::Idle => true,
        RestartState::Restarting(i) => i < n,
        RestartState::Waiting(i) => i < n,
    }
}

/// The state after `e` in state `s`, for a pool of `n` agents. An event
/// that the state does not wait for changes nothing.
pub open spec fn next_state(n: nat, s: RestartState, e: RestartEvent) -> RestartState {
    match (s, e) {
        (RestartState::Idle, RestartEvent::Tick) => if n > 0 {
            RestartState::Restarting(0)
        } else {
            RestartState::Idle
        },
        (RestartState::Restarting(i), RestartEvent::Restarted) => RestartState::Waiting(i),
        (RestartState::Restarting(_), RestartEvent::RestartFailed) => RestartState::Idle,
        (RestartState::Waiting(i), RestartEvent::WaitOver) => if i + 1 < n {
            RestartState::Restarting((i + 1) as usize)
        } else {
            RestartState::Idle
        },
        _ => s,
    }
}

/// Whether `a` is the action that state `s` waits on.
pub open spec fn action_of(agents: Seq<Agent>, config: RestartConfig, s: RestartState, a: RestartAction) -> bool {
    match (s, a) {
        (RestartState::Idle, RestartAction::AwaitTick) => true,
        (RestartState::Restarting(i), RestartAction::Shutdown(u)) => u@ == shutdown_url(agents[i as int]),
        (RestartState::Waiting(_), RestartAction::Sleep(d)) => d == config.stagger_secs,
        _ => false,
    }
}

/// The URL that tells `agent` to shut down.
pub fn shutdown_target(agent: &Agent) -> (r: String)
    ensures
        r@ == shutdown_url(*agent),
{
    let mut url = agent.url.clone();
    url.append("/shutdown");
    url
}

/// The action that state `s` waits on.
pub fn action_for(agents: &Vec<Agent>, config: &RestartConfig, s: RestartState) -> (r: RestartAction)
    requires
        state_in_pool(s, agents@.len()),
    ensures
        action_of(agents@, *config, s, r),
{
    match s {
        RestartState::Idle => RestartAction::AwaitTick,
        RestartState::Restarting(i) => RestartAction::Shutdown(shutdown_target(&agents[i])),
        RestartState::Waiting(_) => RestartAction::Sleep(config.stagger_secs),
    }
}

/// One step of the scheduler: the state after `e`, and the action that
/// the new state waits on.
pub fn step(agents: &Vec<Agent>, config: &RestartConfig, s: RestartState, e: RestartEvent) -> (r: (RestartState, RestartAction))
    requires
        state_in_pool(s, agents@.len()),
    ensures
        r.0 == next_state(agents@.len(), s, e),
        state_in_pool(r.0, agents@.len()),
        action_of(agents@, *config, r.0, r.1),
{
    let n = agents.len();
    let next = match (s, e) {
        (RestartState::Idle, RestartEvent::Tick) => if n > 0 {
            RestartState::Restarting(0)
        } else {
            RestartState::Idle
        },
        (RestartState::Restarting(i), RestartEvent::Restarted) => RestartState::Waiting(i),
        (RestartState::Restarting(_), RestartEvent::RestartFailed) => RestartState::Idle,
        (RestartState::Waiting(i), RestartEvent::WaitOver) => if i + 1 < n {
            RestartState::Restarting(i + 1)
        } else {
            RestartState::Idle
        },
        _ => s,
    };
    (next, action_for(agents, config, next))
}

/// The state reached from `s` through the events `es`, in order.
pub open spec fn run(n: nat, s: RestartState, es: Seq<RestartEvent>) -> RestartState
    decreases es.len(),
{
    if es.len() == 0 {
        s
    } else {
        next_state(n, run(n, s, es.drop_last()), es.last())
    }
}

/// A tick, then `k` restarts that each return and are followed by their
/// stagger delay.
pub open spec fn cycle_events(k: nat) -> Seq<RestartEvent>
    decreases k,
{
    if k == 0 {
        seq![RestartEvent::Tick]
    } else {
        cycle_events((k - 1) as nat).push(RestartEvent::Restarted).push(RestartEvent::WaitOver)
    }
}

/// From a tick on, with every shutdown call succeeding, the scheduler
/// restarts the agents in registry order: after the tick and `i` completed
/// restarts it is restarting agent `i`, and once that call returns it
/// waits out the stagger delay after agent `i`.
pub proof fn lemma_cycle_in_order(n: nat, i: nat)
    requires
        i < n <= usize::MAX,
    ensures
        run(n, RestartState::Idle, cycle_events(i)) == RestartState::Restarting(i as usize),
        run(n, RestartState::Idle, cycle_events(i).push(RestartEvent::Restarted)) == RestartState::Waiting(i as usize),
    decreases i,
{
    let idle = RestartState::Idle;
    let es = cycle_events(i).push(RestartEvent::Restarted);
    if i == 0 {
        let first = cycle_events(0);
        assert(first == seq![RestartEvent::Tick]);
        assert(first.drop_last() =~= Seq::<RestartEvent>::empty());
        assert(run(n, idle, first.drop_last()) == idle);
        assert(run(n, idle, first) == next_state(n, idle, RestartEvent::Tick));
    } else {
        lemma_cycle_in_order(n, (i - 1) as nat);
        let prev = cycle_events((i - 1) as nat).push(RestartEvent::Restarted);
        let cur = cycle_events(i);
        assert(cur == prev.push(RestartEvent::WaitOver));
        assert(cur.drop_last() =~= prev);
        assert(run(n, idle, cur) == next_state(n, run(n, idle, prev), RestartEvent::WaitOver));
    }
    assert(es.drop_last() =~= cycle_events(i));
    assert(run(n, idle, es) == next_state(n, run(n, idle, cycle_events(i)), RestartEvent::Restarted));
}

/// A cycle over `n` agents in which every shutdown call succeeds ends, after
/// the last stagger delay, back in the state that waits for the next tick.
pub proof fn lemma_cycle_returns_to_idle(n: nat)
    requires
        n <= usize::MAX,
    ensures
        run(n, RestartState::Idle, cycle_events(n)) == RestartState::Idle,
{
    let idle = RestartState::Idle;
    let all = cycle_events(n);
    if n == 0 {
        assert(all == seq![RestartEvent::Tick]);
        assert(all.drop_last() =~= Seq::<RestartEvent>::empty());
        assert(run(n, idle, all.drop_last()) == idle);
        assert(run(n, idle, all) == next_state(n, idle, RestartEvent::Tick));
    } else {
        lemma_cycle_in_order(n, (n - 1) as nat);
        let prev = cycle_events((n - 1) as nat).push(RestartEvent::Restarted);
        assert(all == prev.push(RestartEvent::WaitOver));
        assert(all.drop_last() =~= prev);
        assert(run(n, idle, all) == next_state(n, run(n, idle, prev), RestartEvent::WaitOver));
    }
}

/// A failed shutdown call abandons the rest of the cycle: the scheduler
/// goes back to waiting for the next tick.
pub proof fn lemma_failure_abandons_cycle(n: nat, i: usize)
    ensures
        next_state(n, RestartState::Restarting(i), RestartEvent::RestartFailed) == RestartState::Idle,
{
}

} // verus!
