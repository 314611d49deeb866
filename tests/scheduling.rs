use agent_gateway::pool::Agent;
use agent_gateway::restart::{step, RestartAction, RestartConfig, RestartEvent, RestartState};

fn pool() -> Vec<Agent> {
    Agent::from_env(Some("http://a|replicas=2,http://b|replicas=1")).unwrap()
}

#[test]
fn hourly_defaults() {
    let c = RestartConfig::hourly();
    assert_eq!(c.period_secs, 3600);
    assert_eq!(c.stagger_secs, 120);
}

#[test]
fn cycle_restarts_each_agent_in_order() {
    let agents = pool();
    let config = RestartConfig::hourly();
    let mut actions = Vec::new();
    let (mut state, mut action) = step(&agents, &config, RestartState::Idle, RestartEvent::Tick);
    actions.push(action.clone());
    while action != RestartAction::AwaitTick {
        let event = match action {
            RestartAction::Shutdown(_) => RestartEvent::Restarted,
            RestartAction::Sleep(_) => RestartEvent::WaitOver,
            RestartAction::AwaitTick => unreachable!(),
        };
        let next = step(&agents, &config, state, event);
        state = next.0;
        action = next.1;
        actions.push(action.clone());
    }
    assert_eq!(
        actions,
        vec![
            RestartAction::Shutdown("http://a-1/shutdown".to_string()),
            RestartAction::Sleep(120),
            RestartAction::Shutdown("http://a-2/shutdown".to_string()),
            RestartAction::Sleep(120),
            RestartAction::Shutdown("http://b-1/shutdown".to_string()),
            RestartAction::Sleep(120),
            RestartAction::AwaitTick,
        ]
    );
    assert_eq!(actions.iter().filter(|a| matches!(a, RestartAction::Shutdown(_))).count(), 3);
    assert_eq!(actions.iter().filter(|a| **a == RestartAction::AwaitTick).count(), 1);
    assert_eq!(state, RestartState::Idle);
}

#[test]
fn failed_shutdown_abandons_the_cycle() {
    let agents = pool();
    let config = RestartConfig { period_secs: 60, stagger_secs: 5 };
    let (s, a) = step(&agents, &config, RestartState::Idle, RestartEvent::Tick);
    assert_eq!(a, RestartAction::Shutdown("http://a-1/shutdown".to_string()));
    let (s, a) = step(&agents, &config, s, RestartEvent::Restarted);
    assert_eq!(a, RestartAction::Sleep(5));
    let (s, _) = step(&agents, &config, s, RestartEvent::WaitOver);
    assert_eq!(s, RestartState::Restarting(1));
    let (s, a) = step(&agents, &config, s, RestartEvent::RestartFailed);
    assert_eq!(s, RestartState::Idle);
    assert_eq!(a, RestartAction::AwaitTick);
    let (s, a) = step(&agents, &config, s, RestartEvent::Tick);
    assert_eq!(s, RestartState::Restarting(0));
    assert_eq!(a, RestartAction::Shutdown("http://a-1/shutdown".to_string()));
}

#[test]
fn empty_pool_only_waits() {
    let config = RestartConfig::hourly();
    let (s, a) = step(&vec![], &config, RestartState::Idle, RestartEvent::Tick);
    assert_eq!(s, RestartState::Idle);
    assert_eq!(a, RestartAction::AwaitTick);
}

#[test]
fn unexpected_event_changes_nothing() {
    let agents = pool();
    let config = RestartConfig::hourly();
    let (s, a) = step(&agents, &config, RestartState::Waiting(0), RestartEvent::Tick);
    assert_eq!(s, RestartState::Waiting(0));
    assert_eq!(a, RestartAction::Sleep(120));
}
