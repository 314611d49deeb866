use agent_gateway::error::GatewayError;
use agent_gateway::gateway::{check_api_key, forward_url, respond, CallAction, CallPhase, ScrapeCall};
use agent_gateway::pool::Agent;

fn pool() -> Vec<Agent> {
    Agent::from_env(Some("http://a|replicas=2,http://b|replicas=1")).unwrap()
}

fn respond_with(status: u16, body: &str) -> CallAction {
    CallAction::Respond(status, body.to_string())
}

#[test]
fn credential_check() {
    assert_eq!(check_api_key(Some("k"), "k"), Ok(()));
    assert_eq!(check_api_key(None, "k"), Err(GatewayError::MissingApiKey));
    assert_eq!(check_api_key(Some("K"), "k"), Err(GatewayError::InvalidApiKey));
    assert_eq!(check_api_key(Some(""), "k"), Err(GatewayError::InvalidApiKey));
}

#[test]
fn forward_targets() {
    let a = Agent { id: 1, url: "http://a-1".to_string() };
    assert_eq!(forward_url(&a, false), "http://a-1/scrape");
    assert_eq!(forward_url(&a, true), "http://a-1/scrape-js");
}

#[test]
fn responses() {
    assert_eq!(respond(Ok("<html/>".to_string())), (200, "<html/>".to_string()));
    assert_eq!(respond(Err(GatewayError::NoAvailableAgents)), (500, "NO AVAILABLE AGENTS".to_string()));
    assert_eq!(respond(Err(GatewayError::ForwardError("timed out".to_string()))), (500, "timed out".to_string()));
    assert_eq!(GatewayError::MissingApiKey.message(), "API_KEY NOT FOUND");
    assert_eq!(GatewayError::InvalidApiKey.message(), "API_KEY IS INVALID");
    assert_eq!(GatewayError::ProbeError("refused".to_string()).message(), "refused");
    assert_eq!(GatewayError::ConfigurationMissing.message(), "AGENT_URLS NOT CONFIGURED");
}

#[test]
fn unauthorized_request_reaches_no_agent() {
    let (call, action) = ScrapeCall::start(None, "secret", pool(), false);
    assert_eq!(action, respond_with(500, "API_KEY NOT FOUND"));
    assert_eq!(call.phase, CallPhase::Done);
    assert_eq!(call.prober.probed, 0);
    let (call, action) = ScrapeCall::start(Some("guess"), "secret", pool(), true);
    assert_eq!(action, respond_with(500, "API_KEY IS INVALID"));
    assert_eq!(call.phase, CallPhase::Done);
    assert_eq!(call.prober.probed, 0);
}

#[test]
fn all_busy_request_fails_with_no_available_agents() {
    let (mut call, mut action) = ScrapeCall::start(Some("secret"), "secret", pool(), false);
    let mut probes = 0;
    while let CallAction::Probe(_) = action {
        probes += 1;
        action = call.on_probe_reply(Ok("true".to_string()));
    }
    assert_eq!(probes, 3);
    assert_eq!(action, respond_with(500, "NO AVAILABLE AGENTS"));
    assert_eq!(call.phase, CallPhase::Done);
}

#[test]
fn single_idle_agent_receives_the_request() {
    for (js, target) in [(false, "http://a-1/scrape"), (true, "http://a-1/scrape-js")] {
        let (mut call, first) = ScrapeCall::start(Some("secret"), "secret", pool(), js);
        assert_eq!(first, CallAction::Probe("http://a-1/is-busy".to_string()));
        let second = call.on_probe_reply(Ok("false".to_string()));
        assert_eq!(second, CallAction::Probe("http://a-2/is-busy".to_string()));
        let third = call.on_probe_reply(Ok("true".to_string()));
        assert_eq!(third, CallAction::Probe("http://b-1/is-busy".to_string()));
        let fourth = call.on_probe_reply(Ok("true".to_string()));
        assert_eq!(fourth, CallAction::Forward(target.to_string()));
        assert_eq!(call.phase, CallPhase::Forwarding);
        let last = call.on_forward_reply(Ok("page".to_string()));
        assert_eq!(last, respond_with(200, "page"));
        assert_eq!(call.phase, CallPhase::Done);
    }
}

#[test]
fn probe_failure_is_relayed() {
    let (mut call, _) = ScrapeCall::start(Some("k"), "k", pool(), false);
    let action = call.on_probe_reply(Err("connection refused".to_string()));
    assert_eq!(action, respond_with(500, "connection refused"));
    assert_eq!(call.phase, CallPhase::Done);
}

#[test]
fn forward_failure_is_relayed() {
    let (mut call, _) = ScrapeCall::start(Some("k"), "k", pool(), false);
    call.on_probe_reply(Ok("false".to_string()));
    call.on_probe_reply(Ok("false".to_string()));
    let action = call.on_probe_reply(Ok("false".to_string()));
    assert!(matches!(action, CallAction::Forward(_)));
    let last = call.on_forward_reply(Err("reset by peer".to_string()));
    assert_eq!(last, respond_with(500, "reset by peer"));
}

#[test]
fn empty_pool_request_fails_with_no_available_agents() {
    let (call, action) = ScrapeCall::start(Some("k"), "k", vec![], false);
    assert_eq!(action, respond_with(500, "NO AVAILABLE AGENTS"));
    assert_eq!(call.phase, CallPhase::Done);
}
