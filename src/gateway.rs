//! The request handler's decisions: the credential check, the agent-side
//! target of a forwarded request, the response relayed to the caller, and
//! one scrape request as a sequence of exchanges with the agents.
use vstd::prelude::*;
use crate::error::GatewayError;
use crate::pool::Agent;
use crate::select::{busy_check_url, Prober};

verus! {

/// The status of a relayed agent response.
pub const STATUS_OK: u16 = 200;

/// The status of any failure of the request path.
pub const STATUS_SERVER_ERROR: u16 = 500;

/// The text that describes a failure to the caller.
pub open spec fn error_text(e: GatewayError) -> Seq<char> {
    match e {
        GatewayError::ConfigurationMissing => "AGENT_URLS NOT CONFIGURED"@,
        GatewayError::MissingApiKey => "API_KEY NOT FOUND"@,
        GatewayError::InvalidApiKey => "API_KEY IS INVALID"@,
        GatewayError::ProbeError(m) => m@,
        GatewayError::NoAvailableAgents => "NO AVAILABLE AGENTS"@,
        GatewayError::ForwardError(m) => m@,
    }
}

impl GatewayError {
    /// The text that describes this failure to the caller.
    pub fn message(&self) -> (r: String)
        ensures
            r@ == error_text(*self),
    {
        match self {
            GatewayError::ConfigurationMissing => String::from_str("AGENT_URLS NOT CONFIGURED"),
            GatewayError::MissingApiKey => String::from_str("API_KEY NOT FOUND"),
            GatewayError::InvalidApiKey => String::from_str("API_KEY IS INVALID"),
            GatewayError::ProbeError(m) => m.clone(),
            GatewayError::NoAvailableAgents => String::from_str("NO AVAILABLE AGENTS"),
            GatewayError::ForwardError(m) => m.clone(),
        }
    }
}

/// The outcome of the credential check on the header value `provided`.
pub open spec fn auth_result(provided: Option<Seq<char>>, api_key: Seq<char>) -> Result<(), GatewayError> {
    match provided {
        None => Err(GatewayError::MissingApiKey),
        Some(k) => if k == api_key {
            Ok(())
        } else {
            Err(GatewayError::InvalidApiKey)
        },
    }
}

/// The view of an optional header value.
pub open spec fn header_view(provided: Option<&str>) -> Option<Seq<char>> {
    match provided {
        Some(k) => Some(k@),
        None => None,
    }
}

/// Checks the caller's credential header against the configured secret.
pub fn check_api_key(provided: Option<&str>, api_key: &str) -> (r: Result<(), GatewayError>)
    ensures
        r == auth_result(header_view(provided), api_key@),
{
    match provided {
        None => Err(GatewayError::MissingApiKey),
        Some(k) => if String::from_str(k) == String::from_str(api_key) {
            Ok(())
        } else {
            Err(GatewayError::InvalidApiKey)
        },
    }
}

/// The agent-side URL that a scrape request goes to.
pub open spec fn scrape_target(agent: Agent, js_enabled: bool) -> Seq<char> {
    agent.url@ + "/"@ + if js_enabled { "scrape-js"@ } else { "scrape"@ }
}

/// The agent-side URL that a scrape request goes to: `scrape-js` for the
/// JavaScript-enabled endpoint, `scrape` otherwise.
pub fn forward_url(agent: &Agent, js_enabled: bool) -> (r: String)
    ensures
        r@ == scrape_target(*agent, js_enabled),
{
    let mut url = agent.url.clone();
    url.append("/");
    if js_enabled {
        url.append("scrape-js");
    } else {
        url.append("scrape");
    }
    url
}

/// The status and body that the caller receives: the agent's body with
/// success, or the failure's text with a server error.
pub fn respond(result: Result<String, GatewayError>) -> (r: (u16, String))
    ensures
        result matches Ok(body) ==> r.0 == STATUS_OK && r.1 == body,
        result matches Err(e) ==> r.0 == STATUS_SERVER_ERROR && r.1@ == error_text(e),
{
    match result {
        Ok(body) => (STATUS_OK, body),
        Err(e) => (STATUS_SERVER_ERROR, e.message()),
    }
}

/// What the handler of one scrape request asks to be done next.
#[derive(Debug, Clone, PartialEq, Eq)]
pub enum CallAction {
    /// Ask the agent at this URL whether it is busy.
    Probe(String),
    /// Send the request body to this agent-side URL.
    Forward(String),
    /// Answer the caller with this status and body.
    Respond(u16, String),
}

/// Where the handling of one scrape request stands.
#[derive(Debug, Clone, Copy, PartialEq, Eq, Structural)]
pub enum CallPhase {
    /// Agents are being asked whether they are busy.
    Probing,
    /// The request is on its way to the chosen agent.
    Forwarding,
    /// The caller has been answered.
    Done,
}

/// Whether `a` answers the caller with `status` and the body `text`.
pub open spec fn responds(a: CallAction, status: u16, text: Seq<char>) -> bool {
    a matches CallAction::Respond(s, b) && s == status && b@ == text
}

/// The action once the agents' replies are all in: the failure's text, or
/// the target of the forwarded request at the agent that was picked.
pub open spec fn after_probing(p: Prober, js_enabled: bool, a: CallAction) -> bool {
    &&& p.failure matches Some(e) ==> responds(a, STATUS_SERVER_ERROR, e@)
    &&& p.failure is None && p.idle@.len() == 0 ==> responds(
        a,
        STATUS_SERVER_ERROR,
        error_text(GatewayError::NoAvailableAgents),
    )
    &&& p.failure is None && p.idle@.len() > 0 ==> (a matches CallAction::Forward(u) && exists|k: int|
        0 <= k < p.idle@.len() && u@ == #[trigger] scrape_target(p.idle@[k], js_enabled))
}

/// One scrape request: authenticate, ask the agents, forward, relay.
pub struct ScrapeCall {
    /// The selection attempt of this request.
    pub prober: Prober,
    /// Whether the JavaScript-enabled endpoint was called.
    pub js_enabled: bool,
    /// Where the request stands.
    pub phase: CallPhase,
}

impl ScrapeCall {
    /// The call's fields agree: while probing, an agent is still to be asked.
    pub open spec fn wf(&self) -> bool {
        &&& self.prober.wf()
        &&& self.phase == CallPhase::Probing ==> !self.prober.finished()
    }

    /// The decision once every agent has answered or an exchange failed.
    fn conclude(&mut self) -> (r: CallAction)
        requires
            old(self).prober.wf(),
            old(self).prober.finished(),
        ensures
            final(self).prober == old(self).prober,
            final(self).js_enabled == old(self).js_enabled,
            after_probing(final(self).prober, final(self).js_enabled, r),
            r is Forward ==> final(self).phase == CallPhase::Forwarding,
            !(r is Forward) ==> final(self).phase == CallPhase::Done,
    {
        match self.prober.pick_agent() {
            Ok(agent) => {
                self.phase = CallPhase::Forwarding;
                let target = forward_url(&agent, self.js_enabled);
                proof {
                    let k = choose|k: int| 0 <= k < self.prober.idle@.len() && self.prober.idle@[k] == agent;
                    assert(target@ == scrape_target(self.prober.idle@[k], self.js_enabled));
                }
                CallAction::Forward(target)
            },
            Err(e) => {
                self.phase = CallPhase::Done;
                let (status, body) = respond(Err(e));
                CallAction::Respond(status, body)
            },
        }
    }

    /// Starts handling a request whose credential header is `provided`. A
    /// request that fails the check is answered at once: no agent is asked.
    pub fn start(provided: Option<&str>, api_key: &str, agents: Vec<Agent>, js_enabled: bool) -> (r: (ScrapeCall, CallAction))
        ensures
            r.0.wf(),
            r.0.prober.agents@ == agents@,
            r.0.prober.probed == 0,
            r.0.js_enabled == js_enabled,
            auth_result(header_view(provided), api_key@) matches Err(e) ==> r.0.phase == CallPhase::Done
                && responds(r.1, STATUS_SERVER_ERROR, error_text(e)),
            auth_result(header_view(provided), api_key@) is Ok && agents@.len() > 0 ==> r.0.phase
                == CallPhase::Probing && (r.1 matches CallAction::Probe(u) && u@ == busy_check_url(agents@[0])),
            auth_result(header_view(provided), api_key@) is Ok && agents@.len() == 0 ==> r.0.phase
                == CallPhase::Done && responds(
                r.1,
                STATUS_SERVER_ERROR,
                error_text(GatewayError::NoAvailableAgents),
            ),
    {
        let mut call = ScrapeCall { prober: Prober::new(agents), js_enabled, phase: CallPhase::Done };
        match check_api_key(provided, api_key) {
            Err(e) => {
                let (status, body) = respond(Err(e));
                (call, CallAction::Respond(status, body))
            },
            Ok(()) => match call.prober.next_probe() {
                Some(u) => {
                    call.phase = CallPhase::Probing;
                    (call, CallAction::Probe(u))
                },
                None => {
                    let action = call.conclude();
                    (call, action)
                },
            },
        }
    }

    /// Takes in the outcome of asking the current agent whether it is busy:
    /// its reply body, or the description of the failed exchange.
    pub fn on_probe_reply(&mut self, reply: Result<String, String>) -> (r: CallAction)
        requires
            old(self).wf(),
            old(self).phase == CallPhase::Probing,
        ensures
            final(self).wf(),
            final(self).js_enabled == old(self).js_enabled,
            final(self).prober.agents == old(self).prober.agents,
            reply matches Ok(body) ==> final(self).prober.replies@ == old(self).prober.replies@.push(body@)
                && final(self).prober.failure is None,
            reply matches Err(e) ==> final(self).prober.failure == Some(e),
            !final(self).prober.finished() ==> final(self).phase == CallPhase::Probing && (r matches CallAction::Probe(u)
                && u@ == busy_check_url(final(self).prober.agents@[final(self).prober.probed as int])),
            final(self).prober.finished() ==> after_probing(final(self).prober, final(self).js_enabled, r),
            final(self).prober.finished() && r is Forward ==> final(self).phase == CallPhase::Forwarding,
            final(self).prober.finished() && !(r is Forward) ==> final(self).phase == CallPhase::Done,
    {
        self.prober.record_reply(reply);
        match self.prober.next_probe() {
            Some(u) => CallAction::Probe(u),
            None => self.conclude(),
        }
    }

    /// Takes in the chosen agent's answer, or the description of the failed
    /// exchange, and answers the caller with it.
    pub fn on_forward_reply(&mut self, reply: Result<String, String>) -> (r: CallAction)
        requires
            old(self).wf(),
            old(self).phase == CallPhase::Forwarding,
        ensures
            final(self).wf(),
            final(self).phase == CallPhase::Done,
            reply matches Ok(body) ==> r == CallAction::Respond(STATUS_OK, body),
            reply matches Err(e) ==> responds(r, STATUS_SERVER_ERROR, e@),
    {
        self.phase = CallPhase::Done;
        let relayed = match reply {
            Ok(body) => Ok(body),
            Err(e) => Err(GatewayError::ForwardError(e)),
        };
        let (status, body) = respond(relayed);
        CallAction::Respond(status, body)
    }
}

} // verus!
