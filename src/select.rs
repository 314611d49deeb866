//! Availability probing and selection: which agents report idle, and which
//! one of them takes a request.
use vstd::prelude::*;
use crate::error::GatewayError;
use crate::pool::Agent;

verus! {

/// `rand::random`: a value drawn from the thread-local generator. Nothing is
/// promised of which value comes back.
pub assume_specification<T>[ rand::random::<T> ]() -> (r: T)
    where
        rand::distributions::Standard: rand::distributions::Distribution<T>,
;

/// The only reply body by which an agent reports itself idle.
pub open spec fn idle_reply() -> Seq<char> {
    "false"@
}

/// The URL at which an agent reports whether it is busy.
pub open spec fn busy_check_url(agent: Agent) -> Seq<char> {
    agent.url@ + "/is-busy"@
}

/// The agents whose reply reads idle, in their order: `replies[k]` is the
/// reply of `agents[k]`.
pub open spec fn idle_agents(agents: Seq<Agent>, replies: Seq<Seq<char>>) -> Seq<Agent>
    decreases replies.len(),
{
    if replies.len() == 0 {
        Seq::empty()
    } else {
        let init = idle_agents(agents, replies.drop_last());
        if replies.last() == idle_reply() && replies.len() <= agents.len() {
            init.push(agents[replies.len() - 1])
        } else {
            init
        }
    }
}

/// What selecting among `idle` with the drawn number `random` gives.
pub open spec fn selection(idle: Seq<Agent>, random: nat) -> Result<Agent, GatewayError> {
    if idle.len() == 0 {
        Err(GatewayError::NoAvailableAgents)
    } else {
        Ok(idle[(random % idle.len()) as int])
    }
}

/// When no reply reads idle, no agent is idle.
proof fn lemma_none_idle(agents: Seq<Agent>, replies: Seq<Seq<char>>)
    requires
        forall|k: int| 0 <= k < replies.len() ==> #[trigger] replies[k] != idle_reply(),
    ensures
        idle_agents(agents, replies).len() == 0,
    decreases replies.len(),
{
    if replies.len() > 0 {
        let init = replies.drop_last();
        assert forall|k: int| 0 <= k < init.len() implies #[trigger] init[k] != idle_reply() by {
            assert(init[k] == replies[k]);
        }
        lemma_none_idle(agents, init);
        assert(replies.last() == replies[replies.len() - 1]);
    }
}

/// Selecting over a snapshot in which no agent replied idle fails with
/// `NoAvailableAgents`, whatever number was drawn.
pub proof fn lemma_no_idle_agent_fails(agents: Seq<Agent>, replies: Seq<Seq<char>>, random: nat)
    requires
        forall|k: int| 0 <= k < replies.len() ==> #[trigger] replies[k] != idle_reply(),
    ensures
        selection(idle_agents(agents, replies), random) == Err::<Agent, GatewayError>(GatewayError::NoAvailableAgents),
{
    lemma_none_idle(agents, replies);
}

/// Selecting over a snapshot with exactly one idle agent returns that
/// agent, whatever number was drawn.
pub proof fn lemma_single_idle_agent_selected(agents: Seq<Agent>, replies: Seq<Seq<char>>, random: nat)
    requires
        idle_agents(agents, replies).len() == 1,
    ensures
        selection(idle_agents(agents, replies), random) == Ok::<Agent, GatewayError>(idle_agents(agents, replies)[0]),
{
    assert(random % 1 == 0) by (nonlinear_arith);
}

/// Selection is a function of the idle agents and the drawn number: the
/// same idle agents and the same number give the same agent.
pub proof fn lemma_selection_deterministic(idle1: Seq<Agent>, idle2: Seq<Agent>, random1: nat, random2: nat)
    requires
        idle1 == idle2,
        random1 == random2,
    ensures
        selection(idle1, random1) == selection(idle2, random2),
{
}

/// Whether a busy-check reply body says that the agent is idle.
pub fn is_idle_reply(body: &str) -> (r: bool)
    ensures
        r == (body@ == idle_reply()),
{
    String::from_str(body) == String::from_str("false")
}

/// The URL to ask whether `agent` is busy.
pub fn probe_url(agent: &Agent) -> (r: String)
    ensures
        r@ == busy_check_url(*agent),
{
    let mut url = agent.url.clone();
    url.append("/is-busy");
    url
}

/// Picks one idle agent by the index `random mod idle.len()`; fails when
/// there is none.
pub fn select(idle: &Vec<Agent>, random: usize) -> (r: Result<Agent, GatewayError>)
    ensures
        r == selection(idle@, random as nat),
{
    if idle.len() == 0 {
        Err(GatewayError::NoAvailableAgents)
    } else {
        Ok(idle[random % idle.len()].duplicate())
    }
}

/// One selection attempt in progress: the agents are asked one after the
/// other whether they are busy; the first failed exchange ends the attempt.
pub struct Prober {
    /// The agents of the pool, in registry order.
    pub agents: Vec<Agent>,
    /// How many agents have answered.
    pub probed: usize,
    /// The agents that answered idle, in registry order.
    pub idle: Vec<Agent>,
    /// The description of the failed exchange, if one failed.
    pub failure: Option<String>,
    /// The reply bodies received so far, in registry order.
    pub replies: Ghost<Seq<Seq<char>>>,
}

impl Prober {
    /// The prober's fields agree: `idle` holds exactly the agents whose
    /// reply so far reads idle.
    pub open spec fn wf(&self) -> bool {
        &&& self.probed <= self.agents.len()
        &&& self.replies@.len() == self.probed
        &&& self.idle@ == idle_agents(self.agents@, self.replies@)
    }

    /// Whether no more agents are to be asked.
    pub open spec fn finished(&self) -> bool {
        self.failure is Some || self.probed == self.agents.len()
    }

    /// A fresh attempt over `agents`.
    pub fn new(agents: Vec<Agent>) -> (r: Prober)
        ensures
            r.wf(),
            r.agents@ == agents@,
            r.probed == 0,
            r.failure is None,
    {
        Prober { agents, probed: 0, idle: Vec::new(), failure: None, replies: Ghost(Seq::empty()) }
    }

    /// The URL to ask next, or `None` once the attempt is finished.
    pub fn next_probe(&self) -> (r: Option<String>)
        requires
            self.wf(),
        ensures
            r is None <==> self.finished(),
            r matches Some(u) ==> u@ == busy_check_url(self.agents@[self.probed as int]),
    {
        if self.failure.is_some() || self.probed == self.agents.len() {
            None
        } else {
            Some(probe_url(&self.agents[self.probed]))
        }
    }

    /// Takes in the outcome of asking the next agent: its reply body, or the
    /// description of the failed exchange.
    pub fn record_reply(&mut self, reply: Result<String, String>)
        requires
            old(self).wf(),
            !old(self).finished(),
        ensures
            final(self).wf(),
            final(self).agents == old(self).agents,
            reply matches Ok(body) ==> final(self).probed == old(self).probed + 1
                && final(self).replies@ == old(self).replies@.push(body@)
                && final(self).failure == old(self).failure,
            reply matches Err(e) ==> final(self).failure == Some(e)
                && final(self).probed == old(self).probed
                && final(self).replies@ == old(self).replies@,
    {
        match reply {
            Ok(body) => {
                let ghost replies = self.replies@.push(body@);
                assert(replies.drop_last() =~= self.replies@);
                if is_idle_reply(body.as_str()) {
                    let agent = self.agents[self.probed].duplicate();
                    self.idle.push(agent);
                }
                self.probed = self.probed + 1;
                self.replies = Ghost(replies);
            },
            Err(e) => {
                self.failure = Some(e);
            },
        }
    }

    /// The result of a finished attempt, given the drawn number `random`:
    /// the failure of an exchange, else a selection among the idle agents.
    pub fn outcome(&self, random: usize) -> (r: Result<Agent, GatewayError>)
        requires
            self.wf(),
            self.finished(),
        ensures
            self.failure matches Some(e) ==> r == Err::<Agent, GatewayError>(GatewayError::ProbeError(e)),
            self.failure is None ==> r == selection(idle_agents(self.agents@, self.replies@), random as nat),
    {
        match &self.failure {
            Some(e) => Err(GatewayError::ProbeError(e.clone())),
            None => select(&self.idle, random),
        }
    }

    /// The result of a finished attempt, with a freshly drawn number: an
    /// idle agent, whichever one the draw picks.
    pub fn pick_agent(&self) -> (r: Result<Agent, GatewayError>)
        requires
            self.wf(),
            self.finished(),
        ensures
            self.failure matches Some(e) ==> r == Err::<Agent, GatewayError>(GatewayError::ProbeError(e)),
            self.failure is None && self.idle@.len() == 0 ==> r == Err::<Agent, GatewayError>(GatewayError::NoAvailableAgents),
            self.failure is None && self.idle@.len() > 0 ==> (r matches Ok(a) && self.idle@.contains(a)),
    {
        let random: usize = rand::random::<usize>();
        let r = self.outcome(random);
        proof {
            if self.failure is None && self.idle@.len() > 0 {
                let k = (random as nat % self.idle@.len()) as int;
                assert(self.idle@[k] == r->Ok_0);
            }
        }
        r
    }
}

} // verus!
