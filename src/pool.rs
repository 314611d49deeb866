//! The agent registry: reading a pool specification and expanding it into
//! one agent record per replica.
use vstd::prelude::*;
use crate::text::{decimal, parse_count, parse_u32, push_decimal};
use crate::error::GatewayError;

verus! {

/// One worker replica: its number within its group and its base URL.
#[derive(Debug, Clone)]
pub struct Agent {
    pub id: u32,
    pub url: String,
}

impl View for Agent {
    type V = (nat, Seq<char>);

    open spec fn view(&self) -> (nat, Seq<char>) {
        (self.id as nat, self.url@)
    }
}

/// One pair of a pool specification: a base URL and its replica count.
#[derive(Debug, Clone)]
pub struct PoolEntry {
    pub base_url: String,
    pub replicas: u32,
}

impl Agent {
    /// A copy of this agent.
    pub fn duplicate(&self) -> (r: Agent)
        ensures
            r == *self,
    {
        Agent { id: self.id, url: self.url.clone() }
    }
}

impl View for PoolEntry {
    type V = (Seq<char>, nat);

    open spec fn view(&self) -> (Seq<char>, nat) {
        (self.base_url@, self.replicas as nat)
    }
}

/// The views of a list of agents.
pub open spec fn agents_view(agents: Seq<Agent>) -> Seq<(nat, Seq<char>)> {
    agents.map_values(|a: Agent| a@)
}

/// The views of a list of pool entries.
pub open spec fn entries_view(entries: Seq<PoolEntry>) -> Seq<(Seq<char>, nat)> {
    entries.map_values(|e: PoolEntry| e@)
}

/// The pieces of `s` between occurrences of `sep`, as `str::split` gives them:
/// `n` separators make `n + 1` pieces, some of them possibly empty.
pub open spec fn split(s: Seq<char>, sep: char) -> Seq<Seq<char>>
    decreases s.len(),
{
    if s.len() == 0 {
        seq![Seq::<char>::empty()]
    } else {
        let init = split(s.drop_last(), sep);
        if s.last() == sep {
            init.push(Seq::<char>::empty())
        } else {
            init.update(init.len() - 1, init.last().push(s.last()))
        }
    }
}

/// The text that separates a base URL from its replica count.
pub open spec fn replicas_marker() -> Seq<char> {
    "|replicas="@
}

/// Whether the replica marker starts at position `j` of `s`.
pub open spec fn marker_at(s: Seq<char>, j: int) -> bool {
    0 <= j && j + replicas_marker().len() <= s.len()
        && s.subrange(j, j + replicas_marker().len()) == replicas_marker()
}

/// The first position at or after `j` where the replica marker starts.
pub open spec fn find_marker(s: Seq<char>, j: int) -> Option<int>
    decreases s.len() - j,
{
    if j < 0 || j >= s.len() || j + replicas_marker().len() > s.len() {
        None
    } else if marker_at(s, j) {
        Some(j)
    } else {
        find_marker(s, j + 1)
    }
}

/// The replica count that a count text stands for: its value when it reads
/// as a positive `u32`, and 1 when it is missing, zero or unreadable.
pub open spec fn replica_count(text: Seq<char>) -> nat {
    match parse_u32(text) {
        Some(n) => if n >= 1 { n } else { 1 },
        None => 1,
    }
}

/// The pair that one non-empty segment of a pool specification describes.
pub open spec fn entry_of(seg: Seq<char>) -> (Seq<char>, nat) {
    match find_marker(seg, 0) {
        Some(j) => (seg.take(j), replica_count(seg.skip(j + replicas_marker().len()))),
        None => (seg, 1),
    }
}

/// The pairs of a list of segments; empty segments name no agent.
pub open spec fn entries_of(segs: Seq<Seq<char>>) -> Seq<(Seq<char>, nat)>
    decreases segs.len(),
{
    if segs.len() == 0 {
        Seq::empty()
    } else {
        let init = entries_of(segs.drop_last());
        if segs.last().len() == 0 {
            init
        } else {
            init.push(entry_of(segs.last()))
        }
    }
}

/// The pairs that a pool specification string describes, in order.
pub open spec fn pool_entries(s: Seq<char>) -> Seq<(Seq<char>, nat)> {
    entries_of(split(s, ','))
}

/// The endpoint of replica `i` of the group at `base`.
pub open spec fn endpoint(base: Seq<char>, i: nat) -> Seq<char> {
    base + "-"@ + decimal(i)
}

/// The agents of one group: replicas numbered `1..=r`.
pub open spec fn replicas(base: Seq<char>, r: nat) -> Seq<(nat, Seq<char>)> {
    Seq::new(r, |k: int| ((k + 1) as nat, endpoint(base, (k + 1) as nat)))
}

/// The agents of a list of pairs: each pair's replicas, pair after pair.
pub open spec fn expansion(entries: Seq<(Seq<char>, nat)>) -> Seq<(nat, Seq<char>)>
    decreases entries.len(),
{
    if entries.len() == 0 {
        Seq::empty()
    } else {
        expansion(entries.drop_last()) + replicas(entries.last().0, entries.last().1)
    }
}

/// Expanding two lists of pairs one after the other is expanding their
/// concatenation.
proof fn lemma_expansion_concat(a: Seq<(Seq<char>, nat)>, b: Seq<(Seq<char>, nat)>)
    ensures
        expansion(a + b) == expansion(a) + expansion(b),
    decreases b.len(),
{
    if b.len() == 0 {
        assert(a + b =~= a);
        assert(expansion(a) + expansion(b) =~= expansion(a));
    } else {
        assert((a + b).drop_last() =~= a + b.drop_last());
        lemma_expansion_concat(a, b.drop_last());
        assert(expansion(a + b) =~= expansion(a) + expansion(b));
    }
}

/// Every pair `(u, r)` of a pool contributes exactly `r` agents, numbered
/// `1..=r` with endpoints `u-1, ..., u-r`, placed after the agents of the
/// pairs before it and before those of the pairs after it.
pub proof fn lemma_pair_expands_to_replicas(entries: Seq<(Seq<char>, nat)>, k: int)
    requires
        0 <= k < entries.len(),
    ensures
        expansion(entries) == expansion(entries.take(k)) + replicas(entries[k].0, entries[k].1)
            + expansion(entries.skip(k + 1)),
        ({
            let off = expansion(entries.take(k)).len();
            let (u, r) = entries[k];
            forall|i: int| 1 <= i <= r ==> #[trigger] expansion(entries)[off + i - 1] == (i as nat, endpoint(u, i as nat))
        }),
{
    let e = entries;
    let single = seq![e[k]];
    assert(e =~= e.take(k) + single + e.skip(k + 1));
    lemma_expansion_concat(e.take(k) + single, e.skip(k + 1));
    lemma_expansion_concat(e.take(k), single);
    assert(single.drop_last() =~= Seq::<(Seq<char>, nat)>::empty());
    assert(expansion(single.drop_last()) == Seq::<(nat, Seq<char>)>::empty());
    assert(single.last() == e[k]);
    assert(expansion(single) =~= replicas(e[k].0, e[k].1));
    let off = expansion(e.take(k)).len();
    assert forall|i: int| 1 <= i <= e[k].1 implies #[trigger] expansion(e)[off + i - 1] == (i as nat, endpoint(e[k].0, i as nat)) by {
        assert(expansion(e)[off + i - 1] == replicas(e[k].0, e[k].1)[i - 1]);
    }
}

/// A segment without a replica marker, or whose count does not read as a
/// positive number, stands for one replica: a single agent numbered 1.
pub proof fn lemma_default_replica_count(seg: Seq<char>)
    requires
        find_marker(seg, 0) is None || (find_marker(seg, 0) matches Some(j)
            && (parse_u32(seg.skip(j + replicas_marker().len())) matches Some(n) ==> n == 0)),
    ensures
        entry_of(seg).1 == 1,
        replicas(entry_of(seg).0, entry_of(seg).1) == seq![(1nat, endpoint(entry_of(seg).0, 1))],
{
    assert(replicas(entry_of(seg).0, 1) =~= seq![(1nat, endpoint(entry_of(seg).0, 1))]);
}

/// Reads one segment of a pool specification: the base URL and the replica
/// count around the first replica marker, or the whole segment and one
/// replica where the segment has no marker.
pub fn parse_segment(seg: &str) -> (r: PoolEntry)
    ensures
        r@ == entry_of(seg@),
{
    let marker = "|replicas=";
    proof {
        reveal_strlit("|replicas=");
    }
    let wanted = String::from_str(marker);
    let n = seg.unicode_len();
    let mut j: usize = 0;
    while n >= 10 && j < n && j <= n - 10
        invariant
            n == seg@.len(),
            j <= n,
            wanted@ == replicas_marker(),
            replicas_marker().len() == 10,
            find_marker(seg@, 0) == find_marker(seg@, j as int),
        decreases n - j,
    {
        let candidate = String::from_str(seg.substring_char(j, j + 10));
        if candidate == wanted {
            assert(marker_at(seg@, j as int));
            let base = String::from_str(seg.substring_char(0, j));
            let count = parse_count(seg.substring_char(j + 10, n));
            let replicas: u32 = match count {
                Some(c) => if c >= 1 { c } else { 1 },
                None => 1,
            };
            assert(seg@.subrange(0, j as int) =~= seg@.take(j as int));
            assert(seg@.subrange(j + 10, n as int) =~= seg@.skip(j + 10));
            return PoolEntry { base_url: base, replicas };
        }
        j = j + 1;
    }
    PoolEntry { base_url: String::from_str(seg), replicas: 1 }
}

/// Adds the entry of a finished segment, unless the segment is empty.
fn push_segment(out: &mut Vec<PoolEntry>, seg: &str, done: Ghost<Seq<Seq<char>>>)
    requires
        entries_view(old(out)@) == entries_of(done@),
    ensures
        entries_view(final(out)@) == entries_of(done@.push(seg@)),
{
    assert(done@.push(seg@).drop_last() =~= done@);
    if seg.unicode_len() > 0 {
        out.push(parse_segment(seg));
        assert(entries_view(out@) =~= entries_view(old(out)@).push(entry_of(seg@)));
    }
}

/// Reads a pool specification: comma-separated segments, each a base URL
/// with an optional replica marker and count; empty segments are skipped.
pub fn parse_pool_spec(s: &str) -> (r: Vec<PoolEntry>)
    ensures
        entries_view(r@) == pool_entries(s@),
{
    let n = s.unicode_len();
    let mut out: Vec<PoolEntry> = Vec::new();
    let mut start: usize = 0;
    let mut i: usize = 0;
    let ghost mut done: Seq<Seq<char>> = Seq::empty();
    assert(s@.take(0) =~= Seq::<char>::empty());
    assert(s@.subrange(0, 0) =~= Seq::<char>::empty());
    assert(entries_view(out@) =~= Seq::empty());
    while i < n
        invariant
            n == s@.len(),
            start <= i <= n,
            split(s@.take(i as int), ',') == done.push(s@.subrange(start as int, i as int)),
            entries_view(out@) == entries_of(done),
        decreases n - i,
    {
        let c = s.get_char(i);
        let ghost cur = s@.subrange(start as int, i as int);
        assert(s@.take(i + 1).drop_last() =~= s@.take(i as int));
        if c == ',' {
            push_segment(&mut out, s.substring_char(start, i), Ghost(done));
            proof {
                done = done.push(cur);
            }
            start = i + 1;
            assert(s@.subrange(start as int, i + 1) =~= Seq::<char>::empty());
        } else {
            assert(s@.subrange(start as int, i + 1) =~= cur.push(c));
            assert(done.push(cur).update(done.len() as int, cur.push(c)) =~= done.push(cur.push(c)));
        }
        i = i + 1;
    }
    assert(s@.take(n as int) =~= s@);
    push_segment(&mut out, s.substring_char(start, n), Ghost(done));
    out
}

/// The agent of replica `i` of the group at `base`.
fn replica_agent(base: &String, i: u32) -> (r: Agent)
    ensures
        r@ == (i as nat, endpoint(base@, i as nat)),
{
    let mut url = base.clone();
    url.append("-");
    push_decimal(&mut url, i);
    Agent { id: i, url }
}

/// Expands pool entries into agents: for each entry in order, replicas
/// numbered `1..=replicas` at `base_url-1`, `base_url-2`, and so on.
pub fn expand(entries: &Vec<PoolEntry>) -> (r: Vec<Agent>)
    ensures
        agents_view(r@) == expansion(entries_view(entries@)),
{
    let ghost ev = entries_view(entries@);
    let mut out: Vec<Agent> = Vec::new();
    let mut k: usize = 0;
    assert(ev.take(0) =~= Seq::empty());
    assert(agents_view(out@) =~= Seq::empty());
    while k < entries.len()
        invariant
            ev == entries_view(entries@),
            k <= entries.len(),
            agents_view(out@) == expansion(ev.take(k as int)),
        decreases entries.len() - k,
    {
        let entry = &entries[k];
        let ghost before = agents_view(out@);
        let ghost group = replicas(entry.base_url@, entry.replicas as nat);
        let mut i: u32 = 0;
        assert(group.take(0) =~= Seq::empty());
        assert(before + group.take(0) =~= before);
        while i < entry.replicas
            invariant
                i <= entry.replicas,
                group == replicas(entry.base_url@, entry.replicas as nat),
                agents_view(out@) == before + group.take(i as int),
            decreases entry.replicas - i,
        {
            let agent = replica_agent(&entry.base_url, i + 1);
            let ghost prev = out@;
            out.push(agent);
            assert(agents_view(out@) =~= agents_view(prev).push(agent@));
            assert(group.take(i + 1) =~= group.take(i as int).push(agent@));
            assert(before + group.take(i + 1) =~= (before + group.take(i as int)).push(agent@));
            i = i + 1;
        }
        assert(group.take(i as int) =~= group);
        assert(ev.take(k + 1).drop_last() =~= ev.take(k as int));
        assert(ev.take(k + 1).last() == entry@);
        k = k + 1;
    }
    assert(ev.take(k as int) =~= ev);
    out
}

impl Agent {
    /// The agents of the pool specification `agent_urls`, as read from the
    /// configuration; fails only when no specification was configured.
    pub fn from_env(agent_urls: Option<&str>) -> (r: Result<Vec<Agent>, GatewayError>)
        ensures
            agent_urls is None ==> r == Err::<Vec<Agent>, GatewayError>(GatewayError::ConfigurationMissing),
            agent_urls matches Some(s) ==> (r matches Ok(agents)
                && agents_view(agents@) == expansion(pool_entries(s@))),
    {
        match agent_urls {
            None => Err(GatewayError::ConfigurationMissing),
            Some(s) => Ok(expand(&parse_pool_spec(s))),
        }
    }
}

} // verus!
