//! Agents: their records, how much they wrote, and how they are changed.

use crate::listing::{facts, listed, selection, ThoughtEntry, ThoughtFacts};
use crate::reply::{not_found, not_found_text, ErrorReply};
use crate::text::{decimal, same_text};
use vstd::prelude::*;
use vstd::string::*;

verus! {

/// The JSON value of the `serde_json` crate.
#[verifier::external_type_specification]
#[verifier::external_body]
pub struct ExValue(serde_json::Value);

/// Whether a JSON value is an object.
pub uninterp spec fn json_is_object(value: serde_json::Value) -> bool;

/// The members of a JSON object: under each name the JSON text of its value.
pub uninterp spec fn json_members(value: serde_json::Value) -> Map<Seq<char>, Seq<char>>;

/// Sets a member of a JSON object to a number.
///
/// Calls `serde_json::Map::insert` with a `Value::from` of the number. Taken on
/// trust: a member of that name is replaced, or added if there is none; the others
/// are kept; a value that is no object is not changed; and the JSON text of a
/// number is its decimal digits.
#[verifier::external_body]
fn set_number(value: &mut serde_json::Value, name: &str, number: u64)
    ensures
        json_is_object(*final(value)) == json_is_object(*old(value)),
        json_is_object(*old(value)) ==> json_members(*final(value)) == json_members(
            *old(value),
        ).insert(name@, decimal(number as nat)),
        !json_is_object(*old(value)) ==> *final(value) == *old(value),
{
    if let serde_json::Value::Object(members) = value {
        members.insert(name.to_string(), serde_json::Value::from(number));
    }
}

/// The number of thoughts that an agent recorded.
pub open spec fn thought_count(thoughts: Seq<ThoughtFacts>, agent_id: Seq<char>) -> nat {
    thoughts.filter(|t: ThoughtFacts| t.agent_id == agent_id).len()
}

/// The number of thoughts that an agent recorded.
pub fn live_count(thoughts: &[ThoughtEntry], agent_id: &str) -> (n: u64)
    ensures
        n == thought_count(facts(thoughts@), agent_id@),
{
    let ghost all = facts(thoughts@);
    let ghost pred = |t: ThoughtFacts| t.agent_id == agent_id@;
    let mut n: usize = 0;
    let mut i: usize = 0;
    proof {
        reveal(Seq::filter);
        assert(all.take(0).filter(pred).len() == 0);
    }
    while i < thoughts.len()
        invariant
            n <= i <= thoughts@.len(),
            all == facts(thoughts@),
            pred == (|t: ThoughtFacts| t.agent_id == agent_id@),
            n == all.take(i as int).filter(pred).len(),
        decreases thoughts@.len() - i,
    {
        proof {
            reveal(Seq::filter);
            assert(all.take(i + 1).drop_last() =~= all.take(i as int));
            assert(all.take(i + 1).last() == thoughts@[i as int]@);
        }
        if same_text(thoughts[i].agent_id.as_str(), agent_id) {
            n = n + 1;
        }
        i = i + 1;
    }
    proof {
        assert(all.take(i as int) =~= all);
    }
    n as u64
}

/// The record of an agent, as JSON.
pub struct AgentRecord {
    pub agent_id: String,
    pub record: serde_json::Value,
}

/// Whether `shown` is a record with the given number of thoughts in it. A record
/// that is no object is shown as it is.
pub open spec fn shows_count(
    shown: serde_json::Value,
    record: serde_json::Value,
    count: nat,
) -> bool {
    if json_is_object(record) {
        &&& json_is_object(shown)
        &&& json_members(shown) == json_members(record).insert("thought_count"@, decimal(count))
    } else {
        shown == record
    }
}

/// Whether `shown` are the records of the agents of a chain, in order, each with the
/// number of thoughts that the agent recorded in it.
pub open spec fn shows_agents(
    shown: Seq<serde_json::Value>,
    agents: Seq<AgentRecord>,
    thoughts: Seq<ThoughtFacts>,
) -> bool {
    &&& shown.len() == agents.len()
    &&& forall|i: int|
        0 <= i < shown.len() ==> shows_count(
            #[trigger] shown[i],
            agents[i].record,
            thought_count(thoughts, agents[i].agent_id@),
        )
}

/// A record with the given number of thoughts in it.
pub fn with_thought_count(record: serde_json::Value, count: u64) -> (r: serde_json::Value)
    ensures
        shows_count(r, record, count as nat),
{
    let mut shown = record;
    set_number(&mut shown, "thought_count", count);
    shown
}

/// The records of the agents of a chain, each with the number of thoughts that the
/// agent recorded in it.
pub fn agent_records(agents: Vec<AgentRecord>, thoughts: &[ThoughtEntry]) -> (r: Vec<
    serde_json::Value,
>)
    ensures
        shows_agents(r@, agents@, facts(thoughts@)),
{
    let ghost all = agents@;
    let mut r: Vec<serde_json::Value> = Vec::new();
    for agent in it: agents.into_iter()
        invariant
            it.seq() == all,
            r@.len() == it.index(),
            forall|i: int|
                0 <= i < r@.len() ==> shows_count(
                    #[trigger] r@[i],
                    all[i].record,
                    thought_count(facts(thoughts@), all[i].agent_id@),
                ),
    {
        let count = live_count(thoughts, agent.agent_id.as_str());
        r.push(with_thought_count(agent.record, count));
    }
    r
}

/// The agents of a chain that could be opened, and its thoughts.
pub struct ChainAgents {
    pub agents: Vec<AgentRecord>,
    pub thoughts: Vec<ThoughtEntry>,
}

/// Whether `shown` are the records of the agents of a chain; a chain that could not be
/// opened shows none.
pub open spec fn lists_agents(
    shown: Seq<serde_json::Value>,
    opened: Option<ChainAgents>,
) -> bool {
    match opened {
        Some(chain) => shows_agents(shown, chain.agents@, facts(chain.thoughts@)),
        None => shown.len() == 0,
    }
}

/// The records of the agents of a chain; a chain that could not be opened shows
/// none.
pub fn listed_agents(opened: Option<ChainAgents>) -> (r: Vec<serde_json::Value>)
    ensures
        lists_agents(r@, opened),
{
    match opened {
        Some(chain) => agent_records(chain.agents, chain.thoughts.as_slice()),
        None => Vec::new(),
    }
}

/// A registered chain, and what opening it gave.
pub struct RegisteredChain {
    pub chain_key: String,
    pub opened: Option<ChainAgents>,
}

/// The records of the agents of a registered chain, under its key.
pub struct ListedAgents {
    pub chain_key: String,
    pub agents: Vec<serde_json::Value>,
}

/// The records of the agents of all registered chains: an entry for each chain and no
/// other, under its key.
pub fn all_agents(chains: Vec<RegisteredChain>) -> (r: Vec<ListedAgents>)
    ensures
        r@.len() == chains@.len(),
        forall|i: int|
            0 <= i < r@.len() ==> (#[trigger] r@[i]).chain_key == chains@[i].chain_key
                && lists_agents(r@[i].agents@, chains@[i].opened),
{
    let ghost all = chains@;
    let mut r: Vec<ListedAgents> = Vec::new();
    for chain in it: chains.into_iter()
        invariant
            it.seq() == all,
            r@.len() == it.index(),
            forall|i: int|
                0 <= i < r@.len() ==> (#[trigger] r@[i]).chain_key == all[i].chain_key
                    && lists_agents(r@[i].agents@, all[i].opened),
    {
        let agents = listed_agents(chain.opened);
        r.push(ListedAgents { chain_key: chain.chain_key, agents });
    }
    r
}

/// The message about an agent that is not in a chain.
pub open spec fn missing_agent(agent_id: Seq<char>, chain_key: Seq<char>) -> Seq<char> {
    "agent '"@ + agent_id + "' not found in chain '"@ + chain_key + "'"@
}

/// The agent that was looked up, or the reply to a request for one that is not
/// there.
pub fn agent_or_not_found<T>(found: Option<T>, agent_id: &str, chain_key: &str) -> (r: Result<
    T,
    ErrorReply,
>)
    ensures
        match found {
            Some(agent) => r == Ok::<T, ErrorReply>(agent),
            None => r is Err && r->Err_0@ == not_found_text(missing_agent(agent_id@, chain_key@)),
        },
{
    match found {
        Some(agent) => Ok(agent),
        None => Err(
            not_found(
                "agent '".to_string().concat(agent_id).concat("' not found in chain '").concat(
                    chain_key,
                ).concat("'"),
            ),
        ),
    }
}

/// Whether an agent may write.
#[derive(Clone, Copy, Debug, PartialEq, Eq, Structural)]
pub enum AgentStatus {
    Active,
    Revoked,
}

/// A change to the record of an agent; what is missing is left as it is.
pub struct AgentUpdate {
    pub display_name: Option<String>,
    pub agent_owner: Option<String>,
    pub description: Option<String>,
    pub status: Option<AgentStatus>,
}

/// The change that a patch asks for. A patch does not change the status.
pub fn patch_update(
    display_name: Option<String>,
    description: Option<String>,
    agent_owner: Option<String>,
) -> (r: AgentUpdate)
    ensures
        r.display_name == display_name,
        r.description == description,
        r.agent_owner == agent_owner,
        r.status is None,
{
    AgentUpdate { display_name, agent_owner, description, status: None }
}

/// The change that sets the status of an agent, and nothing else.
pub fn status_update(status: AgentStatus) -> (r: AgentUpdate)
    ensures
        r.display_name is None,
        r.agent_owner is None,
        r.description is None,
        r.status == Some(status),
{
    AgentUpdate { display_name: None, agent_owner: None, description: None, status: Some(status) }
}

/// The change that revokes an agent.
pub fn revoke_update() -> (r: AgentUpdate)
    ensures
        r.display_name is None,
        r.agent_owner is None,
        r.description is None,
        r.status == Some(AgentStatus::Revoked),
{
    status_update(AgentStatus::Revoked)
}

/// The change that activates an agent.
pub fn activate_update() -> (r: AgentUpdate)
    ensures
        r.display_name is None,
        r.agent_owner is None,
        r.description is None,
        r.status == Some(AgentStatus::Active),
{
    status_update(AgentStatus::Active)
}

/// The counts shown for the agents of a chain do not exceed its thoughts: those of
/// two different agents together are at most as many as the chain holds.
pub proof fn law_counts_share_the_chain(
    thoughts: Seq<ThoughtFacts>,
    a: Seq<char>,
    b: Seq<char>,
)
    requires
        a != b,
    ensures
        thought_count(thoughts, a) + thought_count(thoughts, b) <= thoughts.len(),
    decreases thoughts.len(),
{
    reveal(Seq::filter);
    if thoughts.len() > 0 {
        law_counts_share_the_chain(thoughts.drop_last(), a, b);
    }
}

/// Whether two JSON values are objects with the same members, or else the same value.
pub open spec fn same_json(a: serde_json::Value, b: serde_json::Value) -> bool {
    if json_is_object(a) {
        json_is_object(b) && json_members(a) == json_members(b)
    } else {
        a == b
    }
}

/// The listing of all chains shows of an open chain what the listing of that chain
/// alone shows.
pub proof fn law_listings_of_agents_agree(
    among_all: Seq<serde_json::Value>,
    alone: Seq<serde_json::Value>,
    chain: ChainAgents,
)
    requires
        lists_agents(among_all, Some(chain)),
        shows_agents(alone, chain.agents@, facts(chain.thoughts@)),
    ensures
        among_all.len() == alone.len(),
        forall|i: int| 0 <= i < alone.len() ==> same_json(among_all[i], #[trigger] alone[i]),
{
    assert forall|i: int| 0 <= i < alone.len() implies same_json(
        among_all[i],
        #[trigger] alone[i],
    ) by {
        let count = thought_count(facts(chain.thoughts@), chain.agents@[i].agent_id@);
        assert(shows_count(among_all[i], chain.agents@[i].record, count));
        assert(shows_count(alone[i], chain.agents@[i].record, count));
    }
}

/// The count that is shown for an agent is the number of thoughts on the pages of
/// its listing.
pub proof fn law_count_matches_listing(thoughts: Seq<ThoughtFacts>, agent_id: Seq<char>)
    requires
        thoughts.len() <= usize::MAX,
    ensures
        selection(thoughts, Some(agent_id), None).len() == thought_count(thoughts, agent_id),
    decreases thoughts.len(),
{
    reveal(Seq::filter);
    let positions = Seq::new(thoughts.len(), |i: int| i as usize);
    let here = |i: usize| listed(thoughts[i as int], Some(agent_id), None);
    if thoughts.len() > 0 {
        let fewer = thoughts.drop_last();
        let before = Seq::new(fewer.len(), |i: int| i as usize);
        let there = |i: usize| listed(fewer[i as int], Some(agent_id), None);
        law_count_matches_listing(fewer, agent_id);
        assert(positions.drop_last() =~= before);
        lemma_filter_agrees(before, here, there);
        assert(positions.last() == (thoughts.len() - 1) as usize);
    }
}

/// Two filters that agree on every item keep the same items.
proof fn lemma_filter_agrees(s: Seq<usize>, p: spec_fn(usize) -> bool, q: spec_fn(usize) -> bool)
    requires
        forall|i: int| 0 <= i < s.len() ==> p(#[trigger] s[i]) == q(s[i]),
    ensures
        s.filter(p) == s.filter(q),
    decreases s.len(),
{
    reveal(Seq::filter);
    if s.len() > 0 {
        let shorter = s.drop_last();
        assert forall|i: int| 0 <= i < shorter.len() implies p(#[trigger] shorter[i]) == q(
            shorter[i],
        ) by {
            assert(shorter[i] == s[i]);
        }
        lemma_filter_agrees(shorter, p, q);
        assert(p(s[s.len() - 1]) == q(s[s.len() - 1]));
    }
}

/// The count of an agent goes by the agents of the thoughts alone: a further thought of
/// the agent, of whatever type, raises it by one, a thought of another leaves it.
pub proof fn law_count_goes_by_the_agent(
    thoughts: Seq<ThoughtFacts>,
    thought: ThoughtFacts,
    agent_id: Seq<char>,
)
    ensures
        thought_count(Seq::empty(), agent_id) == 0,
        thought.agent_id == agent_id ==> thought_count(thoughts.push(thought), agent_id)
            == thought_count(thoughts, agent_id) + 1,
        thought.agent_id != agent_id ==> thought_count(thoughts.push(thought), agent_id)
            == thought_count(thoughts, agent_id),
{
    reveal(Seq::filter);
    assert(thoughts.push(thought).drop_last() =~= thoughts);
}

/// The counts of several agents together.
pub open spec fn count_sum(thoughts: Seq<ThoughtFacts>, agents: Seq<Seq<char>>) -> nat
    decreases agents.len(),
{
    if agents.len() == 0 {
        0
    } else {
        count_sum(thoughts, agents.drop_last()) + thought_count(thoughts, agents.last())
    }
}

proof fn lemma_count_sum_push(
    thoughts: Seq<ThoughtFacts>,
    thought: ThoughtFacts,
    agents: Seq<Seq<char>>,
)
    requires
        agents.no_duplicates(),
    ensures
        count_sum(thoughts.push(thought), agents) == count_sum(thoughts, agents) + (
        if agents.contains(thought.agent_id) {
            1int
        } else {
            0int
        }),
    decreases agents.len(),
{
    if agents.len() > 0 {
        let fewer = agents.drop_last();
        let last = agents.len() - 1;
        lemma_count_sum_push(thoughts, thought, fewer);
        law_count_goes_by_the_agent(thoughts, thought, agents.last());
        if fewer.contains(thought.agent_id) {
            let k = choose|k: int| 0 <= k < fewer.len() && fewer[k] == thought.agent_id;
            assert(agents[k] == thought.agent_id && agents[last] != thought.agent_id);
        }
        if agents.contains(thought.agent_id) && !fewer.contains(thought.agent_id) {
            let k = choose|k: int| 0 <= k < agents.len() && agents[k] == thought.agent_id;
            if k < last {
                assert(fewer[k] == thought.agent_id);
            }
        }
        if agents[last] == thought.agent_id {
            assert(agents.contains(thought.agent_id));
        }
    }
}

/// Every thought is counted for just one agent: the counts of all agents of a chain
/// together are the number of its thoughts.
pub proof fn law_counts_add_up_to_the_chain(
    thoughts: Seq<ThoughtFacts>,
    agents: Seq<Seq<char>>,
)
    requires
        agents.no_duplicates(),
        forall|i: int|
            0 <= i < thoughts.len() ==> agents.contains((#[trigger] thoughts[i]).agent_id),
    ensures
        count_sum(thoughts, agents) == thoughts.len(),
    decreases thoughts.len(),
{
    if thoughts.len() == 0 {
        assert(thoughts =~= Seq::empty());
        lemma_no_counts(agents);
    } else {
        let fewer = thoughts.drop_last();
        let last = thoughts[thoughts.len() - 1];
        assert forall|i: int| 0 <= i < fewer.len() implies agents.contains(
            (#[trigger] fewer[i]).agent_id,
        ) by {
            assert(fewer[i] == thoughts[i]);
        }
        law_counts_add_up_to_the_chain(fewer, agents);
        lemma_count_sum_push(fewer, last, agents);
        assert(fewer.push(last) =~= thoughts);
    }
}

proof fn lemma_no_counts(agents: Seq<Seq<char>>)
    ensures
        count_sum(Seq::empty(), agents) == 0,
    decreases agents.len(),
{
    reveal(Seq::filter);
    if agents.len() > 0 {
        lemma_no_counts(agents.drop_last());
    }
}

/// A record is shown with all its members, and with the count in place of any that it
/// held; nothing else is added, and a record that is no object is not changed.
pub proof fn law_record_is_shown_with_its_count(
    shown: serde_json::Value,
    record: serde_json::Value,
    count: nat,
    name: Seq<char>,
)
    requires
        shows_count(shown, record, count),
    ensures
        json_is_object(record) ==> {
            &&& json_is_object(shown)
            &&& json_members(shown).contains_key("thought_count"@)
            &&& crate::text::digits_value(json_members(shown)["thought_count"@]) == count
            &&& name != "thought_count"@ ==> {
                &&& json_members(shown).contains_key(name) <==> json_members(record).contains_key(
                    name,
                )
                &&& json_members(record).contains_key(name) ==> json_members(shown)[name]
                    == json_members(record)[name]
            }
        },
        !json_is_object(record) ==> shown == record,
{
    crate::text::law_decimal_stands_for_the_number(count);
}

/// The records of a chain are shown in the order of its agents, one for each, with the
/// count of that agent; a chain that could not be opened shows none.
pub proof fn law_every_agent_is_shown(
    shown: Seq<serde_json::Value>,
    chain: ChainAgents,
    i: int,
)
    requires
        lists_agents(shown, Some(chain)),
        0 <= i < chain.agents@.len(),
    ensures
        shown.len() == chain.agents@.len(),
        json_is_object(chain.agents@[i].record) ==> crate::text::digits_value(
            json_members(shown[i])["thought_count"@],
        ) == thought_count(facts(chain.thoughts@), chain.agents@[i].agent_id@),
        !json_is_object(chain.agents@[i].record) ==> shown[i] == chain.agents@[i].record,
        forall|none: Seq<serde_json::Value>| #[trigger]
            lists_agents(none, None) ==> none.len() == 0,
{
    let count = thought_count(facts(chain.thoughts@), chain.agents@[i].agent_id@);
    assert(shows_count(shown[i], chain.agents@[i].record, count));
    law_record_is_shown_with_its_count(
        shown[i],
        chain.agents@[i].record,
        count,
        "thought_count"@,
    );
}

/// The message about a missing agent holds its identifier and the key of the chain, both
/// between quotes.
pub proof fn law_missing_agent_is_named(agent_id: Seq<char>, chain_key: Seq<char>)
    ensures
        missing_agent(agent_id, chain_key).len() == 30 + agent_id.len() + chain_key.len(),
        missing_agent(agent_id, chain_key).subrange(7, 7 + agent_id.len() as int) == agent_id,
        missing_agent(agent_id, chain_key).subrange(
            29 + agent_id.len() as int,
            29 + agent_id.len() as int + chain_key.len(),
        ) == chain_key,
{
    reveal_strlit("agent '");
    reveal_strlit("' not found in chain '");
    reveal_strlit("'");
    let message = missing_agent(agent_id, chain_key);
    let from = 29 + agent_id.len() as int;
    assert(message.subrange(7, 7 + agent_id.len() as int) =~= agent_id);
    assert(message.subrange(from, from + chain_key.len()) =~= chain_key);
}

} // verus!
