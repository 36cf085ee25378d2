use mentisdbd::agents::{
    activate_update, agent_or_not_found, agent_records, all_agents, listed_agents, live_count,
    patch_update, revoke_update, status_update, with_thought_count, AgentRecord, AgentStatus,
    ChainAgents, RegisteredChain,
};
use mentisdbd::listing::{agent_thoughts, ThoughtEntry, ThoughtsQuery};
use mentisdbd::thoughts::ThoughtType;
use serde_json::Value;

fn wrote(agent_id: &str) -> ThoughtEntry {
    ThoughtEntry { id: 0, agent_id: agent_id.to_string(), thought_type: ThoughtType::Idea }
}

fn record(agent_id: &str) -> AgentRecord {
    let mut members = serde_json::Map::new();
    members.insert("agent_id".to_string(), Value::from(agent_id));
    members.insert("thought_count".to_string(), Value::from(99));
    AgentRecord { agent_id: agent_id.to_string(), record: Value::Object(members) }
}

#[test]
fn counts_are_those_of_the_agent() {
    let thoughts = vec![wrote("a"), wrote("b"), wrote("a")];
    assert_eq!(live_count(&thoughts, "a"), 2);
    assert_eq!(live_count(&thoughts, "b"), 1);
    assert_eq!(live_count(&thoughts, "c"), 0);
    assert!(live_count(&thoughts, "a") + live_count(&thoughts, "b") <= 3);
}

#[test]
fn counts_match_the_listing() {
    let thoughts = vec![wrote("a"), wrote("b"), wrote("a")];
    let query = ThoughtsQuery { page: None, per_page: None, types: None, order: None };
    for agent in ["a", "b", "c"] {
        let listed = agent_thoughts(&thoughts, agent, &query).total as u64;
        assert_eq!(live_count(&thoughts, agent), listed);
    }
}

#[test]
fn records_show_the_live_count() {
    let thoughts = vec![wrote("a"), wrote("b"), wrote("a")];
    let shown = agent_records(vec![record("a"), record("z")], &thoughts);
    assert_eq!(shown.len(), 2);
    assert_eq!(shown[0].get("thought_count"), Some(&Value::from(2u64)));
    assert_eq!(shown[0].get("agent_id"), Some(&Value::from("a")));
    assert_eq!(shown[0].as_object().unwrap().len(), 2);
    assert_eq!(shown[1].get("thought_count"), Some(&Value::from(0u64)));
    assert_eq!(shown[1].get("agent_id"), Some(&Value::from("z")));
}

#[test]
fn count_is_added_to_a_record_without_one() {
    let shown = with_thought_count(Value::Object(serde_json::Map::new()), u64::MAX);
    assert_eq!(shown.to_string(), "{\"thought_count\":18446744073709551615}");
}

#[test]
fn records_that_are_no_objects_stay_as_they_are() {
    assert_eq!(with_thought_count(Value::Null, 3), Value::Null);
    assert_eq!(with_thought_count(Value::from("x"), 3), Value::from("x"));
}

#[test]
fn chains_that_cannot_be_opened_list_no_agents() {
    assert!(listed_agents(None).is_empty());
    let chain = ChainAgents { agents: vec![record("a")], thoughts: vec![wrote("a")] };
    let shown = listed_agents(Some(chain));
    assert_eq!(shown.len(), 1);
    assert_eq!(shown[0].get("thought_count"), Some(&Value::from(1u64)));
}

#[test]
fn missing_agents_are_not_found() {
    assert!(matches!(agent_or_not_found(Some(5), "a", "k"), Ok(5)));
    let reply = agent_or_not_found::<u8>(None, "a", "k").err().unwrap();
    assert_eq!(
        (reply.status, reply.error.as_str()),
        (404, "agent 'a' not found in chain 'k'")
    );
}

#[test]
fn patches_do_not_change_the_status() {
    let update = patch_update(Some("n".to_string()), None, Some("o".to_string()));
    assert_eq!(update.display_name.as_deref(), Some("n"));
    assert_eq!(update.description, None);
    assert_eq!(update.agent_owner.as_deref(), Some("o"));
    assert_eq!(update.status, None);
}

#[test]
fn status_changes_touch_nothing_else() {
    assert_eq!(revoke_update().status, Some(AgentStatus::Revoked));
    assert_eq!(activate_update().status, Some(AgentStatus::Active));
    let update = status_update(AgentStatus::Revoked);
    assert_eq!(update.display_name, None);
    assert_eq!(update.agent_owner, None);
    assert_eq!(update.description, None);
}

#[test]
fn all_agents_are_listed_under_their_chains() {
    let chain = || ChainAgents { agents: vec![record("a")], thoughts: vec![wrote("a"), wrote("a")] };
    let listed = all_agents(vec![
        RegisteredChain { chain_key: "one".to_string(), opened: Some(chain()) },
        RegisteredChain { chain_key: "two".to_string(), opened: None },
    ]);
    let keys: Vec<&str> = listed.iter().map(|l| l.chain_key.as_str()).collect();
    assert_eq!(keys, vec!["one", "two"]);
    assert_eq!(listed[0].agents, agent_records(chain().agents, &chain().thoughts));
    assert_eq!(listed[0].agents[0].get("thought_count"), Some(&Value::from(2u64)));
    assert!(listed[1].agents.is_empty());
}
