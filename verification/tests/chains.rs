use dashmap::DashMap;
use mentisdbd::chains::{
    add_row, bootstrap_chain, bootstrap_key, bootstrap_thought, chain_rows, delete_chain,
    deletion_reply, get_or_open_chain, open_for_bootstrap, open_if_read, resolve_chain,
    BootstrapRequest, ChainCounts, ChainRow, OpenedChain, Resolved, ThoughtRole,
};
use mentisdbd::reply::{
    bad_request, internal_error, not_found, or_bad_request, or_internal_error,
};
use mentisdbd::thoughts::ThoughtType;
use std::cell::Cell;
use std::sync::Arc;

fn request() -> BootstrapRequest {
    BootstrapRequest {
        content: "hello".to_string(),
        agent_id: None,
        tags: Some(vec!["t".to_string()]),
        concepts: None,
    }
}

#[test]
fn replies_carry_their_status() {
    assert_eq!(bad_request("a".to_string()).status, 400);
    assert_eq!(not_found("b".to_string()).status, 404);
    let reply = internal_error("c".to_string());
    assert_eq!((reply.status, reply.error.as_str()), (500, "c"));
}

#[test]
fn outcomes_become_replies() {
    assert!(matches!(or_internal_error(Ok(3)), Ok(3)));
    let reply = or_internal_error::<u8>(Err("disk".to_string())).err().unwrap();
    assert_eq!((reply.status, reply.error.as_str()), (500, "disk"));
    assert!(matches!(or_bad_request(Ok(3)), Ok(3)));
    let reply = or_bad_request::<u8>(Err("what".to_string())).err().unwrap();
    assert_eq!((reply.status, reply.error.as_str()), (400, "what"));
}

#[test]
fn chains_are_opened_once() {
    let chains: DashMap<String, Arc<u32>> = DashMap::new();
    let opened = Cell::new(0);
    let open = || {
        opened.set(opened.get() + 1);
        Ok(7)
    };
    let first = get_or_open_chain(&chains, "k", open).ok().unwrap();
    let second = get_or_open_chain(&chains, "k", open).ok().unwrap();
    assert_eq!(opened.get(), 1);
    assert!(Arc::ptr_eq(&first, &second));
    assert!(Arc::ptr_eq(&first, chains.get("k").unwrap().value()));
    assert_eq!(chains.len(), 1);
}

#[test]
fn chains_that_cannot_be_opened_are_not_found() {
    let chains: DashMap<String, Arc<u32>> = DashMap::new();
    let reply = get_or_open_chain(&chains, "k", || Err("no file".to_string())).err().unwrap();
    assert_eq!((reply.status, reply.error.as_str()), (404, "chain 'k': no file"));
    assert!(chains.is_empty());
}

#[test]
fn open_chains_are_not_opened_again() {
    let found = Arc::new(1u32);
    let r = resolve_chain(Some(found.clone()), "k", || panic!("opened"));
    assert!(matches!(r, Ok(Resolved::Open(chain)) if Arc::ptr_eq(&chain, &found)));
    let r = resolve_chain(None, "k", || Ok(2u32));
    assert!(matches!(r, Ok(Resolved::Opened(chain)) if *chain == 2));
}

#[test]
fn deleting_forgets_the_chain_first() {
    let chains: DashMap<String, Arc<u32>> = DashMap::new();
    chains.insert("k".to_string(), Arc::new(1));
    chains.insert("other".to_string(), Arc::new(2));
    let seen = Cell::new(true);
    let r = delete_chain(&chains, "k".to_string(), || {
        seen.set(chains.contains_key("k"));
        Ok(())
    });
    let answer = r.ok().unwrap();
    assert!(answer.deleted);
    assert_eq!(answer.chain_key, "k");
    assert!(!seen.get());
    assert!(chains.contains_key("other"));
}

#[test]
fn failed_deletion_is_an_internal_error() {
    let chains: DashMap<String, Arc<u32>> = DashMap::new();
    chains.insert("k".to_string(), Arc::new(1));
    let reply =
        delete_chain(&chains, "k".to_string(), || Err("locked".to_string())).err().unwrap();
    assert_eq!((reply.status, reply.error.as_str()), (500, "locked"));
    assert!(chains.is_empty());
    assert!(deletion_reply("k".to_string(), Ok(())).ok().unwrap().deleted);
}

#[test]
fn bootstrap_keys_are_trimmed() {
    assert_eq!(bootstrap_key(" \tmain\n").ok().unwrap(), "main");
    let reply = bootstrap_key(" \u{3000}").err().unwrap();
    assert_eq!((reply.status, reply.error.as_str()), (400, "chain_key must not be empty"));
}

#[test]
fn bootstrap_thought_has_defaults() {
    let thought = bootstrap_thought(request());
    assert_eq!(thought.agent_id, "system");
    assert_eq!(thought.thought_type, ThoughtType::Summary);
    assert_eq!(thought.role, ThoughtRole::Checkpoint);
    assert_eq!(thought.content, "hello");
    assert_eq!(thought.tags, vec!["t"]);
    assert!(thought.concepts.is_empty());
    let named = BootstrapRequest { agent_id: Some("me".to_string()), ..request() };
    assert_eq!(bootstrap_thought(named).agent_id, "me");
}

#[test]
fn only_empty_chains_are_bootstrapped() {
    let written = Cell::new(0);
    let r = bootstrap_chain("k".to_string(), 0, request(), |thought| {
        assert_eq!(thought.content, "hello");
        written.set(written.get() + 1);
        Ok(())
    });
    let answer = r.ok().unwrap();
    assert!(answer.bootstrapped);
    assert_eq!(answer.chain_key, "k");
    let r = bootstrap_chain("k".to_string(), 1, request(), |_| {
        written.set(written.get() + 1);
        Ok(())
    });
    assert!(!r.ok().unwrap().bootstrapped);
    assert_eq!(written.get(), 1);
}

#[test]
fn failed_bootstrap_is_an_internal_error() {
    let reply = bootstrap_chain("k".to_string(), 0, request(), |_| Err("full".to_string()))
        .err()
        .unwrap();
    assert_eq!((reply.status, reply.error.as_str()), (500, "full"));
}

fn opened(chain_key: &str, thought_count: usize) -> OpenedChain {
    let counts = ChainCounts { thought_count, agent_count: 1, head_hash: Some("h".to_string()) };
    OpenedChain { chain_key: chain_key.to_string(), opened: Ok(counts) }
}

#[test]
fn chains_are_listed_in_order() {
    let rows = chain_rows(vec![opened("a", 3), opened("b", 0)]).ok().unwrap();
    let shown: Vec<(&str, usize, usize, Option<&str>)> = rows
        .iter()
        .map(|r| (r.chain_key.as_str(), r.thought_count, r.agent_count, r.head_hash.as_deref()))
        .collect();
    assert_eq!(shown, vec![("a", 3, 1, Some("h")), ("b", 0, 1, Some("h"))]);
    assert!(chain_rows(vec![]).ok().unwrap().is_empty());
}

#[test]
fn listing_fails_with_the_first_chain_that_cannot_be_opened() {
    let gone = |key: &str| OpenedChain {
        chain_key: key.to_string(),
        opened: Err(not_found(key.to_string())),
    };
    let reply = chain_rows(vec![opened("a", 3), gone("b"), gone("c")]).err().unwrap();
    assert_eq!((reply.status, reply.error.as_str()), (404, "b"));
}

#[test]
fn rows_are_added_until_a_chain_cannot_be_opened() {
    let mut rows: Vec<ChainRow> = Vec::new();
    assert!(add_row(&mut rows, opened("a", 3)).is_ok());
    let gone =
        OpenedChain { chain_key: "b".to_string(), opened: Err(not_found("b".to_string())) };
    assert_eq!(add_row(&mut rows, gone).err().unwrap().status, 404);
    assert_eq!(rows.len(), 1);
    assert_eq!((rows[0].chain_key.as_str(), rows[0].thought_count), ("a", 3));
}

#[test]
fn nothing_is_opened_for_a_blank_key() {
    let reply = open_for_bootstrap::<u8, _>(" \t", |_: &str| panic!("opened")).err().unwrap();
    assert_eq!((reply.status, reply.error.as_str()), (400, "chain_key must not be empty"));
    let (key, length) = open_for_bootstrap(" main ", |key: &str| Ok(key.len())).ok().unwrap();
    assert_eq!((key.as_str(), length), ("main", 4));
    let gone = |key: &str| Err(not_found(key.to_string()));
    let reply = open_for_bootstrap::<u8, _>(" main ", gone).err().unwrap();
    assert_eq!((reply.status, reply.error.as_str()), (404, "main"));
}

#[test]
fn nothing_is_opened_for_an_unreadable_value() {
    let reply =
        open_if_read::<u8, u8, _>(Err("what".to_string()), || panic!("opened")).err().unwrap();
    assert_eq!((reply.status, reply.error.as_str()), (400, "what"));
    assert!(matches!(open_if_read::<u8, u8, _>(Ok(1), || Ok(2)), Ok((1, 2))));
    let gone = || Err(not_found("k".to_string()));
    assert_eq!(open_if_read::<u8, u8, _>(Ok(1), gone).err().unwrap().status, 404);
}
