//! Opening, bootstrapping and deleting chains.

use crate::reply::{
    bad_request, bad_request_text, internal_error_text, not_found, not_found_text,
    or_bad_request, or_internal_error, ErrorReply,
};
use crate::text::{opt_text, texts, trimmed, trimmed_text};
use crate::thoughts::ThoughtType;
use dashmap::DashMap;
use std::sync::Arc;
use vstd::prelude::*;
use vstd::string::*;

verus! {

/// The concurrent map of the `dashmap` crate.
#[verifier::external_type_specification]
#[verifier::external_body]
#[verifier::reject_recursive_types(K)]
#[verifier::reject_recursive_types(V)]
#[verifier::reject_recursive_types(S)]
pub struct ExDashMap<K, V, S>(dashmap::DashMap<K, V, S>);

/// The open chain with the given key, if there is one.
///
/// Calls `DashMap::get` and clones the handle that it finds. Nothing is claimed of
/// the result: other threads open and delete chains at any time.
#[verifier::external_body]
fn open_chain<H>(chains: &DashMap<String, Arc<H>>, chain_key: &str) -> (r: Option<Arc<H>>)
{
    chains.get(chain_key).map(|entry| entry.value().clone())
}

/// Keeps an open chain under its key.
///
/// Calls `DashMap::insert`. Nothing is claimed of the map afterwards: other threads
/// open and delete chains at any time.
#[verifier::external_body]
fn keep_chain<H>(chains: &DashMap<String, Arc<H>>, chain_key: &str, chain: Arc<H>)
{
    chains.insert(chain_key.to_string(), chain);
}

/// Forgets the open chain with the given key.
///
/// Calls `DashMap::remove`. Nothing is claimed of the map afterwards: other threads
/// open and delete chains at any time.
#[verifier::external_body]
fn forget_chain<H>(chains: &DashMap<String, Arc<H>>, chain_key: &str)
{
    chains.remove(chain_key);
}

/// Whether `found` is an outcome of a lookup of the key among the open chains: of a call
/// of [`open_chain`]. Only such a call shows it.
pub closed spec fn looked_up<H>(
    chains: &DashMap<String, Arc<H>>,
    chain_key: &str,
    found: Option<Arc<H>>,
) -> bool {
    call_ensures(open_chain::<H>, (chains, chain_key), found)
}

/// Whether putting a chain among the open ones under the key, by a call of
/// [`keep_chain`], came to its end. Only such a call shows it.
pub closed spec fn kept<H>(
    chains: &DashMap<String, Arc<H>>,
    chain_key: &str,
    chain: Arc<H>,
) -> bool {
    call_ensures(keep_chain::<H>, (chains, chain_key, chain), ())
}

/// Whether forgetting the open chain with the key, by a call of [`forget_chain`], came
/// to its end. Only such a call shows it.
pub closed spec fn forgotten<H>(chains: &DashMap<String, Arc<H>>, chain_key: &str) -> bool {
    call_ensures(forget_chain::<H>, (chains, chain_key), ())
}

/// The message about a chain that cannot be opened.
pub open spec fn missing_chain(chain_key: Seq<char>, error: Seq<char>) -> Seq<char> {
    "chain '"@ + chain_key + "': "@ + error
}

/// A chain that a request works on.
pub enum Resolved<H> {
    /// It was open already.
    Open(Arc<H>),
    /// It was opened for the request.
    Opened(Arc<H>),
}

/// The chain that a request works on, given what was found among the open ones;
/// `open` opens it from disk, and is called only if nothing was found.
pub fn resolve_chain<H, F: FnOnce() -> Result<H, String>>(
    found: Option<Arc<H>>,
    chain_key: &str,
    open: F,
) -> (r: Result<Resolved<H>, ErrorReply>)
    requires
        found is None ==> open.requires(()),
    ensures
        match found {
            Some(chain) => r == Ok::<Resolved<H>, ErrorReply>(Resolved::Open(chain)),
            None => match r {
                Ok(resolved) => resolved matches Resolved::Opened(chain) && open.ensures(
                    (),
                    Ok(*chain),
                ),
                Err(reply) => exists|error: String| #[trigger]
                    open.ensures((), Err(error)) && reply@ == not_found_text(
                        missing_chain(chain_key@, error@),
                    ),
            },
        },
{
    match found {
        Some(chain) => Ok(Resolved::Open(chain)),
        None => match open() {
            Ok(chain) => Ok(Resolved::Opened(Arc::new(chain))),
            Err(error) => {
                let ghost reason = error;
                let message = "chain '".to_string().concat(chain_key).concat("': ").concat(
                    error.as_str(),
                );
                assert(open.ensures((), Err(reason)));
                Err(not_found(message))
            },
        },
    }
}

/// The chain with the given key: an open one, or else the one that `open` opens
/// from disk, which is then kept among the open ones. `open` is called only if the
/// lookup finds none.
///
/// A request fails only if the chain is not open and cannot be opened. Which chains
/// are open depends on the other requests, so what the lookup finds is not claimed.
pub fn get_or_open_chain<H, F: FnOnce() -> Result<H, String>>(
    chains: &DashMap<String, Arc<H>>,
    chain_key: &str,
    open: F,
) -> (r: Result<Arc<H>, ErrorReply>)
    requires
        looked_up(chains, chain_key, None) ==> open.requires(()),
    ensures
        match r {
            Ok(chain) => {
                ||| looked_up(chains, chain_key, Some(chain))
                ||| {
                    &&& looked_up(chains, chain_key, None)
                    &&& open.ensures((), Ok(*chain))
                    &&& kept(chains, chain_key, chain)
                }
            },
            Err(reply) => {
                &&& looked_up(chains, chain_key, None)
                &&& exists|error: String| #[trigger]
                    open.ensures((), Err(error)) && reply@ == not_found_text(
                        missing_chain(chain_key@, error@),
                    )
            },
        },
{
    let found = open_chain(chains, chain_key);
    match resolve_chain(found, chain_key, open) {
        Ok(Resolved::Open(chain)) => Ok(chain),
        Ok(Resolved::Opened(chain)) => {
            keep_chain(chains, chain_key, chain.clone());
            Ok(chain)
        },
        Err(reply) => Err(reply),
    }
}

/// What a listing of the chains says of one of them.
pub struct ChainRow {
    pub chain_key: String,
    pub thought_count: usize,
    pub agent_count: usize,
    pub head_hash: Option<String>,
}

/// What was found in a chain that could be opened.
pub struct ChainCounts {
    pub thought_count: usize,
    pub agent_count: usize,
    pub head_hash: Option<String>,
}

/// A registered chain, and what opening it gave.
pub struct OpenedChain {
    pub chain_key: String,
    pub opened: Result<ChainCounts, ErrorReply>,
}

/// Whether a row says what was found in a chain.
pub open spec fn shows_chain(row: ChainRow, chain: OpenedChain) -> bool {
    &&& row.chain_key == chain.chain_key
    &&& chain.opened matches Ok(counts) && {
        &&& row.thought_count == counts.thought_count
        &&& row.agent_count == counts.agent_count
        &&& row.head_hash == counts.head_hash
    }
}

/// Adds the row of a chain to a listing, or gives the reply about a chain that could
/// not be opened, with which the listing ends.
pub fn add_row(rows: &mut Vec<ChainRow>, chain: OpenedChain) -> (r: Result<(), ErrorReply>)
    ensures
        match chain.opened {
            Ok(_) => {
                &&& r is Ok
                &&& final(rows)@.len() == old(rows)@.len() + 1
                &&& final(rows)@.drop_last() == old(rows)@
                &&& shows_chain(final(rows)@.last(), chain)
            },
            Err(reply) => r == Err::<(), ErrorReply>(reply) && final(rows)@ == old(rows)@,
        },
{
    match chain.opened {
        Ok(counts) => {
            rows.push(
                ChainRow {
                    chain_key: chain.chain_key,
                    thought_count: counts.thought_count,
                    agent_count: counts.agent_count,
                    head_hash: counts.head_hash,
                },
            );
            assert(rows@.drop_last() =~= old(rows)@);
            Ok(())
        },
        Err(reply) => Err(reply),
    }
}

/// The listing of the registered chains, given what opening each of them gave: a row
/// for each, in their order, or else the reply about the first that could not be
/// opened.
pub fn chain_rows(chains: Vec<OpenedChain>) -> (r: Result<Vec<ChainRow>, ErrorReply>)
    ensures
        match r {
            Ok(rows) => {
                &&& rows@.len() == chains@.len()
                &&& forall|i: int|
                    0 <= i < rows@.len() ==> shows_chain(#[trigger] rows@[i], chains@[i])
            },
            Err(reply) => exists|k: int|
                {
                    &&& 0 <= k < chains@.len()
                    &&& (#[trigger] chains@[k]).opened == Err::<ChainCounts, ErrorReply>(reply)
                    &&& forall|i: int| 0 <= i < k ==> (#[trigger] chains@[i]).opened is Ok
                },
        },
{
    let ghost all = chains@;
    let mut rows: Vec<ChainRow> = Vec::new();
    for chain in it: chains.into_iter()
        invariant
            it.seq() == all,
            all == chains@,
            rows@.len() == it.index(),
            forall|i: int| 0 <= i < rows@.len() ==> shows_chain(#[trigger] rows@[i], all[i]),
            forall|i: int| 0 <= i < rows@.len() ==> (#[trigger] all[i]).opened is Ok,
    {
        let ghost before = rows@;
        match add_row(&mut rows, chain) {
            Ok(_) => {
                assert forall|i: int| 0 <= i < rows@.len() implies shows_chain(
                    #[trigger] rows@[i],
                    all[i],
                ) by {
                    if i < before.len() {
                        assert(rows@.drop_last()[i] == before[i]);
                    }
                }
            },
            Err(reply) => {
                assert(all[before.len() as int].opened == Err::<ChainCounts, ErrorReply>(reply));
                return Err(reply);
            },
        }
    }
    Ok(rows)
}

/// The answer to a request to delete a chain.
pub struct Deletion {
    pub deleted: bool,
    pub chain_key: String,
}

/// Whether `r` answers a request to delete a chain, given what became of it.
pub open spec fn answers_deletion(
    r: Result<Deletion, ErrorReply>,
    chain_key: Seq<char>,
    outcome: Result<(), String>,
) -> bool {
    match outcome {
        Ok(_) => r is Ok && r->Ok_0.deleted && r->Ok_0.chain_key@ == chain_key,
        Err(error) => r is Err && r->Err_0@ == internal_error_text(error@),
    }
}

/// Deletes a chain: forgets the open one, so that nothing more is written to it,
/// then has `deregister` take it off the registry and the disk. `deregister` is not
/// called before the chain is forgotten.
pub fn delete_chain<H, F: FnOnce() -> Result<(), String>>(
    chains: &DashMap<String, Arc<H>>,
    chain_key: String,
    deregister: F,
) -> (r: Result<Deletion, ErrorReply>)
    requires
        forall|key: &str|
            key@ == chain_key@ && #[trigger] forgotten(chains, key) ==> deregister.requires(()),
    ensures
        exists|key: &str| key@ == chain_key@ && #[trigger] forgotten(chains, key),
        exists|outcome: Result<(), String>| #[trigger]
            deregister.ensures((), outcome) && answers_deletion(r, chain_key@, outcome),
{
    let key = chain_key.as_str();
    forget_chain(chains, key);
    assert(key@ == chain_key@ && forgotten(chains, key));
    let outcome = deregister();
    let ghost made = outcome;
    let r = deletion_reply(chain_key, outcome);
    assert(deregister.ensures((), made));
    r
}

/// The answer to a request to delete a chain, given what became of it.
pub fn deletion_reply(chain_key: String, outcome: Result<(), String>) -> (r: Result<
    Deletion,
    ErrorReply,
>)
    ensures
        answers_deletion(r, chain_key@, outcome),
{
    match or_internal_error(outcome) {
        Ok(_) => Ok(Deletion { deleted: true, chain_key }),
        Err(reply) => Err(reply),
    }
}

/// The key of the chain to bootstrap: the one in the request, without the white
/// space around it. It must not be empty.
pub fn bootstrap_key(raw: &str) -> (r: Result<String, ErrorReply>)
    ensures
        if trimmed(raw@).len() == 0 {
            r is Err && r->Err_0@ == bad_request_text("chain_key must not be empty"@)
        } else {
            r is Ok && r->Ok_0@ == trimmed(raw@)
        },
{
    let chain_key = trimmed_text(raw);
    if chain_key.is_empty() {
        Err(bad_request("chain_key must not be empty".to_string()))
    } else {
        Ok(chain_key.to_string())
    }
}

/// Whether `outcome` is what `open` gives for the key.
pub open spec fn opens<C, F: FnOnce(&str) -> Result<C, ErrorReply>>(
    open: F,
    chain_key: Seq<char>,
    outcome: Result<C, ErrorReply>,
) -> bool {
    exists|key: &str| key@ == chain_key && #[trigger] open.ensures((key,), outcome)
}

/// Reads the key of the chain to bootstrap out of a request, then has `open` open that
/// chain. An empty key is refused without opening anything.
pub fn open_for_bootstrap<C, F: FnOnce(&str) -> Result<C, ErrorReply>>(
    raw: &str,
    open: F,
) -> (r: Result<(String, C), ErrorReply>)
    requires
        forall|key: &str|
            key@ == trimmed(raw@) && key@.len() > 0 ==> #[trigger] open.requires((key,)),
    ensures
        if trimmed(raw@).len() == 0 {
            r is Err && r->Err_0@ == bad_request_text("chain_key must not be empty"@)
        } else {
            match r {
                Ok(found) => found.0@ == trimmed(raw@) && opens(
                    open,
                    trimmed(raw@),
                    Ok::<C, ErrorReply>(found.1),
                ),
                Err(reply) => opens(open, trimmed(raw@), Err::<C, ErrorReply>(reply)),
            }
        },
{
    match bootstrap_key(raw) {
        Ok(chain_key) => {
            let key = chain_key.as_str();
            let outcome = open(key);
            assert(opens(open, trimmed(raw@), outcome)) by {
                assert(open.ensures((key,), outcome));
            }
            match outcome {
                Ok(chain) => Ok((chain_key, chain)),
                Err(reply) => Err(reply),
            }
        },
        Err(reply) => Err(reply),
    }
}

/// A value that was read out of a request, and the chain that `open` then opens. A
/// value that could not be read is a bad request, and nothing is opened for it.
pub fn open_if_read<T, C, F: FnOnce() -> Result<C, ErrorReply>>(
    value: Result<T, String>,
    open: F,
) -> (r: Result<(T, C), ErrorReply>)
    requires
        value is Ok ==> open.requires(()),
    ensures
        match value {
            Ok(v) => match r {
                Ok(found) => found.0 == v && open.ensures((), Ok(found.1)),
                Err(reply) => open.ensures((), Err(reply)),
            },
            Err(error) => r is Err && r->Err_0@ == bad_request_text(error@),
        },
{
    match or_bad_request(value) {
        Ok(v) => match open() {
            Ok(chain) => Ok((v, chain)),
            Err(reply) => Err(reply),
        },
        Err(reply) => Err(reply),
    }
}

/// What role a thought plays.
#[derive(Clone, Copy, Debug, PartialEq, Eq, Structural)]
pub enum ThoughtRole {
    Checkpoint,
}

/// A request to bootstrap a chain, apart from its key and its importance.
pub struct BootstrapRequest {
    pub content: String,
    pub agent_id: Option<String>,
    pub tags: Option<Vec<String>>,
    pub concepts: Option<Vec<String>>,
}

/// The thought that opens a bootstrapped chain.
pub struct BootstrapThought {
    pub agent_id: String,
    pub thought_type: ThoughtType,
    pub role: ThoughtRole,
    pub content: String,
    pub tags: Vec<String>,
    pub concepts: Vec<String>,
}

/// The texts of an optional list, which is empty if it is missing.
pub open spec fn list_text(list: Option<Vec<String>>) -> Seq<Seq<char>> {
    match list {
        Some(v) => texts(v@),
        None => Seq::empty(),
    }
}

/// Whether a thought is the one that a request to bootstrap a chain asks for.
pub open spec fn bootstraps(thought: BootstrapThought, request: BootstrapRequest) -> bool {
    &&& thought.agent_id@ == (match opt_text(request.agent_id) {
        Some(agent_id) => agent_id,
        None => "system"@,
    })
    &&& thought.thought_type == ThoughtType::Summary
    &&& thought.role == ThoughtRole::Checkpoint
    &&& thought.content@ == request.content@
    &&& texts(thought.tags@) == list_text(request.tags)
    &&& texts(thought.concepts@) == list_text(request.concepts)
}

/// A list, which is empty if it is missing.
fn list_or_empty(list: Option<Vec<String>>) -> (r: Vec<String>)
    ensures
        texts(r@) == list_text(list),
{
    match list {
        Some(v) => v,
        None => {
            let none: Vec<String> = Vec::new();
            assert(texts(none@) =~= Seq::empty());
            none
        },
    }
}

/// The thought that a request to bootstrap a chain asks for.
pub fn bootstrap_thought(request: BootstrapRequest) -> (r: BootstrapThought)
    ensures
        bootstraps(r, request),
{
    let agent_id = match request.agent_id {
        Some(agent_id) => agent_id,
        None => "system".to_string(),
    };
    BootstrapThought {
        agent_id,
        thought_type: ThoughtType::Summary,
        role: ThoughtRole::Checkpoint,
        content: request.content,
        tags: list_or_empty(request.tags),
        concepts: list_or_empty(request.concepts),
    }
}

/// The answer to a request to bootstrap a chain.
pub struct Bootstrap {
    pub bootstrapped: bool,
    pub chain_key: String,
}

/// Bootstraps a chain: has `append` write the first thought if the chain holds
/// none yet, and leaves any other chain alone. Nothing but that thought is written.
pub fn bootstrap_chain<F: FnOnce(BootstrapThought) -> Result<(), String>>(
    chain_key: String,
    thought_count: usize,
    request: BootstrapRequest,
    append: F,
) -> (r: Result<Bootstrap, ErrorReply>)
    requires
        thought_count == 0 ==> forall|thought: BootstrapThought|
            bootstraps(thought, request) ==> #[trigger] append.requires((thought,)),
    ensures
        if thought_count > 0 {
            r is Ok && !r->Ok_0.bootstrapped && r->Ok_0.chain_key@ == chain_key@
        } else {
            exists|thought: BootstrapThought, outcome: Result<(), String>|
                {
                    &&& bootstraps(thought, request)
                    &&& #[trigger] append.ensures((thought,), outcome)
                    &&& match outcome {
                        Ok(_) => r is Ok && r->Ok_0.bootstrapped && r->Ok_0.chain_key@
                            == chain_key@,
                        Err(error) => r is Err && r->Err_0@ == internal_error_text(error@),
                    }
                }
        },
{
    if thought_count > 0 {
        return Ok(Bootstrap { bootstrapped: false, chain_key });
    }
    let thought = bootstrap_thought(request);
    let ghost first = thought;
    let outcome = append(thought);
    let ghost made = outcome;
    assert(append.ensures((first,), made));
    match or_internal_error(outcome) {
        Ok(_) => Ok(Bootstrap { bootstrapped: true, chain_key }),
        Err(reply) => Err(reply),
    }
}

/// A bootstrapped chain begins with what the request says: its content, its tags and its
/// concepts, all of them and in order, or none if it names none, by the agent that it
/// names, or else by `system`. The thought is a summary that plays a checkpoint.
pub proof fn law_bootstrap_writes_what_was_asked_for(
    thought: BootstrapThought,
    request: BootstrapRequest,
    i: int,
)
    requires
        bootstraps(thought, request),
    ensures
        thought.content@ == request.content@,
        thought.thought_type == ThoughtType::Summary,
        thought.role == ThoughtRole::Checkpoint,
        match request.agent_id {
            Some(agent_id) => thought.agent_id@ == agent_id@,
            None => thought.agent_id@ == "system"@,
        },
        match request.tags {
            Some(tags) => thought.tags@.len() == tags@.len() && (0 <= i < tags@.len()
                ==> thought.tags@[i]@ == tags@[i]@),
            None => thought.tags@.len() == 0,
        },
        match request.concepts {
            Some(concepts) => thought.concepts@.len() == concepts@.len() && (0 <= i
                < concepts@.len() ==> thought.concepts@[i]@ == concepts@[i]@),
            None => thought.concepts@.len() == 0,
        },
{
    assert(texts(thought.tags@).len() == thought.tags@.len());
    assert(texts(thought.concepts@).len() == thought.concepts@.len());
    if let Some(tags) = request.tags {
        assert(texts(tags@).len() == tags@.len());
        if 0 <= i < tags@.len() {
            assert(texts(thought.tags@)[i] == texts(tags@)[i]);
        }
    }
    if let Some(concepts) = request.concepts {
        assert(texts(concepts@).len() == concepts@.len());
        if 0 <= i < concepts@.len() {
            assert(texts(thought.concepts@)[i] == texts(concepts@)[i]);
        }
    }
}

/// The row of a chain stands under its own key and shows its own counts and head. A
/// chain that could not be opened has no row.
pub proof fn law_row_is_that_of_the_chain(row: ChainRow, chain: OpenedChain)
    requires
        shows_chain(row, chain),
    ensures
        chain.opened is Ok,
        row.chain_key == chain.chain_key,
        row.thought_count == chain.opened->Ok_0.thought_count,
        row.agent_count == chain.opened->Ok_0.agent_count,
        row.head_hash == chain.opened->Ok_0.head_hash,
{
}

/// A deletion is confirmed under the key of the request exactly if the chain was taken
/// off the registry; otherwise the error is the server's.
pub proof fn law_deletion_is_confirmed_if_it_took_place(
    r: Result<Deletion, ErrorReply>,
    chain_key: Seq<char>,
    outcome: Result<(), String>,
)
    requires
        answers_deletion(r, chain_key, outcome),
    ensures
        r is Ok <==> outcome is Ok,
        r matches Ok(deletion) ==> deletion.deleted && deletion.chain_key@ == chain_key,
        r matches Err(reply) ==> reply.status == 500 && reply.error@ == outcome->Err_0@,
{
}

/// The message about a chain that cannot be opened holds its key between quotes and ends
/// with the error.
pub proof fn law_missing_chain_is_named(chain_key: Seq<char>, error: Seq<char>)
    ensures
        missing_chain(chain_key, error).len() == 10 + chain_key.len() + error.len(),
        missing_chain(chain_key, error).subrange(7, 7 + chain_key.len() as int) == chain_key,
        missing_chain(chain_key, error).skip(10 + chain_key.len() as int) == error,
{
    reveal_strlit("chain '");
    reveal_strlit("': ");
    let message = missing_chain(chain_key, error);
    assert(message.subrange(7, 7 + chain_key.len() as int) =~= chain_key);
    assert(message.skip(10 + chain_key.len() as int) =~= error);
}

} // verus!
