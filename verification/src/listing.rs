//! Listings of the thoughts of a chain.

use crate::paging::{
    first_pages, law_page_is_cut_at_its_place, law_pages_partition_the_listing, ordered,
    page_count, page_offset, page_slice, paginated_thoughts, Page,
};
use crate::text::{opt_str, opt_text, same_text, split_on, split_text, strs, trimmed};
use crate::thoughts::{law_type_names, name_of, named_type, parse_thought_type, ThoughtType};
use vstd::prelude::*;
use vstd::string::*;

verus! {

/// What a listing reads of a thought. The thoughts of a chain are in the order
/// in which they were appended.
pub struct ThoughtEntry {
    pub id: u128,
    pub agent_id: String,
    pub thought_type: ThoughtType,
}

/// What a [`ThoughtEntry`] says.
pub struct ThoughtFacts {
    pub id: u128,
    pub agent_id: Seq<char>,
    pub thought_type: ThoughtType,
}

impl View for ThoughtEntry {
    type V = ThoughtFacts;

    open spec fn view(&self) -> ThoughtFacts {
        ThoughtFacts { id: self.id, agent_id: self.agent_id@, thought_type: self.thought_type }
    }
}

/// What each of a sequence of thoughts says.
pub open spec fn facts(thoughts: Seq<ThoughtEntry>) -> Seq<ThoughtFacts> {
    thoughts.map_values(|t: ThoughtEntry| t@)
}

/// Query parameters of a thought listing.
pub struct ThoughtsQuery {
    /// The number of the page; 1 if it is missing.
    pub page: Option<usize>,
    /// The number of thoughts on a page; 50 if it is missing.
    pub per_page: Option<usize>,
    /// Names of thought types, with commas between them.
    pub types: Option<String>,
    /// `asc` for oldest first; newest first otherwise.
    pub order: Option<String>,
}

impl ThoughtsQuery {
    /// The number of the page that is asked for.
    pub open spec fn wanted_page(&self) -> usize {
        match self.page {
            Some(n) => if n < 1 {
                1
            } else {
                n
            },
            None => 1,
        }
    }

    /// The number of thoughts on a page that is asked for.
    pub open spec fn wanted_per_page(&self) -> usize {
        match self.per_page {
            Some(n) => if n < 1 {
                1
            } else {
                n
            },
            None => 50,
        }
    }

    /// Whether the newest thoughts come first.
    pub open spec fn newest_first(&self) -> bool {
        opt_text(self.order) != Some("asc"@)
    }

    /// Whether the number of thoughts before the page is a machine integer.
    pub open spec fn in_range(&self) -> bool {
        page_offset(self.wanted_page() as int, self.wanted_per_page() as int) <= usize::MAX
    }

    /// Whether the number of thoughts before the page is a machine integer.
    pub fn page_in_range(&self) -> (r: bool)
        ensures
            r == self.in_range(),
    {
        let page = self.page_number();
        let per_page = self.page_size();
        (page - 1).checked_mul(per_page).is_some()
    }

    fn page_number(&self) -> (r: usize)
        ensures
            r == self.wanted_page(),
    {
        match self.page {
            Some(n) => if n < 1 {
                1
            } else {
                n
            },
            None => 1,
        }
    }

    fn page_size(&self) -> (r: usize)
        ensures
            r == self.wanted_per_page(),
    {
        match self.per_page {
            Some(n) => if n < 1 {
                1
            } else {
                n
            },
            None => 50,
        }
    }

    fn reversed(&self) -> (r: bool)
        ensures
            r == self.newest_first(),
    {
        match &self.order {
            Some(order) => !same_text(order.as_str(), "asc"),
            None => true,
        }
    }
}

/// The thought types that a filter lets through: the known ones among the names
/// in it. A missing filter lets every type through.
pub open spec fn type_filter(types: Option<Seq<char>>) -> Option<Seq<ThoughtType>> {
    match types {
        Some(raw) => Some(
            split_on(raw, ',').filter_map(|name: Seq<char>| named_type(trimmed(name))),
        ),
        None => None,
    }
}

/// Whether a thought is listed, given the agent and the types that are asked
/// for.
pub open spec fn listed(
    thought: ThoughtFacts,
    agent: Option<Seq<char>>,
    filter: Option<Seq<ThoughtType>>,
) -> bool {
    &&& agent matches Some(id) ==> thought.agent_id == id
    &&& filter matches Some(types) ==> types.contains(thought.thought_type)
}

/// The positions of the listed thoughts, in the order of the chain.
pub open spec fn selection(
    thoughts: Seq<ThoughtFacts>,
    agent: Option<Seq<char>>,
    filter: Option<Seq<ThoughtType>>,
) -> Seq<usize> {
    Seq::new(thoughts.len(), |i: int| i as usize).filter(
        |i: usize| listed(thoughts[i as int], agent, filter),
    )
}

/// Whether a page shows what a query asks for of the thoughts at the given
/// positions.
pub open spec fn page_shows(r: Page<usize>, positions: Seq<usize>, query: ThoughtsQuery) -> bool {
    &&& r.items@ == page_slice(
        ordered(positions, query.newest_first()),
        query.wanted_page() as int,
        query.wanted_per_page() as int,
    )
    &&& r.total == positions.len()
    &&& r.page == query.wanted_page()
    &&& r.per_page == query.wanted_per_page()
    &&& r.pages == page_count(positions.len() as int, query.wanted_per_page() as int)
}

/// The thought types that are named in a filter.
pub fn parse_type_filter(types: &Option<String>) -> (r: Option<Vec<ThoughtType>>)
    ensures
        match r {
            Some(v) => type_filter(opt_text(*types)) == Some(v@),
            None => type_filter(opt_text(*types)) is None,
        },
{
    match types {
        None => None,
        Some(raw) => {
            let names = split_text(raw.as_str(), ',');
            let ghost pieces = split_on(raw@, ',');
            let ghost parse = |name: Seq<char>| named_type(trimmed(name));
            let mut found: Vec<ThoughtType> = Vec::new();
            let mut i: usize = 0;
            proof {
                assert(pieces.take(0).filter_map(parse) =~= Seq::empty());
            }
            while i < names.len()
                invariant
                    i <= names@.len(),
                    pieces == strs(names@),
                    parse == (|name: Seq<char>| named_type(trimmed(name))),
                    found@ == pieces.take(i as int).filter_map(parse),
                decreases names@.len() - i,
            {
                proof {
                    assert(pieces[i as int] == names@[i as int]@);
                    assert(pieces.take(i + 1).drop_last() =~= pieces.take(i as int));
                    assert(pieces.take(i + 1).last() == pieces[i as int]);
                }
                if let Some(t) = parse_thought_type(names[i]) {
                    found.push(t);
                }
                i = i + 1;
            }
            proof {
                assert(pieces.take(i as int) =~= pieces);
            }
            Some(found)
        },
    }
}

/// Whether a list of thought types holds a type.
fn holds_type(types: &Vec<ThoughtType>, t: ThoughtType) -> (r: bool)
    ensures
        r == types@.contains(t),
{
    let mut i: usize = 0;
    while i < types.len()
        invariant
            i <= types@.len(),
            forall|j: int| 0 <= j < i ==> types@[j] != t,
        decreases types@.len() - i,
    {
        if types[i] == t {
            return true;
        }
        i = i + 1;
    }
    false
}

/// The positions of the listed thoughts.
pub fn select_thoughts(
    thoughts: &[ThoughtEntry],
    agent: Option<&str>,
    types: &Option<String>,
) -> (r: Vec<usize>)
    ensures
        r@ == selection(facts(thoughts@), opt_str(agent), type_filter(opt_text(*types))),
{
    let filter = parse_type_filter(types);
    let ghost all = facts(thoughts@);
    let ghost who = opt_str(agent);
    let ghost what = type_filter(opt_text(*types));
    let ghost positions = Seq::new(all.len(), |i: int| i as usize);
    let ghost pred = |i: usize| listed(all[i as int], who, what);
    let mut found: Vec<usize> = Vec::new();
    let mut i: usize = 0;
    proof {
        reveal(Seq::filter);
        assert(positions.take(0).filter(pred) =~= Seq::empty());
    }
    while i < thoughts.len()
        invariant
            i <= thoughts@.len(),
            all == facts(thoughts@),
            who == opt_str(agent),
            positions == Seq::new(all.len(), |i: int| i as usize),
            pred == (|i: usize| listed(all[i as int], who, what)),
            match filter {
                Some(v) => what == Some(v@),
                None => what is None,
            },
            found@ == positions.take(i as int).filter(pred),
        decreases thoughts@.len() - i,
    {
        let thought = &thoughts[i];
        let by_agent = match agent {
            Some(id) => same_text(thought.agent_id.as_str(), id),
            None => true,
        };
        let by_type = match &filter {
            Some(v) => holds_type(v, thought.thought_type),
            None => true,
        };
        proof {
            reveal(Seq::filter);
            assert(all[i as int] == thought@);
            assert(positions.take(i + 1).drop_last() =~= positions.take(i as int));
            assert(positions.take(i + 1).last() == i);
            assert(pred(i) == (by_agent && by_type));
        }
        if by_agent && by_type {
            found.push(i);
        }
        i = i + 1;
    }
    proof {
        assert(positions.take(i as int) =~= positions);
    }
    found
}

/// One page of the thoughts of a chain, as positions in the chain.
pub fn chain_thoughts(thoughts: &[ThoughtEntry], query: &ThoughtsQuery) -> (r: Page<usize>)
    requires
        query.in_range(),
    ensures
        page_shows(
            r,
            selection(facts(thoughts@), None, type_filter(opt_text(query.types))),
            *query,
        ),
{
    let found = select_thoughts(thoughts, None, &query.types);
    paginated_thoughts(found, query.page_number(), query.page_size(), query.reversed())
}

/// One page of the thoughts that an agent recorded in a chain, as positions in
/// the chain.
pub fn agent_thoughts(
    thoughts: &[ThoughtEntry],
    agent_id: &str,
    query: &ThoughtsQuery,
) -> (r: Page<usize>)
    requires
        query.in_range(),
    ensures
        page_shows(
            r,
            selection(facts(thoughts@), Some(agent_id@), type_filter(opt_text(query.types))),
            *query,
        ),
{
    let found = select_thoughts(thoughts, Some(agent_id), &query.types);
    paginated_thoughts(found, query.page_number(), query.page_size(), query.reversed())
}

/// The pages of a listing show exactly the thoughts that pass its filters: a
/// position is on one of the pages if and only if the thought there is listed.
pub proof fn law_listing_is_exact(
    thoughts: Seq<ThoughtFacts>,
    agent: Option<Seq<char>>,
    filter: Option<Seq<ThoughtType>>,
    newest_first: bool,
    per_page: int,
    i: usize,
)
    requires
        0 < per_page,
        thoughts.len() <= usize::MAX,
    ensures
        ({
            let list = ordered(selection(thoughts, agent, filter), newest_first);
            let pages = page_count(list.len() as int, per_page) as nat;
            first_pages(list, per_page, pages).contains(i) <==> i < thoughts.len() && listed(
                thoughts[i as int],
                agent,
                filter,
            )
        }),
{
    let positions = Seq::new(thoughts.len(), |i: int| i as usize);
    let pred = |i: usize| listed(thoughts[i as int], agent, filter);
    let found = selection(thoughts, agent, filter);
    let list = ordered(found, newest_first);
    law_pages_partition_the_listing(list, per_page, page_count(list.len() as int, per_page) + 1);
    broadcast use vstd::seq_lib::group_filter_ensures;

    if found.contains(i) {
        positions.lemma_filter_contains_rev(pred, i);
        let k = choose|k: int| 0 <= k < found.len() && found[k] == i;
        assert(pred(found[k]));
        if newest_first {
            assert(list[found.len() - 1 - k] == i);
        }
    }
    if i < thoughts.len() && listed(thoughts[i as int], agent, filter) {
        assert(positions[i as int] == i);
        assert(found.contains(positions[i as int]));
    }
    if list.contains(i) {
        let k = choose|k: int| 0 <= k < list.len() && list[k] == i;
        if newest_first {
            assert(found[found.len() - 1 - k] == i);
        }
        assert(found.contains(i));
    }
}

/// A filter that names no known type lists nothing.
pub proof fn law_unknown_types_list_nothing(
    thoughts: Seq<ThoughtFacts>,
    agent: Option<Seq<char>>,
    raw: Seq<char>,
)
    requires
        forall|i: int|
            0 <= i < split_on(raw, ',').len() ==> named_type(
                trimmed(#[trigger] split_on(raw, ',')[i]),
            ) is None,
    ensures
        selection(thoughts, agent, type_filter(Some(raw))).len() == 0,
{
    let pieces = split_on(raw, ',');
    let parse = |name: Seq<char>| named_type(trimmed(name));
    let types = pieces.filter_map(parse);
    if types.len() > 0 {
        pieces.lemma_filter_map_contains(parse, types[0]);
    }
    let found = selection(thoughts, agent, type_filter(Some(raw)));
    if found.len() > 0 {
        let positions = Seq::new(thoughts.len(), |i: int| i as usize);
        let pred = |i: usize| listed(thoughts[i as int], agent, type_filter(Some(raw)));
        positions.lemma_filter_pred(pred, 0);
        assert(pred(found[0]));
        assert(types.contains(thoughts[found[0] as int].thought_type));
    }
}

/// What a listing reads of a thought is what the thought says.
pub proof fn law_facts_are_those_of_the_thoughts(thoughts: Seq<ThoughtEntry>, i: int)
    requires
        0 <= i < thoughts.len(),
    ensures
        facts(thoughts).len() == thoughts.len(),
        facts(thoughts)[i].id == thoughts[i].id,
        facts(thoughts)[i].agent_id == thoughts[i].agent_id@,
        facts(thoughts)[i].thought_type == thoughts[i].thought_type,
{
}

/// A listing gives the page that its query asks for: page 1 and 50 thoughts to a page
/// unless the query says otherwise, the newest thoughts first unless it asks for `asc`.
/// On page `n` stand the thoughts from place `(n - 1) * per_page` on.
pub proof fn law_page_is_the_one_asked_for(
    r: Page<usize>,
    positions: Seq<usize>,
    query: ThoughtsQuery,
    k: int,
)
    requires
        page_shows(r, positions, query),
    ensures
        r.page == (match query.page {
            Some(n) => if n == 0 {
                1
            } else {
                n
            },
            None => 1,
        }),
        r.per_page == (match query.per_page {
            Some(n) => if n == 0 {
                1
            } else {
                n
            },
            None => 50,
        }),
        r.total == positions.len(),
        positions.len() <= r.pages * r.per_page,
        positions.len() > 0 ==> (r.pages - 1) * r.per_page < positions.len(),
        ({
            let first = (r.page - 1) * r.per_page;
            let newest = match query.order {
                Some(order) => order@ != "asc"@,
                None => true,
            };
            &&& r.items@.len() == (if first >= positions.len() {
                0
            } else if positions.len() - first < r.per_page {
                positions.len() - first
            } else {
                r.per_page as int
            })
            &&& 0 <= k < r.items@.len() ==> r.items@[k] == (if newest {
                positions[positions.len() - 1 - (first + k)]
            } else {
                positions[first + k]
            })
        }),
{
    let list = ordered(positions, query.newest_first());
    law_page_is_cut_at_its_place(list, r.page as int, r.per_page as int, k);
    assert((r.page - 1) * r.per_page >= 0) by (nonlinear_arith)
        requires
            r.page >= 1,
            r.per_page >= 1,
    ;
}

/// The items of several pages, one page behind the other.
pub open spec fn all_items(pages: Seq<Page<usize>>) -> Seq<usize>
    decreases pages.len(),
{
    if pages.len() == 0 {
        Seq::empty()
    } else {
        all_items(pages.drop_last()) + pages.last().items@
    }
}

/// Asking for page 1, page 2 and so on up to the number of pages gives the whole
/// selection, each thought once and in order.
pub proof fn law_asking_for_every_page_gives_the_listing(
    pages: Seq<Page<usize>>,
    queries: Seq<ThoughtsQuery>,
    positions: Seq<usize>,
    per_page: usize,
    order: Option<String>,
)
    requires
        per_page >= 1,
        queries.len() == pages.len(),
        forall|i: int|
            0 <= i < pages.len() ==> {
                &&& (#[trigger] queries[i]).page == Some((i + 1) as usize)
                &&& i + 1 <= usize::MAX
                &&& queries[i].per_page == Some(per_page)
                &&& queries[i].order == order
                &&& page_shows(pages[i], positions, queries[i])
                &&& pages[i].pages == pages.len()
            },
        pages.len() == 0 ==> positions.len() == 0,
    ensures
        all_items(pages) == (match order {
            Some(text) => if text@ == "asc"@ {
                positions
            } else {
                positions.reverse()
            },
            None => positions.reverse(),
        }),
{
    let newest = match order {
        Some(text) => text@ != "asc"@,
        None => true,
    };
    let list = ordered(positions, newest);
    assert forall|i: int| 0 <= i < pages.len() implies (#[trigger] pages[i]).items@ == page_slice(
        list,
        i + 1,
        per_page as int,
    ) by {
        assert(queries[i].order == order);
    }
    lemma_items_of_pages(pages, list, per_page as int);
    if pages.len() > 0 {
        assert(queries[0].page == Some(1usize));
        assert(page_count(list.len() as int, per_page as int) == pages.len());
    } else {
        law_page_is_cut_at_its_place(list, 1, per_page as int, 0);
    }
    law_pages_partition_the_listing(list, per_page as int, pages.len() as int + 1);
}

proof fn lemma_items_of_pages(pages: Seq<Page<usize>>, list: Seq<usize>, per_page: int)
    requires
        forall|i: int|
            0 <= i < pages.len() ==> (#[trigger] pages[i]).items@ == page_slice(
                list,
                i + 1,
                per_page,
            ),
    ensures
        all_items(pages) == first_pages(list, per_page, pages.len()),
    decreases pages.len(),
{
    if pages.len() > 0 {
        let fewer = pages.drop_last();
        assert forall|i: int| 0 <= i < fewer.len() implies (#[trigger] fewer[i]).items@
            == page_slice(list, i + 1, per_page) by {
            assert(fewer[i] == pages[i]);
        }
        lemma_items_of_pages(fewer, list, per_page);
        assert(pages[pages.len() - 1].items@ == page_slice(list, pages.len() as int, per_page));
    }
}

/// Whether a filter names a type: one of the texts between its commas is the name, with
/// white space around it or without.
pub open spec fn names_type(raw: Seq<char>, t: ThoughtType) -> bool {
    exists|j: int|
        0 <= j < split_on(raw, ',').len() && trimmed(#[trigger] split_on(raw, ',')[j]) == name_of(t)
}

proof fn lemma_filter_map_holds(pieces: Seq<Seq<char>>, t: ThoughtType)
    ensures
        ({
            let parse = |name: Seq<char>| named_type(trimmed(name));
            pieces.filter_map(parse).contains(t) <==> exists|j: int|
                0 <= j < pieces.len() && trimmed(#[trigger] pieces[j]) == name_of(t)
        }),
    decreases pieces.len(),
{
    let parse = |name: Seq<char>| named_type(trimmed(name));
    let found = pieces.filter_map(parse);
    if pieces.len() > 0 {
        let fewer = pieces.drop_last();
        let before = fewer.filter_map(parse);
        lemma_filter_map_holds(fewer, t);
        law_type_names(t, trimmed(pieces.last()));
        if found.contains(t) {
            let k = choose|k: int| 0 <= k < found.len() && found[k] == t;
            if k < before.len() {
                assert(before[k] == t);
                assert(before.contains(t));
                let j = choose|j: int|
                    0 <= j < fewer.len() && trimmed(#[trigger] fewer[j]) == name_of(t);
                assert(pieces[j] == fewer[j]);
            } else {
                assert(trimmed(pieces[pieces.len() - 1]) == name_of(t));
            }
        }
        if exists|j: int| 0 <= j < pieces.len() && trimmed(#[trigger] pieces[j]) == name_of(t) {
            let j = choose|j: int|
                0 <= j < pieces.len() && trimmed(#[trigger] pieces[j]) == name_of(t);
            if j < fewer.len() {
                assert(fewer[j] == pieces[j]);
                assert(before.contains(t));
                let k = choose|k: int| 0 <= k < before.len() && before[k] == t;
                assert(found[k] == t);
            } else {
                assert(found.last() == t);
            }
        }
    }
}

proof fn lemma_selection_holds(
    thoughts: Seq<ThoughtFacts>,
    agent: Option<Seq<char>>,
    filter: Option<Seq<ThoughtType>>,
    i: usize,
)
    requires
        thoughts.len() <= usize::MAX,
    ensures
        selection(thoughts, agent, filter).contains(i) <==> i < thoughts.len() && listed(
            thoughts[i as int],
            agent,
            filter,
        ),
{
    let positions = Seq::new(thoughts.len(), |i: int| i as usize);
    let pred = |i: usize| listed(thoughts[i as int], agent, filter);
    let found = selection(thoughts, agent, filter);
    broadcast use vstd::seq_lib::group_filter_ensures;

    if found.contains(i) {
        positions.lemma_filter_contains_rev(pred, i);
        let k = choose|k: int| 0 <= k < found.len() && found[k] == i;
        assert(pred(found[k]));
    }
    if i < thoughts.len() && listed(thoughts[i as int], agent, filter) {
        assert(positions[i as int] == i);
        assert(found.contains(positions[i as int]));
    }
}

/// Without a filter the listing of a chain holds every thought, and the listing of an
/// agent just the thoughts that this agent recorded, whatever their types.
pub proof fn law_listing_goes_by_the_agent(
    thoughts: Seq<ThoughtFacts>,
    agent_id: Seq<char>,
    i: usize,
)
    requires
        thoughts.len() <= usize::MAX,
    ensures
        selection(thoughts, None, type_filter(None)).contains(i) <==> i < thoughts.len(),
        selection(thoughts, Some(agent_id), type_filter(None)).contains(i) <==> i < thoughts.len()
            && thoughts[i as int].agent_id == agent_id,
{
    lemma_selection_holds(thoughts, None, type_filter(None), i);
    lemma_selection_holds(thoughts, Some(agent_id), type_filter(None), i);
}

/// With a filter the listing holds just those of these thoughts whose type the filter
/// names.
pub proof fn law_listing_goes_by_the_type(
    thoughts: Seq<ThoughtFacts>,
    agent_id: Seq<char>,
    raw: Seq<char>,
    i: usize,
)
    requires
        thoughts.len() <= usize::MAX,
    ensures
        selection(thoughts, None, type_filter(Some(raw))).contains(i) <==> i < thoughts.len()
            && names_type(raw, thoughts[i as int].thought_type),
        selection(thoughts, Some(agent_id), type_filter(Some(raw))).contains(i) <==> i
            < thoughts.len() && thoughts[i as int].agent_id == agent_id && names_type(
            raw,
            thoughts[i as int].thought_type,
        ),
{
    lemma_selection_holds(thoughts, None, type_filter(Some(raw)), i);
    lemma_selection_holds(thoughts, Some(agent_id), type_filter(Some(raw)), i);
    lemma_filter_map_holds(split_on(raw, ','), thoughts[i as int].thought_type);
}

proof fn lemma_filter_increases(n: nat, pred: spec_fn(usize) -> bool, a: int, b: int)
    requires
        n <= usize::MAX,
    ensures
        ({
            let found = Seq::new(n, |i: int| i as usize).filter(pred);
            &&& 0 <= a < found.len() ==> found[a] < n
            &&& 0 <= a < b < found.len() ==> found[a] < found[b]
        }),
    decreases n,
{
    reveal(Seq::filter);
    let positions = Seq::new(n, |i: int| i as usize);
    if n > 0 {
        let fewer = Seq::new((n - 1) as nat, |i: int| i as usize);
        assert(positions.drop_last() =~= fewer);
        assert(positions.last() == (n - 1) as usize);
        lemma_filter_increases((n - 1) as nat, pred, a, b);
    }
}

/// A listing is in the order of the chain and lists no thought twice.
pub proof fn law_listing_is_in_order(
    thoughts: Seq<ThoughtFacts>,
    agent: Option<Seq<char>>,
    types: Option<Seq<char>>,
    a: int,
    b: int,
)
    requires
        thoughts.len() <= usize::MAX,
        0 <= a < b < selection(thoughts, agent, type_filter(types)).len(),
    ensures
        selection(thoughts, agent, type_filter(types))[a] < selection(
            thoughts,
            agent,
            type_filter(types),
        )[b],
{
    let filter = type_filter(types);
    let pred = |i: usize| listed(thoughts[i as int], agent, filter);
    lemma_filter_increases(thoughts.len(), pred, a, b);
}

/// A page can be asked for just if the number of thoughts before it is a machine integer;
/// the first page always can.
pub proof fn law_which_pages_are_in_range(query: ThoughtsQuery, n: usize, p: usize)
    ensures
        query.page is None || query.page == Some(0usize) || query.page == Some(1usize)
            ==> query.in_range(),
        n >= 1 && p >= 1 && query.page == Some(n) && query.per_page == Some(p) ==> (
        query.in_range() <==> (n - 1) * p <= usize::MAX),
        n >= 1 && query.page == Some(n) && query.per_page is None ==> (query.in_range() <==> (n - 1)
            * 50 <= usize::MAX),
{
    assert((1int - 1) * query.wanted_per_page() == 0) by (nonlinear_arith);
}

} // verus!
