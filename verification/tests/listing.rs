use mentisdbd::listing::{
    agent_thoughts, chain_thoughts, parse_type_filter, select_thoughts, ThoughtEntry,
    ThoughtsQuery,
};
use mentisdbd::paging::paginated_thoughts;
use mentisdbd::thoughts::{parse_thought_type, ThoughtType};

const NAMES: [(&str, ThoughtType); 28] = [
    ("PreferenceUpdate", ThoughtType::PreferenceUpdate),
    ("UserTrait", ThoughtType::UserTrait),
    ("RelationshipUpdate", ThoughtType::RelationshipUpdate),
    ("Finding", ThoughtType::Finding),
    ("Insight", ThoughtType::Insight),
    ("FactLearned", ThoughtType::FactLearned),
    ("PatternDetected", ThoughtType::PatternDetected),
    ("Hypothesis", ThoughtType::Hypothesis),
    ("Mistake", ThoughtType::Mistake),
    ("Correction", ThoughtType::Correction),
    ("LessonLearned", ThoughtType::LessonLearned),
    ("AssumptionInvalidated", ThoughtType::AssumptionInvalidated),
    ("Constraint", ThoughtType::Constraint),
    ("Plan", ThoughtType::Plan),
    ("Subgoal", ThoughtType::Subgoal),
    ("Decision", ThoughtType::Decision),
    ("StrategyShift", ThoughtType::StrategyShift),
    ("Wonder", ThoughtType::Wonder),
    ("Question", ThoughtType::Question),
    ("Idea", ThoughtType::Idea),
    ("Experiment", ThoughtType::Experiment),
    ("ActionTaken", ThoughtType::ActionTaken),
    ("TaskComplete", ThoughtType::TaskComplete),
    ("Checkpoint", ThoughtType::Checkpoint),
    ("StateSnapshot", ThoughtType::StateSnapshot),
    ("Handoff", ThoughtType::Handoff),
    ("Summary", ThoughtType::Summary),
    ("Surprise", ThoughtType::Surprise),
];

fn entry(id: u128, agent_id: &str, thought_type: ThoughtType) -> ThoughtEntry {
    ThoughtEntry { id, agent_id: agent_id.to_string(), thought_type }
}

fn chain() -> Vec<ThoughtEntry> {
    vec![
        entry(10, "a", ThoughtType::Plan),
        entry(11, "b", ThoughtType::Idea),
        entry(12, "a", ThoughtType::Idea),
        entry(13, "a", ThoughtType::Decision),
        entry(14, "b", ThoughtType::Plan),
    ]
}

fn query(
    page: Option<usize>,
    per_page: Option<usize>,
    types: Option<&str>,
    order: Option<&str>,
) -> ThoughtsQuery {
    ThoughtsQuery {
        page,
        per_page,
        types: types.map(|s| s.to_string()),
        order: order.map(|s| s.to_string()),
    }
}

#[test]
fn every_type_has_its_name() {
    for (name, t) in NAMES {
        assert_eq!(parse_thought_type(name), Some(t));
        assert_eq!(parse_thought_type(&format!(" \t{name}\n")), Some(t));
        assert_eq!(name, format!("{t:?}"));
    }
}

#[test]
fn other_names_are_no_types() {
    for name in ["", " ", "insight", "Insights", "In sight", "Insight,", "Thought"] {
        assert_eq!(parse_thought_type(name), None);
    }
}

#[test]
fn first_page_of_three() {
    let page = paginated_thoughts(vec![1, 2, 3, 4, 5], 1, 2, false);
    assert_eq!(page.items, vec![1, 2]);
    assert_eq!((page.total, page.page, page.per_page, page.pages), (5, 1, 2, 3));
}

#[test]
fn pages_are_cut_after_reversing() {
    assert_eq!(paginated_thoughts(vec![1, 2, 3, 4, 5], 1, 2, true).items, vec![5, 4]);
    assert_eq!(paginated_thoughts(vec![1, 2, 3, 4, 5], 3, 2, true).items, vec![1]);
}

#[test]
fn pages_give_back_the_listing() {
    for per_page in 1..9usize {
        for reverse in [false, true] {
            let all: Vec<usize> = (0..7).collect();
            let mut seen: Vec<usize> = Vec::new();
            let pages = paginated_thoughts(all.clone(), 1, per_page, reverse).pages;
            for page in 1..=pages {
                seen.extend(paginated_thoughts(all.clone(), page, per_page, reverse).items);
            }
            let mut expected = all.clone();
            if reverse {
                expected.reverse();
            }
            assert_eq!(seen, expected);
            assert!(paginated_thoughts(all, pages + 1, per_page, reverse).items.is_empty());
        }
    }
}

#[test]
fn page_zero_and_empty_pages() {
    assert_eq!(paginated_thoughts(vec![1, 2, 3], 0, 2, false).items, vec![1, 2]);
    let none = paginated_thoughts(vec![1, 2, 3], 1, 0, false);
    assert!(none.items.is_empty());
    assert_eq!((none.total, none.pages), (3, 0));
    let empty = paginated_thoughts(Vec::<u8>::new(), 1, 50, true);
    assert!(empty.items.is_empty());
    assert_eq!((empty.total, empty.pages), (0, 0));
    assert_eq!(paginated_thoughts(vec![1, 2, 3], 1, usize::MAX, false).pages, 1);
    assert_eq!(paginated_thoughts(vec![1, 2, 3], 2, usize::MAX, false).items.len(), 0);
}

#[test]
fn listing_shows_newest_first_by_default() {
    let page = chain_thoughts(&chain(), &query(None, None, None, None));
    assert_eq!(page.items, vec![4, 3, 2, 1, 0]);
    assert_eq!((page.total, page.page, page.per_page, page.pages), (5, 1, 50, 1));
    assert_eq!(chain_thoughts(&chain(), &query(None, None, None, Some("up"))).items[0], 4);
    assert_eq!(chain_thoughts(&chain(), &query(None, None, None, Some("asc"))).items[0], 0);
}

#[test]
fn listing_filters_by_type() {
    let page = chain_thoughts(&chain(), &query(None, None, Some("Plan, Idea,bogus"), Some("asc")));
    assert_eq!(page.items, vec![0, 1, 2, 4]);
    assert_eq!(page.total, 4);
}

#[test]
fn unknown_types_list_nothing() {
    assert_eq!(chain_thoughts(&chain(), &query(None, None, Some("bogus"), None)).total, 0);
    assert_eq!(chain_thoughts(&chain(), &query(None, None, Some(""), None)).total, 0);
    assert_eq!(parse_type_filter(&Some(String::new())), Some(vec![]));
    assert_eq!(parse_type_filter(&None), None);
    assert_eq!(
        parse_type_filter(&Some("Idea,Plan,Idea".to_string())),
        Some(vec![ThoughtType::Idea, ThoughtType::Plan, ThoughtType::Idea])
    );
}

#[test]
fn agent_listing_shows_one_agent() {
    let page = agent_thoughts(&chain(), "a", &query(Some(1), Some(2), None, None));
    assert_eq!(page.items, vec![3, 2]);
    assert_eq!((page.total, page.pages), (3, 2));
    let page = agent_thoughts(&chain(), "a", &query(None, None, Some("Idea"), None));
    assert_eq!(page.items, vec![2]);
    assert_eq!(agent_thoughts(&chain(), "c", &query(None, None, None, None)).total, 0);
}

#[test]
fn selection_is_in_the_order_of_the_chain() {
    assert_eq!(select_thoughts(&chain(), Some("b"), &None), vec![1, 4]);
    assert_eq!(select_thoughts(&chain(), None, &None), vec![0, 1, 2, 3, 4]);
}

#[test]
fn page_and_page_size_are_at_least_one() {
    let page = chain_thoughts(&chain(), &query(Some(0), Some(0), None, None));
    assert_eq!(page.items, vec![4]);
    assert_eq!((page.page, page.per_page, page.pages), (1, 1, 5));
}

#[test]
fn far_pages_are_out_of_range() {
    assert!(query(None, None, None, None).page_in_range());
    assert!(query(Some(usize::MAX), Some(1), None, None).page_in_range());
    assert!(query(Some(1), Some(usize::MAX), None, None).page_in_range());
    assert!(!query(Some(usize::MAX), Some(2), None, None).page_in_range());
}
