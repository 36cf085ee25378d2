use mentisdbd::ids::{find_thought, open_for_thought, parse_thought_id, parse_version_id};
use mentisdbd::listing::ThoughtEntry;
use mentisdbd::skills::{content_diff, find_skill, skill_diff, EMPTY_DIFF};
use mentisdbd::thoughts::ThoughtType;
use std::cell::RefCell;

const ID: u128 = 0x67e55044_10b1_426f_9247_bb680e5fe0c8;
const ID_TEXT: &str = "67e55044-10b1-426f-9247-bb680e5fe0c8";

fn entry(id: u128) -> ThoughtEntry {
    ThoughtEntry { id, agent_id: String::new(), thought_type: ThoughtType::Idea }
}

#[test]
fn identifiers_are_read() {
    assert_eq!(parse_thought_id(ID_TEXT).ok(), Some(ID));
    assert_eq!(parse_thought_id("67E5504410B1426F9247BB680E5FE0C8").ok(), Some(ID));
    assert_eq!(parse_thought_id("00000000-0000-0000-0000-000000000000").ok(), Some(0));
    assert_eq!(parse_thought_id("ffffffff-ffff-ffff-ffff-ffffffffffff").ok(), Some(u128::MAX));
}

#[test]
fn bad_identifiers_are_bad_requests() {
    for text in ["", "x", "67e55044-10b1-426f-9247-bb680e5fe0c", " 67e55044"] {
        let reply = parse_thought_id(text).err().unwrap();
        assert_eq!(reply.status, 400);
        assert_eq!(reply.error, uuid::Uuid::parse_str(text).unwrap_err().to_string());
    }
}

#[test]
fn missing_version_stands_for_the_latest() {
    assert_eq!(parse_version_id(None).ok(), Some(None));
    assert_eq!(parse_version_id(Some(ID_TEXT)).ok(), Some(Some(ID)));
    assert_eq!(parse_version_id(Some("latest")).err().unwrap().status, 400);
}

#[test]
fn thoughts_are_found_by_identifier() {
    let thoughts = vec![entry(1), entry(ID), entry(ID)];
    assert_eq!(find_thought(&thoughts, ID, "k").ok(), Some(1));
    assert_eq!(find_thought(&thoughts, 1, "k").ok(), Some(0));
}

#[test]
fn missing_thoughts_are_not_found() {
    let reply = find_thought(&[entry(1)], ID, "k").err().unwrap();
    assert_eq!(reply.status, 404);
    assert_eq!(
        reply.error,
        "thought '67e55044-10b1-426f-9247-bb680e5fe0c8' not found in chain 'k'"
    );
    let reply = find_thought(&[], 0xab, "k").err().unwrap();
    assert_eq!(
        reply.error,
        "thought '00000000-0000-0000-0000-0000000000ab' not found in chain 'k'"
    );
}

#[test]
fn identifiers_are_read_back_as_shown() {
    for id in [0u128, 1, ID, u128::MAX, 1 << 127] {
        let message = find_thought(&[], id, "k").err().unwrap().error;
        let shown = message.split('\'').nth(1).unwrap();
        assert_eq!(parse_thought_id(shown).ok(), Some(id));
    }
}

#[test]
fn difference_of_two_contents() {
    let diff = content_diff(Ok("a\nb\n".to_string()), Ok("a\nc\n".to_string())).ok().unwrap();
    assert_eq!(diff, "--- original\n+++ modified\n@@ -1,2 +1,2 @@\n a\n-b\n+c\n");
}

#[test]
fn content_does_not_differ_from_itself() {
    for text in ["", "a", "a\nb\n", "\u{2014}\n\n"] {
        let diff = content_diff(Ok(text.to_string()), Ok(text.to_string())).ok().unwrap();
        assert_eq!(diff, EMPTY_DIFF);
    }
}

#[test]
fn unreadable_contents_are_internal_errors() {
    let reply = content_diff(Err("x".to_string()), Err("y".to_string())).err().unwrap();
    assert_eq!((reply.status, reply.error.as_str()), (500, "x"));
    let reply = content_diff(Ok(String::new()), Err("y".to_string())).err().unwrap();
    assert_eq!((reply.status, reply.error.as_str()), (500, "y"));
}

#[test]
fn versions_are_read_old_side_first() {
    let asked: RefCell<Vec<Option<u128>>> = RefCell::new(Vec::new());
    let read = |version: Option<u128>| {
        asked.borrow_mut().push(version);
        Ok(if version.is_some() { "old\n".to_string() } else { "new\n".to_string() })
    };
    let diff = skill_diff(Some(ID_TEXT), None, read).ok().unwrap();
    assert_eq!(diff, "--- original\n+++ modified\n@@ -1 +1 @@\n-old\n+new\n");
    assert_eq!(*asked.borrow(), vec![Some(ID), None]);
}

#[test]
fn bad_versions_are_refused_before_reading() {
    let read = |_: Option<u128>| -> Result<String, String> { panic!("read") };
    assert_eq!(skill_diff(Some("x"), Some("y"), read).err().unwrap().status, 400);
    assert_eq!(skill_diff(None, Some("y"), read).err().unwrap().status, 400);
}

#[test]
fn new_side_is_not_read_after_a_failure() {
    let count: RefCell<u32> = RefCell::new(0);
    let read = |_: Option<u128>| -> Result<String, String> {
        *count.borrow_mut() += 1;
        Err("gone".to_string())
    };
    let reply = skill_diff(None, None, read).err().unwrap();
    assert_eq!((reply.status, reply.error.as_str()), (500, "gone"));
    assert_eq!(*count.borrow(), 1);
}

#[test]
fn skills_are_found_by_identifier() {
    let ids = vec!["a".to_string(), "b".to_string(), "b".to_string()];
    assert_eq!(find_skill(&ids, "b").ok(), Some(1));
    let reply = find_skill(&ids, "c").err().unwrap();
    assert_eq!((reply.status, reply.error.as_str()), (404, "skill 'c' not found"));
}

#[test]
fn chains_are_not_opened_for_bad_identifiers() {
    let reply = open_for_thought::<u8, _>("x", || panic!("opened")).err().unwrap();
    assert_eq!(reply.status, 400);
    let (id, chain) = open_for_thought(ID_TEXT, || Ok(7u8)).ok().unwrap();
    assert_eq!((id, chain), (ID, 7));
    let missing = || Err(mentisdbd::reply::not_found("gone".to_string()));
    let reply = open_for_thought::<u8, _>(ID_TEXT, missing).err().unwrap();
    assert_eq!((reply.status, reply.error.as_str()), (404, "gone"));
}
