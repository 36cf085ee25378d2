use mentisdbd::listing::ThoughtEntry;
use mentisdbd::summary::{
    agent_registry, agents_section, chain_printable, chain_summary, description_cell,
    description_printable, failed_section, registry_printable, registry_sections, skill_registry,
    AgentEntry, ChainEntry, ChainMembers, ListedChain, SkillEntry,
};
use mentisdbd::thoughts::ThoughtType;

const YELLOW: &str = "\u{1b}[38;5;226m";
const RESET: &str = "\u{1b}[0m";

fn remark(title: &str, text: &str) -> Vec<String> {
    vec![format!("{YELLOW}{title}{RESET}"), format!("  {text}"), String::new()]
}

fn agent(agent_id: &str, description: Option<&str>) -> AgentEntry {
    AgentEntry {
        display_name: agent_id.to_uppercase(),
        agent_id: agent_id.to_string(),
        status: "active".to_string(),
        description: description.map(|d| d.to_string()),
    }
}

fn wrote(agent_id: &str) -> ThoughtEntry {
    ThoughtEntry { id: 0, agent_id: agent_id.to_string(), thought_type: ThoughtType::Idea }
}

fn cell(description: Option<&str>) -> String {
    let description = description.map(|d| d.to_string());
    assert!(description_printable(&description));
    description_cell(&description)
}

#[test]
fn empty_summaries_are_remarks() {
    assert_eq!(chain_summary(&[]), remark("Chain Summary", "No registered chains."));
    assert_eq!(agent_registry(0, &[]), remark("Agent Registry", "No registered chains."));
    assert_eq!(agent_registry(2, &[]), remark("Agent Registry", "No agents registered."));
    assert_eq!(skill_registry(Some(&[])), remark("Skill Registry", "No skills registered."));
    assert_eq!(skill_registry(None), remark("Skill Registry", "No skill registry found."));
}

#[test]
fn chains_in_a_table() {
    let entry = ChainEntry {
        chain_key: "borganism-brain".to_string(),
        version: 2,
        storage_adapter: "binary".to_string(),
        thought_count: 177,
        agent_count: 3,
        storage_location: "/data/b.tcbin".to_string(),
    };
    let lines = chain_summary(&[entry]);
    assert_eq!(lines.len(), 7);
    assert_eq!(
        lines[4],
        "│ borganism-brain │  2  │ binary  │   177    │   3    │  /data/b.tcbin   │"
    );
}

#[test]
fn blank_descriptions_are_a_dash() {
    assert_eq!(cell(None), "—");
    assert_eq!(cell(Some("")), "—");
    assert_eq!(cell(Some(" \t")), "—");
    assert_eq!(cell(Some(" x ")), " x ");
}

#[test]
fn long_descriptions_are_cut() {
    let sixty = "x".repeat(60);
    assert_eq!(cell(Some(&sixty)), sixty);
    let longer = "x".repeat(61);
    assert_eq!(cell(Some(&longer)), format!("{}…", "x".repeat(59)));
    assert_eq!(cell(Some(&longer)).chars().count(), 60);
}

#[test]
fn descriptions_are_not_cut_inside_a_character() {
    let text = format!("{}\u{2014}yz", "x".repeat(58));
    assert!(!description_printable(&Some(text)));
    let text = format!("{}\u{2014}yz", "x".repeat(56));
    assert!(description_printable(&Some(text.clone())));
    assert_eq!(cell(Some(&text)), format!("{}\u{2014}…", "x".repeat(56)));
}

#[test]
fn agents_in_sections() {
    let agents = vec![agent("a", None), agent("b", Some("helper"))];
    let thoughts = vec![wrote("a"), wrote("a"), wrote("c")];
    let section = agents_section("main".to_string(), &agents, &thoughts).unwrap();
    assert_eq!(section.label, "main");
    assert_eq!(
        section.rows,
        vec![vec!["A", "a", "active", "2", "—"], vec!["B", "b", "active", "0", "helper"]]
    );
    assert!(agents_section("main".to_string(), &[], &thoughts).is_none());
}

#[test]
fn failed_chains_show_their_error() {
    let section = failed_section("main".to_string(), "no file");
    assert_eq!(section.label, "main");
    assert_eq!(section.rows, vec![vec!["error: no file", "", "", "", ""]]);
}

#[test]
fn registry_in_sections() {
    let chains = vec![
        ListedChain {
            chain_key: "one".to_string(),
            opened: Ok(ChainMembers { agents: vec![agent("a", None)], thoughts: vec![wrote("a")] }),
        },
        ListedChain {
            chain_key: "two".to_string(),
            opened: Ok(ChainMembers { agents: vec![], thoughts: vec![] }),
        },
        ListedChain { chain_key: "three".to_string(), opened: Err("gone".to_string()) },
    ];
    assert!(chains.iter().all(|c| chain_printable(c)));
    let sections = registry_sections(&chains);
    let labels: Vec<&str> = sections.iter().map(|s| s.label.as_str()).collect();
    assert_eq!(labels, vec!["one", "three"]);
    assert!(registry_printable(chains.len(), &sections));
    let lines = agent_registry(chains.len(), &sections);
    assert_eq!(lines.len(), 3 + 5 + 5 + 2);
    assert_eq!(lines[0], format!("{YELLOW}Agent Registry{RESET}"));
    assert_eq!(lines[7], "│      A      │ a  │ active │    1     │      —      │");
    assert_eq!(lines[12], "│ error: gone │    │        │          │             │");
}

#[test]
fn unprintable_descriptions_are_found() {
    let text = format!("{}\u{2014}yz", "x".repeat(58));
    let chain = ListedChain {
        chain_key: "k".to_string(),
        opened: Ok(ChainMembers { agents: vec![agent("a", Some(&text))], thoughts: vec![] }),
    };
    assert!(!chain_printable(&chain));
    assert!(registry_printable(0, &[]));
    assert!(registry_printable(1, &[failed_section("\u{2014}".repeat(40), "e")]));
}

#[test]
fn skills_in_a_table() {
    let skill = |tags: &[&str]| SkillEntry {
        name: "s".to_string(),
        status: "Active".to_string(),
        version_count: 12,
        tags: tags.iter().map(|t| t.to_string()).collect(),
        uploaded_by: "me".to_string(),
    };
    let skills = [skill(&[]), skill(&["x", "y"])];
    let lines = skill_registry(Some(&skills));
    assert_eq!(lines[4], "│  s   │ Active │    12    │  —   │     me      │");
    assert_eq!(lines[5], "│  s   │ Active │    12    │ x, y │     me      │");
}
