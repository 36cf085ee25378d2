use mentisdbd::paint::painted_text;
use mentisdbd::table::{ascii_table, ascii_table_grouped, sections_printable, Section};

const DIM: &str = "\u{1b}[2m";
const CYAN: &str = "\u{1b}[38;5;87m";
const YELLOW: &str = "\u{1b}[38;5;226m";
const PINK: &str = "\u{1b}[38;5;213m";
const RESET: &str = "\u{1b}[0m";

fn row(cells: &[&str]) -> Vec<String> {
    cells.iter().map(|c| c.to_string()).collect()
}

fn bare(line: &str) -> String {
    let mut out = line.to_string();
    for code in [DIM, CYAN, YELLOW, PINK, RESET] {
        out = out.replace(code, "");
    }
    out
}

#[test]
fn colours_surround_the_text() {
    assert_eq!(painted_text(YELLOW, "x"), "\u{1b}[38;5;226mx\u{1b}[0m");
}

#[test]
fn plain_table_lines() {
    let rows = vec![row(&["borganism", "1"]), row(&["b", "22", "dropped"])];
    let lines = ascii_table("Chains", &["Key", "Ver"], &rows);
    let expected: Vec<String> = vec![
        format!("{YELLOW}Chains{RESET}"),
        format!("{DIM}┌───────────┬─────┐{RESET}"),
        format!("│ {CYAN}   Key   {RESET} │ {CYAN}Ver{RESET} │"),
        format!("{DIM}├───────────┼─────┤{RESET}"),
        "│ borganism │  1  │".to_string(),
        "│     b     │ 22  │".to_string(),
        format!("{DIM}└───────────┴─────┘{RESET}"),
        String::new(),
    ];
    assert_eq!(lines, expected);
}

#[test]
fn cells_are_centred() {
    let rows = vec![row(&["borganism-..", "1", "177"])];
    let lines = ascii_table("", &["Chain Key", "Version", "Thoughts"], &rows);
    let shown: Vec<String> = lines.iter().map(|l| bare(l)).collect();
    assert_eq!(
        shown,
        vec![
            "┌──────────────┬─────────┬──────────┐",
            "│  Chain Key   │ Version │ Thoughts │",
            "├──────────────┼─────────┼──────────┤",
            "│ borganism-.. │    1    │   177    │",
            "└──────────────┴─────────┴──────────┘",
            "",
        ]
    );
}

#[test]
fn empty_title_has_no_line() {
    let lines = ascii_table("", &["A"], &[]);
    assert_eq!(lines.len(), 5);
    assert_eq!(bare(&lines[0]), "┌───┐");
    assert_eq!(bare(&lines[2]), "├───┤");
    assert_eq!(bare(&lines[3]), "└───┘");
    assert_eq!(lines[4], "");
}

#[test]
fn table_without_columns() {
    let lines = ascii_table("", &[], &[row(&["x"])]);
    let shown: Vec<String> = lines.iter().map(|l| bare(l)).collect();
    assert_eq!(shown, vec!["┌", "│", "├", "│", "└", ""]);
}

#[test]
fn widths_count_bytes_and_padding_counts_characters() {
    // Three bytes, one character: the column is as wide as the bytes.
    let lines = ascii_table("", &["x"], &[row(&["\u{2014}"])]);
    assert_eq!(bare(&lines[0]), "┌─────┐");
    assert_eq!(lines[3], "│  \u{2014}  │");
}

#[test]
fn every_line_of_a_table_is_as_long_as_its_borders() {
    let rows = vec![row(&["\u{e9}t\u{e9}", "1", "z"]), row(&["", "12345", "\u{1f600}"])];
    let lines = ascii_table("", &["Season", "N", "?"], &rows);
    let length = bare(&lines[0]).chars().count();
    for line in &lines[..lines.len() - 1] {
        assert_eq!(bare(line).chars().count(), length);
    }
}

#[test]
fn grouped_table_lines() {
    let sections = vec![
        Section { label: "main".to_string(), rows: vec![row(&["a", "bb"])] },
        Section { label: "side".to_string(), rows: vec![] },
    ];
    assert!(sections_printable(&["One", "Two"], &sections));
    let lines = ascii_table_grouped("T", &["One", "Two"], &sections);
    let expected: Vec<String> = vec![
        format!("{YELLOW}T{RESET}"),
        format!("{DIM}┌─────┬─────┐{RESET}"),
        format!("│ {CYAN}One{RESET} │ {CYAN}Two{RESET} │"),
        format!("{DIM}├─────┼─────┤{RESET}"),
        format!("{DIM}├───────────┤{RESET}"),
        format!("│ {PINK}main     {RESET} │"),
        format!("{DIM}├───────────┤{RESET}"),
        "│  a  │ bb  │".to_string(),
        format!("{DIM}├─────┼─────┤{RESET}"),
        format!("{DIM}├───────────┤{RESET}"),
        format!("│ {PINK}side     {RESET} │"),
        format!("{DIM}├───────────┤{RESET}"),
        format!("{DIM}└─────┴─────┘{RESET}"),
        String::new(),
    ];
    assert_eq!(lines, expected);
}

fn label_line(headers: &[&str], label: &str) -> String {
    let sections = vec![Section { label: label.to_string(), rows: vec![] }];
    assert!(sections_printable(headers, &sections));
    let lines = ascii_table_grouped("", headers, &sections);
    let length = bare(&lines[0]).chars().count();
    for line in &lines[..lines.len() - 1] {
        assert_eq!(bare(line).chars().count(), length);
    }
    lines[4].clone()
}

#[test]
fn long_labels_are_cut() {
    // Eleven characters stand between the outer borders, nine of them for the label.
    let headers = ["One", "Two"];
    assert_eq!(label_line(&headers, "012345678"), format!("│ {PINK}012345678{RESET} │"));
    assert_eq!(label_line(&headers, "0123456789"), format!("│ {PINK}01234567…{RESET} │"));
    assert_eq!(label_line(&headers, "0123456789abcdef"), format!("│ {PINK}01234567…{RESET} │"));
}

#[test]
fn labels_that_fit_are_shown_whole() {
    // The room is counted in characters.
    assert_eq!(
        label_line(&["Column"], "\u{e9}\u{e9}\u{e9}\u{e9}"),
        format!("│ {PINK}\u{e9}\u{e9}\u{e9}\u{e9}  {RESET} │")
    );
    assert_eq!(
        label_line(&["One", "Two"], "12345\u{2014}xyz"),
        format!("│ {PINK}12345\u{2014}xyz{RESET} │")
    );
}

#[test]
fn labels_of_too_many_bytes_are_cut_between_characters() {
    let headers = ["One", "Two"];
    assert_eq!(
        label_line(&headers, "1234567\u{2014}xyz"),
        format!("│ {PINK}1234567\u{2014}…{RESET} │")
    );
    assert_eq!(
        label_line(&headers, &"\u{e9}".repeat(6)),
        format!("│ {PINK}{}…   {RESET} │", "\u{e9}".repeat(5))
    );
    assert_eq!(
        label_line(&headers, "12345678\u{2014}xyz"),
        format!("│ {PINK}12345678…{RESET} │")
    );
}

#[test]
fn narrow_tables_have_no_room_for_labels() {
    assert_eq!(label_line(&[""], "main"), format!("│ {PINK}{RESET} │"));
    assert_eq!(label_line(&[""], ""), format!("│ {PINK}{RESET} │"));
    assert_eq!(label_line(&["x"], "main"), format!("│ {PINK}…{RESET} │"));
    assert_eq!(label_line(&["x"], "m"), format!("│ {PINK}m{RESET} │"));
}

#[test]
fn grouped_tables_have_a_column() {
    let no_columns: Vec<Section> = vec![];
    assert!(!sections_printable(&[], &no_columns));
}
