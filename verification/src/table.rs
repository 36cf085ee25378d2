//! Bordered tables, plain and grouped into sections.

use crate::paint::{painted, painted_text, CYAN, DIM, PINK, RESET, YELLOW};
use crate::text::{
    byte_len, byte_prefix, centred, cut_point, cut_text, lemma_byte_len_covers, lemma_centred_len,
    lemma_pad_right_len, lemma_repeated_len, pad_right, push_centred, push_line,
    push_padded, push_repeated, repeated, strs, text_bytes, texts,
};
use vstd::prelude::*;
use vstd::string::*;

verus! {

/// The texts of the cells of each row.
pub open spec fn rows_text(rows: Seq<Vec<String>>) -> Seq<Seq<Seq<char>>> {
    rows.map_values(|row: Vec<String>| texts(row@))
}

/// A heading and the rows that stand under it.
pub struct Section {
    pub label: String,
    pub rows: Vec<Vec<String>>,
}

/// What a [`Section`] says.
pub struct SectionText {
    pub label: Seq<char>,
    pub rows: Seq<Seq<Seq<char>>>,
}

impl View for Section {
    type V = SectionText;

    open spec fn view(&self) -> SectionText {
        SectionText { label: self.label@, rows: rows_text(self.rows@) }
    }
}

/// What each of a sequence of sections says.
pub open spec fn sections_text(sections: Seq<Section>) -> Seq<SectionText> {
    sections.map_values(|s: Section| s@)
}

/// The rows of all sections, in order.
pub open spec fn all_rows(sections: Seq<SectionText>) -> Seq<Seq<Seq<char>>>
    decreases sections.len(),
{
    if sections.len() == 0 {
        Seq::empty()
    } else {
        all_rows(sections.drop_last()) + sections.last().rows
    }
}

/// The largest byte length among `least` and the cells in column `i`.
pub open spec fn widest(least: nat, rows: Seq<Seq<Seq<char>>>, i: int) -> nat
    decreases rows.len(),
{
    if rows.len() == 0 {
        least
    } else {
        let before = widest(least, rows.drop_last(), i);
        let row = rows.last();
        if i < row.len() && byte_len(row[i]) > before {
            byte_len(row[i])
        } else {
            before
        }
    }
}

/// The width of each column: the largest byte length among its header and its
/// cells.
pub open spec fn column_widths(
    headers: Seq<Seq<char>>,
    rows: Seq<Seq<Seq<char>>>,
) -> Seq<nat> {
    Seq::new(headers.len(), |i: int| widest(byte_len(headers[i]), rows, i))
}

/// The first `k` columns of a horizontal border.
pub open spec fn border_to(
    widths: Seq<nat>,
    left: Seq<char>,
    sep: Seq<char>,
    right: Seq<char>,
    k: nat,
) -> Seq<char>
    decreases k,
{
    if k == 0 {
        left
    } else {
        border_to(widths, left, sep, right, (k - 1) as nat) + repeated("─"@, widths[k - 1] + 2) + (
        if k < widths.len() {
            sep
        } else {
            right
        })
    }
}

/// A horizontal border: every column is two wider than its width.
pub open spec fn border(
    widths: Seq<nat>,
    left: Seq<char>,
    sep: Seq<char>,
    right: Seq<char>,
) -> Seq<char> {
    border_to(widths, left, sep, right, widths.len())
}

/// The border above a table.
pub open spec fn top_border(widths: Seq<nat>) -> Seq<char> {
    border(widths, "┌"@, "┬"@, "┐"@)
}

/// The border between the header and the rows of a table.
pub open spec fn middle_border(widths: Seq<nat>) -> Seq<char> {
    border(widths, "├"@, "┼"@, "┤"@)
}

/// The border below a table.
pub open spec fn bottom_border(widths: Seq<nat>) -> Seq<char> {
    border(widths, "└"@, "┴"@, "┘"@)
}

/// The first `k` cells of a line; cells beyond the last column are left out.
pub open spec fn cells_to(
    widths: Seq<nat>,
    cells: Seq<Seq<char>>,
    before: Seq<char>,
    after: Seq<char>,
    k: nat,
) -> Seq<char>
    decreases k,
{
    if k == 0 {
        "│"@
    } else {
        let line = cells_to(widths, cells, before, after, (k - 1) as nat);
        if k <= widths.len() {
            line + before + centred(cells[k - 1], widths[k - 1]) + after
        } else {
            line
        }
    }
}

/// The line of a row: each cell is centred in its column.
pub open spec fn row_line(widths: Seq<nat>, cells: Seq<Seq<char>>) -> Seq<char> {
    cells_to(widths, cells, " "@, " │"@, cells.len())
}

/// The line of the header, whose cells are coloured.
pub open spec fn header_line(widths: Seq<nat>, cells: Seq<Seq<char>>) -> Seq<char> {
    cells_to(widths, cells, " "@ + CYAN@, RESET@ + " │"@, cells.len())
}

/// The lines of several rows.
pub open spec fn row_lines(widths: Seq<nat>, rows: Seq<Seq<Seq<char>>>) -> Seq<Seq<char>> {
    rows.map_values(|row: Seq<Seq<char>>| row_line(widths, row))
}

/// The line of the title; there is none for an empty title.
pub open spec fn title_lines(title: Seq<char>) -> Seq<Seq<char>> {
    if title.len() == 0 {
        Seq::empty()
    } else {
        seq![painted(YELLOW@, title)]
    }
}

/// The lines of a plain table.
pub open spec fn table_lines(
    title: Seq<char>,
    headers: Seq<Seq<char>>,
    rows: Seq<Seq<Seq<char>>>,
) -> Seq<Seq<char>> {
    let widths = column_widths(headers, rows);
    title_lines(title) + seq![
        painted(DIM@, top_border(widths)),
        header_line(widths, headers),
        painted(DIM@, middle_border(widths)),
    ] + row_lines(widths, rows) + seq![painted(DIM@, bottom_border(widths)), Seq::empty()]
}

/// The sum of the widths of the columns.
pub open spec fn width_sum(widths: Seq<nat>) -> nat
    decreases widths.len(),
{
    if widths.len() == 0 {
        0
    } else {
        width_sum(widths.drop_last()) + widths.last()
    }
}

/// The number of characters between the outer borders of a table: the columns,
/// their padding and the separators between them.
pub open spec fn inner_width(widths: Seq<nat>) -> int {
    width_sum(widths) + 3 * widths.len() - 1
}

/// The border around a section label, which spans all columns.
pub open spec fn section_border(inner: int) -> Seq<char> {
    "├"@ + repeated("─"@, inner as nat) + "┤"@
}

/// A section label as long as the table is wide: one that takes more bytes is cut
/// between two characters, and ends in an ellipsis.
pub open spec fn table_label(label: Seq<char>, inner: int) -> Seq<char> {
    if byte_len(label) > inner {
        byte_prefix(label, cut_point(label, inner - 1)) + "…"@
    } else {
        label
    }
}

/// A section label as it is shown, with a space on either side of it: one of more
/// characters than there is room for is cut to that room, and ends in an ellipsis.
/// Where there is no room for the ellipsis, nothing is shown.
pub open spec fn shown_label(label: Seq<char>, inner: int) -> Seq<char> {
    let whole = table_label(label, inner);
    if whole.len() <= inner - 2 {
        whole
    } else if inner < 3 {
        Seq::empty()
    } else {
        whole.take(inner - 3) + "…"@
    }
}

/// The line of a section label.
pub open spec fn label_line(label: Seq<char>, inner: int) -> Seq<char> {
    "│ "@ + PINK@ + pad_right(shown_label(label, inner), (inner - 2) as nat) + RESET@ + " │"@
}

/// The lines of one section: its label between borders, then its rows.
pub open spec fn section_lines(widths: Seq<nat>, section: SectionText) -> Seq<Seq<char>> {
    let inner = inner_width(widths);
    seq![
        painted(DIM@, middle_border(widths)),
        painted(DIM@, section_border(inner)),
        label_line(section.label, inner),
        painted(DIM@, section_border(inner)),
    ] + row_lines(widths, section.rows)
}

/// The lines of several sections.
pub open spec fn sections_lines(
    widths: Seq<nat>,
    sections: Seq<SectionText>,
) -> Seq<Seq<char>>
    decreases sections.len(),
{
    if sections.len() == 0 {
        Seq::empty()
    } else {
        sections_lines(widths, sections.drop_last()) + section_lines(widths, sections.last())
    }
}

/// The lines of a grouped table.
pub open spec fn grouped_lines(
    title: Seq<char>,
    headers: Seq<Seq<char>>,
    sections: Seq<SectionText>,
) -> Seq<Seq<char>> {
    let widths = column_widths(headers, all_rows(sections));
    title_lines(title) + seq![painted(DIM@, top_border(widths)), header_line(widths, headers)]
        + sections_lines(widths, sections) + seq![
        painted(DIM@, bottom_border(widths)),
        Seq::empty(),
    ]
}

/// Whether a grouped table can be shown: it has a column, and its width is a machine
/// integer.
pub open spec fn printable(headers: Seq<Seq<char>>, sections: Seq<SectionText>) -> bool {
    &&& headers.len() > 0
    &&& inner_width(column_widths(headers, all_rows(sections))) <= usize::MAX
}

/// Machine integers as numbers.
pub open spec fn nats(v: Seq<usize>) -> Seq<nat> {
    v.map_values(|n: usize| n as nat)
}

/// The byte lengths of the headers.
fn header_widths(headers: &[&str]) -> (widths: Vec<usize>)
    ensures
        nats(widths@) == column_widths(strs(headers@), Seq::empty()),
{
    let mut widths: Vec<usize> = Vec::new();
    let mut i: usize = 0;
    while i < headers.len()
        invariant
            i <= headers@.len(),
            widths@.len() == i,
            forall|j: int| 0 <= j < i ==> #[trigger] widths@[j] == byte_len(headers@[j]@),
        decreases headers@.len() - i,
    {
        widths.push(text_bytes(headers[i]));
        i = i + 1;
    }
    proof {
        assert(nats(widths@) =~= column_widths(strs(headers@), Seq::empty()));
    }
    widths
}

/// Widens the columns so that the cells of `row` fit.
fn widen(widths: &mut Vec<usize>, row: &Vec<String>, Ghost(headers): Ghost<Seq<Seq<char>>>, Ghost(
    rows,
): Ghost<Seq<Seq<Seq<char>>>>)
    requires
        nats(old(widths)@) == column_widths(headers, rows),
    ensures
        nats(final(widths)@) == column_widths(headers, rows.push(texts(row@))),
{
    let ghost start = widths@;
    let ghost cells = texts(row@);
    proof {
        assert(rows.push(cells).drop_last() =~= rows);
        assert(nats(start).len() == headers.len());
    }
    let mut i: usize = 0;
    while i < row.len() && i < widths.len()
        invariant
            i <= row@.len(),
            i <= widths@.len(),
            widths@.len() == start.len(),
            start.len() == headers.len(),
            cells == texts(row@),
            nats(start) == column_widths(headers, rows),
            rows.push(cells).drop_last() == rows,
            rows.push(cells).last() == cells,
            forall|j: int|
                0 <= j < i ==> #[trigger] widths@[j] == widest(
                    byte_len(headers[j]),
                    rows.push(cells),
                    j,
                ),
            forall|j: int| i <= j < widths@.len() ==> #[trigger] widths@[j] == start[j],
        decreases row@.len() - i,
    {
        let n = text_bytes(row[i].as_str());
        proof {
            assert(cells[i as int] == row@[i as int]@);
            assert(nats(start)[i as int] == start[i as int]);
            assert(column_widths(headers, rows)[i as int] == widest(
                byte_len(headers[i as int]),
                rows,
                i as int,
            ));
        }
        if n > widths[i] {
            widths.set(i, n);
        }
        i = i + 1;
    }
    proof {
        assert forall|j: int| 0 <= j < headers.len() implies nats(widths@)[j] == column_widths(
            headers,
            rows.push(cells),
        )[j] by {
            if j >= i {
                assert(widths@[j] == start[j]);
                assert(nats(start)[j] == start[j]);
                assert(column_widths(headers, rows)[j] == widest(byte_len(headers[j]), rows, j));
            }
        }
        assert(nats(widths@) =~= column_widths(headers, rows.push(cells)));
    }
}

/// The widths of the columns of a table.
fn table_widths(headers: &[&str], rows: &[Vec<String>]) -> (widths: Vec<usize>)
    ensures
        nats(widths@) == column_widths(strs(headers@), rows_text(rows@)),
{
    let mut widths = header_widths(headers);
    let ghost all = rows_text(rows@);
    proof {
        assert(all.take(0) =~= Seq::empty());
    }
    let mut i: usize = 0;
    while i < rows.len()
        invariant
            i <= rows@.len(),
            all == rows_text(rows@),
            nats(widths@) == column_widths(strs(headers@), all.take(i as int)),
        decreases rows@.len() - i,
    {
        widen(&mut widths, &rows[i], Ghost(strs(headers@)), Ghost(all.take(i as int)));
        proof {
            assert(all.take(i + 1) =~= all.take(i as int).push(texts(rows@[i as int]@)));
        }
        i = i + 1;
    }
    proof {
        assert(all.take(i as int) =~= all);
    }
    widths
}

/// A horizontal border.
fn border_text(widths: &Vec<usize>, left: &str, sep: &str, right: &str) -> (r: String)
    ensures
        r@ == border(nats(widths@), left@, sep@, right@),
{
    let mut out = left.to_string();
    let mut i: usize = 0;
    while i < widths.len()
        invariant
            i <= widths@.len(),
            out@ == border_to(nats(widths@), left@, sep@, right@, i as nat),
        decreases widths@.len() - i,
    {
        let ghost start = out@;
        push_repeated(&mut out, "─", widths[i]);
        out.append("─");
        out.append("─");
        proof {
            let w = widths@[i as int] as nat;
            assert(nats(widths@)[i as int] == w);
            assert(repeated("─"@, w + 1) == repeated("─"@, w) + "─"@);
            assert(repeated("─"@, w + 2) == repeated("─"@, w + 1) + "─"@);
            assert(out@ =~= start + repeated("─"@, w + 2));
        }
        if i + 1 < widths.len() {
            out.append(sep);
        } else {
            out.append(right);
        }
        i = i + 1;
    }
    out
}

/// The line of a row.
fn row_text(widths: &Vec<usize>, cells: &Vec<String>) -> (r: String)
    ensures
        r@ == row_line(nats(widths@), texts(cells@)),
{
    let mut out = "│".to_string();
    let mut i: usize = 0;
    while i < cells.len()
        invariant
            i <= cells@.len(),
            out@ == cells_to(nats(widths@), texts(cells@), " "@, " │"@, i as nat),
        decreases cells@.len() - i,
    {
        if i < widths.len() {
            out.append(" ");
            push_centred(&mut out, cells[i].as_str(), widths[i]);
            out.append(" │");
            proof {
                assert(nats(widths@)[i as int] == widths@[i as int]);
                assert(texts(cells@)[i as int] == cells@[i as int]@);
            }
        }
        i = i + 1;
    }
    out
}

/// The line of the header.
fn header_text(widths: &Vec<usize>, cells: &[&str]) -> (r: String)
    ensures
        r@ == header_line(nats(widths@), strs(cells@)),
{
    let mut out = "│".to_string();
    let mut i: usize = 0;
    while i < cells.len()
        invariant
            i <= cells@.len(),
            out@ == cells_to(
                nats(widths@),
                strs(cells@),
                " "@ + CYAN@,
                RESET@ + " │"@,
                i as nat,
            ),
        decreases cells@.len() - i,
    {
        let ghost start = out@;
        if i < widths.len() {
            out.append(" ");
            out.append(CYAN);
            push_centred(&mut out, cells[i], widths[i]);
            out.append(RESET);
            out.append(" │");
            proof {
                let w = widths@[i as int] as nat;
                let cell = cells@[i as int]@;
                assert(nats(widths@)[i as int] == w);
                assert(strs(cells@)[i as int] == cell);
                assert(out@ =~= start + (" "@ + CYAN@) + centred(cell, w) + (RESET@ + " │"@));
            }
        }
        i = i + 1;
    }
    out
}

/// Adds the lines of several rows.
fn push_rows(lines: &mut Vec<String>, widths: &Vec<usize>, rows: &[Vec<String>])
    ensures
        texts(final(lines)@) == texts(old(lines)@) + row_lines(nats(widths@), rows_text(rows@)),
{
    let ghost all = row_lines(nats(widths@), rows_text(rows@));
    let mut i: usize = 0;
    while i < rows.len()
        invariant
            i <= rows@.len(),
            all == row_lines(nats(widths@), rows_text(rows@)),
            texts(lines@) == texts(old(lines)@) + all.take(i as int),
        decreases rows@.len() - i,
    {
        push_line(lines, row_text(widths, &rows[i]));
        proof {
            assert(rows_text(rows@)[i as int] == texts(rows@[i as int]@));
            assert(all.take(i + 1) =~= all.take(i as int).push(all[i as int]));
        }
        i = i + 1;
    }
    proof {
        assert(all.take(i as int) =~= all);
    }
}

/// Adds the line of the title, unless it is empty.
fn push_title(lines: &mut Vec<String>, title: &str)
    ensures
        texts(final(lines)@) == texts(old(lines)@) + title_lines(title@),
{
    if !title.is_empty() {
        push_line(lines, painted_text(YELLOW, title));
    }
}

/// The lines of a bordered table.
///
/// `title` stands above the table, unless it is empty. The columns are as wide
/// as the longest of their header and cells, in bytes, and what they hold is
/// centred; cells beyond the last header are left out.
///
/// ```text
/// ┌───────────┬─────┬──────────┐
/// │ Chain Key │ Ver │ Thoughts │
/// ├───────────┼─────┼──────────┤
/// │ borganism │  1  │   177    │
/// └───────────┴─────┴──────────┘
/// ```
pub fn ascii_table(title: &str, headers: &[&str], rows: &[Vec<String>]) -> (lines: Vec<String>)
    ensures
        texts(lines@) == table_lines(title@, strs(headers@), rows_text(rows@)),
{
    let widths = table_widths(headers, rows);
    let top = border_text(&widths, "┌", "┬", "┐");
    let middle = border_text(&widths, "├", "┼", "┤");
    let bottom = border_text(&widths, "└", "┴", "┘");
    let mut lines: Vec<String> = Vec::new();
    push_title(&mut lines, title);
    push_line(&mut lines, painted_text(DIM, top.as_str()));
    push_line(&mut lines, header_text(&widths, headers));
    push_line(&mut lines, painted_text(DIM, middle.as_str()));
    push_rows(&mut lines, &widths, rows);
    push_line(&mut lines, painted_text(DIM, bottom.as_str()));
    push_line(&mut lines, String::new());
    lines
}

/// The widths of the columns of a grouped table.
fn grouped_widths(headers: &[&str], sections: &[Section]) -> (widths: Vec<usize>)
    ensures
        nats(widths@) == column_widths(strs(headers@), all_rows(sections_text(sections@))),
{
    let mut widths = header_widths(headers);
    let ghost all = sections_text(sections@);
    proof {
        assert(all.take(0) =~= Seq::empty());
    }
    let mut i: usize = 0;
    while i < sections.len()
        invariant
            i <= sections@.len(),
            all == sections_text(sections@),
            nats(widths@) == column_widths(strs(headers@), all_rows(all.take(i as int))),
        decreases sections@.len() - i,
    {
        let rows = &sections[i].rows;
        let ghost before = all_rows(all.take(i as int));
        let ghost here = rows_text(rows@);
        proof {
            assert(before + here.take(0) =~= before);
        }
        let mut j: usize = 0;
        while j < rows.len()
            invariant
                j <= rows@.len(),
                here == rows_text(rows@),
                nats(widths@) == column_widths(strs(headers@), before + here.take(j as int)),
            decreases rows@.len() - j,
        {
            let ghost done = before + here.take(j as int);
            widen(&mut widths, &rows[j], Ghost(strs(headers@)), Ghost(done));
            proof {
                assert(before + here.take(j + 1) =~= done.push(texts(rows@[j as int]@)));
            }
            j = j + 1;
        }
        proof {
            assert(here.take(j as int) =~= here);
            assert(all.take(i + 1).drop_last() =~= all.take(i as int));
            assert(all.take(i + 1).last() == sections@[i as int]@);
        }
        i = i + 1;
    }
    proof {
        assert(all.take(i as int) =~= all);
    }
    widths
}

/// The number of characters between the outer borders of a table, if the table
/// has a column and the number is a machine integer.
fn checked_inner_width(widths: &Vec<usize>) -> (r: Option<usize>)
    ensures
        r == (if widths@.len() > 0 && inner_width(nats(widths@)) <= usize::MAX {
            Some(inner_width(nats(widths@)) as usize)
        } else {
            None
        }),
{
    let n = widths.len();
    if n == 0 {
        return None;
    }
    let mut sum: usize = 2;
    let mut i: usize = 0;
    let ghost all = nats(widths@);
    proof {
        assert(all.take(0) =~= Seq::empty());
    }
    while i < n
        invariant
            i <= n,
            n == widths@.len(),
            all == nats(widths@),
            sum == 2 + width_sum(all.take(i as int)) + 3 * i - (if i == 0 {
                0int
            } else {
                3int
            }),
        decreases n - i,
    {
        let w = widths[i];
        proof {
            assert(all.take(i + 1).drop_last() =~= all.take(i as int));
            assert(all.take(i + 1).last() == w);
            lemma_width_sum_grows(all, i + 1);
            assert(all.take(n as int) =~= all);
        }
        let step: usize = if i == 0 {
            0
        } else {
            3
        };
        match sum.checked_add(w) {
            None => {
                return None;
            },
            Some(partial) => {
                match partial.checked_add(step) {
                    None => {
                        return None;
                    },
                    Some(next) => {
                        sum = next;
                    },
                }
            },
        }
        i = i + 1;
    }
    proof {
        assert(all.take(n as int) =~= all);
    }
    Some(sum)
}

/// The first `k` columns are together no wider than all.
proof fn lemma_width_sum_grows(widths: Seq<nat>, k: int)
    requires
        0 <= k <= widths.len(),
    ensures
        width_sum(widths.take(k)) <= width_sum(widths),
    decreases widths.len() - k,
{
    if k < widths.len() {
        lemma_width_sum_grows(widths, k + 1);
        assert(widths.take(k + 1).drop_last() =~= widths.take(k));
    } else {
        assert(widths.take(k) =~= widths);
    }
}

/// Whether [`ascii_table_grouped`] can show these sections.
pub fn sections_printable(headers: &[&str], sections: &[Section]) -> (r: bool)
    ensures
        r == printable(strs(headers@), sections_text(sections@)),
{
    let widths = grouped_widths(headers, sections);
    let ghost all = sections_text(sections@);
    assert(widths@.len() == headers@.len()) by {
        assert(nats(widths@).len() == column_widths(strs(headers@), all_rows(all)).len());
    }
    checked_inner_width(&widths).is_some()
}

/// The line of a section label.
fn label_text(label: &str, inner: usize) -> (r: String)
    requires
        inner >= 2,
    ensures
        r@ == label_line(label@, inner as int),
{
    let mut out = "│ ".to_string();
    out.append(PINK);
    let whole = if text_bytes(label) > inner {
        cut_text(label, inner - 1).to_string().concat("…")
    } else {
        label.to_string()
    };
    if whole.as_str().unicode_len() <= inner - 2 {
        push_padded(&mut out, whole.as_str(), inner - 2);
    } else if inner < 3 {
        push_padded(&mut out, String::new().as_str(), inner - 2);
    } else {
        let shown = whole.as_str().substring_char(0, inner - 3).to_string().concat("…");
        push_padded(&mut out, shown.as_str(), inner - 2);
    }
    out.append(RESET);
    out.append(" │");
    out
}

/// Adds the lines of one section.
fn push_section(
    lines: &mut Vec<String>,
    widths: &Vec<usize>,
    inner: usize,
    middle: &str,
    section: &Section,
)
    requires
        widths@.len() > 0,
        inner == inner_width(nats(widths@)),
        middle@ == middle_border(nats(widths@)),
    ensures
        texts(final(lines)@) == texts(old(lines)@) + section_lines(nats(widths@), section@),
{
    let mut around = "├".to_string();
    push_repeated(&mut around, "─", inner);
    around.append("┤");
    push_line(lines, painted_text(DIM, middle));
    push_line(lines, painted_text(DIM, around.as_str()));
    push_line(lines, label_text(section.label.as_str(), inner));
    push_line(lines, painted_text(DIM, around.as_str()));
    push_rows(lines, widths, section.rows.as_slice());
    proof {
        assert(texts(lines@) =~= texts(old(lines)@) + section_lines(nats(widths@), section@));
    }
}

/// The lines of a bordered table whose rows are grouped under labels that span
/// all columns.
pub fn ascii_table_grouped(title: &str, headers: &[&str], sections: &[Section]) -> (lines: Vec<
    String,
>)
    requires
        printable(strs(headers@), sections_text(sections@)),
    ensures
        texts(lines@) == grouped_lines(title@, strs(headers@), sections_text(sections@)),
{
    let widths = grouped_widths(headers, sections);
    let ghost all = sections_text(sections@);
    assert(widths@.len() == headers@.len()) by {
        assert(nats(widths@).len() == column_widths(strs(headers@), all_rows(all)).len());
    }
    let top = border_text(&widths, "┌", "┬", "┐");
    let middle = border_text(&widths, "├", "┼", "┤");
    let bottom = border_text(&widths, "└", "┴", "┘");
    let mut lines: Vec<String> = Vec::new();
    push_title(&mut lines, title);
    push_line(&mut lines, painted_text(DIM, top.as_str()));
    push_line(&mut lines, header_text(&widths, headers));
    let ghost start = texts(lines@);
    if let Some(inner) = checked_inner_width(&widths) {
        proof {
            assert(all.take(0) =~= Seq::empty());
            assert(start + sections_lines(nats(widths@), all.take(0)) =~= start);
        }
        let mut i: usize = 0;
        while i < sections.len()
            invariant
                i <= sections@.len(),
                all == sections_text(sections@),
                widths@.len() > 0,
                inner == inner_width(nats(widths@)),
                middle@ == middle_border(nats(widths@)),
                texts(lines@) == start + sections_lines(nats(widths@), all.take(i as int)),
            decreases sections@.len() - i,
        {
            push_section(&mut lines, &widths, inner, middle.as_str(), &sections[i]);
            proof {
                assert(all.take(i + 1).drop_last() =~= all.take(i as int));
                assert(all.take(i + 1).last() == sections@[i as int]@);
                assert(texts(lines@) =~= start + sections_lines(nats(widths@), all.take(i + 1)));
            }
            i = i + 1;
        }
        proof {
            assert(all.take(i as int) =~= all);
        }
    }
    push_line(&mut lines, painted_text(DIM, bottom.as_str()));
    push_line(&mut lines, String::new());
    proof {
        assert(texts(lines@) =~= grouped_lines(title@, strs(headers@), all));
    }
    lines
}

/// The length of the first `k` columns of a border.
proof fn lemma_border_len(
    widths: Seq<nat>,
    left: Seq<char>,
    sep: Seq<char>,
    right: Seq<char>,
    k: nat,
)
    requires
        left.len() == 1,
        sep.len() == 1,
        right.len() == 1,
        k <= widths.len(),
    ensures
        border_to(widths, left, sep, right, k).len() == 1 + width_sum(widths.take(k as int)) + 3
            * k,
    decreases k,
{
    reveal_strlit("─");
    if k > 0 {
        lemma_border_len(widths, left, sep, right, (k - 1) as nat);
        lemma_repeated_len("─"@, widths[k - 1] + 2);
        assert(widths.take(k as int).drop_last() =~= widths.take(k - 1));
    }
}

/// The length of the first `k` cells of a line whose cells fit.
proof fn lemma_cells_len(
    widths: Seq<nat>,
    cells: Seq<Seq<char>>,
    before: Seq<char>,
    after: Seq<char>,
    k: nat,
)
    requires
        k <= widths.len(),
        k <= cells.len(),
        forall|i: int| 0 <= i < k ==> (#[trigger] cells[i]).len() <= widths[i],
    ensures
        cells_to(widths, cells, before, after, k).len() == 1 + width_sum(widths.take(k as int))
            + (before.len() + after.len()) * k,
    decreases k,
{
    reveal_strlit("│");
    if k > 0 {
        lemma_cells_len(widths, cells, before, after, (k - 1) as nat);
        lemma_centred_len(cells[k - 1], widths[k - 1]);
        assert(widths.take(k as int).drop_last() =~= widths.take(k - 1));
        assert((before.len() + after.len()) * k == (before.len() + after.len()) * (k - 1) + (
        before.len() + after.len())) by (nonlinear_arith)
            requires
                k > 0,
        ;
    } else {
        assert((before.len() + after.len()) * k == 0) by (nonlinear_arith)
            requires
                k == 0,
        ;
    }
}

/// A column is at least as wide as its header and as each of its cells.
pub proof fn law_columns_hold_their_cells(
    headers: Seq<Seq<char>>,
    rows: Seq<Seq<Seq<char>>>,
    i: int,
    r: int,
)
    requires
        0 <= i < headers.len(),
    ensures
        byte_len(headers[i]) <= column_widths(headers, rows)[i],
        0 <= r < rows.len() && i < rows[r].len() ==> byte_len(rows[r][i]) <= column_widths(
            headers,
            rows,
        )[i],
    decreases rows.len(),
{
    if rows.len() > 0 {
        let before = rows.drop_last();
        law_columns_hold_their_cells(headers, before, i, r);
        if 0 <= r < before.len() {
            assert(before[r] == rows[r]);
        }
    }
}

/// The right border of a table is straight: the line of every row that has a
/// cell for each column is exactly as long as the borders above, between and
/// below, whatever its cells hold, and so is the header line apart from its
/// colours.
pub proof fn law_table_is_rectangular(
    headers: Seq<Seq<char>>,
    rows: Seq<Seq<Seq<char>>>,
    r: int,
)
    requires
        0 <= r < rows.len() ==> rows[r].len() == headers.len(),
    ensures
        ({
            let widths = column_widths(headers, rows);
            let length = top_border(widths).len();
            &&& middle_border(widths).len() == length
            &&& bottom_border(widths).len() == length
            &&& header_line(widths, headers).len() == length + headers.len() * (CYAN@.len()
                + RESET@.len())
            &&& 0 <= r < rows.len() ==> row_line(widths, rows[r]).len() == length
        }),
{
    let widths = column_widths(headers, rows);
    let n = headers.len();
    reveal_strlit("┌");
    reveal_strlit("┬");
    reveal_strlit("┐");
    reveal_strlit("├");
    reveal_strlit("┼");
    reveal_strlit("┤");
    reveal_strlit("└");
    reveal_strlit("┴");
    reveal_strlit("┘");
    reveal_strlit(" ");
    reveal_strlit(" │");
    lemma_border_len(widths, "┌"@, "┬"@, "┐"@, n);
    lemma_border_len(widths, "├"@, "┼"@, "┤"@, n);
    lemma_border_len(widths, "└"@, "┴"@, "┘"@, n);
    assert forall|i: int| 0 <= i < n implies (#[trigger] headers[i]).len() <= widths[i] by {
        law_columns_hold_their_cells(headers, rows, i, r);
        lemma_byte_len_covers(headers[i]);
    }
    let before = " "@ + CYAN@;
    let after = RESET@ + " │"@;
    lemma_cells_len(widths, headers, before, after, n);
    assert((before.len() + after.len()) * n == 3 * n + n * (CYAN@.len() + RESET@.len()))
        by (nonlinear_arith)
        requires
            before.len() + after.len() == 3 + CYAN@.len() + RESET@.len(),
    ;
    if 0 <= r < rows.len() {
        let cells = rows[r];
        assert forall|i: int| 0 <= i < n implies (#[trigger] cells[i]).len() <= widths[i] by {
            law_columns_hold_their_cells(headers, rows, i, r);
            lemma_byte_len_covers(cells[i]);
        }
        lemma_cells_len(widths, cells, " "@, " │"@, n);
    }
}

/// In a grouped table the borders around a section label are as long as the
/// other borders, and so is the line of the label, however long the label is, apart
/// from its colours.
pub proof fn law_sections_span_the_table(
    headers: Seq<Seq<char>>,
    rows: Seq<Seq<Seq<char>>>,
    label: Seq<char>,
)
    requires
        headers.len() > 0,
    ensures
        ({
            let widths = column_widths(headers, rows);
            let inner = inner_width(widths);
            let length = top_border(widths).len();
            &&& section_border(inner).len() == length
            &&& label_line(label, inner).len() == length + PINK@.len() + RESET@.len()
        }),
{
    let widths = column_widths(headers, rows);
    let inner = inner_width(widths);
    reveal_strlit("┌");
    reveal_strlit("┬");
    reveal_strlit("┐");
    reveal_strlit("├");
    reveal_strlit("┤");
    reveal_strlit("─");
    reveal_strlit("│ ");
    reveal_strlit(" │");
    lemma_border_len(widths, "┌"@, "┬"@, "┐"@, widths.len());
    assert(widths.take(widths.len() as int) =~= widths);
    lemma_repeated_len("─"@, inner as nat);
    reveal_strlit("…");
    lemma_pad_right_len(shown_label(label, inner), (inner - 2) as nat);
}

/// No column is wider than it has to be: it is just as wide as its header or as one of
/// its cells.
pub proof fn law_columns_are_no_wider_than_needed(
    headers: Seq<Seq<char>>,
    rows: Seq<Seq<Seq<char>>>,
    i: int,
)
    requires
        0 <= i < headers.len(),
    ensures
        column_widths(headers, rows).len() == headers.len(),
        column_widths(headers, rows)[i] == byte_len(headers[i]) || exists|r: int|
            0 <= r < rows.len() && i < (#[trigger] rows[r]).len() && byte_len(rows[r][i])
                == column_widths(headers, rows)[i],
    decreases rows.len(),
{
    if rows.len() > 0 {
        let before = rows.drop_last();
        law_columns_are_no_wider_than_needed(headers, before, i);
        let last = rows.len() - 1;
        assert(rows[last] == rows.last());
        if column_widths(headers, before)[i] != byte_len(headers[i]) {
            let r = choose|r: int|
                0 <= r < before.len() && i < (#[trigger] before[r]).len() && byte_len(before[r][i])
                    == column_widths(headers, before)[i];
            assert(rows[r] == before[r]);
        }
    }
}

/// The first `k` cells of a line are the beginning of the line.
proof fn lemma_cells_prefix(
    widths: Seq<nat>,
    cells: Seq<Seq<char>>,
    before: Seq<char>,
    after: Seq<char>,
    k: nat,
    n: nat,
)
    requires
        k <= n,
    ensures
        ({
            let part = cells_to(widths, cells, before, after, k);
            let line = cells_to(widths, cells, before, after, n);
            part.len() <= line.len() && part == line.take(part.len() as int)
        }),
    decreases n - k,
{
    let part = cells_to(widths, cells, before, after, k);
    let line = cells_to(widths, cells, before, after, n);
    if k < n {
        lemma_cells_prefix(widths, cells, before, after, k + 1, n);
        let more = cells_to(widths, cells, before, after, k + 1);
        assert(part =~= more.take(part.len() as int));
        assert(part =~= line.take(part.len() as int));
    } else {
        assert(part =~= line.take(part.len() as int));
    }
}

/// Where cell `i` of a line begins, if `around` characters stand round each cell.
pub open spec fn cell_start(widths: Seq<nat>, around: nat, i: int) -> int {
    1 + width_sum(widths.take(i)) + around * i
}

/// A cell of a line stands where it belongs.
proof fn lemma_cell_at(
    widths: Seq<nat>,
    cells: Seq<Seq<char>>,
    before: Seq<char>,
    after: Seq<char>,
    n: nat,
    i: int,
)
    requires
        0 <= i < n,
        i < widths.len(),
        n <= cells.len(),
        forall|j: int| 0 <= j < widths.len() && j < n ==> (#[trigger] cells[j]).len() <= widths[j],
    ensures
        ({
            let line = cells_to(widths, cells, before, after, n);
            let start = cell_start(widths, (before.len() + after.len()) as nat, i);
            let from = start + before.len();
            let to = from + widths[i];
            &&& 0 <= start <= from <= to <= to + after.len() <= line.len()
            &&& line.subrange(start, from) == before
            &&& line.subrange(from, to) == centred(cells[i], widths[i])
            &&& line.subrange(to, to + after.len()) == after
        }),
{
    let line = cells_to(widths, cells, before, after, n);
    let left = cells_to(widths, cells, before, after, i as nat);
    let cell = centred(cells[i], widths[i]);
    lemma_cells_len(widths, cells, before, after, i as nat);
    lemma_centred_len(cells[i], widths[i]);
    lemma_cells_prefix(widths, cells, before, after, (i + 1) as nat, n);
    let part = left + before + cell + after;
    assert(part == cells_to(widths, cells, before, after, (i + 1) as nat));
    let start = left.len() as int;
    let from = start + before.len();
    let to = from + widths[i];
    assert(part == line.take(part.len() as int));
    assert(part.subrange(start, from) =~= before);
    assert(part.subrange(from, to) =~= cell);
    assert(part.subrange(to, to + after.len()) =~= after);
    assert(line.subrange(start, from) =~= part.subrange(start, from));
    assert(line.subrange(from, to) =~= part.subrange(from, to));
    assert(line.subrange(to, to + after.len()) =~= part.subrange(to, to + after.len()));
}

/// The cells of a row fit their columns.
proof fn lemma_cells_fit(headers: Seq<Seq<char>>, rows: Seq<Seq<Seq<char>>>, r: int)
    requires
        0 <= r < rows.len(),
    ensures
        forall|j: int|
            0 <= j < headers.len() && j < rows[r].len() ==> (#[trigger] rows[r][j]).len()
                <= column_widths(headers, rows)[j],
{
    assert forall|j: int| 0 <= j < headers.len() && j < rows[r].len() implies (
    #[trigger] rows[r][j]).len() <= column_widths(headers, rows)[j] by {
        law_columns_hold_their_cells(headers, rows, j, r);
        lemma_byte_len_covers(rows[r][j]);
    }
}

/// Whether a line shows a cell in column `i`, between spaces and before the border of
/// the column, after the borders and cells of the columns before it.
pub open spec fn shows_cell(line: Seq<char>, widths: Seq<nat>, i: int, cell: Seq<char>) -> bool {
    let start = cell_start(widths, 3, i);
    let end = start + 1 + widths[i];
    &&& 0 <= start
    &&& end + 2 <= line.len()
    &&& line[start] == ' '
    &&& line.subrange(start + 1, end) == centred(cell, widths[i])
    &&& line[end] == ' '
    &&& line[end + 1] == '│'
}

/// The line of a row shows every cell for which there is a column, in its column, and
/// begins with the border.
proof fn lemma_row_shows_cell(
    headers: Seq<Seq<char>>,
    rows: Seq<Seq<Seq<char>>>,
    r: int,
    i: int,
)
    requires
        0 <= r < rows.len(),
        0 <= i < headers.len(),
        i < rows[r].len(),
    ensures
        ({
            let widths = column_widths(headers, rows);
            let line = row_line(widths, rows[r]);
            line[0] == '│' && shows_cell(line, widths, i, rows[r][i])
        }),
{
    let widths = column_widths(headers, rows);
    let cells = rows[r];
    reveal_strlit(" ");
    reveal_strlit(" │");
    reveal_strlit("│");
    lemma_cells_fit(headers, rows, r);
    lemma_cell_at(widths, cells, " "@, " │"@, cells.len(), i);
    lemma_cells_prefix(widths, cells, " "@, " │"@, 0, cells.len());
    let line = row_line(widths, cells);
    assert("│"@ == line.take(1));
    assert("│"@[0] == line.take(1)[0]);
    let start = cell_start(widths, 3, i);
    let end = start + 1 + widths[i];
    assert(line.subrange(start, start + 1)[0] == " "@[0]);
    assert(line.subrange(end, end + 2)[0] == " │"@[0]);
    assert(line.subrange(end, end + 2)[1] == " │"@[1]);
}

/// The number of lines before the top border of a table.
pub open spec fn title_count(title: Seq<char>) -> int {
    if title.len() == 0 {
        0
    } else {
        1
    }
}

/// A table has a line for each of its rows, in their order, between the header and the
/// bottom border, and each of these lines shows every cell of its row.
pub proof fn law_table_shows_every_cell(
    title: Seq<char>,
    headers: Seq<Seq<char>>,
    rows: Seq<Seq<Seq<char>>>,
    r: int,
    i: int,
)
    requires
        0 <= r < rows.len(),
        0 <= i < headers.len(),
        i < rows[r].len(),
    ensures
        ({
            let lines = table_lines(title, headers, rows);
            let widths = column_widths(headers, rows);
            &&& lines.len() == title_count(title) + rows.len() + 5
            &&& lines[title_count(title) + 3 + r][0] == '│'
            &&& shows_cell(lines[title_count(title) + 3 + r], widths, i, rows[r][i])
        }),
{
    let lines = table_lines(title, headers, rows);
    let widths = column_widths(headers, rows);
    assert(row_lines(widths, rows)[r] == row_line(widths, rows[r]));
    assert(lines[title_count(title) + 3 + r] == row_line(widths, rows[r]));
    lemma_row_shows_cell(headers, rows, r, i);
}

/// Around its rows a table has a title in yellow, unless it is empty, a border, the
/// header, another border, and behind the rows a border and an empty line. The header
/// shows every column's header in its column, in colour.
pub proof fn law_table_has_its_frame(
    title: Seq<char>,
    headers: Seq<Seq<char>>,
    rows: Seq<Seq<Seq<char>>>,
    i: int,
)
    requires
        0 <= i < headers.len(),
    ensures
        ({
            let lines = table_lines(title, headers, rows);
            let widths = column_widths(headers, rows);
            let t = title_count(title);
            let start = cell_start(widths, (3 + CYAN@.len() + RESET@.len()) as nat, i);
            let from = start + 1 + CYAN@.len();
            let to = from + widths[i];
            &&& lines.len() == t + rows.len() + 5
            &&& title.len() > 0 ==> lines[0] == YELLOW@ + title + RESET@
            &&& lines[t] == DIM@ + top_border(widths) + RESET@
            &&& lines[t + 1].subrange(start + 1, from) == CYAN@
            &&& lines[t + 1].subrange(from, to) == centred(headers[i], widths[i])
            &&& lines[t + 1].subrange(to, to + RESET@.len()) == RESET@
            &&& lines[t + 2] == DIM@ + middle_border(widths) + RESET@
            &&& lines[t + 3 + rows.len()] == DIM@ + bottom_border(widths) + RESET@
            &&& lines[t + 4 + rows.len()].len() == 0
        }),
{
    let lines = table_lines(title, headers, rows);
    let widths = column_widths(headers, rows);
    lemma_header_shows_cell(headers, rows, i);
    assert(lines[title_count(title) + 1] == header_line(widths, headers));
}

/// The header shows every column's header in its column, in colour.
proof fn lemma_header_shows_cell(headers: Seq<Seq<char>>, rows: Seq<Seq<Seq<char>>>, i: int)
    requires
        0 <= i < headers.len(),
    ensures
        ({
            let widths = column_widths(headers, rows);
            let line = header_line(widths, headers);
            let start = cell_start(widths, (3 + CYAN@.len() + RESET@.len()) as nat, i);
            let from = start + 1 + CYAN@.len();
            let to = from + widths[i];
            &&& line.subrange(start + 1, from) == CYAN@
            &&& line.subrange(from, to) == centred(headers[i], widths[i])
            &&& line.subrange(to, to + RESET@.len()) == RESET@
        }),
{
    let widths = column_widths(headers, rows);
    reveal_strlit(" ");
    reveal_strlit(" │");
    assert forall|j: int| 0 <= j < headers.len() implies (#[trigger] headers[j]).len()
        <= widths[j] by {
        law_columns_hold_their_cells(headers, rows, j, -1);
        lemma_byte_len_covers(headers[j]);
    }
    let before = " "@ + CYAN@;
    let after = RESET@ + " │"@;
    lemma_cell_at(widths, headers, before, after, headers.len(), i);
    let line = header_line(widths, headers);
    let start = cell_start(widths, (before.len() + after.len()) as nat, i);
    let from = start + 1 + CYAN@.len();
    let to = from + widths[i];
    assert(line.subrange(start + 1, from) =~= line.subrange(start, from).skip(1));
    assert(before.skip(1) =~= CYAN@);
    assert(line.subrange(to, to + RESET@.len()) =~= line.subrange(to, to + after.len()).take(
        RESET@.len() as int,
    ));
    assert(after.take(RESET@.len() as int) =~= RESET@);
}

/// The number of lines of the first `s` sections: four around the label of each, and
/// one for each of its rows.
pub open spec fn lines_before(sections: Seq<SectionText>, s: int) -> int
    decreases s,
{
    if s <= 0 {
        0
    } else {
        lines_before(sections, s - 1) + 4 + sections[s - 1].rows.len()
    }
}

proof fn lemma_lines_before(a: Seq<SectionText>, b: Seq<SectionText>, s: int)
    requires
        s <= a.len(),
        s <= b.len(),
        forall|j: int| 0 <= j < s ==> a[j] == b[j],
    ensures
        lines_before(a, s) == lines_before(b, s),
        0 <= lines_before(a, s),
    decreases s,
{
    if s > 0 {
        lemma_lines_before(a, b, s - 1);
    }
}

/// The lines of a section stand behind those of the sections before it.
proof fn lemma_section_at(widths: Seq<nat>, sections: Seq<SectionText>, s: int)
    requires
        0 <= s < sections.len(),
    ensures
        ({
            let lines = sections_lines(widths, sections);
            let start = lines_before(sections, s);
            let count = 4 + sections[s].rows.len();
            &&& 0 <= start
            &&& start + count <= lines.len()
            &&& lines.subrange(start, start + count) == section_lines(widths, sections[s])
            &&& lines.len() == lines_before(sections, sections.len() as int)
        }),
    decreases sections.len(),
{
    let shorter = sections.drop_last();
    let n = sections.len() - 1;
    let lines = sections_lines(widths, sections);
    let left = sections_lines(widths, shorter);
    lemma_lines_before(shorter, sections, n);
    lemma_lines_before(shorter, sections, s);
    if n == 0 {
        assert(left.len() == 0);
    } else {
        lemma_section_at(widths, shorter, 0);
    }
    let start = lines_before(sections, s);
    let count = 4 + sections[s].rows.len();
    if s < n {
        lemma_section_at(widths, shorter, s);
        assert(lines.subrange(start, start + count) =~= left.subrange(start, start + count));
    } else {
        assert(sections[s] == sections.last());
        assert(lines.subrange(start, start + count) =~= section_lines(widths, sections[s]));
    }
}

/// The rows of a section are among all rows.
proof fn lemma_row_among_all(sections: Seq<SectionText>, s: int, r: int) -> (k: int)
    requires
        0 <= s < sections.len(),
        0 <= r < sections[s].rows.len(),
    ensures
        0 <= k < all_rows(sections).len(),
        all_rows(sections)[k] == sections[s].rows[r],
    decreases sections.len(),
{
    let shorter = sections.drop_last();
    if s < shorter.len() {
        assert(shorter[s] == sections[s]);
        lemma_row_among_all(shorter, s, r)
    } else {
        all_rows(shorter).len() + r
    }
}

/// A grouped table has under the label of each section a line for each row of the
/// section, in their order, and each of these lines shows every cell of its row. The
/// label stands between borders, behind the sections before it.
pub proof fn law_grouped_table_shows_every_row(
    title: Seq<char>,
    headers: Seq<Seq<char>>,
    sections: Seq<SectionText>,
    s: int,
    r: int,
    i: int,
)
    requires
        0 <= s < sections.len(),
    ensures
        ({
            let lines = grouped_lines(title, headers, sections);
            let widths = column_widths(headers, all_rows(sections));
            let inner = inner_width(widths);
            let rows = sections[s].rows;
            let k = title_count(title) + 2 + lines_before(sections, s) + 2;
            &&& lines.len() == title_count(title) + 2 + lines_before(
                sections,
                sections.len() as int,
            ) + 2
            &&& lines[k - 2] == DIM@ + middle_border(widths) + RESET@
            &&& lines[k - 1] == DIM@ + section_border(inner) + RESET@
            &&& lines[k] == label_line(sections[s].label, inner)
            &&& lines[k + 1] == DIM@ + section_border(inner) + RESET@
            &&& 0 <= r < rows.len() ==> k + 2 + r < lines.len()
            &&& 0 <= r < rows.len() && 0 <= i < headers.len() && i < rows[r].len()
                ==> lines[k + 2 + r][0] == '│' && shows_cell(
                lines[k + 2 + r],
                widths,
                i,
                rows[r][i],
            )
        }),
{
    let lines = grouped_lines(title, headers, sections);
    let rows_of_all = all_rows(sections);
    let widths = column_widths(headers, rows_of_all);
    let body = sections_lines(widths, sections);
    let section = section_lines(widths, sections[s]);
    let start = lines_before(sections, s);
    let first = title_count(title) + 2;
    lemma_section_at(widths, sections, s);
    assert forall|j: int| 0 <= j < section.len() implies lines[first + start + j]
        == #[trigger] section[j] by {
        assert(body.subrange(start, start + section.len())[j] == section[j]);
        assert(lines[first + start + j] == body[start + j]);
    }
    assert(section[0] == painted(DIM@, middle_border(widths)));
    assert(section[1] == painted(DIM@, section_border(inner_width(widths))));
    assert(section[2] == label_line(sections[s].label, inner_width(widths)));
    assert(section[3] == painted(DIM@, section_border(inner_width(widths))));
    let rows = sections[s].rows;
    if 0 <= r < rows.len() {
        assert(section[4 + r] == row_line(widths, rows[r]));
        if 0 <= i < headers.len() && i < rows[r].len() {
            let k = lemma_row_among_all(sections, s, r);
            lemma_row_shows_cell(headers, rows_of_all, k, i);
        }
    }
}

/// Above its sections a grouped table has a title in yellow, unless it is empty, a
/// border and the header, which shows every column's header in its column, in colour;
/// below them a border and an empty line.
pub proof fn law_grouped_table_has_its_frame(
    title: Seq<char>,
    headers: Seq<Seq<char>>,
    sections: Seq<SectionText>,
    i: int,
)
    requires
        0 <= i < headers.len(),
    ensures
        ({
            let lines = grouped_lines(title, headers, sections);
            let widths = column_widths(headers, all_rows(sections));
            let t = title_count(title);
            let start = cell_start(widths, (3 + CYAN@.len() + RESET@.len()) as nat, i);
            let from = start + 1 + CYAN@.len();
            let to = from + widths[i];
            &&& lines.len() >= t + 4
            &&& title.len() > 0 ==> lines[0] == YELLOW@ + title + RESET@
            &&& lines[t] == DIM@ + top_border(widths) + RESET@
            &&& lines[t + 1].subrange(start + 1, from) == CYAN@
            &&& lines[t + 1].subrange(from, to) == centred(headers[i], widths[i])
            &&& lines[t + 1].subrange(to, to + RESET@.len()) == RESET@
            &&& lines[lines.len() - 2] == DIM@ + bottom_border(widths) + RESET@
            &&& lines[lines.len() - 1].len() == 0
        }),
{
    let lines = grouped_lines(title, headers, sections);
    let widths = column_widths(headers, all_rows(sections));
    lemma_header_shows_cell(headers, all_rows(sections), i);
    assert(lines[title_count(title) + 1] == header_line(widths, headers));
}

/// The first `k` columns of a border are the beginning of the border.
proof fn lemma_border_prefix(
    widths: Seq<nat>,
    left: Seq<char>,
    sep: Seq<char>,
    right: Seq<char>,
    k: nat,
    n: nat,
)
    requires
        k <= n,
    ensures
        ({
            let part = border_to(widths, left, sep, right, k);
            let whole = border_to(widths, left, sep, right, n);
            part.len() <= whole.len() && part == whole.take(part.len() as int)
        }),
    decreases n - k,
{
    let part = border_to(widths, left, sep, right, k);
    let whole = border_to(widths, left, sep, right, n);
    if k < n {
        lemma_border_prefix(widths, left, sep, right, k + 1, n);
        let more = border_to(widths, left, sep, right, k + 1);
        assert(part =~= more.take(part.len() as int));
    }
    assert(part =~= whole.take(part.len() as int));
}

/// Whether a text is a border with the given corners and crossings, as far as column
/// `i` goes: a line over the column and the spaces on either side of it, then the
/// crossing, or the corner behind the last column.
pub open spec fn frames_column(
    text: Seq<char>,
    widths: Seq<nat>,
    left: char,
    sep: char,
    right: char,
    i: int,
) -> bool {
    let start = cell_start(widths, 3, i);
    &&& text.len() == 1 + width_sum(widths) + 3 * widths.len()
    &&& text[0] == left
    &&& forall|j: int| start <= j < start + widths[i] + 2 ==> #[trigger] text[j] == '─'
    &&& text[start + widths[i] + 2] == (if i + 1 < widths.len() {
        sep
    } else {
        right
    })
}

proof fn lemma_border_chars(
    widths: Seq<nat>,
    left: Seq<char>,
    sep: Seq<char>,
    right: Seq<char>,
    i: int,
)
    requires
        left.len() == 1,
        sep.len() == 1,
        right.len() == 1,
        0 <= i < widths.len(),
    ensures
        frames_column(border(widths, left, sep, right), widths, left[0], sep[0], right[0], i),
{
    let n = widths.len();
    let whole = border(widths, left, sep, right);
    let before = border_to(widths, left, sep, right, i as nat);
    let part = border_to(widths, left, sep, right, (i + 1) as nat);
    reveal_strlit("─");
    assert("─"@ =~= seq!['─']);
    crate::text::law_repetition('─', widths[i] + 2);
    lemma_border_len(widths, left, sep, right, n);
    lemma_border_len(widths, left, sep, right, i as nat);
    lemma_border_prefix(widths, left, sep, right, (i + 1) as nat, n);
    lemma_border_prefix(widths, left, sep, right, 0, n);
    assert(widths.take(n as int) =~= widths);
    let start = before.len() as int;
    assert(whole.take(1)[0] == left[0]);
    assert forall|j: int| start <= j < start + widths[i] + 2 implies #[trigger] whole[j]
        == '─' by {
        assert(part[j] == whole.take(part.len() as int)[j]);
    }
    assert(part[start + widths[i] + 2] == whole.take(part.len() as int)[start + widths[i] + 2]);
}

/// The borders of a table are unbroken lines with a crossing at each border between two
/// columns and corners at both ends; the border around a section label has no crossings.
pub proof fn law_borders(widths: Seq<nat>, i: int)
    requires
        0 <= i < widths.len(),
    ensures
        frames_column(top_border(widths), widths, '┌', '┬', '┐', i),
        frames_column(middle_border(widths), widths, '├', '┼', '┤', i),
        frames_column(bottom_border(widths), widths, '└', '┴', '┘', i),
        section_border(inner_width(widths)) == seq!['├'] + Seq::new(
            inner_width(widths) as nat,
            |j: int| '─',
        ) + seq!['┤'],
{
    reveal_strlit("┌");
    reveal_strlit("┬");
    reveal_strlit("┐");
    reveal_strlit("├");
    reveal_strlit("┼");
    reveal_strlit("┤");
    reveal_strlit("└");
    reveal_strlit("┴");
    reveal_strlit("┘");
    reveal_strlit("─");
    assert("─"@ =~= seq!['─']);
    lemma_border_chars(widths, "┌"@, "┬"@, "┐"@, i);
    lemma_border_chars(widths, "├"@, "┼"@, "┤"@, i);
    lemma_border_chars(widths, "└"@, "┴"@, "┘"@, i);
    crate::text::law_repetition('─', inner_width(widths) as nat);
    assert("├"@ =~= seq!['├']);
    assert("┤"@ =~= seq!['┤']);
}

/// The line of a section shows the label, if it takes no more bytes than the table is
/// wide and fits the room; of any other label it shows the beginning and an ellipsis, as
/// far as there is room.
pub proof fn law_label_line_shows_the_label(label: Seq<char>, inner: int)
    requires
        inner >= 3,
    ensures
        ({
            let line = label_line(label, inner);
            let shown = shown_label(label, inner);
            let from = 2 + PINK@.len() as int;
            &&& line.take(2) == seq!['│', ' ']
            &&& line.subrange(2, from) == PINK@
            &&& line.subrange(from, from + shown.len()) == shown
            &&& forall|j: int|
                from + shown.len() <= j < from + inner - 2 ==> #[trigger] line[j] == ' '
            &&& line.skip(from + inner - 2) == RESET@ + seq![' ', '│']
            &&& shown.len() <= inner - 2
            &&& byte_len(label) <= inner && label.len() <= inner - 2 ==> shown == label
            &&& byte_len(label) <= inner && label.len() > inner - 2 ==> shown.len() == inner - 2
            &&& byte_len(label) > inner || label.len() > inner - 2 ==> {
                &&& shown.len() > 0
                &&& shown.last() == '…'
                &&& shown.len() - 1 <= label.len()
                &&& shown.drop_last() == label.take(shown.len() - 1)
            }
        }),
{
    reveal_strlit("│ ");
    reveal_strlit(" │");
    reveal_strlit("…");
    let line = label_line(label, inner);
    let shown = shown_label(label, inner);
    let whole = table_label(label, inner);
    let room = (inner - 2) as nat;
    let from = 2 + PINK@.len() as int;
    crate::text::law_padding_adds_spaces_behind(shown, room);
    lemma_pad_right_len(shown, room);
    let padded = pad_right(shown, room);
    assert(line.take(2) =~= seq!['│', ' ']);
    assert(line.subrange(2, from) =~= PINK@);
    assert(line.subrange(from, from + shown.len()) =~= padded.take(shown.len() as int));
    assert forall|j: int| from + shown.len() <= j < from + inner - 2 implies #[trigger] line[j]
        == ' ' by {
        assert(line[j] == padded[j - from]);
    }
    assert(line.skip(from + inner - 2) =~= RESET@ + seq![' ', '│']);
    if byte_len(label) > inner {
        let cut = cut_point(label, inner - 1);
        crate::text::law_cut_point(label, inner - 1);
        crate::text::law_byte_prefix(label, cut);
        let head = byte_prefix(label, cut);
        assert(whole.drop_last() =~= head);
        assert(whole.len() == head.len() + 1);
        if whole.len() <= inner - 2 {
            assert(shown.drop_last() =~= label.take(shown.len() - 1));
        } else {
            assert(shown.drop_last() =~= whole.take(inner - 3));
            assert(whole.take(inner - 3) =~= head.take(inner - 3));
            assert(head.take(inner - 3) =~= label.take(inner - 3));
        }
    } else if label.len() > inner - 2 {
        assert(shown.drop_last() =~= label.take(shown.len() - 1));
    }
}

} // verus!
