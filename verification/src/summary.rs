//! Summaries of what is registered: chains, agents and skills.

use crate::agents::{live_count, thought_count};
use crate::listing::{facts, ThoughtEntry, ThoughtFacts};
use crate::paint::{painted, painted_text, RESET, YELLOW};
use crate::table::{
    all_rows, ascii_table, ascii_table_grouped, column_widths, grouped_lines, inner_width,
    label_line, law_grouped_table_has_its_frame, law_grouped_table_shows_every_row,
    law_table_has_its_frame, law_table_shows_every_cell, lines_before, printable, rows_text,
    sections_text, shows_cell, table_lines, Section, SectionText,
};
use crate::text::{
    byte_len, byte_prefix, decimal, decimal_text, joined, joined_text, opt_text, prefix_text,
    push_line, strs, text_bytes, texts, trimmed, trimmed_text,
};
use vstd::prelude::*;
use vstd::string::*;
use vstd::utf8::*;

verus! {

/// A title, a remark that stands in place of a table, and a blank line.
pub open spec fn remark_lines(title: Seq<char>, remark: Seq<char>) -> Seq<Seq<char>> {
    seq![painted(YELLOW@, title), "  "@ + remark, Seq::empty()]
}

/// A title, a remark that stands in place of a table, and a blank line.
fn remark_text(title: &str, remark: &str) -> (lines: Vec<String>)
    ensures
        texts(lines@) == remark_lines(title@, remark@),
{
    let mut lines: Vec<String> = Vec::new();
    push_line(&mut lines, painted_text(YELLOW, title));
    push_line(&mut lines, "  ".to_string().concat(remark));
    push_line(&mut lines, String::new());
    assert(texts(lines@) =~= remark_lines(title@, remark@));
    lines
}

/// A registered chain.
pub struct ChainEntry {
    pub chain_key: String,
    pub version: u64,
    pub storage_adapter: String,
    pub thought_count: u64,
    pub agent_count: u64,
    pub storage_location: String,
}

/// The headers of the chain summary.
pub open spec fn chain_headers() -> Seq<Seq<char>> {
    seq!["Chain Key"@, "Ver"@, "Adapter"@, "Thoughts"@, "Agents"@, "Storage Location"@]
}

/// The cells of a chain.
pub open spec fn chain_cells(entry: ChainEntry) -> Seq<Seq<char>> {
    seq![
        entry.chain_key@,
        decimal(entry.version as nat),
        entry.storage_adapter@,
        decimal(entry.thought_count as nat),
        decimal(entry.agent_count as nat),
        entry.storage_location@,
    ]
}

/// The lines of the chain summary.
pub open spec fn chain_summary_lines(entries: Seq<ChainEntry>) -> Seq<Seq<char>> {
    if entries.len() == 0 {
        remark_lines("Chain Summary"@, "No registered chains."@)
    } else {
        table_lines(
            "Chain Summary"@,
            chain_headers(),
            entries.map_values(|entry: ChainEntry| chain_cells(entry)),
        )
    }
}

/// The cells of a chain.
fn chain_row(entry: &ChainEntry) -> (row: Vec<String>)
    ensures
        texts(row@) == chain_cells(*entry),
{
    let row: Vec<String> = vec![
        entry.chain_key.clone(),
        decimal_text(entry.version),
        entry.storage_adapter.clone(),
        decimal_text(entry.thought_count),
        decimal_text(entry.agent_count),
        entry.storage_location.clone(),
    ];
    assert(texts(row@) =~= chain_cells(*entry));
    row
}

/// The summary of the registered chains.
pub fn chain_summary(entries: &[ChainEntry]) -> (lines: Vec<String>)
    ensures
        texts(lines@) == chain_summary_lines(entries@),
{
    if entries.len() == 0 {
        return remark_text("Chain Summary", "No registered chains.");
    }
    let headers: [&str; 6] = [
        "Chain Key",
        "Ver",
        "Adapter",
        "Thoughts",
        "Agents",
        "Storage Location",
    ];
    let ghost cells = entries@.map_values(|entry: ChainEntry| chain_cells(entry));
    let mut rows: Vec<Vec<String>> = Vec::new();
    let mut i: usize = 0;
    while i < entries.len()
        invariant
            i <= entries@.len(),
            cells == entries@.map_values(|entry: ChainEntry| chain_cells(entry)),
            rows_text(rows@) == cells.take(i as int),
        decreases entries@.len() - i,
    {
        let ghost before = rows@;
        rows.push(chain_row(&entries[i]));
        assert(rows_text(rows@) =~= rows_text(before).push(cells[i as int]));
        i = i + 1;
    }
    assert(cells.take(i as int) =~= cells);
    assert(strs(headers@) =~= chain_headers());
    ascii_table("Chain Summary", headers.as_slice(), rows.as_slice())
}

/// A registered agent.
pub struct AgentEntry {
    pub display_name: String,
    pub agent_id: String,
    pub status: String,
    pub description: Option<String>,
}

/// The description that is shown for an agent, before it is cut; a dash stands for
/// a missing or blank one.
pub open spec fn full_description(description: Option<Seq<char>>) -> Seq<char> {
    match description {
        Some(text) => if trimmed(text).len() == 0 {
            "—"@
        } else {
            text
        },
        None => "—"@,
    }
}

/// The description that is shown for an agent: one of more than 60 bytes is cut
/// after 59, and ends in an ellipsis.
pub open spec fn shown_description(description: Option<Seq<char>>) -> Seq<char> {
    let text = full_description(description);
    if byte_len(text) > 60 {
        byte_prefix(text, 59) + "…"@
    } else {
        text
    }
}

/// Whether a description can be shown: one that is cut is cut between two
/// characters.
pub open spec fn description_fits(description: Option<Seq<char>>) -> bool {
    let text = full_description(description);
    byte_len(text) > 60 ==> is_char_boundary(encode_utf8(text), 59)
}

/// The description that is shown for an agent, before it is cut.
fn uncut_description(description: &Option<String>) -> (r: &str)
    ensures
        r@ == full_description(opt_text(*description)),
{
    match description {
        Some(text) => if trimmed_text(text.as_str()).is_empty() {
            "—"
        } else {
            text.as_str()
        },
        None => "—",
    }
}

/// Whether a description can be shown.
pub fn description_printable(description: &Option<String>) -> (r: bool)
    ensures
        r == description_fits(opt_text(*description)),
{
    let text = uncut_description(description);
    text_bytes(text) <= 60 || text.is_char_boundary(59)
}

/// The description that is shown for an agent.
pub fn description_cell(description: &Option<String>) -> (r: String)
    requires
        description_fits(opt_text(*description)),
    ensures
        r@ == shown_description(opt_text(*description)),
{
    let text = uncut_description(description);
    if text_bytes(text) > 60 {
        prefix_text(text, 59).to_string().concat("…")
    } else {
        text.to_string()
    }
}

/// The headers of the agent registry.
pub open spec fn agent_headers() -> Seq<Seq<char>> {
    seq!["Name"@, "ID"@, "Status"@, "Memories"@, "Description"@]
}

/// The cells of an agent.
pub open spec fn agent_cells(agent: AgentEntry, thoughts: Seq<ThoughtFacts>) -> Seq<Seq<char>> {
    seq![
        agent.display_name@,
        agent.agent_id@,
        agent.status@,
        decimal(thought_count(thoughts, agent.agent_id@)),
        shown_description(opt_text(agent.description)),
    ]
}

/// The cells of an agent.
fn agent_row(agent: &AgentEntry, thoughts: &[ThoughtEntry]) -> (row: Vec<String>)
    requires
        description_fits(opt_text(agent.description)),
    ensures
        texts(row@) == agent_cells(*agent, facts(thoughts@)),
{
    let row: Vec<String> = vec![
        agent.display_name.clone(),
        agent.agent_id.clone(),
        agent.status.clone(),
        decimal_text(live_count(thoughts, agent.agent_id.as_str())),
        description_cell(&agent.description),
    ];
    assert(texts(row@) =~= agent_cells(*agent, facts(thoughts@)));
    row
}

/// The section of a chain that could be opened; a chain without agents has none.
pub open spec fn agents_section_text(
    chain_key: Seq<char>,
    agents: Seq<AgentEntry>,
    thoughts: Seq<ThoughtFacts>,
) -> Option<SectionText> {
    if agents.len() == 0 {
        None
    } else {
        Some(
            SectionText {
                label: chain_key,
                rows: agents.map_values(|agent: AgentEntry| agent_cells(agent, thoughts)),
            },
        )
    }
}

/// The section of a chain that could be opened; a chain without agents has none.
pub fn agents_section(
    chain_key: String,
    agents: &[AgentEntry],
    thoughts: &[ThoughtEntry],
) -> (r: Option<Section>)
    requires
        forall|i: int|
            0 <= i < agents@.len() ==> description_fits(
                opt_text((#[trigger] agents@[i]).description),
            ),
    ensures
        match r {
            Some(section) => agents_section_text(chain_key@, agents@, facts(thoughts@)) == Some(
                section@,
            ),
            None => agents_section_text(chain_key@, agents@, facts(thoughts@)) is None,
        },
{
    if agents.len() == 0 {
        return None;
    }
    let ghost all = facts(thoughts@);
    let ghost cells = agents@.map_values(|agent: AgentEntry| agent_cells(agent, all));
    let mut rows: Vec<Vec<String>> = Vec::new();
    let mut i: usize = 0;
    while i < agents.len()
        invariant
            i <= agents@.len(),
            all == facts(thoughts@),
            cells == agents@.map_values(|agent: AgentEntry| agent_cells(agent, all)),
            rows_text(rows@) == cells.take(i as int),
            forall|i: int|
                0 <= i < agents@.len() ==> description_fits(
                    opt_text((#[trigger] agents@[i]).description),
                ),
        decreases agents@.len() - i,
    {
        let ghost before = rows@;
        rows.push(agent_row(&agents[i], thoughts));
        assert(rows_text(rows@) =~= rows_text(before).push(cells[i as int]));
        i = i + 1;
    }
    assert(cells.take(i as int) =~= cells);
    Some(Section { label: chain_key, rows })
}

/// The section of a chain that could not be opened.
pub open spec fn failed_section_text(chain_key: Seq<char>, error: Seq<char>) -> SectionText {
    SectionText {
        label: chain_key,
        rows: seq![
            seq!["error: "@ + error, Seq::empty(), Seq::empty(), Seq::empty(), Seq::empty()],
        ],
    }
}

/// The section of a chain that could not be opened.
pub fn failed_section(chain_key: String, error: &str) -> (r: Section)
    ensures
        r@ == failed_section_text(chain_key@, error@),
{
    let row: Vec<String> = vec![
        "error: ".to_string().concat(error),
        String::new(),
        String::new(),
        String::new(),
        String::new(),
    ];
    let ghost cells = texts(row@);
    assert(cells =~= seq![
        "error: "@ + error@,
        Seq::empty(),
        Seq::empty(),
        Seq::empty(),
        Seq::empty(),
    ]);
    let rows: Vec<Vec<String>> = vec![row];
    assert(rows_text(rows@) =~= seq![cells]);
    Section { label: chain_key, rows }
}

/// The agents of a chain and what they wrote.
pub struct ChainMembers {
    pub agents: Vec<AgentEntry>,
    pub thoughts: Vec<ThoughtEntry>,
}

/// A registered chain, and what was found when it was opened.
pub struct ListedChain {
    pub chain_key: String,
    pub opened: Result<ChainMembers, String>,
}

/// The section of a registered chain; a chain that could be opened and has no agents
/// has none.
pub open spec fn chain_section_text(chain: ListedChain) -> Option<SectionText> {
    match chain.opened {
        Ok(members) => agents_section_text(
            chain.chain_key@,
            members.agents@,
            facts(members.thoughts@),
        ),
        Err(error) => Some(failed_section_text(chain.chain_key@, error@)),
    }
}

/// The sections of the registered chains, in order.
pub open spec fn registry_sections_text(chains: Seq<ListedChain>) -> Seq<SectionText> {
    chains.filter_map(|chain: ListedChain| chain_section_text(chain))
}

/// Whether every description in a chain can be shown.
pub open spec fn chain_fits(chain: ListedChain) -> bool {
    chain.opened matches Ok(members) ==> forall|i: int|
        0 <= i < members.agents@.len() ==> description_fits(
            opt_text((#[trigger] members.agents@[i]).description),
        )
}

/// Whether every description in a chain can be shown.
pub fn chain_printable(chain: &ListedChain) -> (r: bool)
    ensures
        r == chain_fits(*chain),
{
    match &chain.opened {
        Ok(members) => {
            let agents = &members.agents;
            let mut i: usize = 0;
            while i < agents.len()
                invariant
                    i <= agents@.len(),
                    chain.opened matches Ok(found) && found.agents@ == agents@,
                    forall|j: int|
                        0 <= j < i ==> description_fits(
                            opt_text((#[trigger] agents@[j]).description),
                        ),
                decreases agents@.len() - i,
            {
                if !description_printable(&agents[i].description) {
                    assert(!description_fits(opt_text(agents@[i as int].description)));
                    return false;
                }
                i = i + 1;
            }
            true
        },
        Err(_) => true,
    }
}

/// The sections of the registered chains, in order.
pub fn registry_sections(chains: &[ListedChain]) -> (r: Vec<Section>)
    requires
        forall|i: int| 0 <= i < chains@.len() ==> chain_fits(#[trigger] chains@[i]),
    ensures
        sections_text(r@) == registry_sections_text(chains@),
{
    let ghost shown = |chain: ListedChain| chain_section_text(chain);
    let mut sections: Vec<Section> = Vec::new();
    let mut i: usize = 0;
    proof {
        assert(chains@.take(0).filter_map(shown) =~= Seq::empty());
        assert(sections_text(sections@) =~= Seq::empty());
    }
    while i < chains.len()
        invariant
            i <= chains@.len(),
            shown == (|chain: ListedChain| chain_section_text(chain)),
            forall|i: int| 0 <= i < chains@.len() ==> chain_fits(#[trigger] chains@[i]),
            sections_text(sections@) == chains@.take(i as int).filter_map(shown),
        decreases chains@.len() - i,
    {
        let chain = &chains[i];
        let ghost before = sections_text(sections@);
        proof {
            assert(chain_fits(*chain));
            assert(chains@.take(i + 1).drop_last() =~= chains@.take(i as int));
            assert(chains@.take(i + 1).last() == *chain);
        }
        match &chain.opened {
            Ok(members) => {
                if let Some(section) = agents_section(
                    chain.chain_key.clone(),
                    members.agents.as_slice(),
                    members.thoughts.as_slice(),
                ) {
                    sections.push(section);
                    assert(sections_text(sections@) =~= before.push(section@));
                }
            },
            Err(error) => {
                let section = failed_section(chain.chain_key.clone(), error.as_str());
                sections.push(section);
                assert(sections_text(sections@) =~= before.push(section@));
            },
        }
        i = i + 1;
    }
    assert(chains@.take(i as int) =~= chains@);
    sections
}

/// The lines of the agent registry.
pub open spec fn agent_registry_lines(
    chains: int,
    sections: Seq<SectionText>,
) -> Seq<Seq<char>> {
    if chains == 0 {
        remark_lines("Agent Registry"@, "No registered chains."@)
    } else if sections.len() == 0 {
        remark_lines("Agent Registry"@, "No agents registered."@)
    } else {
        grouped_lines("Agent Registry"@, agent_headers(), sections)
    }
}

/// Whether the agent registry can be shown.
pub open spec fn registry_fits(chains: int, sections: Seq<SectionText>) -> bool {
    chains != 0 && sections.len() != 0 ==> printable(agent_headers(), sections)
}

/// Whether the agent registry can be shown.
pub fn registry_printable(chains: usize, sections: &[Section]) -> (r: bool)
    ensures
        r == registry_fits(chains as int, sections_text(sections@)),
{
    let headers: [&str; 5] = ["Name", "ID", "Status", "Memories", "Description"];
    assert(strs(headers@) =~= agent_headers());
    chains == 0 || sections.len() == 0 || crate::table::sections_printable(
        headers.as_slice(),
        sections,
    )
}

/// The agents of the registered chains, given how many chains there are and the
/// sections of those that have something to show.
pub fn agent_registry(chains: usize, sections: &[Section]) -> (lines: Vec<String>)
    requires
        registry_fits(chains as int, sections_text(sections@)),
    ensures
        texts(lines@) == agent_registry_lines(chains as int, sections_text(sections@)),
{
    if chains == 0 {
        remark_text("Agent Registry", "No registered chains.")
    } else if sections.len() == 0 {
        remark_text("Agent Registry", "No agents registered.")
    } else {
        let headers: [&str; 5] = ["Name", "ID", "Status", "Memories", "Description"];
        assert(strs(headers@) =~= agent_headers());
        ascii_table_grouped("Agent Registry", headers.as_slice(), sections)
    }
}

/// A registered skill.
pub struct SkillEntry {
    pub name: String,
    pub status: String,
    pub version_count: u64,
    pub tags: Vec<String>,
    pub uploaded_by: String,
}

/// The headers of the skill registry.
pub open spec fn skill_headers() -> Seq<Seq<char>> {
    seq!["Name"@, "Status"@, "Versions"@, "Tags"@, "Uploaded By"@]
}

/// The tags of a skill with commas between them; a dash stands for no tags.
pub open spec fn tags_cell(tags: Seq<Seq<char>>) -> Seq<char> {
    if tags.len() == 0 {
        "—"@
    } else {
        joined(tags, ", "@)
    }
}

/// The cells of a skill.
pub open spec fn skill_cells(skill: SkillEntry) -> Seq<Seq<char>> {
    seq![
        skill.name@,
        skill.status@,
        decimal(skill.version_count as nat),
        tags_cell(texts(skill.tags@)),
        skill.uploaded_by@,
    ]
}

/// The lines of the skill registry, if there is one.
pub open spec fn skill_registry_lines(skills: Option<Seq<SkillEntry>>) -> Seq<Seq<char>> {
    match skills {
        None => remark_lines("Skill Registry"@, "No skill registry found."@),
        Some(list) => if list.len() == 0 {
            remark_lines("Skill Registry"@, "No skills registered."@)
        } else {
            table_lines(
                "Skill Registry"@,
                skill_headers(),
                list.map_values(|skill: SkillEntry| skill_cells(skill)),
            )
        },
    }
}

/// The skills of an optional registry.
pub open spec fn skill_list(skills: Option<&[SkillEntry]>) -> Option<Seq<SkillEntry>> {
    match skills {
        Some(list) => Some(list@),
        None => None,
    }
}

/// The cells of a skill.
fn skill_row(skill: &SkillEntry) -> (row: Vec<String>)
    ensures
        texts(row@) == skill_cells(*skill),
{
    let tags = if skill.tags.len() == 0 {
        "—".to_string()
    } else {
        joined_text(&skill.tags, ", ")
    };
    let row: Vec<String> = vec![
        skill.name.clone(),
        skill.status.clone(),
        decimal_text(skill.version_count),
        tags,
        skill.uploaded_by.clone(),
    ];
    assert(texts(row@) =~= skill_cells(*skill));
    row
}

/// The registered skills; `None` stands for a registry that could not be opened.
pub fn skill_registry(skills: Option<&[SkillEntry]>) -> (lines: Vec<String>)
    ensures
        texts(lines@) == skill_registry_lines(skill_list(skills)),
{
    match skills {
        None => remark_text("Skill Registry", "No skill registry found."),
        Some(list) => {
            if list.len() == 0 {
                return remark_text("Skill Registry", "No skills registered.");
            }
            let headers: [&str; 5] = ["Name", "Status", "Versions", "Tags", "Uploaded By"];
            let ghost cells = list@.map_values(|skill: SkillEntry| skill_cells(skill));
            let mut rows: Vec<Vec<String>> = Vec::new();
            let mut i: usize = 0;
            while i < list.len()
                invariant
                    i <= list@.len(),
                    cells == list@.map_values(|skill: SkillEntry| skill_cells(skill)),
                    rows_text(rows@) == cells.take(i as int),
                decreases list@.len() - i,
            {
                let ghost before = rows@;
                rows.push(skill_row(&list[i]));
                assert(rows_text(rows@) =~= rows_text(before).push(cells[i as int]));
                i = i + 1;
            }
            assert(cells.take(i as int) =~= cells);
            assert(strs(headers@) =~= skill_headers());
            ascii_table("Skill Registry", headers.as_slice(), rows.as_slice())
        },
    }
}

/// A description is cut to at most 60 characters, and one that fits is shown whole.
pub proof fn law_descriptions_stay_short(description: Option<Seq<char>>)
    requires
        description_fits(description),
    ensures
        shown_description(description).len() <= 60,
        byte_len(full_description(description)) <= 60 ==> shown_description(description)
            == full_description(description),
{
    let text = full_description(description);
    crate::text::lemma_byte_len_covers(text);
    if byte_len(text) > 60 {
        reveal_strlit("…");
        encode_utf8_valid_utf8(text);
        valid_utf8_split(encode_utf8(text), 59);
        let head = byte_prefix(text, 59);
        decode_utf8_encode_utf8(encode_utf8(text).subrange(0, 59));
        crate::text::lemma_byte_len_covers(head);
    }
}

/// The summary of the chains has a line for each of them, in their order, which shows
/// under the right headers its key, version, adapter, thoughts, agents and place.
/// Without chains it says so.
pub proof fn law_chain_summary_shows_every_chain(entries: Seq<ChainEntry>, i: int)
    requires
        0 <= i < entries.len(),
    ensures
        ({
            let lines = chain_summary_lines(entries);
            let rows = entries.map_values(|entry: ChainEntry| chain_cells(entry));
            let widths = column_widths(chain_headers(), rows);
            let entry = entries[i];
            &&& lines.len() == entries.len() + 6
            &&& lines[0] == YELLOW@ + "Chain Summary"@ + RESET@
            &&& chain_headers().len() == 6
            &&& chain_headers()[0] == "Chain Key"@
            &&& shows_cell(lines[4 + i], widths, 0, entry.chain_key@)
            &&& chain_headers()[1] == "Ver"@
            &&& shows_cell(lines[4 + i], widths, 1, decimal(entry.version as nat))
            &&& chain_headers()[2] == "Adapter"@
            &&& shows_cell(lines[4 + i], widths, 2, entry.storage_adapter@)
            &&& chain_headers()[3] == "Thoughts"@
            &&& shows_cell(lines[4 + i], widths, 3, decimal(entry.thought_count as nat))
            &&& chain_headers()[4] == "Agents"@
            &&& shows_cell(lines[4 + i], widths, 4, decimal(entry.agent_count as nat))
            &&& chain_headers()[5] == "Storage Location"@
            &&& shows_cell(lines[4 + i], widths, 5, entry.storage_location@)
        }),
{
    let title = "Chain Summary"@;
    reveal_strlit("Chain Summary");
    let rows = entries.map_values(|entry: ChainEntry| chain_cells(entry));
    assert(rows[i] == chain_cells(entries[i]));
    law_table_has_its_frame(title, chain_headers(), rows, 0);
    law_table_shows_every_cell(title, chain_headers(), rows, i, 0);
    law_table_shows_every_cell(title, chain_headers(), rows, i, 1);
    law_table_shows_every_cell(title, chain_headers(), rows, i, 2);
    law_table_shows_every_cell(title, chain_headers(), rows, i, 3);
    law_table_shows_every_cell(title, chain_headers(), rows, i, 4);
    law_table_shows_every_cell(title, chain_headers(), rows, i, 5);
}

/// The registry of the skills has a line for each of them, in their order, which shows
/// under the right headers its name, status, versions, tags and uploader.
pub proof fn law_skill_registry_shows_every_skill(skills: Seq<SkillEntry>, i: int)
    requires
        0 <= i < skills.len(),
    ensures
        ({
            let lines = skill_registry_lines(Some(skills));
            let rows = skills.map_values(|skill: SkillEntry| skill_cells(skill));
            let widths = column_widths(skill_headers(), rows);
            let skill = skills[i];
            &&& lines.len() == skills.len() + 6
            &&& lines[0] == YELLOW@ + "Skill Registry"@ + RESET@
            &&& skill_headers().len() == 5
            &&& skill_headers()[0] == "Name"@
            &&& shows_cell(lines[4 + i], widths, 0, skill.name@)
            &&& skill_headers()[1] == "Status"@
            &&& shows_cell(lines[4 + i], widths, 1, skill.status@)
            &&& skill_headers()[2] == "Versions"@
            &&& shows_cell(lines[4 + i], widths, 2, decimal(skill.version_count as nat))
            &&& skill_headers()[3] == "Tags"@
            &&& skill.tags@.len() == 0 ==> shows_cell(lines[4 + i], widths, 3, "—"@)
            &&& skill.tags@.len() > 0 ==> shows_cell(
                lines[4 + i],
                widths,
                3,
                joined(texts(skill.tags@), ", "@),
            )
            &&& skill_headers()[4] == "Uploaded By"@
            &&& shows_cell(lines[4 + i], widths, 4, skill.uploaded_by@)
        }),
{
    let title = "Skill Registry"@;
    reveal_strlit("Skill Registry");
    let rows = skills.map_values(|skill: SkillEntry| skill_cells(skill));
    assert(rows[i] == skill_cells(skills[i]));
    assert(texts(skills[i].tags@).len() == skills[i].tags@.len());
    law_table_has_its_frame(title, skill_headers(), rows, 0);
    law_table_shows_every_cell(title, skill_headers(), rows, i, 0);
    law_table_shows_every_cell(title, skill_headers(), rows, i, 1);
    law_table_shows_every_cell(title, skill_headers(), rows, i, 2);
    law_table_shows_every_cell(title, skill_headers(), rows, i, 3);
    law_table_shows_every_cell(title, skill_headers(), rows, i, 4);
}

/// What is missing is said in place of the table, under the title: that there are no
/// chains, no agents, no skills or no skill registry.
pub proof fn law_what_is_missing_is_said(sections: Seq<SectionText>, chains: int)
    ensures
        says(chain_summary_lines(Seq::empty()), "Chain Summary"@, "No registered chains."@),
        says(agent_registry_lines(0, sections), "Agent Registry"@, "No registered chains."@),
        chains != 0 ==> says(
            agent_registry_lines(chains, Seq::empty()),
            "Agent Registry"@,
            "No agents registered."@,
        ),
        says(skill_registry_lines(Some(Seq::empty())), "Skill Registry"@, "No skills registered."@),
        says(skill_registry_lines(None), "Skill Registry"@, "No skill registry found."@),
{
}

/// Whether the lines are a title in yellow, an indented remark, and an empty line.
pub open spec fn says(lines: Seq<Seq<char>>, title: Seq<char>, remark: Seq<char>) -> bool {
    &&& lines.len() == 3
    &&& lines[0] == YELLOW@ + title + RESET@
    &&& lines[1] == "  "@ + remark
    &&& lines[2].len() == 0
}

/// A further chain adds to the registry of the agents a section under its key: with a
/// row for each of its agents, in their order, or with its error if it could not be
/// opened. A chain without agents adds nothing.
pub proof fn law_registry_has_a_section_for_every_chain(
    chains: Seq<ListedChain>,
    chain: ListedChain,
    a: int,
)
    ensures
        registry_sections_text(Seq::empty()).len() == 0,
        ({
            let before = registry_sections_text(chains);
            let after = registry_sections_text(chains.push(chain));
            match chain.opened {
                Ok(members) => if members.agents@.len() == 0 {
                    after == before
                } else {
                    &&& after.len() == before.len() + 1
                    &&& after.drop_last() == before
                    &&& after.last().label == chain.chain_key@
                    &&& after.last().rows.len() == members.agents@.len()
                    &&& 0 <= a < members.agents@.len() ==> shows_agent(
                        after.last().rows[a],
                        members.agents@[a],
                        facts(members.thoughts@),
                    )
                },
                Err(error) => {
                    &&& after.len() == before.len() + 1
                    &&& after.drop_last() == before
                    &&& after.last().label == chain.chain_key@
                    &&& after.last().rows.len() == 1
                    &&& after.last().rows[0].len() == 5
                    &&& after.last().rows[0][0] == "error: "@ + error@
                    &&& forall|j: int|
                        1 <= j < 5 ==> (#[trigger] after.last().rows[0][j]).len() == 0
                },
            }
        }),
{
    let shown = |chain: ListedChain| chain_section_text(chain);
    let all = chains.push(chain);
    assert(all.drop_last() =~= chains);
    let before = registry_sections_text(chains);
    let after = registry_sections_text(all);
    assert(after.len() > before.len() ==> after.drop_last() =~= before);
    if let Ok(members) = chain.opened {
        if 0 <= a < members.agents@.len() {
            let thoughts = facts(members.thoughts@);
            let agent = members.agents@[a];
            crate::text::law_decimal_stands_for_the_number(
                thought_count(thoughts, agent.agent_id@),
            );
            assert(after.last().rows[a] == agent_cells(agent, thoughts));
        }
    }
}

/// Whether the cells of an agent are its name, its identifier, its status, the number of
/// its thoughts and its description.
pub open spec fn shows_agent(
    cells: Seq<Seq<char>>,
    agent: AgentEntry,
    thoughts: Seq<ThoughtFacts>,
) -> bool {
    &&& cells.len() == 5
    &&& cells[0] == agent.display_name@
    &&& cells[1] == agent.agent_id@
    &&& cells[2] == agent.status@
    &&& crate::text::digits_value(cells[3]) == thought_count(thoughts, agent.agent_id@)
    &&& cells[4] == shown_description(opt_text(agent.description))
}

/// The registry of the agents shows every cell of every row of every section, under the
/// headers for the name, the identifier, the status, the thoughts and the description.
pub proof fn law_agent_registry_shows_every_agent(
    chains: int,
    sections: Seq<SectionText>,
    s: int,
    r: int,
    i: int,
)
    requires
        chains != 0,
        0 <= s < sections.len(),
        0 <= r < sections[s].rows.len(),
        0 <= i < 5,
        i < sections[s].rows[r].len(),
    ensures
        ({
            let lines = agent_registry_lines(chains, sections);
            let widths = column_widths(agent_headers(), all_rows(sections));
            let k = 5 + lines_before(sections, s);
            &&& lines.len() == 5 + lines_before(sections, sections.len() as int)
            &&& lines[0] == YELLOW@ + "Agent Registry"@ + RESET@
            &&& lines[k] == label_line(sections[s].label, inner_width(widths))
            &&& shows_cell(lines[k + 2 + r], widths, i, sections[s].rows[r][i])
            &&& agent_headers().len() == 5
            &&& agent_headers()[0] == "Name"@
            &&& agent_headers()[1] == "ID"@
            &&& agent_headers()[2] == "Status"@
            &&& agent_headers()[3] == "Memories"@
            &&& agent_headers()[4] == "Description"@
        }),
{
    reveal_strlit("Agent Registry");
    law_grouped_table_shows_every_row("Agent Registry"@, agent_headers(), sections, s, r, i);
    law_grouped_table_has_its_frame("Agent Registry"@, agent_headers(), sections, i);
}

/// A description is shown as it is if it takes up to 60 bytes; of a longer one the first
/// 59 bytes are shown, and an ellipsis. A dash stands for a missing one, and for one of
/// nothing but white space.
pub proof fn law_description_is_shown(description: Option<Seq<char>>)
    requires
        description_fits(description),
    ensures
        ({
            let shown = shown_description(description);
            let blank = description is None || forall|k: int|
                0 <= k < description->0.len() ==> crate::text::is_white_space(
                    #[trigger] description->0[k],
                );
            &&& blank ==> shown == "—"@
            &&& !blank && byte_len(description->0) <= 60 ==> shown == description->0
            &&& !blank && byte_len(description->0) > 60 ==> {
                &&& shown.len() > 0
                &&& shown.last() == '…'
                &&& encode_utf8(shown.drop_last()) == encode_utf8(description->0).take(59)
            }
        }),
{
    reveal_strlit("—");
    reveal_strlit("…");
    assert("—"@ =~= seq!['—']);
    assert(byte_len("—"@) <= 60) by {
        assert("—"@.drop_first() =~= Seq::<char>::empty());
        assert(encode_utf8(Seq::<char>::empty()).len() == 0);
        assert(encode_utf8("—"@) == encode_scalar('—' as u32) + encode_utf8("—"@.drop_first()));
        assert(encode_scalar('—' as u32).len() <= 4);
    }
    if let Some(text) = description {
        crate::text::law_trimming_takes_off_white_space(text);
        let (a, b) = choose|a: int, b: int| #[trigger]
            crate::text::trims(text, trimmed(text), a, b);
        let blank = forall|k: int|
            0 <= k < text.len() ==> crate::text::is_white_space(#[trigger] text[k]);
        if blank {
            if a < b {
                assert(crate::text::is_white_space(text[a]));
            }
            assert(trimmed(text).len() == 0);
        } else {
            let k = choose|k: int|
                0 <= k < text.len() && !crate::text::is_white_space(#[trigger] text[k]);
            assert(a <= k < b);
            assert(trimmed(text).len() > 0);
            if byte_len(text) > 60 {
                crate::text::law_byte_prefix(text, 59);
                assert(shown_description(description).drop_last() =~= byte_prefix(text, 59));
            }
        }
    }
}

/// A description can be shown unless it is to be cut inside a character.
pub proof fn law_which_descriptions_can_be_shown(description: Option<Seq<char>>)
    ensures
        description is None ==> description_fits(description),
        description matches Some(text) ==> (byte_len(text) <= 60 ==> description_fits(description)),
        description matches Some(text) ==> (is_char_boundary(encode_utf8(text), 59)
            ==> description_fits(description)),
        description matches Some(text) ==> (trimmed(text).len() > 0 && byte_len(text) > 60
            && !is_char_boundary(encode_utf8(text), 59) ==> !description_fits(description)),
{
    reveal_strlit("—");
    assert("—"@.drop_first() =~= Seq::<char>::empty());
    assert(encode_utf8(Seq::<char>::empty()).len() == 0);
    assert(encode_utf8("—"@) == encode_scalar('—' as u32) + encode_utf8("—"@.drop_first()));
    assert(encode_scalar('—' as u32).len() <= 4);
}

/// The registry of the agents can be shown unless it is too wide for the machine.
pub proof fn law_which_registries_can_be_shown(chains: int, sections: Seq<SectionText>)
    ensures
        registry_fits(chains, sections) <==> chains == 0 || sections.len() == 0 || inner_width(
            column_widths(agent_headers(), all_rows(sections)),
        ) <= usize::MAX,
{
}

} // verus!
