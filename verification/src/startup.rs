//! What the daemon prints while it starts.

use crate::paint::{painted, painted_text, GREEN, PINK, YELLOW};
use crate::text::{
    decimal, decimal_text, opt_str, opt_text, pad_right, push_line, push_padded, push_repeated,
    repeated, strs, texts,
};
use vstd::prelude::*;
use vstd::string::*;

verus! {

/// A configuration value as it is shown.
pub open spec fn displayed(value: Option<Seq<char>>) -> Seq<char> {
    match value {
        Some(text) => text,
        None => "<none>"@,
    }
}

/// A configuration value as it is shown; a missing one is `<none>`.
pub fn display_value(value: Option<String>) -> (r: String)
    ensures
        r@ == displayed(opt_text(value)),
{
    match value {
        Some(text) => text,
        None => "<none>".to_string(),
    }
}

/// The number of steps that a progress bar counts up to: at least one.
pub open spec fn bar_total(total: int) -> int {
    if total < 1 {
        1
    } else {
        total
    }
}

/// The number of steps that a progress bar shows as done: at most all.
pub open spec fn bar_done(current: int, total: int) -> int {
    if current > bar_total(total) {
        bar_total(total)
    } else {
        current
    }
}

/// The number of the twenty marks of a progress bar that are filled.
pub open spec fn bar_filled(current: int, total: int) -> int {
    bar_done(current, total) * 20 / bar_total(total)
}

/// A progress bar of twenty marks, with the counts behind it.
pub open spec fn bar_text(current: int, total: int) -> Seq<char> {
    "["@ + repeated("#"@, bar_filled(current, total) as nat) + repeated(
        "-"@,
        (20 - bar_filled(current, total)) as nat,
    ) + "] "@ + decimal(bar_done(current, total) as nat) + "/"@ + decimal(bar_total(total) as nat)
}

/// A progress bar for `current` of `total` steps.
pub fn progress_bar(current: usize, total: usize) -> (r: String)
    requires
        bar_done(current as int, total as int) * 20 <= usize::MAX,
    ensures
        r@ == bar_text(current as int, total as int),
{
    let total: usize = if total < 1 {
        1
    } else {
        total
    };
    let current: usize = if current > total {
        total
    } else {
        current
    };
    let filled: usize = (current * 20) / total;
    assert(0 <= filled <= 20) by (nonlinear_arith)
        requires
            filled == (current * 20) / total as int,
            0 <= current <= total,
            1 <= total,
    ;
    let mut out = "[".to_string();
    push_repeated(&mut out, "#", filled);
    push_repeated(&mut out, "-", 20 - filled);
    out.concat("] ").concat(decimal_text(current as u64).as_str()).concat("/").concat(
        decimal_text(total as u64).as_str(),
    )
}

/// A step in the migration of the registered chains.
pub enum MigrationEvent {
    Started { chain_key: String, from_version: u64, to_version: u64, current: usize, total: usize },
    Completed {
        chain_key: String,
        from_version: u64,
        to_version: u64,
        current: usize,
        total: usize,
    },
    StartedReconciliation {
        chain_key: String,
        from_storage_adapter: String,
        to_storage_adapter: String,
        current: usize,
        total: usize,
    },
    CompletedReconciliation {
        chain_key: String,
        from_storage_adapter: String,
        to_storage_adapter: String,
        current: usize,
        total: usize,
    },
}

impl MigrationEvent {
    /// The number of steps done, and the number of all.
    pub open spec fn progress(&self) -> (usize, usize) {
        match *self {
            MigrationEvent::Started { current, total, .. } => (current, total),
            MigrationEvent::Completed { current, total, .. } => (current, total),
            MigrationEvent::StartedReconciliation { current, total, .. } => (current, total),
            MigrationEvent::CompletedReconciliation { current, total, .. } => (current, total),
        }
    }

    /// Whether the progress can be shown.
    pub open spec fn shows(&self) -> bool {
        bar_done(self.progress().0 as int, self.progress().1 as int) * 20 <= usize::MAX
    }

    /// What the step does to the chain.
    pub open spec fn action(&self) -> Seq<char> {
        match *self {
            MigrationEvent::Started { chain_key, from_version, to_version, .. } =>
                " Migrating chain "@ + chain_key@ + " from version "@ + decimal(from_version as nat)
                    + " to version "@ + decimal(to_version as nat),
            MigrationEvent::Completed { chain_key, from_version, to_version, .. } =>
                " Migrated chain "@ + chain_key@ + " from version "@ + decimal(from_version as nat)
                    + " to version "@ + decimal(to_version as nat),
            MigrationEvent::StartedReconciliation {
                chain_key,
                from_storage_adapter,
                to_storage_adapter,
                ..
            } => " Reconciling chain "@ + chain_key@ + " from "@ + from_storage_adapter@
                + " storage to "@ + to_storage_adapter@ + " storage"@,
            MigrationEvent::CompletedReconciliation {
                chain_key,
                from_storage_adapter,
                to_storage_adapter,
                ..
            } => " Reconciled chain "@ + chain_key@ + " from "@ + from_storage_adapter@
                + " storage to "@ + to_storage_adapter@ + " storage"@,
        }
    }

    /// Whether the progress can be shown.
    pub fn printable(&self) -> (r: bool)
        ensures
            r == self.shows(),
    {
        let (current, total) = self.steps();
        let total: usize = if total < 1 {
            1
        } else {
            total
        };
        let done: usize = if current > total {
            total
        } else {
            current
        };
        done.checked_mul(20).is_some()
    }

    fn steps(&self) -> (r: (usize, usize))
        ensures
            r == self.progress(),
    {
        match self {
            MigrationEvent::Started { current, total, .. } => (*current, *total),
            MigrationEvent::Completed { current, total, .. } => (*current, *total),
            MigrationEvent::StartedReconciliation { current, total, .. } => (*current, *total),
            MigrationEvent::CompletedReconciliation { current, total, .. } => (*current, *total),
        }
    }
}

/// ` {verb} chain {key} from version {from} to version {to}`.
fn version_action(verb: &str, chain_key: &str, from: u64, to: u64) -> (r: String)
    ensures
        r@ == verb@ + chain_key@ + " from version "@ + decimal(from as nat) + " to version "@
            + decimal(to as nat),
{
    verb.to_string().concat(chain_key).concat(" from version ").concat(
        decimal_text(from).as_str(),
    ).concat(" to version ").concat(decimal_text(to).as_str())
}

/// ` {verb} chain {key} from {from} storage to {to} storage`.
fn storage_action(verb: &str, chain_key: &str, from: &str, to: &str) -> (r: String)
    ensures
        r@ == verb@ + chain_key@ + " from "@ + from@ + " storage to "@ + to@ + " storage"@,
{
    verb.to_string().concat(chain_key).concat(" from ").concat(from).concat(" storage to ").concat(
        to,
    ).concat(" storage")
}

/// The line about a step in the migration of the registered chains.
pub fn migration_line(event: &MigrationEvent) -> (r: String)
    requires
        event.shows(),
    ensures
        r@ == bar_text(event.progress().0 as int, event.progress().1 as int) + event.action(),
{
    let (current, total) = event.steps();
    let action = match event {
        MigrationEvent::Started { chain_key, from_version, to_version, .. } => version_action(
            " Migrating chain ",
            chain_key.as_str(),
            *from_version,
            *to_version,
        ),
        MigrationEvent::Completed { chain_key, from_version, to_version, .. } => version_action(
            " Migrated chain ",
            chain_key.as_str(),
            *from_version,
            *to_version,
        ),
        MigrationEvent::StartedReconciliation {
            chain_key,
            from_storage_adapter,
            to_storage_adapter,
            ..
        } => storage_action(
            " Reconciling chain ",
            chain_key.as_str(),
            from_storage_adapter.as_str(),
            to_storage_adapter.as_str(),
        ),
        MigrationEvent::CompletedReconciliation {
            chain_key,
            from_storage_adapter,
            to_storage_adapter,
            ..
        } => storage_action(
            " Reconciled chain ",
            chain_key.as_str(),
            from_storage_adapter.as_str(),
            to_storage_adapter.as_str(),
        ),
    };
    progress_bar(current, total).concat(action.as_str())
}

/// What the migration of the skill registry did.
pub struct SkillMigration {
    pub skills_migrated: u64,
    pub versions_migrated: u64,
    pub from_version: u64,
    pub to_version: u64,
    pub path: String,
}

/// The message about a migration of the skill registry.
pub open spec fn skill_migration_text(m: SkillMigration) -> Seq<char> {
    "Skill registry migrated: "@ + decimal(m.skills_migrated as nat) + " skill(s), "@ + decimal(
        m.versions_migrated as nat,
    ) + " version(s) converted (v"@ + decimal(m.from_version as nat) + " → v"@ + decimal(
        m.to_version as nat,
    ) + ") at "@ + m.path@
}

/// The message about the skill registry. A failed migration is an error, with which
/// the daemon must not start.
pub fn skill_registry_message(outcome: Result<Option<SkillMigration>, String>) -> (r: Result<
    String,
    String,
>)
    ensures
        match outcome {
            Ok(None) => r is Ok && r->Ok_0@
                == "Skill registry: up to date, no migration required."@,
            Ok(Some(m)) => r is Ok && r->Ok_0@ == skill_migration_text(m),
            Err(error) => r is Err && r->Err_0@
                == "Skill registry migration failed — cannot start server: "@ + error@,
        },
{
    match outcome {
        Ok(None) => Ok("Skill registry: up to date, no migration required.".to_string()),
        Ok(Some(m)) => Ok(
            "Skill registry migrated: ".to_string().concat(
                decimal_text(m.skills_migrated).as_str(),
            ).concat(" skill(s), ").concat(decimal_text(m.versions_migrated).as_str()).concat(
                " version(s) converted (v",
            ).concat(decimal_text(m.from_version).as_str()).concat(" → v").concat(
                decimal_text(m.to_version).as_str(),
            ).concat(") at ").concat(m.path.as_str()),
        ),
        Err(error) => Err(
            "Skill registry migration failed — cannot start server: ".to_string().concat(
                error.as_str(),
            ),
        ),
    }
}

/// How the storage of an older installation was taken over.
pub struct StorageAdoption {
    pub renamed_root_dir: bool,
    pub source_dir: String,
    pub target_dir: String,
    pub merged_entries: u64,
    pub renamed_registry_file: bool,
}

/// The lines about an adopted storage; there are none if nothing was adopted.
pub open spec fn adoption_text(adoption: Option<StorageAdoption>) -> Seq<Seq<char>> {
    match adoption {
        None => Seq::empty(),
        Some(a) => seq![
            "Legacy storage adoption:"@,
            if a.renamed_root_dir {
                "  Renamed "@ + a.source_dir@ + " -> "@ + a.target_dir@
            } else {
                "  Merged "@ + decimal(a.merged_entries as nat) + " legacy entries from "@
                    + a.source_dir@ + " into "@ + a.target_dir@
            },
        ] + (if a.renamed_registry_file {
            seq!["  Renamed thoughtchain-registry.json -> mentisdb-registry.json"@]
        } else {
            Seq::empty()
        }),
    }
}

/// The lines about an adopted storage.
pub fn adoption_lines(adoption: &Option<StorageAdoption>) -> (lines: Vec<String>)
    ensures
        texts(lines@) == adoption_text(*adoption),
{
    let mut lines: Vec<String> = Vec::new();
    if let Some(a) = adoption {
        push_line(&mut lines, "Legacy storage adoption:".to_string());
        let moved = if a.renamed_root_dir {
            "  Renamed ".to_string().concat(a.source_dir.as_str()).concat(" -> ").concat(
                a.target_dir.as_str(),
            )
        } else {
            "  Merged ".to_string().concat(decimal_text(a.merged_entries).as_str()).concat(
                " legacy entries from ",
            ).concat(a.source_dir.as_str()).concat(" into ").concat(a.target_dir.as_str())
        };
        push_line(&mut lines, moved);
        if a.renamed_registry_file {
            push_line(
                &mut lines,
                "  Renamed thoughtchain-registry.json -> mentisdb-registry.json".to_string(),
            );
        }
    }
    assert(texts(lines@) =~= adoption_text(*adoption));
    lines
}

/// The line about a configuration variable, given what it is set to and what is in
/// effect.
pub open spec fn variable_text(
    name: Seq<char>,
    raw: Option<Seq<char>>,
    effective: Option<Seq<char>>,
) -> Seq<char> {
    let value = painted(GREEN@, displayed(effective));
    match raw {
        Some(text) => "  "@ + painted(YELLOW@, name) + "="@ + text + " (effective: "@ + value
            + ")"@,
        None => "  "@ + painted(YELLOW@, name) + "=<unset> (effective default: "@ + value + ")"@,
    }
}

/// The line about a configuration variable.
pub fn env_var_line(name: &str, raw: Option<&str>, effective: Option<String>) -> (r: String)
    ensures
        r@ == variable_text(name@, opt_str(raw), opt_text(effective)),
{
    let value = painted_text(GREEN, display_value(effective).as_str());
    let shown = "  ".to_string().concat(painted_text(YELLOW, name).as_str());
    match raw {
        Some(text) => shown.concat("=").concat(text).concat(" (effective: ").concat(
            value.as_str(),
        ).concat(")"),
        None => shown.concat("=<unset> (effective default: ").concat(value.as_str()).concat(")"),
    }
}

/// What the sounds are set to.
pub struct SoundSettings {
    pub startup: Option<String>,
    pub thoughts: Option<String>,
}

/// The configuration of the daemon. Of the PIN it holds only whether there is one.
pub struct DaemonConfig {
    pub chain_dir: String,
    pub default_chain_key: String,
    pub storage_adapter: String,
    pub auto_flush: bool,
    pub verbose: bool,
    pub log_file: Option<String>,
    pub bind_host: String,
    pub mcp_port: u16,
    pub rest_port: u16,
    pub https_mcp_port: Option<u16>,
    pub https_rest_port: Option<u16>,
    pub tls_cert: String,
    pub tls_key: String,
    pub dashboard_port: Option<u16>,
    pub pin_set: bool,
    pub rust_log: Option<String>,
    /// What the sounds are set to, if the daemon can play any.
    pub sounds: Option<SoundSettings>,
}

/// A configuration variable and the value in effect.
pub struct Variable {
    pub name: &'static str,
    pub effective: Option<String>,
}

/// The texts of several optional strings.
pub open spec fn opt_texts(v: Seq<Option<String>>) -> Seq<Option<Seq<char>>> {
    v.map_values(|s: Option<String>| opt_text(s))
}

/// What a [`Variable`] says.
pub open spec fn variable(v: Variable) -> (Seq<char>, Option<Seq<char>>) {
    (v.name@, opt_text(v.effective))
}

/// A flag as it is shown.
pub open spec fn flag(b: bool) -> Seq<char> {
    if b {
        "true"@
    } else {
        "false"@
    }
}

/// The port of a server as it is shown, unless the server is switched off.
pub open spec fn port(p: Option<u16>) -> Seq<char> {
    match p {
        Some(n) => decimal(n as nat),
        None => "disabled"@,
    }
}

/// A text, or what stands for it if it is missing.
pub open spec fn or_default(text: Option<Seq<char>>, default: Seq<char>) -> Seq<char> {
    match text {
        Some(t) => t,
        None => default,
    }
}

/// The configuration variables in the order in which they are listed, with the
/// values in effect.
pub open spec fn configuration_text(c: DaemonConfig) -> Seq<(Seq<char>, Option<Seq<char>>)> {
    seq![
        ("MENTISDB_DIR"@, Some(c.chain_dir@)),
        ("MENTISDB_DEFAULT_KEY"@, Some(c.default_chain_key@)),
        ("MENTISDB_DEFAULT_STORAGE_ADAPTER"@, Some(c.storage_adapter@)),
        ("MENTISDB_STORAGE_ADAPTER"@, Some(c.storage_adapter@)),
        ("MENTISDB_AUTO_FLUSH"@, Some(flag(c.auto_flush))),
        ("MENTISDB_VERBOSE"@, Some(flag(c.verbose))),
        ("MENTISDB_LOG_FILE"@, opt_text(c.log_file)),
        ("MENTISDB_BIND_HOST"@, Some(c.bind_host@)),
        ("MENTISDB_MCP_PORT"@, Some(decimal(c.mcp_port as nat))),
        ("MENTISDB_REST_PORT"@, Some(decimal(c.rest_port as nat))),
        ("MENTISDB_HTTPS_MCP_PORT"@, Some(port(c.https_mcp_port))),
        ("MENTISDB_HTTPS_REST_PORT"@, Some(port(c.https_rest_port))),
        ("MENTISDB_TLS_CERT"@, Some(c.tls_cert@)),
        ("MENTISDB_TLS_KEY"@, Some(c.tls_key@)),
        ("MENTISDB_DASHBOARD_PORT"@, Some(port(c.dashboard_port))),
        ("MENTISDB_DASHBOARD_PIN"@, Some(if c.pin_set { "set"@ } else { "not set"@ })),
        ("RUST_LOG"@, Some(or_default(opt_text(c.rust_log), "info (default)"@))),
    ] + (match c.sounds {
        Some(s) => seq![
            ("MENTISDB_STARTUP_SOUND"@, Some(or_default(opt_text(s.startup), "true (default)"@))),
            (
                "MENTISDB_THOUGHT_SOUNDS"@,
                Some(or_default(opt_text(s.thoughts), "false (default)"@)),
            ),
        ],
        None => Seq::empty(),
    })
}

fn flag_text(b: bool) -> (r: String)
    ensures
        r@ == flag(b),
{
    if b {
        "true".to_string()
    } else {
        "false".to_string()
    }
}

fn port_text(p: Option<u16>) -> (r: String)
    ensures
        r@ == port(p),
{
    match p {
        Some(n) => decimal_text(n as u64),
        None => "disabled".to_string(),
    }
}

fn pin_text(set: bool) -> (r: String)
    ensures
        r@ == (if set {
            "set"@
        } else {
            "not set"@
        }),
{
    if set {
        "set".to_string()
    } else {
        "not set".to_string()
    }
}

fn text_or_default(text: &Option<String>, default: &str) -> (r: String)
    ensures
        r@ == or_default(opt_text(*text), default@),
{
    match text {
        Some(t) => t.clone(),
        None => default.to_string(),
    }
}

/// The configuration variables in the order in which they are listed, with the
/// values in effect.
pub fn configuration(c: &DaemonConfig) -> (r: Vec<Variable>)
    ensures
        r@.map_values(|v: Variable| variable(v)) == configuration_text(*c),
{
    let mut r: Vec<Variable> = vec![
        Variable { name: "MENTISDB_DIR", effective: Some(c.chain_dir.clone()) },
        Variable { name: "MENTISDB_DEFAULT_KEY", effective: Some(c.default_chain_key.clone()) },
        Variable {
            name: "MENTISDB_DEFAULT_STORAGE_ADAPTER",
            effective: Some(c.storage_adapter.clone()),
        },
        Variable { name: "MENTISDB_STORAGE_ADAPTER", effective: Some(c.storage_adapter.clone()) },
        Variable { name: "MENTISDB_AUTO_FLUSH", effective: Some(flag_text(c.auto_flush)) },
        Variable { name: "MENTISDB_VERBOSE", effective: Some(flag_text(c.verbose)) },
        Variable { name: "MENTISDB_LOG_FILE", effective: c.log_file.clone() },
        Variable { name: "MENTISDB_BIND_HOST", effective: Some(c.bind_host.clone()) },
        Variable { name: "MENTISDB_MCP_PORT", effective: Some(decimal_text(c.mcp_port as u64)) },
        Variable { name: "MENTISDB_REST_PORT", effective: Some(decimal_text(c.rest_port as u64)) },
        Variable { name: "MENTISDB_HTTPS_MCP_PORT", effective: Some(port_text(c.https_mcp_port)) },
        Variable {
            name: "MENTISDB_HTTPS_REST_PORT",
            effective: Some(port_text(c.https_rest_port)),
        },
        Variable { name: "MENTISDB_TLS_CERT", effective: Some(c.tls_cert.clone()) },
        Variable { name: "MENTISDB_TLS_KEY", effective: Some(c.tls_key.clone()) },
        Variable { name: "MENTISDB_DASHBOARD_PORT", effective: Some(port_text(c.dashboard_port)) },
        Variable { name: "MENTISDB_DASHBOARD_PIN", effective: Some(pin_text(c.pin_set)) },
        Variable {
            name: "RUST_LOG",
            effective: Some(text_or_default(&c.rust_log, "info (default)")),
        },
    ];
    if let Some(s) = &c.sounds {
        r.push(Variable {
            name: "MENTISDB_STARTUP_SOUND",
            effective: Some(text_or_default(&s.startup, "true (default)")),
        });
        r.push(Variable {
            name: "MENTISDB_THOUGHT_SOUNDS",
            effective: Some(text_or_default(&s.thoughts, "false (default)")),
        });
    }
    assert(r@.map_values(|v: Variable| variable(v)) =~= configuration_text(*c));
    r
}

/// The lines about the configuration, given what each of the variables is set to.
pub open spec fn configuration_listing(
    variables: Seq<(Seq<char>, Option<Seq<char>>)>,
    raw: Seq<Option<Seq<char>>>,
) -> Seq<Seq<char>> {
    Seq::new(variables.len(), |i: int| variable_text(variables[i].0, raw[i], variables[i].1))
}

/// Whether `raw` is what `read` gives for the variables, in the order of the listing.
pub open spec fn reads_variables<F: Fn(&'static str) -> Option<String>>(
    read: F,
    variables: Seq<(Seq<char>, Option<Seq<char>>)>,
    raw: Seq<Option<String>>,
) -> bool {
    exists|names: Seq<&'static str>|
        {
            &&& (#[trigger] strs(names)) == variables.map_values(
                |v: (Seq<char>, Option<Seq<char>>)| v.0,
            )
            &&& raw.len() == names.len()
            &&& forall|i: int|
                0 <= i < names.len() ==> read.ensures((#[trigger] names[i],), raw[i])
        }
}

/// The lines about the configuration; `read` gives what a variable is set to.
pub fn configuration_lines<F: Fn(&'static str) -> Option<String>>(
    c: &DaemonConfig,
    read: F,
) -> (lines: Vec<String>)
    requires
        forall|name: &'static str| #[trigger] read.requires((name,)),
    ensures
        exists|raw: Seq<Option<String>>| #[trigger]
            reads_variables(read, configuration_text(*c), raw) && texts(lines@)
                == configuration_listing(configuration_text(*c), opt_texts(raw)),
{
    let variables = configuration(c);
    let ghost all = variables@;
    let ghost shown = configuration_text(*c);
    let ghost mut names: Seq<&'static str> = Seq::empty();
    let ghost mut raw: Seq<Option<String>> = Seq::empty();
    let mut lines: Vec<String> = Vec::new();
    assert(all.len() == shown.len()) by {
        assert(all.map_values(|v: Variable| variable(v)).len() == shown.len());
    }
    for v in it: variables.into_iter()
        invariant
            it.seq() == all,
            all.len() == shown.len(),
            shown == all.map_values(|v: Variable| variable(v)),
            names.len() == it.index(),
            raw.len() == it.index(),
            lines@.len() == it.index(),
            forall|name: &'static str| #[trigger] read.requires((name,)),
            forall|i: int| 0 <= i < names.len() ==> #[trigger] names[i] == all[i].name,
            forall|i: int| 0 <= i < names.len() ==> read.ensures((#[trigger] names[i],), raw[i]),
            forall|i: int|
                0 <= i < lines@.len() ==> (#[trigger] lines@[i])@ == variable_text(
                    shown[i].0,
                    opt_text(raw[i]),
                    shown[i].1,
                ),
    {
        let value = read(v.name);
        proof {
            assert(shown[names.len() as int] == variable(v));
            names = names.push(v.name);
            raw = raw.push(value);
        }
        let line = match &value {
            Some(text) => env_var_line(v.name, Some(text.as_str()), v.effective),
            None => env_var_line(v.name, None, v.effective),
        };
        lines.push(line);
    }
    proof {
        assert(strs(names) =~= shown.map_values(|v: (Seq<char>, Option<Seq<char>>)| v.0));
        assert(reads_variables(read, shown, raw));
        assert(texts(lines@) =~= configuration_listing(shown, opt_texts(raw)));
    }
    lines
}

/// The address of a running server, and the port in it.
pub struct Listener {
    pub address: String,
    pub port: u16,
}

/// The line about a running server: its address, and the friendly one.
pub open spec fn resolved_text(
    label: Seq<char>,
    scheme: Seq<char>,
    listener: Listener,
    path: Seq<char>,
) -> Seq<char> {
    label + pad_right(scheme + listener.address@ + path, 32) + "  "@ + painted(
        YELLOW@,
        scheme + "my.mentisdb.com:"@ + decimal(listener.port as nat) + path,
    )
}

/// The line about a server that may be switched off.
pub open spec fn resolved_optional(
    label: Seq<char>,
    listener: Option<Listener>,
    path: Seq<char>,
) -> Seq<Seq<char>> {
    match listener {
        Some(l) => seq![resolved_text(label, "https://"@, l, path)],
        None => Seq::empty(),
    }
}

/// The lines about the running servers.
pub open spec fn resolved_lines(
    mcp: Listener,
    rest: Listener,
    https_mcp: Option<Listener>,
    https_rest: Option<Listener>,
    dashboard: Option<Listener>,
) -> Seq<Seq<char>> {
    seq![
        "Resolved endpoints:"@,
        resolved_text("  MCP  (HTTP)  "@, "http://"@, mcp, Seq::empty()),
        resolved_text("  REST (HTTP)  "@, "http://"@, rest, Seq::empty()),
    ] + resolved_optional("  MCP  (TLS)   "@, https_mcp, Seq::empty()) + resolved_optional(
        "  REST (TLS)   "@,
        https_rest,
        Seq::empty(),
    ) + resolved_optional("  Dashboard    "@, dashboard, "/dashboard"@)
}

/// The line about a running server.
fn resolved_line(label: &str, scheme: &str, listener: &Listener, path: &str) -> (r: String)
    ensures
        r@ == resolved_text(label@, scheme@, *listener, path@),
{
    let local = scheme.to_string().concat(listener.address.as_str()).concat(path);
    let friendly = scheme.to_string().concat("my.mentisdb.com:").concat(
        decimal_text(listener.port as u64).as_str(),
    ).concat(path);
    let mut out = label.to_string();
    push_padded(&mut out, local.as_str(), 32);
    out.concat("  ").concat(painted_text(YELLOW, friendly.as_str()).as_str())
}

/// Adds the line about a server that may be switched off.
fn push_resolved(lines: &mut Vec<String>, label: &str, listener: &Option<Listener>, path: &str)
    ensures
        texts(final(lines)@) == texts(old(lines)@) + resolved_optional(label@, *listener, path@),
{
    if let Some(l) = listener {
        push_line(lines, resolved_line(label, "https://", l, path));
    }
    assert(texts(lines@) =~= texts(old(lines)@) + resolved_optional(label@, *listener, path@));
}

/// The lines about the running servers.
pub fn resolved_endpoints(
    mcp: &Listener,
    rest: &Listener,
    https_mcp: &Option<Listener>,
    https_rest: &Option<Listener>,
    dashboard: &Option<Listener>,
) -> (lines: Vec<String>)
    ensures
        texts(lines@) == resolved_lines(*mcp, *rest, *https_mcp, *https_rest, *dashboard),
{
    let mut lines: Vec<String> = Vec::new();
    proof {
        reveal_strlit("");
        assert(""@ =~= Seq::<char>::empty());
    }
    push_line(&mut lines, "Resolved endpoints:".to_string());
    push_line(&mut lines, resolved_line("  MCP  (HTTP)  ", "http://", mcp, ""));
    push_line(&mut lines, resolved_line("  REST (HTTP)  ", "http://", rest, ""));
    push_resolved(&mut lines, "  MCP  (TLS)   ", https_mcp, "");
    push_resolved(&mut lines, "  REST (TLS)   ", https_rest, "");
    push_resolved(&mut lines, "  Dashboard    ", dashboard, "/dashboard");
    assert(texts(lines@) =~= resolved_lines(*mcp, *rest, *https_mcp, *https_rest, *dashboard));
    lines
}

/// The last lines of the listing: whether chains had to be migrated, and what became
/// of the skill registry.
pub open spec fn running_text(migrations: int, skill_message: Seq<char>) -> Seq<Seq<char>> {
    (if migrations == 0 {
        seq!["No chain migrations required."@]
    } else {
        Seq::empty()
    }) + seq![skill_message, "mentisdbd running"@]
}

/// The last lines of the listing.
pub fn running_lines(migrations: usize, skill_message: String) -> (lines: Vec<String>)
    ensures
        texts(lines@) == running_text(migrations as int, skill_message@),
{
    let mut lines: Vec<String> = Vec::new();
    if migrations == 0 {
        push_line(&mut lines, "No chain migrations required.".to_string());
    }
    push_line(&mut lines, skill_message);
    push_line(&mut lines, "mentisdbd running".to_string());
    assert(texts(lines@) =~= running_text(migrations as int, skill_message@));
    lines
}

/// What the daemon says of itself once its servers run.
pub struct StartupReport {
    pub version: String,
    pub adoption: Option<StorageAdoption>,
    pub config: DaemonConfig,
    /// The number of chains that were migrated.
    pub migrations: usize,
    pub skill_message: String,
    pub mcp: Listener,
    pub rest: Listener,
    pub https_mcp: Option<Listener>,
    pub https_rest: Option<Listener>,
    pub dashboard: Option<Listener>,
}

/// The lines that the daemon ends its start with, given what each of the
/// configuration variables is set to.
pub open spec fn startup_text(report: StartupReport, raw: Seq<Option<Seq<char>>>) -> Seq<
    Seq<char>,
> {
    seq!["mentisdb v"@ + report.version@, "mentisdbd started"@] + adoption_text(report.adoption)
        + seq!["Configuration:"@] + configuration_listing(configuration_text(report.config), raw)
        + running_text(report.migrations as int, report.skill_message@) + resolved_lines(
        report.mcp,
        report.rest,
        report.https_mcp,
        report.https_rest,
        report.dashboard,
    )
}

/// Adds several lines.
fn push_lines(lines: &mut Vec<String>, more: Vec<String>)
    ensures
        texts(final(lines)@) == texts(old(lines)@) + texts(more@),
{
    let ghost all = more@;
    for line in it: more.into_iter()
        invariant
            it.seq() == all,
            texts(lines@) == texts(old(lines)@) + texts(all).take(it.index() as int),
    {
        let ghost k = it.index() as int;
        push_line(lines, line);
        assert(texts(all).take(k + 1) =~= texts(all).take(k).push(line@));
    }
    assert(texts(all).take(all.len() as int) =~= texts(all));
}

/// The lines that the daemon ends its start with; `read` gives what a configuration
/// variable is set to.
pub fn startup_lines<F: Fn(&'static str) -> Option<String>>(
    report: StartupReport,
    read: F,
) -> (lines: Vec<String>)
    requires
        forall|name: &'static str| #[trigger] read.requires((name,)),
    ensures
        exists|raw: Seq<Option<String>>| #[trigger]
            reads_variables(read, configuration_text(report.config), raw) && texts(lines@)
                == startup_text(report, opt_texts(raw)),
{
    let ghost said = report;
    let mut lines: Vec<String> = Vec::new();
    push_line(&mut lines, "mentisdb v".to_string().concat(report.version.as_str()));
    push_line(&mut lines, "mentisdbd started".to_string());
    push_lines(&mut lines, adoption_lines(&report.adoption));
    push_line(&mut lines, "Configuration:".to_string());
    let listing = configuration_lines(&report.config, read);
    let ghost raw = choose|raw: Seq<Option<String>>| #[trigger]
        reads_variables(read, configuration_text(said.config), raw) && texts(listing@)
            == configuration_listing(configuration_text(said.config), opt_texts(raw));
    push_lines(&mut lines, listing);
    push_lines(&mut lines, running_lines(report.migrations, report.skill_message));
    push_lines(
        &mut lines,
        resolved_endpoints(
            &report.mcp,
            &report.rest,
            &report.https_mcp,
            &report.https_rest,
            &report.dashboard,
        ),
    );
    assert(texts(lines@) =~= startup_text(said, opt_texts(raw)));
    lines
}

/// A line of the banner: its left part in green, its right part in pink.
pub open spec fn banner_line(left: Seq<char>, right: Seq<char>) -> Seq<char> {
    painted(GREEN@, left) + " "@ + painted(PINK@, right)
}

/// The lines of the banner.
pub open spec fn banner_text() -> Seq<Seq<char>> {
    seq![
        banner_line("███╗   ███╗███████╗███╗   ██╗████████╗██╗███████╗"@, "██████╗ ██████╗ "@),
        banner_line("████╗ ████║██╔════╝████╗  ██║╚══██╔══╝██║██╔════╝"@, "██╔══██╗██╔══██╗"@),
        banner_line("██╔████╔██║█████╗  ██╔██╗ ██║   ██║   ██║███████╗"@, "██║  ██║██████╔╝"@),
        banner_line("██║╚██╔╝██║██╔══╝  ██║╚██╗██║   ██║   ██║╚════██║"@, "██║  ██║██╔══██╗"@),
        banner_line("██║ ╚═╝ ██║███████╗██║ ╚████║   ██║   ██║███████║"@, "██████╔╝██████╔╝"@),
        banner_line("╚═╝     ╚═╝╚══════╝╚═╝  ╚═══╝   ╚═╝   ╚═╝╚══════╝"@, "╚═════╝ ╚═════╝ "@),
    ]
}

/// A line of the banner.
fn banner_row(left: &str, right: &str) -> (r: String)
    ensures
        r@ == banner_line(left@, right@),
{
    painted_text(GREEN, left).concat(" ").concat(painted_text(PINK, right).as_str())
}

/// The banner.
pub fn banner() -> (lines: Vec<String>)
    ensures
        texts(lines@) == banner_text(),
{
    let lines: Vec<String> = vec![
        banner_row("███╗   ███╗███████╗███╗   ██╗████████╗██╗███████╗", "██████╗ ██████╗ "),
        banner_row("████╗ ████║██╔════╝████╗  ██║╚══██╔══╝██║██╔════╝", "██╔══██╗██╔══██╗"),
        banner_row("██╔████╔██║█████╗  ██╔██╗ ██║   ██║   ██║███████╗", "██║  ██║██████╔╝"),
        banner_row("██║╚██╔╝██║██╔══╝  ██║╚██╗██║   ██║   ██║╚════██║", "██║  ██║██╔══██╗"),
        banner_row("██║ ╚═╝ ██║███████╗██║ ╚████║   ██║   ██║███████║", "██████╔╝██████╔╝"),
        banner_row("╚═╝     ╚═╝╚══════╝╚═╝  ╚═══╝   ╚═╝   ╚═╝╚══════╝", "╚═════╝ ╚═════╝ "),
    ];
    assert(texts(lines@) =~= banner_text());
    lines
}

/// A progress bar has twenty marks at any step: none filled at the start, all at the
/// end, and never fewer after a further step.
pub proof fn law_progress_bar(current: int, later: int, total: int)
    requires
        0 <= current <= later,
    ensures
        0 <= bar_filled(current, total) <= bar_filled(later, total) <= 20,
        bar_filled(0, total) == 0,
        bar_total(total) <= current ==> bar_filled(current, total) == 20,
{
    let n = bar_total(total);
    let a = bar_done(current, total);
    let b = bar_done(later, total);
    assert(0 <= (a * 20) / n <= (b * 20) / n <= 20) by (nonlinear_arith)
        requires
            0 <= a <= b <= n,
            1 <= n,
    ;
    assert((0int * 20) / n == 0) by (nonlinear_arith)
        requires
            1 <= n,
    ;
    assert((n * 20) / n == 20) by (nonlinear_arith)
        requires
            1 <= n,
    ;
}

/// A progress bar shows its twenty marks between brackets, the filled ones first, as many
/// as are due to the steps done, and behind them how many steps are done, and of how
/// many. More steps than there are count as all, and none at all as one.
pub proof fn law_progress_bar_shows_the_steps(current: int, total: int, i: int)
    requires
        0 <= current,
    ensures
        ({
            let all = if total < 1 {
                1
            } else {
                total
            };
            let done = if current > all {
                all
            } else {
                current
            };
            let filled = bar_filled(current, total);
            let text = bar_text(current, total);
            &&& filled * all <= done * 20 < (filled + 1) * all
            &&& text[0] == '['
            &&& 1 <= i <= 20 ==> text[i] == (if i <= filled {
                '#'
            } else {
                '-'
            })
            &&& text[21] == ']'
            &&& text[22] == ' '
            &&& text.skip(23) == decimal(done as nat) + seq!['/'] + decimal(all as nat)
        }),
{
    let n = bar_total(total);
    let done = bar_done(current, total);
    let filled = bar_filled(current, total);
    law_progress_bar(current, current, total);
    vstd::arithmetic::div_mod::lemma_fundamental_div_mod(done * 20, n);
    assert(filled * n <= done * 20 < (filled + 1) * n) by (nonlinear_arith)
        requires
            done * 20 == n * filled + (done * 20) % n,
            0 <= (done * 20) % n < n,
    ;
    reveal_strlit("[");
    reveal_strlit("] ");
    reveal_strlit("/");
    reveal_strlit("#");
    reveal_strlit("-");
    assert("#"@ =~= seq!['#']);
    assert("-"@ =~= seq!['-']);
    crate::text::law_repetition('#', filled as nat);
    crate::text::law_repetition('-', (20 - filled) as nat);
    let text = bar_text(current, total);
    assert(text.skip(23) =~= decimal(done as nat) + seq!['/'] + decimal(n as nat));
}

/// A line about a migration names the chain, and from what to what it is taken, in this
/// order.
pub proof fn law_migration_names_the_chain(event: MigrationEvent)
    ensures
        match event {
            MigrationEvent::Started { chain_key, from_version, to_version, current, total } => {
                &&& event.progress() == (current, total)
                &&& event.action() == " Migrating chain "@ + chain_key@ + " from version "@
                    + decimal(from_version as nat) + " to version "@ + decimal(to_version as nat)
            },
            MigrationEvent::Completed { chain_key, from_version, to_version, current, total } => {
                &&& event.progress() == (current, total)
                &&& event.action() == " Migrated chain "@ + chain_key@ + " from version "@
                    + decimal(from_version as nat) + " to version "@ + decimal(to_version as nat)
            },
            MigrationEvent::StartedReconciliation {
                chain_key,
                from_storage_adapter,
                to_storage_adapter,
                current,
                total,
            } => {
                &&& event.progress() == (current, total)
                &&& event.action() == " Reconciling chain "@ + chain_key@ + " from "@
                    + from_storage_adapter@ + " storage to "@ + to_storage_adapter@ + " storage"@
            },
            MigrationEvent::CompletedReconciliation {
                chain_key,
                from_storage_adapter,
                to_storage_adapter,
                current,
                total,
            } => {
                &&& event.progress() == (current, total)
                &&& event.action() == " Reconciled chain "@ + chain_key@ + " from "@
                    + from_storage_adapter@ + " storage to "@ + to_storage_adapter@ + " storage"@
            },
        },
{
}

/// The message about a migration of the skill registry gives the number of skills, then
/// of versions, then the old and the new version of the registry, then its path.
pub proof fn law_skill_migration_is_told(m: SkillMigration)
    ensures
        ({
            let counts = "Skill registry migrated: "@ + decimal(m.skills_migrated as nat)
                + " skill(s), "@ + decimal(m.versions_migrated as nat);
            let versions = " version(s) converted (v"@ + decimal(m.from_version as nat) + " → v"@
                + decimal(m.to_version as nat);
            skill_migration_text(m) == counts + versions + (") at "@ + m.path@)
        }),
{
    let counts = "Skill registry migrated: "@ + decimal(m.skills_migrated as nat) + " skill(s), "@
        + decimal(m.versions_migrated as nat);
    let versions = " version(s) converted (v"@ + decimal(m.from_version as nat) + " → v"@
        + decimal(m.to_version as nat);
    assert(skill_migration_text(m) =~= counts + versions + (") at "@ + m.path@));
}

/// An adopted storage is told of with a heading, with what became of the directory, and,
/// just if it was renamed, of the registry; without one nothing is said.
pub proof fn law_adoption_is_told(adoption: Option<StorageAdoption>)
    ensures
        adoption is None ==> adoption_text(adoption).len() == 0,
        adoption matches Some(a) ==> {
            let lines = adoption_text(adoption);
            &&& lines.len() == (if a.renamed_registry_file {
                3
            } else {
                2int
            })
            &&& lines[0] == "Legacy storage adoption:"@
            &&& a.renamed_root_dir ==> lines[1] == "  Renamed "@ + a.source_dir@ + " -> "@
                + a.target_dir@
            &&& !a.renamed_root_dir ==> lines[1] == "  Merged "@ + decimal(a.merged_entries as nat)
                + " legacy entries from "@ + a.source_dir@ + " into "@ + a.target_dir@
            &&& a.renamed_registry_file ==> lines[2]
                == "  Renamed thoughtchain-registry.json -> mentisdb-registry.json"@
        },
{
}

/// A variable is listed with what it is set to, or as unset, and with the value in
/// effect, or `<none>`.
pub proof fn law_variable_is_listed_with_its_value(
    name: Seq<char>,
    raw: Option<Seq<char>>,
    effective: Option<Seq<char>>,
)
    ensures
        ({
            let value = if effective is Some {
                effective->0
            } else {
                "<none>"@
            };
            let line = variable_text(name, raw, effective);
            let start = "  "@ + (YELLOW@ + name + crate::paint::RESET@);
            let end = (GREEN@ + value + crate::paint::RESET@) + ")"@;
            &&& raw is Some ==> line == start + "="@ + raw->0 + " (effective: "@ + end
            &&& raw is None ==> line == start + "=<unset> (effective default: "@ + end
            &&& displayed(effective) == value
        }),
{
    let value = displayed(effective);
    let line = variable_text(name, raw, effective);
    let start = "  "@ + (YELLOW@ + name + crate::paint::RESET@);
    let end = (GREEN@ + value + crate::paint::RESET@) + ")"@;
    if raw is Some {
        assert(line =~= start + "="@ + raw->0 + " (effective: "@ + end);
    } else {
        assert(line =~= start + "=<unset> (effective default: "@ + end);
    }
}

/// Whether a variable is listed with a number as its value.
pub open spec fn shows_number(
    entry: (Seq<char>, Option<Seq<char>>),
    name: Seq<char>,
    n: nat,
) -> bool {
    entry.0 == name && entry.1 is Some && crate::text::digits_value(entry.1->0) == n
}

/// Every part of the configuration is listed under its own variable: ports as numbers, a
/// server that is switched off as `disabled`, and of the PIN only whether there is one.
/// The sounds are listed just if the daemon can play any.
pub proof fn law_configuration_lists_every_setting(c: DaemonConfig)
    ensures
        ({
            let list = configuration_text(c);
            &&& list[0] == ("MENTISDB_DIR"@, Some(c.chain_dir@))
            &&& list[1] == ("MENTISDB_DEFAULT_KEY"@, Some(c.default_chain_key@))
            &&& list[2] == ("MENTISDB_DEFAULT_STORAGE_ADAPTER"@, Some(c.storage_adapter@))
            &&& list[3] == ("MENTISDB_STORAGE_ADAPTER"@, Some(c.storage_adapter@))
            &&& list[4] == ("MENTISDB_AUTO_FLUSH"@, Some(if c.auto_flush { "true"@ } else { "false"@ }))
            &&& list[5] == ("MENTISDB_VERBOSE"@, Some(if c.verbose { "true"@ } else { "false"@ }))
            &&& list[6] == ("MENTISDB_LOG_FILE"@, (if c.log_file is Some { Some(c.log_file->0@) } else { None }))
            &&& list[7] == ("MENTISDB_BIND_HOST"@, Some(c.bind_host@))
            &&& shows_number(list[8], "MENTISDB_MCP_PORT"@, c.mcp_port as nat)
            &&& shows_number(list[9], "MENTISDB_REST_PORT"@, c.rest_port as nat)
            &&& c.https_mcp_port matches Some(p) ==> shows_number(list[10], "MENTISDB_HTTPS_MCP_PORT"@, p as nat)
            &&& c.https_mcp_port is None ==> list[10] == ("MENTISDB_HTTPS_MCP_PORT"@, Some("disabled"@))
            &&& c.https_rest_port matches Some(p) ==> shows_number(list[11], "MENTISDB_HTTPS_REST_PORT"@, p as nat)
            &&& c.https_rest_port is None ==> list[11] == ("MENTISDB_HTTPS_REST_PORT"@, Some("disabled"@))
            &&& list[12] == ("MENTISDB_TLS_CERT"@, Some(c.tls_cert@))
            &&& list[13] == ("MENTISDB_TLS_KEY"@, Some(c.tls_key@))
            &&& c.dashboard_port matches Some(p) ==> shows_number(list[14], "MENTISDB_DASHBOARD_PORT"@, p as nat)
            &&& c.dashboard_port is None ==> list[14] == ("MENTISDB_DASHBOARD_PORT"@, Some("disabled"@))
            &&& list[15] == ("MENTISDB_DASHBOARD_PIN"@, Some(if c.pin_set { "set"@ } else { "not set"@ }))
            &&& list[16] == ("RUST_LOG"@, Some(if c.rust_log is Some { c.rust_log->0@ } else { "info (default)"@ }))
            &&& c.sounds is None ==> list.len() == 17
            &&& c.sounds matches Some(s) ==> {
                &&& list.len() == 19
                &&& list[17] == ("MENTISDB_STARTUP_SOUND"@, Some(if s.startup is Some {
                    s.startup->0@
                } else {
                    "true (default)"@
                }))
                &&& list[18] == ("MENTISDB_THOUGHT_SOUNDS"@, Some(if s.thoughts is Some {
                    s.thoughts->0@
                } else {
                    "false (default)"@
                }))
            }
        }),
{
    crate::text::law_decimal_stands_for_the_number(c.mcp_port as nat);
    crate::text::law_decimal_stands_for_the_number(c.rest_port as nat);
    if let Some(p) = c.https_mcp_port {
        crate::text::law_decimal_stands_for_the_number(p as nat);
    }
    if let Some(p) = c.https_rest_port {
        crate::text::law_decimal_stands_for_the_number(p as nat);
    }
    if let Some(p) = c.dashboard_port {
        crate::text::law_decimal_stands_for_the_number(p as nat);
    }
}

/// Whether a line tells of a running server: behind the label its own address, and at
/// the end, in yellow, the friendly one with its port.
pub open spec fn tells_of_server(
    line: Seq<char>,
    label: Seq<char>,
    scheme: Seq<char>,
    listener: Listener,
    path: Seq<char>,
) -> bool {
    let local = scheme + listener.address@ + path;
    let friendly = YELLOW@ + (scheme + "my.mentisdb.com:"@ + decimal(listener.port as nat) + path)
        + crate::paint::RESET@;
    let field = if local.len() < 32 {
        32
    } else {
        local.len() as int
    };
    let from = label.len() as int;
    &&& line.len() == from + field + 2 + friendly.len()
    &&& line.take(from) == label
    &&& line.subrange(from, from + local.len()) == local
    &&& forall|j: int| from + local.len() <= j < from + field + 2 ==> #[trigger] line[j] == ' '
    &&& line.skip(from + field + 2) == friendly
}

proof fn lemma_tells_of_server(
    label: Seq<char>,
    scheme: Seq<char>,
    listener: Listener,
    path: Seq<char>,
)
    ensures
        tells_of_server(
            resolved_text(label, scheme, listener, path),
            label,
            scheme,
            listener,
            path,
        ),
{
    let line = resolved_text(label, scheme, listener, path);
    let local = scheme + listener.address@ + path;
    let friendly = painted(
        YELLOW@,
        scheme + "my.mentisdb.com:"@ + decimal(listener.port as nat) + path,
    );
    let padded = pad_right(local, 32);
    crate::text::law_padding_adds_spaces_behind(local, 32);
    reveal_strlit("  ");
    let from = label.len() as int;
    let field = padded.len() as int;
    assert(line.take(from) =~= label);
    assert(line.subrange(from, from + local.len()) =~= padded.take(local.len() as int));
    assert forall|j: int| from + local.len() <= j < from + field + 2 implies #[trigger] line[j]
        == ' ' by {
        if j < from + field {
            assert(line[j] == padded[j - from]);
        }
    }
    assert(line.skip(from + field + 2) =~= friendly);
}

/// Every running server is told of in a line of its own, with its own address and port,
/// in a fixed order; one that is switched off is not.
pub proof fn law_every_server_is_told_of(
    mcp: Listener,
    rest: Listener,
    https_mcp: Option<Listener>,
    https_rest: Option<Listener>,
    dashboard: Option<Listener>,
)
    ensures
        ({
            let lines = resolved_lines(mcp, rest, https_mcp, https_rest, dashboard);
            let a = 3 + (if https_mcp is Some {
                1int
            } else {
                0
            });
            let b = a + (if https_rest is Some {
                1int
            } else {
                0
            });
            let none = Seq::<char>::empty();
            &&& lines.len() == b + (if dashboard is Some {
                1int
            } else {
                0
            })
            &&& lines[0] == "Resolved endpoints:"@
            &&& tells_of_server(lines[1], "  MCP  (HTTP)  "@, "http://"@, mcp, none)
            &&& tells_of_server(lines[2], "  REST (HTTP)  "@, "http://"@, rest, none)
            &&& https_mcp matches Some(l) ==> tells_of_server(
                lines[3],
                "  MCP  (TLS)   "@,
                "https://"@,
                l,
                none,
            )
            &&& https_rest matches Some(l) ==> tells_of_server(
                lines[a],
                "  REST (TLS)   "@,
                "https://"@,
                l,
                none,
            )
            &&& dashboard matches Some(l) ==> tells_of_server(
                lines[b],
                "  Dashboard    "@,
                "https://"@,
                l,
                "/dashboard"@,
            )
        }),
{
    let none = Seq::<char>::empty();
    lemma_tells_of_server("  MCP  (HTTP)  "@, "http://"@, mcp, none);
    lemma_tells_of_server("  REST (HTTP)  "@, "http://"@, rest, none);
    if let Some(l) = https_mcp {
        lemma_tells_of_server("  MCP  (TLS)   "@, "https://"@, l, none);
    }
    if let Some(l) = https_rest {
        lemma_tells_of_server("  REST (TLS)   "@, "https://"@, l, none);
    }
    if let Some(l) = dashboard {
        lemma_tells_of_server("  Dashboard    "@, "https://"@, l, "/dashboard"@);
    }
}

/// That no chain had to be migrated is said just if none was; the message about the
/// skill registry and the notice that the daemon runs always follow.
pub proof fn law_last_lines(migrations: int, skill_message: Seq<char>)
    ensures
        ({
            let lines = running_text(migrations, skill_message);
            &&& migrations == 0 ==> lines.len() == 3 && lines[0] == "No chain migrations required."@
            &&& migrations != 0 ==> lines.len() == 2
            &&& lines[lines.len() - 2] == skill_message
            &&& lines[lines.len() - 1] == "mentisdbd running"@
        }),
{
}

/// The daemon ends its start with its version, the notice that it started, the adopted
/// storage, every setting in a line of its own, the last lines and the running servers,
/// in this order and without a gap.
pub proof fn law_startup_in_order(report: StartupReport, raw: Seq<Option<Seq<char>>>, i: int)
    ensures
        ({
            let lines = startup_text(report, raw);
            let settings = configuration_text(report.config);
            let adopted = adoption_text(report.adoption);
            let last = running_text(report.migrations as int, report.skill_message@);
            let servers = resolved_lines(
                report.mcp,
                report.rest,
                report.https_mcp,
                report.https_rest,
                report.dashboard,
            );
            let c = 2 + adopted.len() as int;
            let d = c + 1 + settings.len();
            let e = d + last.len();
            &&& lines.len() == e + servers.len()
            &&& lines[0] == "mentisdb v"@ + report.version@
            &&& lines[1] == "mentisdbd started"@
            &&& lines.subrange(2, c) == adopted
            &&& lines[c] == "Configuration:"@
            &&& 0 <= i < settings.len() ==> lines[c + 1 + i] == variable_text(
                settings[i].0,
                raw[i],
                settings[i].1,
            )
            &&& lines.subrange(d, e) == last
            &&& lines.skip(e) == servers
        }),
{
    let lines = startup_text(report, raw);
    let settings = configuration_text(report.config);
    let adopted = adoption_text(report.adoption);
    let last = running_text(report.migrations as int, report.skill_message@);
    let servers = resolved_lines(
        report.mcp,
        report.rest,
        report.https_mcp,
        report.https_rest,
        report.dashboard,
    );
    let c = 2 + adopted.len() as int;
    let d = c + 1 + settings.len();
    let e = d + last.len();
    let listing = configuration_listing(settings, raw);
    assert(lines.subrange(2, c) =~= adopted);
    assert(lines.subrange(d, e) =~= last);
    assert(lines.skip(e) =~= servers);
    if 0 <= i < settings.len() {
        assert(lines[c + 1 + i] == listing[i]);
    }
}

/// The banner spells the name in six lines, its first part in green and `DB` in pink.
pub proof fn law_banner_spells_the_name()
    ensures
        banner_text().len() == 6,
        banner_text()[0] == GREEN@ + "███╗   ███╗███████╗███╗   ██╗████████╗██╗███████╗"@ + crate::paint::RESET@ + " "@ + (PINK@
            + "██████╗ ██████╗ "@ + crate::paint::RESET@),
        banner_text()[1] == GREEN@ + "████╗ ████║██╔════╝████╗  ██║╚══██╔══╝██║██╔════╝"@ + crate::paint::RESET@ + " "@ + (PINK@
            + "██╔══██╗██╔══██╗"@ + crate::paint::RESET@),
        banner_text()[2] == GREEN@ + "██╔████╔██║█████╗  ██╔██╗ ██║   ██║   ██║███████╗"@ + crate::paint::RESET@ + " "@ + (PINK@
            + "██║  ██║██████╔╝"@ + crate::paint::RESET@),
        banner_text()[3] == GREEN@ + "██║╚██╔╝██║██╔══╝  ██║╚██╗██║   ██║   ██║╚════██║"@ + crate::paint::RESET@ + " "@ + (PINK@
            + "██║  ██║██╔══██╗"@ + crate::paint::RESET@),
        banner_text()[4] == GREEN@ + "██║ ╚═╝ ██║███████╗██║ ╚████║   ██║   ██║███████║"@ + crate::paint::RESET@ + " "@ + (PINK@
            + "██████╔╝██████╔╝"@ + crate::paint::RESET@),
        banner_text()[5] == GREEN@ + "╚═╝     ╚═╝╚══════╝╚═╝  ╚═══╝   ╚═╝   ╚═╝╚══════╝"@ + crate::paint::RESET@ + " "@ + (PINK@
            + "╚═════╝ ╚═════╝ "@ + crate::paint::RESET@),
{
}

/// The progress of a migration can be shown unless twenty times the steps done are too
/// many for the machine.
pub proof fn law_which_progress_can_be_shown(event: MigrationEvent)
    ensures
        event.progress().0 * 20 <= usize::MAX ==> event.shows(),
        event.progress().1 >= 1 && event.progress().1 * 20 <= usize::MAX ==> event.shows(),
        event.progress().0 <= event.progress().1 && event.progress().0 * 20 > usize::MAX
            ==> !event.shows(),
{
}

/// Each variable is read under its own name, and what was read is listed for it.
pub proof fn law_variables_are_read<F: Fn(&'static str) -> Option<String>>(
    read: F,
    variables: Seq<(Seq<char>, Option<Seq<char>>)>,
    raw: Seq<Option<String>>,
    i: int,
)
    requires
        reads_variables(read, variables, raw),
        0 <= i < variables.len(),
    ensures
        raw.len() == variables.len(),
        exists|name: &'static str|
            name@ == variables[i].0 && #[trigger] read.ensures((name,), raw[i]),
        configuration_listing(variables, opt_texts(raw)).len() == variables.len(),
        configuration_listing(variables, opt_texts(raw))[i] == variable_text(
            variables[i].0,
            opt_text(raw[i]),
            variables[i].1,
        ),
{
    let wanted = variables.map_values(|v: (Seq<char>, Option<Seq<char>>)| v.0);
    let names = choose|names: Seq<&'static str>|
        {
            &&& (#[trigger] strs(names)) == wanted
            &&& raw.len() == names.len()
            &&& forall|i: int|
                0 <= i < names.len() ==> read.ensures((#[trigger] names[i],), raw[i])
        };
    assert(strs(names).len() == wanted.len());
    assert(strs(names)[i] == wanted[i]);
    assert(read.ensures((names[i],), raw[i]));
}

} // verus!
