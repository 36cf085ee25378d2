use mentisdbd::catalog::{endpoint_catalog, tls_tip};
use mentisdbd::startup::{
    adoption_lines, banner, configuration, configuration_lines, display_value, env_var_line,
    migration_line, progress_bar, resolved_endpoints, running_lines, skill_registry_message,
    startup_lines, DaemonConfig, Listener, MigrationEvent, SkillMigration, SoundSettings,
    StartupReport, StorageAdoption,
};

const GREEN: &str = "\u{1b}[38;5;82m";
const YELLOW: &str = "\u{1b}[38;5;226m";
const PINK: &str = "\u{1b}[38;5;213m";
const RESET: &str = "\u{1b}[0m";

fn config() -> DaemonConfig {
    DaemonConfig {
        chain_dir: "/data".to_string(),
        default_chain_key: "main".to_string(),
        storage_adapter: "binary".to_string(),
        auto_flush: true,
        verbose: false,
        log_file: None,
        bind_host: "127.0.0.1".to_string(),
        mcp_port: 9471,
        rest_port: 9472,
        https_mcp_port: Some(9473),
        https_rest_port: None,
        tls_cert: "/cert.pem".to_string(),
        tls_key: "/key.pem".to_string(),
        dashboard_port: None,
        pin_set: true,
        rust_log: None,
        sounds: None,
    }
}

fn listener(port: u16) -> Listener {
    Listener { address: format!("127.0.0.1:{port}"), port }
}

#[test]
fn missing_values_are_shown_as_none() {
    assert_eq!(display_value(None), "<none>");
    assert_eq!(display_value(Some("x".to_string())), "x");
}

#[test]
fn progress_bars() {
    assert_eq!(progress_bar(0, 4), "[--------------------] 0/4");
    assert_eq!(progress_bar(1, 4), "[#####---------------] 1/4");
    assert_eq!(progress_bar(1, 3), "[######--------------] 1/3");
    assert_eq!(progress_bar(4, 4), "[####################] 4/4");
    assert_eq!(progress_bar(9, 4), "[####################] 4/4");
    assert_eq!(progress_bar(0, 0), "[--------------------] 0/1");
    assert_eq!(progress_bar(3, 0), "[####################] 1/1");
}

#[test]
fn progress_bars_have_twenty_marks() {
    for total in 0..30usize {
        let mut before = 0;
        for current in 0..35usize {
            let bar = progress_bar(current, total);
            let filled = bar.matches('#').count();
            assert_eq!(filled + bar.matches('-').count(), 20);
            assert!(before <= filled);
            before = filled;
        }
        assert_eq!(before, 20);
    }
}

#[test]
fn migration_lines() {
    let started = MigrationEvent::Started {
        chain_key: "k".to_string(),
        from_version: 1,
        to_version: 2,
        current: 0,
        total: 2,
    };
    assert!(started.printable());
    assert_eq!(
        migration_line(&started),
        "[--------------------] 0/2 Migrating chain k from version 1 to version 2"
    );
    let completed = MigrationEvent::Completed {
        chain_key: "k".to_string(),
        from_version: 1,
        to_version: 2,
        current: 1,
        total: 2,
    };
    assert_eq!(
        migration_line(&completed),
        "[##########----------] 1/2 Migrated chain k from version 1 to version 2"
    );
    let started = MigrationEvent::StartedReconciliation {
        chain_key: "k".to_string(),
        from_storage_adapter: "jsonl".to_string(),
        to_storage_adapter: "binary".to_string(),
        current: 1,
        total: 1,
    };
    assert_eq!(
        migration_line(&started),
        "[####################] 1/1 Reconciling chain k from jsonl storage to binary storage"
    );
    let completed = MigrationEvent::CompletedReconciliation {
        chain_key: "k".to_string(),
        from_storage_adapter: "jsonl".to_string(),
        to_storage_adapter: "binary".to_string(),
        current: 1,
        total: 1,
    };
    assert_eq!(
        migration_line(&completed),
        "[####################] 1/1 Reconciled chain k from jsonl storage to binary storage"
    );
}

#[test]
fn huge_progress_is_not_printable() {
    let event = MigrationEvent::Started {
        chain_key: String::new(),
        from_version: 0,
        to_version: 0,
        current: usize::MAX,
        total: usize::MAX,
    };
    assert!(!event.printable());
}

#[test]
fn skill_registry_messages() {
    assert_eq!(
        skill_registry_message(Ok(None)),
        Ok("Skill registry: up to date, no migration required.".to_string())
    );
    let report = SkillMigration {
        skills_migrated: 3,
        versions_migrated: 5,
        from_version: 1,
        to_version: 2,
        path: "/data/skills".to_string(),
    };
    assert_eq!(
        skill_registry_message(Ok(Some(report))),
        Ok("Skill registry migrated: 3 skill(s), 5 version(s) converted (v1 → v2) at /data/skills"
            .to_string())
    );
    assert_eq!(
        skill_registry_message(Err("bad".to_string())),
        Err("Skill registry migration failed — cannot start server: bad".to_string())
    );
}

#[test]
fn adopted_storage() {
    assert!(adoption_lines(&None).is_empty());
    let renamed = StorageAdoption {
        renamed_root_dir: true,
        source_dir: "/old".to_string(),
        target_dir: "/new".to_string(),
        merged_entries: 0,
        renamed_registry_file: false,
    };
    assert_eq!(
        adoption_lines(&Some(renamed)),
        vec!["Legacy storage adoption:", "  Renamed /old -> /new"]
    );
    let merged = StorageAdoption {
        renamed_root_dir: false,
        source_dir: "/old".to_string(),
        target_dir: "/new".to_string(),
        merged_entries: 4,
        renamed_registry_file: true,
    };
    assert_eq!(
        adoption_lines(&Some(merged)),
        vec![
            "Legacy storage adoption:",
            "  Merged 4 legacy entries from /old into /new",
            "  Renamed thoughtchain-registry.json -> mentisdb-registry.json",
        ]
    );
}

#[test]
fn configuration_variable_lines() {
    assert_eq!(
        env_var_line("A", Some("1"), Some("2".to_string())),
        format!("  {YELLOW}A{RESET}=1 (effective: {GREEN}2{RESET})")
    );
    assert_eq!(
        env_var_line("A", None, None),
        format!("  {YELLOW}A{RESET}=<unset> (effective default: {GREEN}<none>{RESET})")
    );
}

#[test]
fn configuration_in_order() {
    let shown: Vec<(&str, Option<String>)> =
        configuration(&config()).into_iter().map(|v| (v.name, v.effective)).collect();
    let expected: Vec<(&str, Option<&str>)> = vec![
        ("MENTISDB_DIR", Some("/data")),
        ("MENTISDB_DEFAULT_KEY", Some("main")),
        ("MENTISDB_DEFAULT_STORAGE_ADAPTER", Some("binary")),
        ("MENTISDB_STORAGE_ADAPTER", Some("binary")),
        ("MENTISDB_AUTO_FLUSH", Some("true")),
        ("MENTISDB_VERBOSE", Some("false")),
        ("MENTISDB_LOG_FILE", None),
        ("MENTISDB_BIND_HOST", Some("127.0.0.1")),
        ("MENTISDB_MCP_PORT", Some("9471")),
        ("MENTISDB_REST_PORT", Some("9472")),
        ("MENTISDB_HTTPS_MCP_PORT", Some("9473")),
        ("MENTISDB_HTTPS_REST_PORT", Some("disabled")),
        ("MENTISDB_TLS_CERT", Some("/cert.pem")),
        ("MENTISDB_TLS_KEY", Some("/key.pem")),
        ("MENTISDB_DASHBOARD_PORT", Some("disabled")),
        ("MENTISDB_DASHBOARD_PIN", Some("set")),
        ("RUST_LOG", Some("info (default)")),
    ];
    assert_eq!(shown.len(), expected.len());
    for (found, wanted) in shown.iter().zip(expected) {
        assert_eq!((found.0, found.1.as_deref()), wanted);
    }
}

#[test]
fn configuration_with_sounds() {
    let mut c = config();
    c.sounds = Some(SoundSettings { startup: None, thoughts: Some("on".to_string()) });
    c.rust_log = Some("debug".to_string());
    c.pin_set = false;
    let shown = configuration(&c);
    assert_eq!(shown.len(), 19);
    assert_eq!(shown[15].effective.as_deref(), Some("not set"));
    assert_eq!(shown[16].effective.as_deref(), Some("debug"));
    assert_eq!(shown[17].name, "MENTISDB_STARTUP_SOUND");
    assert_eq!(shown[17].effective.as_deref(), Some("true (default)"));
    assert_eq!(shown[18].name, "MENTISDB_THOUGHT_SOUNDS");
    assert_eq!(shown[18].effective.as_deref(), Some("on"));
    c.sounds = Some(SoundSettings { startup: Some("0".to_string()), thoughts: None });
    let shown = configuration(&c);
    assert_eq!(shown[17].effective.as_deref(), Some("0"));
    assert_eq!(shown[18].effective.as_deref(), Some("false (default)"));
}

#[test]
fn configuration_shows_what_is_set() {
    let lines = configuration_lines(&config(), |name| {
        if name == "MENTISDB_DIR" {
            Some("data".to_string())
        } else {
            None
        }
    });
    assert_eq!(lines.len(), 17);
    assert_eq!(
        lines[0],
        format!("  {YELLOW}MENTISDB_DIR{RESET}=data (effective: {GREEN}/data{RESET})")
    );
    assert_eq!(
        lines[1],
        format!(
            "  {YELLOW}MENTISDB_DEFAULT_KEY{RESET}=<unset> (effective default: {GREEN}main{RESET})"
        )
    );
}

#[test]
fn resolved_endpoint_lines() {
    let lines = resolved_endpoints(&listener(1), &listener(2), &None, &None, &None);
    assert_eq!(
        lines,
        vec![
            "Resolved endpoints:".to_string(),
            format!(
                "  MCP  (HTTP)  {:<32}  {YELLOW}http://my.mentisdb.com:1{RESET}",
                "http://127.0.0.1:1"
            ),
            format!(
                "  REST (HTTP)  {:<32}  {YELLOW}http://my.mentisdb.com:2{RESET}",
                "http://127.0.0.1:2"
            ),
        ]
    );
    let lines = resolved_endpoints(
        &listener(1),
        &listener(2),
        &Some(listener(3)),
        &Some(listener(4)),
        &Some(listener(65535)),
    );
    assert_eq!(lines.len(), 6);
    assert_eq!(
        lines[3],
        format!(
            "  MCP  (TLS)   {:<32}  {YELLOW}https://my.mentisdb.com:3{RESET}",
            "https://127.0.0.1:3"
        )
    );
    assert_eq!(
        lines[4],
        format!(
            "  REST (TLS)   {:<32}  {YELLOW}https://my.mentisdb.com:4{RESET}",
            "https://127.0.0.1:4"
        )
    );
    assert_eq!(
        lines[5],
        format!(
            "  Dashboard    {:<32}  {YELLOW}https://my.mentisdb.com:65535/dashboard{RESET}",
            "https://127.0.0.1:65535/dashboard"
        )
    );
}

#[test]
fn last_lines() {
    assert_eq!(
        running_lines(0, "s".to_string()),
        vec!["No chain migrations required.", "s", "mentisdbd running"]
    );
    assert_eq!(running_lines(1, "s".to_string()), vec!["s", "mentisdbd running"]);
}

#[test]
fn startup_report_in_order() {
    let report = StartupReport {
        version: "1.2.3".to_string(),
        adoption: None,
        config: config(),
        migrations: 0,
        skill_message: "skills".to_string(),
        mcp: listener(1),
        rest: listener(2),
        https_mcp: None,
        https_rest: None,
        dashboard: Some(listener(5)),
    };
    let lines = startup_lines(report, |_| None);
    assert_eq!(lines[0], "mentisdb v1.2.3");
    assert_eq!(lines[1], "mentisdbd started");
    assert_eq!(lines[2], "Configuration:");
    assert!(lines[3].contains("MENTISDB_DIR"));
    assert!(lines[19].contains("RUST_LOG"));
    assert_eq!(lines[20], "No chain migrations required.");
    assert_eq!(lines[21], "skills");
    assert_eq!(lines[22], "mentisdbd running");
    assert_eq!(lines[23], "Resolved endpoints:");
    assert!(lines[26].starts_with("  Dashboard    https://127.0.0.1:5/dashboard "));
    assert_eq!(lines.len(), 27);
}

#[test]
fn banner_lines() {
    let lines = banner();
    assert_eq!(lines.len(), 6);
    assert_eq!(
        lines[0],
        format!(
            "{GREEN}███╗   ███╗███████╗███╗   ██╗████████╗██╗███████╗{RESET} \
             {PINK}██████╗ ██████╗ {RESET}"
        )
    );
    assert_eq!(
        lines[5],
        format!(
            "{GREEN}╚═╝     ╚═╝╚══════╝╚═╝  ╚═══╝   ╚═╝   ╚═╝╚══════╝{RESET} \
             {PINK}╚═════╝ ╚═════╝ {RESET}"
        )
    );
}

#[test]
fn catalog_without_tls() {
    let lines = endpoint_catalog("127.0.0.1:1", "127.0.0.1:2", None, None);
    assert_eq!(lines.len(), 3 + 8 + 1 + 60 + 1);
    assert_eq!(
        lines[..7].to_vec(),
        vec![
            "",
            "Endpoints:",
            "  MCP",
            "    POST http://127.0.0.1:1",
            "      Standard streamable HTTP MCP root endpoint.",
            "    GET  http://127.0.0.1:1/health",
            "      Health check for the MCP surface.",
        ]
    );
    assert_eq!(lines[11], "  REST");
    assert_eq!(lines[12], "    GET  http://127.0.0.1:2/health");
    assert_eq!(lines[13], "      Health check for the REST surface.");
    assert_eq!(lines[14], "    GET  http://127.0.0.1:2/v1/chains");
    assert_eq!(lines[70], "    POST http://127.0.0.1:2/v1/head");
    assert_eq!(lines[71], "      Return the latest thought at the chain tip and head metadata.");
    assert_eq!(lines[72], "");
}

#[test]
fn catalog_with_tls() {
    let plain = endpoint_catalog("a", "b", None, None);
    let mcp = endpoint_catalog("a", "b", Some("c"), None);
    assert_eq!(mcp[..plain.len()].to_vec(), plain);
    assert_eq!(mcp[plain.len()], "  HTTPS MCP");
    assert_eq!(mcp[plain.len() + 1], "    POST https://c");
    assert_eq!(mcp[mcp.len() - 1], "      Legacy CloudLLM-compatible MCP tool execution (HTTPS).");
    let rest = endpoint_catalog("a", "b", None, Some("d"));
    assert_eq!(rest[plain.len()], "  HTTPS REST");
    assert_eq!(rest[plain.len() + 1], "    GET  https://d/health");
    assert_eq!(rest[plain.len() + 2], "      Health check for the HTTPS REST surface.");
    assert_eq!(rest[rest.len() - 1], "");
    assert_eq!(rest.len(), plain.len() + 62);
}

#[test]
fn tip_goes_with_tls() {
    assert!(tls_tip("/c", None, None).is_empty());
    let lines = tls_tip("/c", Some(9473), None);
    assert_eq!(
        lines,
        vec![
            "TLS Certificate: /c".to_string(),
            String::new(),
            format!("  {YELLOW}my.mentisdb.com{RESET} is a public DNS A-record \u{2192} 127.0.0.1"),
            "  You can use it as a friendly hostname for this local daemon.".to_string(),
            "  MCP:  https://my.mentisdb.com:9473".to_string(),
            String::new(),
            "  To avoid certificate warnings, trust the self-signed cert once:".to_string(),
            format!("  {GREEN}macOS{RESET}:   sudo security add-trusted-cert -d -r trustRoot \\"),
            "             -k /Library/Keychains/System.keychain \\".to_string(),
            "             /c".to_string(),
            format!(
                "  {GREEN}Linux{RESET}:   sudo cp /c /usr/local/share/ca-certificates/mentisdb.crt"
            ),
            "           sudo update-ca-certificates".to_string(),
            format!("  {GREEN}Windows{RESET}: certutil -addstore Root /c"),
            String::new(),
        ]
    );
    assert_eq!(tls_tip("/c", None, Some(9474))[4], "  REST: https://my.mentisdb.com:9474");
}
