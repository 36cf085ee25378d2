use mentisdbd::steps::{next_step, StartAction, StartEvent};

#[test]
fn older_storage_is_adopted_without_a_directory() {
    assert!(matches!(next_step(StartEvent::Begun { dir_set: false }), StartAction::Adopt));
    assert!(matches!(next_step(StartEvent::Begun { dir_set: true }), StartAction::MigrateChains));
    assert!(matches!(next_step(StartEvent::Adopted { failed: true }), StartAction::Stop));
}

#[test]
fn failed_skill_migration_starts_no_server() {
    let event = StartEvent::SkillsMigrated { report: Err("bad".to_string()) };
    match next_step(event) {
        StartAction::Panic { message } => assert_eq!(
            message,
            "Skill registry migration failed — cannot start server: bad"
        ),
        _ => panic!("went on"),
    }
}

#[test]
fn stale_counts_do_not_stop_the_start() {
    let event = StartEvent::CountsRefreshed { outcome: Err("locked".to_string()) };
    match next_step(event) {
        StartAction::Serve { warning } => assert_eq!(
            warning.as_deref(),
            Some("Could not refresh chain registry counts: locked")
        ),
        _ => panic!("stopped"),
    }
    assert!(matches!(
        next_step(StartEvent::CountsRefreshed { outcome: Ok(()) }),
        StartAction::Serve { warning: None }
    ));
}

#[test]
fn start_without_a_failure() {
    let mut names: Vec<&str> = Vec::new();
    let mut action = next_step(StartEvent::Begun { dir_set: false });
    loop {
        let (name, event) = match action {
            StartAction::Adopt => ("adopt", StartEvent::Adopted { failed: false }),
            StartAction::MigrateChains => ("chains", StartEvent::ChainsMigrated { failed: false }),
            StartAction::MigrateSkills => {
                ("skills", StartEvent::SkillsMigrated { report: Ok(None) })
            }
            StartAction::RefreshCounts { skill_message } => {
                assert_eq!(skill_message, "Skill registry: up to date, no migration required.");
                ("counts", StartEvent::CountsRefreshed { outcome: Ok(()) })
            }
            StartAction::Serve { .. } => ("serve", StartEvent::Served { failed: false }),
            StartAction::ShowChains => ("show chains", StartEvent::ChainsShown { failed: false }),
            StartAction::ShowAgents => ("show agents", StartEvent::AgentsShown { failed: false }),
            StartAction::Announce => break,
            _ => panic!("stopped"),
        };
        names.push(name);
        action = next_step(event);
    }
    assert_eq!(
        names,
        vec!["adopt", "chains", "skills", "counts", "serve", "show chains", "show agents"]
    );
}

#[test]
fn other_failures_stop_the_start() {
    for event in [
        StartEvent::ChainsMigrated { failed: true },
        StartEvent::Served { failed: true },
        StartEvent::ChainsShown { failed: true },
        StartEvent::AgentsShown { failed: true },
    ] {
        assert!(matches!(next_step(event), StartAction::Stop));
    }
}
