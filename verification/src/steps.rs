//! The steps of the start, and which of them a failure puts an end to.

use crate::startup::{skill_migration_text, skill_registry_message, SkillMigration};
use vstd::prelude::*;
use vstd::string::*;

verus! {

/// What became of the step that was taken last.
pub enum StartEvent {
    /// The daemon was called, with or without a directory of its own.
    Begun { dir_set: bool },
    /// The storage of an older installation was looked for.
    Adopted { failed: bool },
    ChainsMigrated { failed: bool },
    SkillsMigrated { report: Result<Option<SkillMigration>, String> },
    /// The counts in the registry were brought up to date.
    CountsRefreshed { outcome: Result<(), String> },
    Served { failed: bool },
    ChainsShown { failed: bool },
    AgentsShown { failed: bool },
}

/// The step to take next.
pub enum StartAction {
    Adopt,
    MigrateChains,
    MigrateSkills,
    /// The message is shown once the daemon runs.
    RefreshCounts { skill_message: String },
    /// Starts the servers, after a warning.
    Serve { warning: Option<String> },
    ShowChains,
    ShowAgents,
    /// Shows the rest, and runs until interrupted.
    Announce,
    /// Ends with the error of the step.
    Stop,
    /// Ends with a panic.
    Panic { message: String },
}

/// The warning about counts that could not be brought up to date.
pub open spec fn counts_warning(outcome: Result<(), String>) -> Option<Seq<char>> {
    match outcome {
        Ok(_) => None,
        Err(error) => Some("Could not refresh chain registry counts: "@ + error@),
    }
}

/// Whether `action` is the step to take after `event`.
pub open spec fn takes(event: StartEvent, action: StartAction) -> bool {
    match event {
        StartEvent::Begun { dir_set } => if dir_set {
            action is MigrateChains
        } else {
            action is Adopt
        },
        StartEvent::Adopted { failed } => if failed {
            action is Stop
        } else {
            action is MigrateChains
        },
        StartEvent::ChainsMigrated { failed } => if failed {
            action is Stop
        } else {
            action is MigrateSkills
        },
        StartEvent::SkillsMigrated { report } => match report {
            Ok(done) => action matches StartAction::RefreshCounts { skill_message }
                && skill_message@ == (match done {
                None => "Skill registry: up to date, no migration required."@,
                Some(m) => skill_migration_text(m),
            }),
            Err(error) => action matches StartAction::Panic { message } && message@
                == "Skill registry migration failed — cannot start server: "@ + error@,
        },
        StartEvent::CountsRefreshed { outcome } => action matches StartAction::Serve { warning }
            && crate::text::opt_text(warning) == counts_warning(outcome),
        StartEvent::Served { failed } => if failed {
            action is Stop
        } else {
            action is ShowChains
        },
        StartEvent::ChainsShown { failed } => if failed {
            action is Stop
        } else {
            action is ShowAgents
        },
        StartEvent::AgentsShown { failed } => if failed {
            action is Stop
        } else {
            action is Announce
        },
    }
}

/// The step to take next.
///
/// The storage of an older installation is looked for unless the daemon was given a
/// directory. The servers are started once all migrations are done. A migration that
/// fails puts an end to the start; counts that cannot be brought up to date do not.
pub fn next_step(event: StartEvent) -> (r: StartAction)
    ensures
        takes(event, r),
        r is Serve <==> event is CountsRefreshed,
        r is Adopt <==> event == (StartEvent::Begun { dir_set: false }),
{
    match event {
        StartEvent::Begun { dir_set } => if dir_set {
            StartAction::MigrateChains
        } else {
            StartAction::Adopt
        },
        StartEvent::Adopted { failed } => if failed {
            StartAction::Stop
        } else {
            StartAction::MigrateChains
        },
        StartEvent::ChainsMigrated { failed } => if failed {
            StartAction::Stop
        } else {
            StartAction::MigrateSkills
        },
        StartEvent::SkillsMigrated { report } => match skill_registry_message(report) {
            Ok(skill_message) => StartAction::RefreshCounts { skill_message },
            Err(message) => StartAction::Panic { message },
        },
        StartEvent::CountsRefreshed { outcome } => {
            let warning = match outcome {
                Ok(_) => None,
                Err(error) => Some(
                    "Could not refresh chain registry counts: ".to_string().concat(
                        error.as_str(),
                    ),
                ),
            };
            StartAction::Serve { warning }
        },
        StartEvent::Served { failed } => if failed {
            StartAction::Stop
        } else {
            StartAction::ShowChains
        },
        StartEvent::ChainsShown { failed } => if failed {
            StartAction::Stop
        } else {
            StartAction::ShowAgents
        },
        StartEvent::AgentsShown { failed } => if failed {
            StartAction::Stop
        } else {
            StartAction::Announce
        },
    }
}

/// Whether `event` says what became of `action`. Nothing follows the last steps.
pub open spec fn answers(action: StartAction, event: StartEvent) -> bool {
    match action {
        StartAction::Adopt => event is Adopted,
        StartAction::MigrateChains => event is ChainsMigrated,
        StartAction::MigrateSkills => event is SkillsMigrated,
        StartAction::RefreshCounts { .. } => event is CountsRefreshed,
        StartAction::Serve { .. } => event is Served,
        StartAction::ShowChains => event is ChainsShown,
        StartAction::ShowAgents => event is AgentsShown,
        _ => false,
    }
}

/// Whether a start went through the given events, each followed by the step at the
/// same place.
pub open spec fn is_start(events: Seq<StartEvent>, actions: Seq<StartAction>) -> bool {
    &&& events.len() == actions.len()
    &&& events.len() > 0
    &&& events[0] is Begun
    &&& forall|i: int| 0 <= i < events.len() ==> takes(#[trigger] events[i], actions[i])
    &&& forall|i: int| 0 < i < events.len() ==> answers(actions[i - 1], #[trigger] events[i])
}

/// Whether an event is a failure that puts an end to the start.
pub open spec fn is_failure(event: StartEvent) -> bool {
    match event {
        StartEvent::Begun { .. } => false,
        StartEvent::Adopted { failed } => failed,
        StartEvent::ChainsMigrated { failed } => failed,
        StartEvent::SkillsMigrated { report } => report is Err,
        StartEvent::CountsRefreshed { .. } => false,
        StartEvent::Served { failed } => failed,
        StartEvent::ChainsShown { failed } => failed,
        StartEvent::AgentsShown { failed } => failed,
    }
}

/// The servers are started only once all chains and the skill registry were migrated
/// without a failure, and the counts were seen to.
pub proof fn law_servers_start_after_the_migrations(
    events: Seq<StartEvent>,
    actions: Seq<StartAction>,
    k: int,
)
    requires
        is_start(events, actions),
        0 <= k < events.len(),
        actions[k] is Serve,
    ensures
        k >= 3,
        events[k] is CountsRefreshed,
        events[k - 1] is SkillsMigrated && !is_failure(events[k - 1]),
        events[k - 2] is ChainsMigrated && !is_failure(events[k - 2]),
        forall|i: int| 0 <= i < k ==> !is_failure(#[trigger] events[i]),
{
    assert(takes(events[k], actions[k]));
    assert(answers(actions[k - 1], events[k]));
    assert(takes(events[k - 1], actions[k - 1]));
    assert(answers(actions[k - 2], events[k - 1]));
    assert(takes(events[k - 2], actions[k - 2]));
    assert(answers(actions[k - 3], events[k - 2]));
    assert forall|i: int| 0 <= i < k implies !is_failure(#[trigger] events[i]) by {
        if is_failure(events[i]) {
            law_failures_end_the_start(events, actions, i);
        }
    }
}

/// A failed migration puts an end to the start, and so does a failure to start the
/// servers or to show the chains or the agents: nothing is done after it.
pub proof fn law_failures_end_the_start(
    events: Seq<StartEvent>,
    actions: Seq<StartAction>,
    k: int,
)
    requires
        is_start(events, actions),
        0 <= k < events.len(),
        is_failure(events[k]),
    ensures
        k == events.len() - 1,
        actions[k] is Panic <==> events[k] is SkillsMigrated,
        actions[k] is Stop <==> !(events[k] is SkillsMigrated),
{
    assert(takes(events[k], actions[k]));
    if k < events.len() - 1 {
        assert(answers(actions[k], events[k + 1]));
    }
}

/// A start in which the migration of the skill registry fails starts no server.
pub proof fn law_no_server_without_the_skills(
    events: Seq<StartEvent>,
    actions: Seq<StartAction>,
    i: int,
    k: int,
)
    requires
        is_start(events, actions),
        0 <= i < events.len(),
        events[i] is SkillsMigrated,
        is_failure(events[i]),
        0 <= k < events.len(),
    ensures
        !(actions[k] is Serve),
{
    law_failures_end_the_start(events, actions, i);
    if actions[k] is Serve {
        law_servers_start_after_the_migrations(events, actions, k);
        // What follows are the servers, the chains and the agents.
        lemma_follows(events, actions, k);
        lemma_follows(events, actions, k + 1);
        lemma_follows(events, actions, k + 2);
        lemma_follows(events, actions, k + 3);
    }
}

/// An event and the next one, if there is one.
proof fn lemma_follows(events: Seq<StartEvent>, actions: Seq<StartAction>, k: int)
    requires
        is_start(events, actions),
        0 <= k,
    ensures
        k < events.len() ==> takes(events[k], actions[k]),
        k + 1 < events.len() ==> answers(actions[k], events[k + 1]),
{
}

/// The daemon runs only after every step of the start was taken, in order: the servers
/// were started, and the chains and the agents were shown.
pub proof fn law_daemon_runs_after_every_step(
    events: Seq<StartEvent>,
    actions: Seq<StartAction>,
    k: int,
)
    requires
        is_start(events, actions),
        0 <= k < events.len(),
        actions[k] is Announce,
    ensures
        k == events.len() - 1,
        k >= 6,
        actions[k - 1] is ShowAgents,
        actions[k - 2] is ShowChains,
        actions[k - 3] is Serve,
        actions[k - 4] is RefreshCounts,
        actions[k - 5] is MigrateSkills,
        actions[k - 6] is MigrateChains,
        forall|i: int| 0 <= i <= k ==> !is_failure(#[trigger] events[i]),
{
    lemma_follows(events, actions, k);
    lemma_follows(events, actions, k - 1);
    lemma_follows(events, actions, k - 2);
    lemma_follows(events, actions, k - 3);
    law_servers_start_after_the_migrations(events, actions, k - 3);
    lemma_follows(events, actions, k - 4);
    lemma_follows(events, actions, k - 5);
    lemma_follows(events, actions, k - 6);
    assert forall|i: int| 0 <= i <= k implies !is_failure(#[trigger] events[i]) by {
        if is_failure(events[i]) {
            law_failures_end_the_start(events, actions, i);
        }
    }
}

/// The storage of an older installation is looked for at the beginning, just if the
/// daemon was given no directory, and before any chain is migrated.
pub proof fn law_older_storage_comes_first(events: Seq<StartEvent>, actions: Seq<StartAction>, k: int)
    requires
        is_start(events, actions),
        0 <= k < events.len(),
    ensures
        actions[0] is Adopt <==> events[0] == (StartEvent::Begun { dir_set: false }),
        actions[0] is MigrateChains <==> events[0] == (StartEvent::Begun { dir_set: true }),
        actions[k] is Adopt ==> k == 0,
{
    lemma_follows(events, actions, 0);
    lemma_follows(events, actions, k);
    if k > 0 {
        lemma_follows(events, actions, k - 1);
    }
}

/// Counts that could not be brought up to date are warned of, with the reason, and of
/// others nothing is said.
pub proof fn law_stale_counts_are_warned_of(outcome: Result<(), String>)
    ensures
        counts_warning(outcome) is Some <==> outcome is Err,
        outcome matches Err(error) ==> {
            let text = counts_warning(outcome)->0;
            &&& text.len() == 41 + error@.len()
            &&& text.skip(41) == error@
        },
{
    reveal_strlit("Could not refresh chain registry counts: ");
    if let Err(error) = outcome {
        assert(counts_warning(outcome)->0.skip(41) =~= error@);
    }
}

} // verus!
