//! The types of thoughts, and their names.

use crate::text::{same_text, trimmed, trimmed_text};
use vstd::prelude::*;
use vstd::string::*;

verus! {

/// What kind of thought an agent recorded.
#[derive(Clone, Copy, Debug, PartialEq, Eq, Structural)]
pub enum ThoughtType {
    PreferenceUpdate,
    UserTrait,
    RelationshipUpdate,
    Finding,
    Insight,
    FactLearned,
    PatternDetected,
    Hypothesis,
    Mistake,
    Correction,
    LessonLearned,
    AssumptionInvalidated,
    Constraint,
    Plan,
    Subgoal,
    Decision,
    StrategyShift,
    Wonder,
    Question,
    Idea,
    Experiment,
    ActionTaken,
    TaskComplete,
    Checkpoint,
    StateSnapshot,
    Handoff,
    Summary,
    Surprise,
}

/// The name of a thought type.
pub open spec fn name_of(t: ThoughtType) -> Seq<char> {
    match t {
        ThoughtType::PreferenceUpdate => "PreferenceUpdate"@,
        ThoughtType::UserTrait => "UserTrait"@,
        ThoughtType::RelationshipUpdate => "RelationshipUpdate"@,
        ThoughtType::Finding => "Finding"@,
        ThoughtType::Insight => "Insight"@,
        ThoughtType::FactLearned => "FactLearned"@,
        ThoughtType::PatternDetected => "PatternDetected"@,
        ThoughtType::Hypothesis => "Hypothesis"@,
        ThoughtType::Mistake => "Mistake"@,
        ThoughtType::Correction => "Correction"@,
        ThoughtType::LessonLearned => "LessonLearned"@,
        ThoughtType::AssumptionInvalidated => "AssumptionInvalidated"@,
        ThoughtType::Constraint => "Constraint"@,
        ThoughtType::Plan => "Plan"@,
        ThoughtType::Subgoal => "Subgoal"@,
        ThoughtType::Decision => "Decision"@,
        ThoughtType::StrategyShift => "StrategyShift"@,
        ThoughtType::Wonder => "Wonder"@,
        ThoughtType::Question => "Question"@,
        ThoughtType::Idea => "Idea"@,
        ThoughtType::Experiment => "Experiment"@,
        ThoughtType::ActionTaken => "ActionTaken"@,
        ThoughtType::TaskComplete => "TaskComplete"@,
        ThoughtType::Checkpoint => "Checkpoint"@,
        ThoughtType::StateSnapshot => "StateSnapshot"@,
        ThoughtType::Handoff => "Handoff"@,
        ThoughtType::Summary => "Summary"@,
        ThoughtType::Surprise => "Surprise"@,
    }
}

/// The thought type with the given name.
pub open spec fn named_type(s: Seq<char>) -> Option<ThoughtType> {
    if s == "PreferenceUpdate"@ {
        Some(ThoughtType::PreferenceUpdate)
    } else if s == "UserTrait"@ {
        Some(ThoughtType::UserTrait)
    } else if s == "RelationshipUpdate"@ {
        Some(ThoughtType::RelationshipUpdate)
    } else if s == "Finding"@ {
        Some(ThoughtType::Finding)
    } else if s == "Insight"@ {
        Some(ThoughtType::Insight)
    } else if s == "FactLearned"@ {
        Some(ThoughtType::FactLearned)
    } else if s == "PatternDetected"@ {
        Some(ThoughtType::PatternDetected)
    } else if s == "Hypothesis"@ {
        Some(ThoughtType::Hypothesis)
    } else if s == "Mistake"@ {
        Some(ThoughtType::Mistake)
    } else if s == "Correction"@ {
        Some(ThoughtType::Correction)
    } else if s == "LessonLearned"@ {
        Some(ThoughtType::LessonLearned)
    } else if s == "AssumptionInvalidated"@ {
        Some(ThoughtType::AssumptionInvalidated)
    } else if s == "Constraint"@ {
        Some(ThoughtType::Constraint)
    } else if s == "Plan"@ {
        Some(ThoughtType::Plan)
    } else if s == "Subgoal"@ {
        Some(ThoughtType::Subgoal)
    } else if s == "Decision"@ {
        Some(ThoughtType::Decision)
    } else if s == "StrategyShift"@ {
        Some(ThoughtType::StrategyShift)
    } else if s == "Wonder"@ {
        Some(ThoughtType::Wonder)
    } else if s == "Question"@ {
        Some(ThoughtType::Question)
    } else if s == "Idea"@ {
        Some(ThoughtType::Idea)
    } else if s == "Experiment"@ {
        Some(ThoughtType::Experiment)
    } else if s == "ActionTaken"@ {
        Some(ThoughtType::ActionTaken)
    } else if s == "TaskComplete"@ {
        Some(ThoughtType::TaskComplete)
    } else if s == "Checkpoint"@ {
        Some(ThoughtType::Checkpoint)
    } else if s == "StateSnapshot"@ {
        Some(ThoughtType::StateSnapshot)
    } else if s == "Handoff"@ {
        Some(ThoughtType::Handoff)
    } else if s == "Summary"@ {
        Some(ThoughtType::Summary)
    } else if s == "Surprise"@ {
        Some(ThoughtType::Surprise)
    } else {
        None
    }
}

/// Maps a name, with white space around it or without, to a thought type.
///
/// Returns `None` for any other text.
pub fn parse_thought_type(s: &str) -> (r: Option<ThoughtType>)
    ensures
        r == named_type(trimmed(s@)),
{
    let name = trimmed_text(s);
    if same_text(name, "PreferenceUpdate") {
        Some(ThoughtType::PreferenceUpdate)
    } else if same_text(name, "UserTrait") {
        Some(ThoughtType::UserTrait)
    } else if same_text(name, "RelationshipUpdate") {
        Some(ThoughtType::RelationshipUpdate)
    } else if same_text(name, "Finding") {
        Some(ThoughtType::Finding)
    } else if same_text(name, "Insight") {
        Some(ThoughtType::Insight)
    } else if same_text(name, "FactLearned") {
        Some(ThoughtType::FactLearned)
    } else if same_text(name, "PatternDetected") {
        Some(ThoughtType::PatternDetected)
    } else if same_text(name, "Hypothesis") {
        Some(ThoughtType::Hypothesis)
    } else if same_text(name, "Mistake") {
        Some(ThoughtType::Mistake)
    } else if same_text(name, "Correction") {
        Some(ThoughtType::Correction)
    } else if same_text(name, "LessonLearned") {
        Some(ThoughtType::LessonLearned)
    } else if same_text(name, "AssumptionInvalidated") {
        Some(ThoughtType::AssumptionInvalidated)
    } else if same_text(name, "Constraint") {
        Some(ThoughtType::Constraint)
    } else if same_text(name, "Plan") {
        Some(ThoughtType::Plan)
    } else if same_text(name, "Subgoal") {
        Some(ThoughtType::Subgoal)
    } else if same_text(name, "Decision") {
        Some(ThoughtType::Decision)
    } else if same_text(name, "StrategyShift") {
        Some(ThoughtType::StrategyShift)
    } else if same_text(name, "Wonder") {
        Some(ThoughtType::Wonder)
    } else if same_text(name, "Question") {
        Some(ThoughtType::Question)
    } else if same_text(name, "Idea") {
        Some(ThoughtType::Idea)
    } else if same_text(name, "Experiment") {
        Some(ThoughtType::Experiment)
    } else if same_text(name, "ActionTaken") {
        Some(ThoughtType::ActionTaken)
    } else if same_text(name, "TaskComplete") {
        Some(ThoughtType::TaskComplete)
    } else if same_text(name, "Checkpoint") {
        Some(ThoughtType::Checkpoint)
    } else if same_text(name, "StateSnapshot") {
        Some(ThoughtType::StateSnapshot)
    } else if same_text(name, "Handoff") {
        Some(ThoughtType::Handoff)
    } else if same_text(name, "Summary") {
        Some(ThoughtType::Summary)
    } else if same_text(name, "Surprise") {
        Some(ThoughtType::Surprise)
    } else {
        None
    }
}

/// Every thought type has a name of its own: its name is parsed back to it, and
/// nothing else is.
pub proof fn law_type_names(t: ThoughtType, s: Seq<char>)
    ensures
        named_type(name_of(t)) == Some(t),
        named_type(s) == Some(t) ==> s == name_of(t),
{
    reveal_strlit("PreferenceUpdate");
    assert("PreferenceUpdate"@.len() == 16 && "PreferenceUpdate"@[0] == 'P'
        && "PreferenceUpdate"@[2] == 'e');
    reveal_strlit("UserTrait");
    assert("UserTrait"@.len() == 9 && "UserTrait"@[0] == 'U' && "UserTrait"@[2] == 'e');
    reveal_strlit("RelationshipUpdate");
    assert("RelationshipUpdate"@.len() == 18 && "RelationshipUpdate"@[0] == 'R'
        && "RelationshipUpdate"@[2] == 'l');
    reveal_strlit("Finding");
    assert("Finding"@.len() == 7 && "Finding"@[0] == 'F' && "Finding"@[2] == 'n');
    reveal_strlit("Insight");
    assert("Insight"@.len() == 7 && "Insight"@[0] == 'I' && "Insight"@[2] == 's');
    reveal_strlit("FactLearned");
    assert("FactLearned"@.len() == 11 && "FactLearned"@[0] == 'F' && "FactLearned"@[2] == 'c');
    reveal_strlit("PatternDetected");
    assert("PatternDetected"@.len() == 15 && "PatternDetected"@[0] == 'P'
        && "PatternDetected"@[2] == 't');
    reveal_strlit("Hypothesis");
    assert("Hypothesis"@.len() == 10 && "Hypothesis"@[0] == 'H' && "Hypothesis"@[2] == 'p');
    reveal_strlit("Mistake");
    assert("Mistake"@.len() == 7 && "Mistake"@[0] == 'M' && "Mistake"@[2] == 's');
    reveal_strlit("Correction");
    assert("Correction"@.len() == 10 && "Correction"@[0] == 'C' && "Correction"@[2] == 'r');
    reveal_strlit("LessonLearned");
    assert("LessonLearned"@.len() == 13 && "LessonLearned"@[0] == 'L'
        && "LessonLearned"@[2] == 's');
    reveal_strlit("AssumptionInvalidated");
    assert("AssumptionInvalidated"@.len() == 21 && "AssumptionInvalidated"@[0] == 'A'
        && "AssumptionInvalidated"@[2] == 's');
    reveal_strlit("Constraint");
    assert("Constraint"@.len() == 10 && "Constraint"@[0] == 'C' && "Constraint"@[2] == 'n');
    reveal_strlit("Plan");
    assert("Plan"@.len() == 4 && "Plan"@[0] == 'P' && "Plan"@[2] == 'a');
    reveal_strlit("Subgoal");
    assert("Subgoal"@.len() == 7 && "Subgoal"@[0] == 'S' && "Subgoal"@[2] == 'b');
    reveal_strlit("Decision");
    assert("Decision"@.len() == 8 && "Decision"@[0] == 'D' && "Decision"@[2] == 'c');
    reveal_strlit("StrategyShift");
    assert("StrategyShift"@.len() == 13 && "StrategyShift"@[0] == 'S'
        && "StrategyShift"@[2] == 'r');
    reveal_strlit("Wonder");
    assert("Wonder"@.len() == 6 && "Wonder"@[0] == 'W' && "Wonder"@[2] == 'n');
    reveal_strlit("Question");
    assert("Question"@.len() == 8 && "Question"@[0] == 'Q' && "Question"@[2] == 'e');
    reveal_strlit("Idea");
    assert("Idea"@.len() == 4 && "Idea"@[0] == 'I' && "Idea"@[2] == 'e');
    reveal_strlit("Experiment");
    assert("Experiment"@.len() == 10 && "Experiment"@[0] == 'E' && "Experiment"@[2] == 'p');
    reveal_strlit("ActionTaken");
    assert("ActionTaken"@.len() == 11 && "ActionTaken"@[0] == 'A' && "ActionTaken"@[2] == 't');
    reveal_strlit("TaskComplete");
    assert("TaskComplete"@.len() == 12 && "TaskComplete"@[0] == 'T' && "TaskComplete"@[2] == 's');
    reveal_strlit("Checkpoint");
    assert("Checkpoint"@.len() == 10 && "Checkpoint"@[0] == 'C' && "Checkpoint"@[2] == 'e');
    reveal_strlit("StateSnapshot");
    assert("StateSnapshot"@.len() == 13 && "StateSnapshot"@[0] == 'S'
        && "StateSnapshot"@[2] == 'a');
    reveal_strlit("Handoff");
    assert("Handoff"@.len() == 7 && "Handoff"@[0] == 'H' && "Handoff"@[2] == 'n');
    reveal_strlit("Summary");
    assert("Summary"@.len() == 7 && "Summary"@[0] == 'S' && "Summary"@[2] == 'm');
    reveal_strlit("Surprise");
    assert("Surprise"@.len() == 8 && "Surprise"@[0] == 'S' && "Surprise"@[2] == 'r');
}

} // verus!
