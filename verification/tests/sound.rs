use mentisdbd::sound::{
    is_off_word, is_on_word, startup_jingle, startup_sound_enabled, thought_sound_sequence,
    thought_sounds_enabled, Note, SquareWave,
};
use mentisdbd::thoughts::ThoughtType;

const ALL: [ThoughtType; 28] = [
    ThoughtType::PreferenceUpdate,
    ThoughtType::UserTrait,
    ThoughtType::RelationshipUpdate,
    ThoughtType::Finding,
    ThoughtType::Insight,
    ThoughtType::FactLearned,
    ThoughtType::PatternDetected,
    ThoughtType::Hypothesis,
    ThoughtType::Mistake,
    ThoughtType::Correction,
    ThoughtType::LessonLearned,
    ThoughtType::AssumptionInvalidated,
    ThoughtType::Constraint,
    ThoughtType::Plan,
    ThoughtType::Subgoal,
    ThoughtType::Decision,
    ThoughtType::StrategyShift,
    ThoughtType::Wonder,
    ThoughtType::Question,
    ThoughtType::Idea,
    ThoughtType::Experiment,
    ThoughtType::ActionTaken,
    ThoughtType::TaskComplete,
    ThoughtType::Checkpoint,
    ThoughtType::StateSnapshot,
    ThoughtType::Handoff,
    ThoughtType::Summary,
    ThoughtType::Surprise,
];

fn note(centihertz: u32, millis: u32) -> Note {
    Note { centihertz, millis }
}

#[test]
fn jingle_spells_the_name() {
    assert_eq!(
        startup_jingle(),
        vec![note(52325, 160), note(65925, 160), note(58733, 160), note(98777, 380)]
    );
}

#[test]
fn surprise_is_an_ascending_arpeggio() {
    assert_eq!(
        thought_sound_sequence(ThoughtType::Surprise),
        vec![note(52325, 35), note(65925, 35), note(78399, 35), note(104650, 95)]
    );
}

#[test]
fn thought_sounds_are_short() {
    for t in ALL {
        let total: u32 = thought_sound_sequence(t).iter().map(|n| n.millis).sum();
        assert!(0 < total && total <= 200, "{t:?}");
    }
}

#[test]
fn discoveries_rise_and_mistakes_fall() {
    for t in [
        ThoughtType::Finding,
        ThoughtType::Insight,
        ThoughtType::Idea,
        ThoughtType::FactLearned,
        ThoughtType::LessonLearned,
        ThoughtType::ActionTaken,
        ThoughtType::TaskComplete,
        ThoughtType::Checkpoint,
        ThoughtType::Surprise,
    ] {
        assert!(thought_sound_sequence(t).windows(2).all(|w| w[0].centihertz < w[1].centihertz));
    }
    for t in [
        ThoughtType::Mistake,
        ThoughtType::AssumptionInvalidated,
        ThoughtType::Handoff,
        ThoughtType::StateSnapshot,
        ThoughtType::Summary,
    ] {
        assert!(thought_sound_sequence(t).windows(2).all(|w| w[0].centihertz > w[1].centihertz));
    }
}

#[test]
fn pattern_is_a_palindrome() {
    let notes = thought_sound_sequence(ThoughtType::PatternDetected);
    let mut backwards = notes.clone();
    backwards.reverse();
    assert_eq!(notes, backwards);
}

#[test]
fn frequencies_are_exact_in_single_precision() {
    let scale: Vec<(u32, f32)> = vec![
        (26163u32, 261.63f32),
        (29366, 293.66),
        (32963, 329.63),
        (34923, 349.23),
        (39200, 392.00),
        (44000, 440.00),
        (49388, 493.88),
        (52325, 523.25),
        (58733, 587.33),
        (65925, 659.25),
        (69846, 698.46),
        (78399, 783.99),
        (88000, 880.00),
        (98777, 987.77),
        (104650, 1046.50),
    ];
    let mut notes = startup_jingle();
    for t in ALL {
        notes.extend(thought_sound_sequence(t));
    }
    for note in notes {
        let found = scale.iter().find(|(centihertz, _)| *centihertz == note.centihertz);
        assert_eq!(found.map(|(_, hertz)| *hertz), Some(note.centihertz as f32 / 100.0));
    }
}

#[test]
fn startup_sound_is_on_unless_switched_off() {
    assert!(startup_sound_enabled(None));
    for word in ["0", "false", "no", "off", "FALSE", "No", "oFf"] {
        assert!(!startup_sound_enabled(Some(word)), "{word}");
    }
    for word in ["", "1", "true", "on", " off", "offf", "n\u{f3}"] {
        assert!(startup_sound_enabled(Some(word)), "{word}");
    }
}

#[test]
fn thought_sounds_are_off_unless_switched_on() {
    assert!(!thought_sounds_enabled(None));
    for word in ["1", "true", "yes", "on", "TRUE", "Yes", "oN"] {
        assert!(thought_sounds_enabled(Some(word)), "{word}");
    }
    for word in ["", "0", "false", "y", "on ", "\u{f3}n"] {
        assert!(!thought_sounds_enabled(Some(word)), "{word}");
    }
}

#[test]
fn words_are_in_lower_case() {
    assert!(is_off_word("off") && !is_off_word("OFF") && !is_off_word("on"));
    assert!(is_on_word("on") && !is_on_word("ON") && !is_on_word("off"));
}

#[test]
fn tones_have_whole_frames() {
    for ms in [0u32, 1, 7, 35, 95, 160, 380, 1_000, 123_457] {
        let expected = (44_100u32 as f64 * ms as f64 / 1_000.0) as usize;
        let tone = SquareWave::new(52325, ms);
        assert_eq!(tone.num_samples, expected);
        assert_eq!((tone.centihertz, tone.sample_rate, tone.elapsed), (52325, 44_100, 0));
    }
    let longest = (44_100u32 as f64 * u32::MAX as f64 / 1_000.0) as usize;
    assert_eq!(SquareWave::new(1, u32::MAX).num_samples, longest);
}

#[test]
fn tones_end_after_their_frames() {
    let mut tone = SquareWave::new(44000, 1);
    for frame in 0..44 {
        assert_eq!(tone.next_frame(), Some(frame));
    }
    assert_eq!(tone.next_frame(), None);
    assert_eq!(tone.next_frame(), None);
    assert_eq!(tone.elapsed, 44);
}

#[test]
fn tones_last_as_long_as_asked() {
    assert_eq!(SquareWave::new(44000, 160).total_millis(), 160);
    assert_eq!(SquareWave::new(44000, 1).total_millis(), 0);
    for ms in 1..500u32 {
        let total = SquareWave::new(44000, ms).total_millis();
        assert!(total == ms as u64 || total + 1 == ms as u64);
    }
}
