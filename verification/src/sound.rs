//! Sounds: which notes are played, and how long.

use crate::paging::lesser;
use crate::text::{opt_str, same_text};
use crate::thoughts::ThoughtType;
use vstd::prelude::*;
use vstd::string::*;
use vstd::utf8::is_ascii_chars;

verus! {

/// A note: its frequency in hundredths of a hertz, and its length in milliseconds.
#[derive(Clone, Copy, Debug, PartialEq, Eq, Structural)]
pub struct Note {
    pub centihertz: u32,
    pub millis: u32,
}

/// The note of the given frequency and length.
pub open spec fn note(centihertz: u32, millis: u32) -> Note {
    Note { centihertz, millis }
}

/// The notes that are played when a thought of the given type is appended.
pub open spec fn thought_notes(t: ThoughtType) -> Seq<Note> {
    match t {
        ThoughtType::Surprise => seq![
            note(52325, 35),
            note(65925, 35),
            note(78399, 35),
            note(104650, 95),
        ],
        ThoughtType::Mistake => seq![note(78399, 80), note(52325, 100)],
        ThoughtType::Correction => seq![note(29366, 50), note(52325, 50), note(65925, 80)],
        ThoughtType::AssumptionInvalidated => seq![note(78399, 80), note(52325, 60)],
        ThoughtType::Insight => seq![note(65925, 80), note(98777, 100)],
        ThoughtType::Idea => seq![note(52325, 40), note(65925, 40), note(98777, 100)],
        ThoughtType::FactLearned => seq![note(58733, 80), note(78399, 100)],
        ThoughtType::LessonLearned => seq![note(65925, 80), note(78399, 100)],
        ThoughtType::Finding => seq![note(69846, 80), note(88000, 100)],
        ThoughtType::Question => seq![note(78399, 90), note(88000, 90)],
        ThoughtType::Wonder => seq![note(52325, 55), note(58733, 55), note(65925, 70)],
        ThoughtType::Hypothesis => seq![note(58733, 90), note(49388, 90)],
        ThoughtType::Experiment => seq![note(44000, 60), note(52325, 60), note(44000, 60)],
        ThoughtType::PatternDetected => seq![note(52325, 60), note(65925, 60), note(52325, 60)],
        ThoughtType::Plan => seq![note(52325, 70), note(78399, 110)],
        ThoughtType::Subgoal => seq![note(32963, 70), note(39200, 100)],
        ThoughtType::Decision => seq![note(39200, 70), note(52325, 110)],
        ThoughtType::StrategyShift => seq![note(52325, 55), note(69846, 55), note(52325, 70)],
        ThoughtType::ActionTaken => seq![note(39200, 70), note(52325, 100)],
        ThoughtType::TaskComplete => seq![note(52325, 55), note(65925, 55), note(78399, 70)],
        ThoughtType::Checkpoint => seq![note(52325, 80), note(65925, 100)],
        ThoughtType::StateSnapshot => seq![note(32963, 70), note(26163, 100)],
        ThoughtType::Handoff => seq![note(39200, 55), note(32963, 55), note(26163, 70)],
        ThoughtType::Summary => seq![note(52325, 80), note(39200, 100)],
        ThoughtType::PreferenceUpdate => seq![note(58733, 80), note(69846, 100)],
        ThoughtType::UserTrait => seq![note(65925, 80), note(88000, 100)],
        ThoughtType::RelationshipUpdate => seq![note(69846, 55), note(88000, 55), note(69846, 70)],
        ThoughtType::Constraint => seq![note(34923, 80), note(29366, 100)],
    }
}

/// The notes of the startup jingle: C5 for "men", E5 for "tis", D5 and B5.
pub open spec fn jingle_notes() -> Seq<Note> {
    seq![note(52325, 160), note(65925, 160), note(58733, 160), note(98777, 380)]
}

/// The notes that are played when a thought of the given type is appended.
pub fn thought_sound_sequence(t: ThoughtType) -> (r: Vec<Note>)
    ensures
        r@ == thought_notes(t),
{
    match t {
        ThoughtType::Surprise => vec![
            Note { centihertz: 52325, millis: 35 },
            Note { centihertz: 65925, millis: 35 },
            Note { centihertz: 78399, millis: 35 },
            Note { centihertz: 104650, millis: 95 },
        ],
        ThoughtType::Mistake => vec![
            Note { centihertz: 78399, millis: 80 },
            Note { centihertz: 52325, millis: 100 },
        ],
        ThoughtType::Correction => vec![
            Note { centihertz: 29366, millis: 50 },
            Note { centihertz: 52325, millis: 50 },
            Note { centihertz: 65925, millis: 80 },
        ],
        ThoughtType::AssumptionInvalidated => vec![
            Note { centihertz: 78399, millis: 80 },
            Note { centihertz: 52325, millis: 60 },
        ],
        ThoughtType::Insight => vec![
            Note { centihertz: 65925, millis: 80 },
            Note { centihertz: 98777, millis: 100 },
        ],
        ThoughtType::Idea => vec![
            Note { centihertz: 52325, millis: 40 },
            Note { centihertz: 65925, millis: 40 },
            Note { centihertz: 98777, millis: 100 },
        ],
        ThoughtType::FactLearned => vec![
            Note { centihertz: 58733, millis: 80 },
            Note { centihertz: 78399, millis: 100 },
        ],
        ThoughtType::LessonLearned => vec![
            Note { centihertz: 65925, millis: 80 },
            Note { centihertz: 78399, millis: 100 },
        ],
        ThoughtType::Finding => vec![
            Note { centihertz: 69846, millis: 80 },
            Note { centihertz: 88000, millis: 100 },
        ],
        ThoughtType::Question => vec![
            Note { centihertz: 78399, millis: 90 },
            Note { centihertz: 88000, millis: 90 },
        ],
        ThoughtType::Wonder => vec![
            Note { centihertz: 52325, millis: 55 },
            Note { centihertz: 58733, millis: 55 },
            Note { centihertz: 65925, millis: 70 },
        ],
        ThoughtType::Hypothesis => vec![
            Note { centihertz: 58733, millis: 90 },
            Note { centihertz: 49388, millis: 90 },
        ],
        ThoughtType::Experiment => vec![
            Note { centihertz: 44000, millis: 60 },
            Note { centihertz: 52325, millis: 60 },
            Note { centihertz: 44000, millis: 60 },
        ],
        ThoughtType::PatternDetected => vec![
            Note { centihertz: 52325, millis: 60 },
            Note { centihertz: 65925, millis: 60 },
            Note { centihertz: 52325, millis: 60 },
        ],
        ThoughtType::Plan => vec![
            Note { centihertz: 52325, millis: 70 },
            Note { centihertz: 78399, millis: 110 },
        ],
        ThoughtType::Subgoal => vec![
            Note { centihertz: 32963, millis: 70 },
            Note { centihertz: 39200, millis: 100 },
        ],
        ThoughtType::Decision => vec![
            Note { centihertz: 39200, millis: 70 },
            Note { centihertz: 52325, millis: 110 },
        ],
        ThoughtType::StrategyShift => vec![
            Note { centihertz: 52325, millis: 55 },
            Note { centihertz: 69846, millis: 55 },
            Note { centihertz: 52325, millis: 70 },
        ],
        ThoughtType::ActionTaken => vec![
            Note { centihertz: 39200, millis: 70 },
            Note { centihertz: 52325, millis: 100 },
        ],
        ThoughtType::TaskComplete => vec![
            Note { centihertz: 52325, millis: 55 },
            Note { centihertz: 65925, millis: 55 },
            Note { centihertz: 78399, millis: 70 },
        ],
        ThoughtType::Checkpoint => vec![
            Note { centihertz: 52325, millis: 80 },
            Note { centihertz: 65925, millis: 100 },
        ],
        ThoughtType::StateSnapshot => vec![
            Note { centihertz: 32963, millis: 70 },
            Note { centihertz: 26163, millis: 100 },
        ],
        ThoughtType::Handoff => vec![
            Note { centihertz: 39200, millis: 55 },
            Note { centihertz: 32963, millis: 55 },
            Note { centihertz: 26163, millis: 70 },
        ],
        ThoughtType::Summary => vec![
            Note { centihertz: 52325, millis: 80 },
            Note { centihertz: 39200, millis: 100 },
        ],
        ThoughtType::PreferenceUpdate => vec![
            Note { centihertz: 58733, millis: 80 },
            Note { centihertz: 69846, millis: 100 },
        ],
        ThoughtType::UserTrait => vec![
            Note { centihertz: 65925, millis: 80 },
            Note { centihertz: 88000, millis: 100 },
        ],
        ThoughtType::RelationshipUpdate => vec![
            Note { centihertz: 69846, millis: 55 },
            Note { centihertz: 88000, millis: 55 },
            Note { centihertz: 69846, millis: 70 },
        ],
        ThoughtType::Constraint => vec![
            Note { centihertz: 34923, millis: 80 },
            Note { centihertz: 29366, millis: 100 },
        ],
    }
}

/// The notes of the startup jingle.
pub fn startup_jingle() -> (r: Vec<Note>)
    ensures
        r@ == jingle_notes(),
{
    vec![
        Note { centihertz: 52325, millis: 160 },
        Note { centihertz: 65925, millis: 160 },
        Note { centihertz: 58733, millis: 160 },
        Note { centihertz: 98777, millis: 380 },
    ]
}

/// The length of several notes that are played one after the other.
pub open spec fn total_millis(notes: Seq<Note>) -> int
    decreases notes.len(),
{
    if notes.len() == 0 {
        0
    } else {
        total_millis(notes.drop_last()) + notes.last().millis
    }
}

/// Whether each note is higher than the one before it.
pub open spec fn rises(notes: Seq<Note>) -> bool {
    forall|i: int, j: int|
        0 <= i < j < notes.len() ==> (#[trigger] notes[i]).centihertz < (
        #[trigger] notes[j]).centihertz
}

/// Whether each note is lower than the one before it.
pub open spec fn falls(notes: Seq<Note>) -> bool {
    forall|i: int, j: int|
        0 <= i < j < notes.len() ==> (#[trigger] notes[i]).centihertz > (
        #[trigger] notes[j]).centihertz
}

/// No sound of a thought takes longer than 200 milliseconds, and none is silent.
pub proof fn law_thought_sounds_are_short(t: ThoughtType)
    ensures
        0 < total_millis(thought_notes(t)) <= 200,
{
    reveal_with_fuel(total_millis, 5);
    let notes = thought_notes(t);
    assert(notes.drop_last().len() == notes.len() - 1);
}

/// Discoveries, insights, actions and completed work sound as rising tones, and so
/// does a surprise.
pub proof fn law_discoveries_rise(t: ThoughtType)
    requires
        t == ThoughtType::Finding || t == ThoughtType::Insight || t == ThoughtType::Idea || t
            == ThoughtType::FactLearned || t == ThoughtType::LessonLearned || t
            == ThoughtType::ActionTaken || t == ThoughtType::TaskComplete || t
            == ThoughtType::Checkpoint || t == ThoughtType::Surprise,
    ensures
        rises(thought_notes(t)),
{
}

/// Mistakes, handoffs and what settles a chain sound as falling tones.
pub proof fn law_mistakes_fall(t: ThoughtType)
    requires
        t == ThoughtType::Mistake || t == ThoughtType::AssumptionInvalidated || t
            == ThoughtType::Handoff || t == ThoughtType::StateSnapshot || t
            == ThoughtType::Summary,
    ensures
        falls(thought_notes(t)),
{
}

/// A detected pattern sounds the same backwards.
pub proof fn law_pattern_is_a_palindrome()
    ensures
        thought_notes(ThoughtType::PatternDetected).reverse() == thought_notes(
            ThoughtType::PatternDetected,
        ),
{
}

/// What `str::to_lowercase` makes of a text.
pub uninterp spec fn lowercased(s: Seq<char>) -> Seq<char>;

/// The lower-case form of an ASCII character.
pub open spec fn ascii_lower_char(c: char) -> char {
    if 'A' <= c <= 'Z' {
        ((c as u32) + 32) as char
    } else {
        c
    }
}

/// The lower-case form of an ASCII text.
pub open spec fn ascii_lower(s: Seq<char>) -> Seq<char> {
    s.map_values(|c: char| ascii_lower_char(c))
}

/// The lower-case form of a text.
///
/// Calls `str::to_lowercase`. Taken on trust: the result depends on the text alone,
/// and in an ASCII text each of the letters `A` to `Z` is replaced by its lower-case
/// form.
#[verifier::external_body]
fn lowercase(s: &str) -> (r: String)
    ensures
        r@ == lowercased(s@),
        is_ascii_chars(s@) ==> r@ == ascii_lower(s@),
{
    s.to_lowercase()
}

/// The words that switch a sound off.
pub open spec fn off_words() -> Set<Seq<char>> {
    set!["0"@, "false"@, "no"@, "off"@]
}

/// The words that switch a sound on.
pub open spec fn on_words() -> Set<Seq<char>> {
    set!["1"@, "true"@, "yes"@, "on"@]
}

/// Whether a word in lower case switches a sound off.
pub fn is_off_word(word: &str) -> (r: bool)
    ensures
        r == off_words().contains(word@),
{
    same_text(word, "0") || same_text(word, "false") || same_text(word, "no") || same_text(
        word,
        "off",
    )
}

/// Whether a word in lower case switches a sound on.
pub fn is_on_word(word: &str) -> (r: bool)
    ensures
        r == on_words().contains(word@),
{
    same_text(word, "1") || same_text(word, "true") || same_text(word, "yes") || same_text(
        word,
        "on",
    )
}

/// Whether the startup jingle is played, given its setting: unless a word, in upper
/// or lower case, switches it off.
pub fn startup_sound_enabled(setting: Option<&str>) -> (r: bool)
    ensures
        match opt_str(setting) {
            None => r,
            Some(word) => {
                &&& r == !off_words().contains(lowercased(word))
                &&& is_ascii_chars(word) ==> r == !off_words().contains(ascii_lower(word))
            },
        },
{
    match setting {
        None => true,
        Some(word) => !is_off_word(lowercase(word).as_str()),
    }
}

/// Whether the sounds of thoughts are played, given their setting: only if a word,
/// in upper or lower case, switches them on.
pub fn thought_sounds_enabled(setting: Option<&str>) -> (r: bool)
    ensures
        match opt_str(setting) {
            None => !r,
            Some(word) => {
                &&& r == on_words().contains(lowercased(word))
                &&& is_ascii_chars(word) ==> r == on_words().contains(ascii_lower(word))
            },
        },
{
    match setting {
        None => false,
        Some(word) => is_on_word(lowercase(word).as_str()),
    }
}

/// The number of whole frames that a tone of the given length takes, at 44 100 frames
/// a second.
pub open spec fn frame_count(duration_ms: int) -> int {
    duration_ms * 44_100 / 1_000
}

/// The length of a number of frames, in whole milliseconds.
pub open spec fn frames_millis(frames: int, sample_rate: int) -> int {
    frames * 1_000 / sample_rate
}

/// How far a tone has been played, in frames.
pub struct SquareWave {
    /// The frequency, in hundredths of a hertz.
    pub centihertz: u32,
    /// The number of frames in a second.
    pub sample_rate: u32,
    /// The number of frames of the tone.
    pub num_samples: usize,
    /// The number of frames that have been played.
    pub elapsed: usize,
}

impl SquareWave {
    /// Whether no more frames have been played than there are.
    pub open spec fn wf(&self) -> bool {
        self.elapsed <= self.num_samples && self.sample_rate > 0
    }

    /// A tone of which nothing has been played yet, at 44 100 frames a second. Part
    /// of a frame is not played.
    pub fn new(centihertz: u32, duration_ms: u32) -> (r: SquareWave)
        ensures
            r.wf(),
            r.centihertz == centihertz,
            r.sample_rate == 44_100,
            r.num_samples == lesser(frame_count(duration_ms as int), usize::MAX as int),
            r.elapsed == 0,
    {
        let frames: u64 = (duration_ms as u64) * 44_100 / 1_000;
        let num_samples: usize = if frames <= usize::MAX as u64 {
            frames as usize
        } else {
            usize::MAX
        };
        SquareWave { centihertz, sample_rate: 44_100, num_samples, elapsed: 0 }
    }

    /// The number of the next frame to play, if the tone has not ended.
    pub fn next_frame(&mut self) -> (r: Option<usize>)
        requires
            old(self).wf(),
        ensures
            final(self).wf(),
            (r, *final(self)) == step(*old(self)),
    {
        if self.elapsed >= self.num_samples {
            return None;
        }
        let frame = self.elapsed;
        self.elapsed = self.elapsed + 1;
        Some(frame)
    }

    /// The length of the tone, in whole milliseconds.
    pub fn total_millis(&self) -> (r: u64)
        requires
            self.wf(),
            self.num_samples * 1_000 <= u64::MAX,
        ensures
            r == frames_millis(self.num_samples as int, self.sample_rate as int),
    {
        (self.num_samples as u64) * 1_000 / (self.sample_rate as u64)
    }
}

/// The number of the next frame of a tone, if it has not ended, and the tone after that
/// frame. An ended tone is not changed.
pub open spec fn step(tone: SquareWave) -> (Option<usize>, SquareWave) {
    if tone.elapsed < tone.num_samples {
        (Some(tone.elapsed), SquareWave { elapsed: (tone.elapsed + 1) as usize, ..tone })
    } else {
        (None, tone)
    }
}

/// A tone after the next frame was asked for `k` times.
pub open spec fn played(tone: SquareWave, k: nat) -> SquareWave
    decreases k,
{
    if k == 0 {
        tone
    } else {
        step(played(tone, (k - 1) as nat)).1
    }
}

/// A tone has exactly as many frames as it was made for: asked again and again, it
/// gives each of them once and in order, and from then on none. Nothing but the number
/// of frames played ever changes.
pub proof fn law_tone_has_its_frames(tone: SquareWave, k: nat)
    requires
        tone.wf(),
        tone.elapsed == 0,
    ensures
        played(tone, k) == (SquareWave {
            elapsed: lesser(k as int, tone.num_samples as int) as usize,
            ..tone
        }),
        k < tone.num_samples ==> step(played(tone, k)).0 == Some(k as usize),
        k >= tone.num_samples ==> step(played(tone, k)) == (None::<usize>, played(tone, k)),
    decreases k,
{
    if k > 0 {
        law_tone_has_its_frames(tone, (k - 1) as nat);
    }
}

/// A tone is at most one millisecond shorter than asked for, and never longer: what
/// is missing is part of a frame.
pub proof fn law_tones_last_as_long_as_asked(duration_ms: u32)
    ensures
        duration_ms - 1 <= frames_millis(frame_count(duration_ms as int), 44_100) <= duration_ms,
{
}

/// The frequency of a key of the scale of C major, in hundredths of a hertz. Keys are
/// counted in semitones, and key 69 is the A of 440 hertz.
pub open spec fn pitch(key: int) -> u32 {
    if key == 60 {
        26163
    } else if key == 62 {
        29366
    } else if key == 64 {
        32963
    } else if key == 65 {
        34923
    } else if key == 67 {
        39200
    } else if key == 69 {
        44000
    } else if key == 71 {
        49388
    } else if key == 72 {
        52325
    } else if key == 74 {
        58733
    } else if key == 76 {
        65925
    } else if key == 77 {
        69846
    } else if key == 79 {
        78399
    } else if key == 81 {
        88000
    } else if key == 83 {
        98777
    } else if key == 84 {
        104650
    } else {
        0
    }
}

/// An octave is twelve keys, and doubles the frequency up to the rounding.
pub proof fn law_octaves_double(key: int)
    requires
        pitch(key) > 0,
        pitch(key + 12) > 0,
    ensures
        2 * pitch(key) - 1 <= pitch(key + 12) <= 2 * pitch(key) + 1,
        pitch(69) == 44_000,
{
}

/// Whether notes sound the given keys for the given times, one after the other.
pub open spec fn plays(notes: Seq<Note>, keys: Seq<int>, millis: Seq<int>) -> bool {
    &&& notes.len() == keys.len()
    &&& notes.len() == millis.len()
    &&& forall|i: int|
        0 <= i < notes.len() ==> (#[trigger] notes[i]).centihertz == pitch(keys[i])
            && notes[i].millis == millis[i]
}

/// The sound of each thought type by the keys that are struck: a perfect fifth for a
/// plan, a major chord for a completed task, the same key before and behind for a
/// pattern.
pub proof fn law_thought_sounds_by_their_keys(t: ThoughtType)
    ensures
        ({
            let notes = thought_notes(t);
            match t {
                ThoughtType::Surprise => plays(notes, seq![72, 76, 79, 84], seq![35, 35, 35, 95]),
                ThoughtType::Mistake => plays(notes, seq![79, 72], seq![80, 100]),
                ThoughtType::Correction => plays(notes, seq![62, 72, 76], seq![50, 50, 80]),
                ThoughtType::AssumptionInvalidated => plays(notes, seq![79, 72], seq![80, 60]),
                ThoughtType::Insight => plays(notes, seq![76, 83], seq![80, 100]),
                ThoughtType::Idea => plays(notes, seq![72, 76, 83], seq![40, 40, 100]),
                ThoughtType::FactLearned => plays(notes, seq![74, 79], seq![80, 100]),
                ThoughtType::LessonLearned => plays(notes, seq![76, 79], seq![80, 100]),
                ThoughtType::Finding => plays(notes, seq![77, 81], seq![80, 100]),
                ThoughtType::Question => plays(notes, seq![79, 81], seq![90, 90]),
                ThoughtType::Wonder => plays(notes, seq![72, 74, 76], seq![55, 55, 70]),
                ThoughtType::Hypothesis => plays(notes, seq![74, 71], seq![90, 90]),
                ThoughtType::Experiment => plays(notes, seq![69, 72, 69], seq![60, 60, 60]),
                ThoughtType::PatternDetected => plays(notes, seq![72, 76, 72], seq![60, 60, 60]),
                ThoughtType::Plan => plays(notes, seq![72, 79], seq![70, 110]),
                ThoughtType::Subgoal => plays(notes, seq![64, 67], seq![70, 100]),
                ThoughtType::Decision => plays(notes, seq![67, 72], seq![70, 110]),
                ThoughtType::StrategyShift => plays(notes, seq![72, 77, 72], seq![55, 55, 70]),
                ThoughtType::ActionTaken => plays(notes, seq![67, 72], seq![70, 100]),
                ThoughtType::TaskComplete => plays(notes, seq![72, 76, 79], seq![55, 55, 70]),
                ThoughtType::Checkpoint => plays(notes, seq![72, 76], seq![80, 100]),
                ThoughtType::StateSnapshot => plays(notes, seq![64, 60], seq![70, 100]),
                ThoughtType::Handoff => plays(notes, seq![67, 64, 60], seq![55, 55, 70]),
                ThoughtType::Summary => plays(notes, seq![72, 67], seq![80, 100]),
                ThoughtType::PreferenceUpdate => plays(notes, seq![74, 77], seq![80, 100]),
                ThoughtType::UserTrait => plays(notes, seq![76, 81], seq![80, 100]),
                ThoughtType::RelationshipUpdate => plays(notes, seq![77, 81, 77], seq![55, 55, 70]),
                ThoughtType::Constraint => plays(notes, seq![65, 62], seq![80, 100]),
            }
        }),
        plays(jingle_notes(), seq![72, 76, 74, 83], seq![160, 160, 160, 380]),
{
}

/// A sound is switched off, or on, by just four words.
pub proof fn law_words_of_the_sounds(word: Seq<char>)
    ensures
        off_words().contains(word) <==> word == "0"@ || word == "false"@ || word == "no"@ || word
            == "off"@,
        on_words().contains(word) <==> word == "1"@ || word == "true"@ || word == "yes"@ || word
            == "on"@,
{
}

/// Only the letters `A` to `Z` are changed to lower case.
pub proof fn law_lower_case(s: Seq<char>, i: int)
    requires
        0 <= i < s.len(),
        is_ascii_chars(s),
    ensures
        ascii_lower(s).len() == s.len(),
        'A' <= s[i] <= 'Z' ==> ascii_lower(s)[i] as int == s[i] as int + 32,
        !('A' <= s[i] <= 'Z') ==> ascii_lower(s)[i] == s[i],
{
}

/// A tone takes all the frames that fit into its length, and no more.
pub proof fn law_frames_fit_the_length(duration_ms: u32)
    ensures
        frame_count(duration_ms as int) * 1_000 <= duration_ms * 44_100,
        duration_ms * 44_100 < (frame_count(duration_ms as int) + 1) * 1_000,
{
}

} // verus!
