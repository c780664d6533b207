use vstd::prelude::*;
use crate::note::{
    Note, NoteLetter, NoteAccidental, ParseError, pitch_class, letter_after, is_equivalent,
    next_note_letter, note_name,
};
use crate::interval::{
    Interval, interval_values, note_after_steps, total, rotated, running_totals, lemma_total_bound,
};
use crate::chord::{
    Chord, ChordPosition, identified_chords, chord_notes, chord_numeral_text, stacked_notes, position_rank,
    chord_steps, lemma_stacked_notes, lemma_chord_steps_small,
};
use crate::interval::semitones_between;
use crate::text::same_text;

verus! {

/// The kinds of scale. Each has a fixed pattern of semitone steps; a mode
/// starts that pattern at one of its degrees.
#[derive(Debug, Clone, Copy, PartialEq, Eq, Structural)]
pub enum Scale {
    Major,
    MelodicMinor,
    HarmonicMajor,
    HarmonicMinor,
    DoubleHarmonic,
    Diminished,
    WholeTone,
    Chromatic,
}

/// The semitone steps of a scale, from its first degree.
pub open spec fn scale_pattern(s: Scale) -> Seq<u32> {
    match s {
        Scale::Major => seq![2u32, 2, 1, 2, 2, 2, 1],
        Scale::MelodicMinor => seq![2u32, 1, 2, 2, 2, 2, 1],
        Scale::HarmonicMinor => seq![2u32, 1, 2, 2, 1, 3, 1],
        Scale::Diminished => seq![2u32, 1, 2, 1, 2, 1, 2, 1],
        Scale::WholeTone => seq![2u32, 2, 2, 2, 2, 2],
        Scale::HarmonicMajor => seq![2u32, 2, 1, 2, 1, 3, 1],
        Scale::DoubleHarmonic => seq![1u32, 3, 1, 2, 1, 3, 1],
        Scale::Chromatic => seq![1u32, 1, 1, 1, 1, 1, 1, 1, 1, 1],
    }
}

/// The names of the modes of a scale, by degree.
pub open spec fn mode_names(s: Scale) -> Seq<Seq<char>> {
    match s {
        Scale::Major => seq!["Major"@, "Dorian"@, "Phrygian"@, "Lydian"@, "Mixolydian"@, "Aeolian"@, "Locrian"@],
        Scale::MelodicMinor => seq![
            "Melodic Minor"@,
            "Assyrian"@,
            "Lydian Augmented"@,
            "Overtone"@,
            "Hindu"@,
            "Half-Diminished"@,
            "Altered"@,
        ],
        Scale::HarmonicMinor => seq![
            "Harmonic Minor"@,
            "Locrian #6"@,
            "Ionian #5"@,
            "Ukrainian Dorian"@,
            "Phrygian Dominant"@,
            "Lydian #2"@,
            "Super Locrian bb7"@,
        ],
        Scale::Diminished => seq!["Diminished"@, "Dominant Diminished"@],
        Scale::WholeTone => seq!["Whole Tone"@],
        Scale::HarmonicMajor => seq![
            "Harmonic Major"@,
            "Dorian b5"@,
            "Phrygian b4"@,
            "Lydian b3"@,
            "Mixolydian b2"@,
            "Lydian Aug #2"@,
            "Locrian bb7"@,
        ],
        Scale::DoubleHarmonic => seq![
            "Double Harmonic"@,
            "Lydian #2 #6"@,
            "UltraPhrygian"@,
            "Hungarian Minor"@,
            "Oriental"@,
            "Ionian Aug #2"@,
            "Locrian bb3 bb7"@,
        ],
        Scale::Chromatic => seq!["Chromatic"@],
    }
}

/// The name of a scale kind.
pub open spec fn scale_name(s: Scale) -> Seq<char> {
    match s {
        Scale::Major => "Major"@,
        Scale::MelodicMinor => "MelodicMinor"@,
        Scale::HarmonicMajor => "HarmonicMajor"@,
        Scale::HarmonicMinor => "HarmonicMinor"@,
        Scale::DoubleHarmonic => "DoubleHarmonic"@,
        Scale::Diminished => "Diminished"@,
        Scale::WholeTone => "WholeTone"@,
        Scale::Chromatic => "Chromatic"@,
    }
}

/// The scale kind a name stands for, if any.
pub open spec fn scale_named(s: Seq<char>) -> Option<Scale> {
    if s == "Major"@ { Some(Scale::Major) }
    else if s == "MelodicMinor"@ { Some(Scale::MelodicMinor) }
    else if s == "HarmonicMajor"@ { Some(Scale::HarmonicMajor) }
    else if s == "HarmonicMinor"@ { Some(Scale::HarmonicMinor) }
    else if s == "DoubleHarmonic"@ { Some(Scale::DoubleHarmonic) }
    else if s == "Diminished"@ { Some(Scale::Diminished) }
    else if s == "WholeTone"@ { Some(Scale::WholeTone) }
    else if s == "Chromatic"@ { Some(Scale::Chromatic) }
    else { None }
}

/// The seven-note scales whose notes are spelled with each letter once.
pub open spec fn is_diatonic(s: Scale) -> bool {
    match s {
        Scale::Major | Scale::MelodicMinor | Scale::HarmonicMajor | Scale::HarmonicMinor
        | Scale::DoubleHarmonic => true,
        _ => false,
    }
}

/// Every scale kind, in declaration order.
pub open spec fn scales_in_order() -> Seq<Scale> {
    seq![
        Scale::Major,
        Scale::MelodicMinor,
        Scale::HarmonicMajor,
        Scale::HarmonicMinor,
        Scale::DoubleHarmonic,
        Scale::Diminished,
        Scale::WholeTone,
        Scale::Chromatic,
    ]
}

/// `raw` spelled with the letter `target` where a single accidental or
/// none allows it; `raw` itself otherwise.
pub open spec fn spelled_with(raw: Note, target: NoteLetter) -> Note {
    let natural = Note { letter: target, accidental: NoteAccidental::Natural };
    let flat = Note { letter: target, accidental: NoteAccidental::Flat };
    let sharp = Note { letter: target, accidental: NoteAccidental::Sharp };
    if raw.letter == target {
        raw
    } else if pitch_class(natural) == pitch_class(raw) {
        natural
    } else if pitch_class(flat) == pitch_class(raw) {
        flat
    } else if pitch_class(sharp) == pitch_class(raw) {
        sharp
    } else {
        raw
    }
}

/// The note after `prev` in a scale, `step` semitones up; when `diatonic`,
/// spelled with the letter after that of `prev` where possible.
pub open spec fn next_scale_note(prev: Note, step: u32, diatonic: bool) -> Note {
    let raw = note_after_steps(prev, step as nat);
    if diatonic {
        spelled_with(raw, letter_after(prev.letter))
    } else {
        raw
    }
}

/// The first `k + 1` notes of a scale built from `root` by `steps`.
pub open spec fn scale_notes_upto(root: Note, steps: Seq<u32>, diatonic: bool, k: nat) -> Seq<Note>
    decreases k,
{
    if k == 0 {
        seq![root]
    } else {
        let below = scale_notes_upto(root, steps, diatonic, (k - 1) as nat);
        below.push(next_scale_note(below.last(), steps[k - 1], diatonic))
    }
}

/// The notes of a scale built from `root` by `steps`: one note for each step,
/// the last step leading back to the root's pitch class being left out.
pub open spec fn scale_notes(root: Note, steps: Seq<u32>, diatonic: bool) -> Seq<Note> {
    if steps.len() == 0 {
        seq![root]
    } else {
        scale_notes_upto(root, steps, diatonic, (steps.len() - 1) as nat)
    }
}

/// Whether `scale` holds the pitch class of `n`.
pub open spec fn holds_pitch(scale: Seq<Note>, n: Note) -> bool {
    exists|k: int| 0 <= k < scale.len() && pitch_class(#[trigger] scale[k]) == pitch_class(n)
}

/// Whether every note of `notes` has its pitch class among `scale`.
pub open spec fn notes_within(notes: Seq<Note>, scale: Seq<Note>) -> bool {
    forall|j: int| 0 <= j < notes.len() ==> holds_pitch(scale, #[trigger] notes[j])
}

/// The first place from `i` on where `s` holds the pitch class of `n`.
pub open spec fn first_position_from(s: Seq<Note>, n: Note, i: int) -> Option<nat>
    decreases s.len() - i,
{
    if i < 0 || i >= s.len() {
        None
    } else if pitch_class(s[i]) == pitch_class(n) {
        Some(i as nat)
    } else {
        first_position_from(s, n, i + 1)
    }
}

/// The first place where `s` holds the pitch class of `n`.
pub open spec fn first_position(s: Seq<Note>, n: Note) -> Option<nat> {
    first_position_from(s, n, 0)
}

/// The chord built on degree `i` of the notes `notes`: the notes two, four
/// (and, when `extended`, six) degrees higher, wrapping round, are stacked
/// on it and identified. A fourth note whose pitch class is already among
/// the first three is left out.
pub open spec fn degree_chord(notes: Seq<Note>, i: int, extended: bool) -> Option<Chord> {
    let n = notes.len() as int;
    let first = notes[i % n];
    let second = notes[(i + 2) % n];
    let third = notes[(i + 4) % n];
    let fourth = notes[(i + 6) % n];
    let triad = seq![first, second, third];
    let repeated = pitch_class(fourth) == pitch_class(first) || pitch_class(fourth) == pitch_class(second)
        || pitch_class(fourth) == pitch_class(third);
    let stack = if extended && !repeated { triad.push(fourth) } else { triad };
    let found = identified_chords(stack);
    if found.len() > 0 { Some(found[0]) } else { None }
}

/// When `raw` cannot keep its letter, a note of letter `target` and of the
/// same pitch class is the spelling chosen.
proof fn lemma_spelled_with(raw: Note, target: NoteLetter, m: Note)
    requires
        raw.letter != target,
        m.letter == target,
        pitch_class(m) == pitch_class(raw),
    ensures
        spelled_with(raw, target) == m,
{
    let natural = Note { letter: target, accidental: NoteAccidental::Natural };
    let flat = Note { letter: target, accidental: NoteAccidental::Flat };
    let sharp = Note { letter: target, accidental: NoteAccidental::Sharp };
    match m.accidental {
        NoteAccidental::Natural => {},
        NoteAccidental::Flat => {
            assert(pitch_class(natural) != pitch_class(m));
        },
        NoteAccidental::Sharp => {
            assert(pitch_class(natural) != pitch_class(m));
            assert(pitch_class(flat) != pitch_class(m));
        },
    }
}

/// The notes of a scale built from `root` by `steps`; when `diatonic`, each
/// note after the root is spelled with the letter after the previous note's,
/// taking an equivalent spelling where the raw step lands on another letter.
pub fn build_scale_notes(root: Note, steps: &Vec<Interval>, diatonic: bool) -> (r: Vec<Note>)
    ensures
        r@ == scale_notes(root, interval_values(steps@), diatonic),
{
    let ghost vals = interval_values(steps@);
    let mut res: Vec<Note> = vec![root];
    if steps.len() == 0 {
        return res;
    }
    let mut target = next_note_letter(&root.letter);
    let mut i: usize = 0;
    while i < steps.len() - 1
        invariant
            steps@.len() >= 1,
            0 <= i <= steps@.len() - 1,
            vals == interval_values(steps@),
            res@ == scale_notes_upto(root, vals, diatonic, i as nat),
            res@.len() == i + 1,
            target == letter_after(res@.last().letter),
        decreases steps.len() - 1 - i,
    {
        let note = steps[i].apply(&res[i]);
        let chosen = if diatonic {
            if target == note.letter {
                note
            } else {
                let equivalents = note.equivalents();
                let mut found = note;
                let mut j: usize = 0;
                while j < equivalents.len() && found.letter != target
                    invariant
                        0 <= j <= equivalents@.len(),
                        target != note.letter,
                        forall|k: int| 0 <= k < equivalents@.len() ==> is_equivalent(#[trigger] equivalents@[k], note),
                        forall|m: Note| is_equivalent(m, note) ==> equivalents@ == seq![m],
                        found == note || (found.letter == target && pitch_class(found) == pitch_class(note)),
                        found.letter != target ==> forall|k: int| 0 <= k < j ==> (#[trigger] equivalents@[k]).letter != target,
                    decreases equivalents.len() - j,
                {
                    if equivalents[j].letter == target {
                        found = equivalents[j];
                    }
                    j += 1;
                }
                proof {
                    if found.letter == target && pitch_class(found) == pitch_class(note) {
                        lemma_spelled_with(note, target, found);
                    } else {
                        let natural = Note { letter: target, accidental: NoteAccidental::Natural };
                        let flat = Note { letter: target, accidental: NoteAccidental::Flat };
                        let sharp = Note { letter: target, accidental: NoteAccidental::Sharp };
                        if is_equivalent(natural, note) {
                            assert(equivalents@ == seq![natural]);
                            assert(equivalents@[0] == natural);
                            assert(equivalents@[0].letter != target);
                        }
                        if is_equivalent(flat, note) {
                            assert(equivalents@ == seq![flat]);
                            assert(equivalents@[0] == flat);
                            assert(equivalents@[0].letter != target);
                        }
                        if is_equivalent(sharp, note) {
                            assert(equivalents@ == seq![sharp]);
                            assert(equivalents@[0] == sharp);
                            assert(equivalents@[0].letter != target);
                        }
                    }
                }
                found
            }
        } else {
            note
        };
        res.push(chosen);
        target = next_note_letter(&chosen.letter);
        i += 1;
    }
    res
}

/// The notes of `s` at the given places.
fn pick(s: &Vec<Note>, a: usize, b: usize, c: usize) -> (r: Vec<Note>)
    requires
        a < s@.len(),
        b < s@.len(),
        c < s@.len(),
    ensures
        r@ == seq![s@[a as int], s@[b as int], s@[c as int]],
{
    let r = vec![s[a], s[b], s[c]];
    assert(r@ =~= seq![s@[a as int], s@[b as int], s@[c as int]]);
    r
}

/// The place `k` after place `i` among `n` places, wrapping round.
fn wrapped(i: usize, k: usize, n: usize) -> (r: usize)
    requires
        i < n,
        k <= 6,
    ensures
        r == (i + k) % (n as int),
{
    if k < n - i {
        proof {
            vstd::arithmetic::div_mod::lemma_small_mod((i + k) as nat, n as nat);
        }
        i + k
    } else {
        let r = (k - (n - i)) % n;
        proof {
            vstd::arithmetic::div_mod::lemma_mod_add_multiples_vanish((i + k - n) as int, n as int);
        }
        r
    }
}

/// The chord on each degree of the notes `notes`, as `degree_chord` builds it.
pub fn chords_of_notes(notes: &Vec<Note>, extended: bool) -> (r: Vec<Option<Chord>>)
    ensures
        r@.len() == notes@.len(),
        forall|i: int| 0 <= i < notes@.len() ==> #[trigger] r@[i] == degree_chord(notes@, i, extended),
{
    let n = notes.len();
    let mut res: Vec<Option<Chord>> = Vec::new();
    let mut i: usize = 0;
    while i < n
        invariant
            n == notes@.len(),
            0 <= i <= n,
            res@.len() == i,
            forall|k: int| 0 <= k < i ==> #[trigger] res@[k] == degree_chord(notes@, k, extended),
        decreases n - i,
    {
        let triad = pick(notes, wrapped(i, 0, n), wrapped(i, 2, n), wrapped(i, 4, n));
        let chords = if !extended {
            Chord::identify(&triad)
        } else {
            let fourth = notes[wrapped(i, 6, n)];
            if triad[0].get_index() == fourth.get_index() || triad[1].get_index() == fourth.get_index()
                || triad[2].get_index() == fourth.get_index() {
                Chord::identify(&triad)
            } else {
                let mut stack = triad;
                stack.push(fourth);
                Chord::identify(&stack)
            }
        };
        if chords.len() > 0 {
            res.push(Some(chords[0]));
        } else {
            res.push(None);
        }
        proof {
            assert(res@[i as int] == degree_chord(notes@, i as int, extended));
        }
        i += 1;
    }
    res
}

/// The first place where `notes` holds the pitch class of `note`.
pub fn note_index(notes: &Vec<Note>, note: &Note) -> (r: Option<usize>)
    ensures
        match r {
            Some(i) => first_position(notes@, *note) == Some(i as nat),
            None => first_position(notes@, *note) is None,
        },
{
    let mut i: usize = 0;
    while i < notes.len()
        invariant
            0 <= i <= notes@.len(),
            first_position(notes@, *note) == first_position_from(notes@, *note, i as int),
        decreases notes.len() - i,
    {
        if notes[i].get_index() == note.get_index() {
            return Some(i);
        }
        i += 1;
    }
    None
}

/// Whether every note of `notes` has its pitch class among `scale`.
pub fn all_within(notes: &Vec<Note>, scale: &Vec<Note>) -> (r: bool)
    ensures
        r == notes_within(notes@, scale@),
{
    let mut j: usize = 0;
    while j < notes.len()
        invariant
            0 <= j <= notes@.len(),
            notes_within(notes@.take(j as int), scale@),
        decreases notes.len() - j,
    {
        let mut found = false;
        let mut k: usize = 0;
        while k < scale.len()
            invariant
                0 <= k <= scale@.len(),
                0 <= j < notes@.len(),
                found ==> holds_pitch(scale@, notes@[j as int]),
                !found ==> forall|m: int| 0 <= m < k ==> pitch_class(#[trigger] scale@[m]) != pitch_class(notes@[j as int]),
            decreases scale.len() - k,
        {
            if scale[k].get_index() == notes[j].get_index() {
                found = true;
            }
            k += 1;
        }
        if !found {
            assert(!holds_pitch(scale@, notes@[j as int]));
            assert(!notes_within(notes@, scale@));
            return false;
        }
        assert(notes_within(notes@.take(j + 1), scale@)) by {
            assert forall|q: int| 0 <= q < j + 1 implies holds_pitch(scale@, #[trigger] notes@.take(j + 1)[q]) by {
                if q < j {
                    assert(notes@.take(j + 1)[q] == notes@.take(j as int)[q]);
                }
            }
        }
        j += 1;
    }
    assert(notes@.take(notes@.len() as int) =~= notes@);
    true
}

/// The names of the modes of `scale`, by degree.
pub fn get_mode_names(scale: &Scale) -> (r: Vec<&'static str>)
    ensures
        r@.len() == mode_names(*scale).len(),
        forall|i: int| 0 <= i < r@.len() ==> (#[trigger] r@[i])@ == mode_names(*scale)[i],
{
    let r = match scale {
        Scale::Major => vec!["Major", "Dorian", "Phrygian", "Lydian", "Mixolydian", "Aeolian", "Locrian"],
        Scale::MelodicMinor => vec![
            "Melodic Minor",
            "Assyrian",
            "Lydian Augmented",
            "Overtone",
            "Hindu",
            "Half-Diminished",
            "Altered",
        ],
        Scale::HarmonicMinor => vec![
            "Harmonic Minor",
            "Locrian #6",
            "Ionian #5",
            "Ukrainian Dorian",
            "Phrygian Dominant",
            "Lydian #2",
            "Super Locrian bb7",
        ],
        Scale::Diminished => vec!["Diminished", "Dominant Diminished"],
        Scale::WholeTone => vec!["Whole Tone"],
        Scale::HarmonicMajor => vec![
            "Harmonic Major",
            "Dorian b5",
            "Phrygian b4",
            "Lydian b3",
            "Mixolydian b2",
            "Lydian Aug #2",
            "Locrian bb7",
        ],
        Scale::DoubleHarmonic => vec![
            "Double Harmonic",
            "Lydian #2 #6",
            "UltraPhrygian",
            "Hungarian Minor",
            "Oriental",
            "Ionian Aug #2",
            "Locrian bb3 bb7",
        ],
        Scale::Chromatic => vec!["Chromatic"],
    };
    r
}

/// Whether the notes of `scale` are spelled with each letter once.
pub fn can_be_optimised(scale: &Scale) -> (r: bool)
    ensures
        r == is_diatonic(*scale),
{
    match scale {
        Scale::Major | Scale::MelodicMinor | Scale::HarmonicMajor | Scale::HarmonicMinor
        | Scale::DoubleHarmonic => true,
        _ => false,
    }
}

/// Every scale kind, in declaration order.
pub fn all_scales() -> (r: Vec<Scale>)
    ensures
        r@ == scales_in_order(),
{
    let r = vec![
        Scale::Major,
        Scale::MelodicMinor,
        Scale::HarmonicMajor,
        Scale::HarmonicMinor,
        Scale::DoubleHarmonic,
        Scale::Diminished,
        Scale::WholeTone,
        Scale::Chromatic,
    ];
    assert(r@ =~= scales_in_order());
    r
}

/// The steps of a scale's pattern as intervals.
fn pattern_intervals(scale: &Scale) -> (r: Vec<Interval>)
    ensures
        interval_values(r@) == scale_pattern(*scale),
{
    let values: Vec<u32> = match scale {
        Scale::Major => vec![2, 2, 1, 2, 2, 2, 1],
        Scale::MelodicMinor => vec![2, 1, 2, 2, 2, 2, 1],
        Scale::HarmonicMinor => vec![2, 1, 2, 2, 1, 3, 1],
        Scale::Diminished => vec![2, 1, 2, 1, 2, 1, 2, 1],
        Scale::WholeTone => vec![2, 2, 2, 2, 2, 2],
        Scale::HarmonicMajor => vec![2, 2, 1, 2, 1, 3, 1],
        Scale::DoubleHarmonic => vec![1, 3, 1, 2, 1, 3, 1],
        Scale::Chromatic => vec![1, 1, 1, 1, 1, 1, 1, 1, 1, 1],
    };
    assert(values@ =~= scale_pattern(*scale));
    crate::interval::intervals_of(&values)
}

/// A pattern has six to ten steps of at most three semitones.
pub proof fn lemma_pattern_small(s: Scale)
    ensures
        6 <= scale_pattern(s).len() <= 10,
        forall|i: int| 0 <= i < scale_pattern(s).len() ==> 1 <= #[trigger] scale_pattern(s)[i] <= 3,
        1 <= mode_names(s).len() <= 7,
{
}

/// The steps of a scale's pattern, started at degree `degree` (taken modulo
/// the pattern's length).
pub fn rotated_pattern(scale: &Scale, degree: usize) -> (r: Vec<Interval>)
    ensures
        interval_values(r@) == rotated(scale_pattern(*scale), (degree as int) % (scale_pattern(*scale).len() as int)),
{
    let pattern = pattern_intervals(scale);
    proof {
        lemma_pattern_small(*scale);
    }
    let n = pattern.len();
    let d = degree % n;
    let mut res: Vec<Interval> = Vec::new();
    let mut i: usize = 0;
    while i < n
        invariant
            n == pattern@.len(),
            6 <= n <= 10,
            d < n,
            0 <= i <= n,
            res@.len() == i,
            forall|k: int| 0 <= k < i ==> (#[trigger] res@[k]).value == pattern@[(k + d) % (n as int)].value,
        decreases n - i,
    {
        res.push(pattern[(i + d) % n]);
        i += 1;
    }
    assert(interval_values(res@) =~= rotated(interval_values(pattern@), d as int));
    res
}

impl Scale {
    /// Reads the name of a scale kind, as `to_string` writes it.
    pub fn try_from(value: &str) -> (r: Result<Scale, ParseError>)
        ensures
            match scale_named(value@) {
                Some(s) => r == Ok::<Scale, ParseError>(s),
                None => r matches Err(e) && e.token@ == value@,
            },
    {
        if same_text(value, "Major") {
            Ok(Scale::Major)
        } else if same_text(value, "MelodicMinor") {
            Ok(Scale::MelodicMinor)
        } else if same_text(value, "HarmonicMajor") {
            Ok(Scale::HarmonicMajor)
        } else if same_text(value, "HarmonicMinor") {
            Ok(Scale::HarmonicMinor)
        } else if same_text(value, "DoubleHarmonic") {
            Ok(Scale::DoubleHarmonic)
        } else if same_text(value, "Diminished") {
            Ok(Scale::Diminished)
        } else if same_text(value, "WholeTone") {
            Ok(Scale::WholeTone)
        } else if same_text(value, "Chromatic") {
            Ok(Scale::Chromatic)
        } else {
            Err(ParseError { token: String::from_str(value) })
        }
    }

    /// The name of the scale kind.
    pub fn to_string(&self) -> (r: String)
        ensures
            r@ == scale_name(*self),
    {
        match self {
            Scale::Major => String::from_str("Major"),
            Scale::MelodicMinor => String::from_str("MelodicMinor"),
            Scale::HarmonicMajor => String::from_str("HarmonicMajor"),
            Scale::HarmonicMinor => String::from_str("HarmonicMinor"),
            Scale::DoubleHarmonic => String::from_str("DoubleHarmonic"),
            Scale::Diminished => String::from_str("Diminished"),
            Scale::WholeTone => String::from_str("WholeTone"),
            Scale::Chromatic => String::from_str("Chromatic"),
        }
    }
}

/// A mode: a scale kind started on one of its degrees, from a root note.
#[derive(Debug, Clone, Copy)]
pub struct Mode {
    pub root_note: Note,
    pub scale: Scale,
    pub degree: usize,
}

/// The steps of a mode: its scale's pattern started at its degree.
pub open spec fn mode_steps(m: Mode) -> Seq<u32> {
    rotated(scale_pattern(m.scale), (m.degree as int) % (scale_pattern(m.scale).len() as int))
}

/// The notes of a mode, from its root; spelled with each letter once for the
/// diatonic scale kinds.
pub open spec fn mode_notes(m: Mode) -> Seq<Note> {
    scale_notes(m.root_note, mode_steps(m), is_diatonic(m.scale))
}

/// The roman numeral of `c` within a scale of notes `scale` rooted at
/// `root`, where all the chord's notes belong to the scale: the chord root's
/// first place in the scale chooses between spellings.
pub open spec fn numeral_in_scale(scale: Seq<Note>, root: Note, c: Chord) -> Option<Seq<char>> {
    if notes_within(chord_notes(c), scale) {
        match first_position(scale, c.root_note) {
            Some(k) => Some(chord_numeral_text(semitones_between(root, c.root_note), k as int)),
            None => None,
        }
    } else {
        None
    }
}

/// `a` and `b` agree in pitch class, place by place, as far as both go.
pub open spec fn pitches_agree(a: Seq<Note>, b: Seq<Note>) -> bool {
    forall|j: int| 0 <= j < a.len() && 0 <= j < b.len() ==> pitch_class(#[trigger] a[j]) == pitch_class(b[j])
}

/// The notes of `m` agree in pitch class with `notes`, as far as both go.
pub open spec fn mode_matches(m: Mode, notes: Seq<Note>) -> bool {
    pitches_agree(mode_notes(m), notes)
}

/// The modes of scale `s` on degree `d`, rooted in turn at `notes[1]` up to
/// `notes[k - 1]`, whose notes agree with `notes`.
pub open spec fn modes_by_root(notes: Seq<Note>, s: Scale, d: int, k: int) -> Seq<Mode>
    decreases k,
{
    if k <= 1 {
        Seq::empty()
    } else {
        let below = modes_by_root(notes, s, d, k - 1);
        let m = Mode { root_note: notes[k - 1], scale: s, degree: d as usize };
        if mode_matches(m, notes) {
            below.push(m)
        } else {
            below
        }
    }
}

/// The modes found for scale `s` over its degrees below `d`.
pub open spec fn modes_by_degree(notes: Seq<Note>, s: Scale, d: int) -> Seq<Mode>
    decreases d,
{
    if d <= 0 {
        Seq::empty()
    } else {
        modes_by_degree(notes, s, d - 1) + modes_by_root(notes, s, d - 1, notes.len() as int)
    }
}

/// The modes found over the first `i` scale kinds.
pub open spec fn modes_by_scale(notes: Seq<Note>, i: int) -> Seq<Mode>
    decreases i,
{
    if i <= 0 {
        Seq::empty()
    } else {
        let s = scales_in_order()[i - 1];
        modes_by_scale(notes, i - 1) + modes_by_degree(notes, s, mode_names(s).len() as int)
    }
}

/// The modes that `Mode::identify` finds for `notes`: over every scale kind,
/// every named degree and every note but the first taken as root, in that
/// order, those whose notes agree with `notes`.
pub open spec fn identified_modes(notes: Seq<Note>) -> Seq<Mode> {
    modes_by_scale(notes, 8)
}

/// A scale built up to step `k` has `k + 1` notes, the root first.
pub proof fn lemma_scale_notes_len(root: Note, steps: Seq<u32>, diatonic: bool, k: nat)
    ensures
        scale_notes_upto(root, steps, diatonic, k).len() == k + 1,
        scale_notes_upto(root, steps, diatonic, k)[0] == root,
    decreases k,
{
    if k > 0 {
        lemma_scale_notes_len(root, steps, diatonic, (k - 1) as nat);
    }
}

/// A mode has as many notes as its pattern has steps, its root first.
pub proof fn lemma_mode_notes_len(m: Mode)
    ensures
        mode_notes(m).len() == scale_pattern(m.scale).len(),
        mode_notes(m)[0] == m.root_note,
        mode_steps(m).len() == scale_pattern(m.scale).len(),
{
    lemma_pattern_small(m.scale);
    lemma_scale_notes_len(m.root_note, mode_steps(m), is_diatonic(m.scale), (mode_steps(m).len() - 1) as nat);
}

impl Mode {
    /// The mode of `scale` on degree `degree`, from `root_note`.
    pub fn new(root_note: Note, scale: Scale, degree: usize) -> (r: Mode)
        ensures
            r == (Mode { root_note, scale, degree }),
    {
        Mode { root_note, scale, degree }
    }

    /// The steps of the mode: the scale's pattern started at the mode's degree.
    pub fn get_intervals(&self) -> (r: Vec<Interval>)
        ensures
            interval_values(r@) == mode_steps(*self),
    {
        rotated_pattern(&self.scale, self.degree)
    }

    /// The notes of the mode, from its root.
    pub fn get_notes(&self) -> (r: Vec<Note>)
        ensures
            r@ == mode_notes(*self),
    {
        build_scale_notes(self.root_note, &self.get_intervals(), can_be_optimised(&self.scale))
    }

    /// The interval from the root to each note of the mode, the root's own first.
    pub fn get_root_intervals(&self) -> (r: Vec<Interval>)
        ensures
            r@.len() == mode_steps(*self).len(),
            forall|k: int| 0 <= k < r@.len() ==> (#[trigger] r@[k]).value == total(mode_steps(*self).take(k)),
    {
        let steps = self.get_intervals();
        proof {
            lemma_pattern_small(self.scale);
            lemma_total_bound(interval_values(steps@), 3);
        }
        let mut totals = running_totals(&steps);
        totals.pop();
        totals
    }

    /// The chord on each degree of the mode: triads, or four-note chords when
    /// `extended`; `None` where the stacked notes form no known chord.
    pub fn get_chords(&self, extended: bool) -> (r: Vec<Option<Chord>>)
        ensures
            r@.len() == mode_notes(*self).len(),
            forall|i: int| 0 <= i < r@.len() ==> #[trigger] r@[i] == degree_chord(mode_notes(*self), i, extended),
    {
        let notes = self.get_notes();
        proof {
            lemma_mode_notes_len(*self);
        }
        chords_of_notes(&notes, extended)
    }

    /// Whether every note of `notes` has its pitch class among the mode's notes.
    pub fn contains_notes(&self, notes: &Vec<Note>) -> (r: bool)
        ensures
            r == notes_within(notes@, mode_notes(*self)),
    {
        all_within(notes, &self.get_notes())
    }

    /// The first place among the mode's notes that holds the pitch class of `note`.
    fn get_note_index(&self, note: &Note) -> (r: Option<usize>)
        ensures
            match r {
                Some(i) => first_position(mode_notes(*self), *note) == Some(i as nat),
                None => first_position(mode_notes(*self), *note) is None,
            },
    {
        let notes = self.get_notes();
        note_index(&notes, note)
    }

    /// The roman numeral of `chord` within the mode, where all its notes
    /// belong to the mode; the chord root's first place among the mode's notes
    /// chooses between spellings.
    pub fn chord_numeral(&self, chord: &Chord) -> (r: Option<String>)
        ensures
            notes_within(chord_notes(*chord), mode_notes(*self)) <==> r is Some,
            match numeral_in_scale(mode_notes(*self), self.root_note, *chord) {
                Some(t) => (r matches Some(s) && s@ == t),
                None => r is None,
            },
    {
        if self.contains_notes(&chord.get_notes()) {
            proof {
                lemma_chord_holds_root(*chord);
                let cn = chord_notes(*chord);
                let i = choose|i: int| 0 <= i < cn.len() && pitch_class(#[trigger] cn[i]) == pitch_class(chord.root_note);
                assert(holds_pitch(mode_notes(*self), cn[i]));
                lemma_holds_first_position(mode_notes(*self), chord.root_note, 0);
            }
            let index = self.get_note_index(&chord.get_root());
            match index {
                Some(k) => Some(chord.as_numeral(&self.root_note, k)),
                None => None,
            }
        } else {
            None
        }
    }

    /// The mode's name: the root's name, a space and the mode's name, the
    /// degree being taken modulo the number of names the scale kind has.
    pub fn to_string(&self) -> (r: String)
        ensures
            r@ == note_name(self.root_note) + " "@ + mode_names(self.scale)[(self.degree as int) % (mode_names(
                self.scale,
            ).len() as int)],
    {
        let names = get_mode_names(&self.scale);
        proof {
            lemma_pattern_small(self.scale);
        }
        let mut res = self.root_note.to_string();
        res.append(" ");
        res.append(names[self.degree % names.len()]);
        res
    }
}

/// Whether `a` and `b` agree in pitch class, place by place, as far as both go.
pub fn pitches_agree_exec(a: &Vec<Note>, b: &Vec<Note>) -> (r: bool)
    ensures
        r == pitches_agree(a@, b@),
{
    let mut j: usize = 0;
    while j < a.len() && j < b.len()
        invariant
            0 <= j <= a@.len(),
            j <= b@.len(),
            forall|k: int| 0 <= k < j ==> pitch_class(#[trigger] a@[k]) == pitch_class(b@[k]),
        decreases a.len() - j,
    {
        if a[j].get_index() != b[j].get_index() {
            return false;
        }
        j += 1;
    }
    true
}

impl Mode {
    /// The modes whose notes agree in pitch class with `notes`, as far as both
    /// go: every scale kind and every named degree is tried, rooted in turn at
    /// each note of `notes` after the first.
    pub fn identify(notes: &Vec<Note>) -> (r: Vec<Mode>)
        ensures
            r@ == identified_modes(notes@),
    {
        let mut res: Vec<Mode> = Vec::new();
        let scales = all_scales();
        let mut i: usize = 0;
        while i < scales.len()
            invariant
                0 <= i <= 8,
                scales@ == scales_in_order(),
                res@ == modes_by_scale(notes@, i as int),
            decreases scales.len() - i,
        {
            let scale = scales[i];
            let num_modes = get_mode_names(&scale).len();
            let ghost base_i = res@;
            let mut d: usize = 0;
            proof {
                assert(res@ =~= base_i + modes_by_degree(notes@, scale, 0));
            }
            while d < num_modes
                invariant
                    0 <= i < 8,
                    scale == scales_in_order()[i as int],
                    num_modes == mode_names(scale).len(),
                    0 <= d <= num_modes,
                    base_i == modes_by_scale(notes@, i as int),
                    res@ == base_i + modes_by_degree(notes@, scale, d as int),
                decreases num_modes - d,
            {
                let ghost base_d = res@;
                let mut k: usize = 1;
                proof {
                    assert(res@ =~= base_d + modes_by_root(notes@, scale, d as int, 1));
                }
                while k < notes.len()
                    invariant
                        1 <= k,
                        k <= notes@.len() || k == 1,
                        res@ == base_d + modes_by_root(notes@, scale, d as int, k as int),
                    decreases notes.len() - k,
                {
                    let mode = Mode::new(notes[k], scale, d);
                    if pitches_agree_exec(&mode.get_notes(), notes) {
                        proof {
                            assert((base_d + modes_by_root(notes@, scale, d as int, k as int)).push(mode) =~= base_d
                                + modes_by_root(notes@, scale, d as int, k as int).push(mode));
                        }
                        res.push(mode);
                    }
                    k += 1;
                }
                proof {
                    if notes@.len() == 0 {
                        assert(modes_by_root(notes@, scale, d as int, 0) =~= modes_by_root(notes@, scale, d as int, 1));
                    }
                    assert(res@ =~= base_i + modes_by_degree(notes@, scale, d + 1));
                }
                d += 1;
            }
            i += 1;
        }
        res
    }
}

/// The root of a chord is among its notes.
pub proof fn lemma_chord_holds_root(c: Chord)
    ensures
        holds_pitch(chord_notes(c), c.root_note),
{
    let stack = stacked_notes(c.root_note, chord_steps(c.quality, ChordPosition::Root));
    lemma_stacked_notes(c.root_note, chord_steps(c.quality, ChordPosition::Root));
    lemma_chord_steps_small(c.quality, ChordPosition::Root);
    let n = stack.len() as int;
    let k = position_rank(c.position);
    let i = (n - k % n) % n;
    assert((i + k) % n == 0) by (nonlinear_arith)
        requires
            n >= 1,
            k >= 0,
            i == (n - k % n) % n,
    ;
    assert(chord_notes(c)[i] == stack[0]);
}

/// A sequence that holds the pitch class of `n` from `i` on has a first place for it.
pub proof fn lemma_holds_first_position(s: Seq<Note>, n: Note, i: int)
    requires
        0 <= i,
        exists|k: int| i <= k < s.len() && pitch_class(#[trigger] s[k]) == pitch_class(n),
    ensures
        first_position_from(s, n, i) is Some,
    decreases s.len() - i,
{
    if pitch_class(s[i]) != pitch_class(n) {
        lemma_holds_first_position(s, n, i + 1);
    }
}

} // verus!
