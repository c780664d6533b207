use vstd::prelude::*;
use std::collections::HashMap;
use crate::note::{Note, NoteLetter, NoteAccidental, note_name, pitch_class};
use crate::interval::{Interval, interval_values, note_after_steps, total, rotated, running_totals};
use crate::chord::Chord;
use crate::mode::{
    Scale as ScaleKind, scale_pattern, is_diatonic, scale_notes, notes_within, holds_pitch,
    first_position, numeral_in_scale, pitches_agree, build_scale_notes, chords_of_notes, degree_chord,
    note_index, all_within, rotated_pattern, can_be_optimised, pitches_agree_exec, lemma_pattern_small,
    lemma_chord_holds_root, lemma_holds_first_position,
};
use crate::chord::chord_notes;
use crate::text::same_text;

verus! {

/// Failure to read the name of a scale quality.
#[derive(Debug)]
pub struct ParseScaleQualityError {
    pub details: String,
}

impl ParseScaleQualityError {
    fn new(msg: &str) -> (r: Self)
        ensures
            r.details@ == "Could not convert "@ + msg@ + " to a ScaleQuality"@,
    {
        let mut details = String::from_str("Could not convert ");
        details.append(msg);
        details.append(" to a ScaleQuality");
        ParseScaleQualityError { details }
    }
}

/// The qualities of scale.
#[derive(Debug, Clone, Copy, PartialEq, Eq, Structural)]
pub enum ScaleQuality {
    Major,
    MelodicMinor,
    HarmonicMajor,
    HarmonicMinor,
    DoubleHarmonic,
    Diminished,
    WholeTone,
    Chromatic,
}

/// The scale kind of the same name, whose step pattern a quality shares.
pub open spec fn kind_of(q: ScaleQuality) -> ScaleKind {
    match q {
        ScaleQuality::Major => ScaleKind::Major,
        ScaleQuality::MelodicMinor => ScaleKind::MelodicMinor,
        ScaleQuality::HarmonicMajor => ScaleKind::HarmonicMajor,
        ScaleQuality::HarmonicMinor => ScaleKind::HarmonicMinor,
        ScaleQuality::DoubleHarmonic => ScaleKind::DoubleHarmonic,
        ScaleQuality::Diminished => ScaleKind::Diminished,
        ScaleQuality::WholeTone => ScaleKind::WholeTone,
        ScaleQuality::Chromatic => ScaleKind::Chromatic,
    }
}

/// The quality a name stands for, if any.
pub open spec fn quality_named(s: Seq<char>) -> Option<ScaleQuality> {
    if s == "Major"@ { Some(ScaleQuality::Major) }
    else if s == "MelodicMinor"@ { Some(ScaleQuality::MelodicMinor) }
    else if s == "HarmonicMajor"@ { Some(ScaleQuality::HarmonicMajor) }
    else if s == "HarmonicMinor"@ { Some(ScaleQuality::HarmonicMinor) }
    else if s == "DoubleHarmonic"@ { Some(ScaleQuality::DoubleHarmonic) }
    else if s == "Diminished"@ { Some(ScaleQuality::Diminished) }
    else if s == "WholeTone"@ { Some(ScaleQuality::WholeTone) }
    else if s == "Chromatic"@ { Some(ScaleQuality::Chromatic) }
    else { None }
}

/// The names of the modes of a quality, by degree.
pub open spec fn quality_mode_names(q: ScaleQuality) -> Seq<Seq<char>> {
    match q {
        ScaleQuality::Major => seq!["Major"@, "Dorian"@, "Phrygian"@, "Lydian"@, "Mixolydian"@, "Aeolian"@, "Locrian"@],
        ScaleQuality::MelodicMinor => seq![
            "Melodic Minor"@,
            "Assyrian"@,
            "Lydian Augmented"@,
            "Overtone"@,
            "Hindu"@,
            "Half-Diminished"@,
            "Altered"@,
        ],
        ScaleQuality::HarmonicMinor => seq![
            "Harmonic Minor"@,
            "Locrian #6"@,
            "Ionian #5"@,
            "Ukrainian Dorian"@,
            "Phrygian Dominant"@,
            "Lydian #2"@,
            "Super Locrian bb7"@,
        ],
        ScaleQuality::Diminished => seq![
            "Diminished"@,
            "Dominant Diminished"@,
            "Diminished"@,
            "Dominant Diminished"@,
            "Diminished"@,
            "Dominant Diminished"@,
            "Diminished"@,
            "Dominant Diminished"@,
        ],
        ScaleQuality::WholeTone => seq![
            "Whole Tone"@,
            "Whole Tone"@,
            "Whole Tone"@,
            "Whole Tone"@,
            "Whole Tone"@,
            "Whole Tone"@,
        ],
        ScaleQuality::HarmonicMajor => seq![
            "Harmonic Major"@,
            "Dorian b5"@,
            "Phrygian b4"@,
            "Lydian b3"@,
            "Mixolydian b2"@,
            "Lydian Aug #2"@,
            "Locrian bb7"@,
        ],
        ScaleQuality::DoubleHarmonic => seq![
            "Double Harmonic"@,
            "Lydian #2 #6"@,
            "UltraPhrygian"@,
            "Hungarian Minor"@,
            "Oriental"@,
            "Ionian Aug #2"@,
            "Locrian bb3 bb7"@,
        ],
        ScaleQuality::Chromatic => seq![
            "Chromatic"@,
            "Chromatic"@,
            "Chromatic"@,
            "Chromatic"@,
            "Chromatic"@,
            "Chromatic"@,
            "Chromatic"@,
            "Chromatic"@,
            "Chromatic"@,
            "Chromatic"@,
            "Chromatic"@,
        ],
    }
}

impl ScaleQuality {
    /// Reads the name of a quality, written as the variant is.
    pub fn from_str(item: &str) -> (r: Result<ScaleQuality, ParseScaleQualityError>)
        ensures
            match quality_named(item@) {
                Some(q) => r matches Ok(x) && x == q,
                None => r matches Err(e) && e.details@ == "Could not convert "@ + item@ + " to a ScaleQuality"@,
            },
    {
        if same_text(item, "Major") {
            Ok(ScaleQuality::Major)
        } else if same_text(item, "MelodicMinor") {
            Ok(ScaleQuality::MelodicMinor)
        } else if same_text(item, "HarmonicMajor") {
            Ok(ScaleQuality::HarmonicMajor)
        } else if same_text(item, "HarmonicMinor") {
            Ok(ScaleQuality::HarmonicMinor)
        } else if same_text(item, "DoubleHarmonic") {
            Ok(ScaleQuality::DoubleHarmonic)
        } else if same_text(item, "Diminished") {
            Ok(ScaleQuality::Diminished)
        } else if same_text(item, "WholeTone") {
            Ok(ScaleQuality::WholeTone)
        } else if same_text(item, "Chromatic") {
            Ok(ScaleQuality::Chromatic)
        } else {
            Err(ParseScaleQualityError::new(item))
        }
    }

    /// The scale kind of the same name.
    pub fn kind(&self) -> (r: ScaleKind)
        ensures
            r == kind_of(*self),
    {
        match self {
            ScaleQuality::Major => ScaleKind::Major,
            ScaleQuality::MelodicMinor => ScaleKind::MelodicMinor,
            ScaleQuality::HarmonicMajor => ScaleKind::HarmonicMajor,
            ScaleQuality::HarmonicMinor => ScaleKind::HarmonicMinor,
            ScaleQuality::DoubleHarmonic => ScaleKind::DoubleHarmonic,
            ScaleQuality::Diminished => ScaleKind::Diminished,
            ScaleQuality::WholeTone => ScaleKind::WholeTone,
            ScaleQuality::Chromatic => ScaleKind::Chromatic,
        }
    }
}

impl core::str::FromStr for ScaleQuality {
    type Err = ParseScaleQualityError;

    fn from_str(item: &str) -> Result<ScaleQuality, ParseScaleQualityError> {
        ScaleQuality::from_str(item)
    }
}

/// A scale: a root, a quality, the degree its steps start from, and those
/// steps.
#[derive(Debug)]
pub struct Scale {
    pub root_note: Note,
    pub scale_quality: ScaleQuality,
    pub mode_degree: usize,
    pub intervals: Vec<Interval>,
}

/// `s` is the scale that `Scale::factory(root, q, degree)` builds.
pub open spec fn is_scale_of(s: Scale, root: Note, q: ScaleQuality, degree: int) -> bool {
    &&& s.root_note == root
    &&& s.scale_quality == q
    &&& s.mode_degree == degree
    &&& interval_values(s.intervals@) == rotated(
        scale_pattern(kind_of(q)),
        degree % (scale_pattern(kind_of(q)).len() as int),
    )
}

/// The notes of a scale, spelled with each letter once where `spell` is
/// asked for and the quality allows it.
pub open spec fn notes_of_scale(s: Scale, spell: bool) -> Seq<Note> {
    scale_notes(s.root_note, interval_values(s.intervals@), spell && is_diatonic(kind_of(s.scale_quality)))
}

/// The notes of the scale `Scale::factory(root, q, 0)` builds, unspelled.
pub open spec fn first_degree_notes(root: Note, q: ScaleQuality) -> Seq<Note> {
    scale_notes(root, rotated(scale_pattern(kind_of(q)), 0), false)
}

/// How many notes of `scale` have a pitch class missing from `notes`.
pub open spec fn missing_count(scale: Seq<Note>, notes: Seq<Note>) -> nat
    decreases scale.len(),
{
    if scale.len() == 0 {
        0
    } else {
        missing_count(scale.drop_last(), notes) + if holds_pitch(notes, scale.last()) { 0nat } else { 1nat }
    }
}

/// The roots tried when searching: C and the eleven notes above it, as the
/// upward step spells them.
pub open spec fn search_root(j: int) -> Note {
    note_after_steps(Note { letter: NoteLetter::C, accidental: NoteAccidental::Natural }, j as nat)
}

/// The (root, quality) pairs, over the qualities `qs` below `i` and then the
/// search roots, that satisfy `pred`.
pub open spec fn found_by_quality(
    pred: spec_fn(Note, ScaleQuality) -> bool,
    qs: Seq<ScaleQuality>,
    i: int,
) -> Seq<(Note, ScaleQuality)>
    decreases i,
{
    if i <= 0 {
        Seq::empty()
    } else {
        found_by_quality(pred, qs, i - 1) + found_by_root(pred, qs[i - 1], 12)
    }
}

/// The (root, `q`) pairs, over the search roots below `j`, that satisfy `pred`.
pub open spec fn found_by_root(pred: spec_fn(Note, ScaleQuality) -> bool, q: ScaleQuality, j: int) -> Seq<
    (Note, ScaleQuality),
>
    decreases j,
{
    if j <= 0 {
        Seq::empty()
    } else {
        let below = found_by_root(pred, q, j - 1);
        if pred(search_root(j - 1), q) {
            below.push((search_root(j - 1), q))
        } else {
            below
        }
    }
}

/// The scales of `v` are, one by one, those built from the first degree of
/// the pairs `found`.
pub open spec fn built_from(v: Seq<Scale>, found: Seq<(Note, ScaleQuality)>) -> bool {
    &&& v.len() == found.len()
    &&& forall|k: int| 0 <= k < v.len() ==> is_scale_of(#[trigger] v[k], found[k].0, found[k].1, 0)
}

/// The qualities `Scale::identify` tries, in order.
pub open spec fn identify_qualities() -> Seq<ScaleQuality> {
    seq![
        ScaleQuality::Major,
        ScaleQuality::HarmonicMinor,
        ScaleQuality::HarmonicMajor,
        ScaleQuality::MelodicMinor,
        ScaleQuality::DoubleHarmonic,
        ScaleQuality::Diminished,
    ]
}

/// The qualities `Scale::proximity_scales` tries, in order.
pub open spec fn proximity_qualities() -> Seq<ScaleQuality> {
    identify_qualities().push(ScaleQuality::WholeTone)
}

/// The first-degree scale of `q` from `root` has exactly the pitch classes of
/// `notes`, in order.
pub open spec fn same_pitches(root: Note, q: ScaleQuality, notes: Seq<Note>) -> bool {
    first_degree_notes(root, q).len() == notes.len() && pitches_agree(first_degree_notes(root, q), notes)
}

/// Whether the first-degree scale of a (root, quality) pair has exactly the
/// pitch classes of `notes`.
pub open spec fn same_pitches_as(notes: Seq<Note>) -> spec_fn(Note, ScaleQuality) -> bool {
    |root: Note, q: ScaleQuality| same_pitches(root, q, notes)
}

/// Whether the first-degree scale of a (root, quality) pair leaves out
/// `rating` of the notes `notes`.
pub open spec fn rated(notes: Seq<Note>, rating: nat) -> spec_fn(Note, ScaleQuality) -> bool {
    |root: Note, q: ScaleQuality| missing_count(notes, first_degree_notes(root, q)) == rating
}

/// The (root, quality) pairs whose first-degree scale has exactly the pitch
/// classes of `notes`, in the order `Scale::identify` tries them.
pub open spec fn identified_scales(notes: Seq<Note>) -> Seq<(Note, ScaleQuality)> {
    found_by_quality(same_pitches_as(notes), identify_qualities(), 6)
}

/// The (root, quality) pairs whose first-degree scale leaves out `rating`
/// of the notes `notes`, in the order `Scale::proximity_scales` tries them.
pub open spec fn scales_at_rating(notes: Seq<Note>, rating: nat) -> Seq<(Note, ScaleQuality)> {
    found_by_quality(rated(notes, rating), proximity_qualities(), 7)
}

/// Appending a built scale and its pair keeps the correspondence.
proof fn lemma_built_from_push(v: Seq<Scale>, found: Seq<(Note, ScaleQuality)>, s: Scale, c: (Note, ScaleQuality))
    requires
        built_from(v, found),
        is_scale_of(s, c.0, c.1, 0),
    ensures
        built_from(v.push(s), found.push(c)),
{
    assert forall|k: int| 0 <= k < v.len() + 1 implies is_scale_of(#[trigger] v.push(s)[k], found.push(c)[k].0, found.push(c)[k].1, 0) by {
        if k < v.len() {
            assert(v.push(s)[k] == v[k]);
        }
    }
}

impl Scale {
    fn new(root_note: Note, scale_quality: ScaleQuality, mode_degree: usize, intervals: Vec<Interval>) -> (r: Scale)
        ensures
            r == (Scale { root_note, scale_quality, mode_degree, intervals }),
    {
        Scale { root_note, scale_quality, mode_degree, intervals }
    }

    /// The scale of `scale_quality` from `root_note`, its steps started at
    /// degree `mode_degree` (taken modulo their number).
    pub fn factory(root_note: Note, scale_quality: ScaleQuality, mode_degree: usize) -> (r: Scale)
        ensures
            is_scale_of(r, root_note, scale_quality, mode_degree as int),
    {
        let intervals = rotated_pattern(&scale_quality.kind(), mode_degree);
        Scale::new(root_note, scale_quality, mode_degree, intervals)
    }

    /// The notes of the scale from its root; when `optimize` is set and the
    /// quality is diatonic, spelled with each letter once.
    pub fn get_notes(&self, optimize: bool) -> (r: Vec<Note>)
        ensures
            r@ == notes_of_scale(*self, optimize),
    {
        let spell = optimize && can_be_optimised(&self.scale_quality.kind());
        build_scale_notes(self.root_note, &self.intervals, spell)
    }

    /// The interval from the root to each note of the scale, the root's own first.
    pub fn get_root_intervals(&self) -> (r: Vec<Interval>)
        requires
            total(interval_values(self.intervals@)) <= u32::MAX,
        ensures
            r@.len() == if self.intervals@.len() == 0 { 1 } else { self.intervals@.len() },
            forall|k: int| 0 <= k < r@.len() ==> (#[trigger] r@[k]).value == total(interval_values(self.intervals@).take(k)),
    {
        let mut totals = running_totals(&self.intervals);
        if totals.len() > 1 {
            totals.pop();
        }
        totals
    }

    /// The chord on each degree of the spelled scale: triads, or four-note
    /// chords when `extended`; `None` where the stacked notes form no known chord.
    pub fn get_chords(&self, extended: bool) -> (r: Vec<Option<Chord>>)
        ensures
            r@.len() == notes_of_scale(*self, true).len(),
            forall|i: int| 0 <= i < r@.len() ==> #[trigger] r@[i] == degree_chord(notes_of_scale(*self, true), i, extended),
    {
        let notes = self.get_notes(true);
        chords_of_notes(&notes, extended)
    }

    /// How many of the scale's notes have a pitch class missing from `notes`.
    pub fn match_rating(&self, notes: &Vec<Note>) -> (r: usize)
        ensures
            r == missing_count(notes_of_scale(*self, false), notes@),
    {
        let own = self.get_notes(false);
        let mut res: usize = own.len();
        let mut k: usize = 0;
        while k < own.len()
            invariant
                0 <= k <= own@.len(),
                res == missing_count(own@.take(k as int), notes@) + (own@.len() - k),
            decreases own.len() - k,
        {
            proof {
                assert(own@.take(k + 1).drop_last() =~= own@.take(k as int));
                lemma_missing_count_bound(own@.take(k as int), notes@);
            }
            let mut found = false;
            let mut j: usize = 0;
            while j < notes.len()
                invariant
                    0 <= j <= notes@.len(),
                    0 <= k < own@.len(),
                    found == exists|m: int| 0 <= m < j && pitch_class(#[trigger] notes@[m]) == pitch_class(own@[k as int]),
                decreases notes.len() - j,
            {
                if notes[j].get_index() == own[k].get_index() {
                    found = true;
                }
                j += 1;
            }
            if found {
                res -= 1;
            }
            k += 1;
        }
        assert(own@.take(own@.len() as int) =~= own@);
        res
    }

    /// Whether every note of `notes` has its pitch class among the scale's notes.
    pub fn matches_notes(&self, notes: &Vec<Note>) -> (r: bool)
        ensures
            r == notes_within(notes@, notes_of_scale(*self, false)),
    {
        all_within(notes, &self.get_notes(false))
    }

    fn get_note_index(&self, note: &Note) -> (r: Option<usize>)
        ensures
            match r {
                Some(i) => first_position(notes_of_scale(*self, false), *note) == Some(i as nat),
                None => first_position(notes_of_scale(*self, false), *note) is None,
            },
    {
        let notes = self.get_notes(false);
        note_index(&notes, note)
    }

    /// The same notes re-rooted on `root`: the scale of the same quality from
    /// `root`, started at the degree where `root` first stands among this
    /// scale's notes; `None` where it does not stand there.
    pub fn root_shift(&self, root: &Note) -> (r: Option<Scale>)
        ensures
            match first_position(notes_of_scale(*self, false), *root) {
                Some(k) => (r matches Some(s) && is_scale_of(s, *root, self.scale_quality, k as int)),
                None => r is None,
            },
    {
        match self.get_note_index(root) {
            Some(index) => Some(Scale::factory(*root, self.scale_quality, index)),
            None => None,
        }
    }

    /// The name of the scale's mode, the degree being taken modulo the number
    /// of names.
    pub fn print_quality(&self) -> (r: String)
        ensures
            r@ == quality_mode_names(self.scale_quality)[(self.mode_degree as int) % (quality_mode_names(
                self.scale_quality,
            ).len() as int)],
    {
        let names: Vec<&str> = match self.scale_quality {
            ScaleQuality::Major => vec!["Major", "Dorian", "Phrygian", "Lydian", "Mixolydian", "Aeolian", "Locrian"],
            ScaleQuality::MelodicMinor => vec![
                "Melodic Minor",
                "Assyrian",
                "Lydian Augmented",
                "Overtone",
                "Hindu",
                "Half-Diminished",
                "Altered",
            ],
            ScaleQuality::HarmonicMinor => vec![
                "Harmonic Minor",
                "Locrian #6",
                "Ionian #5",
                "Ukrainian Dorian",
                "Phrygian Dominant",
                "Lydian #2",
                "Super Locrian bb7",
            ],
            ScaleQuality::Diminished => vec![
                "Diminished",
                "Dominant Diminished",
                "Diminished",
                "Dominant Diminished",
                "Diminished",
                "Dominant Diminished",
                "Diminished",
                "Dominant Diminished",
            ],
            ScaleQuality::WholeTone => vec![
                "Whole Tone",
                "Whole Tone",
                "Whole Tone",
                "Whole Tone",
                "Whole Tone",
                "Whole Tone",
            ],
            ScaleQuality::HarmonicMajor => vec![
                "Harmonic Major",
                "Dorian b5",
                "Phrygian b4",
                "Lydian b3",
                "Mixolydian b2",
                "Lydian Aug #2",
                "Locrian bb7",
            ],
            ScaleQuality::DoubleHarmonic => vec![
                "Double Harmonic",
                "Lydian #2 #6",
                "UltraPhrygian",
                "Hungarian Minor",
                "Oriental",
                "Ionian Aug #2",
                "Locrian bb3 bb7",
            ],
            ScaleQuality::Chromatic => vec![
                "Chromatic",
                "Chromatic",
                "Chromatic",
                "Chromatic",
                "Chromatic",
                "Chromatic",
                "Chromatic",
                "Chromatic",
                "Chromatic",
                "Chromatic",
                "Chromatic",
            ],
        };
        let name = names[self.mode_degree % names.len()];
        String::from_str(name)
    }

    /// The scale's name: the root's name, a space and the mode's name.
    pub fn print(&self) -> (r: String)
        ensures
            r@ == note_name(self.root_note) + " "@ + quality_mode_names(self.scale_quality)[(self.mode_degree as int)
                % (quality_mode_names(self.scale_quality).len() as int)],
    {
        let mut res = self.root_note.to_string();
        res.append(" ");
        let quality = self.print_quality();
        res.append(quality.as_str());
        res
    }

    /// The roman numeral of `chord` within the scale, where all its notes
    /// belong to the scale's notes.
    pub fn print_chord_numeral(&self, chord: &Chord) -> (r: Option<String>)
        ensures
            notes_within(chord_notes(*chord), notes_of_scale(*self, false)) <==> r is Some,
            match numeral_in_scale(notes_of_scale(*self, false), self.root_note, *chord) {
                Some(t) => (r matches Some(s) && s@ == t),
                None => r is None,
            },
    {
        if self.matches_notes(&chord.get_notes()) {
            proof {
                lemma_chord_holds_root(*chord);
                let cn = chord_notes(*chord);
                let i = choose|i: int| 0 <= i < cn.len() && pitch_class(#[trigger] cn[i]) == pitch_class(chord.root_note);
                assert(holds_pitch(notes_of_scale(*self, false), cn[i]));
                lemma_holds_first_position(notes_of_scale(*self, false), chord.root_note, 0);
            }
            match self.get_note_index(&chord.get_root()) {
                Some(index) => Some(chord.as_numeral(&self.root_note, index)),
                None => None,
            }
        } else {
            None
        }
    }
}

impl Scale {
    /// The first-degree scales, over six qualities and the twelve roots from C
    /// up, whose notes have exactly the pitch classes of `notes`, in order.
    /// Enharmonic duplicates are all kept.
    pub fn identify(notes: &Vec<Note>) -> (r: Vec<Scale>)
        ensures
            built_from(r@, identified_scales(notes@)),
    {
        let qualities = vec![
            ScaleQuality::Major,
            ScaleQuality::HarmonicMinor,
            ScaleQuality::HarmonicMajor,
            ScaleQuality::MelodicMinor,
            ScaleQuality::DoubleHarmonic,
            ScaleQuality::Diminished,
        ];
        assert(qualities@ =~= identify_qualities());
        let ghost pred = same_pitches_as(notes@);
        let mut res: Vec<Scale> = Vec::new();
        let mut i: usize = 0;
        while i < qualities.len()
            invariant
                0 <= i <= 6,
                qualities@ == identify_qualities(),
                pred == same_pitches_as(notes@),
                built_from(res@, found_by_quality(pred, identify_qualities(), i as int)),
            decreases qualities.len() - i,
        {
            let quality = qualities[i];
            let ghost base = found_by_quality(pred, identify_qualities(), i as int);
            let mut root = Note::new(NoteLetter::C, NoteAccidental::Natural);
            let mut j: usize = 0;
            proof {
                assert(base + found_by_root(pred, quality, 0) =~= base);
            }
            while j < 12
                invariant
                    0 <= i < 6,
                    0 <= j <= 12,
                    quality == identify_qualities()[i as int],
                    pred == same_pitches_as(notes@),
                    base == found_by_quality(pred, identify_qualities(), i as int),
                    root == search_root(j as int),
                    built_from(res@, base + found_by_root(pred, quality, j as int)),
                decreases 12 - j,
            {
                let scale = Scale::factory(root, quality, 0);
                let scale_notes = scale.get_notes(false);
                proof {
                    lemma_pattern_small(kind_of(quality));
                    assert(scale_notes@ == first_degree_notes(root, quality));
                }
                if scale_notes.len() == notes.len() && pitches_agree_exec(&scale_notes, notes) {
                    proof {
                        let below = found_by_root(pred, quality, j as int);
                        lemma_built_from_push(res@, base + below, scale, (root, quality));
                        assert((base + below).push((root, quality)) =~= base + below.push((root, quality)));
                    }
                    res.push(scale);
                }
                root = root.next();
                j += 1;
            }
            i += 1;
        }
        res
    }

    /// The first-degree scales, over seven qualities and the twelve roots
    /// from C up, that leave out one to three of this scale's notes, grouped by
    /// that number; a number with no scale has no entry.
    pub fn proximity_scales(&self) -> (r: HashMap<usize, Vec<Scale>>)
        ensures
            forall|rating: usize| #[trigger] r@.contains_key(rating) <==> (1 <= rating <= 3
                && scales_at_rating(notes_of_scale(*self, false), rating as nat).len() > 0),
            forall|rating: usize| #[trigger] r@.contains_key(rating) ==> built_from(
                r@[rating]@,
                scales_at_rating(notes_of_scale(*self, false), rating as nat),
            ),
    {
        broadcast use vstd::std_specs::hash::group_hash_axioms;
        let qualities = vec![
            ScaleQuality::Major,
            ScaleQuality::HarmonicMinor,
            ScaleQuality::HarmonicMajor,
            ScaleQuality::MelodicMinor,
            ScaleQuality::DoubleHarmonic,
            ScaleQuality::Diminished,
            ScaleQuality::WholeTone,
        ];
        assert(qualities@ =~= proximity_qualities());
        let ghost own = notes_of_scale(*self, false);
        let ghost qs = proximity_qualities();
        let mut ones: Vec<Scale> = Vec::new();
        let mut twos: Vec<Scale> = Vec::new();
        let mut threes: Vec<Scale> = Vec::new();
        let mut i: usize = 0;
        while i < qualities.len()
            invariant
                0 <= i <= 7,
                qualities@ == qs,
                qs == proximity_qualities(),
                own == notes_of_scale(*self, false),
                built_from(ones@, found_by_quality(rated(own, 1), qs, i as int)),
                built_from(twos@, found_by_quality(rated(own, 2), qs, i as int)),
                built_from(threes@, found_by_quality(rated(own, 3), qs, i as int)),
            decreases qualities.len() - i,
        {
            let quality = qualities[i];
            let ghost base1 = found_by_quality(rated(own, 1), qs, i as int);
            let ghost base2 = found_by_quality(rated(own, 2), qs, i as int);
            let ghost base3 = found_by_quality(rated(own, 3), qs, i as int);
            let mut root = Note::new(NoteLetter::C, NoteAccidental::Natural);
            let mut j: usize = 0;
            proof {
                assert(base1 + found_by_root(rated(own, 1), quality, 0) =~= base1);
                assert(base2 + found_by_root(rated(own, 2), quality, 0) =~= base2);
                assert(base3 + found_by_root(rated(own, 3), quality, 0) =~= base3);
            }
            while j < 12
                invariant
                    0 <= i < 7,
                    0 <= j <= 12,
                    qs == proximity_qualities(),
                    quality == qs[i as int],
                    own == notes_of_scale(*self, false),
                    base1 == found_by_quality(rated(own, 1), qs, i as int),
                    base2 == found_by_quality(rated(own, 2), qs, i as int),
                    base3 == found_by_quality(rated(own, 3), qs, i as int),
                    root == search_root(j as int),
                    built_from(ones@, base1 + found_by_root(rated(own, 1), quality, j as int)),
                    built_from(twos@, base2 + found_by_root(rated(own, 2), quality, j as int)),
                    built_from(threes@, base3 + found_by_root(rated(own, 3), quality, j as int)),
                decreases 12 - j,
            {
                let scale = Scale::factory(root, quality, 0);
                let rating = self.match_rating(&scale.get_notes(false));
                proof {
                    lemma_pattern_small(kind_of(quality));
                    assert(notes_of_scale(scale, false) == first_degree_notes(root, quality));
                }
                let ghost c = (root, quality);
                let ghost below1 = found_by_root(rated(own, 1), quality, j as int);
                let ghost below2 = found_by_root(rated(own, 2), quality, j as int);
                let ghost below3 = found_by_root(rated(own, 3), quality, j as int);
                if rating == 1 {
                    proof {
                        lemma_built_from_push(ones@, base1 + below1, scale, c);
                        assert((base1 + below1).push(c) =~= base1 + below1.push(c));
                    }
                    ones.push(scale);
                } else if rating == 2 {
                    proof {
                        lemma_built_from_push(twos@, base2 + below2, scale, c);
                        assert((base2 + below2).push(c) =~= base2 + below2.push(c));
                    }
                    twos.push(scale);
                } else if rating == 3 {
                    proof {
                        lemma_built_from_push(threes@, base3 + below3, scale, c);
                        assert((base3 + below3).push(c) =~= base3 + below3.push(c));
                    }
                    threes.push(scale);
                }
                root = root.next();
                j += 1;
            }
            i += 1;
        }
        let ghost found1 = scales_at_rating(own, 1);
        let ghost found2 = scales_at_rating(own, 2);
        let ghost found3 = scales_at_rating(own, 3);
        let mut res: HashMap<usize, Vec<Scale>> = HashMap::new();
        if ones.len() > 0 {
            res.insert(1, ones);
        }
        if twos.len() > 0 {
            res.insert(2, twos);
        }
        if threes.len() > 0 {
            res.insert(3, threes);
        }
        proof {
            assert forall|rating: usize| #[trigger] res@.contains_key(rating) <==> (1 <= rating <= 3
                && scales_at_rating(own, rating as nat).len() > 0) by {
                if rating == 1 {
                    assert(found1 == scales_at_rating(own, rating as nat));
                } else if rating == 2 {
                    assert(found2 == scales_at_rating(own, rating as nat));
                } else if rating == 3 {
                    assert(found3 == scales_at_rating(own, rating as nat));
                }
            }
        }
        res
    }
}

/// No more notes can be missing than there are.
proof fn lemma_missing_count_bound(scale: Seq<Note>, notes: Seq<Note>)
    ensures
        missing_count(scale, notes) <= scale.len(),
    decreases scale.len(),
{
    if scale.len() > 0 {
        lemma_missing_count_bound(scale.drop_last(), notes);
    }
}

} // verus!
