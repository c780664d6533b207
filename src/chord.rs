use vstd::prelude::*;
use crate::note::{Note, note_name};
use crate::interval::{Interval, interval_values, note_after_steps, semitones_between, total, intervals_of, same_intervals, running_totals, rotated, lemma_total_bound};

verus! {

/// Which chord tone is voiced lowest.
#[derive(Debug, Clone, Copy, PartialEq, Eq, Structural)]
pub enum ChordPosition {
    Root,
    FirstInversion,
    SecondInversion,
    ThirdInversion,
}

/// The kinds of chord: eight triads and eleven four-note chords.
#[derive(Debug, Clone, Copy, PartialEq, Eq, Structural)]
pub enum ChordQuality {

    Major,
    Minor,
    Diminished,
    Augmented,
    SuspendedTwo,
    SuspendedFour,
    FlatFive,
    SuspendedTwoFlatFive,
    DominantSeventh,
    MajorSeventh,
    MinorSeventh,
    DiminishedSeventh,
    AugmentedSeventh,
    MajorSeventhFlatFive,
    MinorSeventhFlatFive,
    DominantSeventhFlatFive,
    MinorMajorSeventh,
    AugmentedMajorSeventh,
    SuspendedTwoSuspendedFour,
}

/// A chord: a root note, a quality and a position. Two chords compare equal
/// when their steps between adjacent notes are equal, whatever the root.
#[derive(Debug, Clone, Copy)]
pub struct Chord {
    pub root_note: Note,
    pub quality: ChordQuality,
    pub position: ChordPosition,
}

/// How many places a position rotates the notes of the root form.
pub open spec fn position_rank(p: ChordPosition) -> int {
    match p {
        ChordPosition::Root => 0,
        ChordPosition::FirstInversion => 1,
        ChordPosition::SecondInversion => 2,
        ChordPosition::ThirdInversion => 3,
    }
}

/// The semitone steps between adjacent notes of a chord of quality `q` in
/// position `p`, lowest first; empty where the quality has no such position.
pub open spec fn chord_steps(q: ChordQuality, p: ChordPosition) -> Seq<u32> {
    match (q, p) {
        (ChordQuality::Major, ChordPosition::Root) => seq![4u32, 3],
        (ChordQuality::Major, ChordPosition::FirstInversion) => seq![3u32, 5],
        (ChordQuality::Major, ChordPosition::SecondInversion) => seq![5u32, 4],
        (ChordQuality::Minor, ChordPosition::Root) => seq![3u32, 4],
        (ChordQuality::Minor, ChordPosition::FirstInversion) => seq![4u32, 5],
        (ChordQuality::Minor, ChordPosition::SecondInversion) => seq![5u32, 3],
        (ChordQuality::Diminished, ChordPosition::Root) => seq![3u32, 3],
        (ChordQuality::Diminished, ChordPosition::FirstInversion) => seq![3u32, 6],
        (ChordQuality::Diminished, ChordPosition::SecondInversion) => seq![6u32, 3],
        (ChordQuality::Augmented, ChordPosition::Root) => seq![4u32, 4],
        (ChordQuality::SuspendedTwo, ChordPosition::Root) => seq![2u32, 5],
        (ChordQuality::SuspendedTwo, ChordPosition::FirstInversion) => seq![5u32, 5],
        (ChordQuality::SuspendedFour, ChordPosition::Root) => seq![5u32, 2],
        (ChordQuality::FlatFive, ChordPosition::Root) => seq![4u32, 2],
        (ChordQuality::FlatFive, ChordPosition::FirstInversion) => seq![2u32, 6],
        (ChordQuality::FlatFive, ChordPosition::SecondInversion) => seq![6u32, 4],
        (ChordQuality::SuspendedTwoFlatFive, ChordPosition::Root) => seq![2u32, 4],
        (ChordQuality::SuspendedTwoFlatFive, ChordPosition::FirstInversion) => seq![4u32, 6],
        (ChordQuality::SuspendedTwoFlatFive, ChordPosition::SecondInversion) => seq![6u32, 2],
        (ChordQuality::DominantSeventh, ChordPosition::Root) => seq![4u32, 3, 3],
        (ChordQuality::DominantSeventh, ChordPosition::FirstInversion) => seq![3u32, 3, 2],
        (ChordQuality::DominantSeventh, ChordPosition::SecondInversion) => seq![3u32, 2, 4],
        (ChordQuality::DominantSeventh, ChordPosition::ThirdInversion) => seq![2u32, 4, 3],
        (ChordQuality::MajorSeventh, ChordPosition::Root) => seq![4u32, 3, 4],
        (ChordQuality::MajorSeventh, ChordPosition::FirstInversion) => seq![3u32, 4, 1],
        (ChordQuality::MajorSeventh, ChordPosition::SecondInversion) => seq![4u32, 1, 4],
        (ChordQuality::MajorSeventh, ChordPosition::ThirdInversion) => seq![1u32, 4, 3],
        (ChordQuality::MinorSeventh, ChordPosition::Root) => seq![3u32, 4, 3],
        (ChordQuality::MinorSeventh, ChordPosition::FirstInversion) => seq![4u32, 3, 2],
        (ChordQuality::MinorSeventh, ChordPosition::SecondInversion) => seq![3u32, 2, 3],
        (ChordQuality::MinorSeventh, ChordPosition::ThirdInversion) => seq![2u32, 3, 4],
        (ChordQuality::MinorMajorSeventh, ChordPosition::Root) => seq![3u32, 4, 4],
        (ChordQuality::MinorMajorSeventh, ChordPosition::FirstInversion) => seq![4u32, 4, 1],
        (ChordQuality::MinorMajorSeventh, ChordPosition::SecondInversion) => seq![4u32, 1, 3],
        (ChordQuality::MinorMajorSeventh, ChordPosition::ThirdInversion) => seq![1u32, 3, 4],
        (ChordQuality::DiminishedSeventh, ChordPosition::Root) => seq![3u32, 3, 3],
        (ChordQuality::AugmentedSeventh, ChordPosition::Root) => seq![4u32, 4, 2],
        (ChordQuality::AugmentedSeventh, ChordPosition::FirstInversion) => seq![4u32, 2, 2],
        (ChordQuality::AugmentedSeventh, ChordPosition::SecondInversion) => seq![2u32, 2, 4],
        (ChordQuality::AugmentedSeventh, ChordPosition::ThirdInversion) => seq![2u32, 4, 4],
        (ChordQuality::AugmentedMajorSeventh, ChordPosition::Root) => seq![4u32, 4, 3],
        (ChordQuality::AugmentedMajorSeventh, ChordPosition::FirstInversion) => seq![4u32, 3, 1],
        (ChordQuality::AugmentedMajorSeventh, ChordPosition::SecondInversion) => seq![3u32, 1, 4],
        (ChordQuality::AugmentedMajorSeventh, ChordPosition::ThirdInversion) => seq![1u32, 4, 4],
        (ChordQuality::MajorSeventhFlatFive, ChordPosition::Root) => seq![4u32, 2, 5],
        (ChordQuality::MajorSeventhFlatFive, ChordPosition::FirstInversion) => seq![2u32, 5, 1],
        (ChordQuality::MajorSeventhFlatFive, ChordPosition::SecondInversion) => seq![5u32, 1, 4],
        (ChordQuality::MajorSeventhFlatFive, ChordPosition::ThirdInversion) => seq![1u32, 4, 2],
        (ChordQuality::MinorSeventhFlatFive, ChordPosition::Root) => seq![3u32, 3, 4],
        (ChordQuality::MinorSeventhFlatFive, ChordPosition::FirstInversion) => seq![3u32, 4, 2],
        (ChordQuality::MinorSeventhFlatFive, ChordPosition::SecondInversion) => seq![4u32, 2, 3],
        (ChordQuality::MinorSeventhFlatFive, ChordPosition::ThirdInversion) => seq![2u32, 3, 3],
        (ChordQuality::DominantSeventhFlatFive, ChordPosition::Root) => seq![4u32, 2, 4],
        (ChordQuality::DominantSeventhFlatFive, ChordPosition::FirstInversion) => seq![2u32, 4, 2],
        (ChordQuality::SuspendedTwoSuspendedFour, ChordPosition::Root) => seq![2u32, 3, 2],
        (ChordQuality::SuspendedTwoSuspendedFour, ChordPosition::FirstInversion) => seq![3u32, 2, 5],
        (ChordQuality::SuspendedTwoSuspendedFour, ChordPosition::SecondInversion) => seq![2u32, 5, 2],
        (ChordQuality::SuspendedTwoSuspendedFour, ChordPosition::ThirdInversion) => seq![5u32, 2, 3],
        _ => Seq::empty(),
    }
}

/// The quality has the position.
pub open spec fn has_position(q: ChordQuality, p: ChordPosition) -> bool {
    chord_steps(q, p).len() > 0
}

/// The quality and position of the triad whose steps are `a`, `b`.
pub open spec fn triad_of_steps(a: u32, b: u32) -> Option<(ChordQuality, ChordPosition)> {
    if a == 4 && b == 3 { Some((ChordQuality::Major, ChordPosition::Root)) }
    else if a == 3 && b == 5 { Some((ChordQuality::Major, ChordPosition::FirstInversion)) }
    else if a == 5 && b == 4 { Some((ChordQuality::Major, ChordPosition::SecondInversion)) }
    else if a == 3 && b == 4 { Some((ChordQuality::Minor, ChordPosition::Root)) }
    else if a == 4 && b == 5 { Some((ChordQuality::Minor, ChordPosition::FirstInversion)) }
    else if a == 5 && b == 3 { Some((ChordQuality::Minor, ChordPosition::SecondInversion)) }
    else if a == 3 && b == 3 { Some((ChordQuality::Diminished, ChordPosition::Root)) }
    else if a == 3 && b == 6 { Some((ChordQuality::Diminished, ChordPosition::FirstInversion)) }
    else if a == 6 && b == 3 { Some((ChordQuality::Diminished, ChordPosition::SecondInversion)) }
    else if a == 4 && b == 4 { Some((ChordQuality::Augmented, ChordPosition::Root)) }
    else if a == 2 && b == 5 { Some((ChordQuality::SuspendedTwo, ChordPosition::Root)) }
    else if a == 5 && b == 5 { Some((ChordQuality::SuspendedTwo, ChordPosition::FirstInversion)) }
    else if a == 5 && b == 2 { Some((ChordQuality::SuspendedFour, ChordPosition::Root)) }
    else if a == 4 && b == 2 { Some((ChordQuality::FlatFive, ChordPosition::Root)) }
    else if a == 2 && b == 6 { Some((ChordQuality::FlatFive, ChordPosition::FirstInversion)) }
    else if a == 6 && b == 4 { Some((ChordQuality::FlatFive, ChordPosition::SecondInversion)) }
    else if a == 2 && b == 4 { Some((ChordQuality::SuspendedTwoFlatFive, ChordPosition::Root)) }
    else if a == 4 && b == 6 { Some((ChordQuality::SuspendedTwoFlatFive, ChordPosition::FirstInversion)) }
    else if a == 6 && b == 2 { Some((ChordQuality::SuspendedTwoFlatFive, ChordPosition::SecondInversion)) }
    else { None }
}

/// The quality and position of the four-note chord whose steps are `a`, `b`, `c`.
pub open spec fn tetrad_of_steps(a: u32, b: u32, c: u32) -> Option<(ChordQuality, ChordPosition)> {
    if a == 4 && b == 3 && c == 3 { Some((ChordQuality::DominantSeventh, ChordPosition::Root)) }
    else if a == 3 && b == 3 && c == 2 { Some((ChordQuality::DominantSeventh, ChordPosition::FirstInversion)) }
    else if a == 3 && b == 2 && c == 4 { Some((ChordQuality::DominantSeventh, ChordPosition::SecondInversion)) }
    else if a == 2 && b == 4 && c == 3 { Some((ChordQuality::DominantSeventh, ChordPosition::ThirdInversion)) }
    else if a == 4 && b == 3 && c == 4 { Some((ChordQuality::MajorSeventh, ChordPosition::Root)) }
    else if a == 3 && b == 4 && c == 1 { Some((ChordQuality::MajorSeventh, ChordPosition::FirstInversion)) }
    else if a == 4 && b == 1 && c == 4 { Some((ChordQuality::MajorSeventh, ChordPosition::SecondInversion)) }
    else if a == 1 && b == 4 && c == 3 { Some((ChordQuality::MajorSeventh, ChordPosition::ThirdInversion)) }
    else if a == 3 && b == 4 && c == 3 { Some((ChordQuality::MinorSeventh, ChordPosition::Root)) }
    else if a == 4 && b == 3 && c == 2 { Some((ChordQuality::MinorSeventh, ChordPosition::FirstInversion)) }
    else if a == 3 && b == 2 && c == 3 { Some((ChordQuality::MinorSeventh, ChordPosition::SecondInversion)) }
    else if a == 2 && b == 3 && c == 4 { Some((ChordQuality::MinorSeventh, ChordPosition::ThirdInversion)) }
    else if a == 3 && b == 4 && c == 4 { Some((ChordQuality::MinorMajorSeventh, ChordPosition::Root)) }
    else if a == 4 && b == 4 && c == 1 { Some((ChordQuality::MinorMajorSeventh, ChordPosition::FirstInversion)) }
    else if a == 4 && b == 1 && c == 3 { Some((ChordQuality::MinorMajorSeventh, ChordPosition::SecondInversion)) }
    else if a == 1 && b == 3 && c == 4 { Some((ChordQuality::MinorMajorSeventh, ChordPosition::ThirdInversion)) }
    else if a == 3 && b == 3 && c == 3 { Some((ChordQuality::DiminishedSeventh, ChordPosition::Root)) }
    else if a == 4 && b == 4 && c == 2 { Some((ChordQuality::AugmentedSeventh, ChordPosition::Root)) }
    else if a == 4 && b == 2 && c == 2 { Some((ChordQuality::AugmentedSeventh, ChordPosition::FirstInversion)) }
    else if a == 2 && b == 2 && c == 4 { Some((ChordQuality::AugmentedSeventh, ChordPosition::SecondInversion)) }
    else if a == 2 && b == 4 && c == 4 { Some((ChordQuality::AugmentedSeventh, ChordPosition::ThirdInversion)) }
    else if a == 4 && b == 4 && c == 3 { Some((ChordQuality::AugmentedMajorSeventh, ChordPosition::Root)) }
    else if a == 4 && b == 3 && c == 1 { Some((ChordQuality::AugmentedMajorSeventh, ChordPosition::FirstInversion)) }
    else if a == 3 && b == 1 && c == 4 { Some((ChordQuality::AugmentedMajorSeventh, ChordPosition::SecondInversion)) }
    else if a == 1 && b == 4 && c == 4 { Some((ChordQuality::AugmentedMajorSeventh, ChordPosition::ThirdInversion)) }
    else if a == 4 && b == 2 && c == 5 { Some((ChordQuality::MajorSeventhFlatFive, ChordPosition::Root)) }
    else if a == 2 && b == 5 && c == 1 { Some((ChordQuality::MajorSeventhFlatFive, ChordPosition::FirstInversion)) }
    else if a == 5 && b == 1 && c == 4 { Some((ChordQuality::MajorSeventhFlatFive, ChordPosition::SecondInversion)) }
    else if a == 1 && b == 4 && c == 2 { Some((ChordQuality::MajorSeventhFlatFive, ChordPosition::ThirdInversion)) }
    else if a == 3 && b == 3 && c == 4 { Some((ChordQuality::MinorSeventhFlatFive, ChordPosition::Root)) }
    else if a == 3 && b == 4 && c == 2 { Some((ChordQuality::MinorSeventhFlatFive, ChordPosition::FirstInversion)) }
    else if a == 4 && b == 2 && c == 3 { Some((ChordQuality::MinorSeventhFlatFive, ChordPosition::SecondInversion)) }
    else if a == 2 && b == 3 && c == 3 { Some((ChordQuality::MinorSeventhFlatFive, ChordPosition::ThirdInversion)) }
    else if a == 4 && b == 2 && c == 4 { Some((ChordQuality::DominantSeventhFlatFive, ChordPosition::Root)) }
    else if a == 2 && b == 4 && c == 2 { Some((ChordQuality::DominantSeventhFlatFive, ChordPosition::FirstInversion)) }
    else if a == 2 && b == 3 && c == 2 { Some((ChordQuality::SuspendedTwoSuspendedFour, ChordPosition::Root)) }
    else if a == 3 && b == 2 && c == 5 { Some((ChordQuality::SuspendedTwoSuspendedFour, ChordPosition::FirstInversion)) }
    else if a == 2 && b == 5 && c == 2 { Some((ChordQuality::SuspendedTwoSuspendedFour, ChordPosition::SecondInversion)) }
    else if a == 5 && b == 2 && c == 3 { Some((ChordQuality::SuspendedTwoSuspendedFour, ChordPosition::ThirdInversion)) }
    else { None }
}

/// The quality and position whose steps are `v`, if any: two steps name a
/// triad, three a four-note chord.
pub open spec fn classify_steps(v: Seq<u32>) -> Option<(ChordQuality, ChordPosition)> {
    if v.len() == 2 {
        triad_of_steps(v[0], v[1])
    } else if v.len() == 3 {
        tetrad_of_steps(v[0], v[1], v[2])
    } else {
        None
    }
}

/// The suffix that names a quality after the root's name.
pub open spec fn quality_suffix(q: ChordQuality) -> Seq<char> {
    match q {
        ChordQuality::Major => ""@,
        ChordQuality::Minor => "m"@,
        ChordQuality::Diminished => "º"@,
        ChordQuality::Augmented => "+"@,
        ChordQuality::SuspendedTwo => "sus2"@,
        ChordQuality::SuspendedFour => "sus4"@,
        ChordQuality::FlatFive => "(b5)"@,
        ChordQuality::SuspendedTwoFlatFive => "sus2(b5)"@,
        ChordQuality::DominantSeventh => "7"@,
        ChordQuality::MajorSeventh => "Maj7"@,
        ChordQuality::MinorSeventh => "m7"@,
        ChordQuality::DiminishedSeventh => "º7"@,
        ChordQuality::AugmentedSeventh => "+7"@,
        ChordQuality::MajorSeventhFlatFive => "Maj7(b5)"@,
        ChordQuality::MinorSeventhFlatFive => "m7(b5)"@,
        ChordQuality::DominantSeventhFlatFive => "7(b5)"@,
        ChordQuality::MinorMajorSeventh => "mMaj7"@,
        ChordQuality::AugmentedMajorSeventh => "+Maj7"@,
        ChordQuality::SuspendedTwoSuspendedFour => "sus2sus4"@,
    }
}


/// The steps between adjacent notes of a quality's root form, followed by
/// the step from the top note back up to the root.
pub open spec fn quality_cycle(q: ChordQuality) -> Seq<u32> {
    let steps = chord_steps(q, ChordPosition::Root);
    steps.push((12 - total(steps)) as u32)
}

/// Two chords are equal when their steps between adjacent notes are equal.
pub open spec fn chords_equal(a: Chord, b: Chord) -> bool {
    chord_steps(a.quality, a.position) == chord_steps(b.quality, b.position)
}

/// The notes of a stack built up from `root` by `steps`, lowest first.
pub open spec fn stacked_notes(root: Note, steps: Seq<u32>) -> Seq<Note>
    decreases steps.len(),
{
    if steps.len() == 0 {
        seq![root]
    } else {
        let below = stacked_notes(root, steps.drop_last());
        below.push(note_after_steps(below.last(), steps.last() as nat))
    }
}

/// The notes of a chord: its root form stacked from the root, turned left by
/// as many places as the position's rank.
pub open spec fn chord_notes(c: Chord) -> Seq<Note> {
    rotated(stacked_notes(c.root_note, chord_steps(c.quality, ChordPosition::Root)), position_rank(c.position))
}

/// The semitone steps between adjacent notes of `s`.
pub open spec fn adjacent_steps(s: Seq<Note>) -> Seq<u32> {
    if s.len() == 0 {
        Seq::empty()
    } else {
        Seq::new((s.len() - 1) as nat, |i: int| semitones_between(s[i], s[i + 1]) as u32)
    }
}

/// The chords found for the notes `s`: one for each note taken as root, all
/// of the quality and position that the steps between the notes name; none
/// where the steps name no chord.
pub open spec fn identified_chords(s: Seq<Note>) -> Seq<Chord> {
    match classify_steps(adjacent_steps(s)) {
        Some((q, p)) => s.map_values(|n: Note| Chord { root_note: n, quality: q, position: p }),
        None => Seq::empty(),
    }
}

/// The roman numeral of a chord whose root lies `v` semitones above the
/// scale's root; `index`, the root's place in the scale, chooses between two
/// spellings of the same distance.
pub open spec fn chord_numeral_text(v: int, index: int) -> Seq<char> {
    if v == 0 { "I"@ }
    else if v == 1 { "bII"@ }
    else if v == 2 { if index == 2 { "bbIII"@ } else { "II"@ } }
    else if v == 3 { if index == 2 { "bIII"@ } else { "#II"@ } }
    else if v == 4 { if index == 3 { "bIV"@ } else { "III"@ } }
    else if v == 5 { if index == 3 { "IV"@ } else { "#III"@ } }
    else if v == 6 { if index == 3 { "#IV"@ } else { "bV"@ } }
    else if v == 7 { if index == 5 { "bbVI"@ } else { "V"@ } }
    else if v == 8 { if index == 4 { "#V"@ } else { "bVI"@ } }
    else if v == 9 { if index == 6 { "bbVII"@ } else { "VI"@ } }
    else if v == 10 { if index == 5 { "#VI"@ } else { "bVII"@ } }
    else { "VII"@ }
}

/// A stack has one note more than it has steps, the root lowest.
pub proof fn lemma_stacked_notes(root: Note, steps: Seq<u32>)
    ensures
        stacked_notes(root, steps).len() == steps.len() + 1,
        stacked_notes(root, steps)[0] == root,
    decreases steps.len(),
{
    if steps.len() > 0 {
        lemma_stacked_notes(root, steps.drop_last());
    }
}

/// Every table entry has two or three steps of at most six semitones.
pub proof fn lemma_chord_steps_small(q: ChordQuality, p: ChordPosition)
    ensures
        chord_steps(q, p).len() <= 3,
        forall|i: int| 0 <= i < chord_steps(q, p).len() ==> chord_steps(q, p)[i] <= 6,
        has_position(q, ChordPosition::Root),
        has_position(q, p) ==> 2 <= chord_steps(q, p).len(),
{
}

/// Looking up the steps of a quality and position gives them back.
pub proof fn lemma_classify_chord_steps(q: ChordQuality, p: ChordPosition)
    requires
        has_position(q, p),
    ensures
        classify_steps(chord_steps(q, p)) == Some((q, p)),
{
}

/// What the lookup finds has exactly the steps it was given.
pub proof fn lemma_classify_sound(v: Seq<u32>)
    ensures
        classify_steps(v) matches Some((q, p)) ==> chord_steps(q, p) == v,
{
    if let Some((q, p)) = classify_steps(v) {
        assert(chord_steps(q, p) =~= v);
    }
}

/// Chord equality is an equivalence that depends on quality and position
/// alone; among the positions a quality has, chords are equal exactly when
/// both quality and position agree.
pub proof fn lemma_chord_equality(a: Chord, b: Chord, c: Chord)
    ensures
        chords_equal(a, a),
        chords_equal(a, b) == chords_equal(b, a),
        chords_equal(a, b) && chords_equal(b, c) ==> chords_equal(a, c),
        a.quality == b.quality && a.position == b.position ==> chords_equal(a, b),
        has_position(a.quality, a.position) && has_position(b.quality, b.position) ==> (chords_equal(a, b) <==> (
        a.quality == b.quality && a.position == b.position)),
{
    if has_position(a.quality, a.position) && has_position(b.quality, b.position) && chords_equal(a, b) {
        lemma_classify_chord_steps(a.quality, a.position);
        lemma_classify_chord_steps(b.quality, b.position);
    }
}

impl ChordQuality {
    /// The quality whose root form, closed by the step from the top note back
    /// up to the root, has the steps `value`.
    pub fn try_from(value: &Vec<Interval>) -> (r: Result<ChordQuality, &'static str>)
        ensures
            match r {
                Ok(q) => quality_cycle(q) == interval_values(value@),
                Err(_) => forall|q: ChordQuality| quality_cycle(q) != interval_values(value@),
            },
    {
        let mut v: Vec<u32> = Vec::new();
        let mut i: usize = 0;
        while i < value.len()
            invariant
                0 <= i <= value@.len(),
                v@ =~= interval_values(value@).take(i as int),
            decreases value.len() - i,
        {
            v.push(value[i].value);
            i += 1;
        }
        assert(interval_values(value@).take(value@.len() as int) =~= interval_values(value@));
        proof {
            reveal_with_fuel(total, 4);
        }
        if v.len() == 3 && v[0] == 4 && v[1] == 3 && v[2] == 5 {
            return Ok(ChordQuality::Major);
        }
        if v.len() == 3 && v[0] == 3 && v[1] == 4 && v[2] == 5 {
            return Ok(ChordQuality::Minor);
        }
        if v.len() == 3 && v[0] == 3 && v[1] == 3 && v[2] == 6 {
            return Ok(ChordQuality::Diminished);
        }
        if v.len() == 3 && v[0] == 4 && v[1] == 4 && v[2] == 4 {
            return Ok(ChordQuality::Augmented);
        }
        if v.len() == 3 && v[0] == 2 && v[1] == 5 && v[2] == 5 {
            return Ok(ChordQuality::SuspendedTwo);
        }
        if v.len() == 3 && v[0] == 5 && v[1] == 2 && v[2] == 5 {
            return Ok(ChordQuality::SuspendedFour);
        }
        if v.len() == 3 && v[0] == 4 && v[1] == 2 && v[2] == 6 {
            return Ok(ChordQuality::FlatFive);
        }
        if v.len() == 3 && v[0] == 2 && v[1] == 4 && v[2] == 6 {
            return Ok(ChordQuality::SuspendedTwoFlatFive);
        }
        if v.len() == 4 && v[0] == 4 && v[1] == 3 && v[2] == 3 && v[3] == 2 {
            return Ok(ChordQuality::DominantSeventh);
        }
        if v.len() == 4 && v[0] == 4 && v[1] == 3 && v[2] == 4 && v[3] == 1 {
            return Ok(ChordQuality::MajorSeventh);
        }
        if v.len() == 4 && v[0] == 3 && v[1] == 4 && v[2] == 3 && v[3] == 2 {
            return Ok(ChordQuality::MinorSeventh);
        }
        if v.len() == 4 && v[0] == 3 && v[1] == 3 && v[2] == 3 && v[3] == 3 {
            return Ok(ChordQuality::DiminishedSeventh);
        }
        if v.len() == 4 && v[0] == 4 && v[1] == 4 && v[2] == 2 && v[3] == 2 {
            return Ok(ChordQuality::AugmentedSeventh);
        }
        if v.len() == 4 && v[0] == 4 && v[1] == 2 && v[2] == 5 && v[3] == 1 {
            return Ok(ChordQuality::MajorSeventhFlatFive);
        }
        if v.len() == 4 && v[0] == 3 && v[1] == 3 && v[2] == 4 && v[3] == 2 {
            return Ok(ChordQuality::MinorSeventhFlatFive);
        }
        if v.len() == 4 && v[0] == 4 && v[1] == 2 && v[2] == 4 && v[3] == 2 {
            return Ok(ChordQuality::DominantSeventhFlatFive);
        }
        if v.len() == 4 && v[0] == 3 && v[1] == 4 && v[2] == 4 && v[3] == 1 {
            return Ok(ChordQuality::MinorMajorSeventh);
        }
        if v.len() == 4 && v[0] == 4 && v[1] == 4 && v[2] == 3 && v[3] == 1 {
            return Ok(ChordQuality::AugmentedMajorSeventh);
        }
        if v.len() == 4 && v[0] == 2 && v[1] == 3 && v[2] == 2 && v[3] == 5 {
            return Ok(ChordQuality::SuspendedTwoSuspendedFour);
                }

        proof {
            assert forall|q: ChordQuality| quality_cycle(q) != v@ by {
                reveal_with_fuel(total, 4);
            }
        }
        Err("No ChordQuality found for these intervals")
    }

    /// The suffix that names the quality after the root's name.
    pub fn to_string(&self) -> (r: String)
        ensures
            r@ == quality_suffix(*self),
    {
        match self {
            ChordQuality::Major => String::from_str(""),
            ChordQuality::Minor => String::from_str("m"),
            ChordQuality::Diminished => String::from_str("º"),
            ChordQuality::Augmented => String::from_str("+"),
            ChordQuality::SuspendedTwo => String::from_str("sus2"),
            ChordQuality::SuspendedFour => String::from_str("sus4"),
            ChordQuality::FlatFive => String::from_str("(b5)"),
            ChordQuality::SuspendedTwoFlatFive => String::from_str("sus2(b5)"),
            ChordQuality::DominantSeventh => String::from_str("7"),
            ChordQuality::MajorSeventh => String::from_str("Maj7"),
            ChordQuality::MinorSeventh => String::from_str("m7"),
            ChordQuality::DiminishedSeventh => String::from_str("º7"),
            ChordQuality::AugmentedSeventh => String::from_str("+7"),
            ChordQuality::MajorSeventhFlatFive => String::from_str("Maj7(b5)"),
            ChordQuality::MinorSeventhFlatFive => String::from_str("m7(b5)"),
            ChordQuality::DominantSeventhFlatFive => String::from_str("7(b5)"),
            ChordQuality::MinorMajorSeventh => String::from_str("mMaj7"),
            ChordQuality::AugmentedMajorSeventh => String::from_str("+Maj7"),
            ChordQuality::SuspendedTwoSuspendedFour => String::from_str("sus2sus4"),
        }
    }
}

impl Chord {
    /// A chord of the given root, quality and position.
    pub fn new(root_note: Note, quality: ChordQuality, position: ChordPosition) -> (r: Chord)
        ensures
            r == (Chord { root_note, quality, position }),
    {
        Chord { root_note, quality, position }
    }

    /// The chord rooted at `root_note` whose steps between adjacent notes are
    /// `intervals`, if the table has such a quality and position.
    pub fn from_intervals(root_note: Note, intervals: &Vec<Interval>) -> (r: Option<Chord>)
        ensures
            match classify_steps(interval_values(intervals@)) {
                Some((q, p)) => r == Some(Chord { root_note, quality: q, position: p }),
                None => r is None,
            },
    {
        if intervals.len() == 2 {
            match (intervals[0].value, intervals[1].value) {
                (4, 3) => Some(Chord::new(root_note, ChordQuality::Major, ChordPosition::Root)),
                (3, 5) => Some(Chord::new(root_note, ChordQuality::Major, ChordPosition::FirstInversion)),
                (5, 4) => Some(Chord::new(root_note, ChordQuality::Major, ChordPosition::SecondInversion)),
                (3, 4) => Some(Chord::new(root_note, ChordQuality::Minor, ChordPosition::Root)),
                (4, 5) => Some(Chord::new(root_note, ChordQuality::Minor, ChordPosition::FirstInversion)),
                (5, 3) => Some(Chord::new(root_note, ChordQuality::Minor, ChordPosition::SecondInversion)),
                (3, 3) => Some(Chord::new(root_note, ChordQuality::Diminished, ChordPosition::Root)),
                (3, 6) => Some(Chord::new(root_note, ChordQuality::Diminished, ChordPosition::FirstInversion)),
                (6, 3) => Some(Chord::new(root_note, ChordQuality::Diminished, ChordPosition::SecondInversion)),
                (4, 4) => Some(Chord::new(root_note, ChordQuality::Augmented, ChordPosition::Root)),
                (2, 5) => Some(Chord::new(root_note, ChordQuality::SuspendedTwo, ChordPosition::Root)),
                (5, 5) => Some(Chord::new(root_note, ChordQuality::SuspendedTwo, ChordPosition::FirstInversion)),
                (5, 2) => Some(Chord::new(root_note, ChordQuality::SuspendedFour, ChordPosition::Root)),
                (4, 2) => Some(Chord::new(root_note, ChordQuality::FlatFive, ChordPosition::Root)),
                (2, 6) => Some(Chord::new(root_note, ChordQuality::FlatFive, ChordPosition::FirstInversion)),
                (6, 4) => Some(Chord::new(root_note, ChordQuality::FlatFive, ChordPosition::SecondInversion)),
                (2, 4) => Some(Chord::new(root_note, ChordQuality::SuspendedTwoFlatFive, ChordPosition::Root)),
                (4, 6) => Some(Chord::new(root_note, ChordQuality::SuspendedTwoFlatFive, ChordPosition::FirstInversion)),
                (6, 2) => Some(Chord::new(root_note, ChordQuality::SuspendedTwoFlatFive, ChordPosition::SecondInversion)),
                _ => None,
            }
        } else if intervals.len() == 3 {
            match (intervals[0].value, intervals[1].value, intervals[2].value) {
                (4, 3, 3) => Some(Chord::new(root_note, ChordQuality::DominantSeventh, ChordPosition::Root)),
                (3, 3, 2) => Some(Chord::new(root_note, ChordQuality::DominantSeventh, ChordPosition::FirstInversion)),
                (3, 2, 4) => Some(Chord::new(root_note, ChordQuality::DominantSeventh, ChordPosition::SecondInversion)),
                (2, 4, 3) => Some(Chord::new(root_note, ChordQuality::DominantSeventh, ChordPosition::ThirdInversion)),
                (4, 3, 4) => Some(Chord::new(root_note, ChordQuality::MajorSeventh, ChordPosition::Root)),
                (3, 4, 1) => Some(Chord::new(root_note, ChordQuality::MajorSeventh, ChordPosition::FirstInversion)),
                (4, 1, 4) => Some(Chord::new(root_note, ChordQuality::MajorSeventh, ChordPosition::SecondInversion)),
                (1, 4, 3) => Some(Chord::new(root_note, ChordQuality::MajorSeventh, ChordPosition::ThirdInversion)),
                (3, 4, 3) => Some(Chord::new(root_note, ChordQuality::MinorSeventh, ChordPosition::Root)),
                (4, 3, 2) => Some(Chord::new(root_note, ChordQuality::MinorSeventh, ChordPosition::FirstInversion)),
                (3, 2, 3) => Some(Chord::new(root_note, ChordQuality::MinorSeventh, ChordPosition::SecondInversion)),
                (2, 3, 4) => Some(Chord::new(root_note, ChordQuality::MinorSeventh, ChordPosition::ThirdInversion)),
                (3, 4, 4) => Some(Chord::new(root_note, ChordQuality::MinorMajorSeventh, ChordPosition::Root)),
                (4, 4, 1) => Some(Chord::new(root_note, ChordQuality::MinorMajorSeventh, ChordPosition::FirstInversion)),
                (4, 1, 3) => Some(Chord::new(root_note, ChordQuality::MinorMajorSeventh, ChordPosition::SecondInversion)),
                (1, 3, 4) => Some(Chord::new(root_note, ChordQuality::MinorMajorSeventh, ChordPosition::ThirdInversion)),
                (3, 3, 3) => Some(Chord::new(root_note, ChordQuality::DiminishedSeventh, ChordPosition::Root)),
                (4, 4, 2) => Some(Chord::new(root_note, ChordQuality::AugmentedSeventh, ChordPosition::Root)),
                (4, 2, 2) => Some(Chord::new(root_note, ChordQuality::AugmentedSeventh, ChordPosition::FirstInversion)),
                (2, 2, 4) => Some(Chord::new(root_note, ChordQuality::AugmentedSeventh, ChordPosition::SecondInversion)),
                (2, 4, 4) => Some(Chord::new(root_note, ChordQuality::AugmentedSeventh, ChordPosition::ThirdInversion)),
                (4, 4, 3) => Some(Chord::new(root_note, ChordQuality::AugmentedMajorSeventh, ChordPosition::Root)),
                (4, 3, 1) => Some(Chord::new(root_note, ChordQuality::AugmentedMajorSeventh, ChordPosition::FirstInversion)),
                (3, 1, 4) => Some(Chord::new(root_note, ChordQuality::AugmentedMajorSeventh, ChordPosition::SecondInversion)),
                (1, 4, 4) => Some(Chord::new(root_note, ChordQuality::AugmentedMajorSeventh, ChordPosition::ThirdInversion)),
                (4, 2, 5) => Some(Chord::new(root_note, ChordQuality::MajorSeventhFlatFive, ChordPosition::Root)),
                (2, 5, 1) => Some(Chord::new(root_note, ChordQuality::MajorSeventhFlatFive, ChordPosition::FirstInversion)),
                (5, 1, 4) => Some(Chord::new(root_note, ChordQuality::MajorSeventhFlatFive, ChordPosition::SecondInversion)),
                (1, 4, 2) => Some(Chord::new(root_note, ChordQuality::MajorSeventhFlatFive, ChordPosition::ThirdInversion)),
                (3, 3, 4) => Some(Chord::new(root_note, ChordQuality::MinorSeventhFlatFive, ChordPosition::Root)),
                (3, 4, 2) => Some(Chord::new(root_note, ChordQuality::MinorSeventhFlatFive, ChordPosition::FirstInversion)),
                (4, 2, 3) => Some(Chord::new(root_note, ChordQuality::MinorSeventhFlatFive, ChordPosition::SecondInversion)),
                (2, 3, 3) => Some(Chord::new(root_note, ChordQuality::MinorSeventhFlatFive, ChordPosition::ThirdInversion)),
                (4, 2, 4) => Some(Chord::new(root_note, ChordQuality::DominantSeventhFlatFive, ChordPosition::Root)),
                (2, 4, 2) => Some(Chord::new(root_note, ChordQuality::DominantSeventhFlatFive, ChordPosition::FirstInversion)),
                (2, 3, 2) => Some(Chord::new(root_note, ChordQuality::SuspendedTwoSuspendedFour, ChordPosition::Root)),
                (3, 2, 5) => Some(Chord::new(root_note, ChordQuality::SuspendedTwoSuspendedFour, ChordPosition::FirstInversion)),
                (2, 5, 2) => Some(Chord::new(root_note, ChordQuality::SuspendedTwoSuspendedFour, ChordPosition::SecondInversion)),
                (5, 2, 3) => Some(Chord::new(root_note, ChordQuality::SuspendedTwoSuspendedFour, ChordPosition::ThirdInversion)),
                _ => None,
            }
        } else {
            None
        }
    }

    /// The chord's root note.
    pub fn get_root(&self) -> (r: Note)
        ensures
            r == self.root_note,
    {
        self.root_note
    }

    /// The chord's quality.
    pub fn get_quality(&self) -> (r: ChordQuality)
        ensures
            r == self.quality,
    {
        self.quality
    }

    /// The steps between adjacent notes, lowest first; empty where the quality
    /// has no such position.
    pub fn get_intervals(&self) -> (r: Vec<Interval>)
        ensures
            interval_values(r@) == chord_steps(self.quality, self.position),
    {
        let values: Vec<u32> = match (self.quality, self.position) {
            (ChordQuality::Major, ChordPosition::Root) => vec![4, 3],
            (ChordQuality::Major, ChordPosition::FirstInversion) => vec![3, 5],
            (ChordQuality::Major, ChordPosition::SecondInversion) => vec![5, 4],
            (ChordQuality::Minor, ChordPosition::Root) => vec![3, 4],
            (ChordQuality::Minor, ChordPosition::FirstInversion) => vec![4, 5],
            (ChordQuality::Minor, ChordPosition::SecondInversion) => vec![5, 3],
            (ChordQuality::Diminished, ChordPosition::Root) => vec![3, 3],
            (ChordQuality::Diminished, ChordPosition::FirstInversion) => vec![3, 6],
            (ChordQuality::Diminished, ChordPosition::SecondInversion) => vec![6, 3],
            (ChordQuality::Augmented, ChordPosition::Root) => vec![4, 4],
            (ChordQuality::SuspendedTwo, ChordPosition::Root) => vec![2, 5],
            (ChordQuality::SuspendedTwo, ChordPosition::FirstInversion) => vec![5, 5],
            (ChordQuality::SuspendedFour, ChordPosition::Root) => vec![5, 2],
            (ChordQuality::FlatFive, ChordPosition::Root) => vec![4, 2],
            (ChordQuality::FlatFive, ChordPosition::FirstInversion) => vec![2, 6],
            (ChordQuality::FlatFive, ChordPosition::SecondInversion) => vec![6, 4],
            (ChordQuality::SuspendedTwoFlatFive, ChordPosition::Root) => vec![2, 4],
            (ChordQuality::SuspendedTwoFlatFive, ChordPosition::FirstInversion) => vec![4, 6],
            (ChordQuality::SuspendedTwoFlatFive, ChordPosition::SecondInversion) => vec![6, 2],
            (ChordQuality::DominantSeventh, ChordPosition::Root) => vec![4, 3, 3],
            (ChordQuality::DominantSeventh, ChordPosition::FirstInversion) => vec![3, 3, 2],
            (ChordQuality::DominantSeventh, ChordPosition::SecondInversion) => vec![3, 2, 4],
            (ChordQuality::DominantSeventh, ChordPosition::ThirdInversion) => vec![2, 4, 3],
            (ChordQuality::MajorSeventh, ChordPosition::Root) => vec![4, 3, 4],
            (ChordQuality::MajorSeventh, ChordPosition::FirstInversion) => vec![3, 4, 1],
            (ChordQuality::MajorSeventh, ChordPosition::SecondInversion) => vec![4, 1, 4],
            (ChordQuality::MajorSeventh, ChordPosition::ThirdInversion) => vec![1, 4, 3],
            (ChordQuality::MinorSeventh, ChordPosition::Root) => vec![3, 4, 3],
            (ChordQuality::MinorSeventh, ChordPosition::FirstInversion) => vec![4, 3, 2],
            (ChordQuality::MinorSeventh, ChordPosition::SecondInversion) => vec![3, 2, 3],
            (ChordQuality::MinorSeventh, ChordPosition::ThirdInversion) => vec![2, 3, 4],
            (ChordQuality::MinorMajorSeventh, ChordPosition::Root) => vec![3, 4, 4],
            (ChordQuality::MinorMajorSeventh, ChordPosition::FirstInversion) => vec![4, 4, 1],
            (ChordQuality::MinorMajorSeventh, ChordPosition::SecondInversion) => vec![4, 1, 3],
            (ChordQuality::MinorMajorSeventh, ChordPosition::ThirdInversion) => vec![1, 3, 4],
            (ChordQuality::DiminishedSeventh, ChordPosition::Root) => vec![3, 3, 3],
            (ChordQuality::AugmentedSeventh, ChordPosition::Root) => vec![4, 4, 2],
            (ChordQuality::AugmentedSeventh, ChordPosition::FirstInversion) => vec![4, 2, 2],
            (ChordQuality::AugmentedSeventh, ChordPosition::SecondInversion) => vec![2, 2, 4],
            (ChordQuality::AugmentedSeventh, ChordPosition::ThirdInversion) => vec![2, 4, 4],
            (ChordQuality::AugmentedMajorSeventh, ChordPosition::Root) => vec![4, 4, 3],
            (ChordQuality::AugmentedMajorSeventh, ChordPosition::FirstInversion) => vec![4, 3, 1],
            (ChordQuality::AugmentedMajorSeventh, ChordPosition::SecondInversion) => vec![3, 1, 4],
            (ChordQuality::AugmentedMajorSeventh, ChordPosition::ThirdInversion) => vec![1, 4, 4],
            (ChordQuality::MajorSeventhFlatFive, ChordPosition::Root) => vec![4, 2, 5],
            (ChordQuality::MajorSeventhFlatFive, ChordPosition::FirstInversion) => vec![2, 5, 1],
            (ChordQuality::MajorSeventhFlatFive, ChordPosition::SecondInversion) => vec![5, 1, 4],
            (ChordQuality::MajorSeventhFlatFive, ChordPosition::ThirdInversion) => vec![1, 4, 2],
            (ChordQuality::MinorSeventhFlatFive, ChordPosition::Root) => vec![3, 3, 4],
            (ChordQuality::MinorSeventhFlatFive, ChordPosition::FirstInversion) => vec![3, 4, 2],
            (ChordQuality::MinorSeventhFlatFive, ChordPosition::SecondInversion) => vec![4, 2, 3],
            (ChordQuality::MinorSeventhFlatFive, ChordPosition::ThirdInversion) => vec![2, 3, 3],
            (ChordQuality::DominantSeventhFlatFive, ChordPosition::Root) => vec![4, 2, 4],
            (ChordQuality::DominantSeventhFlatFive, ChordPosition::FirstInversion) => vec![2, 4, 2],
            (ChordQuality::SuspendedTwoSuspendedFour, ChordPosition::Root) => vec![2, 3, 2],
            (ChordQuality::SuspendedTwoSuspendedFour, ChordPosition::FirstInversion) => vec![3, 2, 5],
            (ChordQuality::SuspendedTwoSuspendedFour, ChordPosition::SecondInversion) => vec![2, 5, 2],
            (ChordQuality::SuspendedTwoSuspendedFour, ChordPosition::ThirdInversion) => vec![5, 2, 3],
            _ => vec![],
        };
        assert(values@ =~= chord_steps(self.quality, self.position));
        intervals_of(&values)
    }

    /// The notes of the chord: the root form stacked from the root, then
    /// turned left by the position's rank so that the right tone is lowest.
    pub fn get_notes(&self) -> (r: Vec<Note>)
        ensures
            r@ == chord_notes(*self),
    {
        let mut res: Vec<Note> = vec![self.root_note];
        let intervals = Self::new(self.root_note, self.quality, ChordPosition::Root).get_intervals();
        let ghost steps = chord_steps(self.quality, ChordPosition::Root);
        proof {
            assert(steps.take(0) =~= Seq::<u32>::empty());
            assert(res@ =~= stacked_notes(self.root_note, steps.take(0)));
        }
        let mut i: usize = 0;
        while i < intervals.len()
            invariant
                0 <= i <= intervals@.len(),
                interval_values(intervals@) == steps,
                res@ == stacked_notes(self.root_note, steps.take(i as int)),
                res@.len() == i + 1,
            decreases intervals.len() - i,
        {
            proof {
                assert(steps.take(i + 1).drop_last() =~= steps.take(i as int));
            }
            let note = intervals[i].apply(&res[i]);
            res.push(note);
            i += 1;
        }
        assert(steps.take(intervals@.len() as int) =~= steps);
        proof {
            lemma_chord_steps_small(self.quality, ChordPosition::Root);
        }
        let n = res.len();
        let k: usize = match self.position {
            ChordPosition::Root => 0,
            ChordPosition::FirstInversion => 1,
            ChordPosition::SecondInversion => 2,
            ChordPosition::ThirdInversion => 3,
        };
        let mut out: Vec<Note> = Vec::new();
        let mut j: usize = 0;
        while j < n
            invariant
                0 <= j <= n,
                n == res@.len(),
                1 <= n <= 4,
                k <= 3,
                out@.len() == j,
                forall|m: int| 0 <= m < j ==> out@[m] == #[trigger] res@[(m + k) % (n as int)],
            decreases n - j,
        {
            out.push(res[(j + k) % n]);
            j += 1;
        }
        assert(out@ =~= rotated(res@, k as int));
        out
    }

    /// The intervals from the root to each note, the root's own first.
    pub fn get_intervals_from_root(&self) -> (r: Vec<Interval>)
        ensures
            r@.len() == chord_steps(self.quality, self.position).len() + 1,
            forall|k: int| 0 <= k < r@.len() ==> (#[trigger] r@[k]).value == total(
                chord_steps(self.quality, self.position).take(k),
            ),
    {
        let steps = self.get_intervals();
        proof {
            lemma_chord_steps_small(self.quality, self.position);
            lemma_total_bound(interval_values(steps@), 6);
        }
        running_totals(&steps)
    }

    /// The roman numeral of the chord's root within a scale rooted at
    /// `scale_root`, where `index` is the root's place in that scale.
    pub fn as_numeral(&self, scale_root: &Note, index: usize) -> (r: String)
        ensures
            r@ == chord_numeral_text(semitones_between(*scale_root, self.root_note), index as int),
    {
        let v = Interval::from_notes(scale_root, &self.root_note).value;
        if v == 0 {
            String::from_str("I")
        } else if v == 1 {
            String::from_str("bII")
        } else if v == 2 {
            if index == 2 { String::from_str("bbIII") } else { String::from_str("II") }
        } else if v == 3 {
            if index == 2 { String::from_str("bIII") } else { String::from_str("#II") }
        } else if v == 4 {
            if index == 3 { String::from_str("bIV") } else { String::from_str("III") }
        } else if v == 5 {
            if index == 3 { String::from_str("IV") } else { String::from_str("#III") }
        } else if v == 6 {
            if index == 3 { String::from_str("#IV") } else { String::from_str("bV") }
        } else if v == 7 {
            if index == 5 { String::from_str("bbVI") } else { String::from_str("V") }
        } else if v == 8 {
            if index == 4 { String::from_str("#V") } else { String::from_str("bVI") }
        } else if v == 9 {
            if index == 6 { String::from_str("bbVII") } else { String::from_str("VI") }
        } else if v == 10 {
            if index == 5 { String::from_str("#VI") } else { String::from_str("bVII") }
        } else {
            String::from_str("VII")
        }
    }

    /// The chords that the notes `notes`, voiced lowest first, form: the steps
    /// between adjacent notes are looked up once, and every note is tried as
    /// root with that same lookup, so that each note gives one chord of the
    /// quality and position found.
    pub fn identify(notes: &Vec<Note>) -> (r: Vec<Chord>)
        ensures
            r@ == identified_chords(notes@),
    {
        let mut intervals: Vec<Interval> = Vec::new();
        let mut i: usize = 1;
        while i < notes.len()
            invariant
                1 <= i,
                i <= notes@.len() || i == 1,
                intervals@.len() == i - 1,
                forall|k: int| 0 <= k < i - 1 ==> (#[trigger] intervals@[k]).value == semitones_between(
                    notes@[k],
                    notes@[k + 1],
                ),
            decreases notes.len() - i,
        {
            intervals.push(Interval::from_notes(&notes[i - 1], &notes[i]));
            i += 1;
        }
        let ghost steps = adjacent_steps(notes@);
        assert(interval_values(intervals@) =~= steps);
        proof {
            lemma_classify_sound(steps);
        }
        let mut res: Vec<Chord> = Vec::new();
        let mut j: usize = 0;
        while j < notes.len()
            invariant
                0 <= j <= notes@.len(),
                interval_values(intervals@) == steps,
                steps == adjacent_steps(notes@),
                classify_steps(steps) matches Some((q, p)) ==> chord_steps(q, p) == steps,
                match classify_steps(steps) {
                    Some((q, p)) => res@ =~= notes@.take(j as int).map_values(
                        |n: Note| Chord { root_note: n, quality: q, position: p },
                    ),
                    None => res@.len() == 0,
                },
            decreases notes.len() - j,
        {
            match Chord::from_intervals(notes[j], &intervals) {
                Some(chord) => {
                    if same_intervals(&chord.get_intervals(), &intervals) {
                        res.push(chord);
                    }
                },
                None => {},
            }
            j += 1;
        }
        assert(notes@.take(notes@.len() as int) =~= notes@);
        res
    }

    /// The chord's name: the root's name followed by the quality's suffix.
    pub fn to_string(&self) -> (r: String)
        ensures
            r@ == note_name(self.root_note) + quality_suffix(self.quality),
    {
        let mut res = self.root_note.to_string();
        let suffix = self.quality.to_string();
        res.append(suffix.as_str());
        res
    }
}

/// Chords are equal when their steps between adjacent notes are equal.
impl PartialEq for Chord {
    fn eq(&self, other: &Chord) -> (r: bool) {
        same_intervals(&other.get_intervals(), &self.get_intervals())
    }
}

impl vstd::std_specs::cmp::PartialEqSpecImpl for Chord {
    open spec fn obeys_eq_spec() -> bool {
        true
    }

    open spec fn eq_spec(&self, other: &Chord) -> bool {
        chords_equal(*self, *other)
    }
}

impl Eq for Chord {
}

} // verus!
