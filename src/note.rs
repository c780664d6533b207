use vstd::prelude::*;
use itertools::Itertools;
use crate::text::same_text;
use crate::interval::{Interval, semitones_between};

verus! {

/// The seven letter names of the notes.
#[derive(Debug, Clone, Copy, PartialEq, Eq, Structural, Hash)]
pub enum NoteLetter {
    A,
    B,
    C,
    D,
    E,
    F,
    G,
}

/// The accidentals a note may carry.
#[derive(Debug, Clone, Copy, PartialEq, Eq, Structural, Hash)]
pub enum NoteAccidental {
    Natural,
    Flat,
    Sharp,
}

/// Failure to read a name: holds the token that was not recognised.
#[derive(Debug)]
pub struct ParseError {
    pub token: String,
}

/// Position of a letter in alphabetical order, A first.
pub open spec fn letter_position(l: NoteLetter) -> int {
    match l {
        NoteLetter::A => 0,
        NoteLetter::B => 1,
        NoteLetter::C => 2,
        NoteLetter::D => 3,
        NoteLetter::E => 4,
        NoteLetter::F => 5,
        NoteLetter::G => 6,
    }
}

/// Position of an accidental in the order Natural, Flat, Sharp.
pub open spec fn accidental_position(a: NoteAccidental) -> int {
    match a {
        NoteAccidental::Natural => 0,
        NoteAccidental::Flat => 1,
        NoteAccidental::Sharp => 2,
    }
}

/// The letters in alphabetical order.
pub open spec fn letters_in_order() -> Seq<NoteLetter> {
    seq![NoteLetter::A, NoteLetter::B, NoteLetter::C, NoteLetter::D, NoteLetter::E, NoteLetter::F, NoteLetter::G]
}

/// The accidentals in the order Natural, Flat, Sharp.
pub open spec fn accidentals_in_order() -> Seq<NoteAccidental> {
    seq![NoteAccidental::Natural, NoteAccidental::Flat, NoteAccidental::Sharp]
}

/// The letter that follows `l` alphabetically, G wrapping round to A.
pub open spec fn letter_after(l: NoteLetter) -> NoteLetter {
    letters_in_order()[(letter_position(l) + 1) % 7]
}

/// The letter that precedes `l` alphabetically, A wrapping round to G.
pub open spec fn letter_before(l: NoteLetter) -> NoteLetter {
    letters_in_order()[(letter_position(l) + 6) % 7]
}

/// Positions of letters index the alphabetical sequence.
pub proof fn lemma_letter_position(l: NoteLetter)
    ensures
        0 <= letter_position(l) < 7,
        letters_in_order()[letter_position(l)] == l,
{
}

/// Positions of accidentals index their sequence.
pub proof fn lemma_accidental_position(a: NoteAccidental)
    ensures
        0 <= accidental_position(a) < 3,
        accidentals_in_order()[accidental_position(a)] == a,
{
}

/// Every letter, in alphabetical order.
pub fn all_note_letters() -> (r: Vec<NoteLetter>)
    ensures
        r@ == letters_in_order(),
{
    let r = vec![NoteLetter::A, NoteLetter::B, NoteLetter::C, NoteLetter::D, NoteLetter::E, NoteLetter::F, NoteLetter::G];
    assert(r@ =~= letters_in_order());
    r
}

/// Every accidental: Natural, Flat, Sharp.
pub fn all_note_accidentals() -> (r: Vec<NoteAccidental>)
    ensures
        r@ == accidentals_in_order(),
{
    let r = vec![NoteAccidental::Natural, NoteAccidental::Flat, NoteAccidental::Sharp];
    assert(r@ =~= accidentals_in_order());
    r
}

/// The letter after `note_letter`, G wrapping round to A.
pub fn next_note_letter(note_letter: &NoteLetter) -> (r: NoteLetter)
    ensures
        r == letter_after(*note_letter),
{
    match note_letter {
        NoteLetter::A => NoteLetter::B,
        NoteLetter::B => NoteLetter::C,
        NoteLetter::C => NoteLetter::D,
        NoteLetter::D => NoteLetter::E,
        NoteLetter::E => NoteLetter::F,
        NoteLetter::F => NoteLetter::G,
        NoteLetter::G => NoteLetter::A,
    }
}

/// The letter before `note_letter`, A wrapping round to G.
pub fn previous_note_letter(note_letter: &NoteLetter) -> (r: NoteLetter)
    ensures
        r == letter_before(*note_letter),
{
    match note_letter {
        NoteLetter::A => NoteLetter::G,
        NoteLetter::B => NoteLetter::A,
        NoteLetter::C => NoteLetter::B,
        NoteLetter::D => NoteLetter::C,
        NoteLetter::E => NoteLetter::D,
        NoteLetter::F => NoteLetter::E,
        NoteLetter::G => NoteLetter::F,
    }
}


/// A note as a letter and an accidental. Two notes compare equal when they
/// sound the same pitch class, whatever their spelling.
#[derive(Debug, Clone, Copy, Hash)]
pub struct Note {
    pub letter: NoteLetter,
    pub accidental: NoteAccidental,
}

/// Pitch class of the natural note of each letter, C being 0.
pub open spec fn natural_pitch_class(l: NoteLetter) -> int {
    match l {
        NoteLetter::C => 0,
        NoteLetter::D => 2,
        NoteLetter::E => 4,
        NoteLetter::F => 5,
        NoteLetter::G => 7,
        NoteLetter::A => 9,
        NoteLetter::B => 11,
    }
}

/// Pitch class of a note, in 0..12: the letter's natural moved by the
/// accidental, wrapping round the octave.
pub open spec fn pitch_class(n: Note) -> int {
    let base = natural_pitch_class(n.letter);
    match n.accidental {
        NoteAccidental::Natural => base,
        NoteAccidental::Flat => if base == 0 { 11 } else { base - 1 },
        NoteAccidental::Sharp => if base == 11 { 0 } else { base + 1 },
    }
}

/// `m` is another spelling of `n`: a different letter with the same pitch class.
pub open spec fn is_equivalent(m: Note, n: Note) -> bool {
    m.letter != n.letter && pitch_class(m) == pitch_class(n)
}

/// The spelling of pitch class `p` that the upward step picks: the natural
/// where there is one, else the sharp.
pub open spec fn spelled_up(p: int) -> Note {
    if p == 0 { Note { letter: NoteLetter::C, accidental: NoteAccidental::Natural } }
    else if p == 1 { Note { letter: NoteLetter::C, accidental: NoteAccidental::Sharp } }
    else if p == 2 { Note { letter: NoteLetter::D, accidental: NoteAccidental::Natural } }
    else if p == 3 { Note { letter: NoteLetter::D, accidental: NoteAccidental::Sharp } }
    else if p == 4 { Note { letter: NoteLetter::E, accidental: NoteAccidental::Natural } }
    else if p == 5 { Note { letter: NoteLetter::F, accidental: NoteAccidental::Natural } }
    else if p == 6 { Note { letter: NoteLetter::F, accidental: NoteAccidental::Sharp } }
    else if p == 7 { Note { letter: NoteLetter::G, accidental: NoteAccidental::Natural } }
    else if p == 8 { Note { letter: NoteLetter::G, accidental: NoteAccidental::Sharp } }
    else if p == 9 { Note { letter: NoteLetter::A, accidental: NoteAccidental::Natural } }
    else if p == 10 { Note { letter: NoteLetter::A, accidental: NoteAccidental::Sharp } }
    else { Note { letter: NoteLetter::B, accidental: NoteAccidental::Natural } }
}

/// The spelling of pitch class `p` that the downward step picks: the natural
/// where there is one, else the flat.
pub open spec fn spelled_down(p: int) -> Note {
    if p == 0 { Note { letter: NoteLetter::C, accidental: NoteAccidental::Natural } }
    else if p == 1 { Note { letter: NoteLetter::D, accidental: NoteAccidental::Flat } }
    else if p == 2 { Note { letter: NoteLetter::D, accidental: NoteAccidental::Natural } }
    else if p == 3 { Note { letter: NoteLetter::E, accidental: NoteAccidental::Flat } }
    else if p == 4 { Note { letter: NoteLetter::E, accidental: NoteAccidental::Natural } }
    else if p == 5 { Note { letter: NoteLetter::F, accidental: NoteAccidental::Natural } }
    else if p == 6 { Note { letter: NoteLetter::G, accidental: NoteAccidental::Flat } }
    else if p == 7 { Note { letter: NoteLetter::G, accidental: NoteAccidental::Natural } }
    else if p == 8 { Note { letter: NoteLetter::A, accidental: NoteAccidental::Flat } }
    else if p == 9 { Note { letter: NoteLetter::A, accidental: NoteAccidental::Natural } }
    else if p == 10 { Note { letter: NoteLetter::B, accidental: NoteAccidental::Flat } }
    else { Note { letter: NoteLetter::B, accidental: NoteAccidental::Natural } }
}

/// The name of a letter.
pub open spec fn letter_name(l: NoteLetter) -> Seq<char> {
    match l {
        NoteLetter::A => "A"@,
        NoteLetter::B => "B"@,
        NoteLetter::C => "C"@,
        NoteLetter::D => "D"@,
        NoteLetter::E => "E"@,
        NoteLetter::F => "F"@,
        NoteLetter::G => "G"@,
    }
}

/// The name of a note: its letter, followed by "b" for a flat or "#" for a sharp.
pub open spec fn note_name(n: Note) -> Seq<char> {
    match n.accidental {
        NoteAccidental::Natural => letter_name(n.letter),
        NoteAccidental::Flat => letter_name(n.letter) + "b"@,
        NoteAccidental::Sharp => letter_name(n.letter) + "#"@,
    }
}

/// The letter a name stands for, if any.
pub open spec fn letter_named(s: Seq<char>) -> Option<NoteLetter> {
    if s == "A"@ { Some(NoteLetter::A) }
    else if s == "B"@ { Some(NoteLetter::B) }
    else if s == "C"@ { Some(NoteLetter::C) }
    else if s == "D"@ { Some(NoteLetter::D) }
    else if s == "E"@ { Some(NoteLetter::E) }
    else if s == "F"@ { Some(NoteLetter::F) }
    else if s == "G"@ { Some(NoteLetter::G) }
    else { None }
}

/// The note one of the seventeen usual note names stands for, if any.
pub open spec fn note_named(s: Seq<char>) -> Option<Note> {
    if s == "C"@ { Some(Note { letter: NoteLetter::C, accidental: NoteAccidental::Natural }) }
    else if s == "C#"@ { Some(Note { letter: NoteLetter::C, accidental: NoteAccidental::Sharp }) }
    else if s == "Db"@ { Some(Note { letter: NoteLetter::D, accidental: NoteAccidental::Flat }) }
    else if s == "D"@ { Some(Note { letter: NoteLetter::D, accidental: NoteAccidental::Natural }) }
    else if s == "D#"@ { Some(Note { letter: NoteLetter::D, accidental: NoteAccidental::Sharp }) }
    else if s == "Eb"@ { Some(Note { letter: NoteLetter::E, accidental: NoteAccidental::Flat }) }
    else if s == "E"@ { Some(Note { letter: NoteLetter::E, accidental: NoteAccidental::Natural }) }
    else if s == "F"@ { Some(Note { letter: NoteLetter::F, accidental: NoteAccidental::Natural }) }
    else if s == "F#"@ { Some(Note { letter: NoteLetter::F, accidental: NoteAccidental::Sharp }) }
    else if s == "Gb"@ { Some(Note { letter: NoteLetter::G, accidental: NoteAccidental::Flat }) }
    else if s == "G"@ { Some(Note { letter: NoteLetter::G, accidental: NoteAccidental::Natural }) }
    else if s == "G#"@ { Some(Note { letter: NoteLetter::G, accidental: NoteAccidental::Sharp }) }
    else if s == "Ab"@ { Some(Note { letter: NoteLetter::A, accidental: NoteAccidental::Flat }) }
    else if s == "A"@ { Some(Note { letter: NoteLetter::A, accidental: NoteAccidental::Natural }) }
    else if s == "A#"@ { Some(Note { letter: NoteLetter::A, accidental: NoteAccidental::Sharp }) }
    else if s == "Bb"@ { Some(Note { letter: NoteLetter::B, accidental: NoteAccidental::Flat }) }
    else if s == "B"@ { Some(Note { letter: NoteLetter::B, accidental: NoteAccidental::Natural }) }
    else { None }
}

/// The scale-degree numeral of a note lying `v` semitones above the scale's
/// root; `index`, the note's place in the scale, chooses between two
/// spellings of the same distance.
pub open spec fn note_numeral_text(v: int, index: int) -> Seq<char> {
    if v == 0 { "R"@ }
    else if v == 1 { "2b"@ }
    else if v == 2 { if index == 2 { "3bb"@ } else { "2"@ } }
    else if v == 3 { if index == 2 { "3b"@ } else { "2#"@ } }
    else if v == 4 { if index == 3 { "4b"@ } else { "3"@ } }
    else if v == 5 { if index == 3 { "4"@ } else { "3#"@ } }
    else if v == 6 { if index == 3 { "4#"@ } else { "5b"@ } }
    else if v == 7 { if index == 5 { "6bb"@ } else { "5"@ } }
    else if v == 8 { if index == 4 { "5#"@ } else { "6b"@ } }
    else if v == 9 { if index == 6 { "7bb"@ } else { "6"@ } }
    else if v == 10 { if index == 5 { "6#"@ } else { "7b"@ } }
    else { "7"@ }
}

/// The note one semitone above `n`.
pub open spec fn note_above(n: Note) -> Note {
    spelled_up((pitch_class(n) + 1) % 12)
}

/// The note one semitone below `n`.
pub open spec fn note_below(n: Note) -> Note {
    spelled_down((pitch_class(n) + 11) % 12)
}

/// Pitch classes lie in 0..12.
pub proof fn lemma_pitch_class_range(n: Note)
    ensures
        0 <= pitch_class(n) < 12,
{
}

/// Both chosen spellings of a pitch class have that pitch class.
pub proof fn lemma_spelled_pitch_class(p: int)
    requires
        0 <= p < 12,
    ensures
        pitch_class(spelled_up(p)) == p,
        pitch_class(spelled_down(p)) == p,
{
}

/// Stepping up a semitone and back down comes back to the same pitch class,
/// though not always to the same spelling.
pub proof fn lemma_next_previous_pitch_class(n: Note)
    ensures
        pitch_class(note_below(note_above(n))) == pitch_class(n),
{
    lemma_pitch_class_range(n);
    let up = (pitch_class(n) + 1) % 12;
    lemma_spelled_pitch_class(up);
    lemma_spelled_pitch_class((up + 11) % 12);
}

/// A natural, or a sharp whose pitch class has no natural, is the upward
/// spelling of its pitch class; likewise a flat for the downward spelling.
proof fn lemma_spelling_unique(n: Note)
    ensures
        n.accidental == NoteAccidental::Natural ==> n == spelled_up(pitch_class(n)),
        n.accidental == NoteAccidental::Natural ==> n == spelled_down(pitch_class(n)),
        n.accidental == NoteAccidental::Sharp && spelled_up(pitch_class(n)).accidental
            != NoteAccidental::Natural ==> n == spelled_up(pitch_class(n)),
        n.accidental == NoteAccidental::Flat && spelled_down(pitch_class(n)).accidental
            != NoteAccidental::Natural ==> n == spelled_down(pitch_class(n)),
{
}

/// A letter and a pitch class fix the accidental.
proof fn lemma_letter_and_pitch_class(m: Note, n: Note)
    requires
        m.letter == n.letter,
        pitch_class(m) == pitch_class(n),
    ensures
        m == n,
{
}

/// Each pitch class has at most two spellings, with different letters, so a
/// note has at most one equivalent.
pub proof fn lemma_equivalent_unique(m1: Note, m2: Note, n: Note)
    requires
        is_equivalent(m1, n),
        is_equivalent(m2, n),
    ensures
        m1 == m2,
{
    if m1.letter == m2.letter {
        lemma_letter_and_pitch_class(m1, m2);
    } else {
        assert(false) by {
            match n.letter {
                NoteLetter::A => {},
                NoteLetter::B => {},
                NoteLetter::C => {},
                NoteLetter::D => {},
                NoteLetter::E => {},
                NoteLetter::F => {},
                NoteLetter::G => {},
            }
        }
    }
}


/// Relies on itertools' `Itertools::cartesian_product`: it yields every letter
/// paired with every accidental, the letters in the outer order and the
/// accidentals in the inner order, each in the order given.
#[verifier::external_body]
fn letter_accidental_pairs(letters: Vec<NoteLetter>, accidentals: Vec<NoteAccidental>) -> (r: Vec<(NoteLetter, NoteAccidental)>)
    ensures
        r@.len() == letters@.len() * accidentals@.len(),
        forall|i: int, j: int|
            #![trigger letters@[i], accidentals@[j]]
            0 <= i < letters@.len() && 0 <= j < accidentals@.len() ==> r@[i * accidentals@.len() + j] == (
            letters@[i],
            accidentals@[j],
        ),
{
    letters.into_iter().cartesian_product(accidentals.into_iter()).collect()
}

/// Every spelling as a (letter, accidental) pair, letters outermost; the pair
/// of `n` stands at its letter's position times three plus its accidental's.
fn all_spellings() -> (r: Vec<(NoteLetter, NoteAccidental)>)
    ensures
        r@.len() == 21,
        forall|n: Note|
            #![trigger pitch_class(n)]
            r@[letter_position(n.letter) * 3 + accidental_position(n.accidental)] == (
                n.letter,
                n.accidental,
            ),
{
    let letters = all_note_letters();
    let accidentals = all_note_accidentals();
    let r = letter_accidental_pairs(letters, accidentals);
    assert(accidentals@.len() == 3);
    assert forall|n: Note| #![trigger pitch_class(n)]
        r@[letter_position(n.letter) * 3 + accidental_position(n.accidental)] == (n.letter, n.accidental) by {
        lemma_letter_position(n.letter);
        lemma_accidental_position(n.accidental);
        let i = letter_position(n.letter);
        let j = accidental_position(n.accidental);
        assert(letters@[i] == n.letter);
        assert(accidentals@[j] == n.accidental);
        assert(i * accidentals@.len() == i * 3) by (nonlinear_arith)
            requires
                accidentals@.len() == 3,
        ;
    }
    r
}

impl Note {
    /// A note of the given letter and accidental.
    pub fn new(letter: NoteLetter, accidental: NoteAccidental) -> (r: Note)
        ensures
            r.letter == letter,
            r.accidental == accidental,
    {
        Note { letter, accidental }
    }

    /// The note's letter.
    pub fn get_letter(&self) -> (r: NoteLetter)
        ensures
            r == self.letter,
    {
        self.letter
    }

    /// The note's accidental.
    pub fn get_accidental(&self) -> (r: NoteAccidental)
        ensures
            r == self.accidental,
    {
        self.accidental
    }

    /// The note's scale-degree numeral within a scale rooted at `scale_root`,
    /// where `index` is the note's place in that scale (E flat from C is "3b").
    pub fn as_numeral(&self, scale_root: &Note, index: usize) -> (r: String)
        ensures
            r@ == note_numeral_text(semitones_between(*scale_root, *self), index as int),
    {
        let v = Interval::from_notes(scale_root, self).value;
        if v == 0 {
            String::from_str("R")
        } else if v == 1 {
            String::from_str("2b")
        } else if v == 2 {
            if index == 2 { String::from_str("3bb") } else { String::from_str("2") }
        } else if v == 3 {
            if index == 2 { String::from_str("3b") } else { String::from_str("2#") }
        } else if v == 4 {
            if index == 3 { String::from_str("4b") } else { String::from_str("3") }
        } else if v == 5 {
            if index == 3 { String::from_str("4") } else { String::from_str("3#") }
        } else if v == 6 {
            if index == 3 { String::from_str("4#") } else { String::from_str("5b") }
        } else if v == 7 {
            if index == 5 { String::from_str("6bb") } else { String::from_str("5") }
        } else if v == 8 {
            if index == 4 { String::from_str("5#") } else { String::from_str("6b") }
        } else if v == 9 {
            if index == 6 { String::from_str("7bb") } else { String::from_str("6") }
        } else if v == 10 {
            if index == 5 { String::from_str("6#") } else { String::from_str("7b") }
        } else {
            String::from_str("7")
        }
    }

    /// The pitch class of the note, in 0..12, C being 0.
    pub fn get_index(&self) -> (r: u32)
        ensures
            r == pitch_class(*self),
    {
        let res: u32 = match self.letter {
            NoteLetter::C => 0,
            NoteLetter::D => 2,
            NoteLetter::E => 4,
            NoteLetter::F => 5,
            NoteLetter::G => 7,
            NoteLetter::A => 9,
            NoteLetter::B => 11,
        };
        match self.accidental {
            NoteAccidental::Flat => if res == 0 { 11 } else { res - 1 },
            NoteAccidental::Sharp => if res == 11 { 0 } else { res + 1 },
            NoteAccidental::Natural => res,
        }
    }

    /// The spellings of pitch class `target`, in the order letters then accidentals.
    fn spellings_of(target: u32) -> (r: Vec<Note>)
        requires
            target < 12,
        ensures
            forall|k: int| 0 <= k < r@.len() ==> pitch_class(#[trigger] r@[k]) == target,
            exists|k: int| 0 <= k < r@.len() && r@[k] == spelled_up(target as int),
            exists|k: int| 0 <= k < r@.len() && r@[k] == spelled_down(target as int),
    {
        let pairs = all_spellings();
        let ghost up = spelled_up(target as int);
        let ghost down = spelled_down(target as int);
        let ghost k_up = letter_position(up.letter) * 3 + accidental_position(up.accidental);
        let ghost k_down = letter_position(down.letter) * 3 + accidental_position(down.accidental);
        proof {
            lemma_spelled_pitch_class(target as int);
            lemma_letter_position(up.letter);
            lemma_accidental_position(up.accidental);
            lemma_letter_position(down.letter);
            lemma_accidental_position(down.accidental);
            assert(pairs@[k_up] == (up.letter, up.accidental)) by {
                assert(pitch_class(up) == target);
            }
            assert(pairs@[k_down] == (down.letter, down.accidental)) by {
                assert(pitch_class(down) == target);
            }
        }
        let mut candidates: Vec<Note> = Vec::new();
        let ghost mut pos_up: int = -1;
        let ghost mut pos_down: int = -1;
        let mut i: usize = 0;
        while i < pairs.len()
            invariant
                0 <= i <= pairs@.len(),
                pairs@.len() == 21,
                0 <= k_up < 21,
                0 <= k_down < 21,
                pairs@[k_up] == (up.letter, up.accidental),
                pairs@[k_down] == (down.letter, down.accidental),
                pitch_class(up) == target,
                pitch_class(down) == target,
                forall|k: int| 0 <= k < candidates@.len() ==> pitch_class(#[trigger] candidates@[k]) == target,
                i > k_up ==> 0 <= pos_up < candidates@.len() && candidates@[pos_up] == up,
                i > k_down ==> 0 <= pos_down < candidates@.len() && candidates@[pos_down] == down,
            decreases pairs.len() - i,
        {
            let note = Note::new(pairs[i].0, pairs[i].1);
            if note.get_index() == target {
                proof {
                    if i as int == k_up {
                        pos_up = candidates@.len() as int;
                    }
                    if i as int == k_down {
                        pos_down = candidates@.len() as int;
                    }
                }
                candidates.push(note);
            }
            i += 1;
        }
        assert(candidates@[pos_up] == up);
        assert(candidates@[pos_down] == down);
        candidates
    }

    /// The note one semitone above: the natural of that pitch class where
    /// there is one, else its sharp.
    pub fn next(&self) -> (r: Note)
        ensures
            r == note_above(*self),
    {
        let target: u32 = if self.get_index() == 11 { 0 } else { self.get_index() + 1 };
        let candidates = Self::spellings_of(target);
        let mut j: usize = 0;
        while j < candidates.len()
            invariant
                0 <= j <= candidates@.len(),
                target < 12,
                target as int == (pitch_class(*self) + 1) % 12,
                forall|k: int| 0 <= k < candidates@.len() ==> pitch_class(#[trigger] candidates@[k]) == target,
                forall|k: int| 0 <= k < j ==> (#[trigger] candidates@[k]).accidental != NoteAccidental::Natural,
            decreases candidates.len() - j,
        {
            if candidates[j].accidental == NoteAccidental::Natural {
                proof {
                    lemma_spelling_unique(candidates@[j as int]);
                }
                return candidates[j];
            }
            j += 1;
        }
        let mut j: usize = 0;
        while j < candidates.len()
            invariant
                0 <= j <= candidates@.len(),
                target < 12,
                target as int == (pitch_class(*self) + 1) % 12,
                forall|k: int| 0 <= k < candidates@.len() ==> pitch_class(#[trigger] candidates@[k]) == target,
                exists|k: int| 0 <= k < candidates@.len() && candidates@[k] == spelled_up(target as int),
                forall|k: int| 0 <= k < candidates@.len() ==> (#[trigger] candidates@[k]).accidental != NoteAccidental::Natural,
                forall|k: int| 0 <= k < j ==> (#[trigger] candidates@[k]).accidental != NoteAccidental::Sharp,
            decreases candidates.len() - j,
        {
            if candidates[j].accidental == NoteAccidental::Sharp {
                proof {
                    let k = choose|k: int| 0 <= k < candidates@.len() && candidates@[k] == spelled_up(target as int);
                    assert(candidates@[k].accidental != NoteAccidental::Natural);
                    lemma_spelling_unique(candidates@[j as int]);
                }
                return candidates[j];
            }
            j += 1;
        }
        // Unreachable: the spelling sought is among the candidates.
        assert(false);
        candidates[0]
    }

    /// The note one semitone below: the natural of that pitch class where
    /// there is one, else its flat.
    pub fn previous(&self) -> (r: Note)
        ensures
            r == note_below(*self),
    {
        let target: u32 = if self.get_index() == 0 { 11 } else { self.get_index() - 1 };
        let candidates = Self::spellings_of(target);
        let mut j: usize = 0;
        while j < candidates.len()
            invariant
                0 <= j <= candidates@.len(),
                target < 12,
                target as int == (pitch_class(*self) + 11) % 12,
                forall|k: int| 0 <= k < candidates@.len() ==> pitch_class(#[trigger] candidates@[k]) == target,
                forall|k: int| 0 <= k < j ==> (#[trigger] candidates@[k]).accidental != NoteAccidental::Natural,
            decreases candidates.len() - j,
        {
            if candidates[j].accidental == NoteAccidental::Natural {
                proof {
                    lemma_spelling_unique(candidates@[j as int]);
                }
                return candidates[j];
            }
            j += 1;
        }
        let mut j: usize = 0;
        while j < candidates.len()
            invariant
                0 <= j <= candidates@.len(),
                target < 12,
                target as int == (pitch_class(*self) + 11) % 12,
                forall|k: int| 0 <= k < candidates@.len() ==> pitch_class(#[trigger] candidates@[k]) == target,
                exists|k: int| 0 <= k < candidates@.len() && candidates@[k] == spelled_down(target as int),
                forall|k: int| 0 <= k < candidates@.len() ==> (#[trigger] candidates@[k]).accidental != NoteAccidental::Natural,
                forall|k: int| 0 <= k < j ==> (#[trigger] candidates@[k]).accidental != NoteAccidental::Flat,
            decreases candidates.len() - j,
        {
            if candidates[j].accidental == NoteAccidental::Flat {
                proof {
                    let k = choose|k: int| 0 <= k < candidates@.len() && candidates@[k] == spelled_down(target as int);
                    assert(candidates@[k].accidental != NoteAccidental::Natural);
                    lemma_spelling_unique(candidates@[j as int]);
                }
                return candidates[j];
            }
            j += 1;
        }
        // Unreachable: the spelling sought is among the candidates.
        assert(false);
        candidates[0]
    }

    /// The other spellings of this note's pitch class: a different letter with
    /// a single accidental or none. A pitch class has at most two such
    /// spellings, so there is at most one.
    pub fn equivalents(&self) -> (r: Vec<Note>)
        ensures
            r@.len() <= 1,
            forall|k: int| 0 <= k < r@.len() ==> is_equivalent(#[trigger] r@[k], *self),
            forall|m: Note| is_equivalent(m, *self) ==> r@ == seq![m],
    {
        let mut res: Vec<Note> = Vec::new();
        let letters = all_note_letters();
        let accidentals = all_note_accidentals();
        let mut i: usize = 0;
        // The search stops once two spellings are found.
        while i < letters.len() && res.len() < 2
            invariant
                0 <= i <= 7,
                letters@ == letters_in_order(),
                accidentals@ == accidentals_in_order(),
                res@.len() <= 1,
                forall|k: int| 0 <= k < res@.len() ==> is_equivalent(#[trigger] res@[k], *self),
                res@.len() == 1 ==> letter_position(res@[0].letter) < i,
                res@.len() == 0 ==> forall|m: Note| is_equivalent(m, *self) ==> letter_position(m.letter) >= i,
            decreases letters.len() - i,
        {
            let letter = letters[i];
            if letter != self.letter {
                let mut j: usize = 0;
                while j < accidentals.len()
                    invariant
                        0 <= i < 7,
                        0 <= j <= 3,
                        letter == letters_in_order()[i as int],
                        letter != self.letter,
                        accidentals@ == accidentals_in_order(),
                        res@.len() <= 1,
                        forall|k: int| 0 <= k < res@.len() ==> is_equivalent(#[trigger] res@[k], *self),
                        res@.len() == 1 ==> letter_position(res@[0].letter) < i || (res@[0].letter == letter
                            && accidental_position(res@[0].accidental) < j),
                        res@.len() == 0 ==> forall|m: Note| is_equivalent(m, *self) ==> letter_position(m.letter) > i
                            || (letter_position(m.letter) == i && accidental_position(m.accidental) >= j),
                    decreases accidentals.len() - j,
                {
                    let note = Note::new(letter, accidentals[j]);
                    proof {
                        lemma_letter_position(letter);
                    }
                    if note.get_index() == self.get_index() {
                        proof {
                            if res@.len() == 1 {
                                lemma_equivalent_unique(res@[0], note, *self);
                                lemma_letter_position(res@[0].letter);
                            }
                        }
                        res.push(note);
                    }
                    proof {
                        assert forall|m: Note| res@.len() == 0 && is_equivalent(m, *self) implies letter_position(m.letter) > i
                            || (letter_position(m.letter) == i && accidental_position(m.accidental) >= j + 1) by {
                            lemma_letter_position(m.letter);
                            lemma_accidental_position(m.accidental);
                            if letter_position(m.letter) == i && accidental_position(m.accidental) == j {
                                assert(m == note);
                            }
                        }
                    }
                    j += 1;
                }
            }
            proof {
                assert forall|m: Note| res@.len() == 0 && is_equivalent(m, *self) implies letter_position(m.letter) >= i + 1 by {
                    lemma_letter_position(m.letter);
                    lemma_accidental_position(m.accidental);
                }
            }
            i += 1;
        }
        proof {
            assert forall|m: Note| is_equivalent(m, *self) implies res@ == seq![m] by {
                lemma_letter_position(m.letter);
                lemma_equivalent_unique(res@[0], m, *self);
                assert(res@ =~= seq![m]);
            }
        }
        res
    }

    /// The note's name: its letter, followed by "b" for a flat or "#" for a sharp.
    pub fn to_string(&self) -> (r: String)
        ensures
            r@ == note_name(*self),
    {
        let mut res = match self.letter {
            NoteLetter::C => String::from_str("C"),
            NoteLetter::D => String::from_str("D"),
            NoteLetter::E => String::from_str("E"),
            NoteLetter::F => String::from_str("F"),
            NoteLetter::G => String::from_str("G"),
            NoteLetter::A => String::from_str("A"),
            NoteLetter::B => String::from_str("B"),
        };
        match self.accidental {
            NoteAccidental::Flat => res.append("b"),
            NoteAccidental::Sharp => res.append("#"),
            NoteAccidental::Natural => {},
        }
        res
    }

    /// Reads one of the seventeen usual note names: the naturals, the sharps
    /// C# D# F# G# A# and the flats Db Eb Gb Ab Bb.
    pub fn try_from(value: &str) -> (r: Result<Note, ParseError>)
        ensures
            match note_named(value@) {
                Some(n) => r == Ok::<Note, ParseError>(n),
                None => r matches Err(e) && e.token@ == value@,
            },
    {
        if same_text(value, "C") {
            Ok(Note::new(NoteLetter::C, NoteAccidental::Natural))
        } else if same_text(value, "C#") {
            Ok(Note::new(NoteLetter::C, NoteAccidental::Sharp))
        } else if same_text(value, "Db") {
            Ok(Note::new(NoteLetter::D, NoteAccidental::Flat))
        } else if same_text(value, "D") {
            Ok(Note::new(NoteLetter::D, NoteAccidental::Natural))
        } else if same_text(value, "D#") {
            Ok(Note::new(NoteLetter::D, NoteAccidental::Sharp))
        } else if same_text(value, "Eb") {
            Ok(Note::new(NoteLetter::E, NoteAccidental::Flat))
        } else if same_text(value, "E") {
            Ok(Note::new(NoteLetter::E, NoteAccidental::Natural))
        } else if same_text(value, "F") {
            Ok(Note::new(NoteLetter::F, NoteAccidental::Natural))
        } else if same_text(value, "F#") {
            Ok(Note::new(NoteLetter::F, NoteAccidental::Sharp))
        } else if same_text(value, "Gb") {
            Ok(Note::new(NoteLetter::G, NoteAccidental::Flat))
        } else if same_text(value, "G") {
            Ok(Note::new(NoteLetter::G, NoteAccidental::Natural))
        } else if same_text(value, "G#") {
            Ok(Note::new(NoteLetter::G, NoteAccidental::Sharp))
        } else if same_text(value, "Ab") {
            Ok(Note::new(NoteLetter::A, NoteAccidental::Flat))
        } else if same_text(value, "A") {
            Ok(Note::new(NoteLetter::A, NoteAccidental::Natural))
        } else if same_text(value, "A#") {
            Ok(Note::new(NoteLetter::A, NoteAccidental::Sharp))
        } else if same_text(value, "Bb") {
            Ok(Note::new(NoteLetter::B, NoteAccidental::Flat))
        } else if same_text(value, "B") {
            Ok(Note::new(NoteLetter::B, NoteAccidental::Natural))
        } else {
            Err(ParseError { token: String::from_str(value) })
        }
    }
}

impl NoteLetter {
    /// Reads a letter name, "A" to "G".
    pub fn try_from(value: &str) -> (r: Result<NoteLetter, ParseError>)
        ensures
            match letter_named(value@) {
                Some(l) => r == Ok::<NoteLetter, ParseError>(l),
                None => r matches Err(e) && e.token@ == value@,
            },
    {
        if same_text(value, "A") {
            Ok(NoteLetter::A)
        } else if same_text(value, "B") {
            Ok(NoteLetter::B)
        } else if same_text(value, "C") {
            Ok(NoteLetter::C)
        } else if same_text(value, "D") {
            Ok(NoteLetter::D)
        } else if same_text(value, "E") {
            Ok(NoteLetter::E)
        } else if same_text(value, "F") {
            Ok(NoteLetter::F)
        } else if same_text(value, "G") {
            Ok(NoteLetter::G)
        } else {
            Err(ParseError { token: String::from_str(value) })
        }
    }
}

/// Notes are equal when they have the same pitch class.
impl PartialEq for Note {
    fn eq(&self, other: &Note) -> (r: bool) {
        self.get_index() == other.get_index()
    }
}

impl vstd::std_specs::cmp::PartialEqSpecImpl for Note {
    open spec fn obeys_eq_spec() -> bool {
        true
    }

    open spec fn eq_spec(&self, other: &Note) -> bool {
        pitch_class(*self) == pitch_class(*other)
    }
}

impl Eq for Note {
}

/// The order of two pitch classes.
pub open spec fn compare_pitch(a: int, b: int) -> Option<core::cmp::Ordering> {
    if a < b {
        Some(core::cmp::Ordering::Less)
    } else if a > b {
        Some(core::cmp::Ordering::Greater)
    } else {
        Some(core::cmp::Ordering::Equal)
    }
}

/// Notes are ordered by pitch class.
impl PartialOrd for Note {
    fn partial_cmp(&self, other: &Note) -> (r: Option<core::cmp::Ordering>) {
        let a = self.get_index();
        let b = other.get_index();
        if a < b {
            Some(core::cmp::Ordering::Less)
        } else if a > b {
            Some(core::cmp::Ordering::Greater)
        } else {
            Some(core::cmp::Ordering::Equal)
        }
    }
}

impl vstd::std_specs::cmp::PartialOrdSpecImpl for Note {
    open spec fn obeys_partial_cmp_spec() -> bool {
        true
    }

    open spec fn partial_cmp_spec(&self, other: &Note) -> Option<core::cmp::Ordering> {
        compare_pitch(pitch_class(*self), pitch_class(*other))
    }
}

} // verus!
