use vstd::prelude::*;
use crate::interval::note_after_steps;
use crate::note::{
    Note, NoteLetter, NoteAccidental, natural_pitch_class, pitch_class, note_above, note_below, note_name,
    is_equivalent, compare_pitch, lemma_pitch_class_range, lemma_spelled_pitch_class,
};

verus! {

/// A note in a given octave. Octave -1 holds the lowest MIDI notes, so that
/// C of octave 4 is number 60.
#[derive(Debug, Clone, Copy, Hash)]
pub struct MIDINote {
    pub note: Note,
    pub octave: i32,
}

/// How far a note lies above the C of its octave: the letter's natural moved
/// by the accidental, without wrapping (C flat is -1, B sharp is 12).
pub open spec fn offset_in_octave(n: Note) -> int {
    natural_pitch_class(n.letter) + match n.accidental {
        NoteAccidental::Natural => 0int,
        NoteAccidental::Flat => -1int,
        NoteAccidental::Sharp => 1int,
    }
}

/// The linear semitone number of a note in an octave: twelve per octave,
/// counted from C of octave -1.
pub open spec fn linear_index(m: MIDINote) -> int {
    offset_in_octave(m.note) + 12 * (m.octave + 1)
}

/// The decimal digit `d` as text.
pub open spec fn digit_text(d: int) -> Seq<char> {
    if d == 0 { "0"@ }
    else if d == 1 { "1"@ }
    else if d == 2 { "2"@ }
    else if d == 3 { "3"@ }
    else if d == 4 { "4"@ }
    else if d == 5 { "5"@ }
    else if d == 6 { "6"@ }
    else if d == 7 { "7"@ }
    else if d == 8 { "8"@ }
    else { "9"@ }
}

/// A natural number written in decimal.
pub open spec fn decimal_text(n: nat) -> Seq<char>
    decreases n,
{
    if n < 10 {
        digit_text(n as int)
    } else {
        decimal_text(n / 10) + digit_text((n % 10) as int)
    }
}

/// An integer written in decimal, with a leading "-" when negative.
pub open spec fn signed_text(v: int) -> Seq<char> {
    if v < 0 {
        "-"@ + decimal_text((-v) as nat)
    } else {
        decimal_text(v as nat)
    }
}

/// The offset in the octave is the pitch class, but for C flat and B sharp,
/// which lie a whole octave off it.
pub proof fn lemma_offset_in_octave(n: Note)
    ensures
        -1 <= offset_in_octave(n) <= 12,
        offset_in_octave(n) == pitch_class(n) || offset_in_octave(n) == pitch_class(n) - 12
            || offset_in_octave(n) == pitch_class(n) + 12,
        0 <= offset_in_octave(n) <= 11 ==> offset_in_octave(n) == pitch_class(n),
        n.accidental == NoteAccidental::Natural ==> offset_in_octave(n) == pitch_class(n),
        (offset_in_octave(n) - pitch_class(n)) % 12 == 0,
{
}

/// The upward and downward spellings never leave the octave.
proof fn lemma_step_offsets(n: Note)
    ensures
        offset_in_octave(note_above(n)) == pitch_class(note_above(n)),
        offset_in_octave(note_below(n)) == pitch_class(note_below(n)),
{
    lemma_pitch_class_range(n);
    lemma_spelled_pitch_class((pitch_class(n) + 1) % 12);
    lemma_spelled_pitch_class((pitch_class(n) + 11) % 12);
}

/// The decimal text of `n`.
fn natural_text(n: u32) -> (r: String)
    ensures
        r@ == decimal_text(n as nat),
    decreases n,
{
    let d: u32 = n % 10;
    let digit = if d == 0 {
        "0"
    } else if d == 1 {
        "1"
    } else if d == 2 {
        "2"
    } else if d == 3 {
        "3"
    } else if d == 4 {
        "4"
    } else if d == 5 {
        "5"
    } else if d == 6 {
        "6"
    } else if d == 7 {
        "7"
    } else if d == 8 {
        "8"
    } else {
        "9"
    };
    if n < 10 {
        String::from_str(digit)
    } else {
        let mut res = natural_text(n / 10);
        res.append(digit);
        res
    }
}

impl MIDINote {
    /// The note of the given letter and accidental in `octave`.
    pub fn new(letter: NoteLetter, accidental: NoteAccidental, octave: i32) -> (r: MIDINote)
        ensures
            r.note == (Note { letter, accidental }),
            r.octave == octave,
    {
        let note = Note::new(letter, accidental);
        MIDINote { note, octave }
    }

    /// `note` in `octave`.
    pub fn from_note(note: Note, octave: i32) -> (r: MIDINote)
        ensures
            r == (MIDINote { note, octave }),
    {
        MIDINote { note, octave }
    }

    /// The note of MIDI number `midi_num`, reached by stepping up from C of
    /// octave -1; `None` from 128 on.
    pub fn from_midi_number(midi_num: u32) -> (r: Option<MIDINote>)
        ensures
            midi_num < 128 <==> r is Some,
            r matches Some(m) ==> linear_index(m) == midi_num && m.note == note_after_steps(
                Note { letter: NoteLetter::C, accidental: NoteAccidental::Natural },
                midi_num as nat,
            ),
    {
        if midi_num < 128 {
            let mut midi_note = MIDINote::new(NoteLetter::C, NoteAccidental::Natural, -1);
            let mut k: u32 = 0;
            while k < midi_num
                invariant
                    0 <= k <= midi_num < 128,
                    linear_index(midi_note) == k,
                    midi_note.note == note_after_steps(
                        Note { letter: NoteLetter::C, accidental: NoteAccidental::Natural },
                        k as nat,
                    ),
                    -1 <= midi_note.octave <= 11,
                decreases midi_num - k,
            {
                proof {
                    lemma_offset_in_octave(midi_note.note);
                }
                midi_note = midi_note.next();
                proof {
                    lemma_offset_in_octave(midi_note.note);
                }
                k += 1;
            }
            Some(midi_note)
        } else {
            None
        }
    }

    /// The linear semitone number: twelve per octave, counted from C of octave -1.
    pub fn get_index(&self) -> (r: i64)
        ensures
            r == linear_index(*self),
    {
        let base: i64 = match self.note.letter {
            NoteLetter::C => 0,
            NoteLetter::D => 2,
            NoteLetter::E => 4,
            NoteLetter::F => 5,
            NoteLetter::G => 7,
            NoteLetter::A => 9,
            NoteLetter::B => 11,
        };
        let offset: i64 = match self.note.accidental {
            NoteAccidental::Flat => base - 1,
            NoteAccidental::Sharp => base + 1,
            NoteAccidental::Natural => base,
        };
        offset + 12 * (self.octave as i64 + 1)
    }

    /// The MIDI number, where the linear number lies in 0..128.
    pub fn get_midi_number(&self) -> (r: Option<u32>)
        ensures
            0 <= linear_index(*self) < 128 <==> r is Some,
            r matches Some(n) ==> n == linear_index(*self),
    {
        let idx = self.get_index();
        if 0 <= idx && idx < 128 {
            Some(idx as u32)
        } else {
            None
        }
    }

    /// The other spelling of the same sounding note, if there is one: an
    /// equivalent of the note, its octave moved where the spelling crosses
    /// between B and C.
    pub fn equivalents(&self) -> (r: Vec<MIDINote>)
        requires
            i32::MIN < self.octave < i32::MAX,
        ensures
            r@.len() <= 1,
            forall|k: int| 0 <= k < r@.len() ==> is_equivalent((#[trigger] r@[k]).note, self.note) && linear_index(
                r@[k],
            ) == linear_index(*self),
            forall|m: Note| is_equivalent(m, self.note) ==> r@.len() == 1 && r@[0].note == m,
    {
        let notes = self.note.equivalents();
        let mut res: Vec<MIDINote> = Vec::new();
        let own = self.get_index() - 12 * (self.octave as i64 + 1);
        let mut k: usize = 0;
        while k < notes.len()
            invariant
                0 <= k <= notes@.len(),
                notes@.len() <= 1,
                i32::MIN < self.octave < i32::MAX,
                own == offset_in_octave(self.note),
                forall|q: int| 0 <= q < notes@.len() ==> is_equivalent(#[trigger] notes@[q], self.note),
                res@.len() == k,
                forall|q: int| 0 <= q < k ==> (#[trigger] res@[q]).note == notes@[q] && linear_index(res@[q]) == linear_index(*self),
            decreases notes.len() - k,
        {
            let note = notes[k];
            let other = MIDINote::from_note(note, self.octave).get_index() - 12 * (self.octave as i64 + 1);
            proof {
                lemma_offset_in_octave(note);
                lemma_offset_in_octave(self.note);
            }
            let octave = if own - other == 12 {
                self.octave + 1
            } else if other - own == 12 {
                self.octave - 1
            } else {
                self.octave
            };
            res.push(MIDINote::from_note(note, octave));
            k += 1;
        }
        res
    }

    /// The note one semitone above, spelled as `Note::next` spells it.
    pub fn next(&self) -> (r: MIDINote)
        requires
            self.octave < i32::MAX,
        ensures
            r.note == note_above(self.note),
            linear_index(r) == linear_index(*self) + 1,
    {
        let note = self.note.next();
        proof {
            lemma_offset_in_octave(self.note);
            lemma_step_offsets(self.note);
            lemma_pitch_class_range(self.note);
        }
        let own = self.get_index() - 12 * (self.octave as i64 + 1);
        if own + 1 > 11 {
            MIDINote::from_note(note, self.octave + 1)
        } else {
            MIDINote::from_note(note, self.octave)
        }
    }

    /// The note one semitone below, spelled as `Note::previous` spells it.
    pub fn previous(&self) -> (r: MIDINote)
        requires
            self.octave > i32::MIN,
        ensures
            r.note == note_below(self.note),
            linear_index(r) == linear_index(*self) - 1,
    {
        let note = self.note.previous();
        proof {
            lemma_offset_in_octave(self.note);
            lemma_step_offsets(self.note);
            lemma_pitch_class_range(self.note);
        }
        let own = self.get_index() - 12 * (self.octave as i64 + 1);
        if own - 1 < 0 {
            MIDINote::from_note(note, self.octave - 1)
        } else {
            MIDINote::from_note(note, self.octave)
        }
    }

    /// The note's name followed by its octave number.
    pub fn to_string(&self) -> (r: String)
        ensures
            r@ == note_name(self.note) + signed_text(self.octave as int),
    {
        let mut res = self.note.to_string();
        if self.octave < 0 {
            res.append("-");
            let magnitude: u32 = if self.octave == i32::MIN {
                2147483648u32
            } else {
                (-self.octave) as u32
            };
            let digits = natural_text(magnitude);
            res.append(digits.as_str());
        } else {
            let digits = natural_text(self.octave as u32);
            res.append(digits.as_str());
        }
        res
    }
}

/// MIDI notes are equal when their linear numbers are.
impl PartialEq for MIDINote {
    fn eq(&self, other: &MIDINote) -> (r: bool) {
        self.get_index() == other.get_index()
    }
}

impl vstd::std_specs::cmp::PartialEqSpecImpl for MIDINote {
    open spec fn obeys_eq_spec() -> bool {
        true
    }

    open spec fn eq_spec(&self, other: &MIDINote) -> bool {
        linear_index(*self) == linear_index(*other)
    }
}

impl Eq for MIDINote {
}

/// MIDI notes are ordered by their linear numbers.
impl PartialOrd for MIDINote {
    fn partial_cmp(&self, other: &MIDINote) -> (r: Option<core::cmp::Ordering>) {
        let a = self.get_index();
        let b = other.get_index();
        if a < b {
            Some(core::cmp::Ordering::Less)
        } else if a > b {
            Some(core::cmp::Ordering::Greater)
        } else {
            Some(core::cmp::Ordering::Equal)
        }
    }
}

impl vstd::std_specs::cmp::PartialOrdSpecImpl for MIDINote {
    open spec fn obeys_partial_cmp_spec() -> bool {
        true
    }

    open spec fn partial_cmp_spec(&self, other: &MIDINote) -> Option<core::cmp::Ordering> {
        compare_pitch(linear_index(*self), linear_index(*other))
    }
}

} // verus!
