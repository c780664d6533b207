//! Music-theory computations over the twelve pitch classes of equal temperament:
//! notes and their spellings, intervals, chords and scale modes.

mod text;
mod note;
mod midinote;
mod interval;
mod chord;
mod mode;
pub mod scale;

pub use note::{Note, NoteAccidental, NoteLetter, ParseError, next_note_letter, previous_note_letter, all_note_letters, all_note_accidentals};
pub use interval::Interval;
pub use chord::{Chord, ChordPosition, ChordQuality};
pub use mode::{Mode, Scale, get_mode_names, can_be_optimised, all_scales};
pub use midinote::MIDINote;
