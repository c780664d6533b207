use musicmaster::{all_note_accidentals, all_note_letters, all_scales, can_be_optimised, get_mode_names};
use musicmaster::{Chord, ChordPosition, ChordQuality, Mode, Note, NoteAccidental, NoteLetter, Scale};

#[test]
fn mode_test_scale_from() {
    let scale = Scale::try_from("HarmonicMajor").unwrap();
    assert_eq!(scale, Scale::HarmonicMajor);
}

#[test]
fn mode_major() {
    let root_note = Note::new(NoteLetter::A, NoteAccidental::Natural);
    let mode = Mode::new(root_note, Scale::Major, 5);
    let triads: Vec<Chord> = mode.get_chords(true).into_iter().map(|opt| opt.unwrap()).collect();

    assert_eq!(triads[0].to_string(), String::from("Am7"));
    assert_eq!(triads[1].to_string(), String::from("Bm7(b5)"));
    assert_eq!(triads[2].to_string(), String::from("CMaj7"));
    assert_eq!(triads[3].to_string(), String::from("Dm7"));
    assert_eq!(triads[4].to_string(), String::from("Em7"));
    assert_eq!(triads[5].to_string(), String::from("FMaj7"));
    assert_eq!(triads[6].to_string(), String::from("G7"));

    assert_eq!(triads[0].as_numeral(&root_note, 0), String::from("I"));
    assert_eq!(triads[1].as_numeral(&root_note, 1), String::from("II"));
    assert_eq!(triads[2].as_numeral(&root_note, 2), String::from("bIII"));
    assert_eq!(triads[3].as_numeral(&root_note, 3), String::from("IV"));
    assert_eq!(triads[4].as_numeral(&root_note, 4), String::from("V"));
    assert_eq!(triads[5].as_numeral(&root_note, 5), String::from("bVI"));
    assert_eq!(triads[6].as_numeral(&root_note, 6), String::from("bVII"));
}

#[test]
fn mode_test_mode_notes() {
    let root_note = Note::new(NoteLetter::A, NoteAccidental::Natural);
    let phrygian_mode = Mode::new(root_note, Scale::Major, 2);

    let notes = phrygian_mode.get_notes();
    assert_eq!(notes[0].to_string(), String::from("A"));
    assert_eq!(notes[1].to_string(), String::from("Bb"));
    assert_eq!(notes[2].to_string(), String::from("C"));
    assert_eq!(notes[3].to_string(), String::from("D"));
    assert_eq!(notes[4].to_string(), String::from("E"));
    assert_eq!(notes[5].to_string(), String::from("F"));
    assert_eq!(notes[6].to_string(), String::from("G"));

    let intervals = phrygian_mode.get_root_intervals();
    assert_eq!(intervals[0].to_string(), String::from("P1"));
    assert_eq!(intervals[1].to_string(), String::from("m2"));
    assert_eq!(intervals[2].to_string(), String::from("m3"));
    assert_eq!(intervals[3].to_string(), String::from("P4"));
    assert_eq!(intervals[4].to_string(), String::from("P5"));
    assert_eq!(intervals[5].to_string(), String::from("m6"));
    assert_eq!(intervals[6].to_string(), String::from("m7"));
}

#[test]
fn mode_test_mode_chord_contain() {
    let root_note = Note::new(NoteLetter::C, NoteAccidental::Natural);
    let phrygian_mode = Mode::new(root_note, Scale::Major, 2);

    let cminor7 = Chord::new(Note::new(NoteLetter::C, NoteAccidental::Natural), ChordQuality::MinorSeventh, ChordPosition::Root);
    assert_eq!(phrygian_mode.chord_numeral(&cminor7).unwrap(), String::from("I"));

    let fminor7 = Chord::new(Note::new(NoteLetter::F, NoteAccidental::Natural), ChordQuality::MinorSeventh, ChordPosition::Root);
    assert_eq!(phrygian_mode.chord_numeral(&fminor7).unwrap(), String::from("IV"));
}

#[test]
fn all_major_modes() {
    for letter in all_note_letters() {
        for accidental in all_note_accidentals() {
            for degree in 1..8 {
                let root_note = Note::new(letter, accidental);
                let phrygian_mode = Mode::new(root_note, Scale::Major, degree);
                let intervals = phrygian_mode.get_root_intervals();
                assert_eq!(intervals.len(), 7);
                let notes = phrygian_mode.get_notes();
                assert_eq!(notes.len(), 7);
            }
        }
    }
}

fn names(notes: &[Note]) -> Vec<String> {
    notes.iter().map(|n| n.to_string()).collect()
}

#[test]
fn aeolian_spelling_uses_each_letter() {
    let mode = Mode::new(Note::new(NoteLetter::A, NoteAccidental::Natural), Scale::Major, 5);
    assert_eq!(names(&mode.get_notes()), vec!["A", "B", "C", "D", "E", "F", "G"]);
    let eflat = Mode::new(Note::new(NoteLetter::E, NoteAccidental::Flat), Scale::Major, 0);
    assert_eq!(names(&eflat.get_notes()), vec!["Eb", "F", "G", "Ab", "Bb", "C", "D"]);
    let fsharp = Mode::new(Note::new(NoteLetter::F, NoteAccidental::Sharp), Scale::HarmonicMinor, 0);
    assert_eq!(names(&fsharp.get_notes()), vec!["F#", "G#", "A", "B", "C#", "D", "E#"]);
}

#[test]
fn spelling_falls_back_to_raw_note() {
    let mode = Mode::new(Note::new(NoteLetter::B, NoteAccidental::Sharp), Scale::Major, 0);
    let notes = mode.get_notes();
    assert_eq!(notes.len(), 7);
    assert_eq!(notes[1].to_string(), "D");
    let values: Vec<u32> = notes.iter().map(|n| n.get_index()).collect();
    assert_eq!(values, vec![0, 2, 4, 5, 7, 9, 11]);
}

#[test]
fn non_diatonic_scales_keep_raw_steps() {
    let whole = Mode::new(Note::new(NoteLetter::C, NoteAccidental::Natural), Scale::WholeTone, 0);
    assert_eq!(names(&whole.get_notes()), vec!["C", "D", "E", "F#", "G#", "A#"]);
    let chromatic = Mode::new(Note::new(NoteLetter::C, NoteAccidental::Natural), Scale::Chromatic, 0);
    assert_eq!(chromatic.get_notes().len(), 10);
    let diminished = Mode::new(Note::new(NoteLetter::C, NoteAccidental::Natural), Scale::Diminished, 1);
    let steps: Vec<u32> = diminished.get_intervals().iter().map(|i| i.get_value()).collect();
    assert_eq!(steps, vec![1, 2, 1, 2, 1, 2, 1, 2]);
}

#[test]
fn triads_and_tetrad_fallback() {
    let mode = Mode::new(Note::new(NoteLetter::C, NoteAccidental::Natural), Scale::Major, 0);
    let triads: Vec<String> = mode.get_chords(false).into_iter().map(|c| c.unwrap().to_string()).collect();
    assert_eq!(triads, vec!["C", "Dm", "Em", "F", "G", "Am", "Bº"]);
    let whole = Mode::new(Note::new(NoteLetter::C, NoteAccidental::Natural), Scale::WholeTone, 0);
    let chords = whole.get_chords(true);
    assert_eq!(chords.len(), 6);
    assert_eq!(chords[0].unwrap().to_string(), "C+");
}

#[test]
fn mode_names_and_display() {
    let mode = Mode::new(Note::new(NoteLetter::A, NoteAccidental::Natural), Scale::Major, 5);
    assert_eq!(mode.to_string(), "A Aeolian");
    assert_eq!(get_mode_names(&Scale::Diminished), vec!["Diminished", "Dominant Diminished"]);
    assert_eq!(Mode::new(Note::new(NoteLetter::D, NoteAccidental::Natural), Scale::Diminished, 3).to_string(), "D Dominant Diminished");
    assert!(can_be_optimised(&Scale::DoubleHarmonic));
    assert!(!can_be_optimised(&Scale::WholeTone));
    assert_eq!(all_scales().len(), 8);
    assert_eq!(Scale::Chromatic.to_string(), "Chromatic");
    assert_eq!(Scale::try_from("Lydian").unwrap_err().token, "Lydian");
}

#[test]
fn mode_contains_and_numerals() {
    let mode = Mode::new(Note::new(NoteLetter::C, NoteAccidental::Natural), Scale::Major, 0);
    let notes: Vec<Note> = ["E", "G", "B"].iter().map(|s| Note::try_from(*s).unwrap()).collect();
    assert!(mode.contains_notes(&notes));
    let outside: Vec<Note> = ["E", "G#"].iter().map(|s| Note::try_from(*s).unwrap()).collect();
    assert!(!mode.contains_notes(&outside));
    let eflat = Chord::new(Note::try_from("Eb").unwrap(), ChordQuality::Major, ChordPosition::Root);
    assert!(mode.chord_numeral(&eflat).is_none());
}

#[test]
fn mode_identify_needs_root_repeated() {
    let notes: Vec<Note> = ["A", "B", "C", "D", "E", "F", "G", "A"].iter().map(|s| Note::try_from(*s).unwrap()).collect();
    let found = Mode::identify(&notes);
    assert!(found.iter().any(|m| m.scale == Scale::Major && m.degree == 5));
    for m in found.iter() {
        assert_eq!(m.root_note.get_index(), 9);
    }
    let plain: Vec<Note> = ["A", "B", "C"].iter().map(|s| Note::try_from(*s).unwrap()).collect();
    assert!(Mode::identify(&plain).is_empty());
}
