use musicmaster::{all_note_accidentals, all_note_letters, next_note_letter, previous_note_letter};
use musicmaster::{Note, NoteAccidental, NoteLetter};

#[test]
fn note_from() {
    let note: Note = Note::try_from("Ab").unwrap();
    assert_eq!(note, Note::new(NoteLetter::G, NoteAccidental::Sharp));
}

#[test]
fn note_string() {
    assert_eq!(Note::new(NoteLetter::C, NoteAccidental::Natural).to_string(), String::from("C"));
    assert_eq!(Note::new(NoteLetter::G, NoteAccidental::Sharp).to_string(), String::from("G#"));
    assert_eq!(Note::new(NoteLetter::E, NoteAccidental::Natural).to_string(), String::from("E"));
    assert_eq!(Note::new(NoteLetter::G, NoteAccidental::Flat).to_string(), String::from("Gb"));
}

#[test]
fn note_previous() {
    assert_eq!(Note::new(NoteLetter::C, NoteAccidental::Natural).previous(), Note::try_from("B").unwrap());
    assert_eq!(Note::new(NoteLetter::G, NoteAccidental::Sharp).previous(), Note::try_from("G").unwrap());
}

#[test]
fn note_next() {
    assert_eq!(Note::new(NoteLetter::E, NoteAccidental::Natural).next(), Note::try_from("F").unwrap());
    assert_eq!(Note::new(NoteLetter::G, NoteAccidental::Flat).next(), Note::try_from("G").unwrap());
}

#[test]
fn note_equivalent() {
    let mut ref_note = Note::new(NoteLetter::C, NoteAccidental::Sharp);
    for note in ref_note.equivalents().into_iter() {
        assert_eq!(ref_note.get_index(), note.get_index());
    }
    ref_note = Note::new(NoteLetter::F, NoteAccidental::Flat);
    for note in ref_note.equivalents().into_iter() {
        assert_eq!(ref_note.get_index(), note.get_index());
    }
    ref_note = Note::new(NoteLetter::E, NoteAccidental::Natural);
    for note in ref_note.equivalents().into_iter() {
        assert_eq!(ref_note.get_index(), note.get_index());
    }
    ref_note = Note::new(NoteLetter::G, NoteAccidental::Flat);
    for note in ref_note.equivalents().into_iter() {
        assert_eq!(ref_note.get_index(), note.get_index());
    }
}

#[test]
fn note_index() {
    assert_eq!(Note::try_from("E").unwrap().get_index(), 4);
    assert_eq!(Note::try_from("F#").unwrap().get_index(), 6);
    assert_eq!(Note::try_from("Bb").unwrap().get_index(), 10);
}

#[test]
fn note_numeral() {
    let root_note = Note::new(NoteLetter::C, NoteAccidental::Natural);
    assert_eq!(Note::new(NoteLetter::C, NoteAccidental::Sharp).as_numeral(&root_note, 1), String::from("2b"));
    assert_eq!(Note::new(NoteLetter::F, NoteAccidental::Flat).as_numeral(&root_note, 2), String::from("3"));
    assert_eq!(Note::new(NoteLetter::E, NoteAccidental::Natural).as_numeral(&root_note, 2), String::from("3"));
    assert_eq!(Note::new(NoteLetter::G, NoteAccidental::Flat).as_numeral(&root_note, 4), String::from("5b"));
}

fn every_note() -> Vec<Note> {
    let mut res = Vec::new();
    for letter in all_note_letters() {
        for accidental in all_note_accidentals() {
            res.push(Note::new(letter, accidental));
        }
    }
    res
}

#[test]
fn note_step_round_trip_keeps_pitch_class() {
    for n in every_note() {
        assert_eq!(n.next().previous().get_index(), n.get_index());
    }
    let b_sharp = Note::new(NoteLetter::B, NoteAccidental::Sharp);
    assert_eq!(b_sharp.next().previous().to_string(), "C");
}

#[test]
fn note_g_flat_has_f_sharp() {
    let eq = Note::new(NoteLetter::G, NoteAccidental::Flat).equivalents();
    assert!(eq.iter().any(|n| n.get_letter() == NoteLetter::F && n.get_accidental() == NoteAccidental::Sharp));
    assert_eq!(eq.len(), 1);
}

#[test]
fn note_equivalent_counts() {
    assert_eq!(Note::new(NoteLetter::C, NoteAccidental::Natural).equivalents()[0].to_string(), "B#");
    assert!(Note::new(NoteLetter::D, NoteAccidental::Natural).equivalents().is_empty());
    assert_eq!(Note::new(NoteLetter::F, NoteAccidental::Flat).equivalents()[0].to_string(), "E");
    for n in every_note() {
        let eq = n.equivalents();
        assert!(eq.len() <= 1);
        for m in eq {
            assert_ne!(m.get_letter(), n.get_letter());
            assert_eq!(m, n);
        }
    }
}

#[test]
fn note_stepping_spelling() {
    let names = |n: Note| n.to_string();
    assert_eq!(names(Note::new(NoteLetter::C, NoteAccidental::Natural).next()), "C#");
    assert_eq!(names(Note::new(NoteLetter::D, NoteAccidental::Natural).previous()), "Db");
    assert_eq!(names(Note::new(NoteLetter::B, NoteAccidental::Natural).next()), "C");
    assert_eq!(names(Note::new(NoteLetter::C, NoteAccidental::Flat).previous()), "Bb");
}

#[test]
fn note_parsing_failures() {
    let err = Note::try_from("Cb").unwrap_err();
    assert_eq!(err.token, "Cb");
    assert!(Note::try_from("H").is_err());
    assert_eq!(NoteLetter::try_from("G").unwrap(), NoteLetter::G);
    assert_eq!(NoteLetter::try_from("g").unwrap_err().token, "g");
}

#[test]
fn note_letters_cycle() {
    assert_eq!(next_note_letter(&NoteLetter::G), NoteLetter::A);
    assert_eq!(previous_note_letter(&NoteLetter::A), NoteLetter::G);
    assert_eq!(all_note_letters().len(), 7);
    assert_eq!(all_note_accidentals(), vec![NoteAccidental::Natural, NoteAccidental::Flat, NoteAccidental::Sharp]);
}

#[test]
fn note_order_by_pitch_class() {
    let c = Note::try_from("C").unwrap();
    let d = Note::try_from("D").unwrap();
    assert!(c < d);
    assert!(d > c);
    let b_sharp = Note::new(NoteLetter::B, NoteAccidental::Sharp);
    assert!(!(b_sharp < c));
    assert_eq!(b_sharp, c);
    assert!(!(Note::new(NoteLetter::B, NoteAccidental::Natural) > Note::new(NoteLetter::C, NoteAccidental::Flat)));
}
