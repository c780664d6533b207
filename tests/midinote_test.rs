use musicmaster::{MIDINote, Note, NoteAccidental, NoteLetter};

#[test]
fn midi_numbers_round_trip() {
    for n in 0..128u32 {
        let m = MIDINote::from_midi_number(n).unwrap();
        assert_eq!(m.get_midi_number(), Some(n));
    }
    assert!(MIDINote::from_midi_number(128).is_none());
    assert_eq!(MIDINote::from_midi_number(60).unwrap().to_string(), "C4");
    assert_eq!(MIDINote::from_midi_number(0).unwrap().to_string(), "C-1");
}

#[test]
fn midi_steps_cross_octaves() {
    let b3 = MIDINote::new(NoteLetter::B, NoteAccidental::Natural, 3);
    assert_eq!(b3.next().to_string(), "C4");
    assert_eq!(b3.next().get_index(), 60);
    let c4 = MIDINote::new(NoteLetter::C, NoteAccidental::Natural, 4);
    assert_eq!(c4.previous().to_string(), "B3");
    let c_flat = MIDINote::new(NoteLetter::C, NoteAccidental::Flat, 4);
    assert_eq!(c_flat.get_index(), 59);
    assert_eq!(c_flat.next().get_index(), 60);
}

#[test]
fn midi_equivalents_keep_the_number() {
    let c4 = MIDINote::from_note(Note::new(NoteLetter::C, NoteAccidental::Natural), 4);
    let eq = c4.equivalents();
    assert_eq!(eq.len(), 1);
    assert_eq!(eq[0].to_string(), "B#3");
    assert_eq!(eq[0], c4);
    assert!(MIDINote::new(NoteLetter::D, NoteAccidental::Natural, 2).equivalents().is_empty());
    assert_eq!(MIDINote::new(NoteLetter::A, NoteAccidental::Natural, 9).get_midi_number(), None);
}

#[test]
fn midi_order_by_number() {
    let c4 = MIDINote::new(NoteLetter::C, NoteAccidental::Natural, 4);
    let b3 = MIDINote::new(NoteLetter::B, NoteAccidental::Natural, 3);
    assert!(b3 < c4);
    assert!(MIDINote::new(NoteLetter::B, NoteAccidental::Sharp, 3) == c4);
}
