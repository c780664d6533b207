use musicmaster::{Interval, Note, NoteAccidental, NoteLetter};

#[test]
fn interval_string() {
    assert_eq!(Interval::new(4).to_string(), String::from("M3"));
    assert_eq!(Interval::new(7).to_string(), String::from("P5"));
    assert_eq!(Interval::new(10).to_string(), String::from("m7"));
    assert_eq!(Interval::new(2).to_string(), String::from("M2"));
}

#[test]
fn interval_from_notes() {
    let cnote = Note::new(NoteLetter::C, NoteAccidental::Natural);
    let fnote = Note::new(NoteLetter::F, NoteAccidental::Natural);
    assert_eq!(Interval::from_notes(&cnote, &fnote).get_value(), 5);
    assert_eq!(Interval::from_notes(&fnote, &cnote).get_value(), 7);
}

#[test]
fn interval_name_round_trip() {
    for v in 0..12u32 {
        let name = Interval::new(v).to_string();
        assert_eq!(Interval::from_name(&name), Some(Interval::new(v)));
    }
    assert_eq!(Interval::from_name("M7"), Some(Interval::new(11)));
    assert_eq!(Interval::from_name("A4"), None);
    assert_eq!(Interval::from_name(""), None);
}

#[test]
fn interval_names_reduce_modulo_octave() {
    assert_eq!(Interval::new(12).to_string(), "P1");
    assert_eq!(Interval::new(16).to_string(), "M3");
    assert_eq!(Interval::new(6).to_string(), "d5");
    assert_eq!(Interval::new(16).get_value(), 16);
}

#[test]
fn interval_apply_steps_up() {
    let c = Note::new(NoteLetter::C, NoteAccidental::Natural);
    assert_eq!(Interval::new(3).apply(&c).to_string(), "D#");
    assert_eq!(Interval::new(0).apply(&c).to_string(), "C");
    assert_eq!(Interval::new(13).apply(&c).to_string(), "C#");
    let bflat = Note::new(NoteLetter::B, NoteAccidental::Flat);
    assert_eq!(Interval::new(2).apply(&bflat).to_string(), "C");
}
