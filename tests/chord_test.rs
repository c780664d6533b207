use musicmaster::{Chord, ChordPosition, ChordQuality, Interval, Note, NoteAccidental, NoteLetter};

fn notes_of(names: &[&str]) -> Vec<Note> {
    names.iter().map(|s| Note::try_from(*s).unwrap()).collect()
}

#[test]
fn chord_string() {
    let root_note = Note::new(NoteLetter::C, NoteAccidental::Natural);
    let chord = Chord::new(root_note, ChordQuality::Minor, ChordPosition::Root);
    assert_eq!(chord.to_string(), String::from("Cm"));
}

#[test]
fn chord_notes() {
    let mut chord = Chord::new(Note::try_from("E").unwrap(), ChordQuality::Minor, ChordPosition::SecondInversion);
    assert!(chord.get_notes().into_iter().zip(["B", "E", "G"].iter().map(|&s| Note::try_from(s).unwrap())).all(|elt| elt.0 == elt.1));
    chord = Chord::new(Note::try_from("C").unwrap(), ChordQuality::Diminished, ChordPosition::Root);
    assert!(chord.get_notes().into_iter().zip(["C", "Eb", "Gb"].iter().map(|&s| Note::try_from(s).unwrap())).all(|elt| elt.0 == elt.1));
}

#[test]
fn chord_identify() {
    let mut notes: Vec<Note> = ["C", "E", "A"].iter().map(|s| Note::try_from(*s).unwrap()).collect();
    for chord in Chord::identify(&notes).into_iter() {
        assert_eq!(chord, Chord::new(Note::new(NoteLetter::A, NoteAccidental::Natural), ChordQuality::Minor, ChordPosition::FirstInversion));
    }
    notes = ["F", "Ab", "C"].iter().map(|s| Note::try_from(*s).unwrap()).collect();
    for chord in Chord::identify(&notes).into_iter() {
        assert_eq!(chord, Chord::new(Note::new(NoteLetter::F, NoteAccidental::Natural), ChordQuality::Minor, ChordPosition::Root));
    }
    notes = ["C", "Eb", "Gb", "A"].iter().map(|s| Note::try_from(*s).unwrap()).collect();
    for chord in Chord::identify(&notes).into_iter() {
        assert_eq!(chord, Chord::new(Note::new(NoteLetter::C, NoteAccidental::Natural), ChordQuality::DiminishedSeventh, ChordPosition::Root));
    }
}

#[test]
fn chord_notes_exact_spelling() {
    let chord = Chord::new(Note::try_from("E").unwrap(), ChordQuality::Minor, ChordPosition::SecondInversion);
    let names: Vec<String> = chord.get_notes().iter().map(|n| n.to_string()).collect();
    assert_eq!(names, vec!["B", "E", "G"]);
    let chord = Chord::new(Note::try_from("C").unwrap(), ChordQuality::Diminished, ChordPosition::Root);
    let names: Vec<String> = chord.get_notes().iter().map(|n| n.to_string()).collect();
    assert_eq!(names, vec!["C", "D#", "F#"]);
    assert_eq!(chord.get_notes().len(), 3);
}

#[test]
fn chord_equality_by_quality_and_position() {
    let c = Note::try_from("C").unwrap();
    let g = Note::try_from("G").unwrap();
    let a = Chord::new(c, ChordQuality::Major, ChordPosition::Root);
    assert_eq!(a, Chord::new(c, ChordQuality::Major, ChordPosition::Root));
    assert_ne!(a, Chord::new(c, ChordQuality::Minor, ChordPosition::Root));
    assert_eq!(a, Chord::new(g, ChordQuality::Major, ChordPosition::Root));
    assert_ne!(a, Chord::new(c, ChordQuality::Major, ChordPosition::FirstInversion));
    assert_ne!(a, Chord::new(c, ChordQuality::DominantSeventh, ChordPosition::Root));
}

#[test]
fn chord_identify_roots_every_note() {
    let notes = notes_of(&["C", "E", "A"]);
    let found = Chord::identify(&notes);
    assert_eq!(found.len(), 3);
    assert_eq!(found[0].to_string(), "Cm");
    assert_eq!(found[2].to_string(), "Am");
    let none = Chord::identify(&notes_of(&["C", "C#", "D"]));
    assert!(none.is_empty());
    assert!(Chord::identify(&Vec::new()).is_empty());
}

#[test]
fn chord_tables_are_mutual_inverses() {
    let qualities = [
        ChordQuality::Major, ChordQuality::Minor, ChordQuality::Diminished, ChordQuality::Augmented,
        ChordQuality::SuspendedTwo, ChordQuality::SuspendedFour, ChordQuality::FlatFive,
        ChordQuality::SuspendedTwoFlatFive, ChordQuality::DominantSeventh, ChordQuality::MajorSeventh,
        ChordQuality::MinorSeventh, ChordQuality::DiminishedSeventh, ChordQuality::AugmentedSeventh,
        ChordQuality::MajorSeventhFlatFive, ChordQuality::MinorSeventhFlatFive,
        ChordQuality::DominantSeventhFlatFive, ChordQuality::MinorMajorSeventh,
        ChordQuality::AugmentedMajorSeventh, ChordQuality::SuspendedTwoSuspendedFour,
    ];
    let positions = [ChordPosition::Root, ChordPosition::FirstInversion, ChordPosition::SecondInversion, ChordPosition::ThirdInversion];
    let root = Note::try_from("D").unwrap();
    let mut defined = 0;
    for q in qualities.iter() {
        for p in positions.iter() {
            let chord = Chord::new(root, *q, *p);
            let steps = chord.get_intervals();
            if steps.is_empty() {
                assert!(Chord::from_intervals(root, &steps).is_none());
                continue;
            }
            defined += 1;
            let back = Chord::from_intervals(root, &steps).unwrap();
            assert_eq!(back.get_quality(), *q);
            assert_eq!(back.get_intervals(), steps);
        }
    }
    assert_eq!(defined, 58);
    let minor_major = vec![Interval::new(3), Interval::new(4), Interval::new(4)];
    assert_eq!(Chord::from_intervals(root, &minor_major).unwrap().get_quality(), ChordQuality::MinorMajorSeventh);
}

#[test]
fn chord_quality_from_cycle() {
    let cycle = vec![Interval::new(4), Interval::new(3), Interval::new(5)];
    assert_eq!(ChordQuality::try_from(&cycle).unwrap(), ChordQuality::Major);
    let cycle = vec![Interval::new(2), Interval::new(3), Interval::new(2), Interval::new(5)];
    assert_eq!(ChordQuality::try_from(&cycle).unwrap(), ChordQuality::SuspendedTwoSuspendedFour);
    let bad = vec![Interval::new(4), Interval::new(3)];
    assert!(ChordQuality::try_from(&bad).is_err());
}

#[test]
fn chord_intervals_from_root_and_names() {
    let chord = Chord::new(Note::try_from("G").unwrap(), ChordQuality::DominantSeventh, ChordPosition::Root);
    let values: Vec<u32> = chord.get_intervals_from_root().iter().map(|i| i.get_value()).collect();
    assert_eq!(values, vec![0, 4, 7, 10]);
    assert_eq!(chord.to_string(), "G7");
    assert_eq!(Chord::new(Note::try_from("F#").unwrap(), ChordQuality::Diminished, ChordPosition::Root).to_string(), "F#º");
    assert_eq!(Chord::new(Note::try_from("Bb").unwrap(), ChordQuality::MinorMajorSeventh, ChordPosition::Root).to_string(), "BbmMaj7");
    assert_eq!(chord.get_root().to_string(), "G");
    let inverted = Chord::new(Note::try_from("C").unwrap(), ChordQuality::DominantSeventh, ChordPosition::ThirdInversion);
    let names: Vec<String> = inverted.get_notes().iter().map(|n| n.to_string()).collect();
    assert_eq!(names, vec!["A#", "C", "E", "G"]);
}

#[test]
fn chord_numerals() {
    let c = Note::try_from("C").unwrap();
    let major = |root: &str| Chord::new(Note::try_from(root).unwrap(), ChordQuality::Major, ChordPosition::Root);
    assert_eq!(major("C").as_numeral(&c, 0), "I");
    assert_eq!(major("Db").as_numeral(&c, 1), "bII");
    assert_eq!(major("D").as_numeral(&c, 2), "bbIII");
    assert_eq!(major("D").as_numeral(&c, 1), "II");
    assert_eq!(major("Eb").as_numeral(&c, 1), "#II");
    assert_eq!(major("F#").as_numeral(&c, 3), "#IV");
    assert_eq!(major("Gb").as_numeral(&c, 4), "bV");
    assert_eq!(major("B").as_numeral(&c, 6), "VII");
}
