use musicmaster::scale::{Scale, ScaleQuality};
use musicmaster::{Chord, ChordPosition, ChordQuality, Note};

fn notes_of(names: &[&str]) -> Vec<Note> {
    names.iter().map(|s| Note::try_from(*s).unwrap()).collect()
}

fn names(notes: &[Note]) -> Vec<String> {
    notes.iter().map(|n| n.to_string()).collect()
}

#[test]
fn factory_rotates_steps() {
    let scale = Scale::factory(Note::try_from("D").unwrap(), ScaleQuality::Major, 1);
    let steps: Vec<u32> = scale.intervals.iter().map(|i| i.get_value()).collect();
    assert_eq!(steps, vec![2, 1, 2, 2, 2, 1, 2]);
    assert_eq!(scale.print(), "D Dorian");
    assert_eq!(names(&scale.get_notes(true)), vec!["D", "E", "F", "G", "A", "B", "C"]);
    let roots: Vec<u32> = scale.get_root_intervals().iter().map(|i| i.get_value()).collect();
    assert_eq!(roots, vec![0, 2, 3, 5, 7, 9, 10]);
}

#[test]
fn spelling_only_when_asked() {
    let scale = Scale::factory(Note::try_from("F").unwrap(), ScaleQuality::Major, 0);
    assert_eq!(names(&scale.get_notes(true)), vec!["F", "G", "A", "Bb", "C", "D", "E"]);
    assert_eq!(names(&scale.get_notes(false)), vec!["F", "G", "A", "A#", "C", "D", "E"]);
}

#[test]
fn identify_exact_pitch_sequence() {
    let found = Scale::identify(&notes_of(&["C", "D", "E", "F", "G", "A", "B"]));
    assert_eq!(found.len(), 1);
    assert_eq!(found[0].scale_quality, ScaleQuality::Major);
    assert_eq!(found[0].root_note.to_string(), "C");
    assert!(Scale::identify(&notes_of(&["C", "D", "E"])).is_empty());
    let minor = Scale::identify(&notes_of(&["A", "B", "C", "D", "E", "F", "G#"]));
    assert_eq!(minor.len(), 1);
    assert_eq!(minor[0].scale_quality, ScaleQuality::HarmonicMinor);
}

#[test]
fn match_rating_and_containment() {
    let scale = Scale::factory(Note::try_from("C").unwrap(), ScaleQuality::Major, 0);
    assert_eq!(scale.match_rating(&notes_of(&["C", "E", "G"])), 4);
    assert_eq!(scale.match_rating(&notes_of(&["C", "D", "E", "F", "G", "A", "B"])), 0);
    assert_eq!(scale.match_rating(&Vec::new()), 7);
    assert!(scale.matches_notes(&notes_of(&["C", "E", "G"])));
    assert!(!scale.matches_notes(&notes_of(&["C", "Eb"])));
}

#[test]
fn proximity_groups_by_rating() {
    let scale = Scale::factory(Note::try_from("C").unwrap(), ScaleQuality::Major, 0);
    let near = scale.proximity_scales();
    assert!(!near.contains_key(&0));
    assert!(near.keys().all(|k| (1..4).contains(k)));
    let ones = near.get(&1).unwrap();
    assert!(ones.iter().any(|s| s.scale_quality == ScaleQuality::Major && s.root_note.to_string() == "G"));
    assert!(ones.iter().any(|s| s.scale_quality == ScaleQuality::Major && s.root_note.to_string() == "F"));
    for (rating, list) in near.iter() {
        for s in list {
            assert_eq!(scale.match_rating(&s.get_notes(false)), *rating);
        }
    }
}

#[test]
fn root_shift_moves_the_root() {
    let scale = Scale::factory(Note::try_from("C").unwrap(), ScaleQuality::Major, 0);
    let shifted = scale.root_shift(&Note::try_from("A").unwrap()).unwrap();
    assert_eq!(shifted.mode_degree, 5);
    assert_eq!(shifted.print(), "A Aeolian");
    assert_eq!(names(&shifted.get_notes(true)), vec!["A", "B", "C", "D", "E", "F", "G"]);
    assert!(scale.root_shift(&Note::try_from("F#").unwrap()).is_none());
}

#[test]
fn scale_chords_and_numerals() {
    let scale = Scale::factory(Note::try_from("C").unwrap(), ScaleQuality::Major, 0);
    let triads: Vec<String> = scale.get_chords(false).into_iter().map(|c| c.unwrap().to_string()).collect();
    assert_eq!(triads, vec!["C", "Dm", "Em", "F", "G", "Am", "Bº"]);
    let aminor = Chord::new(Note::try_from("A").unwrap(), ChordQuality::Minor, ChordPosition::Root);
    assert_eq!(scale.print_chord_numeral(&aminor).unwrap(), "VI");
    let dmajor = Chord::new(Note::try_from("D").unwrap(), ChordQuality::Major, ChordPosition::Root);
    assert!(scale.print_chord_numeral(&dmajor).is_none());
    assert_eq!(Scale::factory(Note::try_from("C").unwrap(), ScaleQuality::Diminished, 3).print_quality(), "Dominant Diminished");
}

#[test]
fn scale_quality_parsing() {
    assert_eq!(ScaleQuality::from_str("WholeTone").unwrap(), ScaleQuality::WholeTone);
    let err = ScaleQuality::from_str("Dorian").unwrap_err();
    assert_eq!(err.details, "Could not convert Dorian to a ScaleQuality");
}

#[test]
fn scale_quality_parses_through_from_str() {
    let q: ScaleQuality = "HarmonicMinor".parse().unwrap();
    assert_eq!(q, ScaleQuality::HarmonicMinor);
    assert!("harmonic".parse::<ScaleQuality>().is_err());
}
