use cameron::chords::holds_sound;
use cameron::chords::Chord;
use cameron::chords::ChordQuality;
use cameron::notes::Note;
use cameron::notes::WhiteNote;
use cameron::scales::Scale;
use cameron::scales::ScaleType;

fn written(note: &Note) -> String {
    match note {
        Note::WhiteNote(letter) => format!("{:?}", letter),
        Note::Sharp(letter) => format!("{:?}#", letter),
        Note::Flat(letter) => format!("{:?}b", letter),
    }
}

fn symbol(chord: &Chord) -> String {
    format!("{}{}", written(&chord.root), chord.quality.suffix())
}

fn symbols(chords: &Vec<Chord>) -> Vec<String> {
    chords.iter().map(symbol).collect()
}

fn spelled(notes: &Vec<Note>) -> Vec<String> {
    notes.iter().map(written).collect()
}

#[test]
fn chord_notes_are_spelled_letter_by_letter() {
    let notes = Chord::new(Note::WhiteNote(WhiteNote::D), ChordQuality::Major).get_notes();
    assert_eq!(spelled(&notes), vec!["D", "F#", "A"]);
    let notes = Chord::new(Note::WhiteNote(WhiteNote::C), ChordQuality::Major).get_notes();
    assert_eq!(spelled(&notes), vec!["C", "E", "G"]);
    let notes = Chord::new(Note::WhiteNote(WhiteNote::C), ChordQuality::Minor).get_notes();
    assert_eq!(spelled(&notes), vec!["C", "Eb", "G"]);
    let notes = Chord::new(Note::WhiteNote(WhiteNote::C), ChordQuality::DominantSeventh).get_notes();
    assert_eq!(spelled(&notes), vec!["C", "E", "G", "Bb"]);
    let notes = Chord::new(Note::Flat(WhiteNote::G), ChordQuality::DominantSeventh).get_notes();
    assert_eq!(spelled(&notes), vec!["Gb", "Bb", "Db", "Fb"]);
    let notes = Chord::new(Note::Sharp(WhiteNote::F), ChordQuality::MajorSeventh).get_notes();
    assert_eq!(spelled(&notes), vec!["F#", "A#", "C#", "E#"]);
    let notes = Chord::new(Note::Sharp(WhiteNote::E), ChordQuality::MinorSeventh).get_notes();
    assert_eq!(spelled(&notes), vec!["E#", "G#", "B#", "D#"]);
    let notes = Chord::new(Note::Flat(WhiteNote::C), ChordQuality::MajorSeventh).get_notes();
    assert_eq!(spelled(&notes), vec!["Cb", "Eb", "Gb", "Bb"]);
}

#[test]
fn chords_that_need_double_accidentals_cannot_be_spelled() {
    let refused: Vec<String> = (0..105)
        .map(Chord::from_rank)
        .filter(|chord| !chord.is_spellable())
        .map(|chord| symbol(&chord))
        .collect();
    assert_eq!(
        refused,
        vec![
            "Cbm", "Cb7", "Cbm7", "D#", "D#7", "D#maj7", "E#", "E#7", "E#maj7", "Fbm", "Fb7",
            "Fbm7", "G#maj7", "Gbm", "Gbm7", "A#", "A#7", "A#maj7", "B#", "B#m", "B#7", "B#maj7",
            "B#m7",
        ]
    );
}

#[test]
fn chords_on_plain_letters_can_be_spelled() {
    for rank in 0..105 {
        let chord = Chord::from_rank(rank);
        if matches!(chord.root, Note::WhiteNote(_)) {
            assert!(chord.is_spellable());
            let notes = chord.get_notes();
            let expected = match chord.quality {
                ChordQuality::Major | ChordQuality::Minor => 3,
                _ => 4,
            };
            assert_eq!(notes.len(), expected);
        }
    }
}

#[test]
fn from_rank_lists_the_chords_in_order() {
    assert_eq!(symbol(&Chord::from_rank(0)), "C");
    assert_eq!(symbol(&Chord::from_rank(1)), "Cm");
    assert_eq!(symbol(&Chord::from_rank(4)), "Cm7");
    assert_eq!(symbol(&Chord::from_rank(5)), "C#");
    assert_eq!(symbol(&Chord::from_rank(13)), "Cbmaj7");
    assert_eq!(symbol(&Chord::from_rank(104)), "Bbm7");
    assert_eq!(symbol(&Chord::from_rank(105)), "C");
    assert_eq!(ChordQuality::from_rank(2), ChordQuality::DominantSeventh);
    assert_eq!(ChordQuality::from_rank(8), ChordQuality::MajorSeventh);
}

#[test]
fn chords_compare_by_sound_of_root_and_quality() {
    let c_sharp = Chord::new(Note::Sharp(WhiteNote::C), ChordQuality::Major);
    let d_flat = Chord::new(Note::Flat(WhiteNote::D), ChordQuality::Major);
    let d_flat_minor = Chord::new(Note::Flat(WhiteNote::D), ChordQuality::Minor);
    assert!(c_sharp == d_flat);
    assert!(d_flat != d_flat_minor);
    assert!(c_sharp != Chord::new(Note::WhiteNote(WhiteNote::C), ChordQuality::Major));
}

#[test]
fn holds_sound_goes_by_sound() {
    let notes = vec![Note::WhiteNote(WhiteNote::C), Note::WhiteNote(WhiteNote::E)];
    assert!(holds_sound(&notes, &Note::Sharp(WhiteNote::B)));
    assert!(holds_sound(&notes, &Note::Flat(WhiteNote::F)));
    assert!(!holds_sound(&notes, &Note::WhiteNote(WhiteNote::G)));
    assert!(!holds_sound(&Vec::new(), &Note::WhiteNote(WhiteNote::G)));
}

#[test]
fn has_notes_allows_more_notes_in_the_chord() {
    let c7 = Chord::new(Note::WhiteNote(WhiteNote::C), ChordQuality::DominantSeventh);
    assert!(c7.has_notes(&vec![Note::WhiteNote(WhiteNote::C), Note::WhiteNote(WhiteNote::G)]));
    assert!(c7.has_notes(&vec![Note::Sharp(WhiteNote::A)]));
    assert!(c7.has_notes(&Vec::new()));
    assert!(!c7.has_notes(&vec![Note::WhiteNote(WhiteNote::C), Note::WhiteNote(WhiteNote::B)]));
    let d_sharp = Chord::new(Note::Sharp(WhiteNote::D), ChordQuality::Major);
    assert!(!d_sharp.has_notes(&Vec::new()));
    assert!(!d_sharp.has_notes(&vec![Note::Sharp(WhiteNote::D)]));
}

#[test]
fn reverse_lookup_finds_exactly_the_chords_that_hold_the_notes() {
    let notes = vec![
        Note::WhiteNote(WhiteNote::C),
        Note::WhiteNote(WhiteNote::E),
        Note::WhiteNote(WhiteNote::G),
    ];
    assert_eq!(symbols(&Chord::reverse_lookup(&notes)), vec!["C", "C7", "Cmaj7", "Am7"]);
    let notes = vec![
        Note::WhiteNote(WhiteNote::A),
        Note::WhiteNote(WhiteNote::C),
        Note::WhiteNote(WhiteNote::E),
    ];
    assert_eq!(symbols(&Chord::reverse_lookup(&notes)), vec!["Fmaj7", "Am", "Am7"]);
    let notes = vec![Note::WhiteNote(WhiteNote::C), Note::WhiteNote(WhiteNote::D)];
    assert_eq!(symbols(&Chord::reverse_lookup(&notes)), vec!["D7", "Dm7"]);
    let notes = vec![
        Note::WhiteNote(WhiteNote::C),
        Note::WhiteNote(WhiteNote::E),
        Note::WhiteNote(WhiteNote::G),
        Note::WhiteNote(WhiteNote::B),
        Note::WhiteNote(WhiteNote::D),
    ];
    assert!(Chord::reverse_lookup(&notes).is_empty());
}

#[test]
fn reverse_lookup_goes_by_sound_and_keeps_each_spelling_of_a_root() {
    let notes = vec![
        Note::Sharp(WhiteNote::B),
        Note::Flat(WhiteNote::F),
        Note::WhiteNote(WhiteNote::G),
    ];
    assert_eq!(symbols(&Chord::reverse_lookup(&notes)), vec!["C", "C7", "Cmaj7", "Am7"]);
    let notes = vec![
        Note::Sharp(WhiteNote::C),
        Note::WhiteNote(WhiteNote::F),
        Note::Sharp(WhiteNote::G),
    ];
    assert_eq!(
        symbols(&Chord::reverse_lookup(&notes)),
        vec!["C#", "C#7", "C#maj7", "Db", "Db7", "Dbmaj7", "A#m7", "Bbm7"]
    );
}

#[test]
fn reverse_lookup_of_no_notes_gives_every_chord_that_can_be_spelled() {
    let chords = Chord::reverse_lookup(&Vec::new());
    assert_eq!(chords.len(), 82);
    let names = symbols(&chords);
    for (i, name) in names.iter().enumerate() {
        assert!(!names[..i].contains(name));
    }
    for chord in &chords {
        assert!(chord.is_spellable());
    }
}

#[test]
fn reverse_lookup_of_one_note() {
    let chords = Chord::reverse_lookup(&vec![Note::WhiteNote(WhiteNote::C)]);
    assert_eq!(
        symbols(&chords),
        vec![
            "C", "Cm", "C7", "Cmaj7", "Cm7", "C#maj7", "D7", "Dm7", "Dbmaj7", "E#m", "E#m7", "F",
            "Fm", "F7", "Fmaj7", "Fm7", "G#", "G#7", "Am", "Am7", "Ab", "Ab7", "Abmaj7",
        ]
    );
}

#[test]
fn scale_notes_are_spelled_letter_by_letter() {
    let notes = Scale::new(Note::WhiteNote(WhiteNote::A), ScaleType::Major).get_notes();
    assert_eq!(spelled(&notes), vec!["A", "B", "C#", "D", "E", "F#", "G#"]);
    let notes = Scale::new(Note::WhiteNote(WhiteNote::A), ScaleType::Minor).get_notes();
    assert_eq!(spelled(&notes), vec!["A", "B", "C", "D", "E", "F", "G"]);
    let notes = Scale::new(Note::Flat(WhiteNote::G), ScaleType::Major).get_notes();
    assert_eq!(spelled(&notes), vec!["Gb", "Ab", "Bb", "Cb", "Db", "Eb", "F"]);
    let notes = Scale::new(Note::Sharp(WhiteNote::C), ScaleType::Major).get_notes();
    assert_eq!(spelled(&notes), vec!["C#", "D#", "E#", "F#", "G#", "A#", "B#"]);
    let notes = Scale::new(Note::Flat(WhiteNote::A), ScaleType::Minor).get_notes();
    assert_eq!(spelled(&notes), vec!["Ab", "Bb", "Cb", "Db", "Eb", "Fb", "Gb"]);
    let notes = Scale::new(Note::WhiteNote(WhiteNote::F), ScaleType::Major).get_notes();
    assert_eq!(spelled(&notes), vec!["F", "G", "A", "Bb", "C", "D", "E"]);
}

#[test]
fn scales_that_need_double_accidentals_cannot_be_spelled() {
    let mut refused = Vec::new();
    for rank in 0..21 {
        for scale_type in [ScaleType::Major, ScaleType::Minor] {
            let scale = Scale::new(Note::from_rank(rank), scale_type);
            if !scale.is_spellable() {
                refused.push(format!("{} {}", written(&scale.root), scale_type.word()));
            } else {
                assert_eq!(scale.get_notes().len(), 7);
            }
        }
    }
    assert_eq!(
        refused,
        vec![
            "Cb minor", "D# major", "Db minor", "E# major", "E# minor", "Fb major", "Fb minor",
            "G# major", "Gb minor", "A# major", "B# major", "B# minor",
        ]
    );
}
