//! Chords: a root and a quality, the notes they stand for, their symbols, and
//! the search for the chords that hold given notes.

use crate::notes::Interval;
use crate::notes::IntervalQuality;
use crate::notes::Note;
use crate::text::has_at;
use crate::text::starts_with_at;
use vstd::prelude::*;
use vstd::std_specs::cmp::PartialEqSpecImpl;
use vstd::string::*;

verus! {

/// Quality of a chord.
#[derive(Debug, Clone, Copy, PartialEq, Eq, Structural, Hash)]
pub enum ChordQuality {
    Major,
    Minor,
    DominantSeventh,
    MajorSeventh,
    MinorSeventh,
}

/// A chord: its root and its quality. The notes are computed from these.
#[derive(Debug, Clone, Copy)]
pub struct Chord {
    pub root: Note,
    pub quality: ChordQuality,
}

/// The major or minor third.
pub open spec fn third(quality: IntervalQuality) -> Interval {
    Interval { quality, number: 3 }
}

/// The perfect fifth.
pub open spec fn fifth() -> Interval {
    Interval { quality: IntervalQuality::Perfect, number: 5 }
}

/// The major or minor seventh.
pub open spec fn seventh(quality: IntervalQuality) -> Interval {
    Interval { quality, number: 7 }
}

/// Whether some note of `chord_notes` sounds as `note` does.
pub open spec fn sounds_in(chord_notes: Seq<Note>, note: Note) -> bool {
    exists|j: int| 0 <= j < chord_notes.len() && #[trigger] chord_notes[j].spec_index()
        == note.spec_index()
}

/// Whether every note of `notes` sounds as some note of `chord_notes` does.
pub open spec fn all_sound_in(chord_notes: Seq<Note>, notes: Seq<Note>) -> bool {
    forall|i: int| 0 <= i < notes.len() ==> sounds_in(chord_notes, #[trigger] notes[i])
}

impl ChordQuality {
    /// The intervals above the root that make up a chord of this quality, in
    /// rising order.
    pub open spec fn spec_intervals(self) -> Seq<Interval> {
        match self {
            ChordQuality::Major => seq![third(IntervalQuality::Major), fifth()],
            ChordQuality::Minor => seq![third(IntervalQuality::Minor), fifth()],
            ChordQuality::DominantSeventh => seq![
                third(IntervalQuality::Major),
                fifth(),
                seventh(IntervalQuality::Minor),
            ],
            ChordQuality::MajorSeventh => seq![
                third(IntervalQuality::Major),
                fifth(),
                seventh(IntervalQuality::Major),
            ],
            ChordQuality::MinorSeventh => seq![
                third(IntervalQuality::Minor),
                fifth(),
                seventh(IntervalQuality::Minor),
            ],
        }
    }

    /// What a chord symbol writes after the root for this quality.
    pub open spec fn spec_suffix(self) -> Seq<char> {
        match self {
            ChordQuality::Major => seq![],
            ChordQuality::Minor => seq!['m'],
            ChordQuality::DominantSeventh => seq!['7'],
            ChordQuality::MajorSeventh => seq!['m', 'a', 'j', '7'],
            ChordQuality::MinorSeventh => seq!['m', '7'],
        }
    }

    /// The quality that a text names from position `at` on. The suffixes are
    /// tried in the order `maj7`, `m7`, `7`, `m`, so that the longest that
    /// fits wins; where none stands there the quality is major.
    pub open spec fn spec_read_at(text: Seq<char>, at: int) -> ChordQuality {
        if has_at(text, at, ChordQuality::MajorSeventh.spec_suffix()) {
            ChordQuality::MajorSeventh
        } else if has_at(text, at, ChordQuality::MinorSeventh.spec_suffix()) {
            ChordQuality::MinorSeventh
        } else if has_at(text, at, ChordQuality::DominantSeventh.spec_suffix()) {
            ChordQuality::DominantSeventh
        } else if has_at(text, at, ChordQuality::Minor.spec_suffix()) {
            ChordQuality::Minor
        } else {
            ChordQuality::Major
        }
    }

    /// Place of the quality among the five.
    pub open spec fn spec_rank(self) -> nat {
        match self {
            ChordQuality::Major => 0,
            ChordQuality::Minor => 1,
            ChordQuality::DominantSeventh => 2,
            ChordQuality::MajorSeventh => 3,
            ChordQuality::MinorSeventh => 4,
        }
    }

    /// The quality at a place among the five, counted modulo 5.
    pub open spec fn spec_from_rank(rank: nat) -> ChordQuality {
        let r = rank % 5;
        if r == 0 {
            ChordQuality::Major
        } else if r == 1 {
            ChordQuality::Minor
        } else if r == 2 {
            ChordQuality::DominantSeventh
        } else if r == 3 {
            ChordQuality::MajorSeventh
        } else {
            ChordQuality::MinorSeventh
        }
    }

    /// The quality at a place among the five, counted modulo 5.
    pub fn from_rank(rank: u8) -> (quality: ChordQuality)
        ensures
            quality == ChordQuality::spec_from_rank(rank as nat),
    {
        let r = rank % 5;
        if r == 0 {
            ChordQuality::Major
        } else if r == 1 {
            ChordQuality::Minor
        } else if r == 2 {
            ChordQuality::DominantSeventh
        } else if r == 3 {
            ChordQuality::MajorSeventh
        } else {
            ChordQuality::MinorSeventh
        }
    }

    /// What a chord symbol writes after the root for this quality: nothing
    /// for major, `m`, `7`, `maj7`, `m7`.
    pub fn suffix(&self) -> (text: &'static str)
        ensures
            text@ == self.spec_suffix(),
    {
        proof {
            reveal_strlit("");
            reveal_strlit("m");
            reveal_strlit("7");
            reveal_strlit("maj7");
            reveal_strlit("m7");
        }
        let text = match self {
            ChordQuality::Major => "",
            ChordQuality::Minor => "m",
            ChordQuality::DominantSeventh => "7",
            ChordQuality::MajorSeventh => "maj7",
            ChordQuality::MinorSeventh => "m7",
        };
        assert(text@ =~= self.spec_suffix());
        text
    }

    /// Reads the quality that a text names from character position `at` on:
    /// the first of `maj7`, `m7`, `7`, `m` that stands there. Any other
    /// continuation, the end of the text too, reads as major.
    pub fn read_at(text: &str, at: usize) -> (quality: ChordQuality)
        ensures
            quality == ChordQuality::spec_read_at(text@, at as int),
    {
        if starts_with_at(text, at, ChordQuality::MajorSeventh.suffix()) {
            ChordQuality::MajorSeventh
        } else if starts_with_at(text, at, ChordQuality::MinorSeventh.suffix()) {
            ChordQuality::MinorSeventh
        } else if starts_with_at(text, at, ChordQuality::DominantSeventh.suffix()) {
            ChordQuality::DominantSeventh
        } else if starts_with_at(text, at, ChordQuality::Minor.suffix()) {
            ChordQuality::Minor
        } else {
            ChordQuality::Major
        }
    }
}

impl PartialEq for Chord {
    /// Two chords are equal when their roots sound the same and their
    /// qualities are the same.
    fn eq(&self, other: &Self) -> (equal: bool) {
        self.root == other.root && self.quality == other.quality
    }
}

impl PartialEqSpecImpl for Chord {
    open spec fn obeys_eq_spec() -> bool {
        true
    }

    open spec fn eq_spec(&self, other: &Self) -> bool {
        self.root.spec_index() == other.root.spec_index() && self.quality == other.quality
    }
}

impl Chord {
    /// Whether every note of the chord can be written with one accidental at
    /// most. D sharp major cannot: its third is F double sharp.
    pub open spec fn spec_is_spellable(self) -> bool {
        forall|i: int|
            0 <= i < self.quality.spec_intervals().len() ==> self.root.spec_can_go_up(
                #[trigger] self.quality.spec_intervals()[i],
            )
    }

    /// The notes of the chord: the root, then the note each interval of the
    /// quality above it, in rising order.
    pub open spec fn spec_notes(self) -> Seq<Note> {
        Seq::new(
            self.quality.spec_intervals().len() + 1,
            |i: int|
                if i == 0 {
                    self.root
                } else {
                    self.root.spec_up_interval(self.quality.spec_intervals()[i - 1])
                },
        )
    }

    /// The symbol of the chord: the text of the root, then the suffix of the
    /// quality.
    pub open spec fn spec_display(self) -> Seq<char> {
        self.root.spec_display() + self.quality.spec_suffix()
    }

    /// The chord that a symbol names: the note it begins with, then the
    /// quality read right after the note. No chord where no note stands at
    /// the start.
    pub open spec fn spec_from_str(s: Seq<char>) -> Option<Chord> {
        match Note::spec_from_str(s) {
            None => None,
            Some(root) => Some(
                Chord {
                    root,
                    quality: ChordQuality::spec_read_at(s, Note::spec_text_len(s) as int),
                },
            ),
        }
    }

    /// Whether the chord can be spelled and holds every one of `notes`, a
    /// note counting as held where a note of the chord sounds the same.
    pub open spec fn spec_has_notes(self, notes: Seq<Note>) -> bool {
        self.spec_is_spellable() && all_sound_in(self.spec_notes(), notes)
    }

    /// Place of the chord among the 105: the roots in their order, and for
    /// each root the five qualities.
    pub open spec fn spec_rank(self) -> nat {
        5 * self.root.spec_rank() + self.quality.spec_rank()
    }

    /// The chord at a place among the 105.
    pub open spec fn spec_from_rank(rank: nat) -> Chord {
        Chord {
            root: Note::spec_from_rank(rank / 5),
            quality: ChordQuality::spec_from_rank(rank % 5),
        }
    }

    /// The chords of places below `bound` that hold every one of `notes`, in
    /// the order of their places.
    pub open spec fn spec_lookup_below(notes: Seq<Note>, bound: nat) -> Seq<Chord>
        decreases bound,
    {
        if bound == 0 {
            Seq::empty()
        } else {
            let before = Chord::spec_lookup_below(notes, (bound - 1) as nat);
            let chord = Chord::spec_from_rank((bound - 1) as nat);
            if chord.spec_has_notes(notes) {
                before.push(chord)
            } else {
                before
            }
        }
    }

    /// Reading the symbol of a chord gives a chord of the same quality whose
    /// root sounds the same, and the very same chord unless the root's text
    /// is a neighbour's plain name.
    pub proof fn lemma_display_round_trip(self)
        ensures
            match Chord::spec_from_str(self.spec_display()) {
                Some(chord) => chord.quality == self.quality && chord.root.spec_index()
                    == self.root.spec_index() && (self.root.spec_reads_as_written() ==> chord
                    == self),
                None => false,
            },
    {
        let name = self.root.spec_display();
        let suffix = self.quality.spec_suffix();
        let text = self.spec_display();
        self.root.lemma_display_round_trip();
        assert(text.len() == name.len() + suffix.len());
        assert(forall|i: int| 0 <= i < name.len() ==> text[i] == name[i]);
        assert(forall|i: int| 0 <= i < suffix.len() ==> text[name.len() + i] == suffix[i]);
        assert(Note::spec_from_str(text) == Note::spec_from_str(name));
        assert(Note::spec_text_len(text) == name.len());
    }

    /// The notes of a chord that can be spelled stack thirds on the root:
    /// each takes the second letter after the one before, and sounds the
    /// semitones of its interval above the root.
    pub proof fn lemma_notes_stack_thirds(self, i: int)
        requires
            self.spec_is_spellable(),
            1 <= i < self.spec_notes().len(),
        ensures
            self.spec_notes()[0] == self.root,
            self.spec_notes()[i].spec_white_note() == self.root.spec_white_note().spec_nth_successor(
                (2 * i) as nat,
            ),
            self.spec_notes()[i].spec_index() == (self.root.spec_index()
                + self.quality.spec_intervals()[i - 1].spec_semitones()) % 12,
    {
        let interval = self.quality.spec_intervals()[i - 1];
        self.root.lemma_up_interval(interval);
    }

    /// A chord on a plain letter can always be spelled.
    pub proof fn lemma_plain_root_spellable(self)
        requires
            self.root is WhiteNote,
        ensures
            self.spec_is_spellable(),
    {
        reveal(Note::spec_can_go_up);
    }

    /// Every chord has a place below 105 and stands at its place.
    pub proof fn lemma_rank(self)
        ensures
            self.spec_rank() < 105,
            Chord::spec_from_rank(self.spec_rank()) == self,
    {
        self.root.lemma_rank();
    }

    /// The chord at a place below 105 has that place.
    pub proof fn lemma_from_rank(rank: nat)
        requires
            rank < 105,
        ensures
            Chord::spec_from_rank(rank).spec_rank() == rank,
    {
    }

    /// What one more place adds to the chords found below a bound: the chord
    /// at the bound where it holds the notes, else nothing.
    pub proof fn lemma_lookup_step(notes: Seq<Note>, bound: nat)
        ensures
            Chord::spec_lookup_below(notes, bound + 1) == if Chord::spec_from_rank(
                bound,
            ).spec_has_notes(notes) {
                Chord::spec_lookup_below(notes, bound).push(Chord::spec_from_rank(bound))
            } else {
                Chord::spec_lookup_below(notes, bound)
            },
    {
    }

    /// The chords found below a bound are the chords of places below it that
    /// hold the notes, each once, in rising order of their places.
    pub proof fn lemma_lookup_below(notes: Seq<Note>, bound: nat)
        requires
            bound <= 105,
        ensures
            forall|c: Chord| #[trigger]
                Chord::spec_lookup_below(notes, bound).contains(c) <==> c.spec_rank() < bound
                    && c.spec_has_notes(notes),
            forall|i: int, j: int|
                0 <= i < j < Chord::spec_lookup_below(notes, bound).len() ==> (
                #[trigger] Chord::spec_lookup_below(notes, bound)[i]).spec_rank() < (
                #[trigger] Chord::spec_lookup_below(notes, bound)[j]).spec_rank(),
        decreases bound,
    {
        let found = Chord::spec_lookup_below(notes, bound);
        if bound > 0 {
            let before = Chord::spec_lookup_below(notes, (bound - 1) as nat);
            let chord = Chord::spec_from_rank((bound - 1) as nat);
            Chord::lemma_lookup_below(notes, (bound - 1) as nat);
            Chord::lemma_from_rank((bound - 1) as nat);
            assert forall|c: Chord| #[trigger] found.contains(c) <==> c.spec_rank() < bound
                && c.spec_has_notes(notes) by {
                c.lemma_rank();
                if found.contains(c) {
                    let i = choose|i: int| 0 <= i < found.len() && found[i] == c;
                    if i < before.len() {
                        assert(before[i] == c);
                        assert(before.contains(c));
                    }
                }
                if c.spec_rank() < bound && c.spec_has_notes(notes) {
                    if c.spec_rank() < bound - 1 {
                        assert(before.contains(c));
                        let i = choose|i: int| 0 <= i < before.len() && before[i] == c;
                        assert(found[i] == c);
                    } else {
                        assert(c == chord);
                        assert(found[before.len() as int] == c);
                    }
                }
            }
            assert forall|i: int, j: int| 0 <= i < j < found.len() implies (
            #[trigger] found[i]).spec_rank() < (#[trigger] found[j]).spec_rank() by {
                if j < before.len() {
                    assert(before[i] == found[i] && before[j] == found[j]);
                } else {
                    assert(before[i] == found[i]);
                    assert(before.contains(found[i]));
                }
            }
        }
    }

    /// A chord on `root` of the given quality. Every pair makes a chord.
    pub fn new(root: Note, quality: ChordQuality) -> (chord: Chord)
        ensures
            chord.root == root,
            chord.quality == quality,
    {
        Chord { root, quality }
    }

    /// The chord at a place among the 105, counted modulo 105.
    pub fn from_rank(rank: u8) -> (chord: Chord)
        ensures
            chord == Chord::spec_from_rank(rank as nat % 105),
            rank < 105 ==> chord == Chord::spec_from_rank(rank as nat),
    {
        let place = rank % 105;
        Chord::new(Note::from_rank(place / 5), ChordQuality::from_rank(place % 5))
    }

    /// Whether `get_notes` can spell the chord: each of its notes needs one
    /// accidental at most.
    pub fn is_spellable(&self) -> (spellable: bool)
        ensures
            spellable == self.spec_is_spellable(),
    {
        let third_quality = match self.quality {
            ChordQuality::Major | ChordQuality::DominantSeventh | ChordQuality::MajorSeventh =>
                IntervalQuality::Major,
            ChordQuality::Minor | ChordQuality::MinorSeventh => IntervalQuality::Minor,
        };
        let lower = self.root.can_go_up(&Interval::new(third_quality, 3)) && self.root.can_go_up(
            &Interval::new(IntervalQuality::Perfect, 5),
        );
        let upper = match self.quality {
            ChordQuality::Major | ChordQuality::Minor => true,
            ChordQuality::MajorSeventh => self.root.can_go_up(
                &Interval::new(IntervalQuality::Major, 7),
            ),
            ChordQuality::DominantSeventh | ChordQuality::MinorSeventh => self.root.can_go_up(
                &Interval::new(IntervalQuality::Minor, 7),
            ),
        };
        proof {
            let intervals = self.quality.spec_intervals();
            if lower && upper {
                assert forall|i: int| 0 <= i < intervals.len() implies self.root.spec_can_go_up(
                    #[trigger] intervals[i],
                ) by {
                    assert(i == 0 || i == 1 || i == 2);
                }
            } else {
                if self.spec_is_spellable() {
                    assert(self.root.spec_can_go_up(intervals[0]));
                    assert(self.root.spec_can_go_up(intervals[1]));
                    if intervals.len() > 2 {
                        assert(self.root.spec_can_go_up(intervals[2]));
                    }
                }
            }
        }
        lower && upper
    }

    /// The notes of the chord, root first, then the third, the fifth and,
    /// for a seventh chord, the seventh, each spelled with its own letter.
    pub fn get_notes(&self) -> (notes: Vec<Note>)
        requires
            self.spec_is_spellable(),
        ensures
            notes@ == self.spec_notes(),
    {
        proof {
            let intervals = self.quality.spec_intervals();
            assert(self.root.spec_can_go_up(intervals[0]));
            assert(self.root.spec_can_go_up(intervals[1]));
            if intervals.len() > 2 {
                assert(self.root.spec_can_go_up(intervals[2]));
            }
        }
        let notes = match self.quality {
            ChordQuality::Major => {
                let major_third = self.root.up_interval(Interval::new(IntervalQuality::Major, 3));
                let perfect_fifth = self.root.up_interval(
                    Interval::new(IntervalQuality::Perfect, 5),
                );
                vec![self.root, major_third, perfect_fifth]
            },
            ChordQuality::Minor => {
                let minor_third = self.root.up_interval(Interval::new(IntervalQuality::Minor, 3));
                let perfect_fifth = self.root.up_interval(
                    Interval::new(IntervalQuality::Perfect, 5),
                );
                vec![self.root, minor_third, perfect_fifth]
            },
            ChordQuality::DominantSeventh => {
                let major_third = self.root.up_interval(Interval::new(IntervalQuality::Major, 3));
                let perfect_fifth = self.root.up_interval(
                    Interval::new(IntervalQuality::Perfect, 5),
                );
                let minor_seventh = self.root.up_interval(
                    Interval::new(IntervalQuality::Minor, 7),
                );
                vec![self.root, major_third, perfect_fifth, minor_seventh]
            },
            ChordQuality::MajorSeventh => {
                let major_third = self.root.up_interval(Interval::new(IntervalQuality::Major, 3));
                let perfect_fifth = self.root.up_interval(
                    Interval::new(IntervalQuality::Perfect, 5),
                );
                let major_seventh = self.root.up_interval(
                    Interval::new(IntervalQuality::Major, 7),
                );
                vec![self.root, major_third, perfect_fifth, major_seventh]
            },
            ChordQuality::MinorSeventh => {
                let minor_third = self.root.up_interval(Interval::new(IntervalQuality::Minor, 3));
                let perfect_fifth = self.root.up_interval(
                    Interval::new(IntervalQuality::Perfect, 5),
                );
                let minor_seventh = self.root.up_interval(
                    Interval::new(IntervalQuality::Minor, 7),
                );
                vec![self.root, minor_third, perfect_fifth, minor_seventh]
            },
        };
        assert(notes@ =~= self.spec_notes());
        notes
    }

    /// The symbol of the chord: the root, then nothing for major, `m`, `7`,
    /// `maj7` or `m7`.
    pub fn to_string(&self) -> (text: String)
        ensures
            text@ == self.spec_display(),
    {
        self.root.to_string().concat(self.quality.suffix())
    }

    /// Reads a chord symbol: a note at the start of the text, then the
    /// quality right after it. No chord where the text does not begin with a
    /// note. What follows the note and is no known suffix is not refused: the
    /// chord is then major.
    pub fn from_str(s: &str) -> (chord: Option<Chord>)
        ensures
            chord == Chord::spec_from_str(s@),
    {
        match Note::read(s) {
            Some((root, taken)) => Some(Chord::new(root, ChordQuality::read_at(s, taken))),
            None => None,
        }
    }

    /// Whether the chord can be spelled and holds every one of `notes`. A
    /// note is held where a note of the chord sounds the same, however it is
    /// spelled; the chord may hold more notes than these.
    pub fn has_notes(&self, notes: &Vec<Note>) -> (held: bool)
        ensures
            held == self.spec_has_notes(notes@),
    {
        if !self.is_spellable() {
            return false;
        }
        let chord_notes = self.get_notes();
        let mut i: usize = 0;
        while i < notes.len()
            invariant
                i <= notes.len(),
                chord_notes@ == self.spec_notes(),
                forall|k: int| 0 <= k < i ==> sounds_in(chord_notes@, #[trigger] notes@[k]),
            decreases notes.len() - i,
        {
            if !holds_sound(&chord_notes, &notes[i]) {
                return false;
            }
            i += 1;
        }
        true
    }

    /// All chords that hold every one of `notes`: each of the 21 roots with
    /// each of the five qualities is tried, in the order of their places, and
    /// kept where the chord can be spelled and each of the notes sounds as one
    /// of its notes. Chords whose roots sound the same but are spelled
    /// differently are different chords and all appear. No chord appears twice.
    pub fn reverse_lookup(notes: &Vec<Note>) -> (chords: Vec<Chord>)
        ensures
            chords@ == Chord::spec_lookup_below(notes@, 105),
            forall|c: Chord| #[trigger] chords@.contains(c) <==> c.spec_has_notes(notes@),
            chords@.no_duplicates(),
    {
        let mut possible_chords: Vec<Chord> = Vec::new();
        let mut rank: u8 = 0;
        while rank < 105
            invariant
                rank <= 105,
                possible_chords@ == Chord::spec_lookup_below(notes@, rank as nat),
            decreases 105 - rank,
        {
            let chord = Chord::from_rank(rank);
            proof {
                Chord::lemma_lookup_step(notes@, rank as nat);
            }
            if chord.has_notes(notes) {
                possible_chords.push(chord);
            }
            rank += 1;
        }
        proof {
            Chord::lemma_lookup_below(notes@, 105);
            assert forall|c: Chord| #[trigger]
                possible_chords@.contains(c) <==> c.spec_has_notes(notes@) by {
                c.lemma_rank();
            }
        }
        possible_chords
    }
}

/// Whether some note of `chord_notes` sounds as `note` does.
pub fn holds_sound(chord_notes: &Vec<Note>, note: &Note) -> (found: bool)
    ensures
        found == sounds_in(chord_notes@, *note),
{
    let mut j: usize = 0;
    while j < chord_notes.len()
        invariant
            j <= chord_notes.len(),
            forall|k: int| 0 <= k < j ==> (#[trigger] chord_notes@[k]).spec_index()
                != note.spec_index(),
        decreases chord_notes.len() - j,
    {
        if chord_notes[j] == *note {
            return true;
        }
        j += 1;
    }
    false
}

} // verus!
