//! Scales: a root and a type, the seven notes they stand for, and their
//! names.

use crate::notes::Interval;
use crate::notes::IntervalQuality;
use crate::notes::Note;
use crate::text::after_spaces;
use crate::text::has_at;
use crate::text::skip_spaces;
use crate::text::starts_with_at;
use vstd::prelude::*;
use vstd::string::*;

verus! {

/// Type of a scale: major or natural minor.
#[derive(Debug, Clone, Copy, PartialEq, Eq, Structural, Hash)]
pub enum ScaleType {
    Major,
    Minor,
}

/// A scale: its root and its type. The notes are computed from these.
#[derive(Debug, Clone, Copy)]
pub struct Scale {
    pub root: Note,
    pub scale_type: ScaleType,
}

/// The interval of a quality and a number.
pub open spec fn step(quality: IntervalQuality, number: u8) -> Interval {
    Interval { quality, number }
}

impl ScaleType {
    /// The intervals above the root that make up the degrees two to seven of
    /// a scale of this type. The natural minor scale lowers the third, the
    /// sixth and the seventh of the major scale.
    pub open spec fn spec_intervals(self) -> Seq<Interval> {
        match self {
            ScaleType::Major => seq![
                step(IntervalQuality::Major, 2),
                step(IntervalQuality::Major, 3),
                step(IntervalQuality::Perfect, 4),
                step(IntervalQuality::Perfect, 5),
                step(IntervalQuality::Major, 6),
                step(IntervalQuality::Major, 7),
            ],
            ScaleType::Minor => seq![
                step(IntervalQuality::Major, 2),
                step(IntervalQuality::Minor, 3),
                step(IntervalQuality::Perfect, 4),
                step(IntervalQuality::Perfect, 5),
                step(IntervalQuality::Minor, 6),
                step(IntervalQuality::Minor, 7),
            ],
        }
    }

    /// The word that names the type.
    pub open spec fn spec_word(self) -> Seq<char> {
        match self {
            ScaleType::Major => seq!['m', 'a', 'j', 'o', 'r'],
            ScaleType::Minor => seq!['m', 'i', 'n', 'o', 'r'],
        }
    }

    /// The word that names the type: `major` or `minor`.
    pub fn word(&self) -> (text: &'static str)
        ensures
            text@ == self.spec_word(),
    {
        proof {
            reveal_strlit("major");
            reveal_strlit("minor");
        }
        let text = match self {
            ScaleType::Major => "major",
            ScaleType::Minor => "minor",
        };
        assert(text@ =~= self.spec_word());
        text
    }
}

impl Scale {
    /// Whether every note of the scale can be written with one accidental at
    /// most. G sharp major cannot: its seventh is F double sharp.
    pub open spec fn spec_is_spellable(self) -> bool {
        forall|i: int|
            0 <= i < self.scale_type.spec_intervals().len() ==> self.root.spec_can_go_up(
                #[trigger] self.scale_type.spec_intervals()[i],
            )
    }

    /// The seven notes of the scale: the root, then the note each interval
    /// of the type above it, in rising order.
    pub open spec fn spec_notes(self) -> Seq<Note> {
        Seq::new(
            self.scale_type.spec_intervals().len() + 1,
            |i: int|
                if i == 0 {
                    self.root
                } else {
                    self.root.spec_up_interval(self.scale_type.spec_intervals()[i - 1])
                },
        )
    }

    /// The name of the scale: the text of the root, a space, and the word of
    /// the type.
    pub open spec fn spec_display(self) -> Seq<char> {
        self.root.spec_display() + seq![' '] + self.scale_type.spec_word()
    }

    /// The scale that a text names: the note it begins with, then any white
    /// space, then `major` or `minor`. No scale where no note stands at the
    /// start or neither word follows.
    pub open spec fn spec_from_str(s: Seq<char>) -> Option<Scale> {
        match Note::spec_from_str(s) {
            None => None,
            Some(root) => {
                let at = after_spaces(s, Note::spec_text_len(s) as int);
                if has_at(s, at, ScaleType::Major.spec_word()) {
                    Some(Scale { root, scale_type: ScaleType::Major })
                } else if has_at(s, at, ScaleType::Minor.spec_word()) {
                    Some(Scale { root, scale_type: ScaleType::Minor })
                } else {
                    None
                }
            },
        }
    }

    /// Reading the name of a scale gives a scale of the same type whose root
    /// sounds the same, and the very same scale unless the root's text is a
    /// neighbour's plain name.
    pub proof fn lemma_display_round_trip(self)
        ensures
            match Scale::spec_from_str(self.spec_display()) {
                Some(scale) => scale.scale_type == self.scale_type && scale.root.spec_index()
                    == self.root.spec_index() && (self.root.spec_reads_as_written() ==> scale
                    == self),
                None => false,
            },
    {
        let name = self.root.spec_display();
        let word = self.scale_type.spec_word();
        let text = self.spec_display();
        let at = name.len() as int;
        self.root.lemma_display_round_trip();
        assert(text.len() == name.len() + 6);
        assert(forall|i: int| 0 <= i < name.len() ==> text[i] == name[i]);
        assert(text[at] == ' ');
        assert(forall|i: int| 0 <= i < 5 ==> text[at + 1 + i] == word[i]);
        assert(Note::spec_from_str(text) == Note::spec_from_str(name));
        assert(Note::spec_text_len(text) == name.len());
        assert(after_spaces(text, at + 1) == at + 1);
        assert(after_spaces(text, at) == at + 1);
    }

    /// Semitones from the root up to a degree of a scale, the root being
    /// degree 0: whole and half steps in the order of the type.
    pub open spec fn spec_degree_semitones(self, i: int) -> int {
        match self.scale_type {
            ScaleType::Major => seq![0int, 2, 4, 5, 7, 9, 11][i],
            ScaleType::Minor => seq![0int, 2, 3, 5, 7, 8, 10][i],
        }
    }

    /// The notes of a scale that can be spelled take the seven letters in
    /// turn, each once, and lie the semitones of their degree above the root.
    pub proof fn lemma_notes_walk_letters(self, i: int)
        requires
            self.spec_is_spellable(),
            0 <= i < 7,
        ensures
            self.spec_notes().len() == 7,
            self.spec_notes()[i].spec_white_note() == self.root.spec_white_note().spec_nth_successor(
                i as nat,
            ),
            self.spec_notes()[i].spec_index() == (self.root.spec_index()
                + self.spec_degree_semitones(i)) % 12,
    {
        if i > 0 {
            let interval = self.scale_type.spec_intervals()[i - 1];
            self.root.lemma_up_interval(interval);
        }
    }

    /// A scale on a plain letter can always be spelled.
    pub proof fn lemma_plain_root_spellable(self)
        requires
            self.root is WhiteNote,
        ensures
            self.spec_is_spellable(),
    {
        reveal(Note::spec_can_go_up);
    }

    /// A scale on `root` of the given type. Every pair makes a scale.
    pub fn new(root: Note, scale_type: ScaleType) -> (scale: Scale)
        ensures
            scale.root == root,
            scale.scale_type == scale_type,
    {
        Scale { root, scale_type }
    }

    /// Whether `get_notes` can spell the scale: each of its notes needs one
    /// accidental at most.
    pub fn is_spellable(&self) -> (spellable: bool)
        ensures
            spellable == self.spec_is_spellable(),
    {
        let lowered = match self.scale_type {
            ScaleType::Major => IntervalQuality::Major,
            ScaleType::Minor => IntervalQuality::Minor,
        };
        let second = self.root.can_go_up(&Interval::new(IntervalQuality::Major, 2));
        let third = self.root.can_go_up(&Interval::new(lowered, 3));
        let fourth = self.root.can_go_up(&Interval::new(IntervalQuality::Perfect, 4));
        let fifth = self.root.can_go_up(&Interval::new(IntervalQuality::Perfect, 5));
        let sixth = self.root.can_go_up(&Interval::new(lowered, 6));
        let seventh = self.root.can_go_up(&Interval::new(lowered, 7));
        let spellable = second && third && fourth && fifth && sixth && seventh;
        proof {
            let intervals = self.scale_type.spec_intervals();
            if spellable {
                assert forall|i: int| 0 <= i < intervals.len() implies self.root.spec_can_go_up(
                    #[trigger] intervals[i],
                ) by {
                    assert(i == 0 || i == 1 || i == 2 || i == 3 || i == 4 || i == 5);
                }
            } else {
                if self.spec_is_spellable() {
                    self.lemma_spellable();
                }
            }
        }
        spellable
    }

    /// In a scale that can be spelled, each of the six intervals can be gone
    /// up from the root.
    proof fn lemma_spellable(self)
        requires
            self.spec_is_spellable(),
        ensures
            self.root.spec_can_go_up(self.scale_type.spec_intervals()[0]),
            self.root.spec_can_go_up(self.scale_type.spec_intervals()[1]),
            self.root.spec_can_go_up(self.scale_type.spec_intervals()[2]),
            self.root.spec_can_go_up(self.scale_type.spec_intervals()[3]),
            self.root.spec_can_go_up(self.scale_type.spec_intervals()[4]),
            self.root.spec_can_go_up(self.scale_type.spec_intervals()[5]),
    {
    }

    /// The seven notes of the scale, root first, each degree spelled with
    /// its own letter.
    pub fn get_notes(&self) -> (notes: Vec<Note>)
        requires
            self.spec_is_spellable(),
        ensures
            notes@ == self.spec_notes(),
    {
        proof {
            self.lemma_spellable();
        }
        let notes = match self.scale_type {
            ScaleType::Major => vec![
                self.root,
                self.root.up_interval(Interval::new(IntervalQuality::Major, 2)),
                self.root.up_interval(Interval::new(IntervalQuality::Major, 3)),
                self.root.up_interval(Interval::new(IntervalQuality::Perfect, 4)),
                self.root.up_interval(Interval::new(IntervalQuality::Perfect, 5)),
                self.root.up_interval(Interval::new(IntervalQuality::Major, 6)),
                self.root.up_interval(Interval::new(IntervalQuality::Major, 7)),
            ],
            ScaleType::Minor => vec![
                self.root,
                self.root.up_interval(Interval::new(IntervalQuality::Major, 2)),
                self.root.up_interval(Interval::new(IntervalQuality::Minor, 3)),
                self.root.up_interval(Interval::new(IntervalQuality::Perfect, 4)),
                self.root.up_interval(Interval::new(IntervalQuality::Perfect, 5)),
                self.root.up_interval(Interval::new(IntervalQuality::Minor, 6)),
                self.root.up_interval(Interval::new(IntervalQuality::Minor, 7)),
            ],
        };
        assert(notes@ =~= self.spec_notes());
        notes
    }

    /// The name of the scale: the root, a space, and `major` or `minor`.
    pub fn to_string(&self) -> (text: String)
        ensures
            text@ == self.spec_display(),
    {
        proof {
            reveal_strlit(" ");
        }
        let text = self.root.to_string().concat(" ").concat(self.scale_type.word());
        assert(" "@ =~= seq![' ']);
        text
    }

    /// Reads the name of a scale: a note at the start of the text, then any
    /// white space, none too, then `major` or `minor`. What follows the word
    /// is not read. No scale where the text does not begin with a note or
    /// neither word follows it.
    pub fn from_str(s: &str) -> (scale: Option<Scale>)
        ensures
            scale == Scale::spec_from_str(s@),
    {
        let (root, taken) = match Note::read(s) {
            Some(read) => read,
            None => {
                return None;
            },
        };
        let at = skip_spaces(s, taken);
        if starts_with_at(s, at, ScaleType::Major.word()) {
            Some(Scale::new(root, ScaleType::Major))
        } else if starts_with_at(s, at, ScaleType::Minor.word()) {
            Some(Scale::new(root, ScaleType::Minor))
        } else {
            None
        }
    }
}

} // verus!
