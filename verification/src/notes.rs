//! Letter names, pitch classes and intervals, and the arithmetic that spells
//! the pitch class an interval above another.

use std::cmp::Ordering;
use vstd::prelude::*;
use vstd::std_specs::cmp::PartialEqSpecImpl;
use vstd::std_specs::cmp::PartialOrdSpecImpl;
use vstd::string::*;

verus! {

/// One of the seven letter names. The letters form a cycle, C D E F G A B and
/// back to C, and each has a place among the twelve semitones.
#[derive(Debug, Clone, Copy, PartialEq, Eq, Structural, Hash)]
pub enum WhiteNote {
    C,
    D,
    E,
    F,
    G,
    A,
    B,
}

impl WhiteNote {
    /// Place of the letter in the cycle: C is 0, B is 6.
    pub open spec fn spec_index(self) -> nat {
        match self {
            WhiteNote::C => 0,
            WhiteNote::D => 1,
            WhiteNote::E => 2,
            WhiteNote::F => 3,
            WhiteNote::G => 4,
            WhiteNote::A => 5,
            WhiteNote::B => 6,
        }
    }

    /// The letter at a place of the cycle, counted modulo 7.
    pub open spec fn spec_from_index(i: nat) -> WhiteNote {
        let r = i % 7;
        if r == 0 {
            WhiteNote::C
        } else if r == 1 {
            WhiteNote::D
        } else if r == 2 {
            WhiteNote::E
        } else if r == 3 {
            WhiteNote::F
        } else if r == 4 {
            WhiteNote::G
        } else if r == 5 {
            WhiteNote::A
        } else {
            WhiteNote::B
        }
    }

    /// Semitone position of the letter: the steps between neighbours are
    /// whole, whole, half, whole, whole, whole, half.
    pub open spec fn spec_semitone(self) -> nat {
        match self {
            WhiteNote::C => 0,
            WhiteNote::D => 2,
            WhiteNote::E => 4,
            WhiteNote::F => 5,
            WhiteNote::G => 7,
            WhiteNote::A => 9,
            WhiteNote::B => 11,
        }
    }

    /// The letter `n` places further along the cycle.
    pub open spec fn spec_nth_successor(self, n: nat) -> WhiteNote {
        WhiteNote::spec_from_index(self.spec_index() + n)
    }

    /// The character that writes the letter.
    pub open spec fn spec_letter(self) -> char {
        match self {
            WhiteNote::C => 'C',
            WhiteNote::D => 'D',
            WhiteNote::E => 'E',
            WhiteNote::F => 'F',
            WhiteNote::G => 'G',
            WhiteNote::A => 'A',
            WhiteNote::B => 'B',
        }
    }

    /// The letter that a character writes: the capitals A to G and no other.
    pub open spec fn spec_from_char(c: char) -> Option<WhiteNote> {
        if c == 'C' {
            Some(WhiteNote::C)
        } else if c == 'D' {
            Some(WhiteNote::D)
        } else if c == 'E' {
            Some(WhiteNote::E)
        } else if c == 'F' {
            Some(WhiteNote::F)
        } else if c == 'G' {
            Some(WhiteNote::G)
        } else if c == 'A' {
            Some(WhiteNote::A)
        } else if c == 'B' {
            Some(WhiteNote::B)
        } else {
            None
        }
    }

    /// The letter that a character writes. Only the capitals A to G write one.
    pub fn from_char(c: char) -> (letter: Option<WhiteNote>)
        ensures
            letter == WhiteNote::spec_from_char(c),
    {
        match c {
            'C' => Some(WhiteNote::C),
            'D' => Some(WhiteNote::D),
            'E' => Some(WhiteNote::E),
            'F' => Some(WhiteNote::F),
            'G' => Some(WhiteNote::G),
            'A' => Some(WhiteNote::A),
            'B' => Some(WhiteNote::B),
            _ => None,
        }
    }

    /// The letter as text, one character long.
    pub fn to_string(&self) -> (text: String)
        ensures
            text@ == seq![self.spec_letter()],
    {
        proof {
            reveal_strlit("C");
            reveal_strlit("D");
            reveal_strlit("E");
            reveal_strlit("F");
            reveal_strlit("G");
            reveal_strlit("A");
            reveal_strlit("B");
        }
        let text = match self {
            WhiteNote::C => String::from_str("C"),
            WhiteNote::D => String::from_str("D"),
            WhiteNote::E => String::from_str("E"),
            WhiteNote::F => String::from_str("F"),
            WhiteNote::G => String::from_str("G"),
            WhiteNote::A => String::from_str("A"),
            WhiteNote::B => String::from_str("B"),
        };
        assert(text@ =~= seq![self.spec_letter()]);
        text
    }

    /// Place of the letter in the cycle, from 0 for C to 6 for B.
    pub fn get_index(&self) -> (index: u8)
        ensures
            index == self.spec_index(),
            index < 7,
    {
        match self {
            WhiteNote::C => 0,
            WhiteNote::D => 1,
            WhiteNote::E => 2,
            WhiteNote::F => 3,
            WhiteNote::G => 4,
            WhiteNote::A => 5,
            WhiteNote::B => 6,
        }
    }

    /// Semitone position of the letter, from 0 for C to 11 for B.
    pub fn get_semitone(&self) -> (semitone: u8)
        ensures
            semitone == self.spec_semitone(),
            semitone < 12,
    {
        match self {
            WhiteNote::C => 0,
            WhiteNote::D => 2,
            WhiteNote::E => 4,
            WhiteNote::F => 5,
            WhiteNote::G => 7,
            WhiteNote::A => 9,
            WhiteNote::B => 11,
        }
    }

    /// The next letter of the cycle; C follows B.
    pub fn successor(&self) -> (next: WhiteNote)
        ensures
            next == self.spec_nth_successor(1),
    {
        match self {
            WhiteNote::C => WhiteNote::D,
            WhiteNote::D => WhiteNote::E,
            WhiteNote::E => WhiteNote::F,
            WhiteNote::F => WhiteNote::G,
            WhiteNote::G => WhiteNote::A,
            WhiteNote::A => WhiteNote::B,
            WhiteNote::B => WhiteNote::C,
        }
    }

    /// The letter `n` places further along the cycle, wrapping after B.
    pub fn nth_successor(&self, n: u8) -> (note: WhiteNote)
        ensures
            note == self.spec_nth_successor(n as nat),
            note.spec_index() == (self.spec_index() + n) % 7,
    {
        let mut note = *self;
        let mut i: u8 = 0;
        while i < n
            invariant
                i <= n,
                note == self.spec_nth_successor(i as nat),
            decreases n - i,
        {
            note = note.successor();
            i += 1;
        }
        note
    }
}

/// A pitch class: a letter name, plain or raised or lowered by one semitone.
/// The 21 values name 12 sounding pitches, so one pitch can be spelled in
/// more than one way. `==` and `<` compare what sounds, not how it is spelled.
#[derive(Debug, Clone, Copy)]
pub enum Note {
    WhiteNote(WhiteNote),
    Sharp(WhiteNote),
    Flat(WhiteNote),
}

/// Quality of an interval.
#[derive(Debug, Clone, Copy, PartialEq, Eq, Structural)]
pub enum IntervalQuality {
    Perfect,
    Major,
    Minor,
    Augmented,
    Diminished,
}

/// An interval: a quality and a diatonic number, which counts letters with
/// both ends included (a third spans three letters).
#[derive(Debug, Clone, Copy)]
pub struct Interval {
    pub quality: IntervalQuality,
    pub number: u8,
}

/// Semitones of the perfect interval of a number.
pub open spec fn perfect_semitones(number: u8) -> int {
    if number == 1 {
        0
    } else if number == 4 {
        5
    } else if number == 5 {
        7
    } else {
        12
    }
}

/// Semitones of the major interval of a number.
pub open spec fn major_semitones(number: u8) -> int {
    if number == 2 {
        2
    } else if number == 3 {
        4
    } else if number == 6 {
        9
    } else {
        11
    }
}

impl Interval {
    /// Whether the quality goes with the number: perfect and augmented with
    /// 1, 4, 5 and 8, major and minor with 2, 3, 6 and 7, diminished with 4, 5
    /// and 8 (a diminished unison would lie below its root).
    pub open spec fn spec_is_valid(self) -> bool {
        let n = self.number;
        match self.quality {
            IntervalQuality::Perfect | IntervalQuality::Augmented => n == 1 || n == 4 || n == 5
                || n == 8,
            IntervalQuality::Major | IntervalQuality::Minor => n == 2 || n == 3 || n == 6 || n
                == 7,
            IntervalQuality::Diminished => n == 4 || n == 5 || n == 8,
        }
    }

    /// Size of the interval in semitones: minor is one less than major,
    /// augmented one more than perfect, diminished one less than perfect.
    pub open spec fn spec_semitones(self) -> int {
        match self.quality {
            IntervalQuality::Perfect => perfect_semitones(self.number),
            IntervalQuality::Major => major_semitones(self.number),
            IntervalQuality::Minor => major_semitones(self.number) - 1,
            IntervalQuality::Augmented => perfect_semitones(self.number) + 1,
            IntervalQuality::Diminished => perfect_semitones(self.number) - 1,
        }
    }

    /// An interval of the given quality and number. Any pair can be built;
    /// `is_valid` tells whether it names an interval.
    pub fn new(quality: IntervalQuality, number: u8) -> (interval: Interval)
        ensures
            interval.quality == quality,
            interval.number == number,
    {
        Interval { quality, number }
    }

    /// Whether the quality goes with the number.
    pub fn is_valid(&self) -> (valid: bool)
        ensures
            valid == self.spec_is_valid(),
    {
        let n = self.number;
        match self.quality {
            IntervalQuality::Perfect | IntervalQuality::Augmented => n == 1 || n == 4 || n == 5
                || n == 8,
            IntervalQuality::Major | IntervalQuality::Minor => n == 2 || n == 3 || n == 6 || n
                == 7,
            IntervalQuality::Diminished => n == 4 || n == 5 || n == 8,
        }
    }

    /// Size of the interval in semitones, from 0 for the perfect unison to 13
    /// for the augmented octave.
    pub fn get_number_semitones(&self) -> (semitones: u8)
        requires
            self.spec_is_valid(),
        ensures
            semitones == self.spec_semitones(),
            semitones <= 13,
        decreases
                (match self.quality {
                    IntervalQuality::Perfect | IntervalQuality::Major => 0nat,
                    _ => 1nat,
                }),
    {
        match self.quality {
            IntervalQuality::Perfect => {
                if self.number == 1 {
                    0
                } else if self.number == 4 {
                    5
                } else if self.number == 5 {
                    7
                } else {
                    12
                }
            },
            IntervalQuality::Major => {
                if self.number == 2 {
                    2
                } else if self.number == 3 {
                    4
                } else if self.number == 6 {
                    9
                } else {
                    11
                }
            },
            IntervalQuality::Minor => Interval::new(
                IntervalQuality::Major,
                self.number,
            ).get_number_semitones() - 1,
            IntervalQuality::Augmented => Interval::new(
                IntervalQuality::Perfect,
                self.number,
            ).get_number_semitones() + 1,
            IntervalQuality::Diminished => Interval::new(
                IntervalQuality::Perfect,
                self.number,
            ).get_number_semitones() - 1,
        }
    }
}

impl PartialEq for Note {
    /// Two notes are equal when they sound the same.
    fn eq(&self, other: &Self) -> (equal: bool) {
        self.get_index() == other.get_index()
    }
}

impl PartialEqSpecImpl for Note {
    open spec fn obeys_eq_spec() -> bool {
        true
    }

    open spec fn eq_spec(&self, other: &Self) -> bool {
        self.spec_index() == other.spec_index()
    }
}

impl PartialOrd for Note {
    /// Notes are ordered by their semitone values.
    fn partial_cmp(&self, other: &Self) -> (order: Option<Ordering>) {
        let a = self.get_index();
        let b = other.get_index();
        if a < b {
            Some(Ordering::Less)
        } else if a == b {
            Some(Ordering::Equal)
        } else {
            Some(Ordering::Greater)
        }
    }
}

impl PartialOrdSpecImpl for Note {
    open spec fn obeys_partial_cmp_spec() -> bool {
        true
    }

    open spec fn partial_cmp_spec(&self, other: &Self) -> Option<Ordering> {
        if self.spec_index() < other.spec_index() {
            Some(Ordering::Less)
        } else if self.spec_index() == other.spec_index() {
            Some(Ordering::Equal)
        } else {
            Some(Ordering::Greater)
        }
    }
}

/// One more step of a walk that has not yet met its goal: after `n` steps
/// from semitone value `from` the walk stands at `at`, which is not `to`, and
/// `n` is no more than the distance from `from` up to `to`. Then the next step
/// does not overshoot.
proof fn lemma_walk_step(from: nat, to: nat, n: nat, at: nat)
    requires
        from < 12,
        to < 12,
        at == (from + n) % 12,
        at != to,
        n <= (to + 12 - from) % 12,
    ensures
        n + 1 <= (to + 12 - from) % 12,
        (at + 1) % 12 == (from + n + 1) % 12,
{
}

/// A walk that has met its goal within the distance has gone the distance.
proof fn lemma_walk_end(from: nat, to: nat, n: nat)
    requires
        from < 12,
        to < 12,
        (from + n) % 12 == to,
        n <= (to + 12 - from) % 12,
    ensures
        n == (to + 12 - from) % 12,
{
}

/// The pitch class that names semitone `pitch` with the letter `letter`:
/// the plain letter where it sounds that pitch, the raised letter where the
/// pitch is one above it, the lowered letter otherwise.
pub open spec fn spell(letter: WhiteNote, pitch: nat) -> Note {
    if pitch == letter.spec_semitone() {
        Note::WhiteNote(letter)
    } else if pitch == (letter.spec_semitone() + 1) % 12 {
        Note::Sharp(letter)
    } else {
        Note::Flat(letter)
    }
}

/// Whether semitone `pitch` lies within one semitone of `letter`, so that one
/// accidental at most spells it.
pub open spec fn can_spell(letter: WhiteNote, pitch: nat) -> bool {
    pitch == letter.spec_semitone() || pitch == (letter.spec_semitone() + 1) % 12 || pitch == (
    letter.spec_semitone() + 11) % 12
}

impl Note {
    /// The letter of the note.
    pub open spec fn spec_white_note(self) -> WhiteNote {
        match self {
            Note::WhiteNote(w) => w,
            Note::Sharp(w) => w,
            Note::Flat(w) => w,
        }
    }

    /// Semitone value, 0 to 11: the letter's position, one more for a sharp,
    /// one less for a flat, modulo 12.
    pub open spec fn spec_index(self) -> nat {
        match self {
            Note::WhiteNote(w) => w.spec_semitone(),
            Note::Sharp(w) => (w.spec_semitone() + 1) % 12,
            Note::Flat(w) => (w.spec_semitone() + 11) % 12,
        }
    }

    /// The usual name of a semitone value, counted modulo 12: the plain letter
    /// where one sounds it, else the letter below it, raised.
    pub open spec fn spec_canonical(pitch: nat) -> Note {
        let p = pitch % 12;
        if p == 0 {
            Note::WhiteNote(WhiteNote::C)
        } else if p == 1 {
            Note::Sharp(WhiteNote::C)
        } else if p == 2 {
            Note::WhiteNote(WhiteNote::D)
        } else if p == 3 {
            Note::Sharp(WhiteNote::D)
        } else if p == 4 {
            Note::WhiteNote(WhiteNote::E)
        } else if p == 5 {
            Note::WhiteNote(WhiteNote::F)
        } else if p == 6 {
            Note::Sharp(WhiteNote::F)
        } else if p == 7 {
            Note::WhiteNote(WhiteNote::G)
        } else if p == 8 {
            Note::Sharp(WhiteNote::G)
        } else if p == 9 {
            Note::WhiteNote(WhiteNote::A)
        } else if p == 10 {
            Note::Sharp(WhiteNote::A)
        } else {
            Note::WhiteNote(WhiteNote::B)
        }
    }

    /// The note one semitone higher, under its usual name: a plain letter
    /// where one sounds that pitch, else a sharp.
    pub open spec fn spec_up_semitone(self) -> Note {
        Note::spec_canonical(self.spec_index() + 1)
    }

    /// The note `n` semitones higher: the note itself for no step, else the
    /// usual name of the pitch reached.
    pub open spec fn spec_up_semitones(self, n: nat) -> Note {
        if n == 0 {
            self
        } else {
            Note::spec_canonical(self.spec_index() + n)
        }
    }

    /// The usual name of a semitone value sounds that value.
    pub proof fn lemma_canonical_index(pitch: nat)
        ensures
            Note::spec_canonical(pitch).spec_index() == pitch % 12,
    {
    }

    /// One more semitone after a walk of `n` is a walk of `n + 1`.
    pub proof fn lemma_up_semitones_step(self, n: nat)
        ensures
            self.spec_up_semitones(n).spec_up_semitone() == self.spec_up_semitones(n + 1),
    {
        if n > 0 {
            let reached = self.spec_index() + n;
            Note::lemma_canonical_index(reached);
            assert((reached % 12 + 1) % 12 == (reached + 1) % 12);
        }
    }

    /// A walk of `n` semitones raises the semitone value by `n`, modulo 12.
    pub proof fn lemma_up_semitones_index(self, n: nat)
        ensures
            self.spec_up_semitones(n).spec_index() == (self.spec_index() + n) % 12,
    {
        Note::lemma_canonical_index(self.spec_index() + n);
    }

    /// The letter that an interval above this note is spelled with: as many
    /// letters on as the interval's number says, both ends counted.
    pub open spec fn spec_target_letter(self, interval: Interval) -> WhiteNote {
        self.spec_white_note().spec_nth_successor((interval.number - 1) as nat)
    }

    /// The semitone value that lies an interval above this note.
    pub open spec fn spec_target_pitch(self, interval: Interval) -> nat {
        ((self.spec_index() + interval.spec_semitones()) % 12) as nat
    }

    /// Whether the note an interval above this one can be written with one
    /// accidental at most. It cannot where a double sharp or double flat would
    /// be needed, as for the major third above D sharp.
    #[verifier::opaque]
    pub open spec fn spec_can_go_up(self, interval: Interval) -> bool {
        interval.spec_is_valid() && can_spell(
            self.spec_target_letter(interval),
            self.spec_target_pitch(interval),
        )
    }

    /// The note an interval above this one: it has the interval's letter and
    /// sounds the interval's number of semitones higher.
    #[verifier::opaque]
    pub open spec fn spec_up_interval(self, interval: Interval) -> Note {
        spell(self.spec_target_letter(interval), self.spec_target_pitch(interval))
    }

    /// A note is known by its letter and its sound: two notes that share both
    /// are the same note.
    pub proof fn lemma_letter_and_sound(self, other: Note)
        requires
            self.spec_white_note() == other.spec_white_note(),
            self.spec_index() == other.spec_index(),
        ensures
            self == other,
    {
    }

    /// Where a note can go up an interval, the result has the letter that the
    /// interval's number counts to and sounds the interval's semitones
    /// higher, and the interval is valid.
    pub proof fn lemma_up_interval(self, interval: Interval)
        requires
            self.spec_can_go_up(interval),
        ensures
            interval.spec_is_valid(),
            self.spec_up_interval(interval).spec_white_note() == self.spec_target_letter(
                interval,
            ),
            self.spec_up_interval(interval).spec_index() == self.spec_target_pitch(interval),
    {
        reveal(Note::spec_can_go_up);
        reveal(Note::spec_up_interval);
    }

    /// The text of the note: the letter, then `#` for a sharp or `b` for a
    /// flat. Where no black key lies between two letters the neighbour's plain
    /// name stands instead: B sharp reads C, E sharp reads F, C flat reads B, F
    /// flat reads E.
    pub open spec fn spec_display(self) -> Seq<char> {
        match self {
            Note::WhiteNote(w) => seq![w.spec_letter()],
            Note::Sharp(w) => if w == WhiteNote::B {
                seq!['C']
            } else if w == WhiteNote::E {
                seq!['F']
            } else {
                seq![w.spec_letter(), '#']
            },
            Note::Flat(w) => if w == WhiteNote::C {
                seq!['B']
            } else if w == WhiteNote::F {
                seq!['E']
            } else {
                seq![w.spec_letter(), 'b']
            },
        }
    }

    /// The note that a text begins with: a capital letter A to G, then `#` for
    /// a sharp or `b` for a flat; anything else after the letter leaves it
    /// plain. What follows the note is not read. No note where the text is
    /// empty or begins with another character.
    pub open spec fn spec_from_str(s: Seq<char>) -> Option<Note> {
        if s.len() == 0 {
            None
        } else {
            match WhiteNote::spec_from_char(s[0]) {
                None => None,
                Some(w) => if s.len() > 1 && s[1] == '#' {
                    Some(Note::Sharp(w))
                } else if s.len() > 1 && s[1] == 'b' {
                    Some(Note::Flat(w))
                } else {
                    Some(Note::WhiteNote(w))
                },
            }
        }
    }

    /// How many characters of a text `spec_from_str` reads as the note: two
    /// where an accidental follows the letter, else one.
    pub open spec fn spec_text_len(s: Seq<char>) -> nat {
        if s.len() > 1 && (s[1] == '#' || s[1] == 'b') {
            2
        } else {
            1
        }
    }

    /// Whether the text of the note is its own spelling: all notes but B
    /// sharp, E sharp, C flat and F flat.
    pub open spec fn spec_reads_as_written(self) -> bool {
        match self {
            Note::WhiteNote(_) => true,
            Note::Sharp(w) => w != WhiteNote::B && w != WhiteNote::E,
            Note::Flat(w) => w != WhiteNote::C && w != WhiteNote::F,
        }
    }

    /// Reading the text of a note gives a note that sounds the same, and the
    /// very same spelling unless the text is a neighbour's plain name.
    pub proof fn lemma_display_round_trip(self)
        ensures
            Note::spec_from_str(self.spec_display()) is Some,
            Note::spec_from_str(self.spec_display())->0.spec_index() == self.spec_index(),
            self.spec_reads_as_written() ==> Note::spec_from_str(self.spec_display()) == Some(
                self,
            ),
            Note::spec_text_len(self.spec_display()) == self.spec_display().len(),
    {
    }

    /// The texts of the notes in a row, one space between neighbours.
    pub open spec fn spec_names(notes: Seq<Note>) -> Seq<char>
        decreases notes.len(),
    {
        if notes.len() == 0 {
            Seq::empty()
        } else if notes.len() == 1 {
            notes[0].spec_display()
        } else {
            Note::spec_names(notes.drop_last()) + seq![' '] + notes.last().spec_display()
        }
    }

    /// Place of the note among the 21: the letters in their order, and for
    /// each letter the plain note, then the sharp, then the flat.
    pub open spec fn spec_rank(self) -> nat {
        match self {
            Note::WhiteNote(w) => 3 * w.spec_index(),
            Note::Sharp(w) => 3 * w.spec_index() + 1,
            Note::Flat(w) => 3 * w.spec_index() + 2,
        }
    }

    /// The note at a place among the 21, counted modulo 21.
    pub open spec fn spec_from_rank(rank: nat) -> Note {
        let w = WhiteNote::spec_from_index(rank / 3);
        if rank % 3 == 0 {
            Note::WhiteNote(w)
        } else if rank % 3 == 1 {
            Note::Sharp(w)
        } else {
            Note::Flat(w)
        }
    }

    /// Every note has a place below 21 and stands at its place.
    pub proof fn lemma_rank(self)
        ensures
            self.spec_rank() < 21,
            Note::spec_from_rank(self.spec_rank()) == self,
    {
    }

    /// The note at a place among the 21, counted modulo 21: C, C sharp, C
    /// flat, D, and so on to B flat.
    pub fn from_rank(rank: u8) -> (note: Note)
        ensures
            note == Note::spec_from_rank(rank as nat),
    {
        let white_note = WhiteNote::C.nth_successor(rank / 3);
        if rank % 3 == 0 {
            Note::WhiteNote(white_note)
        } else if rank % 3 == 1 {
            Note::Sharp(white_note)
        } else {
            Note::Flat(white_note)
        }
    }

    /// The note one semitone higher, from a table of all 21 notes. The result
    /// is a plain letter where one sounds the pitch, else a sharp: after E
    /// comes F and after B comes C, with no sharp between.
    pub fn up_semitone(&self) -> (up: Note)
        ensures
            up == self.spec_up_semitone(),
            up.spec_index() == (self.spec_index() + 1) % 12,
    {
        match self {
            Note::WhiteNote(WhiteNote::C) => Note::Sharp(WhiteNote::C),
            Note::WhiteNote(WhiteNote::D) => Note::Sharp(WhiteNote::D),
            Note::WhiteNote(WhiteNote::E) => Note::WhiteNote(WhiteNote::F),
            Note::WhiteNote(WhiteNote::F) => Note::Sharp(WhiteNote::F),
            Note::WhiteNote(WhiteNote::G) => Note::Sharp(WhiteNote::G),
            Note::WhiteNote(WhiteNote::A) => Note::Sharp(WhiteNote::A),
            Note::WhiteNote(WhiteNote::B) => Note::WhiteNote(WhiteNote::C),
            Note::Sharp(WhiteNote::C) => Note::WhiteNote(WhiteNote::D),
            Note::Sharp(WhiteNote::D) => Note::WhiteNote(WhiteNote::E),
            Note::Sharp(WhiteNote::E) => Note::Sharp(WhiteNote::F),
            Note::Sharp(WhiteNote::F) => Note::WhiteNote(WhiteNote::G),
            Note::Sharp(WhiteNote::G) => Note::WhiteNote(WhiteNote::A),
            Note::Sharp(WhiteNote::A) => Note::WhiteNote(WhiteNote::B),
            Note::Sharp(WhiteNote::B) => Note::Sharp(WhiteNote::C),
            Note::Flat(WhiteNote::C) => Note::WhiteNote(WhiteNote::C),
            Note::Flat(WhiteNote::D) => Note::WhiteNote(WhiteNote::D),
            Note::Flat(WhiteNote::E) => Note::WhiteNote(WhiteNote::E),
            Note::Flat(WhiteNote::F) => Note::WhiteNote(WhiteNote::F),
            Note::Flat(WhiteNote::G) => Note::WhiteNote(WhiteNote::G),
            Note::Flat(WhiteNote::A) => Note::WhiteNote(WhiteNote::A),
            Note::Flat(WhiteNote::B) => Note::WhiteNote(WhiteNote::B),
        }
    }

    /// The note `n` semitones higher, reached one semitone at a time.
    pub fn up_semitones(&self, n: u8) -> (up: Note)
        ensures
            up == self.spec_up_semitones(n as nat),
            up.spec_index() == (self.spec_index() + n) % 12,
    {
        let mut note = *self;
        let mut i: u8 = 0;
        while i < n
            invariant
                i <= n,
                note == self.spec_up_semitones(i as nat),
            decreases n - i,
        {
            proof {
                self.lemma_up_semitones_step(i as nat);
            }
            note = note.up_semitone();
            i += 1;
        }
        proof {
            self.lemma_up_semitones_index(n as nat);
        }
        note
    }

    /// Semitone value of the note, 0 to 11. A lowered C wraps round to 11.
    pub fn get_index(&self) -> (index: u8)
        ensures
            index == self.spec_index(),
            index < 12,
    {
        match self {
            Note::WhiteNote(white_note) => white_note.get_semitone(),
            Note::Sharp(white_note) => (white_note.get_semitone() + 1) % 12,
            Note::Flat(white_note) => (white_note.get_semitone() + 11) % 12,
        }
    }

    /// The letter of the note, without its accidental.
    pub fn get_white_note(&self) -> (letter: WhiteNote)
        ensures
            letter == self.spec_white_note(),
    {
        match self {
            Note::WhiteNote(white_note) => *white_note,
            Note::Sharp(white_note) => *white_note,
            Note::Flat(white_note) => *white_note,
        }
    }

    /// Diatonic number of the interval from this note up to `other`: the
    /// letters from one to the other, both counted, so 1 to 7.
    pub fn get_generic_interval(&self, other: &Note) -> (number: u8)
        ensures
            number == (other.spec_white_note().spec_index() + 7
                - self.spec_white_note().spec_index()) % 7 + 1,
            other.spec_white_note() == self.spec_white_note().spec_nth_successor(
                (number - 1) as nat,
            ),
    {
        let first = self.get_white_note();
        let second = other.get_white_note();
        let first_index = first.get_index();
        let second_index = second.get_index();
        (second_index + 7 - first_index) % 7 + 1
    }

    /// Semitones from this note up to the next note that sounds as `other`
    /// does: 0 to 11.
    pub fn get_semitones(&self, other: &Note) -> (n_semitones: u8)
        ensures
            n_semitones == (other.spec_index() + 12 - self.spec_index()) % 12,
    {
        let mut note = *self;
        let mut n_semitones: u8 = 0;
        let ghost from = self.spec_index();
        let ghost to = other.spec_index();
        while note != *other
            invariant
                from == self.spec_index(),
                to == other.spec_index(),
                note.spec_index() == (from + n_semitones) % 12,
                n_semitones <= (to + 12 - from) % 12,
            decreases 12 - n_semitones,
        {
            proof {
                lemma_walk_step(from, to, n_semitones as nat, note.spec_index());
            }
            note = note.up_semitone();
            n_semitones += 1;
        }
        proof {
            lemma_walk_end(from, to, n_semitones as nat);
        }
        n_semitones
    }

    /// Respells this note with the letter `other`: plain where the letter
    /// sounds as this note does, lowered where this note is a semitone below
    /// the letter, raised where it is a semitone above.
    pub fn add_accidentals(&self, other: WhiteNote) -> (spelled: Note)
        requires
            can_spell(other, self.spec_index()),
        ensures
            spelled == spell(other, self.spec_index()),
            spelled.spec_white_note() == other,
            spelled.spec_index() == self.spec_index(),
    {
        let other_note = Note::WhiteNote(other);
        let here = self.get_index();
        let there = other_note.get_index();
        if here == there {
            other_note
        } else if (here + 1) % 12 == there {
            Note::Flat(other)
        } else {
            Note::Sharp(other)
        }
    }

    /// Whether `up_interval` can spell the note that lies `interval` above
    /// this one: the interval is valid and the result needs one accidental at
    /// most.
    pub fn can_go_up(&self, interval: &Interval) -> (possible: bool)
        ensures
            possible == self.spec_can_go_up(*interval),
    {
        reveal(Note::spec_can_go_up);
        if !interval.is_valid() {
            return false;
        }
        let letter = self.get_white_note().nth_successor(interval.number - 1);
        let pitch = (self.get_index() + interval.get_number_semitones()) % 12;
        let plain = letter.get_semitone();
        pitch == plain || pitch == (plain + 1) % 12 || pitch == (plain + 11) % 12
    }

    /// Reads the note that a text begins with, and tells how many characters
    /// of the text it took: a capital letter A to G, then an optional `#` or
    /// `b`. Lower-case letters are not note names.
    pub fn read(s: &str) -> (read: Option<(Note, usize)>)
        ensures
            match read {
                Some((note, taken)) => Note::spec_from_str(s@) == Some(note) && taken
                    == Note::spec_text_len(s@) && taken <= s@.len(),
                None => Note::spec_from_str(s@) is None,
            },
    {
        let len = s.unicode_len();
        if len == 0 {
            return None;
        }
        let white_note = match WhiteNote::from_char(s.get_char(0)) {
            Some(white_note) => white_note,
            None => {
                return None;
            },
        };
        if len > 1 {
            let second = s.get_char(1);
            if second == '#' {
                return Some((Note::Sharp(white_note), 2));
            }
            if second == 'b' {
                return Some((Note::Flat(white_note), 2));
            }
        }
        Some((Note::WhiteNote(white_note), 1))
    }

    /// Reads the note that a text begins with: a capital letter A to G, then
    /// an optional `#` or `b`. Lower-case letters are not note names. The rest
    /// of the text is ignored.
    pub fn from_str(s: &str) -> (note: Option<Note>)
        ensures
            note == Note::spec_from_str(s@),
    {
        match Note::read(s) {
            Some((note, _)) => Some(note),
            None => None,
        }
    }

    /// The text of the note: `C`, `C#`, `Db`. B sharp, E sharp, C flat and F
    /// flat read as the plain neighbour they sound as.
    pub fn to_string(&self) -> (text: String)
        ensures
            text@ == self.spec_display(),
    {
        proof {
            reveal_strlit("C");
            reveal_strlit("F");
            reveal_strlit("B");
            reveal_strlit("E");
            reveal_strlit("#");
            reveal_strlit("b");
        }
        let text = match self {
            Note::WhiteNote(white_note) => white_note.to_string(),
            Note::Sharp(white_note) => match white_note {
                WhiteNote::B => String::from_str("C"),
                WhiteNote::E => String::from_str("F"),
                _ => white_note.to_string().concat("#"),
            },
            Note::Flat(white_note) => match white_note {
                WhiteNote::C => String::from_str("B"),
                WhiteNote::F => String::from_str("E"),
                _ => white_note.to_string().concat("b"),
            },
        };
        assert(text@ =~= self.spec_display());
        text
    }

    /// The texts of the notes in a row, one space between neighbours: the
    /// line that shows a chord or a scale.
    pub fn names(notes: &Vec<Note>) -> (text: String)
        ensures
            text@ == Note::spec_names(notes@),
    {
        proof {
            reveal_strlit(" ");
        }
        let mut text = String::new();
        let mut i: usize = 0;
        while i < notes.len()
            invariant
                i <= notes.len(),
                text@ == Note::spec_names(notes@.take(i as int)),
                " "@.len() == 1,
                " "@[0] == ' ',
            decreases notes.len() - i,
        {
            let ghost before = notes@.take(i as int);
            let ghost now = notes@.take(i + 1);
            proof {
                assert(now.drop_last() =~= before);
                assert(now.last() == notes@[i as int]);
                assert(" "@ =~= seq![' ']);
            }
            if i > 0 {
                text.append(" ");
            }
            let name = notes[i].to_string();
            text.append(name.as_str());
            proof {
                if i == 0 {
                    assert(text@ =~= notes@[0].spec_display());
                }
            }
            i += 1;
        }
        proof {
            assert(notes@.take(notes@.len() as int) =~= notes@);
        }
        text
    }

    /// The note that lies `interval` above this one, spelled with the letter
    /// that the interval's number calls for: the major third above D is F
    /// sharp, not G flat.
    pub fn up_interval(&self, interval: Interval) -> (up: Note)
        requires
            self.spec_can_go_up(interval),
        ensures
            up == self.spec_up_interval(interval),
            up.spec_white_note() == self.spec_target_letter(interval),
            up.spec_index() == (self.spec_index() + interval.spec_semitones()) % 12,
    {
        reveal(Note::spec_can_go_up);
        reveal(Note::spec_up_interval);
        let white_note = self.get_white_note();
        let upper_white_note = white_note.nth_successor(interval.number - 1);
        let n_semitones = interval.get_number_semitones();
        let upper_note = self.up_semitones(n_semitones);
        upper_note.add_accidentals(upper_white_note)
    }
}

} // verus!
