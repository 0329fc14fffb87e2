//! Music-theory arithmetic on pitch classes: interval spelling, chords,
//! scales, and the search for the chords that hold a given set of notes.

pub mod chords;
pub mod notes;
pub mod scales;
pub mod text;

pub use crate::chords::Chord;
pub use crate::chords::ChordQuality;
pub use crate::notes::Interval;
pub use crate::notes::IntervalQuality;
pub use crate::notes::Note;
pub use crate::notes::WhiteNote;
pub use crate::scales::Scale;
pub use crate::scales::ScaleType;
