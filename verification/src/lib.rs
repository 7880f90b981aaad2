//! A symbolic music-theory engine: chord and Roman-numeral parsing, enharmonic
//! spelling, transposition, key-agnostic progression encoding and voicing.
//!
//! Every function states its behaviour over sequences of characters and
//! integers; the contracts are checked by Verus.

pub mod chords;
pub mod interval_encoding;
pub mod intervals;
pub mod notes;
pub mod pitches;
pub mod playback;
pub mod roman;
pub mod samples;
pub mod text;
pub mod types;
pub mod voice_leading;
pub mod worksheet;
