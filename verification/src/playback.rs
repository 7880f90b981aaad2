//! From a chord name to the notes that are played for it.

use crate::intervals::{chord_to_notes, chord_to_notes_spec};
use crate::text::{chars_of, is_text};
use crate::types::{failure_message, AudioNote, AudioNoteModel, Failure, VoicingStyle};
use crate::voice_leading::{
    led_voicing, voice_chord, voice_chord_spec, voice_chord_with_leading, VoicingState,
};
use vstd::prelude::*;
use vstd::string::*;

verus! {

/// The voicing that a style gives to the notes of a chord, whose first
/// note is its bass: `close` and `wide` place the chord on its own, any
/// other style leads the voices from the voicing that was made last.
pub open spec fn styled_voicing(
    previous: Option<Seq<AudioNoteModel>>,
    notes: Seq<Seq<char>>,
    style: Seq<char>,
    base_octave: int,
) -> Result<Seq<AudioNoteModel>, Failure> {
    if style == "close"@ {
        voice_chord_spec(notes, base_octave, VoicingStyle::Close)
    } else if style == "wide"@ {
        voice_chord_spec(notes, base_octave, VoicingStyle::Wide)
    } else {
        led_voicing(previous, notes, notes[0])
    }
}

/// Whether a style leads the voices from the voicing that was made last.
pub open spec fn is_leading_style(style: Seq<char>) -> bool {
    style != "close"@ && style != "wide"@
}

/// What [`voice_chord_for_playback`] returns.
///
/// The chord must not be empty and must have notes; its first note is the
/// bass. The notes are voiced in the given style. An error says where it
/// arose, and then what it was.
pub open spec fn playback_voicing(
    previous: Option<Seq<AudioNoteModel>>,
    chord: Seq<char>,
    style: Seq<char>,
    base_octave: int,
) -> Result<Seq<AudioNoteModel>, Seq<char>> {
    if chord.len() == 0 {
        Err("Chord cannot be empty"@)
    } else {
        match chord_to_notes_spec(chord) {
            Err(e) => Err("Failed to parse chord: "@ + failure_message(e)),
            Ok(notes) => if notes.len() == 0 {
                Err("Chord has no notes"@)
            } else {
                match styled_voicing(previous, notes, style, base_octave) {
                    Err(e) => Err("Voice leading failed: "@ + failure_message(e)),
                    Ok(voicing) => Ok(voicing),
                }
            },
        }
    }
}

/// The notes to play for a chord, in the style `close`, `wide` or, with any
/// other word, led from the voicing in `state`. Only a led voicing is
/// remembered in `state`.
pub fn voice_chord_for_playback(
    state: &mut VoicingState,
    chord: &str,
    voicing_style: &str,
    base_octave: i8,
) -> (r: Result<Vec<AudioNote>, String>)
    requires
        old(state).well_formed(),
    ensures
        final(state).well_formed(),
        match r {
            Ok(v) => playback_voicing(
                old(state).previous(),
                chord@,
                voicing_style@,
                base_octave as int,
            ) == Ok::<Seq<AudioNoteModel>, Seq<char>>(v.deep_view()),
            Err(e) => playback_voicing(
                old(state).previous(),
                chord@,
                voicing_style@,
                base_octave as int,
            ) == Err::<Seq<AudioNoteModel>, Seq<char>>(e@),
        },
        final(state).previous() == (if r is Ok && is_leading_style(voicing_style@) {
            Some(r->Ok_0.deep_view())
        } else {
            old(state).previous()
        }),
{
    if chord.unicode_len() == 0 {
        return Err(String::from_str("Chord cannot be empty"));
    }
    let notes = match chord_to_notes(chord) {
        Ok(n) => n,
        Err(e) => {
            return Err(String::from_str("Failed to parse chord: ").concat(e.message().as_str()));
        },
    };
    if notes.len() == 0 {
        return Err(String::from_str("Chord has no notes"));
    }
    assert(notes.deep_view()[0] == notes[0]@);
    let style = chars_of(voicing_style);
    let voiced = if is_text(&style, "close") {
        voice_chord(notes.as_slice(), notes[0].as_str(), base_octave, VoicingStyle::Close)
    } else if is_text(&style, "wide") {
        voice_chord(notes.as_slice(), notes[0].as_str(), base_octave, VoicingStyle::Wide)
    } else {
        voice_chord_with_leading(state, notes.as_slice(), notes[0].as_str(), base_octave)
    };
    match voiced {
        Ok(v) => Ok(v),
        Err(e) => Err(String::from_str("Voice leading failed: ").concat(e.message().as_str())),
    }
}

} // verus!
