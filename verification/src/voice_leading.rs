//! Voicing: giving each note of a chord an octave, so that it can be
//! played. Two styles place a chord on its own; voice leading places each
//! chord near the one played before it.

use crate::notes::{sharp_name, sharp_name_of};
use crate::text::{chars_of, is_text, push_signed_decimal, signed_decimal, string_of};
use crate::types::{
    all_or_first_error, collected, lemma_collected_error, lemma_collected_ok, outcome, AudioNote,
    AudioNoteModel, Failure, MusicError, MusicResult, VoicingStyle,
};
use vstd::prelude::*;
use vstd::string::*;

verus! {

/// The lowest pitch a voicing may hold, the lowest A of the piano.
pub const MIN_MIDI: u8 = 21;

/// The highest pitch a voicing may hold: C5, an octave above middle C.
pub const MAX_MIDI: u8 = 72;

/// The octave of the bass in voice leading.
pub const BASS_OCTAVE: i8 = 2;

/// The pitch class of a note name that can be played: a natural, or one of
/// the five sharps and five flats of the keyboard's black keys.
pub open spec fn playable_pitch(note: Seq<char>) -> Option<int> {
    if note == "C"@ {
        Some(0)
    } else if note == "C#"@ || note == "Db"@ {
        Some(1)
    } else if note == "D"@ {
        Some(2)
    } else if note == "D#"@ || note == "Eb"@ {
        Some(3)
    } else if note == "E"@ {
        Some(4)
    } else if note == "F"@ {
        Some(5)
    } else if note == "F#"@ || note == "Gb"@ {
        Some(6)
    } else if note == "G"@ {
        Some(7)
    } else if note == "G#"@ || note == "Ab"@ {
        Some(8)
    } else if note == "A"@ {
        Some(9)
    } else if note == "A#"@ || note == "Bb"@ {
        Some(10)
    } else if note == "B"@ {
        Some(11)
    } else {
        None
    }
}

/// The pitch class of a note name that can be played.
pub fn playable_pitch_of(note: &Vec<char>) -> (r: Option<u8>)
    ensures
        match r {
            Some(p) => playable_pitch(note@) == Some(p as int) && p < 12,
            None => playable_pitch(note@) is None,
        },
{
    if is_text(note, "C") {
        Some(0)
    } else if is_text(note, "C#") || is_text(note, "Db") {
        Some(1)
    } else if is_text(note, "D") {
        Some(2)
    } else if is_text(note, "D#") || is_text(note, "Eb") {
        Some(3)
    } else if is_text(note, "E") {
        Some(4)
    } else if is_text(note, "F") {
        Some(5)
    } else if is_text(note, "F#") || is_text(note, "Gb") {
        Some(6)
    } else if is_text(note, "G") {
        Some(7)
    } else if is_text(note, "G#") || is_text(note, "Ab") {
        Some(8)
    } else if is_text(note, "A") {
        Some(9)
    } else if is_text(note, "A#") || is_text(note, "Bb") {
        Some(10)
    } else if is_text(note, "B") {
        Some(11)
    } else {
        None
    }
}

/// The pitch of a playable note in an octave, as a number that may lie
/// outside the MIDI numbers: `(octave + 1) * 12` plus the pitch class, so
/// that 60 is the C of octave 4.
pub open spec fn pitch_in_octave(note: Seq<char>, octave: int) -> Result<int, Failure> {
    match playable_pitch(note) {
        None => Err(Failure::ParseError("Invalid note: "@ + note)),
        Some(pitch) => Ok((octave + 1) * 12 + pitch),
    }
}

/// What [`note_to_midi`] returns: the pitch of the note in the octave, which
/// must be a MIDI number, `0..=127`.
pub open spec fn note_to_midi_spec(note: Seq<char>, octave: int) -> Result<u8, Failure> {
    match pitch_in_octave(note, octave) {
        Err(e) => Err(e),
        Ok(midi) => if 0 <= midi <= 127 {
            Ok(midi as u8)
        } else {
            Err(Failure::ParseError("MIDI note out of range"@))
        },
    }
}

/// The pitch of a playable note in an octave.
pub fn pitch_at(note: &str, octave: i128) -> (r: MusicResult<i128>)
    requires
        -0x1_0000_0000_0000_0000_0000 <= octave <= 0x1_0000_0000_0000_0000_0000,
    ensures
        match r {
            Ok(midi) => pitch_in_octave(note@, octave as int) == Ok::<int, Failure>(midi as int),
            Err(e) => pitch_in_octave(note@, octave as int) == Err::<int, Failure>(e.deep_view()),
        },
{
    match playable_pitch_of(&chars_of(note)) {
        Some(p) => Ok((octave + 1) * 12 + p as i128),
        None => Err(MusicError::ParseError(String::from_str("Invalid note: ").concat(note))),
    }
}

/// The MIDI number of a note in an octave: C4 is 60, A3 is 57.
pub fn note_to_midi(note: &str, octave: i8) -> (r: MusicResult<u8>)
    ensures
        outcome(r) == note_to_midi_spec(note@, octave as int),
{
    let midi = pitch_at(note, octave as i128)?;
    if midi < 0 || midi > 127 {
        return Err(MusicError::ParseError(String::from_str("MIDI note out of range")));
    }
    Ok(midi as u8)
}

/// What [`midi_to_note`] returns: the name of the pitch with sharps, then
/// its octave, for a number up to 127.
pub open spec fn midi_to_note_spec(midi: int) -> Result<Seq<char>, Failure> {
    if midi > 127 {
        Err(Failure::ParseError("MIDI note out of range"@))
    } else {
        Ok(sharp_name(midi % 12) + signed_decimal(midi / 12 - 1))
    }
}

/// The name of a MIDI number: 60 is `C4`, 42 is `F#2`.
pub fn midi_to_note(midi: u8) -> (r: MusicResult<String>)
    ensures
        outcome(r) == midi_to_note_spec(midi as int),
{
    if midi > 127 {
        return Err(MusicError::ParseError(String::from_str("MIDI note out of range")));
    }
    let mut text = chars_of(sharp_name_of(midi % 12));
    push_signed_decimal(&mut text, (midi / 12) as i8 - 1);
    Ok(string_of(&text))
}

/// The note that a MIDI number is played as: its name with sharps, and its
/// octave.
pub open spec fn note_of_midi(midi: int) -> AudioNoteModel {
    AudioNoteModel { note: sharp_name(midi % 12), octave: midi / 12 - 1 }
}

/// The pitch of a note: its MIDI number, if it has one.
pub open spec fn pitch_of(n: AudioNoteModel) -> Result<u8, Failure> {
    note_to_midi_spec(n.note, n.octave)
}

/// The note that a MIDI number is played as has that number as its pitch.
pub proof fn lemma_note_of_midi_pitch(midi: int)
    requires
        0 <= midi <= 127,
    ensures
        pitch_of(note_of_midi(midi)) == Ok::<u8, Failure>(midi as u8),
{
    reveal_strlit("C");
    reveal_strlit("C#");
    reveal_strlit("Db");
    reveal_strlit("D");
    reveal_strlit("D#");
    reveal_strlit("Eb");
    reveal_strlit("E");
    reveal_strlit("F");
    reveal_strlit("F#");
    reveal_strlit("Gb");
    reveal_strlit("G");
    reveal_strlit("G#");
    reveal_strlit("Ab");
    reveal_strlit("A");
    reveal_strlit("A#");
    reveal_strlit("Bb");
    reveal_strlit("B");
    let k = midi % 12;
    assert("C"@.len() == 1 && "C"@[0] == 'C');
    assert("C#"@.len() == 2 && "C#"@[0] == 'C' && "C#"@[1] == '#');
    assert("Db"@.len() == 2 && "Db"@[0] == 'D' && "Db"@[1] == 'b');
    assert("D"@.len() == 1 && "D"@[0] == 'D');
    assert("D#"@.len() == 2 && "D#"@[0] == 'D' && "D#"@[1] == '#');
    assert("Eb"@.len() == 2 && "Eb"@[0] == 'E' && "Eb"@[1] == 'b');
    assert("E"@.len() == 1 && "E"@[0] == 'E');
    assert("F"@.len() == 1 && "F"@[0] == 'F');
    assert("F#"@.len() == 2 && "F#"@[0] == 'F' && "F#"@[1] == '#');
    assert("Gb"@.len() == 2 && "Gb"@[0] == 'G' && "Gb"@[1] == 'b');
    assert("G"@.len() == 1 && "G"@[0] == 'G');
    assert("G#"@.len() == 2 && "G#"@[0] == 'G' && "G#"@[1] == '#');
    assert("Ab"@.len() == 2 && "Ab"@[0] == 'A' && "Ab"@[1] == 'b');
    assert("A"@.len() == 1 && "A"@[0] == 'A');
    assert("A#"@.len() == 2 && "A#"@[0] == 'A' && "A#"@[1] == '#');
    assert("Bb"@.len() == 2 && "Bb"@[0] == 'B' && "Bb"@[1] == 'b');
    assert("B"@.len() == 1 && "B"@[0] == 'B');
    assert(playable_pitch(sharp_name(k)) == Some(k));
}

/// A pitch brought into the range from `low` to `high`.
pub open spec fn clamped(midi: int, low: int, high: int) -> int {
    let raised = if midi < low {
        low
    } else {
        midi
    };
    if raised > high {
        high
    } else {
        raised
    }
}

/// The note that a pitch up to 255 is played as, named with sharps.
pub fn audio_note_of(pitch: u8) -> (r: AudioNote)
    ensures
        r.deep_view() == note_of_midi(pitch as int),
{
    AudioNote { note: String::from_str(sharp_name_of(pitch % 12)), octave: (pitch / 12) as i8 - 1 }
}

/// A pitch of any size brought into the range from `low` to `high`.
pub fn clamp_pitch(pitch: i128, low: u8, high: u8) -> (r: u8)
    ensures
        r == clamped(pitch as int, low as int, high as int),
{
    let raised: i128 = if pitch < low as i128 {
        low as i128
    } else {
        pitch
    };
    if raised > high as i128 {
        high
    } else {
        raised as u8
    }
}

/// The playable note for a MIDI number: the number is first brought into
/// the range from MIDI 21 to MIDI 72. This never fails.
pub fn midi_to_audio_note(midi: u8) -> (r: MusicResult<AudioNote>)
    ensures
        r is Ok,
        r->Ok_0.deep_view() == note_of_midi(clamped(midi as int, 21, 72)),
{
    Ok(audio_note_of(clamp_pitch(midi as i128, MIN_MIDI, MAX_MIDI)))
}

/// A note brought into the range of pitches from `low` to `high`.
///
/// The note must be playable. A note within the range stays as it is
/// written. A note outside, however far, becomes the nearest pitch of the
/// range, named with sharps.
pub open spec fn clamped_note(n: AudioNoteModel, low: int, high: int) -> Result<
    AudioNoteModel,
    Failure,
> {
    match pitch_in_octave(n.note, n.octave) {
        Err(e) => Err(e),
        Ok(pitch) => {
            let c = clamped(pitch, low, high);
            if c == pitch {
                Ok(n)
            } else {
                Ok(note_of_midi(c))
            }
        },
    }
}

/// Brings a note into the range of pitches from `min_midi` to `max_midi`.
/// This fails only for a note that is not playable, which is left as it
/// was.
pub fn clamp_audio_note(audio_note: &mut AudioNote, min_midi: u8, max_midi: u8) -> (r: MusicResult<
    (),
>)
    ensures
        match r {
            Ok(_) => clamped_note(old(audio_note).deep_view(), min_midi as int, max_midi as int)
                == Ok::<AudioNoteModel, Failure>(final(audio_note).deep_view()),
            Err(e) => clamped_note(old(audio_note).deep_view(), min_midi as int, max_midi as int)
                == Err::<AudioNoteModel, Failure>(e.deep_view()) && final(audio_note).deep_view()
                == old(audio_note).deep_view(),
        },
{
    let pitch = pitch_at(audio_note.note.as_str(), audio_note.octave as i128)?;
    let c = clamp_pitch(pitch, min_midi, max_midi);
    if c as i128 != pitch {
        *audio_note = audio_note_of(c);
    }
    Ok(())
}

/// The note `note` in an octave of any size, brought into the range from
/// MIDI 21 to MIDI 72.
pub fn clamped_voice(note: &String, octave: i128) -> (r: MusicResult<AudioNote>)
    requires
        -0x1_0000_0000_0000_0000_0000 <= octave <= 0x1_0000_0000_0000_0000_0000,
    ensures
        outcome(r) == clamped_note(AudioNoteModel { note: note@, octave: octave as int }, 21, 72),
{
    if -128 <= octave && octave <= 127 {
        let mut voice = AudioNote { note: note.clone(), octave: octave as i8 };
        clamp_audio_note(&mut voice, MIN_MIDI, MAX_MIDI)?;
        Ok(voice)
    } else {
        let pitch = pitch_at(note.as_str(), octave)?;
        Ok(audio_note_of(clamp_pitch(pitch, MIN_MIDI, MAX_MIDI)))
    }
}

/// Appends one note to a list of notes.
pub fn push_note(out: &mut Vec<AudioNote>, n: AudioNote)
    ensures
        final(out)@ == old(out)@.push(n),
        final(out).deep_view() == old(out).deep_view().push(n.deep_view()),
{
    out.push(n);
    assert(out.deep_view() =~= old(out).deep_view().push(n.deep_view()));
}

/// The octave of a note in close voicing, from the note before it.
///
/// The note is tried in the base octave, then in the octave of the note
/// before it, and takes the first in which it lies above that note; failing
/// both it goes one octave above the note before it. Both notes must be
/// playable.
pub open spec fn next_close_octave(
    note: Seq<char>,
    base: int,
    prev_note: Seq<char>,
    prev_octave: int,
) -> Result<int, Failure> {
    match pitch_in_octave(prev_note, prev_octave) {
        Err(e) => Err(e),
        Ok(prev) => match pitch_in_octave(note, base) {
            Err(e) => Err(e),
            Ok(at_base) => if at_base > prev {
                Ok(base)
            } else if pitch_in_octave(note, prev_octave)->Ok_0 > prev {
                Ok(prev_octave)
            } else {
                Ok(prev_octave + 1)
            },
        },
    }
}

/// What [`calc_close_voicing_octave`] returns: the base octave for the
/// first note, and for any other the octave that follows from the note
/// before it and its octave.
pub open spec fn calc_close_voicing_octave_spec(
    note: Seq<char>,
    base: int,
    prev_note: Option<Seq<char>>,
    prev_octave: int,
) -> Result<int, Failure> {
    match prev_note {
        None => Ok(base),
        Some(prev) => next_close_octave(note, base, prev, prev_octave),
    }
}

/// The octave of a note in close voicing, so that it lies above the note
/// before it, which is given with its octave.
pub fn calc_close_voicing_octave(
    note: &str,
    base_octave: i8,
    prev_note: Option<&str>,
    prev_octave: i128,
) -> (r: MusicResult<i128>)
    requires
        -0x1_0000 <= prev_octave <= 0x1_0000_0000_0000_0000_0000 - 1,
    ensures
        match r {
            Ok(octave) => calc_close_voicing_octave_spec(
                note@,
                base_octave as int,
                prev_note.deep_view(),
                prev_octave as int,
            ) == Ok::<int, Failure>(octave as int),
            Err(e) => calc_close_voicing_octave_spec(
                note@,
                base_octave as int,
                prev_note.deep_view(),
                prev_octave as int,
            ) == Err::<int, Failure>(e.deep_view()),
        },
        r is Ok ==> r->Ok_0 == base_octave || r->Ok_0 == prev_octave || r->Ok_0 == prev_octave
            + 1,
        r is Ok && prev_note is None ==> r->Ok_0 == base_octave,
{
    let prev_name = match prev_note {
        None => { return Ok(base_octave as i128); },
        Some(p) => p,
    };
    let prev = pitch_at(prev_name, prev_octave)?;
    let at_base = pitch_at(note, base_octave as i128)?;
    if at_base > prev {
        return Ok(base_octave as i128);
    }
    let at_prev = pitch_at(note, prev_octave)?;
    if at_prev > prev {
        return Ok(prev_octave);
    }
    Ok(prev_octave + 1)
}

/// The octave of the `i`-th note of a chord in close voicing.
pub open spec fn close_octave(notes: Seq<Seq<char>>, base: int, i: int) -> Result<int, Failure>
    decreases i,
{
    if i <= 0 {
        Ok(base)
    } else {
        match close_octave(notes, base, i - 1) {
            Err(e) => Err(e),
            Ok(prev_octave) => next_close_octave(notes[i], base, notes[i - 1], prev_octave),
        }
    }
}

/// Each note of a chord with its octave in close voicing.
pub open spec fn close_voicing(notes: Seq<Seq<char>>, base: int) -> Seq<Result<int, Failure>> {
    Seq::new(notes.len(), |i: int| close_octave(notes, base, i))
}

/// The octaves of the notes of a chord placed close together: the first in
/// the base octave, each further note in the first octave tried that puts
/// it above the note before it.
pub fn apply_close_voicing(notes: &[String], base_octave: i8) -> (r: MusicResult<Vec<i128>>)
    ensures
        match r {
            Ok(octaves) => all_or_first_error(close_voicing(notes.deep_view(), base_octave as int))
                == Ok::<Seq<int>, Failure>(octaves@.map_values(|o: i128| o as int)),
            Err(e) => all_or_first_error(close_voicing(notes.deep_view(), base_octave as int))
                == Err::<Seq<int>, Failure>(e.deep_view()),
        },
        r is Ok ==> r->Ok_0@.len() == notes@.len() && forall|i: int|
            0 <= i < notes@.len() ==> -0x1_0000 <= #[trigger] r->Ok_0@[i] <= 0x1_0000 + i,
{
    let ghost names = notes.deep_view();
    let ghost items = close_voicing(names, base_octave as int);
    let mut result: Vec<i128> = Vec::new();
    assert(result@.map_values(|o: i128| o as int) =~= Seq::<int>::empty());
    let mut i: usize = 0;
    while i < notes.len()
        invariant
            i <= notes.len(),
            names == notes.deep_view(),
            items == close_voicing(names, base_octave as int),
            result.len() == i,
            collected(items, i as int) == Ok::<Seq<int>, Failure>(
                result@.map_values(|o: i128| o as int),
            ),
            i > 0 ==> close_octave(names, base_octave as int, i - 1) == Ok::<int, Failure>(
                result[i - 1] as int,
            ),
            forall|k: int| 0 <= k < i ==> -0x1_0000 <= #[trigger] result@[k] <= 0x1_0000 + k,
        decreases notes.len() - i,
    {
        assert(names[i as int] == notes[i as int]@);
        let prev: Option<&str> = if i > 0 {
            assert(names[i - 1] == notes[i - 1]@);
            Some(notes[i - 1].as_str())
        } else {
            None
        };
        let prev_octave: i128 = if i > 0 {
            result[i - 1]
        } else {
            0
        };
        match calc_close_voicing_octave(notes[i].as_str(), base_octave, prev, prev_octave) {
            Ok(octave) => {
                let ghost before = result@.map_values(|o: i128| o as int);
                result.push(octave);
                assert(result@.map_values(|o: i128| o as int) =~= before.push(octave as int));
            },
            Err(e) => {
                proof {
                    lemma_collected_error(items, i + 1, notes.len() as int);
                }
                return Err(e);
            },
        }
        i += 1;
    }
    Ok(result)
}

/// The octave of each note of a chord in wide voicing: the base octave for
/// the first two notes, one octave more for each further two.
pub open spec fn wide_voicing(notes: Seq<Seq<char>>, base: int) -> Seq<int> {
    Seq::new(notes.len(), |i: int| base + i / 2)
}

/// The octaves of the notes of a chord spread upwards, two to an octave.
pub fn apply_wide_voicing(notes: &[String], base_octave: i8) -> (r: Vec<i128>)
    ensures
        r@.map_values(|o: i128| o as int) == wide_voicing(notes.deep_view(), base_octave as int),
        r@.len() == notes@.len(),
        forall|i: int| 0 <= i < r@.len() ==> -0x1_0000 <= #[trigger] r@[i] <= 0x1_0000 + i,
{
    let mut result: Vec<i128> = Vec::new();
    let mut i: usize = 0;
    while i < notes.len()
        invariant
            i <= notes.len(),
            result.len() == i,
            forall|j: int| 0 <= j < i ==> #[trigger] result@[j] == base_octave + j / 2,
        decreases notes.len() - i,
    {
        result.push(base_octave as i128 + (i / 2) as i128);
        i += 1;
    }
    assert(result@.map_values(|o: i128| o as int) =~= wide_voicing(
        notes.deep_view(),
        base_octave as int,
    ));
    result
}

/// The octaves that a style of voicing gives to the notes of a chord.
pub open spec fn placed(notes: Seq<Seq<char>>, base: int, style: VoicingStyle) -> Result<
    Seq<int>,
    Failure,
> {
    match style {
        VoicingStyle::Close => all_or_first_error(close_voicing(notes, base)),
        VoicingStyle::Wide => Ok(wide_voicing(notes, base)),
    }
}

/// Each note in its octave, brought into the range from MIDI 21 to MIDI 72.
pub open spec fn clamped_notes(notes: Seq<Seq<char>>, octaves: Seq<int>) -> Seq<
    Result<AudioNoteModel, Failure>,
> {
    Seq::new(
        notes.len(),
        |i: int| clamped_note(AudioNoteModel { note: notes[i], octave: octaves[i] }, 21, 72),
    )
}

/// What [`voice_chord`] returns: the notes in the octaves of the style,
/// each brought into the range from MIDI 21 to MIDI 72, however far outside
/// it lies. The only error is a note that is not playable: the first met, in
/// placing the notes or, after that, in bringing them into range.
pub open spec fn voice_chord_spec(notes: Seq<Seq<char>>, base: int, style: VoicingStyle) -> Result<
    Seq<AudioNoteModel>,
    Failure,
> {
    match placed(notes, base, style) {
        Err(e) => Err(e),
        Ok(octaves) => all_or_first_error(clamped_notes(notes, octaves)),
    }
}

/// Whether every note of a voicing has a pitch in the range from MIDI 21
/// to MIDI 72.
pub open spec fn voiced_within_range(voicing: Seq<AudioNoteModel>) -> bool {
    forall|i: int|
        0 <= i < voicing.len() ==> (#[trigger] pitch_of(voicing[i])) is Ok && 21 <= pitch_of(
            voicing[i],
        )->Ok_0 <= 72
}

/// Whether the pitches of a voicing never fall from one note to the next.
pub open spec fn voiced_ascending(voicing: Seq<AudioNoteModel>) -> bool {
    forall|i: int, j: int|
        0 <= i <= j < voicing.len() ==> pitch_of(voicing[i])->Ok_0 <= pitch_of(voicing[j])->Ok_0
}

/// A note brought into the range from MIDI 21 to MIDI 72 has the pitch it
/// had, brought into that range.
pub proof fn lemma_clamped_note_pitch(n: AudioNoteModel)
    requires
        clamped_note(n, 21, 72) is Ok,
    ensures
        pitch_in_octave(n.note, n.octave) is Ok,
        pitch_of(clamped_note(n, 21, 72)->Ok_0) == Ok::<u8, Failure>(
            clamped(pitch_in_octave(n.note, n.octave)->Ok_0, 21, 72) as u8,
        ),
{
    let pitch = pitch_in_octave(n.note, n.octave)->Ok_0;
    let c = clamped(pitch, 21, 72);
    if c != pitch {
        lemma_note_of_midi_pitch(c);
    }
}

/// In close voicing every note after the first lies above the note before
/// it.
pub proof fn lemma_close_octave_rises(notes: Seq<Seq<char>>, base: int, i: int)
    requires
        1 <= i < notes.len(),
        close_octave(notes, base, i) is Ok,
    ensures
        close_octave(notes, base, i - 1) is Ok,
        pitch_in_octave(notes[i], close_octave(notes, base, i)->Ok_0) is Ok,
        pitch_in_octave(notes[i - 1], close_octave(notes, base, i - 1)->Ok_0) is Ok,
        pitch_in_octave(notes[i], close_octave(notes, base, i)->Ok_0)->Ok_0 > pitch_in_octave(
            notes[i - 1],
            close_octave(notes, base, i - 1)->Ok_0,
        )->Ok_0,
{
}

/// In close voicing the pitches rise from the first note to the last.
pub proof fn lemma_close_voicing_rises(notes: Seq<Seq<char>>, base: int, i: int, j: int)
    requires
        0 <= i <= j < notes.len(),
        close_octave(notes, base, j) is Ok,
        pitch_in_octave(notes[i], 0) is Ok,
    ensures
        close_octave(notes, base, i) is Ok,
        pitch_in_octave(notes[i], close_octave(notes, base, i)->Ok_0)->Ok_0 <= pitch_in_octave(
            notes[j],
            close_octave(notes, base, j)->Ok_0,
        )->Ok_0,
    decreases j - i,
{
    if i < j {
        lemma_close_octave_rises(notes, base, j);
        lemma_close_voicing_rises(notes, base, i, j - 1);
    }
}

/// Every voicing that [`voice_chord`] makes lies within the range from
/// MIDI 21 to MIDI 72, and a close voicing never falls from one note to the
/// next.
pub proof fn lemma_voice_chord(notes: Seq<Seq<char>>, base: int, style: VoicingStyle)
    requires
        voice_chord_spec(notes, base, style) is Ok,
    ensures
        voice_chord_spec(notes, base, style)->Ok_0.len() == notes.len(),
        voiced_within_range(voice_chord_spec(notes, base, style)->Ok_0),
        style == VoicingStyle::Close ==> voiced_ascending(
            voice_chord_spec(notes, base, style)->Ok_0,
        ),
{
    let octaves = placed(notes, base, style)->Ok_0;
    let items = clamped_notes(notes, octaves);
    let voicing = voice_chord_spec(notes, base, style)->Ok_0;
    lemma_collected_ok(items, items.len() as int);
    assert forall|i: int| 0 <= i < voicing.len() implies (#[trigger] pitch_of(voicing[i])) is Ok
        && 21 <= pitch_of(voicing[i])->Ok_0 <= 72 by {
        assert(items[i] is Ok);
        lemma_clamped_note_pitch(AudioNoteModel { note: notes[i], octave: octaves[i] });
    }
    if style == VoicingStyle::Close {
        let placing = close_voicing(notes, base);
        lemma_collected_ok(placing, placing.len() as int);
        assert forall|i: int, j: int| 0 <= i <= j < voicing.len() implies pitch_of(
            voicing[i],
        )->Ok_0 <= pitch_of(voicing[j])->Ok_0 by {
            assert(items[i] is Ok && items[j] is Ok);
            assert(placing[i] is Ok && placing[j] is Ok);
            lemma_clamped_note_pitch(AudioNoteModel { note: notes[i], octave: octaves[i] });
            lemma_clamped_note_pitch(AudioNoteModel { note: notes[j], octave: octaves[j] });
            lemma_close_voicing_rises(notes, base, i, j);
        }
    }
}

/// Gives each note of a chord an octave in the given style, and brings
/// every note into the range from MIDI 21 to MIDI 72. The bass note plays
/// no part.
pub fn voice_chord(notes: &[String], _bass_note: &str, base_octave: i8, style: VoicingStyle) -> (r:
    MusicResult<Vec<AudioNote>>)
    ensures
        outcome(r) == voice_chord_spec(notes.deep_view(), base_octave as int, style),
        r is Ok ==> r->Ok_0@.len() == notes@.len() && voiced_within_range(r->Ok_0.deep_view()),
        r is Ok && style == VoicingStyle::Close ==> voiced_ascending(r->Ok_0.deep_view()),
{
    proof {
        if voice_chord_spec(notes.deep_view(), base_octave as int, style) is Ok {
            lemma_voice_chord(notes.deep_view(), base_octave as int, style);
        }
    }
    let octaves = match style {
        VoicingStyle::Close => apply_close_voicing(notes, base_octave)?,
        VoicingStyle::Wide => apply_wide_voicing(notes, base_octave),
    };
    let ghost names = notes.deep_view();
    let ghost places = octaves@.map_values(|o: i128| o as int);
    let ghost items = clamped_notes(names, places);
    let mut out: Vec<AudioNote> = Vec::new();
    assert(out.deep_view() =~= Seq::<AudioNoteModel>::empty());
    let mut i: usize = 0;
    while i < notes.len()
        invariant
            i <= notes.len(),
            octaves@.len() == notes@.len(),
            names == notes.deep_view(),
            places == octaves@.map_values(|o: i128| o as int),
            items == clamped_notes(names, places),
            placed(names, base_octave as int, style) == Ok::<Seq<int>, Failure>(places),
            forall|k: int|
                0 <= k < octaves@.len() ==> -0x1_0000 <= #[trigger] octaves@[k] <= 0x1_0000 + k,
            collected(items, i as int) == Ok::<Seq<AudioNoteModel>, Failure>(out.deep_view()),
        decreases notes.len() - i,
    {
        assert(names[i as int] == notes[i as int]@);
        match clamped_voice(&notes[i], octaves[i]) {
            Ok(n) => {
                push_note(&mut out, n);
            },
            Err(e) => {
                proof {
                    lemma_collected_error(items, i + 1, notes.len() as int);
                }
                return Err(e);
            },
        }
        i += 1;
    }
    Ok(out)
}

/// Whether pitches stand in ascending order; equal pitches may follow each
/// other.
pub open spec fn ordered(s: Seq<u8>) -> bool {
    forall|i: int, j: int| 0 <= i <= j < s.len() ==> s[i] <= s[j]
}

/// Whether pitches stand in strictly ascending order.
pub open spec fn strictly_ordered(s: Seq<u8>) -> bool {
    forall|i: int, j: int| 0 <= i < j < s.len() ==> s[i] < s[j]
}

/// Whether every pitch lies in the range from MIDI 21 to MIDI 72.
pub open spec fn within_range(s: Seq<u8>) -> bool {
    forall|i: int| 0 <= i < s.len() ==> 21 <= #[trigger] s[i] <= 72
}

/// The place at which `x` goes into `s`, looking down from index `j`:
/// behind the last pitch that is not greater than `x`.
pub open spec fn slot(s: Seq<u8>, x: u8, j: int) -> int
    decreases j,
{
    if 0 < j <= s.len() && s[j - 1] > x {
        slot(s, x, j - 1)
    } else {
        j
    }
}

/// `s` with `x` put in behind the last pitch that is not greater.
pub open spec fn inserted(s: Seq<u8>, x: u8) -> Seq<u8> {
    s.insert(slot(s, x, s.len() as int), x)
}

/// The first `n` pitches of `p` in ascending order.
pub open spec fn ascending_upto(p: Seq<u8>, n: int) -> Seq<u8>
    decreases n,
{
    if n <= 0 {
        Seq::empty()
    } else {
        inserted(ascending_upto(p, n - 1), p[n - 1])
    }
}

/// The pitches of `p` in ascending order.
pub open spec fn ascending(p: Seq<u8>) -> Seq<u8> {
    ascending_upto(p, p.len() as int)
}

/// Where `x` goes in: every pitch from there up to `j` is greater than `x`,
/// and the pitch before, if there is one, is not.
pub proof fn lemma_slot(s: Seq<u8>, x: u8, j: int)
    requires
        0 <= j <= s.len(),
    ensures
        0 <= slot(s, x, j) <= j,
        forall|k: int| slot(s, x, j) <= k < j ==> s[k] > x,
        slot(s, x, j) > 0 ==> s[slot(s, x, j) - 1] <= x,
    decreases j,
{
    if 0 < j && s[j - 1] > x {
        lemma_slot(s, x, j - 1);
    }
}

/// A list with a pitch put in holds, up to the slot, what it held; then
/// the pitch; then the rest, one place further on.
pub proof fn lemma_inserted_places(s: Seq<u8>, x: u8)
    ensures
        0 <= slot(s, x, s.len() as int) <= s.len(),
        inserted(s, x).len() == s.len() + 1,
        inserted(s, x)[slot(s, x, s.len() as int)] == x,
        forall|i: int|
            0 <= i < slot(s, x, s.len() as int) ==> #[trigger] inserted(s, x)[i] == s[i],
        forall|i: int|
            slot(s, x, s.len() as int) < i <= s.len() ==> #[trigger] inserted(s, x)[i] == s[i - 1],
{
    let k = slot(s, x, s.len() as int);
    lemma_slot(s, x, s.len() as int);
    s.insert_ensures(k, x);
    let t = inserted(s, x);
    assert forall|i: int| k < i <= s.len() implies #[trigger] t[i] == s[i - 1] by {
        assert(t[(i - 1) + 1] == s[i - 1]);
    }
}

/// Putting a pitch into an ordered list keeps it ordered.
pub proof fn lemma_inserted_ordered(s: Seq<u8>, x: u8)
    requires
        ordered(s),
    ensures
        ordered(inserted(s, x)),
{
    let k = slot(s, x, s.len() as int);
    lemma_slot(s, x, s.len() as int);
    lemma_inserted_places(s, x);
    let t = inserted(s, x);
    assert forall|i: int, j: int| 0 <= i <= j < t.len() implies t[i] <= t[j] by {
        if i < k {
            assert(t[i] == s[i]);
            assert(s[i] <= s[k - 1]);
        }
        if j > k {
            assert(t[j] == s[j - 1]);
            assert(s[j - 1] > x);
        }
        if i > k {
            assert(t[i] == s[i - 1]);
        }
        if j < k {
            assert(t[j] == s[j]);
        }
    }
}

/// Putting a pitch into a list adds exactly that pitch.
pub proof fn lemma_inserted_contains(s: Seq<u8>, x: u8, y: u8)
    ensures
        inserted(s, x).contains(y) <==> (y == x || s.contains(y)),
{
    let k = slot(s, x, s.len() as int);
    lemma_inserted_places(s, x);
    let t = inserted(s, x);
    if t.contains(y) {
        let i = choose|i: int| 0 <= i < t.len() && t[i] == y;
        if i < k {
            assert(s[i] == y);
        } else if i > k {
            assert(s[i - 1] == y);
        }
    }
    if y == x {
        assert(t[k] == y);
    }
    if s.contains(y) {
        let i = choose|i: int| 0 <= i < s.len() && s[i] == y;
        if i < k {
            assert(t[i] == y);
        } else {
            assert(t[i + 1] == s[(i + 1) - 1]);
        }
    }
}

/// Putting a pitch of the range into a list within the range keeps the
/// list within the range.
pub proof fn lemma_inserted_within_range(s: Seq<u8>, x: u8)
    requires
        within_range(s),
        21 <= x <= 72,
    ensures
        within_range(inserted(s, x)),
{
    let k = slot(s, x, s.len() as int);
    lemma_inserted_places(s, x);
    let t = inserted(s, x);
    assert forall|i: int| 0 <= i < t.len() implies 21 <= #[trigger] t[i] <= 72 by {
        if i < k {
            assert(t[i] == s[i]);
        } else if i > k {
            assert(t[i] == s[i - 1]);
        }
    }
}

/// Putting a new pitch into a strictly ordered list keeps it strictly
/// ordered.
pub proof fn lemma_inserted_strictly_ordered(s: Seq<u8>, x: u8)
    requires
        strictly_ordered(s),
        !s.contains(x),
    ensures
        strictly_ordered(inserted(s, x)),
{
    let k = slot(s, x, s.len() as int);
    lemma_slot(s, x, s.len() as int);
    lemma_inserted_places(s, x);
    let t = inserted(s, x);
    if k > 0 {
        assert(s.contains(s[k - 1]));
        assert(s[k - 1] < x);
    }
    assert forall|i: int, j: int| 0 <= i < j < t.len() implies t[i] < t[j] by {
        if i < k {
            assert(t[i] == s[i]);
            assert(i < k - 1 ==> s[i] < s[k - 1]);
        }
        if j > k {
            assert(t[j] == s[j - 1]);
            assert(s[j - 1] > x);
        }
        if i > k {
            assert(t[i] == s[i - 1]);
        }
        if j < k {
            assert(t[j] == s[j]);
        }
    }
}

/// Whether `y` is one of the first `n` pitches of `p`.
pub open spec fn among(p: Seq<u8>, n: int, y: u8) -> bool {
    exists|i: int| 0 <= i < n && #[trigger] p[i] == y
}

/// Whether no pitch occurs twice among the first `n` pitches of `p`.
pub open spec fn all_different(p: Seq<u8>, n: int) -> bool {
    forall|i: int, j: int| 0 <= i < j < n ==> #[trigger] p[i] != #[trigger] p[j]
}

/// The pitches of `p` in ascending order are ordered, as many as before,
/// and the same pitches; in range if all of `p` were, and strictly ordered
/// if no pitch occurs twice in `p`.
pub proof fn lemma_ascending(p: Seq<u8>, n: int)
    requires
        0 <= n <= p.len(),
    ensures
        ordered(ascending_upto(p, n)),
        ascending_upto(p, n).len() == n,
        forall|y: u8| ascending_upto(p, n).contains(y) <==> among(p, n, y),
        within_range(p) ==> within_range(ascending_upto(p, n)),
        all_different(p, n) ==> strictly_ordered(ascending_upto(p, n)),
    decreases n,
{
    if n > 0 {
        lemma_ascending(p, n - 1);
        let before = ascending_upto(p, n - 1);
        let last = p[n - 1];
        lemma_inserted_places(before, last);
        lemma_inserted_ordered(before, last);
        let now = ascending_upto(p, n);
        assert(now == inserted(before, last));
        assert forall|y: u8| now.contains(y) <==> among(p, n, y) by {
            lemma_inserted_contains(before, last, y);
            if now.contains(y) {
                if y != last {
                    assert(before.contains(y));
                    assert(among(p, n - 1, y));
                    let i = choose|i: int| 0 <= i < n - 1 && #[trigger] p[i] == y;
                    assert(0 <= i < n && p[i] == y);
                } else {
                    assert(p[n - 1] == y);
                }
            }
            if among(p, n, y) {
                let i = choose|i: int| 0 <= i < n && #[trigger] p[i] == y;
                if i < n - 1 {
                    assert(among(p, n - 1, y));
                    assert(before.contains(y));
                }
            }
        }
        if all_different(p, n) {
            assert(all_different(p, n - 1));
            if before.contains(last) {
                assert(among(p, n - 1, last));
                let i = choose|i: int| 0 <= i < n - 1 && #[trigger] p[i] == last;
                assert(p[i] != p[n - 1]);
            }
            lemma_inserted_strictly_ordered(before, last);
        }
        if within_range(p) {
            assert(21 <= p[n - 1] <= 72);
            lemma_inserted_within_range(before, last);
        }
    }
}

/// The pitches in ascending order are the same pitches, each as often as
/// before.
pub proof fn lemma_ascending_permutes(p: Seq<u8>, n: int)
    requires
        0 <= n <= p.len(),
    ensures
        ascending_upto(p, n).to_multiset() == p.take(n).to_multiset(),
    decreases n,
{
    if n > 0 {
        lemma_ascending_permutes(p, n - 1);
        let before = ascending_upto(p, n - 1);
        let last = p[n - 1];
        lemma_inserted_places(before, last);
        vstd::seq_lib::to_multiset_insert(before, slot(before, last, before.len() as int), last);
        vstd::seq_lib::to_multiset_build(p.take(n - 1), last);
        assert(p.take(n) =~= p.take(n - 1).push(last));
    } else {
        assert(p.take(0) =~= Seq::<u8>::empty());
        assert(ascending_upto(p, 0) =~= Seq::<u8>::empty());
    }
}

/// Puts a pitch into an ordered list, behind the last pitch that is not
/// greater.
pub fn insert_pitch(v: &mut Vec<u8>, x: u8)
    ensures
        final(v)@ == inserted(old(v)@, x),
{
    let mut j: usize = v.len();
    while j > 0 && v[j - 1] > x
        invariant
            j <= v.len(),
            v@ == old(v)@,
            slot(v@, x, j as int) == slot(v@, x, v.len() as int),
        decreases j,
    {
        j -= 1;
    }
    v.insert(j, x);
}

/// The given pitches in ascending order.
pub fn sort_upper_voices_by_pitch(voices: Vec<u8>) -> (r: Vec<u8>)
    ensures
        r@ == ascending(voices@),
        ordered(r@),
        r@.len() == voices@.len(),
        r@.to_multiset() == voices@.to_multiset(),
        within_range(voices@) ==> within_range(r@),
{
    let mut r: Vec<u8> = Vec::new();
    let mut i: usize = 0;
    while i < voices.len()
        invariant
            i <= voices.len(),
            r@ == ascending_upto(voices@, i as int),
        decreases voices.len() - i,
    {
        insert_pitch(&mut r, voices[i]);
        i += 1;
    }
    proof {
        lemma_ascending(voices@, voices@.len() as int);
        lemma_ascending_permutes(voices@, voices@.len() as int);
        assert(voices@.take(voices@.len() as int) =~= voices@);
    }
    r
}

/// The lowest octave, from `octave` up to 5, in which pitch class `pitch`
/// lies above the bass; octave 5 if none does.
pub open spec fn lowest_octave_above(pitch: int, bass_midi: int, octave: int) -> int
    decreases 5 - octave,
{
    if octave >= 5 || (octave + 1) * 12 + pitch > bass_midi {
        octave
    } else {
        lowest_octave_above(pitch, bass_midi, octave + 1)
    }
}

/// The lowest octave, from `start_octave` up to 5, in which the pitch class
/// lies above the bass.
pub fn find_octave_above_bass(pitch: u8, start_octave: u8, bass_midi: u8) -> (r: u8)
    requires
        pitch < 12,
        start_octave <= 5,
    ensures
        r == lowest_octave_above(pitch as int, bass_midi as int, start_octave as int),
        start_octave <= r <= 5,
{
    let mut octave: u8 = start_octave;
    while octave < 5 && (octave + 1) * 12 + pitch <= bass_midi
        invariant
            start_octave <= octave <= 5,
            pitch < 12,
            lowest_octave_above(pitch as int, bass_midi as int, octave as int)
                == lowest_octave_above(pitch as int, bass_midi as int, start_octave as int),
        decreases 5 - octave,
    {
        octave += 1;
    }
    octave
}

/// The pitch of an upper voice when no chord was played before: the note
/// in the lowest of the octaves 2 to 5 in which it lies above the bass,
/// brought into the range from MIDI 21 to MIDI 72.
pub open spec fn initial_pitch(pitch: int, bass_midi: int) -> int {
    clamped((lowest_octave_above(pitch, bass_midi, 2) + 1) * 12 + pitch, 21, 72)
}

/// The distance from `midi` to the nearest of the first `n` pitches of
/// `prev`; 255 if there is none.
pub open spec fn nearest_upto(prev: Seq<u8>, midi: int, n: int) -> int
    decreases n,
{
    if n <= 0 {
        255
    } else {
        let d = if midi >= prev[n - 1] {
            midi - prev[n - 1]
        } else {
            prev[n - 1] - midi
        };
        let rest = nearest_upto(prev, midi, n - 1);
        if d < rest {
            d
        } else {
            rest
        }
    }
}

/// The distance from `midi` to the nearest pitch of `prev`.
pub open spec fn nearest(prev: Seq<u8>, midi: int) -> int {
    nearest_upto(prev, midi, prev.len() as int)
}

/// The distance from `midi` to the nearest pitch of `prev`.
pub fn nearest_distance(prev: &Vec<u8>, midi: u8) -> (r: u8)
    ensures
        r == nearest(prev@, midi as int),
{
    let mut best: u8 = 255;
    let mut i: usize = 0;
    while i < prev.len()
        invariant
            i <= prev.len(),
            best == nearest_upto(prev@, midi as int, i as int),
        decreases prev.len() - i,
    {
        let d: u8 = if midi >= prev[i] {
            midi - prev[i]
        } else {
            prev[i] - midi
        };
        if d < best {
            best = d;
        }
        i += 1;
    }
    best
}

/// The pitch of an upper voice after a chord with the upper voices `prev`:
/// of the note in octave 2 and in octave 3, the one nearer to the pitch of
/// `prev` that is nearest to it. Octave 2 counts only if the note lies
/// above the bass there, and wins when both are equally near. The bass lies
/// in octave 2, so that the note in octave 3 is always above it.
pub open spec fn led_pitch(pitch: int, bass_midi: int, prev: Seq<u8>) -> int {
    let low = 36 + pitch;
    let high = 48 + pitch;
    if low > bass_midi && nearest(prev, low) <= nearest(prev, high) {
        low
    } else {
        high
    }
}

/// The octave, 2 or 3, in which a pitch class lies nearest to the upper
/// voices of the chord before.
pub fn find_closest_octave(pitch: u8, bass_midi: u8, previous_upper: &Vec<u8>) -> (r: u8)
    requires
        pitch < 12,
    ensures
        r == 2 || r == 3,
        (r + 1) * 12 + pitch == led_pitch(pitch as int, bass_midi as int, previous_upper@),
{
    let low: u8 = 36 + pitch;
    let high: u8 = 48 + pitch;
    if low > bass_midi && nearest_distance(previous_upper, low) <= nearest_distance(
        previous_upper,
        high,
    ) {
        2
    } else {
        3
    }
}

/// The pitch of one upper voice: the note must be playable; it is placed
/// near the upper voices `prev` of the chord before, or, without such a
/// chord, as low as it can lie above the bass.
pub open spec fn upper_pitch(prev: Option<Seq<u8>>, note: Seq<char>, bass_midi: int) -> Result<
    u8,
    Failure,
> {
    match playable_pitch(note) {
        None => Err(Failure::ParseError("Invalid note: "@ + note)),
        Some(pitch) => Ok(
            (match prev {
                None => initial_pitch(pitch, bass_midi),
                Some(v) => led_pitch(pitch, bass_midi, v),
            }) as u8,
        ),
    }
}

/// With the bass in octave 2, an upper voice lies in octave 2 or 3, above
/// the bass if it is placed without a chord before, and on its own pitch
/// class.
pub proof fn lemma_upper_pitch(prev: Option<Seq<u8>>, note: Seq<char>, bass_midi: int)
    requires
        36 <= bass_midi <= 47,
        upper_pitch(prev, note, bass_midi) is Ok,
    ensures
        36 <= upper_pitch(prev, note, bass_midi)->Ok_0 <= 59,
        upper_pitch(prev, note, bass_midi)->Ok_0 % 12 == playable_pitch(note)->0,
{
    let pitch = playable_pitch(note)->0;
    assert(0 <= pitch < 12);
    reveal_with_fuel(lowest_octave_above, 3);
    let octave = lowest_octave_above(pitch, bass_midi, 2);
    assert(octave == 2 || octave == 3);
}

/// Places one upper voice.
pub fn place_upper_voice(note: &str, bass_midi: u8, prev: &Option<Vec<u8>>) -> (r: MusicResult<u8>)
    requires
        36 <= bass_midi <= 47,
    ensures
        outcome(r) == upper_pitch(
            match prev {
                Some(v) => Some(v@),
                None => None,
            },
            note@,
            bass_midi as int,
        ),
        r is Ok ==> 36 <= r->Ok_0 <= 59,
{
    proof {
        let before: Option<Seq<u8>> = match prev {
            Some(v) => Some(v@),
            None => None,
        };
        if upper_pitch(before, note@, bass_midi as int) is Ok {
            lemma_upper_pitch(before, note@, bass_midi as int);
        }
    }
    let pitch = match playable_pitch_of(&chars_of(note)) {
        Some(p) => p,
        None => {
            return Err(MusicError::ParseError(String::from_str("Invalid note: ").concat(note)));
        },
    };
    match prev {
        None => {
            let octave = find_octave_above_bass(pitch, 2, bass_midi);
            Ok(clamp_pitch(((octave + 1) * 12 + pitch) as i128, MIN_MIDI, MAX_MIDI))
        },
        Some(v) => {
            let octave = find_closest_octave(pitch, bass_midi, v);
            Ok((octave + 1) * 12 + pitch)
        },
    }
}

/// The index of the first of `notes`, at or after `i`, that is written as
/// `bass`; the length of `notes` if none is.
pub open spec fn first_match(notes: Seq<Seq<char>>, bass: Seq<char>, i: int) -> int
    decreases notes.len() - i,
{
    if i < 0 || i >= notes.len() {
        notes.len() as int
    } else if notes[i] == bass {
        i
    } else {
        first_match(notes, bass, i + 1)
    }
}

/// The notes that go to the upper voices: `notes` without the first note
/// that is written as `bass`.
pub open spec fn without_first(notes: Seq<Seq<char>>, bass: Seq<char>) -> Seq<Seq<char>> {
    let k = first_match(notes, bass, 0);
    if k < notes.len() {
        notes.remove(k)
    } else {
        notes
    }
}

/// The notes that go to the upper voices.
pub fn upper_notes_of(notes: &[String], bass_note: &str) -> (r: Vec<String>)
    ensures
        r.deep_view() == without_first(notes.deep_view(), bass_note@),
{
    let ghost names = notes.deep_view();
    let bass = String::from_str(bass_note);
    let mut k: usize = 0;
    while k < notes.len() && !notes[k].eq(&bass)
        invariant
            k <= notes.len(),
            names == notes.deep_view(),
            bass@ == bass_note@,
            first_match(names, bass_note@, k as int) == first_match(names, bass_note@, 0),
        decreases notes.len() - k,
    {
        assert(names[k as int] == notes[k as int]@);
        k += 1;
    }
    proof {
        if k < notes.len() {
            assert(names[k as int] == notes[k as int]@);
        }
    }
    let mut out: Vec<String> = Vec::new();
    let mut i: usize = 0;
    while i < notes.len()
        invariant
            i <= notes.len(),
            k <= notes.len(),
            names == notes.deep_view(),
            out.len() == (if i <= k {
                i as int
            } else {
                i - 1
            }),
            forall|j: int|
                0 <= j < out.len() ==> (#[trigger] out[j])@ == names[if j < k {
                    j
                } else {
                    j + 1
                }],
        decreases notes.len() - i,
    {
        if i != k {
            assert(names[i as int] == notes[i as int]@);
            out.push(notes[i].clone());
        }
        i += 1;
    }
    proof {
        if k < notes.len() {
            names.remove_ensures(k as int);
            assert(out.deep_view() =~= names.remove(k as int));
        } else {
            assert(out.deep_view() =~= names);
        }
    }
    out
}

/// What voice leading remembers from one chord to the next: the voicing
/// that was made last, bass first. A new progression starts from a state
/// that remembers nothing.
pub struct VoicingState {
    previous: Option<Vec<AudioNote>>,
}

impl VoicingState {
    /// The voicing that was made last, if any.
    pub closed spec fn previous(&self) -> Option<Seq<AudioNoteModel>> {
        match self.previous {
            Some(v) => Some(v.deep_view()),
            None => None,
        }
    }

    /// Every upper voice that is remembered has a pitch.
    pub open spec fn well_formed(&self) -> bool {
        match self.previous() {
            Some(v) => forall|i: int| 1 <= i < v.len() ==> (#[trigger] pitch_of(v[i])) is Ok,
            None => true,
        }
    }

    /// A state that remembers nothing.
    pub fn new() -> (s: Self)
        ensures
            s.previous() is None,
            s.well_formed(),
    {
        VoicingState { previous: None }
    }
}

/// Forgets the voicing that was made last; to be called when a new
/// progression starts or the key changes.
pub fn reset_voicing(state: &mut VoicingState)
    ensures
        final(state).previous() is None,
        final(state).well_formed(),
{
    state.previous = None;
}

/// The pitches of the upper voices of the voicing that was made last, if it
/// had any.
pub open spec fn previous_upper(previous: Option<Seq<AudioNoteModel>>) -> Option<Seq<u8>> {
    match previous {
        Some(v) => if v.len() > 1 {
            Some(Seq::new((v.len() - 1) as nat, |i: int| pitch_of(v[i + 1])->Ok_0))
        } else {
            None
        },
        None => None,
    }
}

/// The pitches of the upper voices of the voicing that was made last.
pub fn get_previous_upper_voices(state: &VoicingState) -> (r: Option<Vec<u8>>)
    requires
        state.well_formed(),
    ensures
        match r {
            Some(v) => previous_upper(state.previous()) == Some(v@),
            None => previous_upper(state.previous()) is None,
        },
{
    let voices = match &state.previous {
        Some(v) => v,
        None => { return None; },
    };
    if voices.len() <= 1 {
        return None;
    }
    let ghost models = voices.deep_view();
    let mut pitches: Vec<u8> = Vec::new();
    let mut i: usize = 1;
    while i < voices.len()
        invariant
            1 <= i <= voices.len(),
            models == voices.deep_view(),
            forall|k: int| 1 <= k < models.len() ==> (#[trigger] pitch_of(models[k])) is Ok,
            pitches.len() == i - 1,
            forall|j: int| 0 <= j < i - 1 ==> pitches[j] == pitch_of(models[j + 1])->Ok_0,
        decreases voices.len() - i,
    {
        assert(models[i as int] == voices[i as int].deep_view());
        assert(pitch_of(models[i as int]) is Ok);
        match note_to_midi(voices[i].note.as_str(), voices[i].octave) {
            Ok(midi) => {
                pitches.push(midi);
            },
            Err(_) => {
                // Not reached: every upper voice that is remembered has a pitch.
                return None;
            },
        }
        i += 1;
    }
    assert(pitches@ =~= previous_upper(state.previous())->0);
    Some(pitches)
}

/// The pitch of each upper voice, in the order of the notes.
pub open spec fn upper_pitches(prev: Option<Seq<u8>>, upper: Seq<Seq<char>>, bass_midi: int) -> Seq<
    Result<u8, Failure>,
> {
    Seq::new(upper.len(), |i: int| upper_pitch(prev, upper[i], bass_midi))
}

/// The pitch of each upper voice, in the order of the notes.
pub fn build_upper_voices(upper: &Vec<String>, bass_midi: u8, prev: &Option<Vec<u8>>) -> (r:
    MusicResult<Vec<u8>>)
    requires
        36 <= bass_midi <= 47,
    ensures
        outcome(r) == all_or_first_error(
            upper_pitches(
                match prev {
                    Some(v) => Some(v@),
                    None => None,
                },
                upper.deep_view(),
                bass_midi as int,
            ),
        ),
        r is Ok ==> within_range(r->Ok_0@),
{
    let ghost before: Option<Seq<u8>> = match prev {
        Some(v) => Some(v@),
        None => None,
    };
    let ghost items = upper_pitches(before, upper.deep_view(), bass_midi as int);
    let mut out: Vec<u8> = Vec::new();
    let mut i: usize = 0;
    while i < upper.len()
        invariant
            i <= upper.len(),
            36 <= bass_midi <= 47,
            before == (match prev {
                Some(v) => Some(v@),
                None => None,
            }),
            items == upper_pitches(before, upper.deep_view(), bass_midi as int),
            collected(items, i as int) == Ok::<Seq<u8>, Failure>(out@),
            within_range(out@),
        decreases upper.len() - i,
    {
        assert(upper.deep_view()[i as int] == upper[i as int]@);
        match place_upper_voice(upper[i].as_str(), bass_midi, prev) {
            Ok(midi) => {
                out.push(midi);
            },
            Err(e) => {
                proof {
                    lemma_collected_error(items, i + 1, upper.len() as int);
                }
                return Err(e);
            },
        }
        i += 1;
    }
    assert(outcome(Ok::<Vec<u8>, MusicError>(out)) == Ok::<Seq<u8>, Failure>(out@)) by {
        assert(out.deep_view() =~= out@);
    }
    Ok(out)
}

/// The notes that the given pitches are played as.
pub open spec fn voices_of(pitches: Seq<u8>) -> Seq<AudioNoteModel> {
    Seq::new(pitches.len(), |i: int| note_of_midi(pitches[i] as int))
}

/// What [`voice_chord_with_leading`] returns, from the voicing that was
/// made last, the notes of the chord and its bass note.
///
/// The bass is the bass note in octave 2. The upper voices are the notes
/// without the first that is written as the bass note. Without upper
/// voices the bass alone is the voicing. Otherwise the bass and every
/// upper note must be playable; each upper note is placed near the upper
/// voices of the voicing that was made last, or, if there are none, as low
/// as it can lie above the bass; and the upper voices follow the bass in
/// ascending order of pitch, named with sharps.
pub open spec fn led_voicing(
    previous: Option<Seq<AudioNoteModel>>,
    notes: Seq<Seq<char>>,
    bass: Seq<char>,
) -> Result<Seq<AudioNoteModel>, Failure> {
    let upper = without_first(notes, bass);
    let bass_voice = AudioNoteModel { note: bass, octave: 2 };
    if upper.len() == 0 {
        Ok(seq![bass_voice])
    } else {
        match note_to_midi_spec(bass, 2) {
            Err(e) => Err(e),
            Ok(bass_midi) => match all_or_first_error(
                upper_pitches(previous_upper(previous), upper, bass_midi as int),
            ) {
                Err(e) => Err(e),
                Ok(pitches) => Ok(seq![bass_voice] + voices_of(ascending(pitches))),
            },
        }
    }
}

/// Whether no two of the given notes are playable on the same pitch class.
pub open spec fn different_pitch_classes(notes: Seq<Seq<char>>) -> bool {
    forall|i: int, j: int|
        0 <= i < j < notes.len() ==> #[trigger] playable_pitch(notes[i]) != #[trigger] playable_pitch(
            notes[j],
        )
}

/// What holds of every voicing that voice leading makes: the bass is the
/// bass note in octave 2; every voice that has a pitch lies in the range
/// from MIDI 21 to MIDI 72, and every upper voice has one; the upper voices
/// ascend.
pub open spec fn well_voiced(voicing: Seq<AudioNoteModel>, bass: Seq<char>) -> bool {
    &&& voicing.len() >= 1
    &&& voicing[0] == AudioNoteModel { note: bass, octave: 2 }
    &&& pitch_of(voicing[0]) is Ok ==> 21 <= pitch_of(voicing[0])->Ok_0 <= 72
    &&& forall|i: int|
        1 <= i < voicing.len() ==> (#[trigger] pitch_of(voicing[i])) is Ok && 21 <= pitch_of(
            voicing[i],
        )->Ok_0 <= 72
    &&& forall|i: int, j: int|
        1 <= i <= j < voicing.len() ==> pitch_of(voicing[i])->Ok_0 <= pitch_of(voicing[j])->Ok_0
}

/// Whether the upper voices of a voicing ascend strictly.
pub open spec fn strictly_ascending(voicing: Seq<AudioNoteModel>) -> bool {
    forall|i: int, j: int|
        1 <= i < j < voicing.len() ==> pitch_of(voicing[i])->Ok_0 < pitch_of(voicing[j])->Ok_0
}

/// Every voicing that voice leading makes is well voiced, and its upper
/// voices ascend strictly if no two upper notes share a pitch class.
pub proof fn lemma_led_voicing_well_voiced(
    previous: Option<Seq<AudioNoteModel>>,
    notes: Seq<Seq<char>>,
    bass: Seq<char>,
)
    requires
        led_voicing(previous, notes, bass) is Ok,
    ensures
        well_voiced(led_voicing(previous, notes, bass)->Ok_0, bass),
        different_pitch_classes(without_first(notes, bass)) ==> strictly_ascending(
            led_voicing(previous, notes, bass)->Ok_0,
        ),
{
    let upper = without_first(notes, bass);
    let voicing = led_voicing(previous, notes, bass)->Ok_0;
    let bass_voice = AudioNoteModel { note: bass, octave: 2 };
    if upper.len() == 0 {
        assert(voicing =~= seq![bass_voice]);
    } else {
        let bass_midi = note_to_midi_spec(bass, 2)->Ok_0;
        let prev = previous_upper(previous);
        let items = upper_pitches(prev, upper, bass_midi as int);
        let pitches = all_or_first_error(items)->Ok_0;
        lemma_collected_ok(items, items.len() as int);
        assert forall|i: int| 0 <= i < pitches.len() implies 36 <= #[trigger] pitches[i] <= 59
            && pitches[i] % 12 == playable_pitch(upper[i])->0 by {
            assert(items[i] is Ok);
            lemma_upper_pitch(prev, upper[i], bass_midi as int);
        }
        assert(within_range(pitches));
        lemma_ascending(pitches, pitches.len() as int);
        let sorted = ascending(pitches);
        assert(voicing =~= seq![bass_voice] + voices_of(sorted));
        assert forall|i: int| 1 <= i < voicing.len() implies (#[trigger] pitch_of(voicing[i]))
            == Ok::<u8, Failure>(sorted[i - 1]) by {
            assert(voicing[i] == note_of_midi(sorted[i - 1] as int));
            lemma_note_of_midi_pitch(sorted[i - 1] as int);
        }
        assert forall|i: int, j: int| 1 <= i <= j < voicing.len() implies pitch_of(
            voicing[i],
        )->Ok_0 <= pitch_of(voicing[j])->Ok_0 by {
            assert(pitch_of(voicing[i]) == Ok::<u8, Failure>(sorted[i - 1]));
            assert(pitch_of(voicing[j]) == Ok::<u8, Failure>(sorted[j - 1]));
        }
        if different_pitch_classes(upper) {
            assert forall|i: int, j: int| 0 <= i < j < pitches.len() implies #[trigger] pitches[i]
                != #[trigger] pitches[j] by {
                assert(playable_pitch(upper[i]) != playable_pitch(upper[j]));
                assert(items[i] is Ok && items[j] is Ok);
            }
            assert(all_different(pitches, pitches.len() as int));
            assert forall|i: int, j: int| 1 <= i < j < voicing.len() implies pitch_of(
                voicing[i],
            )->Ok_0 < pitch_of(voicing[j])->Ok_0 by {
                assert(pitch_of(voicing[i]) == Ok::<u8, Failure>(sorted[i - 1]));
                assert(pitch_of(voicing[j]) == Ok::<u8, Failure>(sorted[j - 1]));
            }
        }
    }
}

/// A copy of a voicing.
pub fn copy_voicing(voicing: &Vec<AudioNote>) -> (r: Vec<AudioNote>)
    ensures
        r.deep_view() == voicing.deep_view(),
{
    let mut r: Vec<AudioNote> = Vec::new();
    let mut i: usize = 0;
    while i < voicing.len()
        invariant
            i <= voicing.len(),
            r.len() == i,
            forall|j: int| 0 <= j < i ==> (#[trigger] r[j]).deep_view() == voicing[j].deep_view(),
        decreases voicing.len() - i,
    {
        r.push(AudioNote { note: voicing[i].note.clone(), octave: voicing[i].octave });
        i += 1;
    }
    assert(r.deep_view() =~= voicing.deep_view());
    r
}

/// Voices a chord so that it follows the chord voiced before it smoothly.
///
/// The bass stays in octave 2; the upper voices move to the places nearest
/// to the upper voices of the voicing in `state`, and are given in
/// ascending order. The new voicing takes the place of the old one in
/// `state`; on an error `state` keeps what it had. The base octave plays no
/// part.
pub fn voice_chord_with_leading(
    state: &mut VoicingState,
    notes: &[String],
    bass_note: &str,
    _base_octave: i8,
) -> (r: MusicResult<Vec<AudioNote>>)
    requires
        old(state).well_formed(),
    ensures
        final(state).well_formed(),
        outcome(r) == led_voicing(old(state).previous(), notes.deep_view(), bass_note@),
        match r {
            Ok(v) => final(state).previous() == Some(v.deep_view()) && well_voiced(
                v.deep_view(),
                bass_note@,
            ) && (different_pitch_classes(without_first(notes.deep_view(), bass_note@))
                ==> strictly_ascending(v.deep_view())),
            Err(_) => final(state).previous() == old(state).previous(),
        },
{
    let ghost spec_result = led_voicing(old(state).previous(), notes.deep_view(), bass_note@);
    let upper = upper_notes_of(notes, bass_note);
    let mut result: Vec<AudioNote> = Vec::new();
    assert(result.deep_view() =~= Seq::<AudioNoteModel>::empty());
    push_note(&mut result, AudioNote { note: String::from_str(bass_note), octave: BASS_OCTAVE });
    let ghost bass_voice = AudioNoteModel { note: bass_note@, octave: 2 };
    assert(result.deep_view() =~= seq![bass_voice]);
    if upper.len() > 0 {
        let bass_midi = note_to_midi(bass_note, BASS_OCTAVE)?;
        let prev = get_previous_upper_voices(state);
        let ghost before: Option<Seq<u8>> = match &prev {
            Some(v) => Some(v@),
            None => None,
        };
        assert(before == previous_upper(old(state).previous()));
        let placed = build_upper_voices(&upper, bass_midi, &prev)?;
        assert(placed.deep_view() =~= placed@);
        let sorted = sort_upper_voices_by_pitch(placed);
        let mut i: usize = 0;
        while i < sorted.len()
            invariant
                i <= sorted.len(),
                within_range(sorted@),
                result.deep_view() == seq![bass_voice] + voices_of(sorted@).take(i as int),
            decreases sorted.len() - i,
        {
            push_note(&mut result, audio_note_of(sorted[i]));
            i += 1;
            assert(result.deep_view() =~= seq![bass_voice] + voices_of(sorted@).take(i as int));
        }
        assert(voices_of(sorted@).take(sorted.len() as int) =~= voices_of(sorted@));
        assert(spec_result == Ok::<Seq<AudioNoteModel>, Failure>(result.deep_view()));
    }
    proof {
        assert(outcome(Ok::<Vec<AudioNote>, MusicError>(result)) == spec_result);
        lemma_led_voicing_well_voiced(old(state).previous(), notes.deep_view(), bass_note@);
    }
    state.previous = Some(copy_voicing(&result));
    Ok(result)
}

/// After a reset, voice leading makes the voicing that it makes in a state
/// that has never been used: nothing of what was played before is left.
pub proof fn lemma_reset_forgets(
    after_reset: VoicingState,
    fresh: VoicingState,
    notes: Seq<Seq<char>>,
    bass: Seq<char>,
)
    requires
        after_reset.previous() is None,
        fresh.previous() is None,
    ensures
        led_voicing(after_reset.previous(), notes, bass) == led_voicing(
            fresh.previous(),
            notes,
            bass,
        ),
{
}

} // verus!
