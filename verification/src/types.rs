//! The data types shared by the whole library, each with its mathematical
//! model.

use vstd::prelude::*;
use vstd::string::*;

verus! {

/// A chord: root note, quality suffix and, for a slash chord, the bass note.
#[derive(Debug, Clone, PartialEq, Eq, Hash)]
pub struct Chord {
    pub root: String,
    pub suffix: String,
    pub bass: Option<String>,
}

/// The model of a [`Chord`]: its three parts as text.
pub struct ChordModel {
    pub root: Seq<char>,
    pub suffix: Seq<char>,
    pub bass: Option<Seq<char>>,
}

impl DeepView for Chord {
    type V = ChordModel;

    open spec fn deep_view(&self) -> ChordModel {
        ChordModel {
            root: self.root@,
            suffix: self.suffix@,
            bass: match self.bass {
                Some(b) => Some(b@),
                None => None,
            },
        }
    }
}

/// A chord name together with the Roman numeral it is displayed with.
#[derive(Debug, Clone)]
pub struct ChordNotation {
    pub chord: String,
    pub numeral: String,
}

/// The model of a [`ChordNotation`].
pub struct ChordNotationModel {
    pub chord: Seq<char>,
    pub numeral: Seq<char>,
}

impl DeepView for ChordNotation {
    type V = ChordNotationModel;

    open spec fn deep_view(&self) -> ChordNotationModel {
        ChordNotationModel { chord: self.chord@, numeral: self.numeral@ }
    }
}

/// A playable pitch: a note name and its octave.
#[derive(Debug, Clone)]
pub struct AudioNote {
    pub note: String,
    pub octave: i8,
}

/// The model of an [`AudioNote`].
pub struct AudioNoteModel {
    pub note: Seq<char>,
    pub octave: int,
}

impl DeepView for AudioNote {
    type V = AudioNoteModel;

    open spec fn deep_view(&self) -> AudioNoteModel {
        AudioNoteModel { note: self.note@, octave: self.octave as int }
    }
}

/// How the notes of a chord are spread over octaves.
#[derive(Debug, Clone, Copy, PartialEq, Eq, Structural)]
pub enum VoicingStyle {
    Close,
    Wide,
}

/// How adventurous a recommended chord is.
#[derive(Debug, Clone, Copy, PartialEq, Eq, Structural)]
pub enum Tier {
    Safe,
    Colorful,
    Bold,
}

/// An accidental in front of a Roman numeral.
#[derive(Debug, Clone, Copy, PartialEq, Eq, Structural)]
pub enum Accidental {
    Flat,
    Sharp,
    DoubleFlat,
    DoubleSharp,
}

/// The parts of a Roman numeral.
#[derive(Debug, Clone)]
pub struct RomanNumeralParts {
    /// Scale degree, 1 to 7.
    pub degree: u8,
    pub accidental: Option<Accidental>,
    pub is_minor: bool,
    pub suffix: String,
    /// The text after the slash, for a slash numeral.
    pub bass: Option<String>,
}

/// The model of [`RomanNumeralParts`].
pub struct RomanNumeralModel {
    pub degree: int,
    pub accidental: Option<Accidental>,
    pub is_minor: bool,
    pub suffix: Seq<char>,
    pub bass: Option<Seq<char>>,
}

impl DeepView for RomanNumeralParts {
    type V = RomanNumeralModel;

    open spec fn deep_view(&self) -> RomanNumeralModel {
        RomanNumeralModel {
            degree: self.degree as int,
            accidental: self.accidental,
            is_minor: self.is_minor,
            suffix: self.suffix@,
            bass: match self.bass {
                Some(b) => Some(b@),
                None => None,
            },
        }
    }
}

/// What can go wrong in a music-theory operation; each variant carries the
/// text that explains the failure.
#[derive(Debug)]
pub enum MusicError {
    InvalidChord(String),
    InvalidKey(String),
    InvalidRomanNumeral(String),
    UnknownQuality(String),
    DataLookupFailed(String),
    VoiceLeadingError(String),
    ParseError(String),
}

/// The model of a [`MusicError`]: the same variants over text.
pub enum Failure {
    InvalidChord(Seq<char>),
    InvalidKey(Seq<char>),
    InvalidRomanNumeral(Seq<char>),
    UnknownQuality(Seq<char>),
    DataLookupFailed(Seq<char>),
    VoiceLeadingError(Seq<char>),
    ParseError(Seq<char>),
}

impl DeepView for MusicError {
    type V = Failure;

    open spec fn deep_view(&self) -> Failure {
        match self {
            MusicError::InvalidChord(s) => Failure::InvalidChord(s@),
            MusicError::InvalidKey(s) => Failure::InvalidKey(s@),
            MusicError::InvalidRomanNumeral(s) => Failure::InvalidRomanNumeral(s@),
            MusicError::UnknownQuality(s) => Failure::UnknownQuality(s@),
            MusicError::DataLookupFailed(s) => Failure::DataLookupFailed(s@),
            MusicError::VoiceLeadingError(s) => Failure::VoiceLeadingError(s@),
            MusicError::ParseError(s) => Failure::ParseError(s@),
        }
    }
}

/// The sentence a failure is reported with: a fixed heading for the variant,
/// then the text it carries.
pub open spec fn failure_message(f: Failure) -> Seq<char> {
    match f {
        Failure::InvalidChord(s) => "Invalid chord: "@ + s,
        Failure::InvalidKey(s) => "Invalid key: "@ + s,
        Failure::InvalidRomanNumeral(s) => "Invalid roman numeral: "@ + s,
        Failure::UnknownQuality(s) => "Unknown chord quality: "@ + s,
        Failure::DataLookupFailed(s) => "Data lookup failed for key: "@ + s,
        Failure::VoiceLeadingError(s) => "Voice leading failed: "@ + s,
        Failure::ParseError(s) => "Parsing error: "@ + s,
    }
}

impl MusicError {
    /// The sentence this error is reported with.
    pub fn message(&self) -> (r: String)
        ensures
            r@ == failure_message(self.deep_view()),
    {
        match self {
            MusicError::InvalidChord(s) => String::from_str("Invalid chord: ").concat(s.as_str()),
            MusicError::InvalidKey(s) => String::from_str("Invalid key: ").concat(s.as_str()),
            MusicError::InvalidRomanNumeral(s) => String::from_str("Invalid roman numeral: ").concat(
                s.as_str(),
            ),
            MusicError::UnknownQuality(s) => String::from_str("Unknown chord quality: ").concat(
                s.as_str(),
            ),
            MusicError::DataLookupFailed(s) => String::from_str(
                "Data lookup failed for key: ",
            ).concat(s.as_str()),
            MusicError::VoiceLeadingError(s) => String::from_str("Voice leading failed: ").concat(
                s.as_str(),
            ),
            MusicError::ParseError(s) => String::from_str("Parsing error: ").concat(s.as_str()),
        }
    }
}

/// The result of a music-theory operation.
pub type MusicResult<T> = Result<T, MusicError>;

/// The model of a result: the model of the value, or of the error.
pub open spec fn outcome<T: DeepView>(r: Result<T, MusicError>) -> Result<T::V, Failure> {
    match r {
        Ok(v) => Ok(v.deep_view()),
        Err(e) => Err(e.deep_view()),
    }
}

/// The first `n` of a list of results gathered into one: the values in
/// order, or the first error met.
pub open spec fn collected<T, E>(items: Seq<Result<T, E>>, n: int) -> Result<Seq<T>, E>
    decreases n,
{
    if n <= 0 {
        Ok(Seq::empty())
    } else {
        match collected(items, n - 1) {
            Err(e) => Err(e),
            Ok(done) => match items[n - 1] {
                Err(e) => Err(e),
                Ok(v) => Ok(done.push(v)),
            },
        }
    }
}

/// A list of results gathered into one: all the values in order, or the
/// first error.
pub open spec fn all_or_first_error<T, E>(items: Seq<Result<T, E>>) -> Result<Seq<T>, E> {
    collected(items, items.len() as int)
}

/// Once gathering has met an error, gathering more gives the same error.
pub proof fn lemma_collected_error<T, E>(items: Seq<Result<T, E>>, k: int, n: int)
    requires
        0 <= k <= n,
        collected(items, k) is Err,
    ensures
        collected(items, n) == collected(items, k),
    decreases n - k,
{
    if k < n {
        lemma_collected_error(items, k, n - 1);
    }
}

/// What gathering gives when it succeeds: as many values as there were
/// results, each the value of the result in its place.
pub proof fn lemma_collected_ok<T, E>(items: Seq<Result<T, E>>, n: int)
    requires
        0 <= n <= items.len(),
        collected(items, n) is Ok,
    ensures
        collected(items, n)->Ok_0.len() == n,
        forall|i: int|
            0 <= i < n ==> (#[trigger] items[i]) is Ok && collected(items, n)->Ok_0[i]
                == items[i]->Ok_0,
    decreases n,
{
    if n > 0 {
        lemma_collected_ok(items, n - 1);
        let earlier = collected(items, n - 1)->Ok_0;
        assert forall|i: int| 0 <= i < n implies (#[trigger] items[i]) is Ok && collected(
            items,
            n,
        )->Ok_0[i] == items[i]->Ok_0 by {
            if i < n - 1 {
                assert(earlier[i] == items[i]->Ok_0);
            }
        }
    }
}

/// What the validation of free text found.
#[derive(Debug, Clone)]
pub struct ChordValidationResult {
    pub valid: bool,
    pub chord: Option<String>,
    pub normalized_chord: Option<String>,
    pub message: Option<String>,
    pub input_type: Option<String>,
}

/// The model of a [`ChordValidationResult`].
pub struct ValidationModel {
    pub valid: bool,
    pub chord: Option<Seq<char>>,
    pub normalized_chord: Option<Seq<char>>,
    pub message: Option<Seq<char>>,
    pub input_type: Option<Seq<char>>,
}

impl DeepView for ChordValidationResult {
    type V = ValidationModel;

    open spec fn deep_view(&self) -> ValidationModel {
        ValidationModel {
            valid: self.valid,
            chord: self.chord.deep_view(),
            normalized_chord: self.normalized_chord.deep_view(),
            message: self.message.deep_view(),
            input_type: self.input_type.deep_view(),
        }
    }
}

} // verus!
