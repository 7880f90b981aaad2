//! Worksheets: the description of a sheet of exercises, and its notation
//! as a LilyPond document.

use crate::text::{
    append, chars_of, concat, contains_text, decimal, has_text, is_text, push_number, string_of,
};
use vstd::prelude::*;
use vstd::string::*;

verus! {

/// What a worksheet trains.
#[derive(Debug, Clone, Copy, PartialEq, Eq, Structural)]
pub enum WorksheetType {
    ChordNaming,
    IntervalRecognition,
    ScaleBuilding,
    RhythmExercise,
    NoteIdentification,
}

/// What an element of a worksheet is.
#[derive(Debug, Clone, Copy, PartialEq, Eq, Structural)]
pub enum EditableElementType {
    Chord,
    Note,
    Rest,
    Text,
    TimeSignature,
    KeySignature,
}

/// Where an element stands: measure and beat, both counted from 1, and
/// perhaps a voice.
#[derive(Debug, Clone, Copy, PartialEq, Eq, Structural)]
pub struct ElementPosition {
    pub measure: u32,
    pub beat: u32,
    pub voice: Option<u32>,
}

/// One element of a worksheet.
#[derive(Debug, Clone)]
pub struct EditableElement {
    pub id: String,
    pub element_type: EditableElementType,
    pub position: ElementPosition,
    pub content: String,
    pub is_answer: bool,
    pub is_interactive: bool,
}

/// The model of an [`EditableElement`].
pub struct ElementModel {
    pub id: Seq<char>,
    pub element_type: EditableElementType,
    pub position: ElementPosition,
    pub content: Seq<char>,
    pub is_answer: bool,
    pub is_interactive: bool,
}

impl DeepView for EditableElement {
    type V = ElementModel;

    open spec fn deep_view(&self) -> ElementModel {
        ElementModel {
            id: self.id@,
            element_type: self.element_type,
            position: self.position,
            content: self.content@,
            is_answer: self.is_answer,
            is_interactive: self.is_interactive,
        }
    }
}

/// The clef of a section.
#[derive(Debug, Clone, Copy, PartialEq, Eq, Structural)]
pub enum Clef {
    Treble,
    Bass,
    Both,
}

/// How a section is laid out.
#[derive(Debug, Clone)]
pub struct WorksheetSectionLayout {
    pub measures_per_system: u32,
    pub systems_per_page: u32,
    pub clef: Clef,
    pub time_signature: Option<String>,
    pub key_signature: Option<String>,
}

/// The model of a [`WorksheetSectionLayout`].
pub struct LayoutModel {
    pub measures_per_system: u32,
    pub systems_per_page: u32,
    pub clef: Clef,
    pub time_signature: Option<Seq<char>>,
    pub key_signature: Option<Seq<char>>,
}

impl DeepView for WorksheetSectionLayout {
    type V = LayoutModel;

    open spec fn deep_view(&self) -> LayoutModel {
        LayoutModel {
            measures_per_system: self.measures_per_system,
            systems_per_page: self.systems_per_page,
            clef: self.clef,
            time_signature: self.time_signature.deep_view(),
            key_signature: self.key_signature.deep_view(),
        }
    }
}

/// One section of a worksheet: a title, instructions and elements.
#[derive(Debug, Clone)]
pub struct WorksheetSection {
    pub id: String,
    pub title: String,
    pub instructions: Option<String>,
    pub elements: Vec<EditableElement>,
    pub layout: WorksheetSectionLayout,
}

/// The model of a [`WorksheetSection`].
pub struct SectionModel {
    pub id: Seq<char>,
    pub title: Seq<char>,
    pub instructions: Option<Seq<char>>,
    pub elements: Seq<ElementModel>,
    pub layout: LayoutModel,
}

impl DeepView for WorksheetSection {
    type V = SectionModel;

    open spec fn deep_view(&self) -> SectionModel {
        SectionModel {
            id: self.id@,
            title: self.title@,
            instructions: self.instructions.deep_view(),
            elements: self.elements.deep_view(),
            layout: self.layout.deep_view(),
        }
    }
}

/// The paper a worksheet is set on.
#[derive(Debug, Clone, Copy, PartialEq, Eq, Structural)]
pub enum PaperSize {
    Letter,
    A4,
}

/// How the paper is turned.
#[derive(Debug, Clone, Copy, PartialEq, Eq, Structural)]
pub enum Orientation {
    Portrait,
    Landscape,
}

/// What holds for the whole worksheet.
#[derive(Debug, Clone, Copy, PartialEq, Eq, Structural)]
pub struct WorksheetGlobalSettings {
    pub paper_size: PaperSize,
    pub orientation: Orientation,
    pub show_answers: bool,
    pub font_size: u32,
}

/// A worksheet.
#[derive(Debug, Clone)]
pub struct WorksheetConfig {
    pub id: String,
    pub title: String,
    pub subtitle: Option<String>,
    pub worksheet_type: WorksheetType,
    pub sections: Vec<WorksheetSection>,
    pub global_settings: WorksheetGlobalSettings,
}

/// The model of a [`WorksheetConfig`].
pub struct ConfigModel {
    pub id: Seq<char>,
    pub title: Seq<char>,
    pub subtitle: Option<Seq<char>>,
    pub worksheet_type: WorksheetType,
    pub sections: Seq<SectionModel>,
    pub global_settings: WorksheetGlobalSettings,
}

impl DeepView for WorksheetConfig {
    type V = ConfigModel;

    open spec fn deep_view(&self) -> ConfigModel {
        ConfigModel {
            id: self.id@,
            title: self.title@,
            subtitle: self.subtitle.deep_view(),
            worksheet_type: self.worksheet_type,
            sections: self.sections.deep_view(),
            global_settings: self.global_settings,
        }
    }
}

/// A request for a worksheet.
#[derive(Debug, Clone)]
pub struct WorksheetRequest {
    pub config: WorksheetConfig,
}

/// The quality of a chord on a chord-naming worksheet.
#[derive(Debug, Clone, Copy, PartialEq, Eq, Structural)]
pub enum ChordQuality {
    Major,
    Minor,
    Diminished,
    Augmented,
    Dominant7,
    Major7,
    Minor7,
}

/// One chord of a chord-naming worksheet.
#[derive(Debug, Clone)]
pub struct ChordDefinition {
    pub root: String,
    pub quality: ChordQuality,
    pub position: ElementPosition,
    pub show_answer: bool,
}

/// The model of a [`ChordDefinition`].
pub struct ChordDefinitionModel {
    pub root: Seq<char>,
    pub quality: ChordQuality,
    pub position: ElementPosition,
    pub show_answer: bool,
}

impl DeepView for ChordDefinition {
    type V = ChordDefinitionModel;

    open spec fn deep_view(&self) -> ChordDefinitionModel {
        ChordDefinitionModel {
            root: self.root@,
            quality: self.quality,
            position: self.position,
            show_answer: self.show_answer,
        }
    }
}

/// How the chords of a chord-naming worksheet are laid out.
#[derive(Debug, Clone, Copy, PartialEq, Eq, Structural)]
pub struct ChordLayout {
    pub chords_per_line: u32,
    pub show_staff_lines: bool,
}

/// What a chord-naming worksheet is made from.
#[derive(Debug, Clone)]
pub struct ChordNamingParams {
    pub chords: Vec<ChordDefinition>,
    pub instructions: Option<String>,
    pub layout: ChordLayout,
}

/// The model of [`ChordNamingParams`].
pub struct ChordNamingModel {
    pub chords: Seq<ChordDefinitionModel>,
    pub instructions: Option<Seq<char>>,
    pub layout: ChordLayout,
}

impl DeepView for ChordNamingParams {
    type V = ChordNamingModel;

    open spec fn deep_view(&self) -> ChordNamingModel {
        ChordNamingModel {
            chords: self.chords.deep_view(),
            instructions: self.instructions.deep_view(),
            layout: self.layout,
        }
    }
}

/// The name of a root in LilyPond: a sharp is `is` and a flat `es` behind
/// the letter in lower case, for the ten notes of the black keys; any other
/// root as it is.
pub open spec fn lilypond_root(root: Seq<char>) -> Seq<char> {
    if root == "C#"@ {
        "cis"@
    } else if root == "Db"@ {
        "des"@
    } else if root == "D#"@ {
        "dis"@
    } else if root == "Eb"@ {
        "ees"@
    } else if root == "F#"@ {
        "fis"@
    } else if root == "Gb"@ {
        "ges"@
    } else if root == "G#"@ {
        "gis"@
    } else if root == "Ab"@ {
        "aes"@
    } else if root == "A#"@ {
        "ais"@
    } else if root == "Bb"@ {
        "bes"@
    } else {
        root
    }
}

/// The suffix of a chord quality in LilyPond's chord mode.
pub open spec fn chord_extension(quality: ChordQuality) -> Seq<char> {
    match quality {
        ChordQuality::Major => ""@,
        ChordQuality::Minor => "m"@,
        ChordQuality::Diminished => "dim"@,
        ChordQuality::Augmented => "aug"@,
        ChordQuality::Dominant7 => "7"@,
        ChordQuality::Major7 => "maj7"@,
        ChordQuality::Minor7 => "m7"@,
    }
}

/// What [`format_chord_notation`] returns: the root in LilyPond, then the
/// suffix of the quality.
pub open spec fn chord_notation(root: Seq<char>, quality: ChordQuality) -> Seq<char> {
    lilypond_root(root) + chord_extension(quality)
}

/// The name of a root in LilyPond.
pub fn lilypond_root_of<'a>(root: &'a str) -> (r: &'a str)
    ensures
        r@ == lilypond_root(root@),
{
    let r = chars_of(root);
    if is_text(&r, "C#") {
        "cis"
    } else if is_text(&r, "Db") {
        "des"
    } else if is_text(&r, "D#") {
        "dis"
    } else if is_text(&r, "Eb") {
        "ees"
    } else if is_text(&r, "F#") {
        "fis"
    } else if is_text(&r, "Gb") {
        "ges"
    } else if is_text(&r, "G#") {
        "gis"
    } else if is_text(&r, "Ab") {
        "aes"
    } else if is_text(&r, "A#") {
        "ais"
    } else if is_text(&r, "Bb") {
        "bes"
    } else {
        root
    }
}

/// The suffix of a chord quality in LilyPond's chord mode.
pub fn chord_extension_of(quality: &ChordQuality) -> (r: &'static str)
    ensures
        r@ == chord_extension(*quality),
{
    match quality {
        ChordQuality::Major => "",
        ChordQuality::Minor => "m",
        ChordQuality::Diminished => "dim",
        ChordQuality::Augmented => "aug",
        ChordQuality::Dominant7 => "7",
        ChordQuality::Major7 => "maj7",
        ChordQuality::Minor7 => "m7",
    }
}

/// A chord as LilyPond's chord mode writes it: `Bb` minor is `besm`.
pub fn format_chord_notation(root: &str, quality: &ChordQuality) -> (r: String)
    ensures
        r@ == chord_notation(root@, *quality),
{
    String::from_str(lilypond_root_of(root)).concat(chord_extension_of(quality))
}

/// What [`get_chord_root_note`] returns: the first character of the chord,
/// with `is` behind it if a `#` follows and `es` if a `b` follows.
pub open spec fn chord_root_note(chord: Seq<char>) -> Seq<char> {
    if chord.len() >= 2 && chord[1] == '#' {
        chord.take(1) + "is"@
    } else if chord.len() >= 2 && chord[1] == 'b' {
        chord.take(1) + "es"@
    } else {
        chord.take(1)
    }
}

/// The root of a chord as a note in LilyPond. The chord must not be empty.
pub fn get_chord_root_note(chord: &str) -> (r: String)
    requires
        chord@.len() > 0,
    ensures
        r@ == chord_root_note(chord@),
{
    let v = chars_of(chord);
    let mut out: Vec<char> = Vec::new();
    out.push(v[0]);
    assert(out@ =~= v@.take(1));
    if v.len() >= 2 && v[1] == '#' {
        append(&mut out, &chars_of("is"));
    } else if v.len() >= 2 && v[1] == 'b' {
        append(&mut out, &chars_of("es"));
    }
    string_of(&out)
}

/// The minor third above a root letter, in LilyPond.
pub open spec fn minor_third(root: char) -> Seq<char> {
    if root == 'C' {
        "ees"@
    } else if root == 'D' {
        "f"@
    } else if root == 'E' {
        "g"@
    } else if root == 'F' {
        "aes"@
    } else if root == 'G' {
        "bes"@
    } else if root == 'A' {
        "c"@
    } else if root == 'B' {
        "d"@
    } else {
        "ees"@
    }
}

/// The major third above a root letter, in LilyPond.
pub open spec fn major_third(root: char) -> Seq<char> {
    if root == 'C' {
        "e"@
    } else if root == 'D' {
        "fis"@
    } else if root == 'E' {
        "gis"@
    } else if root == 'F' {
        "a"@
    } else if root == 'G' {
        "b"@
    } else if root == 'A' {
        "cis"@
    } else if root == 'B' {
        "dis"@
    } else {
        "e"@
    }
}

/// The diminished fifth above a root letter, in LilyPond.
pub open spec fn diminished_fifth(root: char) -> Seq<char> {
    if root == 'C' {
        "ges"@
    } else if root == 'D' {
        "aes"@
    } else if root == 'E' {
        "bes"@
    } else if root == 'F' {
        "ces"@
    } else if root == 'G' {
        "des"@
    } else if root == 'A' {
        "ees"@
    } else if root == 'B' {
        "f"@
    } else {
        "ges"@
    }
}

/// The perfect fifth above a root letter, in LilyPond.
pub open spec fn perfect_fifth(root: char) -> Seq<char> {
    if root == 'C' {
        "g"@
    } else if root == 'D' {
        "a"@
    } else if root == 'E' {
        "b"@
    } else if root == 'F' {
        "c"@
    } else if root == 'G' {
        "d"@
    } else if root == 'A' {
        "e"@
    } else if root == 'B' {
        "fis"@
    } else {
        "g"@
    }
}

/// What [`get_chord_third`] returns: the third above the chord's first
/// letter, minor if the chord holds `m` or `dim`, major otherwise. The
/// accidental of the root plays no part.
pub open spec fn chord_third(chord: Seq<char>) -> Seq<char> {
    if contains_text(chord, "m"@) || contains_text(chord, "dim"@) {
        minor_third(chord[0])
    } else {
        major_third(chord[0])
    }
}

/// What [`get_chord_fifth`] returns: the fifth above the chord's first
/// letter, diminished if the chord holds `dim`, perfect otherwise.
pub open spec fn chord_fifth(chord: Seq<char>) -> Seq<char> {
    if contains_text(chord, "dim"@) {
        diminished_fifth(chord[0])
    } else {
        perfect_fifth(chord[0])
    }
}

/// The third of a chord as a note in LilyPond. The chord must not be empty.
pub fn get_chord_third(chord: &str) -> (r: String)
    requires
        chord@.len() > 0,
    ensures
        r@ == chord_third(chord@),
{
    let v = chars_of(chord);
    let root = v[0];
    if has_text(&v, "m") || has_text(&v, "dim") {
        String::from_str(
            if root == 'C' {
                "ees"
            } else if root == 'D' {
                "f"
            } else if root == 'E' {
                "g"
            } else if root == 'F' {
                "aes"
            } else if root == 'G' {
                "bes"
            } else if root == 'A' {
                "c"
            } else if root == 'B' {
                "d"
            } else {
                "ees"
            }
        )
    } else {
        String::from_str(
            if root == 'C' {
                "e"
            } else if root == 'D' {
                "fis"
            } else if root == 'E' {
                "gis"
            } else if root == 'F' {
                "a"
            } else if root == 'G' {
                "b"
            } else if root == 'A' {
                "cis"
            } else if root == 'B' {
                "dis"
            } else {
                "e"
            }
        )
    }
}

/// The fifth of a chord as a note in LilyPond. The chord must not be empty.
pub fn get_chord_fifth(chord: &str) -> (r: String)
    requires
        chord@.len() > 0,
    ensures
        r@ == chord_fifth(chord@),
{
    let v = chars_of(chord);
    let root = v[0];
    if has_text(&v, "dim") {
        String::from_str(
            if root == 'C' {
                "ges"
            } else if root == 'D' {
                "aes"
            } else if root == 'E' {
                "bes"
            } else if root == 'F' {
                "ces"
            } else if root == 'G' {
                "des"
            } else if root == 'A' {
                "ees"
            } else if root == 'B' {
                "f"
            } else {
                "ges"
            }
        )
    } else {
        String::from_str(
            if root == 'C' {
                "g"
            } else if root == 'D' {
                "a"
            } else if root == 'E' {
                "b"
            } else if root == 'F' {
                "c"
            } else if root == 'G' {
                "d"
            } else if root == 'A' {
                "e"
            } else if root == 'B' {
                "fis"
            } else {
                "g"
            }
        )
    }
}

/// The place of a position in reading order, as one number: measures count
/// first, beats within a measure.
pub open spec fn position_key(p: ElementPosition) -> int {
    p.measure * 0x1_0000_0000 + p.beat
}

/// The place of a position in reading order, as one number.
pub fn position_key_of(p: &ElementPosition) -> (r: u64)
    ensures
        r == position_key(*p),
{
    (p.measure as u64) * 0x1_0000_0000 + (p.beat as u64)
}

/// The places in reading order of the given elements.
pub open spec fn keys_of(elements: Seq<ElementModel>) -> Seq<int> {
    Seq::new(elements.len(), |i: int| position_key(elements[i].position))
}

/// Where an element with place `key` goes into `order`, a list of indices
/// into `keys`, looking down from `j`: behind the last element whose place
/// is not later.
pub open spec fn slot_in(keys: Seq<int>, order: Seq<int>, key: int, j: int) -> int
    decreases j,
{
    if 0 < j <= order.len() && keys[order[j - 1]] > key {
        slot_in(keys, order, key, j - 1)
    } else {
        j
    }
}

/// The indices of the first `n` elements in reading order: by measure, then
/// by beat, elements on one beat in the order in which they were given.
pub open spec fn reading_order_upto(keys: Seq<int>, n: int) -> Seq<int>
    decreases n,
{
    if n <= 0 {
        Seq::empty()
    } else {
        let before = reading_order_upto(keys, n - 1);
        before.insert(slot_in(keys, before, keys[n - 1], before.len() as int), n - 1)
    }
}

/// The indices of the elements in reading order.
pub open spec fn reading_order(elements: Seq<ElementModel>) -> Seq<int> {
    reading_order_upto(keys_of(elements), elements.len() as int)
}

/// The slot lies between 0 and where the search began; every element from
/// the slot on stands later than `key`, and the element before the slot
/// does not.
pub proof fn lemma_slot_in(keys: Seq<int>, order: Seq<int>, key: int, j: int)
    requires
        0 <= j <= order.len(),
    ensures
        0 <= slot_in(keys, order, key, j) <= j,
        forall|a: int| slot_in(keys, order, key, j) <= a < j ==> keys[#[trigger] order[a]] > key,
        slot_in(keys, order, key, j) > 0 ==> keys[order[slot_in(keys, order, key, j) - 1]] <= key,
    decreases j,
{
    if 0 < j && keys[order[j - 1]] > key {
        lemma_slot_in(keys, order, key, j - 1);
    }
}

/// The reading order of `n` elements holds `n` indices, each below `n`.
pub proof fn lemma_reading_order(keys: Seq<int>, n: int)
    requires
        0 <= n,
    ensures
        reading_order_upto(keys, n).len() == n,
        forall|j: int| 0 <= j < n ==> 0 <= #[trigger] reading_order_upto(keys, n)[j] < n,
    decreases n,
{
    if n > 0 {
        lemma_reading_order(keys, n - 1);
        let before = reading_order_upto(keys, n - 1);
        let k = slot_in(keys, before, keys[n - 1], before.len() as int);
        lemma_slot_in(keys, before, keys[n - 1], before.len() as int);
        before.insert_ensures(k, n - 1);
        let now = reading_order_upto(keys, n);
        assert forall|j: int| 0 <= j < n implies 0 <= #[trigger] now[j] < n by {
            if j < k {
                assert(now[j] == before[j]);
            } else if j > k {
                assert(now[j] == before[j - 1]);
            }
        }
    }
}

/// Whether `order` lists indices into `keys` by their keys, and indices
/// with the same key as they follow each other.
pub open spec fn in_reading_order(keys: Seq<int>, order: Seq<int>) -> bool {
    forall|a: int, b: int|
        0 <= a < b < order.len() ==> keys[#[trigger] order[a]] < keys[#[trigger] order[b]] || (
        keys[order[a]] == keys[order[b]] && order[a] < order[b])
}

/// The reading order of `n` elements lists every one of them, by measure
/// and beat, and elements on the same beat in the order in which they were
/// given.
pub proof fn lemma_reading_order_sorted(keys: Seq<int>, n: int)
    requires
        0 <= n <= keys.len(),
    ensures
        in_reading_order(keys, reading_order_upto(keys, n)),
        forall|index: int| 0 <= index < n ==> reading_order_upto(keys, n).contains(index),
    decreases n,
{
    if n > 0 {
        lemma_reading_order_sorted(keys, n - 1);
        lemma_reading_order(keys, n - 1);
        let before = reading_order_upto(keys, n - 1);
        let key = keys[n - 1];
        let k = slot_in(keys, before, key, before.len() as int);
        lemma_slot_in(keys, before, key, before.len() as int);
        before.insert_ensures(k, n - 1);
        let now = reading_order_upto(keys, n);
        assert forall|a: int| k < a < now.len() implies #[trigger] now[a] == before[a - 1] by {
            assert(now[(a - 1) + 1] == before[a - 1]);
        }
        assert forall|a: int| 0 <= a < k implies keys[#[trigger] before[a]] <= key by {
            if a < k - 1 {
                assert(keys[before[a]] < keys[before[k - 1]] || keys[before[a]] == keys[before[k
                    - 1]]);
            }
        }
        assert forall|a: int, b: int| 0 <= a < b < now.len() implies keys[#[trigger] now[a]]
            < keys[#[trigger] now[b]] || (keys[now[a]] == keys[now[b]] && now[a] < now[b]) by {
            if b < k {
                assert(now[a] == before[a] && now[b] == before[b]);
            } else if b == k {
                assert(now[a] == before[a]);
                assert(before[a] < n - 1);
            } else if a == k {
                assert(now[b] == before[b - 1]);
                assert(keys[before[b - 1]] > key);
            } else if a > k {
                assert(now[a] == before[a - 1] && now[b] == before[b - 1]);
            } else {
                assert(now[a] == before[a] && now[b] == before[b - 1]);
                assert(keys[before[b - 1]] > key);
            }
        }
        assert forall|index: int| 0 <= index < n implies now.contains(index) by {
            if index == n - 1 {
                assert(now[k] == index);
            } else {
                assert(before.contains(index));
                let a = choose|a: int| 0 <= a < before.len() && before[a] == index;
                if a < k {
                    assert(now[a] == index);
                } else {
                    assert(now[a + 1] == before[(a + 1) - 1]);
                }
            }
        }
    }
}

/// The indices of the elements in reading order.
pub fn reading_order_of(elements: &[EditableElement]) -> (r: Vec<usize>)
    ensures
        r@.len() == elements@.len(),
        forall|j: int|
            0 <= j < r@.len() ==> #[trigger] r@[j] < elements@.len() && r@[j] as int
                == reading_order(elements.deep_view())[j],
        in_reading_order(keys_of(elements.deep_view()), reading_order(elements.deep_view())),
        forall|index: int|
            0 <= index < elements@.len() ==> reading_order(elements.deep_view()).contains(index),
{
    proof {
        lemma_reading_order_sorted(keys_of(elements.deep_view()), elements@.len() as int);
    }
    let ghost models = elements.deep_view();
    let ghost keys = keys_of(models);
    let mut order: Vec<usize> = Vec::new();
    let mut i: usize = 0;
    while i < elements.len()
        invariant
            i <= elements.len(),
            models == elements.deep_view(),
            keys == keys_of(models),
            order@.len() == i,
            forall|j: int|
                0 <= j < i ==> #[trigger] order@[j] < i && order@[j] as int == reading_order_upto(
                    keys,
                    i as int,
                )[j],
        decreases elements.len() - i,
    {
        let ghost before = reading_order_upto(keys, i as int);
        proof {
            lemma_reading_order(keys, i as int);
            assert(models[i as int] == elements[i as int].deep_view());
        }
        let key = position_key_of(&elements[i].position);
        let mut j: usize = order.len();
        while j > 0 && position_key_of(&elements[order[j - 1]].position) > key
            invariant
                j <= order@.len(),
                i < elements.len(),
                order@.len() == i,
                before.len() == i,
                models == elements.deep_view(),
                keys == keys_of(models),
                key == keys[i as int],
                forall|a: int| 0 <= a < i ==> #[trigger] order@[a] < i && order@[a] as int == before[a],
                slot_in(keys, before, key as int, j as int) == slot_in(
                    keys,
                    before,
                    key as int,
                    before.len() as int,
                ),
            decreases j,
        {
            proof {
                let at = order@[j - 1] as int;
                assert(models[at] == elements[at].deep_view());
            }
            j -= 1;
        }
        proof {
            let at = if j > 0 {
                order@[j - 1] as int
            } else {
                0
            };
            if j > 0 {
                assert(models[at] == elements[at].deep_view());
            }
            before.insert_ensures(j as int, i as int);
            order@.insert_ensures(j as int, i);
        }
        let ghost old_order = order@;
        order.insert(j, i);
        proof {
            let now = reading_order_upto(keys, i + 1);
            assert(now == before.insert(j as int, i as int));
            assert forall|a: int| 0 <= a < i + 1 implies #[trigger] order@[a] < i + 1 && order@[a] as int
                == now[a] by {
                if a < j {
                    assert(order@[a] == old_order[a]);
                } else if a > j {
                    assert(order@[a] == old_order[a - 1]);
                }
            }
        }
        i += 1;
    }
    order
}

/// `piece` written `n` times.
pub open spec fn repeated(piece: Seq<char>, n: int) -> Seq<char>
    decreases n,
{
    if n <= 0 {
        Seq::empty()
    } else {
        repeated(piece, n - 1) + piece
    }
}

/// Appends `piece` to `out`, `times` times.
pub fn push_repeated(out: &mut Vec<char>, piece: &str, times: u64)
    ensures
        final(out)@ == old(out)@ + repeated(piece@, times as int),
{
    let p = chars_of(piece);
    let mut i: u64 = 0;
    assert(out@ =~= old(out)@ + repeated(piece@, 0));
    while i < times
        invariant
            i <= times,
            p@ == piece@,
            out@ == old(out)@ + repeated(piece@, i as int),
        decreases times - i,
    {
        append(out, &p);
        i += 1;
        assert(out@ =~= old(out)@ + repeated(piece@, i as int));
    }
}

/// Whether an element is shown: always with the answers, and otherwise
/// unless it is an answer.
pub open spec fn is_shown(e: ElementModel, show_answers: bool) -> bool {
    show_answers || !e.is_answer
}

/// The notes that stand for an element on the staff: for a chord that is
/// shown its root, third and fifth as a quarter-note chord; for a note that
/// is shown the note as a quarter; for a rest its own text; for anything
/// else, and for what is hidden, a quarter rest.
pub open spec fn element_music(e: ElementModel, show_answers: bool) -> Seq<char> {
    match e.element_type {
        EditableElementType::Chord => if is_shown(e, show_answers) {
            "<"@ + chord_root_note(e.content) + " "@ + chord_third(e.content) + " "@ + chord_fifth(
                e.content,
            ) + ">4 "@
        } else {
            "r4 "@
        },
        EditableElementType::Note => if is_shown(e, show_answers) {
            e.content + "4 "@
        } else {
            "r4 "@
        },
        EditableElementType::Rest => e.content + " "@,
        _ => "r4 "@,
    }
}

/// What stands for an element in the line of chord names: for a chord that
/// is shown its name as a quarter, for a hidden chord a quarter rest, for
/// anything else a quarter of space.
pub open spec fn element_chords(e: ElementModel, show_answers: bool) -> Seq<char> {
    match e.element_type {
        EditableElementType::Chord => if is_shown(e, show_answers) {
            e.content + "4 "@
        } else {
            "r4 "@
        },
        _ => "s4 "@,
    }
}

/// The staff and the line of chord names as far as they are written, and
/// the measure and beat that come next.
pub struct Staves {
    pub music: Seq<char>,
    pub chords: Seq<char>,
    pub measure: int,
    pub beat: int,
}

/// The staves with one more element.
///
/// A bar line is written for every measure up to the element's measure,
/// which begins at beat 1. A quarter rest, and a quarter of space among the
/// chord names, is written for every beat up to the element's beat. Then
/// comes the element, which takes one beat. An element whose place has
/// passed is written where the staves stand.
pub open spec fn with_element(s: Staves, e: ElementModel, show_answers: bool) -> Staves {
    let bars = if e.position.measure > s.measure {
        e.position.measure - s.measure
    } else {
        0
    };
    let beat = if bars > 0 {
        1
    } else {
        s.beat
    };
    let rests = if e.position.beat > beat {
        e.position.beat - beat
    } else {
        0
    };
    Staves {
        music: s.music + repeated(" | "@, bars) + repeated("r4 "@, rests) + element_music(
            e,
            show_answers,
        ),
        chords: s.chords + repeated(" | "@, bars) + repeated("s4 "@, rests) + element_chords(
            e,
            show_answers,
        ),
        measure: s.measure + bars,
        beat: beat + rests + 1,
    }
}

/// The staves with the first `n` elements in reading order; they begin
/// empty, at beat 1 of measure 1.
pub open spec fn staves_upto(elements: Seq<ElementModel>, show_answers: bool, n: int) -> Staves
    decreases n,
{
    if n <= 0 {
        Staves { music: Seq::empty(), chords: Seq::empty(), measure: 1, beat: 1 }
    } else {
        with_element(
            staves_upto(elements, show_answers, n - 1),
            elements[reading_order(elements)[n - 1]],
            show_answers,
        )
    }
}

/// Whether every chord that is shown has a name.
pub open spec fn chords_are_named(elements: Seq<ElementModel>, show_answers: bool) -> bool {
    forall|i: int|
        0 <= i < elements.len() && (#[trigger] elements[i]).element_type
            == EditableElementType::Chord && is_shown(elements[i], show_answers)
            ==> elements[i].content.len() > 0
}

/// Appends the notes that stand for an element on the staff.
pub fn push_element_music(out: &mut Vec<char>, e: &EditableElement, show_answers: bool)
    requires
        e.element_type == EditableElementType::Chord && is_shown(e.deep_view(), show_answers)
            ==> e.content@.len() > 0,
    ensures
        final(out)@ == old(out)@ + element_music(e.deep_view(), show_answers),
{
    let ghost before = out@;
    let shown = show_answers || !e.is_answer;
    match e.element_type {
        EditableElementType::Chord => {
            if shown {
                let content = e.content.as_str();
                let root = get_chord_root_note(content);
                let third = get_chord_third(content);
                let fifth = get_chord_fifth(content);
                let text = String::from_str("<").concat(root.as_str()).concat(" ").concat(
                    third.as_str(),
                ).concat(" ").concat(fifth.as_str()).concat(">4 ");
                append(out, &chars_of(text.as_str()));
            } else {
                append(out, &chars_of("r4 "));
            }
        },
        EditableElementType::Note => {
            if shown {
                append(out, &chars_of(e.content.as_str()));
                append(out, &chars_of("4 "));
                assert(out@ =~= before + (e.content@ + "4 "@));
            } else {
                append(out, &chars_of("r4 "));
            }
        },
        EditableElementType::Rest => {
            append(out, &chars_of(e.content.as_str()));
            append(out, &chars_of(" "));
            assert(out@ =~= before + (e.content@ + " "@));
        },
        _ => {
            append(out, &chars_of("r4 "));
        },
    }
}

/// Appends what stands for an element in the line of chord names.
pub fn push_element_chords(out: &mut Vec<char>, e: &EditableElement, show_answers: bool)
    ensures
        final(out)@ == old(out)@ + element_chords(e.deep_view(), show_answers),
{
    let ghost before = out@;
    match e.element_type {
        EditableElementType::Chord => {
            if show_answers || !e.is_answer {
                append(out, &chars_of(e.content.as_str()));
                append(out, &chars_of("4 "));
                assert(out@ =~= before + (e.content@ + "4 "@));
            } else {
                append(out, &chars_of("r4 "));
            }
        },
        _ => {
            append(out, &chars_of("s4 "));
        },
    }
}

/// The notation of the elements of a section: the staff, and the line of
/// chord names above it. The elements are set in reading order, with bar
/// lines between measures and rests on empty beats. Every chord that is
/// shown must have a name. This never fails.
pub fn build_music_and_chords_from_elements(elements: &[EditableElement], show_answers: bool) -> (r:
    Result<(String, String), String>)
    requires
        chords_are_named(elements.deep_view(), show_answers),
    ensures
        r is Ok,
        r->Ok_0.0@ == staves_upto(
            elements.deep_view(),
            show_answers,
            elements@.len() as int,
        ).music,
        r->Ok_0.1@ == staves_upto(
            elements.deep_view(),
            show_answers,
            elements@.len() as int,
        ).chords,
{
    let ghost models = elements.deep_view();
    let order = reading_order_of(elements);
    let mut music: Vec<char> = Vec::new();
    let mut chords: Vec<char> = Vec::new();
    let mut measure: u64 = 1;
    let mut beat: u128 = 1;
    let mut i: usize = 0;
    while i < order.len()
        invariant
            i <= order.len(),
            order@.len() == elements@.len(),
            models == elements.deep_view(),
            chords_are_named(models, show_answers),
            forall|j: int|
                0 <= j < order@.len() ==> #[trigger] order@[j] < elements@.len() && order@[j] as int
                    == reading_order(models)[j],
            music@ == staves_upto(models, show_answers, i as int).music,
            chords@ == staves_upto(models, show_answers, i as int).chords,
            measure == staves_upto(models, show_answers, i as int).measure,
            beat == staves_upto(models, show_answers, i as int).beat,
            1 <= measure <= 0xffff_ffff,
            1 <= beat <= 0x1_0000_0000 + i,
        decreases order.len() - i,
    {
        let at = order[i];
        let e = &elements[at];
        let ghost s = staves_upto(models, show_answers, i as int);
        let ghost before_music = music@;
        let ghost before_chords = chords@;
        proof {
            assert(models[at as int] == e.deep_view());
        }
        let bars: u64 = if e.position.measure as u64 > measure {
            e.position.measure as u64 - measure
        } else {
            0
        };
        push_repeated(&mut music, " | ", bars);
        push_repeated(&mut chords, " | ", bars);
        if bars > 0 {
            measure = e.position.measure as u64;
            beat = 1;
        }
        let rests: u64 = if e.position.beat as u128 > beat {
            (e.position.beat as u128 - beat) as u64
        } else {
            0
        };
        push_repeated(&mut music, "r4 ", rests);
        push_repeated(&mut chords, "s4 ", rests);
        push_element_music(&mut music, e, show_answers);
        push_element_chords(&mut chords, e, show_answers);
        beat = beat + rests as u128 + 1;
        proof {
            let next = with_element(s, e.deep_view(), show_answers);
            assert(music@ =~= next.music);
            assert(chords@ =~= next.chords);
        }
        i += 1;
    }
    Ok((string_of(&music), string_of(&chords)))
}

/// The name of a paper size in LilyPond.
pub open spec fn paper_name(paper: PaperSize) -> Seq<char> {
    match paper {
        PaperSize::Letter => "letter"@,
        PaperSize::A4 => "a4"@,
    }
}

/// What follows the paper's name for an orientation.
pub open spec fn orientation_suffix(orientation: Orientation) -> Seq<char> {
    match orientation {
        Orientation::Portrait => ""@,
        Orientation::Landscape => "-landscape"@,
    }
}

/// The beginning of a document: LilyPond's version, the paper, the margins,
/// and the header with title and subtitle.
pub open spec fn document_head(settings: WorksheetGlobalSettings, title: Seq<char>, subtitle: Option<Seq<char>>) -> Seq<
    char,
> {
    "\\version \"2.24.0\"\n\n#(set-paper-size \""@ + paper_name(settings.paper_size) + ""@ + orientation_suffix(settings.orientation) + "\")\n\n\\paper {\n  indent = 0\\mm\n  line-width = 180\\mm\n  top-margin = 20\\mm\n  bottom-margin = 20\\mm\n  left-margin = 15\\mm\n  right-margin = 15\\mm\n  ragged-last-bottom = ##f\n  print-all-headers = ##f\n}\n\n\\header {\n  title = \""@ + title + "\"\n  subtitle = \""@ + (match subtitle {
        Some(text) => text,
        None => Seq::empty(),
    }) + "\"\n  tagline = ##f\n  composer = ##f\n}\n\n"@
}

/// The beginning of a document.
pub fn document_head_of(settings: &WorksheetGlobalSettings, title: &str, subtitle: &Option<String>) -> (r:
    String)
    ensures
        r@ == document_head(*settings, title@, subtitle.deep_view()),
{
    let paper = match settings.paper_size {
        PaperSize::Letter => "letter",
        PaperSize::A4 => "a4",
    };
    let turned = match settings.orientation {
        Orientation::Portrait => "",
        Orientation::Landscape => "-landscape",
    };
    let sub: &str = match subtitle {
        Some(text) => text.as_str(),
        None => "",
    };
    proof {
        reveal_strlit("");
        assert(""@ =~= Seq::<char>::empty());
    }
    String::from_str("\\version \"2.24.0\"\n\n#(set-paper-size \"").concat(paper).concat("").concat(turned).concat("\")\n\n\\paper {\n  indent = 0\\mm\n  line-width = 180\\mm\n  top-margin = 20\\mm\n  bottom-margin = 20\\mm\n  left-margin = 15\\mm\n  right-margin = 15\\mm\n  ragged-last-bottom = ##f\n  print-all-headers = ##f\n}\n\n\\header {\n  title = \"").concat(title).concat("\"\n  subtitle = \"").concat(sub).concat("\"\n  tagline = ##f\n  composer = ##f\n}\n\n")
}

/// The line of instructions under the title of a section; nothing without
/// instructions.
pub open spec fn instructions_line(instructions: Option<Seq<char>>) -> Seq<char> {
    match instructions {
        Some(text) => "\n  \\fill-line { \\italic { \""@ + text + "\" } }"@,
        None => Seq::empty(),
    }
}

/// The heading of a section: its title in bold, and the instructions in
/// italics under it.
pub open spec fn section_heading(title: Seq<char>, instructions: Option<Seq<char>>) -> Seq<char> {
    "\\markup { \\column {\n  \\vspace #2\n  \\fill-line { \\fontsize #2 \\bold { \""@ + title + "\" } }\n  "@ + instructions_line(instructions) + "\n}}\n\n"@
}

/// The heading of a section.
pub fn section_heading_of(title: &str, instructions: &Option<String>) -> (r: String)
    ensures
        r@ == section_heading(title@, instructions.deep_view()),
{
    let line: String = match instructions {
        Some(text) => String::from_str("\n  \\fill-line { \\italic { \"").concat(text.as_str()).concat("\" } }"),
        None => String::new(),
    };
    String::from_str("\\markup { \\column {\n  \\vspace #2\n  \\fill-line { \\fontsize #2 \\bold { \"").concat(title).concat("\" } }\n  ").concat(line.as_str()).concat("\n}}\n\n")
}

/// The name of a clef in LilyPond; a section with both clefs is set in the
/// treble clef.
pub open spec fn clef_name(clef: Clef) -> Seq<char> {
    match clef {
        Clef::Treble => "treble"@,
        Clef::Bass => "bass"@,
        Clef::Both => "treble"@,
    }
}

/// A score: the line of chord names over one staff with clef, key and time,
/// and the layout that marks notes, rests and chord names for the reader.
pub open spec fn score(
    chords: Seq<char>,
    clef: Seq<char>,
    key: Seq<char>,
    time: Seq<char>,
    music: Seq<char>,
) -> Seq<char> {
    "\\score {\n  <<\n    \\new ChordNames {\n      "@ + chords + "\n    }\n    \\new Staff {\n      \\clef \""@ + clef + "\"\n      \\key \""@ + key + "\" \\major\n      \\time \""@ + time + "\"\n      "@ + music + "\n    }\n  >>\n  \\layout {\n    \\context {\n      \\Staff\n      \\override NoteHead.output-attributes = #'((class . \"interactive-note\"))\n      \\override Rest.output-attributes = #'((class . \"interactive-rest\"))\n    }\n    \\context {\n      \\ChordNames\n      \\override ChordName.output-attributes = #'((class . \"interactive-chord\"))\n    }\n  }\n}\n"@
}

/// What [`build_section_lilypond`] returns: the score of the section's
/// elements, in common time and in C where the layout names no time or
/// key.
pub open spec fn section_lilypond(section: SectionModel, settings: WorksheetGlobalSettings) -> Seq<
    char,
> {
    let staves = staves_upto(
        section.elements,
        settings.show_answers,
        section.elements.len() as int,
    );
    score(
        staves.chords,
        clef_name(section.layout.clef),
        match section.layout.key_signature {
            Some(key) => key,
            None => "c"@,
        },
        match section.layout.time_signature {
            Some(time) => time,
            None => "4/4"@,
        },
        staves.music,
    )
}

/// The notation of one section as a LilyPond score. Every chord that is
/// shown must have a name. This never fails.
pub fn build_section_lilypond(section: &WorksheetSection, global_settings: &WorksheetGlobalSettings) -> (r:
    Result<String, String>)
    requires
        chords_are_named(section.elements.deep_view(), global_settings.show_answers),
    ensures
        r is Ok,
        r->Ok_0@ == section_lilypond(section.deep_view(), *global_settings),
{
    let clef = match section.layout.clef {
        Clef::Treble => "treble",
        Clef::Bass => "bass",
        Clef::Both => "treble",
    };
    let time: &str = match &section.layout.time_signature {
        Some(text) => text.as_str(),
        None => "4/4",
    };
    let key: &str = match &section.layout.key_signature {
        Some(text) => text.as_str(),
        None => "c",
    };
    let (music, chords) = match build_music_and_chords_from_elements(
        section.elements.as_slice(),
        global_settings.show_answers,
    ) {
        Ok(staves) => staves,
        Err(e) => { return Err(e); },
    };
    Ok(
        String::from_str("\\score {\n  <<\n    \\new ChordNames {\n      ").concat(chords.as_str()).concat("\n    }\n    \\new Staff {\n      \\clef \"").concat(clef).concat("\"\n      \\key \"").concat(key).concat("\" \\major\n      \\time \"").concat(time).concat("\"\n      ").concat(music.as_str()).concat("\n    }\n  >>\n  \\layout {\n    \\context {\n      \\Staff\n      \\override NoteHead.output-attributes = #'((class . \"interactive-note\"))\n      \\override Rest.output-attributes = #'((class . \"interactive-rest\"))\n    }\n    \\context {\n      \\ChordNames\n      \\override ChordName.output-attributes = #'((class . \"interactive-chord\"))\n    }\n  }\n}\n"),
    )
}

/// The text of one section in a document: a page break before every
/// section but the first, the heading of a section with a title, and the
/// section's score.
pub open spec fn section_text(section: SectionModel, settings: WorksheetGlobalSettings, first: bool) -> Seq<
    char,
> {
    (if first {
        Seq::empty()
    } else {
        "\n\\pageBreak\n\n"@
    }) + (if section.title.len() > 0 {
        section_heading(section.title, section.instructions)
    } else {
        Seq::empty()
    }) + section_lilypond(section, settings)
}

/// The text of the first `n` sections of a document.
pub open spec fn sections_text(sections: Seq<SectionModel>, settings: WorksheetGlobalSettings, n: int) -> Seq<
    char,
>
    decreases n,
{
    if n <= 0 {
        Seq::empty()
    } else {
        sections_text(sections, settings, n - 1) + section_text(sections[n - 1], settings, n == 1)
    }
}

/// What [`build_lilypond_document`] returns: the head of the document, then
/// its sections.
pub open spec fn lilypond_document(config: ConfigModel) -> Seq<char> {
    document_head(config.global_settings, config.title, config.subtitle) + sections_text(
        config.sections,
        config.global_settings,
        config.sections.len() as int,
    )
}

/// Whether every chord that is shown, in every section, has a name.
pub open spec fn worksheet_chords_are_named(config: ConfigModel) -> bool {
    forall|i: int|
        0 <= i < config.sections.len() ==> chords_are_named(
            (#[trigger] config.sections[i]).elements,
            config.global_settings.show_answers,
        )
}

/// Appends the text of one section to a document.
pub fn push_section(
    document: &mut Vec<char>,
    section: &WorksheetSection,
    settings: &WorksheetGlobalSettings,
    first: bool,
) -> (r: Result<(), String>)
    requires
        chords_are_named(section.elements.deep_view(), settings.show_answers),
    ensures
        r is Ok,
        final(document)@ == old(document)@ + section_text(section.deep_view(), *settings, first),
{
    let ghost before = document@;
    if !first {
        append(document, &chars_of("\n\\pageBreak\n\n"));
    }
    if section.title.as_str().unicode_len() > 0 {
        let heading = section_heading_of(section.title.as_str(), &section.instructions);
        append(document, &chars_of(heading.as_str()));
    }
    let body = match build_section_lilypond(section, settings) {
        Ok(text) => text,
        Err(e) => { return Err(e); },
    };
    append(document, &chars_of(body.as_str()));
    assert(document@ =~= before + section_text(section.deep_view(), *settings, first));
    Ok(())
}

/// The whole worksheet as a LilyPond document. Every chord that is shown
/// must have a name. This never fails.
pub fn build_lilypond_document(config: &WorksheetConfig) -> (r: Result<String, String>)
    requires
        worksheet_chords_are_named(config.deep_view()),
    ensures
        r is Ok,
        r->Ok_0@ == lilypond_document(config.deep_view()),
{
    let ghost model = config.deep_view();
    let head = document_head_of(
        &config.global_settings,
        config.title.as_str(),
        &config.subtitle,
    );
    let mut document = chars_of(head.as_str());
    let ghost head_text = document@;
    assert(document@ =~= head_text + sections_text(model.sections, model.global_settings, 0));
    let mut i: usize = 0;
    while i < config.sections.len()
        invariant
            i <= config.sections.len(),
            model == config.deep_view(),
            worksheet_chords_are_named(model),
            document@ == head_text + sections_text(
                model.sections,
                model.global_settings,
                i as int,
            ),
        decreases config.sections.len() - i,
    {
        let ghost before = document@;
        proof {
            assert(model.sections[i as int] == config.sections[i as int].deep_view());
        }
        match push_section(&mut document, &config.sections[i], &config.global_settings, i == 0) {
            Ok(_) => {},
            Err(e) => { return Err(e); },
        }
        i += 1;
        assert(document@ =~= head_text + sections_text(
            model.sections,
            model.global_settings,
            i as int,
        ));
    }
    Ok(string_of(&document))
}

/// The element that stands for the chord at place `index` of a
/// chord-naming worksheet: a chord in LilyPond's notation that the reader
/// can work on, an answer if the chord says so.
pub open spec fn naming_element(chord: ChordDefinitionModel, index: int) -> ElementModel {
    ElementModel {
        id: "chord-"@ + decimal(index as nat),
        element_type: EditableElementType::Chord,
        position: chord.position,
        content: chord_notation(chord.root, chord.quality),
        is_answer: chord.show_answer,
        is_interactive: true,
    }
}

/// The chord-naming worksheet with identifier `id`: a worksheet on letter
/// paper, upright, without answers, with one section that holds one chord
/// element for each chord.
pub open spec fn chord_naming_template(params: ChordNamingModel, id: Seq<char>) -> ConfigModel {
    ConfigModel {
        id,
        title: "Chord Naming Worksheet"@,
        subtitle: None,
        worksheet_type: WorksheetType::ChordNaming,
        sections: seq![
            SectionModel {
                id: "chord-naming-section"@,
                title: "Chord Identification"@,
                instructions: Some(
                    match params.instructions {
                        Some(text) => text,
                        None => "Identify the following chords"@,
                    },
                ),
                elements: Seq::new(
                    params.chords.len(),
                    |i: int| naming_element(params.chords[i], i),
                ),
                layout: LayoutModel {
                    measures_per_system: params.layout.chords_per_line,
                    systems_per_page: 4,
                    clef: Clef::Treble,
                    time_signature: Some("4/4"@),
                    key_signature: Some("c"@),
                },
            },
        ],
        global_settings: WorksheetGlobalSettings {
            paper_size: PaperSize::Letter,
            orientation: Orientation::Portrait,
            show_answers: false,
            font_size: 14,
        },
    }
}

/// `Uuid::new_v4` of the crate `uuid`, written out with `to_string`: a
/// random identifier in the hyphenated form, which is 36 characters long.
/// Nothing else is claimed of it; two calls give different identifiers.
#[verifier::external_body]
fn fresh_identifier() -> (r: String)
    ensures
        r@.len() == 36,
{
    uuid::Uuid::new_v4().to_string()
}

/// The worksheet on which the given chords are to be named, under a fresh
/// random identifier. This never fails.
pub fn generate_chord_naming_template(params: ChordNamingParams) -> (r: Result<
    WorksheetConfig,
    String,
>)
    ensures
        r is Ok,
        r->Ok_0.id@.len() == 36,
        r->Ok_0.deep_view() == chord_naming_template(params.deep_view(), r->Ok_0.id@),
{
    chord_naming_template_with(params, fresh_identifier())
}

/// The worksheet on which the given chords are to be named; `id` becomes
/// the worksheet's identifier. This never fails.
pub fn chord_naming_template_with(params: ChordNamingParams, id: String) -> (r: Result<
    WorksheetConfig,
    String,
>)
    ensures
        r is Ok,
        r->Ok_0.id@ == id@,
        r->Ok_0.deep_view() == chord_naming_template(params.deep_view(), id@),
{
    let ghost model = params.deep_view();
    let mut elements: Vec<EditableElement> = Vec::new();
    let mut i: usize = 0;
    while i < params.chords.len()
        invariant
            i <= params.chords.len(),
            model == params.deep_view(),
            elements.len() == i,
            forall|j: int|
                0 <= j < i ==> (#[trigger] elements[j]).deep_view() == naming_element(
                    model.chords[j],
                    j,
                ),
        decreases params.chords.len() - i,
    {
        let chord = &params.chords[i];
        proof {
            assert(model.chords[i as int] == chord.deep_view());
        }
        let mut name = chars_of("chord-");
        push_number(&mut name, i as u64);
        elements.push(
            EditableElement {
                id: string_of(&name),
                element_type: EditableElementType::Chord,
                position: chord.position,
                content: format_chord_notation(chord.root.as_str(), &chord.quality),
                is_answer: chord.show_answer,
                is_interactive: true,
            },
        );
        i += 1;
    }
    let instructions = match params.instructions {
        Some(text) => text,
        None => String::from_str("Identify the following chords"),
    };
    let section = WorksheetSection {
        id: String::from_str("chord-naming-section"),
        title: String::from_str("Chord Identification"),
        instructions: Some(instructions),
        elements,
        layout: WorksheetSectionLayout {
            measures_per_system: params.layout.chords_per_line,
            systems_per_page: 4,
            clef: Clef::Treble,
            time_signature: Some(String::from_str("4/4")),
            key_signature: Some(String::from_str("c")),
        },
    };
    let ghost section_model = section.deep_view();
    assert(section_model.elements =~= Seq::new(
        model.chords.len(),
        |i: int| naming_element(model.chords[i], i),
    ));
    let mut sections: Vec<WorksheetSection> = Vec::new();
    sections.push(section);
    assert(sections.deep_view() =~= seq![section_model]);
    Ok(
        WorksheetConfig {
            id,
            title: String::from_str("Chord Naming Worksheet"),
            subtitle: None,
            worksheet_type: WorksheetType::ChordNaming,
            sections,
            global_settings: WorksheetGlobalSettings {
                paper_size: PaperSize::Letter,
                orientation: Orientation::Portrait,
                show_answers: false,
                font_size: 14,
            },
        },
    )
}

} // verus!
