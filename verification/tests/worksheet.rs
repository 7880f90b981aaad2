use music_theory::worksheet::{
    build_lilypond_document, build_music_and_chords_from_elements, build_section_lilypond,
    chord_naming_template_with, format_chord_notation, generate_chord_naming_template,
    get_chord_fifth, get_chord_root_note, get_chord_third, reading_order_of, ChordDefinition,
    ChordLayout, ChordNamingParams, ChordQuality, Clef, EditableElement, EditableElementType,
    ElementPosition, Orientation, PaperSize, WorksheetConfig, WorksheetGlobalSettings,
    WorksheetSection, WorksheetSectionLayout, WorksheetType,
};

fn element(
    kind: EditableElementType,
    measure: u32,
    beat: u32,
    content: &str,
    is_answer: bool,
) -> EditableElement {
    EditableElement {
        id: format!("{}-{}", measure, beat),
        element_type: kind,
        position: ElementPosition { measure, beat, voice: None },
        content: content.to_string(),
        is_answer,
        is_interactive: true,
    }
}

fn settings(show_answers: bool) -> WorksheetGlobalSettings {
    WorksheetGlobalSettings {
        paper_size: PaperSize::A4,
        orientation: Orientation::Landscape,
        show_answers,
        font_size: 12,
    }
}

fn section(title: &str, instructions: Option<&str>, elements: Vec<EditableElement>) -> WorksheetSection {
    WorksheetSection {
        id: "s".to_string(),
        title: title.to_string(),
        instructions: instructions.map(|s| s.to_string()),
        elements,
        layout: WorksheetSectionLayout {
            measures_per_system: 4,
            systems_per_page: 4,
            clef: Clef::Bass,
            time_signature: None,
            key_signature: Some("g".to_string()),
        },
    }
}

#[test]
fn chords_in_lilypond() {
    assert_eq!(format_chord_notation("Bb", &ChordQuality::Minor), "besm");
    assert_eq!(format_chord_notation("C", &ChordQuality::Major7), "Cmaj7");
    assert_eq!(format_chord_notation("F#", &ChordQuality::Diminished), "fisdim");
    assert_eq!(format_chord_notation("G", &ChordQuality::Major), "G");
    assert_eq!(format_chord_notation("A#", &ChordQuality::Dominant7), "ais7");
    assert_eq!(format_chord_notation("Eb", &ChordQuality::Augmented), "eesaug");
    assert_eq!(format_chord_notation("Ab", &ChordQuality::Minor7), "aesm7");
    assert_eq!(get_chord_root_note("F#m"), "Fis");
    assert_eq!(get_chord_root_note("Bb"), "Bes");
    assert_eq!(get_chord_root_note("C"), "C");
    assert_eq!(get_chord_third("Am"), "c");
    assert_eq!(get_chord_third("A"), "cis");
    assert_eq!(get_chord_third("Bdim"), "d");
    assert_eq!(get_chord_third("Xm"), "ees");
    assert_eq!(get_chord_third("X"), "e");
    assert_eq!(get_chord_fifth("Bdim"), "f");
    assert_eq!(get_chord_fifth("B"), "fis");
    assert_eq!(get_chord_fifth("X"), "g");
    assert_eq!(get_chord_fifth("Xdim"), "ges");
}

#[test]
fn elements_are_read_by_measure_and_beat() {
    let elements = vec![
        element(EditableElementType::Note, 2, 1, "a", false),
        element(EditableElementType::Note, 1, 2, "b", false),
        element(EditableElementType::Note, 2, 1, "c", false),
        element(EditableElementType::Note, 1, 1, "d", false),
        element(EditableElementType::Note, 1, 2, "e", false),
    ];
    assert_eq!(reading_order_of(&elements), vec![3, 1, 4, 0, 2]);
    assert!(reading_order_of(&[]).is_empty());
}

#[test]
fn staves_have_bar_lines_and_rests() {
    let elements = vec![
        element(EditableElementType::Text, 3, 1, "words", false),
        element(EditableElementType::Chord, 1, 1, "C", false),
        element(EditableElementType::Chord, 2, 2, "Dm", true),
        element(EditableElementType::Note, 1, 3, "d'", false),
        element(EditableElementType::Rest, 2, 1, "r2", false),
    ];
    let (music, chords) = build_music_and_chords_from_elements(&elements, false).unwrap();
    assert_eq!(music, "<C e g>4 r4 d'4  | r2 r4  | r4 ");
    assert_eq!(chords, "C4 s4 s4  | s4 r4  | s4 ");

    let (music, chords) = build_music_and_chords_from_elements(&elements, true).unwrap();
    assert_eq!(music, "<C e g>4 r4 d'4  | r2 <D f a>4  | r4 ");
    assert_eq!(chords, "C4 s4 s4  | s4 Dm4  | s4 ");

    let (music, chords) = build_music_and_chords_from_elements(&[], true).unwrap();
    assert_eq!(music, "");
    assert_eq!(chords, "");
}

#[test]
fn an_element_whose_place_has_passed_is_set_where_the_staves_stand() {
    let elements = vec![
        element(EditableElementType::Note, 1, 1, "c", false),
        element(EditableElementType::Note, 1, 1, "d", true),
        element(EditableElementType::Note, 3, 2, "e", false),
    ];
    let (music, chords) = build_music_and_chords_from_elements(&elements, false).unwrap();
    assert_eq!(music, "c4 r4  |  | r4 e4 ");
    assert_eq!(chords, "s4 s4  |  | s4 s4 ");
}

#[test]
fn a_section_is_a_score() {
    let s = section("", None, vec![element(EditableElementType::Note, 1, 1, "c", false)]);
    let text = build_section_lilypond(&s, &settings(false)).unwrap();
    let expected = r#"\score {
  <<
    \new ChordNames {
      s4 
    }
    \new Staff {
      \clef "bass"
      \key "g" \major
      \time "4/4"
      c4 
    }
  >>
  \layout {
    \context {
      \Staff
      \override NoteHead.output-attributes = #'((class . "interactive-note"))
      \override Rest.output-attributes = #'((class . "interactive-rest"))
    }
    \context {
      \ChordNames
      \override ChordName.output-attributes = #'((class . "interactive-chord"))
    }
  }
}
"#;
    assert_eq!(text, expected);
}

#[test]
fn a_document_has_a_head_and_its_sections() {
    let config = WorksheetConfig {
        id: "w".to_string(),
        title: "Sheet".to_string(),
        subtitle: None,
        worksheet_type: WorksheetType::NoteIdentification,
        sections: vec![
            section("First", Some("Read"), vec![]),
            section("", None, vec![]),
            section("Third", None, vec![]),
        ],
        global_settings: settings(true),
    };
    let text = build_lilypond_document(&config).unwrap();
    let head = r#"\version "2.24.0"

#(set-paper-size "a4-landscape")

\paper {
  indent = 0\mm
  line-width = 180\mm
  top-margin = 20\mm
  bottom-margin = 20\mm
  left-margin = 15\mm
  right-margin = 15\mm
  ragged-last-bottom = ##f
  print-all-headers = ##f
}

\header {
  title = "Sheet"
  subtitle = ""
  tagline = ##f
  composer = ##f
}

"#;
    assert!(text.starts_with(head));
    let first = r#"\markup { \column {
  \vspace #2
  \fill-line { \fontsize #2 \bold { "First" } }
  
  \fill-line { \italic { "Read" } }
}}

\score {"#;
    assert!(text[head.len()..].starts_with(first));
    let third = r#"\markup { \column {
  \vspace #2
  \fill-line { \fontsize #2 \bold { "Third" } }
  
}}

\score {"#;
    assert!(text.contains(third));
    assert_eq!(text.matches("\n\\pageBreak\n\n").count(), 2);
    assert_eq!(text.matches("\\score {").count(), 3);
    assert_eq!(text.matches("\\markup").count(), 2);
    assert!(text.contains("\n\\pageBreak\n\n\\score {"));

    let plain = WorksheetConfig {
        id: "w".to_string(),
        title: "T".to_string(),
        subtitle: Some("S".to_string()),
        worksheet_type: WorksheetType::ChordNaming,
        sections: vec![],
        global_settings: WorksheetGlobalSettings {
            paper_size: PaperSize::Letter,
            orientation: Orientation::Portrait,
            show_answers: false,
            font_size: 14,
        },
    };
    let text = build_lilypond_document(&plain).unwrap();
    assert!(text.contains("#(set-paper-size \"letter\")"));
    assert!(text.contains("  subtitle = \"S\"\n"));
    assert!(text.ends_with("  composer = ##f\n}\n\n"));
}

fn params() -> ChordNamingParams {
    let mut chords = Vec::new();
    for i in 0..12u32 {
        chords.push(ChordDefinition {
            root: if i % 2 == 0 { "Bb".to_string() } else { "C".to_string() },
            quality: if i % 2 == 0 { ChordQuality::Minor } else { ChordQuality::Major },
            position: ElementPosition { measure: i + 1, beat: 1, voice: None },
            show_answer: i == 3,
        });
    }
    ChordNamingParams {
        chords,
        instructions: None,
        layout: ChordLayout { chords_per_line: 3, show_staff_lines: true },
    }
}

#[test]
fn a_chord_naming_worksheet_holds_one_element_for_each_chord() {
    let config = chord_naming_template_with(params(), "the-id".to_string()).unwrap();
    assert_eq!(config.id, "the-id");
    assert_eq!(config.title, "Chord Naming Worksheet");
    assert!(config.subtitle.is_none());
    assert_eq!(config.worksheet_type, WorksheetType::ChordNaming);
    assert_eq!(config.global_settings.paper_size, PaperSize::Letter);
    assert_eq!(config.global_settings.orientation, Orientation::Portrait);
    assert!(!config.global_settings.show_answers);
    assert_eq!(config.global_settings.font_size, 14);
    assert_eq!(config.sections.len(), 1);
    let section = &config.sections[0];
    assert_eq!(section.id, "chord-naming-section");
    assert_eq!(section.title, "Chord Identification");
    assert_eq!(section.instructions, Some("Identify the following chords".to_string()));
    assert_eq!(section.layout.measures_per_system, 3);
    assert_eq!(section.layout.systems_per_page, 4);
    assert_eq!(section.layout.clef, Clef::Treble);
    assert_eq!(section.layout.time_signature, Some("4/4".to_string()));
    assert_eq!(section.layout.key_signature, Some("c".to_string()));
    assert_eq!(section.elements.len(), 12);
    assert_eq!(section.elements[0].id, "chord-0");
    assert_eq!(section.elements[0].content, "besm");
    assert_eq!(section.elements[1].content, "C");
    assert_eq!(section.elements[11].id, "chord-11");
    assert_eq!(section.elements[11].position.measure, 12);
    assert!(section.elements[3].is_answer);
    assert!(!section.elements[4].is_answer);
    assert!(section.elements[4].is_interactive);
    assert_eq!(section.elements[4].element_type, EditableElementType::Chord);

    let mut with_words = params();
    with_words.instructions = Some("Name them".to_string());
    let config = chord_naming_template_with(with_words, "x".to_string()).unwrap();
    assert_eq!(config.sections[0].instructions, Some("Name them".to_string()));
}

#[test]
fn every_new_worksheet_has_its_own_identifier() {
    let one = generate_chord_naming_template(params()).unwrap();
    let two = generate_chord_naming_template(params()).unwrap();
    assert_eq!(one.id.chars().count(), 36);
    assert_eq!(two.id.chars().count(), 36);
    assert_ne!(one.id, two.id);
    assert_eq!(one.sections[0].elements.len(), 12);
}
