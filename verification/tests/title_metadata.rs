use book_router::domain::search::ParsedTitleMetadata;

#[test]
fn parses_narrator_and_graphic_audio_from_title() {
    let parsed = ParsedTitleMetadata::from_title(
        "The Sandman - Narrated by Neil Gaiman [ENG] GraphicAudio M4B",
    );

    assert_eq!(parsed.narrator.as_deref(), Some("Neil Gaiman"));
    assert!(parsed.graphic_audio);
    assert_eq!(parsed.detected_language.as_deref(), Some("en"));
}

#[test]
fn leaves_unstructured_titles_without_narrator() {
    let parsed = ParsedTitleMetadata::from_title("The Hobbit J.R.R. Tolkien M4B");

    assert_eq!(parsed.narrator, None);
    assert!(!parsed.graphic_audio);
    assert_eq!(parsed.detected_language, None);
}

#[test]
fn narrator_cut_follows_the_lowercased_byte_offset() {
    // 'Ⱥ' takes one byte more once lowercased, so the cut lands one byte late
    assert_eq!(
        ParsedTitleMetadata::from_title("ȺA narrated by Bob").narrator.as_deref(),
        Some("ob")
    );
    // 'ẞ' takes one byte less once lowercased, so the cut lands one byte early
    assert_eq!(
        ParsedTitleMetadata::from_title("ẞ narrated by Bob").narrator.as_deref(),
        Some("Bob")
    );
    assert_eq!(
        ParsedTitleMetadata::from_title("Dune READ BY Scott Brick (Unabridged)").narrator.as_deref(),
        Some("Scott Brick")
    );
    // a cut inside a character gives no narrator
    assert_eq!(ParsedTitleMetadata::from_title("Ⱥ narrated by Émile").narrator, None);
}
