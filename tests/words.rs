use lingo_audio::page::{get_word_list, parse_course_list, course_links, CourseError};
use lingo_audio::words::{collect_words, ExtractError, RawSection, WordList};

fn section(label: &str, src: &str) -> String {
    format!(
        "<div class=\"sc-iFMAIt\"><strong>{}</strong><audio><source type=\"audio/MP3\" src=\"{}\"></audio></div>",
        label, src
    )
}

fn page(body: &str) -> String {
    format!("<html><body>{}</body></html>", body)
}

#[test]
fn page_without_sections_gives_empty_list() {
    let w = get_word_list(&page("<p>nothing here</p>")).ok().unwrap();
    assert!(w.is_empty());
    assert_eq!(w.len(), 0);
}

#[test]
fn sections_give_keys_and_audio_urls() {
    let body = section("gehen?", "https://cdn.example.com/a.mp3")
        + &section("laufen (stark)", "https://cdn.example.com/b.mp3");
    let w = get_word_list(&page(&body)).ok().unwrap();
    assert_eq!(w.len(), 2);
    assert_eq!(w.get("gehen").unwrap(), "https://cdn.example.com/a.mp3");
    assert_eq!(w.get("laufen").unwrap(), "https://cdn.example.com/b.mp3");
}

#[test]
fn empty_key_section_is_skipped() {
    let body = section("etwas", "https://cdn.example.com/a.mp3")
        + "<div class=\"sc-iFMAIt\"><strong> | . </strong></div>"
        + &section("Haus", "https://cdn.example.com/h.mp3");
    let w = get_word_list(&page(&body)).ok().unwrap();
    assert_eq!(w.len(), 1);
    assert!(w.get("").is_none());
    assert_eq!(w.entries()[0].key, "Haus");
}

#[test]
fn later_section_wins_on_equal_keys() {
    let body = section("Haus", "https://cdn.example.com/1.mp3")
        + &section("Haus.", "https://cdn.example.com/2.mp3");
    let w = get_word_list(&page(&body)).ok().unwrap();
    assert_eq!(w.len(), 1);
    assert_eq!(w.get("Haus").unwrap(), "https://cdn.example.com/2.mp3");
}

#[test]
fn missing_label_fails() {
    let body = section("Haus", "https://cdn.example.com/1.mp3")
        + "<div class=\"sc-iFMAIt\"><em>x</em></div>";
    assert_eq!(get_word_list(&page(&body)).err().unwrap(), ExtractError::MissingLabel(1));
}

#[test]
fn missing_audio_fails() {
    let body = "<div class=\"sc-iFMAIt\"><strong>Haus</strong></div>";
    assert_eq!(get_word_list(&page(body)).err().unwrap(), ExtractError::MissingAudio(0));
}

#[test]
fn malformed_audio_url_fails() {
    let body = section("Haus", "no-scheme.mp3");
    assert_eq!(get_word_list(&page(&body)).err().unwrap(), ExtractError::BadAudioUrl(0));
}

#[test]
fn collect_words_on_plain_sections() {
    let secs = vec![
        RawSection { label: Some("an/aus".to_string()), audio_src: Some("https://a.example/x".to_string()) },
        RawSection { label: Some("  ".to_string()), audio_src: None },
    ];
    let w = collect_words(&secs).ok().unwrap();
    assert_eq!(w.len(), 1);
    assert_eq!(w.get("an-aus").unwrap(), "https://a.example/x");
    assert_eq!(collect_words(&vec![]).ok().unwrap().len(), 0);
    let bad = vec![RawSection { label: None, audio_src: None }];
    assert_eq!(collect_words(&bad).err().unwrap(), ExtractError::MissingLabel(0));
}

#[test]
fn word_list_insert_replaces() {
    let mut w = WordList::new();
    w.insert("a".to_string(), "u1".to_string());
    w.insert("b".to_string(), "u2".to_string());
    w.insert("a".to_string(), "u3".to_string());
    assert_eq!(w.len(), 2);
    assert_eq!(w.get("a").unwrap(), "u3");
    let e = w.into_entries();
    assert_eq!(e[0].key, "a");
    assert_eq!(e[1].audio_url, "u2");
}

#[test]
fn course_index_gives_lesson_urls() {
    let body = "<a class=\"sc-cNKqjZ\" href=\"deutsch-a1\">A1</a><a class=\"sc-cNKqjZ\" href=\"deutsch-a2\">A2</a>";
    let r = parse_course_list("https://example.com/kurse/", &page(body)).ok().unwrap();
    assert_eq!(
        r,
        vec![
            "https://example.com/kurse/deutsch-a1/lv".to_string(),
            "https://example.com/kurse/deutsch-a2/lv".to_string(),
        ]
    );
}

#[test]
fn course_link_without_href_fails() {
    let body = "<a class=\"sc-cNKqjZ\">A1</a>";
    assert!(matches!(course_links(&page(body)), Err(CourseError::MissingHref(0))));
}

#[test]
fn unresolvable_course_link_fails() {
    let body = "<a class=\"sc-cNKqjZ\" href=\"a1\">A1</a>";
    match parse_course_list("no base", &page(body)) {
        Err(CourseError::Unresolvable(e)) => assert_eq!(e.href, "a1"),
        _ => panic!("expected an unresolvable link"),
    }
}

#[test]
fn label_markup_is_left_out_of_the_key() {
    let body = "<div class=\"sc-iFMAIt\"><strong><em>gut</em></strong><audio>\
        <source type=\"audio/MP3\" src=\"https://x.de/gut.mp3\"></audio></div>";
    let w = get_word_list(&page(body)).ok().unwrap();
    assert_eq!(w.len(), 1);
    assert_eq!(w.get("gut").unwrap(), "https://x.de/gut.mp3");
}
