use lingo_audio::text::normalize;

// The tag that a question or exclamation mark becomes is itself the first
// parenthesised span, so the removal of that span takes it out again.
#[test]
fn question_mark_tag_is_the_first_parenthetical() {
    assert_eq!(normalize("gehen?"), "gehen");
    assert_eq!(normalize("wie? (formell)"), "wie  (formell)");
}

#[test]
fn exclamation_mark_tag_is_the_first_parenthetical() {
    assert_eq!(normalize("Hallo!"), "Hallo");
    assert_eq!(normalize("(du) Hallo!"), "Hallo (Ausrufe)");
}

#[test]
fn parenthetical_is_removed_and_trimmed() {
    assert_eq!(normalize("laufen (stark)"), "laufen");
}

#[test]
fn slash_becomes_dash() {
    assert_eq!(normalize("an/aus"), "an-aus");
}

#[test]
fn object_markers_are_removed() {
    assert_eq!(normalize("etwas machen"), "machen");
    assert_eq!(normalize("jemanden sehen"), "sehen");
    assert_eq!(normalize("jemandem etwas geben"), "jemandem  geben");
    let out = normalize("jemanden etwas fragen");
    assert!(!out.contains("etwas") && !out.contains("jemanden"));
    assert_eq!(out, "fragen");
}

#[test]
fn separators_are_removed() {
    assert_eq!(normalize("ja/ nein"), "janein");
    assert_eq!(normalize("a|b.c"), "abc");
}

#[test]
fn only_first_parenthetical_is_removed() {
    assert_eq!(normalize("a (b) c (d)"), "a  c (d)");
    assert_eq!(normalize("gehen? (ugs)"), "gehen  (ugs)");
}

#[test]
fn closing_before_opening_is_kept() {
    assert_eq!(normalize("a) b (c"), "a) b (c");
}

#[test]
fn unusable_labels_normalise_to_nothing() {
    assert_eq!(normalize(""), "");
    assert_eq!(normalize("etwas"), "");
    assert_eq!(normalize("  \t "), "");
    assert_eq!(normalize("(nur Notiz)"), "");
}

#[test]
fn surrounding_white_space_is_trimmed() {
    assert_eq!(normalize("  Haus \n"), "Haus");
    assert_eq!(normalize("\u{a0}Tür\u{3000}"), "Tür");
}

// Removing one marker can join the characters around it into another.
#[test]
fn marker_can_reappear_after_removal() {
    assert_eq!(normalize("etetwaswas"), "etwas");
    assert_eq!(normalize("et.was"), "etwas");
}
