use lingo_audio::urls::{absolute_url, create_abs_urls, lesson_url_of};

#[test]
fn course_link_becomes_lesson_url() {
    let r = create_abs_urls("https://example.com/kurse/", &vec!["deutsch-a1".to_string()]).ok().unwrap();
    assert_eq!(r, vec!["https://example.com/kurse/deutsch-a1/lv".to_string()]);
}

#[test]
fn resolution_keeps_the_order_of_links() {
    let links = vec!["b".to_string(), "/top/a".to_string(), "c".to_string()];
    let r = create_abs_urls("https://example.com/x/y", &links).ok().unwrap();
    assert_eq!(
        r,
        vec![
            "https://example.com/x/b/lv".to_string(),
            "https://example.com/top/a/lv".to_string(),
            "https://example.com/x/c/lv".to_string(),
        ]
    );
}

#[test]
fn single_link_matches_two_joins() {
    let one = lesson_url_of("https://example.com/kurse/", "a1").unwrap();
    let all = create_abs_urls("https://example.com/kurse/", &vec!["a1".to_string()]).ok().unwrap();
    assert_eq!(all, vec![one]);
}

#[test]
fn malformed_base_fails_at_first_link() {
    let e = create_abs_urls("not a url", &vec!["a".to_string(), "b".to_string()]).err().unwrap();
    assert_eq!(e.index, 0);
    assert_eq!(e.href, "a");
}

#[test]
fn no_links_resolve_to_nothing() {
    assert!(create_abs_urls("not a url", &vec![]).ok().unwrap().is_empty());
}

#[test]
fn absolute_url_gives_the_serialisation() {
    assert_eq!(absolute_url("HTTP://Example.COM").unwrap(), "http://example.com/");
    assert!(absolute_url("relative/path").is_none());
}
