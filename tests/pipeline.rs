use lingo_audio::args::{process_args, ArgsParsingError, DownloadType};
use lingo_audio::download::{after_create, after_transfer, target_path, CreateOutcome, DownloadError, DownloadStatus, DownloadStep};
use lingo_audio::driver::{Action, Driver, RunError};
use lingo_audio::words::{ExtractError, WordList};

fn strings(v: &[&str]) -> Vec<String> {
    v.iter().map(|s| s.to_string()).collect()
}

#[test]
fn target_path_joins_folder_and_name() {
    assert_eq!(target_path("out", "gehen (Frage)"), "out/gehen (Frage)");
}

#[test]
fn created_file_is_filled() {
    assert!(matches!(after_create(CreateOutcome::Created), DownloadStep::Transfer));
    assert!(matches!(after_transfer(Ok(())), Ok(DownloadStatus::Saved)));
}

#[test]
fn existing_file_is_not_fetched_again() {
    // The first call creates and fills the file; the second finds it.
    assert!(matches!(after_create(CreateOutcome::Created), DownloadStep::Transfer));
    assert!(matches!(
        after_create(CreateOutcome::AlreadyExists),
        DownloadStep::Finish(Ok(DownloadStatus::AlreadyExists))
    ));
}

#[test]
fn creation_and_transfer_failures_are_errors() {
    match after_create(CreateOutcome::Failed("denied".to_string())) {
        DownloadStep::Finish(Err(DownloadError::Io(m))) => assert_eq!(m, "denied"),
        _ => panic!("expected an I/O error"),
    }
    match after_transfer(Err("reset".to_string())) {
        Err(DownloadError::Transfer(m)) => assert_eq!(m, "reset"),
        _ => panic!("expected a transfer error"),
    }
}

#[test]
fn first_page_failure_stops_the_run() {
    let mut d = Driver::new(strings(&["https://e.example/1", "https://e.example/2"]), "out".to_string());
    match d.next_action() {
        Action::FetchPage(p) => assert_eq!(p, "https://e.example/1"),
        _ => panic!("expected the first page"),
    }
    d.page_read(Err(RunError::Extract(ExtractError::MissingLabel(0))));
    for _ in 0..2 {
        assert!(matches!(d.next_action(), Action::Done(Err(RunError::Extract(ExtractError::MissingLabel(0))))));
        let mut w = WordList::new();
        w.insert("a".to_string(), "https://a.example/a".to_string());
        d.page_read(Ok(w));
        d.downloaded(Ok(DownloadStatus::Saved));
    }
}

#[test]
fn run_downloads_each_word_then_the_next_page() {
    let mut d = Driver::new(strings(&["https://e.example/1", "https://e.example/2"]), "out".to_string());
    let mut w = WordList::new();
    w.insert("a".to_string(), "https://a.example/a".to_string());
    w.insert("b".to_string(), "https://a.example/b".to_string());
    d.page_read(Ok(w));
    match d.next_action() {
        Action::Download { folder, name, url } => {
            assert_eq!(folder, "out");
            assert_eq!(name, "a");
            assert_eq!(url, "https://a.example/a");
        }
        _ => panic!("expected a download"),
    }
    d.downloaded(Ok(DownloadStatus::Saved));
    assert!(matches!(d.next_action(), Action::Download { .. }));
    d.downloaded(Ok(DownloadStatus::AlreadyExists));
    match d.next_action() {
        Action::FetchPage(p) => assert_eq!(p, "https://e.example/2"),
        _ => panic!("expected the second page"),
    }
    d.page_read(Ok(WordList::new()));
    assert!(matches!(d.next_action(), Action::Done(Ok(()))));
}

#[test]
fn download_failure_stops_the_run() {
    let mut d = Driver::new(strings(&["https://e.example/1", "https://e.example/2"]), "out".to_string());
    let mut w = WordList::new();
    w.insert("a".to_string(), "https://a.example/a".to_string());
    d.page_read(Ok(w));
    d.downloaded(Err(RunError::Download(DownloadError::Transfer("x".to_string()))));
    assert!(matches!(d.next_action(), Action::Done(Err(RunError::Download(_)))));
}

#[test]
fn arguments_are_read() {
    let a = process_args(strings(&["prog", "https://example.com/kurse", "c", "out"])).ok().unwrap();
    assert_eq!(a.url, "https://example.com/kurse");
    assert_eq!(a.task, DownloadType::Courses);
    assert_eq!(a.out_folder, "out");
    let b = process_args(strings(&["prog", "https://example.com/p", "p", "out"])).ok().unwrap();
    assert_eq!(b.task, DownloadType::Page);
}

#[test]
fn wrong_arguments_are_refused() {
    assert_eq!(process_args(strings(&["prog", "https://example.com"])).err().unwrap(), ArgsParsingError::IncorrectLen);
    assert_eq!(process_args(strings(&["prog", "nope", "c", "out"])).err().unwrap(), ArgsParsingError::UrlParsing);
}

#[test]
fn empty_key_leads_to_no_download() {
    let page = "<html><body><div class=\"sc-iFMAIt\"><strong>etwas</strong>\
        <source type=\"audio/MP3\" src=\"https://a.example/x\"></div></body></html>";
    let list = lingo_audio::page::get_word_list(page).ok().unwrap();
    let mut d = Driver::new(strings(&["https://e.example/1"]), "out".to_string());
    d.page_read(Ok(list));
    assert!(matches!(d.next_action(), Action::Done(Ok(()))));
}
