use vstd::prelude::*;
use crate::download::{DownloadError, DownloadStatus};
use crate::page::CourseError;
use crate::words::{ExtractError, WordEntry, WordList};

verus! {

/// Why a run stopped.
pub enum RunError {
    /// A page could not be fetched.
    Fetch(String),
    Extract(ExtractError),
    Course(CourseError),
    Download(DownloadError),
}

/// What the pipeline asks for next.
pub enum Action {
    /// Fetch this page and hand its word list, or why there is none, to
    /// [`Driver::page_read`].
    FetchPage(String),
    /// Download `url` into the file `name` under `folder` and hand the result
    /// to [`Driver::downloaded`].
    Download { folder: String, name: String, url: String },
    /// The run is over, with this result.
    Done(Result<(), RunError>),
}

/// The decisions of a run over lesson pages: pages are read in order, each
/// page's words are downloaded before the next page is fetched, and the
/// first error ends the run.
pub struct Driver {
    pub pages: Vec<String>,
    pub folder: String,
    /// How many pages have been read.
    pub page: usize,
    /// The words of the page read last.
    pub words: Vec<WordEntry>,
    /// How many of those words have been downloaded.
    pub word: usize,
    /// How the run ended, once it has.
    pub outcome: Option<Result<(), RunError>>,
}

/// The driver waits for the next page.
pub open spec fn awaits_page(d: Driver) -> bool {
    d.outcome is None && d.word >= d.words.len() && d.page < d.pages.len()
}

/// The driver waits for a download.
pub open spec fn awaits_download(d: Driver) -> bool {
    d.outcome is None && d.word < d.words.len()
}

/// What the driver asks for in state `d`.
pub open spec fn planned(d: Driver) -> Action {
    match d.outcome {
        Some(r) => Action::Done(r),
        None => if d.word < d.words.len() {
            Action::Download {
                folder: d.folder,
                name: d.words@[d.word as int].key,
                url: d.words@[d.word as int].audio_url,
            }
        } else if d.page < d.pages.len() {
            Action::FetchPage(d.pages@[d.page as int])
        } else {
            Action::Done(Ok(()))
        },
    }
}

/// `d` once the run has failed with `e`.
pub open spec fn failed(d: Driver, e: RunError) -> Driver {
    Driver { outcome: Some(Err(e)), ..d }
}

impl Driver {
    /// A run over `pages`, in order, that saves into `folder`.
    pub fn new(pages: Vec<String>, folder: String) -> (r: Driver)
        ensures
            r.pages == pages,
            r.folder == folder,
            r.page == 0,
            r.words.len() == 0,
            r.word == 0,
            r.outcome is None,
    {
        Driver { pages, folder, page: 0, words: Vec::new(), word: 0, outcome: None }
    }

    /// What the run asks for next.
    pub fn next_action(&self) -> (r: Action)
        ensures
            r == planned(*self),
    {
        match &self.outcome {
            Some(Ok(u)) => Action::Done(Ok(*u)),
            Some(Err(e)) => Action::Done(Err(copy_error(e))),
            None => if self.word < self.words.len() {
                Action::Download {
                    folder: self.folder.clone(),
                    name: self.words[self.word].key.clone(),
                    url: self.words[self.word].audio_url.clone(),
                }
            } else if self.page < self.pages.len() {
                Action::FetchPage(self.pages[self.page].clone())
            } else {
                Action::Done(Ok(()))
            },
        }
    }

    /// Takes in the word list of the page asked for, or why it could not be
    /// had; a driver that waits for no page is left as it is.
    pub fn page_read(&mut self, r: Result<WordList, RunError>)
        requires
            r matches Ok(w) ==> w.wf(),
        ensures
            !awaits_page(*old(self)) ==> *final(self) == *old(self),
            awaits_page(*old(self)) ==> match r {
                Ok(w) => final(self).words@ == w.entry_seq() && final(self).words.len() == w@.len()
                    && (forall|i: int| 0 <= i < final(self).words.len()
                        ==> w@.contains_key(#[trigger] final(self).words@[i].key@)
                        && w@[final(self).words@[i].key@] == final(self).words@[i].audio_url@)
                    && final(self).word == 0
                    && final(self).page == old(self).page + 1 && final(self).pages == old(self).pages
                    && final(self).folder == old(self).folder && final(self).outcome is None,
                Err(e) => *final(self) == failed(*old(self), e),
            },
    {
        if self.outcome.is_some() || self.word < self.words.len() || self.page >= self.pages.len() {
            return;
        }
        match r {
            Ok(w) => {
                self.words = w.into_entries();
                self.word = 0;
                self.page = self.page + 1;
            },
            Err(e) => {
                self.outcome = Some(Err(e));
            },
        }
    }

    /// Takes in the result of the download asked for; a driver that waits
    /// for no download is left as it is.
    pub fn downloaded(&mut self, r: Result<DownloadStatus, RunError>)
        ensures
            !awaits_download(*old(self)) ==> *final(self) == *old(self),
            awaits_download(*old(self)) ==> match r {
                Ok(_) => *final(self) == Driver { word: (old(self).word + 1) as usize, ..*old(self) },
                Err(e) => *final(self) == failed(*old(self), e),
            },
    {
        if self.outcome.is_some() || self.word >= self.words.len() {
            return;
        }
        match r {
            Ok(_) => {
                self.word = self.word + 1;
            },
            Err(e) => {
                self.outcome = Some(Err(e));
            },
        }
    }
}

fn copy_error(e: &RunError) -> (r: RunError)
    ensures
        r == *e,
{
    match e {
        RunError::Fetch(m) => RunError::Fetch(m.clone()),
        RunError::Extract(x) => RunError::Extract(*x),
        RunError::Course(c) => RunError::Course(match c {
            CourseError::BadSelector => CourseError::BadSelector,
            CourseError::MissingHref(i) => CourseError::MissingHref(*i),
            CourseError::Unresolvable(u) => CourseError::Unresolvable(crate::urls::ResolveError {
                index: u.index,
                href: u.href.clone(),
            }),
        }),
        RunError::Download(d) => RunError::Download(match d {
            DownloadError::Io(m) => DownloadError::Io(m.clone()),
            DownloadError::Transfer(m) => DownloadError::Transfer(m.clone()),
        }),
    }
}

/// A run whose page fails stops there: it asks for nothing but its end,
/// with that failure, so no later page is fetched and nothing more is
/// downloaded.
pub proof fn law_fail_fast(d: Driver, e: RunError)
    requires
        awaits_page(d),
    ensures
        planned(failed(d, e)) == Action::Done(Err(e)),
        !awaits_page(failed(d, e)),
        !awaits_download(failed(d, e)),
{
}

} // verus!
