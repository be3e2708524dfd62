use vstd::prelude::*;
use crate::text::push_char;

verus! {

/// What came of creating the target file in exclusive mode.
pub enum CreateOutcome {
    Created,
    AlreadyExists,
    Failed(String),
}

/// How a download ended well.
#[derive(Clone, Copy, Debug, PartialEq, Eq, Structural)]
pub enum DownloadStatus {
    Saved,
    AlreadyExists,
}

/// How a download failed, with the underlying message.
pub enum DownloadError {
    Io(String),
    Transfer(String),
}

/// What a download does once the target file's creation was tried.
pub enum DownloadStep {
    Transfer,
    Finish(Result<DownloadStatus, DownloadError>),
}

/// The path of the file named `name` directly under `folder`.
pub open spec fn path_in(folder: Seq<char>, name: Seq<char>) -> Seq<char> {
    folder + seq!['/'] + name
}

/// The path of the file named `name` directly under `folder`.
pub fn target_path(folder: &str, name: &str) -> (r: String)
    ensures
        r@ == path_in(folder@, name@),
{
    let mut p = folder.to_owned();
    push_char(&mut p, '/');
    let v = crate::text::chars_of(name);
    let ghost start = p@;
    for i in 0..v.len()
        invariant
            v@ == name@,
            p@ == start + v@.take(i as int),
    {
        push_char(&mut p, v[i]);
        assert(v@.take(i + 1) =~= v@.take(i as int).push(v@[i as int]));
    }
    assert(v@.take(v.len() as int) =~= v@);
    p
}

/// The step after the creation: only a file that was just created is
/// filled from the network; one that existed is left alone.
pub open spec fn step_after(outcome: CreateOutcome) -> DownloadStep {
    match outcome {
        CreateOutcome::Created => DownloadStep::Transfer,
        CreateOutcome::AlreadyExists => DownloadStep::Finish(Ok(DownloadStatus::AlreadyExists)),
        CreateOutcome::Failed(m) => DownloadStep::Finish(Err(DownloadError::Io(m))),
    }
}

/// Decides what follows the exclusive creation of the target file.
pub fn after_create(outcome: CreateOutcome) -> (r: DownloadStep)
    ensures
        r == step_after(outcome),
{
    match outcome {
        CreateOutcome::Created => DownloadStep::Transfer,
        CreateOutcome::AlreadyExists => DownloadStep::Finish(Ok(DownloadStatus::AlreadyExists)),
        CreateOutcome::Failed(m) => DownloadStep::Finish(Err(DownloadError::Io(m))),
    }
}

/// The end of a download after the transfer into the new file.
pub open spec fn transfer_result(t: Result<(), String>) -> Result<DownloadStatus, DownloadError> {
    match t {
        Ok(()) => Ok(DownloadStatus::Saved),
        Err(m) => Err(DownloadError::Transfer(m)),
    }
}

/// Reports how a download ended once its transfer ran. A transfer that
/// fails part way leaves the partly written file where it is: it is not
/// removed, and a later run finds it and reports that it exists.
pub fn after_transfer(t: Result<(), String>) -> (r: Result<DownloadStatus, DownloadError>)
    ensures
        r == transfer_result(t),
{
    match t {
        Ok(()) => Ok(DownloadStatus::Saved),
        Err(m) => Err(DownloadError::Transfer(m)),
    }
}

/// A download into a folder whose files are `files` (path to content), when
/// creation fails only on an existing file and the transfer brings `body`:
/// the folder afterwards, the result, and whether a transfer ran.
pub open spec fn download_in(
    files: Map<Seq<char>, Seq<u8>>,
    path: Seq<char>,
    body: Seq<u8>,
) -> (Map<Seq<char>, Seq<u8>>, Result<DownloadStatus, DownloadError>, bool) {
    let outcome = if files.contains_key(path) {
        CreateOutcome::AlreadyExists
    } else {
        CreateOutcome::Created
    };
    match step_after(outcome) {
        DownloadStep::Transfer => (files.insert(path, body), transfer_result(Ok(())), true),
        DownloadStep::Finish(r) => (files, r, false),
    }
}

/// Downloading the same file twice transfers once: the first call saves the
/// file, the second finds it, makes no transfer and reports that it exists,
/// and the file keeps the bytes of the one transfer.
pub proof fn law_download_twice(
    files: Map<Seq<char>, Seq<u8>>,
    path: Seq<char>,
    first: Seq<u8>,
    second: Seq<u8>,
)
    requires
        !files.contains_key(path),
    ensures
        ({
            let (after_first, r1, t1) = download_in(files, path, first);
            let (after_second, r2, t2) = download_in(after_first, path, second);
            &&& r1 == Ok::<_, DownloadError>(DownloadStatus::Saved)
            &&& t1
            &&& r2 == Ok::<_, DownloadError>(DownloadStatus::AlreadyExists)
            &&& !t2
            &&& after_second == after_first
            &&& after_second[path] == first
        }),
{
}

} // verus!
