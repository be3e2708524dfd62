use vstd::prelude::*;
use crate::urls::{absolute_url, parsed_href};

verus! {

/// Whether one lesson page is read, or a course index with all its lessons.
#[derive(Clone, Copy, Debug, PartialEq, Eq, Structural)]
pub enum DownloadType {
    Page,
    Courses,
}

/// What a run was asked to do.
pub struct Arguments {
    /// The page or course index, as an absolute URL's serialisation.
    pub url: String,
    pub task: DownloadType,
    pub out_folder: String,
}

#[derive(Clone, Copy, Debug, PartialEq, Eq, Structural)]
pub enum ArgsParsingError {
    IncorrectLen,
    UrlParsing,
}

/// Reads the command line `args`, program name first, then the URL, the
/// mode (`c` for a course index, anything else for one page) and the output
/// folder.
pub fn process_args(args: Vec<String>) -> (r: Result<Arguments, ArgsParsingError>)
    ensures
        args.len() != 4 ==> r == Err::<Arguments, _>(ArgsParsingError::IncorrectLen),
        args.len() == 4 && parsed_href(args@[1]@) is None ==> r == Err::<Arguments, _>(
            ArgsParsingError::UrlParsing,
        ),
        args.len() == 4 && parsed_href(args@[1]@) is Some ==> r is Ok,
        r matches Ok(a) ==> Some(a.url@) == parsed_href(args@[1]@) && (a.task
            == DownloadType::Courses <==> args@[2]@ == seq!['c']) && a.out_folder@ == args@[3]@,
{
    if args.len() != 4 {
        return Err(ArgsParsingError::IncorrectLen);
    }
    let url = match absolute_url(args[1].as_str()) {
        Some(u) => u,
        None => return Err(ArgsParsingError::UrlParsing),
    };
    let c = "c".to_owned();
    proof {
        reveal_strlit("c");
    }
    assert(c@ =~= seq!['c']);
    let task = if args[2].eq(&c) {
        DownloadType::Courses
    } else {
        DownloadType::Page
    };
    Ok(Arguments { url, task, out_folder: args[3].clone() })
}

} // verus!
