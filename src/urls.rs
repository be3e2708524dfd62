use vstd::prelude::*;
use crate::text::push_char;

verus! {

/// The serialisation of the absolute URL that `s` parses to, if it parses.
pub uninterp spec fn parsed_href(s: Seq<char>) -> Option<Seq<char>>;

/// The serialisation of the URL that `rel` denotes against the absolute URL
/// `base`, if `base` parses and `rel` can be joined to it.
pub uninterp spec fn joined_href(base: Seq<char>, rel: Seq<char>) -> Option<Seq<char>>;

/// Relies on `url::Url::parse`, read back through `From<Url> for String`,
/// which hands out the serialisation.
#[verifier::external_body]
fn parse_url(s: &str) -> (r: Option<String>)
    ensures
        r is Some <==> parsed_href(s@) is Some,
        r matches Some(h) ==> parsed_href(s@) == Some(h@),
{
    url::Url::parse(s).ok().map(String::from)
}

/// Relies on `url::Url::join` on the URL that `url::Url::parse` reads from
/// `base`, read back as its serialisation.
#[verifier::external_body]
fn join_url(base: &str, rel: &str) -> (r: Option<String>)
    ensures
        r is Some <==> joined_href(base@, rel@) is Some,
        r matches Some(h) ==> joined_href(base@, rel@) == Some(h@),
{
    url::Url::parse(base).ok()?.join(rel).ok().map(String::from)
}

/// Parses an absolute URL into its serialisation.
pub fn absolute_url(s: &str) -> (r: Option<String>)
    ensures
        r is Some <==> parsed_href(s@) is Some,
        r matches Some(h) ==> parsed_href(s@) == Some(h@),
{
    parse_url(s)
}

/// The lesson-list URL of the course that `href` names on the site at
/// `base`: `base` joined with `href/`, then with `lv`.
pub open spec fn lesson_url(base: Seq<char>, href: Seq<char>) -> Option<Seq<char>> {
    match joined_href(base, href.push('/')) {
        Some(course) => joined_href(course, seq!['l', 'v']),
        None => None,
    }
}

/// The lesson URL of a single course link.
pub fn lesson_url_of(base: &str, href: &str) -> (r: Option<String>)
    ensures
        r is Some <==> lesson_url(base@, href@) is Some,
        r matches Some(u) ==> lesson_url(base@, href@) == Some(u@),
{
    let mut rel = href.to_owned();
    push_char(&mut rel, '/');
    match join_url(base, rel.as_str()) {
        Some(course) => {
            let lv = "lv";
            proof {
                reveal_strlit("lv");
            }
            assert(lv@ =~= seq!['l', 'v']);
            join_url(course.as_str(), lv)
        },
        None => None,
    }
}

/// The course link that could not be resolved, and its position.
pub struct ResolveError {
    pub index: usize,
    pub href: String,
}

/// Every link resolves to a lesson URL.
pub open spec fn all_resolve(base: Seq<char>, hrefs: Seq<Seq<char>>) -> bool {
    forall|i: int| 0 <= i < hrefs.len() ==> (#[trigger] lesson_url(base, hrefs[i])) is Some
}

/// Resolves each course link against `base_url` into an absolute lesson URL,
/// in the order of the links; the first link that cannot be resolved fails
/// the whole resolution.
pub fn create_abs_urls(base_url: &str, url_list: &Vec<String>) -> (r: Result<Vec<String>, ResolveError>)
    ensures
        r is Ok <==> all_resolve(base_url@, url_list@.map_values(|h: String| h@)),
        r matches Ok(v) ==> v.len() == url_list.len() && forall|i: int| 0 <= i < v.len()
            ==> lesson_url(base_url@, url_list@[i]@) == Some(#[trigger] v@[i]@),
        r matches Err(e) ==> e.index < url_list.len() && e.href@ == url_list@[e.index as int]@
            && lesson_url(base_url@, url_list@[e.index as int]@) is None
            && forall|j: int| 0 <= j < e.index ==> (#[trigger] lesson_url(base_url@, url_list@[j]@)) is Some,
{
    let ghost hs = url_list@.map_values(|h: String| h@);
    let mut out: Vec<String> = Vec::new();
    for i in 0..url_list.len()
        invariant
            hs == url_list@.map_values(|h: String| h@),
            out.len() == i,
            forall|j: int| 0 <= j < i ==> lesson_url(base_url@, url_list@[j]@) == Some(#[trigger] out@[j]@),
    {
        match lesson_url_of(base_url, url_list[i].as_str()) {
            Some(u) => out.push(u),
            None => {
                assert(!all_resolve(base_url@, hs)) by {
                    assert(hs[i as int] == url_list@[i as int]@);
                }
                let href = url_list[i].clone();
                assert forall|j: int| 0 <= j < i implies (#[trigger] lesson_url(base_url@, url_list@[j]@)) is Some by {
                    assert(lesson_url(base_url@, url_list@[j]@) == Some(out@[j]@));
                }
                return Err(ResolveError { index: i, href });
            },
        }
    }
    assert(all_resolve(base_url@, hs)) by {
        assert forall|j: int| 0 <= j < hs.len() implies (#[trigger] lesson_url(base_url@, hs[j])) is Some by {
            assert(lesson_url(base_url@, url_list@[j]@) == Some(out@[j]@));
        }
    }
    Ok(out)
}

} // verus!
