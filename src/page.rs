use vstd::prelude::*;
use crate::urls::{create_abs_urls, lesson_url, ResolveError};
use crate::dom::{
    attribute, attr_at, descendant_match_count, page_match_count, parse_document, parse_selector,
    select_all, select_first, selector_parses, text, text_at,
};
use crate::words::{collect_words, views_of, words_of, ExtractError, RawSection, SectionView, WordList};

verus! {

/// The selector of a lesson page's word sections: `.sc-iFMAIt`.
pub open spec fn word_list_selector() -> Seq<char> {
    seq!['.', 's', 'c', '-', 'i', 'F', 'M', 'A', 'I', 't']
}

/// The selector of a word section's label: `strong`.
pub open spec fn label_selector() -> Seq<char> {
    seq!['s', 't', 'r', 'o', 'n', 'g']
}

/// The selector of a word section's audio source: `source[type="audio/MP3"]`.
pub open spec fn audio_selector() -> Seq<char> {
    seq![
        's', 'o', 'u', 'r', 'c', 'e', '[', 't', 'y', 'p', 'e', '=', '"', 'a', 'u', 'd', 'i', 'o',
        '/', 'M', 'P', '3', '"', ']',
    ]
}

/// The selector of a course index's links: `.sc-cNKqjZ`.
pub open spec fn course_selector() -> Seq<char> {
    seq!['.', 's', 'c', '-', 'c', 'N', 'K', 'q', 'j', 'Z']
}

/// The `i`-th word section of `page`: the text of its first label and
/// the `src` of its first audio source.
pub open spec fn section_at(page: Seq<char>, i: nat) -> SectionView {
    let p = seq![(word_list_selector(), i)];
    (
        if descendant_match_count(page, p, label_selector()) > 0 {
            Some(text_at(page, p.push((label_selector(), 0nat))))
        } else {
            None
        },
        if descendant_match_count(page, p, audio_selector()) > 0 {
            attr_at(page, p.push((audio_selector(), 0nat)), seq!['s', 'r', 'c'])
        } else {
            None
        },
    )
}

/// The word sections of `page`, in the order of the first step of an
/// [`crate::dom::ElementPath`], or `None` where a selector does not parse.
pub open spec fn page_sections(page: Seq<char>) -> Option<Seq<SectionView>> {
    if selector_parses(word_list_selector()) && selector_parses(label_selector())
        && selector_parses(audio_selector()) {
        Some(Seq::new(page_match_count(page, word_list_selector()), |i: int| section_at(page, i as nat)))
    } else {
        None
    }
}

/// Reads the word list of a lesson page: each word section, in the order
/// in which [`page_sections`] lists them, gives the text of its label (its
/// markup left out) and the `src` of its audio source, and
/// [`collect_words`] turns those into the list.
pub fn get_word_list(page: &str) -> (r: Result<WordList, ExtractError>)
    ensures
        page_sections(page@) is None <==> r == Err::<WordList, _>(ExtractError::BadSelector),
        page_sections(page@) matches Some(s) ==> match r {
            Ok(w) => w.wf() && words_of(s) == Ok::<_, ExtractError>(w@),
            Err(e) => words_of(s) == Err::<Map<Seq<char>, Seq<char>>, _>(e),
        },
{
    let doc = parse_document(page);
    let (sl, ll, al) = (".sc-iFMAIt", "strong", "source[type=\"audio/MP3\"]");
    proof {
        reveal_strlit(".sc-iFMAIt");
        reveal_strlit("strong");
        reveal_strlit("source[type=\"audio/MP3\"]");
    }
    assert(sl@ =~= word_list_selector());
    assert(ll@ =~= label_selector());
    assert(al@ =~= audio_selector());
    let (section_q, label_q, audio_q) = match (parse_selector(sl), parse_selector(ll), parse_selector(al)) {
        (Some(s), Some(l), Some(a)) => (s, l, a),
        _ => return Err(ExtractError::BadSelector),
    };
    let found = select_all(&doc, &section_q);
    let ghost n = page_match_count(page@, word_list_selector());
    let mut sections: Vec<RawSection> = Vec::new();
    for i in 0..found.len()
        invariant
            found.len() == n,
            selector_parses(word_list_selector()),
            selector_parses(label_selector()),
            selector_parses(audio_selector()),
            doc.text() == page@,
            section_q.text() == word_list_selector(),
            label_q.text() == label_selector(),
            audio_q.text() == audio_selector(),
            sections.len() == i,
            forall|j: int| 0 <= j < found.len() ==> (#[trigger] found@[j]).page() == page@
                && found@[j].path() == seq![(word_list_selector(), j as nat)],
            forall|j: int| 0 <= j < i ==> (#[trigger] sections@[j]).view() == section_at(page@, j as nat),
    {
        let node = &found[i];
        let label = match select_first(node, &label_q) {
            Some(child) => Some(text(&child)),
            None => None,
        };
        let src = "src";
        proof {
            reveal_strlit("src");
        }
        assert(src@ =~= seq!['s', 'r', 'c']);
        let audio_src = match select_first(node, &audio_q) {
            Some(child) => attribute(&child, src),
            None => None,
        };
        let sec = RawSection { label, audio_src };
        assert(sec.view() == section_at(page@, i as nat));
        sections.push(sec);
    }
    let r = collect_words(&sections);
    assert(views_of(sections@) =~= page_sections(page@)->0);
    r
}

/// Why a course index could not be read.
pub enum CourseError {
    BadSelector,
    /// The course link at this position has no `href`.
    MissingHref(usize),
    Unresolvable(ResolveError),
}

/// The `href` of each course link of `page`, in the order of
/// [`crate::dom::ElementPath`]'s first step (`None` for a
/// link without one), or `None` where the selector does not parse.
pub open spec fn course_hrefs(page: Seq<char>) -> Option<Seq<Option<Seq<char>>>> {
    if selector_parses(course_selector()) {
        Some(Seq::new(
            page_match_count(page, course_selector()),
            |i: int| attr_at(page, seq![(course_selector(), i as nat)], seq!['h', 'r', 'e', 'f']),
        ))
    } else {
        None
    }
}

/// Every link has an `href`.
pub open spec fn all_present(hs: Seq<Option<Seq<char>>>) -> bool {
    forall|i: int| 0 <= i < hs.len() ==> (#[trigger] hs[i]) is Some
}

/// `i` is the first link without an `href`.
pub open spec fn first_missing(hs: Seq<Option<Seq<char>>>, i: int) -> bool {
    0 <= i < hs.len() && hs[i] is None && forall|j: int| 0 <= j < i ==> (#[trigger] hs[j]) is Some
}

/// The `href` of each course link of a course index, in the order of
/// [`course_hrefs`]; the
/// first link without one fails the whole list.
pub fn course_links(page: &str) -> (r: Result<Vec<String>, CourseError>)
    ensures
        course_hrefs(page@) is None <==> r is Err && r->Err_0 is BadSelector,
        course_hrefs(page@) matches Some(hs) ==> {
            &&& r is Ok <==> all_present(hs)
            &&& r matches Ok(v) ==> v@.map_values(|h: String| Some(h@)) == hs
            &&& r matches Err(CourseError::MissingHref(i)) ==> first_missing(hs, i as int)
            &&& !(r matches Err(CourseError::Unresolvable(_)))
        },
{
    let doc = parse_document(page);
    let cl = ".sc-cNKqjZ";
    let href = "href";
    proof {
        reveal_strlit(".sc-cNKqjZ");
        reveal_strlit("href");
    }
    assert(cl@ =~= course_selector());
    assert(href@ =~= seq!['h', 'r', 'e', 'f']);
    let q = match parse_selector(cl) {
        Some(s) => s,
        None => return Err(CourseError::BadSelector),
    };
    let found = select_all(&doc, &q);
    let ghost hs = course_hrefs(page@)->0;
    let mut links: Vec<String> = Vec::new();
    for i in 0..found.len()
        invariant
            selector_parses(course_selector()),
            hs == course_hrefs(page@)->0,
            found.len() == hs.len(),
            doc.text() == page@,
            q.text() == course_selector(),
            href@ == seq!['h', 'r', 'e', 'f'],
            links.len() == i,
            forall|j: int| 0 <= j < found.len() ==> (#[trigger] found@[j]).page() == page@
                && found@[j].path() == seq![(course_selector(), j as nat)],
            forall|j: int| 0 <= j < i ==> Some((#[trigger] links@[j])@) == hs[j],
    {
        let ghost p: crate::dom::ElementPath = seq![(course_selector(), i as nat)];
        let node = &found[i];
        match attribute(node, href) {
            Some(h) => links.push(h),
            None => {
                assert(node.path() == p);
                assert(hs[i as int] == attr_at(page@, p, seq!['h', 'r', 'e', 'f']));
                assert forall|j: int| 0 <= j < i implies (#[trigger] hs[j]) is Some by {
                    assert(Some(links@[j]@) == hs[j]);
                }
                assert(first_missing(hs, i as int));
                assert(!all_present(hs));
                return Err(CourseError::MissingHref(i));
            },
        }
    }
    assert(links@.map_values(|h: String| Some(h@)) =~= hs);
    Ok(links)
}

/// Every link's `href` resolves to a lesson URL against `base`.
pub open spec fn all_lessons(base: Seq<char>, hs: Seq<Option<Seq<char>>>) -> bool {
    forall|i: int| 0 <= i < hs.len() ==> (#[trigger] lesson_url(base, hs[i]->0)) is Some
}

/// The lesson URLs of the courses that a course index at `url` lists, in
/// the order of its links: each link's `href` resolved against `url`.
pub fn parse_course_list(url: &str, page: &str) -> (r: Result<Vec<String>, CourseError>)
    ensures
        course_hrefs(page@) is None <==> r is Err && r->Err_0 is BadSelector,
        course_hrefs(page@) matches Some(hs) ==> {
            &&& r is Ok <==> all_present(hs) && all_lessons(url@, hs)
            &&& r matches Ok(v) ==> v.len() == hs.len() && forall|i: int| 0 <= i < v.len()
                ==> lesson_url(url@, hs[i]->0) == Some((#[trigger] v@[i])@)
            &&& r matches Err(CourseError::MissingHref(i)) ==> first_missing(hs, i as int)
            &&& r matches Err(CourseError::Unresolvable(e)) ==> all_present(hs) && e.index < hs.len()
                && hs[e.index as int] == Some(e.href@) && lesson_url(url@, e.href@) is None
                && forall|j: int| 0 <= j < e.index ==> (#[trigger] lesson_url(url@, hs[j]->0)) is Some
        },
{
    let links = match course_links(page) {
        Ok(l) => l,
        Err(e) => return Err(e),
    };
    let ghost hs = course_hrefs(page@)->0;
    assert(hs.len() == links.len()) by {
        assert(links@.map_values(|h: String| Some(h@)).len() == links.len());
    }
    assert forall|i: int| 0 <= i < links.len() implies hs[i] == Some(#[trigger] links@[i]@) by {
        assert(links@.map_values(|h: String| Some(h@))[i] == Some(links@[i]@));
    }
    assert(all_present(hs)) by {
        assert forall|i: int| 0 <= i < hs.len() implies (#[trigger] hs[i]) is Some by {
            assert(hs[i] == Some(links@[i]@));
        }
    }
    match create_abs_urls(url, &links) {
        Ok(v) => {
            assert forall|i: int| 0 <= i < hs.len() implies (#[trigger] lesson_url(url@, hs[i]->0)) is Some by {
                assert(hs[i] == Some(links@[i]@));
                assert(lesson_url(url@, links@[i]@) == Some(v@[i]@));
            }
            assert(all_lessons(url@, hs));
            assert forall|i: int| 0 <= i < v.len() implies lesson_url(url@, hs[i]->0) == Some((#[trigger] v@[i])@) by {
                assert(hs[i] == Some(links@[i]@));
            }
            Ok(v)
        },
        Err(e) => {
            assert(hs[e.index as int] == Some(links@[e.index as int]@));
            assert(lesson_url(url@, hs[e.index as int]->0) is None);
            assert(!all_lessons(url@, hs));
            assert forall|j: int| 0 <= j < e.index implies (#[trigger] lesson_url(url@, hs[j]->0)) is Some by {
                assert(hs[j] == Some(links@[j]@));
                assert(lesson_url(url@, links@[j]@) is Some);
            }
            Err(CourseError::Unresolvable(e))
        },
    }
}

} // verus!
