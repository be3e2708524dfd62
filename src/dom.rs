use vstd::prelude::*;

verus! {

#[verifier::external_type_specification]
#[verifier::external_body]
pub struct ExHtml(scraper::Html);

#[verifier::external_type_specification]
#[verifier::external_body]
pub struct ExSelector(scraper::Selector);

#[verifier::external_type_specification]
#[verifier::external_body]
pub struct ExElementRef<'a>(scraper::ElementRef<'a>);

/// Where an element stands in the document parsed from a page: the first
/// step `(sel, i)` is the `i`-th element that matches `sel` in the order in
/// which the parser created the document's nodes (document order, but for
/// nodes that the parser moved); each later step `(sel, i)` is the `i`-th
/// descendant of the element before that matches `sel`, in document order.
pub type ElementPath = Seq<(Seq<char>, nat)>;

/// Whether `sel` parses as a selector.
pub uninterp spec fn selector_parses(sel: Seq<char>) -> bool;

/// How many elements of the document parsed from `page` match `sel`.
pub uninterp spec fn page_match_count(page: Seq<char>, sel: Seq<char>) -> nat;

/// How many descendants of the element at `path` match `sel`.
pub uninterp spec fn descendant_match_count(page: Seq<char>, path: ElementPath, sel: Seq<char>) -> nat;

/// The text inside the element at `path`: its descendant text nodes, in
/// order, without markup.
pub uninterp spec fn text_at(page: Seq<char>, path: ElementPath) -> Seq<char>;

/// The value of the attribute `name` of the element at `path`.
pub uninterp spec fn attr_at(page: Seq<char>, path: ElementPath, name: Seq<char>) -> Option<Seq<char>>;

/// A page's document tree, with the text it was parsed from.
pub struct Document {
    doc: scraper::Html,
    text: Ghost<Seq<char>>,
}

impl Document {
    pub closed spec fn text(&self) -> Seq<char> {
        self.text@
    }
}

/// A parsed selector, with its text.
pub struct Query {
    sel: scraper::Selector,
    text: Ghost<Seq<char>>,
}

impl Query {
    pub closed spec fn text(&self) -> Seq<char> {
        self.text@
    }
}

/// An element of a page's document, with where it stands.
pub struct Node<'a> {
    el: scraper::ElementRef<'a>,
    page: Ghost<Seq<char>>,
    path: Ghost<ElementPath>,
}

impl<'a> Node<'a> {
    pub closed spec fn page(&self) -> Seq<char> {
        self.page@
    }

    pub closed spec fn path(&self) -> ElementPath {
        self.path@
    }
}

/// Relies on `scraper::Html::parse_document`: the document tree of `page`.
#[verifier::external_body]
pub fn parse_document(page: &str) -> (r: Document)
    ensures
        r.text() == page@,
{
    Document { doc: scraper::Html::parse_document(page), text: Ghost(page@) }
}

/// Relies on `scraper::Selector::parse`: `None` where `s` is no valid selector.
#[verifier::external_body]
pub fn parse_selector(s: &str) -> (r: Option<Query>)
    ensures
        r is Some <==> selector_parses(s@),
        r matches Some(q) ==> q.text() == s@,
{
    scraper::Selector::parse(s).ok().map(|sel| Query { sel, text: Ghost(s@) })
}

/// Relies on `scraper::Html::select`: the elements that match, the `i`-th
/// of them standing at the path `[(sel, i)]`.
#[verifier::external_body]
pub fn select_all<'a>(d: &'a Document, q: &Query) -> (r: Vec<Node<'a>>)
    ensures
        r.len() == page_match_count(d.text(), q.text()),
        forall|i: int| 0 <= i < r.len() ==> (#[trigger] r@[i]).page() == d.text()
            && r@[i].path() == seq![(q.text(), i as nat)],
{
    d.doc.select(&q.sel).enumerate().map(|(i, el)| Node {
        el,
        page: Ghost(d.text@),
        path: Ghost(seq![(q.text@, i as nat)]),
    }).collect()
}

/// Relies on `scraper::ElementRef::select`: the first descendant that
/// matches, which stands at the element's path extended by `(sel, 0)`.
#[verifier::external_body]
pub fn select_first<'a>(n: &Node<'a>, q: &Query) -> (r: Option<Node<'a>>)
    ensures
        r is Some <==> descendant_match_count(n.page(), n.path(), q.text()) > 0,
        r matches Some(c) ==> c.page() == n.page() && c.path() == n.path().push((q.text(), 0nat)),
{
    n.el.select(&q.sel).next().map(|el| Node {
        el,
        page: Ghost(n.page@),
        path: Ghost(n.path@.push((q.text@, 0nat))),
    })
}

/// Relies on `scraper::ElementRef::text`: the element's text nodes, joined.
#[verifier::external_body]
pub fn text(n: &Node) -> (r: String)
    ensures
        r@ == text_at(n.page(), n.path()),
{
    n.el.text().collect()
}

/// Relies on `scraper::ElementRef::attr`: the value of the named attribute.
#[verifier::external_body]
pub fn attribute(n: &Node, name: &str) -> (r: Option<String>)
    ensures
        r is Some <==> attr_at(n.page(), n.path(), name@) is Some,
        r matches Some(v) ==> attr_at(n.page(), n.path(), name@) == Some(v@),
{
    n.el.attr(name).map(String::from)
}

} // verus!
