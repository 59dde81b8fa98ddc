//! The parsed HTML document, compiled selectors and elements, each carrying
//! what identifies it: the document's text, the selector's text, and the
//! element's path from the document. Only the functions here, which make the
//! parsing and selecting calls, set those.
//!
//! A path holds, for each step, the selector text and the position among its
//! matches: the first step is taken over the whole document, each later one
//! under the element reached so far.

use vstd::prelude::*;

verus! {

#[verifier::external_type_specification]
#[verifier::external_body]
pub struct ExHtml(scraper::Html);

#[verifier::external_type_specification]
#[verifier::external_body]
pub struct ExSelector(scraper::Selector);

#[verifier::external_type_specification]
#[verifier::external_body]
pub struct ExElementRef<'a>(scraper::ElementRef<'a>);

/// A path from the document to an element.
pub type ElementPath = Seq<(Seq<char>, nat)>;

/// Whether `Selector::parse` accepts the selector text.
pub uninterp spec fn selector_valid(text: Seq<char>) -> bool;

/// How many elements of the parsed document match the selector text.
pub uninterp spec fn document_matches(html: Seq<char>, sel: Seq<char>) -> nat;

/// How many descendants of the element at `path` match the selector text.
pub uninterp spec fn matches_within(html: Seq<char>, path: ElementPath, sel: Seq<char>) -> nat;

/// The inner HTML of the element at `path`.
pub uninterp spec fn inner_html_at(html: Seq<char>, path: ElementPath) -> Seq<char>;

/// The descendant text nodes of the element at `path`, in document order.
pub uninterp spec fn text_at(html: Seq<char>, path: ElementPath) -> Seq<Seq<char>>;

/// A parsed document, with the text it was parsed from.
pub struct Page {
    html: scraper::Html,
    text: Ghost<Seq<char>>,
}

/// A compiled selector, with its text.
pub struct Pattern {
    sel: scraper::Selector,
    text: Ghost<Seq<char>>,
}

/// An element of a parsed document, with the document's text and its path.
pub struct Node<'a> {
    el: scraper::ElementRef<'a>,
    page: Ghost<Seq<char>>,
    path: Ghost<ElementPath>,
}

impl Page {
    pub closed spec fn text(&self) -> Seq<char> {
        self.text@
    }
}

impl Pattern {
    pub closed spec fn text(&self) -> Seq<char> {
        self.text@
    }
}

impl<'a> Node<'a> {
    pub closed spec fn page(&self) -> Seq<char> {
        self.page@
    }

    pub closed spec fn path(&self) -> ElementPath {
        self.path@
    }
}

/// Relies on `scraper::Html::parse_document`, which parses leniently and never fails.
#[verifier::external_body]
pub fn parse_document(text: &str) -> (r: Page)
    ensures
        r.text() == text@,
{
    Page { html: scraper::Html::parse_document(text), text: Ghost(text@) }
}

/// Relies on `scraper::Selector::parse`: the compiled selector where the text
/// is a valid selector, else `None`.
#[verifier::external_body]
pub fn compile_selector(text: &str) -> (r: Option<Pattern>)
    ensures
        r is Some <==> selector_valid(text@),
        r is Some ==> r->Some_0.text() == text@,
{
    scraper::Selector::parse(text).ok().map(|sel| Pattern { sel, text: Ghost(text@) })
}

/// Relies on `scraper::Html::select`: the elements of the document that match,
/// in the order of the document's node list.
#[verifier::external_body]
pub fn select_in_document<'a>(doc: &'a Page, pat: &Pattern) -> (r: Vec<Node<'a>>)
    ensures
        r.len() == document_matches(doc.text(), pat.text()),
        forall|k: int|
            0 <= k < r.len() ==> (#[trigger] r[k]).page() == doc.text() && r[k].path()
                == Seq::<(Seq<char>, nat)>::empty().push((pat.text(), k as nat)),
{
    doc.html.select(&pat.sel).enumerate().map(|(k, el)| Node {
        el,
        page: Ghost(doc.text@),
        path: Ghost(Seq::<(Seq<char>, nat)>::empty().push((pat.text@, k as nat))),
    }).collect()
}

/// Relies on `scraper::ElementRef::select`: the descendants of the element that
/// match, in document order.
#[verifier::external_body]
pub fn select_within<'a>(n: &Node<'a>, pat: &Pattern) -> (r: Vec<Node<'a>>)
    ensures
        r.len() == matches_within(n.page(), n.path(), pat.text()),
        forall|k: int|
            0 <= k < r.len() ==> (#[trigger] r[k]).page() == n.page() && r[k].path()
                == n.path().push((pat.text(), k as nat)),
{
    n.el.select(&pat.sel).enumerate().map(|(k, el)| Node {
        el,
        page: Ghost(n.page@),
        path: Ghost(n.path@.push((pat.text@, k as nat))),
    }).collect()
}

/// Relies on `scraper::ElementRef::inner_html`: the element's children, serialised.
#[verifier::external_body]
pub fn inner_html(n: &Node) -> (r: String)
    ensures
        r@ == inner_html_at(n.page(), n.path()),
{
    n.el.inner_html()
}

/// Relies on `scraper::ElementRef::text`: the descendant text nodes, in document order.
#[verifier::external_body]
pub fn text_nodes(n: &Node) -> (r: Vec<String>)
    ensures
        r.deep_view() == text_at(n.page(), n.path()),
{
    n.el.text().map(String::from).collect()
}

} // verus!
