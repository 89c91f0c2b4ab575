//! What this crate takes on trust from the HTML parser.
//!
//! Documents, elements and selectors are values of `scraper`. Nothing in
//! this crate looks inside them: the functions below hand them to `scraper`
//! and bring back what it answers. Verus does not read the bodies of these
//! functions, and believes what their headers state.
//!
//! What `scraper` answers is not written out here. Each answer has a name
//! instead, and the one thing that is claimed is that the answer depends on
//! what was asked and on nothing else: `scraper` reads no clock, no file and
//! no random number on these paths, so the same question has the same
//! answer in every run. A value of `scraper` has no view, so a name takes it
//! as it is.

use vstd::prelude::*;
use scraper::{ElementRef, Html, Selector};

verus! {

/// A parsed group of CSS selectors, `scraper::Selector`.
#[verifier::external_type_specification]
#[verifier::external_body]
pub struct ExSelector(Selector);

/// A parsed HTML document, `scraper::Html`.
#[verifier::external_type_specification]
#[verifier::external_body]
pub struct ExHtml(Html);

/// An element of a parsed document, `scraper::ElementRef`.
#[verifier::external_type_specification]
#[verifier::external_body]
pub struct ExElementRef<'a>(ElementRef<'a>);

/// What `scraper::Selector::parse` makes of `css`: the selector that it
/// writes, or `None` where `css` is no selector group.
pub uninterp spec fn parsed_selector(css: Seq<char>) -> Option<Selector>;

/// What `scraper::Html::parse_document` makes of `html`.
pub uninterp spec fn parsed_document(html: Seq<char>) -> Html;

/// What `scraper::Html::select` yields: the elements of `document` that
/// match `selector`, in the order in which it yields them.
pub uninterp spec fn selected_in(document: Html, selector: Selector) -> Seq<ElementRef<'static>>;

/// What `scraper::ElementRef::select` yields: the elements below `element`
/// that match `selector`, in the order in which it yields them.
pub uninterp spec fn selected_below(element: ElementRef<'static>, selector: Selector) -> Seq<
    ElementRef<'static>,
>;

/// What `scraper::ElementRef::text` yields, joined: the text below
/// `element`.
pub uninterp spec fn text_in(element: ElementRef<'static>) -> Seq<char>;

/// The text of the node that `ego_tree::NodeRef::next_sibling` finds after
/// `element`, as `scraper::Node::as_text` gives it: `None` where nothing
/// follows or what follows is no text node.
pub uninterp spec fn text_next_to(element: ElementRef<'static>) -> Option<Seq<char>>;

/// What `scraper::node::Element::attr` finds: the value of the attribute
/// `name` of `element`, or `None` where it has no such attribute.
pub uninterp spec fn attribute_in(element: ElementRef<'static>, name: Seq<char>) -> Option<
    Seq<char>,
>;

/// `scraper::Selector::parse`, with its error dropped. The claim is that
/// the same text gives the same answer each time.
#[verifier::external_body]
pub(crate) fn parse_selector(css: &str) -> (res: Option<Selector>)
    ensures
        res == parsed_selector(css@),
{
    Selector::parse(css).ok()
}

/// `scraper::Html::parse_document`. Parsing never fails; markup that breaks
/// the rules is repaired as a browser would. The claim is that the same
/// text gives the same document each time.
#[verifier::external_body]
pub(crate) fn parse_document(html: &str) -> (res: Html)
    ensures
        res == parsed_document(html@),
{
    Html::parse_document(html)
}

/// `scraper::Html::select`, collected. The claim is that the same document
/// and selector give the same elements in the same order each time.
#[verifier::external_body]
pub(crate) fn select_all<'a>(document: &'a Html, selector: &Selector) -> (res: Vec<ElementRef<'a>>)
    ensures
        res@ == selected_in(*document, *selector),
{
    document.select(selector).collect()
}

/// `scraper::ElementRef::select`, collected. The claim is that the same
/// element and selector give the same elements in the same order each time.
#[verifier::external_body]
pub(crate) fn select_within<'a>(element: &ElementRef<'a>, selector: &Selector) -> (res: Vec<
    ElementRef<'a>,
>)
    ensures
        res@ == selected_below(*element, *selector),
{
    element.select(selector).collect()
}

/// `scraper::ElementRef::text`, collected into one string. The claim is
/// that the same element gives the same text each time.
#[verifier::external_body]
pub(crate) fn text_of(element: &ElementRef) -> (res: String)
    ensures
        res@ == text_in(*element),
{
    element.text().collect()
}

/// `ego_tree::NodeRef::next_sibling` and `scraper::Node::as_text`: the text
/// of the node that follows `element` under the same parent. The claim is
/// that the same element gives the same answer each time.
#[verifier::external_body]
pub(crate) fn text_after(element: &ElementRef) -> (res: Option<String>)
    ensures
        match res {
            Some(text) => text_next_to(*element) == Some(text@),
            None => text_next_to(*element) is None,
        },
{
    match element.next_sibling() {
        Some(node) => match node.value().as_text() {
            Some(text) => Some(text.text.to_string()),
            None => None,
        },
        None => None,
    }
}

/// `scraper::node::Element::attr`. The claim is that the same element and
/// name give the same answer each time.
#[verifier::external_body]
pub(crate) fn attr_of(element: &ElementRef, name: &str) -> (res: Option<String>)
    ensures
        match res {
            Some(value) => attribute_in(*element, name@) == Some(value@),
            None => attribute_in(*element, name@) is None,
        },
{
    match element.value().attr(name) {
        Some(value) => Some(value.to_owned()),
        None => None,
    }
}

} // verus!
