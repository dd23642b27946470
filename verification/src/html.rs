//! A plain-value picture of a parsed HTML tree.
//!
//! The tree itself is built and queried by the `scraper` crate. What this
//! library reads from it is the depth-first walk of the tree, one entry per
//! edge, together with per-edge answers (an attribute's value, the inner
//! markup, whether a selector matches). All of these are sequences of the same
//! length, indexed by the position of the edge in the walk.

use ego_tree::iter::Edge;
use scraper::{ElementRef, Html, Node, Selector};
use vstd::prelude::*;

verus! {

/// The parsed tree, as `scraper` holds it. Nothing inside it is visible here.
#[verifier::external_type_specification]
#[verifier::external_body]
pub struct ExHtml(Html);

/// One edge of the depth-first walk of a tree.
#[derive(Debug, Clone, PartialEq, Eq)]
pub enum TreeEdge {
    /// An element is entered; the field is its tag name.
    Open(String),
    /// A text node is entered; the field is its content.
    Text(String),
    /// An element is left; the field is its tag name.
    Close(String),
    /// Any other edge: entering or leaving a comment, a doctype or the root,
    /// or leaving a text node.
    Other,
}

/// The markup that a tree was parsed from.
pub uninterp spec fn html_source(doc: Html) -> Seq<char>;

/// Whether a tree was parsed as a fragment (true) or as a document (false).
pub uninterp spec fn html_is_fragment(doc: Html) -> bool;

/// The depth-first walk of the tree that `markup` parses to.
pub uninterp spec fn markup_edges(markup: Seq<char>, fragment: bool) -> Seq<TreeEdge>;

/// For each edge of the walk, the value of the attribute `name` on the
/// element that the edge enters, if the edge enters an element that has it.
pub uninterp spec fn markup_attribute(markup: Seq<char>, fragment: bool, name: Seq<char>) -> Seq<
    Option<Seq<char>>,
>;

/// For each edge of the walk, the serialised children of the element that the
/// edge enters, if it enters one.
pub uninterp spec fn markup_inner_html(markup: Seq<char>, fragment: bool) -> Seq<
    Option<Seq<char>>,
>;

/// For each edge of the walk, whether it enters an element that the CSS
/// selector matches; `None` where `selector` is not a valid selector.
pub uninterp spec fn markup_matches(markup: Seq<char>, fragment: bool, selector: Seq<char>)
    -> Option<Seq<bool>>;

/// The views of a vector of optional strings.
pub open spec fn option_views(v: Seq<Option<String>>) -> Seq<Option<Seq<char>>> {
    Seq::new(
        v.len(),
        |i: int|
            match v[i] {
                Some(s) => Some(s@),
                None => None,
            },
    )
}

/// `Html::parse_document`: parses `page` as a whole document. The parser
/// accepts every input.
#[verifier::external_body]
pub(crate) fn parse_document(page: &str) -> (doc: Html)
    ensures
        html_source(doc) == page@,
        !html_is_fragment(doc),
{
    Html::parse_document(page)
}

/// `Html::parse_fragment`: parses `markup` as a fragment inside a body. The
/// parser accepts every input.
#[verifier::external_body]
pub(crate) fn parse_fragment(markup: &str) -> (doc: Html)
    ensures
        html_source(doc) == markup@,
        html_is_fragment(doc),
{
    Html::parse_fragment(markup)
}

/// `NodeRef::traverse` from the root of the tree: the walk, with each node
/// told apart by its kind and with the tag name or text that it carries.
#[verifier::external_body]
pub(crate) fn tree_edges(doc: &Html) -> (edges: Vec<TreeEdge>)
    ensures
        edges@ == markup_edges(html_source(*doc), html_is_fragment(*doc)),
{
    doc.tree.root().traverse().map(|edge| match edge {
        Edge::Open(n) => match n.value() {
            Node::Element(e) => TreeEdge::Open(e.name().to_string()),
            Node::Text(t) => TreeEdge::Text(t.to_string()),
            _ => TreeEdge::Other,
        },
        Edge::Close(n) => match n.value() {
            Node::Element(e) => TreeEdge::Close(e.name().to_string()),
            _ => TreeEdge::Other,
        },
    }).collect()
}

/// `Element::attr` on every element of the walk: one entry per edge, `Some`
/// where the edge enters an element that carries the attribute `name`.
#[verifier::external_body]
pub(crate) fn attribute_values(doc: &Html, name: &str) -> (values: Vec<Option<String>>)
    ensures
        option_views(values@) == markup_attribute(
            html_source(*doc),
            html_is_fragment(*doc),
            name@,
        ),
{
    doc.tree.root().traverse().map(|edge| match edge {
        Edge::Open(n) => ElementRef::wrap(n).and_then(|e| e.attr(name)).map(|v| v.to_string()),
        Edge::Close(_) => None,
    }).collect()
}

/// `ElementRef::inner_html` on every element of the walk: one entry per edge,
/// `Some` where the edge enters an element.
#[verifier::external_body]
pub(crate) fn inner_markup(doc: &Html) -> (values: Vec<Option<String>>)
    ensures
        option_views(values@) == markup_inner_html(html_source(*doc), html_is_fragment(*doc)),
{
    doc.tree.root().traverse().map(|edge| match edge {
        Edge::Open(n) => ElementRef::wrap(n).map(|e| e.inner_html()),
        Edge::Close(_) => None,
    }).collect()
}

/// `Selector::parse`, then `Selector::matches` on every element of the walk:
/// one entry per edge, true where the edge enters an element that the
/// selector matches. `None` where the selector does not parse.
#[verifier::external_body]
pub(crate) fn selector_matches(doc: &Html, selector: &str) -> (found: Option<Vec<bool>>)
    ensures
        match found {
            Some(v) => markup_matches(html_source(*doc), html_is_fragment(*doc), selector@)
                == Some(v@),
            None => markup_matches(html_source(*doc), html_is_fragment(*doc), selector@)
                is None,
        },
{
    let parsed = Selector::parse(selector).ok()?;
    Some(doc.tree.root().traverse().map(|edge| match edge {
        Edge::Open(n) => ElementRef::wrap(n).map_or(false, |e| parsed.matches(&e)),
        Edge::Close(_) => false,
    }).collect())
}

} // verus!
