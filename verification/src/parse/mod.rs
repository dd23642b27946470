//! The text normaliser and the field parsers that every extractor uses.

use crate::document::{hits, positions, rows_of_table, table_view, Document};
use crate::error::{Error, ErrorView, Result};
use crate::html::{
    attribute_values, markup_attribute, markup_edges, markup_inner_html, markup_matches,
    option_views, parse_fragment, tree_edges, TreeEdge,
};
use crate::text::{
    ends_with_newline, equals, lemma_trim_twice, to_chars, to_text, trim, trimmed, views,
};
use vstd::prelude::*;

pub mod airports;
pub mod airways;
pub mod fields;
pub mod intersections;
pub mod navaids;

pub use fields::{parse_elevation, parse_frequency, parse_latlong};

verus! {

/// The lower-case form of an ASCII letter; any other character unchanged.
pub open spec fn ascii_lower(c: char) -> char {
    if 'A' <= c <= 'Z' {
        ((c as u8) + 32) as char
    } else {
        c
    }
}

/// `s` with its ASCII letters in lower case.
pub open spec fn lowered(s: Seq<char>) -> Seq<char> {
    Seq::new(s.len(), |i: int| ascii_lower(s[i]))
}

/// Tags that open a new line when entered.
pub open spec fn is_break(name: Seq<char>) -> bool {
    name == "br"@ || name == "p"@
}

/// Tags that never force a line break when left.
pub open spec fn is_inline(name: Seq<char>) -> bool {
    let l = lowered(name);
    l == "span"@ || l == "strong"@ || l == "i"@ || l == "em"@
}

/// The one style value that hides an element. Other spellings of the same
/// declaration do not count.
pub open spec fn is_hidden(style: Option<Seq<char>>) -> bool {
    style == Some("display: none;"@)
}

/// Whether entering an element with this tag and style starts a suppressed
/// region.
pub open spec fn starts_suppression(name: Seq<char>, style: Option<Seq<char>>) -> bool {
    !is_break(name) && (name == "del"@ || is_hidden(style))
}

/// The output and the stack of pending suppressed tags (its top is the last
/// entry) after one more edge of the walk.
pub open spec fn clean_step(
    out: Seq<char>,
    pending: Seq<Seq<char>>,
    edge: TreeEdge,
    style: Option<Seq<char>>,
) -> (Seq<char>, Seq<Seq<char>>) {
    match edge {
        TreeEdge::Open(name) => {
            if is_break(name@) {
                (
                    if ends_with_newline(out) {
                        out
                    } else {
                        out.push('\n')
                    },
                    pending,
                )
            } else if starts_suppression(name@, style) {
                (out, pending.push(name@))
            } else {
                (out, pending)
            }
        },
        TreeEdge::Text(content) => {
            if pending.len() == 0 {
                (out + trim(content@), pending)
            } else {
                (out, pending)
            }
        },
        TreeEdge::Close(name) => {
            (
                if !ends_with_newline(out) && !is_inline(name@) {
                    out.push('\n')
                } else {
                    out
                },
                if pending.len() > 0 && pending.last() == name@ {
                    pending.drop_last()
                } else {
                    pending
                },
            )
        },
        TreeEdge::Other => (out, pending),
    }
}

/// The style that goes with edge `i`, absent where `styles` is too short.
pub open spec fn style_at(styles: Seq<Option<Seq<char>>>, i: int) -> Option<Seq<char>> {
    if 0 <= i < styles.len() {
        styles[i]
    } else {
        None
    }
}

/// The output and the pending stack after the first `n` edges.
pub open spec fn clean_fold(edges: Seq<TreeEdge>, styles: Seq<Option<Seq<char>>>, n: nat) -> (
    Seq<char>,
    Seq<Seq<char>>,
)
    decreases n,
{
    if n == 0 || n > edges.len() {
        (Seq::empty(), Seq::empty())
    } else {
        let before = clean_fold(edges, styles, (n - 1) as nat);
        clean_step(before.0, before.1, edges[n - 1], style_at(styles, n - 1))
    }
}

/// The flattened text of a walk: what the edges emit, trimmed at both ends.
pub open spec fn clean_text_of(edges: Seq<TreeEdge>, styles: Seq<Option<Seq<char>>>) -> Seq<
    char,
> {
    trim(clean_fold(edges, styles, edges.len()).0)
}

/// The flattened text of a fragment of markup.
pub open spec fn clean_text(markup: Seq<char>) -> Seq<char> {
    clean_text_of(markup_edges(markup, true), markup_attribute(markup, true, "style"@))
}

/// The lower-case form of an ASCII letter; any other character unchanged.
fn lower_char(c: char) -> (r: char)
    ensures
        r == ascii_lower(c),
{
    if 'A' <= c && c <= 'Z' {
        ((c as u8) + 32) as char
    } else {
        c
    }
}

/// `v` with its ASCII letters in lower case.
fn lower(v: &Vec<char>) -> (out: Vec<char>)
    ensures
        out@ == lowered(v@),
{
    let mut out: Vec<char> = Vec::new();
    let mut i: usize = 0;
    while i < v.len()
        invariant
            i <= v.len(),
            out@ == lowered(v@).take(i as int),
        decreases v.len() - i,
    {
        out.push(lower_char(v[i]));
        proof {
            assert(lowered(v@).take(i as int + 1) == lowered(v@).take(i as int).push(
                lowered(v@)[i as int],
            ));
        }
        i += 1;
    }
    proof {
        assert(lowered(v@).take(v.len() as int) == lowered(v@));
    }
    out
}

/// Whether a tag opens a new line when entered.
fn tag_is_break(name: &Vec<char>) -> (r: bool)
    ensures
        r == is_break(name@),
{
    equals(name, "br") || equals(name, "p")
}

/// Whether a tag never forces a line break.
fn tag_is_inline(name: &Vec<char>) -> (r: bool)
    ensures
        r == is_inline(name@),
{
    let l = lower(name);
    equals(&l, "span") || equals(&l, "strong") || equals(&l, "i") || equals(&l, "em")
}

/// Whether a style value hides its element.
fn style_is_hidden(style: &Option<String>) -> (r: bool)
    ensures
        r == is_hidden(
            match *style {
                Some(s) => Some(s@),
                None => None,
            },
        ),
{
    match style {
        Some(s) => {
            let chars = to_chars(s.as_str());
            equals(&chars, "display: none;")
        },
        None => false,
    }
}

/// Whether two character vectors hold the same characters.
fn same_chars(a: &Vec<char>, b: &Vec<char>) -> (r: bool)
    ensures
        r == (a@ == b@),
{
    if a.len() != b.len() {
        return false;
    }
    let mut i: usize = 0;
    while i < a.len()
        invariant
            i <= a.len(),
            a.len() == b.len(),
            a@.take(i as int) == b@.take(i as int),
        decreases a.len() - i,
    {
        if a[i] != b[i] {
            return false;
        }
        proof {
            assert(a@.take(i as int + 1) == a@.take(i as int).push(a@[i as int]));
            assert(b@.take(i as int + 1) == b@.take(i as int).push(b@[i as int]));
        }
        i += 1;
    }
    proof {
        assert(a@.take(a.len() as int) == a@);
        assert(b@.take(b.len() as int) == b@);
    }
    true
}

/// Appends the characters of `more` to `out`.
fn append(out: &mut Vec<char>, more: &Vec<char>)
    ensures
        final(out)@ == old(out)@ + more@,
{
    let mut i: usize = 0;
    while i < more.len()
        invariant
            i <= more.len(),
            out@ == old(out)@ + more@.take(i as int),
        decreases more.len() - i,
    {
        out.push(more[i]);
        proof {
            assert(more@.take(i as int + 1) == more@.take(i as int).push(more@[i as int]));
        }
        i += 1;
    }
    proof {
        assert(more@.take(more.len() as int) == more@);
    }
}

/// Flattens a walk to text: hidden and struck-through content is left out,
/// block boundaries become single line feeds, and the result is trimmed.
/// `styles` holds, for each edge, the `style` attribute of the element that
/// the edge enters.
pub fn clean_text_of_edges(edges: &Vec<TreeEdge>, styles: &Vec<Option<String>>) -> (out: String)
    ensures
        out@ == clean_text_of(edges@, option_views(styles@)),
{
    let mut text: Vec<char> = Vec::new();
    let mut pending: Vec<Vec<char>> = Vec::new();
    let mut i: usize = 0;
    while i < edges.len()
        invariant
            i <= edges.len(),
            text@ == clean_fold(edges@, option_views(styles@), i as nat).0,
            views(pending@) == clean_fold(edges@, option_views(styles@), i as nat).1,
        decreases edges.len() - i,
    {
        let ghost before = clean_fold(edges@, option_views(styles@), i as nat);
        let ghost style = style_at(option_views(styles@), i as int);
        match &edges[i] {
            TreeEdge::Open(name) => {
                let tag = to_chars(name.as_str());
                if tag_is_break(&tag) {
                    let n = text.len();
                    if !(n > 0 && text[n - 1] == '\n') {
                        text.push('\n');
                    }
                } else {
                    let hidden = i < styles.len() && style_is_hidden(&styles[i]);
                    if equals(&tag, "del") || hidden {
                        proof {
                            assert(views(pending@.push(tag)) == views(pending@).push(tag@));
                        }
                        pending.push(tag);
                    }
                }
            },
            TreeEdge::Text(content) => {
                if pending.len() == 0 {
                    let chars = to_chars(content.as_str());
                    let piece = trimmed(&chars);
                    append(&mut text, &piece);
                }
            },
            TreeEdge::Close(name) => {
                let tag = to_chars(name.as_str());
                let n = text.len();
                if !(n > 0 && text[n - 1] == '\n') && !tag_is_inline(&tag) {
                    text.push('\n');
                }
                let m = pending.len();
                if m > 0 && same_chars(&pending[m - 1], &tag) {
                    proof {
                        assert(views(pending@).last() == pending@[m - 1]@);
                        assert(views(pending@.drop_last()) == views(pending@).drop_last());
                    }
                    pending.pop();
                }
            },
            TreeEdge::Other => {},
        }
        i += 1;
    }
    let flat = trimmed(&text);
    to_text(&flat)
}

/// The text content of a fragment of markup, without the content that is
/// struck through or hidden with `display: none;`.
pub fn clean(html_frag: &str) -> (out: String)
    ensures
        out@ == clean_text(html_frag@),
{
    let doc = parse_fragment(html_frag);
    let edges = tree_edges(&doc);
    let styles = attribute_values(&doc, "style");
    clean_text_of_edges(&edges, &styles)
}

/// The text content of a fragment of markup, without the content that is
/// struck through or hidden with `display: none;`.
pub fn get_clean_text(html_frag: String) -> (out: String)
    ensures
        out@ == clean_text(html_frag@),
{
    clean(html_frag.as_str())
}

/// What a row has come to after some of its cells.
pub enum RowState<T> {
    /// The record as far as it is filled.
    Filling(T),
    /// The row is no data row and gives no record.
    Skipped,
    /// The row cannot be read.
    Failed(ErrorView),
}

/// A parser of one kind of page.
pub trait Parser<'a> {
    /// What the parser gives when it succeeds.
    type Output;

    /// Parses the markup of a page.
    fn parse(data: &'a str) -> Result<Self::Output>;
}

/// The selector of the body of a table.
pub const TABLE_BODY_SELECTOR: &'static str = "table > tbody";

/// The selector of a cell of a row.
pub const CELL_SELECTOR: &'static str = "td";

/// The reason given where a page has no table body.
pub const NO_BASE_TABLE: &'static str = "base table not present";

/// The reason given where a selector is not understood.
pub const BAD_SELECTOR: &'static str = "selector not understood";

/// The rows of the first table body of a page, each with the inner markup of
/// its cells; the rows are the elements below the table body that
/// `row_selector` matches. An error where the page has no table body.
pub open spec fn page_table(page: Seq<char>, row_selector: Seq<char>) -> std::result::Result<
    Seq<Seq<Seq<char>>>,
    ErrorView,
> {
    match (
        markup_matches(page, false, TABLE_BODY_SELECTOR@),
        markup_matches(page, false, row_selector),
        markup_matches(page, false, CELL_SELECTOR@),
    ) {
        (Some(tables), Some(rows), Some(cells)) => {
            let edges = markup_edges(page, false);
            let found = hits(tables, 0, edges.len() as int);
            if found.len() == 0 {
                Err(ErrorView::CannotScrapeData(NO_BASE_TABLE@))
            } else {
                Ok(rows_of_table(edges, markup_inner_html(page, false), rows, cells, found[0]))
            }
        },
        _ => Err(ErrorView::CannotScrapeData(BAD_SELECTOR@)),
    }
}

/// The rows of the first table body of a page, each with the inner markup of
/// its cells.
pub fn base_table(page: &str, row_selector: &str) -> (r: Result<Vec<Vec<String>>>)
    ensures
        match r {
            Ok(rows) => page_table(page@, row_selector@) == Ok::<
                Seq<Seq<Seq<char>>>,
                ErrorView,
            >(table_view(rows@)),
            Err(e) => page_table(page@, row_selector@) == Err::<Seq<Seq<Seq<char>>>, ErrorView>(
                e@,
            ),
        },
{
    let doc = Document::parse(page);
    let tables = doc.matches(TABLE_BODY_SELECTOR);
    let rows = doc.matches(row_selector);
    let cells = doc.matches(CELL_SELECTOR);
    match (tables, rows, cells) {
        (Some(tables), Some(rows), Some(cells)) => {
            let found = doc.select(&tables);
            if found.len() == 0 {
                Err(Error::CannotScrapeData(NO_BASE_TABLE))
            } else {
                proof {
                    assert(positions(found@)[0] == found@[0] as int);
                }
                Ok(doc.table(found[0], &rows, &cells))
            }
        },
        _ => Err(Error::CannotScrapeData(BAD_SELECTOR)),
    }
}

/// A walk that holds one text node and nothing else flattens to that text,
/// trimmed: text that is clean already comes out as it went in.
pub proof fn lemma_lone_text_is_kept(content: String, styles: Seq<Option<Seq<char>>>)
    ensures
        clean_text_of(seq![TreeEdge::Text(content)], styles) == trim(content@),
{
    let edges = seq![TreeEdge::Text(content)];
    assert(clean_fold(edges, styles, 0).0 == Seq::<char>::empty());
    assert(clean_fold(edges, styles, 1).0 == Seq::<char>::empty() + trim(content@));
    assert(Seq::<char>::empty() + trim(content@) == trim(content@));
    lemma_trim_twice(content@);
}

/// An edge that is no text adds at most one line feed to the output, and
/// none where the output ends in one already: a break never gives two line
/// feeds in a row.
pub proof fn lemma_no_second_line_feed(
    out: Seq<char>,
    pending: Seq<Seq<char>>,
    edge: TreeEdge,
    style: Option<Seq<char>>,
)
    requires
        !(edge is Text),
    ensures
        clean_step(out, pending, edge, style).0 == out || (!ends_with_newline(out) && clean_step(
            out,
            pending,
            edge,
            style,
        ).0 == out.push('\n')),
{
}

/// While a suppressed element is pending, text adds nothing to the output.
pub proof fn lemma_suppressed_text_is_dropped(
    out: Seq<char>,
    pending: Seq<Seq<char>>,
    content: String,
    style: Option<Seq<char>>,
)
    requires
        pending.len() > 0,
    ensures
        clean_step(out, pending, TreeEdge::Text(content), style) == (out, pending),
{
}

/// Entering an element that is struck through, or hidden by its style, puts
/// its tag on the pending stack, so that the text inside it is dropped.
pub proof fn lemma_hidden_element_suppresses(
    out: Seq<char>,
    pending: Seq<Seq<char>>,
    name: String,
    style: Option<Seq<char>>,
)
    requires
        !is_break(name@),
        name@ == "del"@ || style == Some("display: none;"@),
    ensures
        clean_step(out, pending, TreeEdge::Open(name), style) == (out, pending.push(name@)),
{
}

} // verus!
