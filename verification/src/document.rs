//! A parsed page and the selection of elements within it.
//!
//! Elements are named by the position of the edge that enters them in the
//! depth-first walk of the page. The descendants of an element are the
//! elements entered between that edge and the edge that leaves it.

use crate::html::{
    attribute_values, inner_markup, html_is_fragment, markup_attribute, html_source, markup_edges, markup_inner_html,
    markup_matches, option_views, parse_document, selector_matches, tree_edges, TreeEdge,
};
use scraper::Html;
use vstd::prelude::*;

verus! {

/// The position of the edge that leaves the element whose body starts at
/// `i`, given that `depth` elements have been entered and not left since;
/// the length of the walk where no such edge follows.
pub open spec fn close_from(edges: Seq<TreeEdge>, i: int, depth: nat) -> int
    decreases edges.len() - i,
{
    if i < 0 || i >= edges.len() {
        edges.len() as int
    } else {
        match edges[i] {
            TreeEdge::Open(_) => close_from(edges, i + 1, depth + 1),
            TreeEdge::Close(_) => if depth == 0 {
                i
            } else {
                close_from(edges, i + 1, (depth - 1) as nat)
            },
            _ => close_from(edges, i + 1, depth),
        }
    }
}

/// The position of the edge that leaves the element entered at `open`.
pub open spec fn subtree_end(edges: Seq<TreeEdge>, open: int) -> int {
    close_from(edges, open + 1, 0)
}

/// The positions from `from` up to `to` at which `matches` is set, in order.
pub open spec fn hits(matches: Seq<bool>, from: int, to: int) -> Seq<int>
    decreases to - from,
{
    if to <= from {
        Seq::empty()
    } else if 0 <= to - 1 < matches.len() && matches[to - 1] {
        hits(matches, from, to - 1).push(to - 1)
    } else {
        hits(matches, from, to - 1)
    }
}

/// The elements below the element entered at `scope` that `matches` marks,
/// in document order.
pub open spec fn hits_within(edges: Seq<TreeEdge>, matches: Seq<bool>, scope: int) -> Seq<int> {
    hits(matches, scope + 1, subtree_end(edges, scope))
}

/// Positions as integers.
pub open spec fn positions(v: Seq<usize>) -> Seq<int> {
    Seq::new(v.len(), |i: int| v[i] as int)
}

/// The serialised children of the element entered at `at`; empty where no
/// element is entered there.
pub open spec fn markup_at(inner: Seq<Option<Seq<char>>>, at: int) -> Seq<char> {
    if 0 <= at < inner.len() {
        match inner[at] {
            Some(s) => s,
            None => Seq::empty(),
        }
    } else {
        Seq::empty()
    }
}

/// The position of the edge that leaves the element entered at `open`.
pub fn find_subtree_end(edges: &Vec<TreeEdge>, open: usize) -> (end: usize)
    requires
        open < edges.len(),
    ensures
        end as int == subtree_end(edges@, open as int),
        open < end <= edges.len(),
{
    let n = edges.len();
    let mut i: usize = open + 1;
    let mut depth: usize = 0;
    while i < n
        invariant
            n == edges.len(),
            open < i <= n,
            depth <= i,
            subtree_end(edges@, open as int) == close_from(edges@, i as int, depth as nat),
        decreases n - i,
    {
        match &edges[i] {
            TreeEdge::Open(_) => {
                depth += 1;
            },
            TreeEdge::Close(_) => {
                if depth == 0 {
                    return i;
                }
                depth -= 1;
            },
            _ => {},
        }
        i += 1;
    }
    n
}

/// The positions from `from` up to `to` at which `matches` is set, in order.
pub fn select_between(matches: &Vec<bool>, from: usize, to: usize) -> (found: Vec<usize>)
    ensures
        positions(found@) == hits(matches@, from as int, to as int),
        forall|k: int|
            0 <= k < found@.len() ==> from <= #[trigger] found@[k] < to && found@[k]
                < matches@.len(),
{
    let mut found: Vec<usize> = Vec::new();
    let mut j: usize = from;
    proof {
        assert(positions(found@) == hits(matches@, from as int, from as int));
    }
    while j < to
        invariant
            from <= j || to <= from,
            j <= to || to <= from,
            to <= from ==> j == from,
            positions(found@) == hits(matches@, from as int, j as int),
            forall|k: int|
                0 <= k < found@.len() ==> from <= #[trigger] found@[k] < j && found@[k]
                    < matches@.len(),
        decreases to - j,
    {
        if j < matches.len() && matches[j] {
            proof {
                assert(positions(found@.push(j)) == positions(found@).push(j as int));
            }
            found.push(j);
        }
        j += 1;
    }
    found
}

/// A parsed page: the tree, its depth-first walk, and the serialised
/// children of each element of the walk.
pub struct Document {
    /// The tree, as the parser built it.
    pub html: Html,
    /// The depth-first walk of the tree.
    pub edges: Vec<TreeEdge>,
    /// For each edge, the serialised children of the element that it enters.
    pub inner: Vec<Option<String>>,
}

impl Document {
    /// The markup that the page was parsed from.
    pub open spec fn source(&self) -> Seq<char> {
        html_source(self.html)
    }

    /// A well-formed page holds the walk and the inner markup of its own
    /// tree, which was parsed as a whole document.
    pub open spec fn wf(&self) -> bool {
        &&& !html_is_fragment(self.html)
        &&& self.edges@ == markup_edges(self.source(), false)
        &&& option_views(self.inner@) == markup_inner_html(self.source(), false)
    }

    /// Parses a page.
    pub fn parse(page: &str) -> (doc: Document)
        ensures
            doc.wf(),
            doc.source() == page@,
    {
        let html = parse_document(page);
        let edges = tree_edges(&html);
        let inner = inner_markup(&html);
        Document { html, edges, inner }
    }

    /// For each edge of the walk, whether it enters an element that the CSS
    /// selector matches. `None` where `selector` is no valid selector.
    pub fn matches(&self, selector: &str) -> (found: Option<Vec<bool>>)
        requires
            self.wf(),
        ensures
            match found {
                Some(v) => markup_matches(self.source(), false, selector@) == Some(v@),
                None => markup_matches(self.source(), false, selector@) is None,
            },
    {
        selector_matches(&self.html, selector)
    }

    /// For each edge of the walk, the value of the attribute `name` on the
    /// element that the edge enters.
    pub fn attributes(&self, name: &str) -> (values: Vec<Option<String>>)
        requires
            self.wf(),
        ensures
            option_views(values@) == markup_attribute(self.source(), false, name@),
    {
        attribute_values(&self.html, name)
    }

    /// The elements that `matches` marks, in document order.
    pub fn select(&self, matches: &Vec<bool>) -> (found: Vec<usize>)
        ensures
            positions(found@) == hits(matches@, 0, self.edges@.len() as int),
            forall|k: int| 0 <= k < found@.len() ==> #[trigger] found@[k] < self.edges@.len(),
    {
        select_between(matches, 0, self.edges.len())
    }

    /// The elements below the element entered at `scope` that `matches`
    /// marks, in document order.
    pub fn select_within(&self, matches: &Vec<bool>, scope: usize) -> (found: Vec<usize>)
        requires
            scope < self.edges@.len(),
        ensures
            positions(found@) == hits_within(self.edges@, matches@, scope as int),
            forall|k: int|
                0 <= k < found@.len() ==> scope < #[trigger] found@[k] < self.edges@.len(),
    {
        let end = find_subtree_end(&self.edges, scope);
        select_between(matches, scope + 1, end)
    }

    /// The serialised children of the element entered at `at`.
    pub fn inner_html(&self, at: usize) -> (out: String)
        ensures
            out@ == markup_at(option_views(self.inner@), at as int),
    {
        if at < self.inner.len() {
            match &self.inner[at] {
                Some(s) => s.clone(),
                None => String::new(),
            }
        } else {
            String::new()
        }
    }
}

/// The views of a vector of strings.
pub open spec fn string_views(v: Seq<String>) -> Seq<Seq<char>> {
    Seq::new(v.len(), |i: int| v[i]@)
}

/// The views of the rows of a table.
pub open spec fn table_view(v: Seq<Vec<String>>) -> Seq<Seq<Seq<char>>> {
    Seq::new(v.len(), |i: int| string_views(v[i]@))
}

/// The inner markup of each of the elements at `at`.
pub open spec fn markups_at(inner: Seq<Option<Seq<char>>>, at: Seq<int>) -> Seq<Seq<char>> {
    Seq::new(at.len(), |i: int| markup_at(inner, at[i]))
}

/// The cells of the row entered at `row`: the inner markup of each element
/// below it that `cells` marks.
pub open spec fn cells_of_row(
    edges: Seq<TreeEdge>,
    inner: Seq<Option<Seq<char>>>,
    cells: Seq<bool>,
    row: int,
) -> Seq<Seq<char>> {
    markups_at(inner, hits_within(edges, cells, row))
}

/// The rows of the table entered at `table`: one for each element below it
/// that `rows` marks, each with its cells.
pub open spec fn rows_of_table(
    edges: Seq<TreeEdge>,
    inner: Seq<Option<Seq<char>>>,
    rows: Seq<bool>,
    cells: Seq<bool>,
    table: int,
) -> Seq<Seq<Seq<char>>> {
    let found = hits_within(edges, rows, table);
    Seq::new(found.len(), |i: int| cells_of_row(edges, inner, cells, found[i]))
}

impl Document {
    /// The inner markup of each of the elements at `at`.
    pub fn inner_html_of(&self, at: &Vec<usize>) -> (out: Vec<String>)
        ensures
            string_views(out@) == markups_at(option_views(self.inner@), positions(at@)),
    {
        let mut out: Vec<String> = Vec::new();
        let mut i: usize = 0;
        while i < at.len()
            invariant
                i <= at.len(),
                out@.len() == i,
                forall|k: int|
                    0 <= k < i ==> (#[trigger] out@[k])@ == markup_at(
                        option_views(self.inner@),
                        at@[k] as int,
                    ),
            decreases at.len() - i,
        {
            let cell = self.inner_html(at[i]);
            out.push(cell);
            i += 1;
        }
        proof {
            assert(string_views(out@) =~= markups_at(
                option_views(self.inner@),
                positions(at@),
            ));
        }
        out
    }

    /// The rows of the table entered at `table`, each with the inner markup
    /// of its cells.
    pub fn table(&self, table: usize, rows: &Vec<bool>, cells: &Vec<bool>) -> (out: Vec<
        Vec<String>,
    >)
        requires
            table < self.edges@.len(),
        ensures
            table_view(out@) == rows_of_table(
                self.edges@,
                option_views(self.inner@),
                rows@,
                cells@,
                table as int,
            ),
    {
        let found = self.select_within(rows, table);
        let mut out: Vec<Vec<String>> = Vec::new();
        let mut i: usize = 0;
        while i < found.len()
            invariant
                i <= found.len(),
                out@.len() == i,
                forall|k: int| 0 <= k < found@.len() ==> #[trigger] found@[k] < self.edges@.len(),
                forall|k: int|
                    0 <= k < i ==> string_views((#[trigger] out@[k])@) == cells_of_row(
                        self.edges@,
                        option_views(self.inner@),
                        cells@,
                        found@[k] as int,
                    ),
            decreases found.len() - i,
        {
            let at = self.select_within(cells, found[i]);
            let row = self.inner_html_of(&at);
            out.push(row);
            i += 1;
        }
        proof {
            assert(table_view(out@) =~= rows_of_table(
                self.edges@,
                option_views(self.inner@),
                rows@,
                cells@,
                table as int,
            ));
        }
        out
    }
}

} // verus!
