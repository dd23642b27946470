//! The airway page: one airway for each table body that has a designator
//! row.

use crate::document::{
    hits, hits_within, markups_at, positions, rows_of_table, string_views, table_view, Document,
};
use crate::error::{Error, ErrorView, Result};
use crate::html::{markup_edges, markup_inner_html, markup_matches, option_views, TreeEdge};
use crate::parse::fields::match_view;
use crate::parse::{clean, clean_text, Parser, BAD_SELECTOR};
use crate::pattern::{captures, group, group_text, regex_captures};
use crate::text::{lemma_first_index_is, slice, split_on, to_chars, to_text};
use crate::types::{Airway, AirwayView, AirwayWaypoint, AirwayWaypointView, waypoint_views};
use vstd::prelude::*;

verus! {

/// A list of airways.
pub type Airways = Vec<Airway>;

/// The selector of a block: each table body is one airway.
pub const BLOCK_SELECTOR: &'static str = "tbody";

/// The selector of the cell that holds the designator of the airway.
pub const DESIGNATOR_SELECTOR: &'static str = "tr.Table-row-type-1 > td:first-child";

/// The selector of the cell that holds the code of a waypoint.
pub const WAYPOINT_SELECTOR: &'static str = "tr.Table-row-type-2 > td:nth-child(2)";

/// The selector of a row that holds the limits of one waypoint.
pub const DETAIL_SELECTOR: &'static str = "tr.Table-row-type-3";

/// The selector of the cell of a detail row that holds the upper limit.
pub const UPPER_LIMIT_SELECTOR: &'static str = "td:nth-child(4) td.Upper";

/// The selector of the cell of a detail row that holds the lower limit.
pub const LOWER_LIMIT_SELECTOR: &'static str = "td:nth-child(4) td.Lower";

/// The code of a navaid: three capital letters in parentheses.
pub const NAVAID_CODE_PATTERN: &'static str = r"\(\s*([A-Z]{3})\s*\)";

/// The code of an intersection: five capital letters at the start.
pub const INTERSECTION_CODE_PATTERN: &'static str = r"(^[A-Z]{5})";

/// What one table body of the page holds, as inner markup: the designator
/// cells, the waypoint cells, and for each detail row its cells for the upper
/// and for the lower limit.
pub struct AirwayBlock {
    pub designators: Vec<String>,
    pub waypoints: Vec<String>,
    pub uppers: Vec<Vec<String>>,
    pub lowers: Vec<Vec<String>>,
}

/// What an [`AirwayBlock`] holds, as plain values.
pub struct AirwayBlockView {
    pub designators: Seq<Seq<char>>,
    pub waypoints: Seq<Seq<char>>,
    pub uppers: Seq<Seq<Seq<char>>>,
    pub lowers: Seq<Seq<Seq<char>>>,
}

impl View for AirwayBlock {
    type V = AirwayBlockView;

    open spec fn view(&self) -> AirwayBlockView {
        AirwayBlockView {
            designators: string_views(self.designators@),
            waypoints: string_views(self.waypoints@),
            uppers: table_view(self.uppers@),
            lowers: table_view(self.lowers@),
        }
    }
}

/// The code that the text of a waypoint cell holds: that of a navaid where
/// the text holds one, else that of an intersection where the text starts
/// with one.
pub open spec fn waypoint_code_of(
    navaid: Option<Seq<Option<Seq<char>>>>,
    intersection: Option<Seq<Option<Seq<char>>>>,
) -> Option<Seq<char>> {
    match navaid {
        Some(groups) => group_text(groups, 1),
        None => match intersection {
            Some(groups) => group_text(groups, 1),
            None => None,
        },
    }
}

/// The code that a waypoint cell holds, given its inner markup.
pub open spec fn waypoint_code(cell: Seq<char>) -> Option<Seq<char>> {
    let text = clean_text(cell);
    waypoint_code_of(
        regex_captures(NAVAID_CODE_PATTERN@, text),
        regex_captures(INTERSECTION_CODE_PATTERN@, text),
    )
}

/// The codes of the first `n` waypoint cells, in order; a cell without a
/// code gives none.
pub open spec fn waypoint_codes(cells: Seq<Seq<char>>, n: nat) -> Seq<Seq<char>>
    decreases n,
{
    if n == 0 || n > cells.len() {
        Seq::empty()
    } else {
        match waypoint_code(cells[n - 1]) {
            Some(code) => waypoint_codes(cells, (n - 1) as nat).push(code),
            None => waypoint_codes(cells, (n - 1) as nat),
        }
    }
}

/// The limit that detail row `i` gives: the text of its first limit cell;
/// empty where there is no such row or the row has no such cell.
pub open spec fn limit_at(cells: Seq<Seq<Seq<char>>>, i: int) -> Seq<char> {
    if 0 <= i < cells.len() && cells[i].len() > 0 {
        clean_text(cells[i][0])
    } else {
        Seq::empty()
    }
}

/// The waypoints of a block: one for each code, in order, the i-th with the
/// limits of the i-th detail row.
pub open spec fn waypoints_of_block(block: AirwayBlockView) -> Seq<AirwayWaypointView> {
    let codes = waypoint_codes(block.waypoints, block.waypoints.len());
    Seq::new(
        codes.len(),
        |i: int|
            AirwayWaypointView {
                designator: codes[i],
                lower_limit: limit_at(block.lowers, i),
                upper_limit: limit_at(block.uppers, i),
            },
    )
}

/// The first line of a text.
pub open spec fn first_line(text: Seq<char>) -> Seq<char> {
    split_on(text, '\n')[0]
}

/// The airway of a block: none where the block has no designator cell, or
/// where the airway has neither a designator nor a waypoint.
pub open spec fn airway_of_block(block: AirwayBlockView) -> Option<AirwayView> {
    if block.designators.len() == 0 {
        None
    } else {
        let airway = AirwayView {
            designator: first_line(clean_text(block.designators[0])),
            waypoints: waypoints_of_block(block),
        };
        if airway.is_blank() {
            None
        } else {
            Some(airway)
        }
    }
}

/// The airways of the first `n` blocks, in order.
pub open spec fn airways_of_blocks(blocks: Seq<AirwayBlockView>, n: nat) -> Seq<AirwayView>
    decreases n,
{
    if n == 0 || n > blocks.len() {
        Seq::empty()
    } else {
        match airway_of_block(blocks[n - 1]) {
            Some(airway) => airways_of_blocks(blocks, (n - 1) as nat).push(airway),
            None => airways_of_blocks(blocks, (n - 1) as nat),
        }
    }
}

/// For each edge of the walk, what each of the selectors of an airway page
/// matches.
pub struct AirwayMarks {
    pub designators: Seq<bool>,
    pub waypoints: Seq<bool>,
    pub details: Seq<bool>,
    pub uppers: Seq<bool>,
    pub lowers: Seq<bool>,
}

/// The block of the table body entered at `at`.
pub open spec fn block_at(
    edges: Seq<TreeEdge>,
    inner: Seq<Option<Seq<char>>>,
    marks: AirwayMarks,
    at: int,
) -> AirwayBlockView {
    AirwayBlockView {
        designators: markups_at(inner, hits_within(edges, marks.designators, at)),
        waypoints: markups_at(inner, hits_within(edges, marks.waypoints, at)),
        uppers: rows_of_table(edges, inner, marks.details, marks.uppers, at),
        lowers: rows_of_table(edges, inner, marks.details, marks.lowers, at),
    }
}

/// The blocks of a page, one for each table body in document order; an error
/// where a selector is not understood.
pub open spec fn page_blocks(page: Seq<char>) -> std::result::Result<
    Seq<AirwayBlockView>,
    ErrorView,
> {
    match (
        markup_matches(page, false, BLOCK_SELECTOR@),
        markup_matches(page, false, DESIGNATOR_SELECTOR@),
        markup_matches(page, false, WAYPOINT_SELECTOR@),
        markup_matches(page, false, DETAIL_SELECTOR@),
        markup_matches(page, false, UPPER_LIMIT_SELECTOR@),
        markup_matches(page, false, LOWER_LIMIT_SELECTOR@),
    ) {
        (Some(blocks), Some(designators), Some(waypoints), Some(details), Some(uppers), Some(
            lowers,
        )) => {
            let edges = markup_edges(page, false);
            let inner = markup_inner_html(page, false);
            let at = hits(blocks, 0, edges.len() as int);
            let marks = AirwayMarks { designators, waypoints, details, uppers, lowers };
            Ok(Seq::new(at.len(), |k: int| block_at(edges, inner, marks, at[k])))
        },
        _ => Err(ErrorView::CannotScrapeData(BAD_SELECTOR@)),
    }
}

/// The airways of a page.
pub open spec fn airways_of_page(page: Seq<char>) -> std::result::Result<
    Seq<AirwayView>,
    ErrorView,
> {
    match page_blocks(page) {
        Ok(blocks) => Ok(airways_of_blocks(blocks, blocks.len())),
        Err(e) => Err(e),
    }
}

/// The views of a sequence of airways.
pub open spec fn airway_views(v: Seq<Airway>) -> Seq<AirwayView> {
    Seq::new(v.len(), |i: int| v[i]@)
}

/// The views of a sequence of blocks.
pub open spec fn block_views(v: Seq<AirwayBlock>) -> Seq<AirwayBlockView> {
    Seq::new(v.len(), |i: int| v[i]@)
}

/// What the result of an extraction of airways holds, as plain values.
pub open spec fn airways_result_view(r: Result<Vec<Airway>>) -> std::result::Result<
    Seq<AirwayView>,
    ErrorView,
> {
    match r {
        Ok(v) => Ok(airway_views(v@)),
        Err(e) => Err(e@),
    }
}

/// The code that the matches of the navaid pattern and of the intersection
/// pattern in the text of a waypoint cell give. The navaid pattern decides
/// where it matched.
pub fn waypoint_code_from_captures(
    navaid: Option<Vec<Option<String>>>,
    intersection: Option<Vec<Option<String>>>,
) -> (r: Option<String>)
    ensures
        match r {
            Some(code) => waypoint_code_of(
                match_view(navaid),
                match_view(intersection),
            ) == Some(code@),
            None => waypoint_code_of(
                match_view(navaid),
                match_view(intersection),
            ) is None,
        },
{
    let found = match navaid {
        Some(groups) => group(&groups, 1),
        None => match intersection {
            Some(groups) => group(&groups, 1),
            None => None,
        },
    };
    match found {
        Some(chars) => Some(to_text(&chars)),
        None => None,
    }
}

/// The code that a waypoint cell holds, given its inner markup.
pub fn waypoint_code_from_cell(cell: &str) -> (r: Option<String>)
    ensures
        match r {
            Some(code) => waypoint_code(cell@) == Some(code@),
            None => waypoint_code(cell@) is None,
        },
{
    let text = clean(cell);
    let navaid = captures(NAVAID_CODE_PATTERN, text.as_str());
    if navaid.is_some() {
        waypoint_code_from_captures(navaid, None)
    } else {
        let intersection = captures(INTERSECTION_CODE_PATTERN, text.as_str());
        waypoint_code_from_captures(navaid, intersection)
    }
}

/// The first line of a text.
pub fn first_line_of(text: &str) -> (r: String)
    ensures
        r@ == first_line(text@),
{
    let chars = to_chars(text);
    let n = chars.len();
    let mut k: usize = 0;
    while k < n && chars[k] != '\n'
        invariant
            k <= n,
            n == chars.len(),
            forall|i: int| 0 <= i < k ==> chars@[i] != '\n',
        decreases n - k,
    {
        k += 1;
    }
    proof {
        lemma_first_index_is(chars@, '\n', k as int);
        assert(chars@.take(k as int) == chars@.subrange(0, k as int));
        if k == n {
            assert(chars@.subrange(0, k as int) == chars@);
        }
    }
    let line = slice(&chars, 0, k);
    to_text(&line)
}

/// The limit that detail row `i` gives.
fn limit_from(cells: &Vec<Vec<String>>, i: usize) -> (r: String)
    ensures
        r@ == limit_at(table_view(cells@), i as int),
{
    if i < cells.len() && cells[i].len() > 0 {
        proof {
            assert(table_view(cells@)[i as int] == string_views(cells@[i as int]@));
            assert(string_views(cells@[i as int]@)[0] == cells@[i as int]@[0]@);
        }
        clean(cells[i][0].as_str())
    } else {
        String::new()
    }
}

/// The airway of one table body. `None` where the body has no designator
/// cell, or where the airway has neither a designator nor a waypoint. A
/// waypoint beyond the last detail row has empty limits; a detail row beyond
/// the last waypoint is not read.
pub fn airway_from_block(block: &AirwayBlock) -> (r: Option<Airway>)
    ensures
        match r {
            Some(airway) => airway_of_block(block@) == Some(airway@),
            None => airway_of_block(block@) is None,
        },
{
    if block.designators.len() == 0 {
        return None;
    }
    proof {
        assert(string_views(block.designators@)[0] == block.designators@[0]@);
    }
    let text = clean(block.designators[0].as_str());
    let designator = first_line_of(text.as_str());
    let ghost cells = string_views(block.waypoints@);
    let mut codes: Vec<String> = Vec::new();
    let mut i: usize = 0;
    proof {
        assert(string_views(codes@) =~= Seq::<Seq<char>>::empty());
    }
    while i < block.waypoints.len()
        invariant
            i <= block.waypoints.len(),
            cells == string_views(block.waypoints@),
            string_views(codes@) == waypoint_codes(cells, i as nat),
        decreases block.waypoints.len() - i,
    {
        proof {
            assert(cells[i as int] == block.waypoints@[i as int]@);
        }
        match waypoint_code_from_cell(block.waypoints[i].as_str()) {
            Some(code) => {
                proof {
                    assert(string_views(codes@.push(code)) =~= string_views(codes@).push(code@));
                }
                codes.push(code);
            },
            None => {},
        }
        i += 1;
    }
    let mut waypoints: Vec<AirwayWaypoint> = Vec::new();
    let mut k: usize = 0;
    while k < codes.len()
        invariant
            k <= codes.len(),
            waypoints@.len() == k,
            forall|j: int|
                0 <= j < k ==> (#[trigger] waypoints@[j])@ == (AirwayWaypointView {
                    designator: codes@[j]@,
                    lower_limit: limit_at(table_view(block.lowers@), j),
                    upper_limit: limit_at(table_view(block.uppers@), j),
                }),
        decreases codes.len() - k,
    {
        let waypoint = AirwayWaypoint {
            designator: codes[k].clone(),
            lower_limit: limit_from(&block.lowers, k),
            upper_limit: limit_from(&block.uppers, k),
        };
        waypoints.push(waypoint);
        k += 1;
    }
    proof {
        assert(string_views(codes@).len() == codes@.len());
        assert forall|j: int| 0 <= j < codes@.len() implies waypoint_views(waypoints@)[j]
            == waypoints_of_block(block@)[j] by {
            assert(string_views(codes@)[j] == codes@[j]@);
        }
        assert(waypoint_views(waypoints@) =~= waypoints_of_block(block@));
    }
    let airway = Airway { designator, waypoints };
    if airway.is_blank() {
        None
    } else {
        Some(airway)
    }
}

/// The airways of the blocks of a page, in the order of the blocks.
pub fn airways_from_blocks(blocks: &Vec<AirwayBlock>) -> (r: Vec<Airway>)
    ensures
        airway_views(r@) == airways_of_blocks(block_views(blocks@), blocks@.len()),
{
    let ghost model = block_views(blocks@);
    let mut out: Vec<Airway> = Vec::new();
    let mut i: usize = 0;
    proof {
        assert(airway_views(out@) =~= Seq::<AirwayView>::empty());
    }
    while i < blocks.len()
        invariant
            i <= blocks.len(),
            model == block_views(blocks@),
            airway_views(out@) == airways_of_blocks(model, i as nat),
        decreases blocks.len() - i,
    {
        proof {
            assert(model[i as int] == blocks@[i as int]@);
        }
        match airway_from_block(&blocks[i]) {
            Some(airway) => {
                proof {
                    assert(airway_views(out@.push(airway)) =~= airway_views(out@).push(airway@));
                }
                out.push(airway);
            },
            None => {},
        }
        i += 1;
    }
    out
}

/// The blocks of a page, one for each table body in document order.
pub fn blocks_of(page: &str) -> (r: Result<Vec<AirwayBlock>>)
    ensures
        match r {
            Ok(blocks) => page_blocks(page@) == Ok::<Seq<AirwayBlockView>, ErrorView>(
                block_views(blocks@),
            ),
            Err(e) => page_blocks(page@) == Err::<Seq<AirwayBlockView>, ErrorView>(e@),
        },
{
    let doc = Document::parse(page);
    let found = (
        doc.matches(BLOCK_SELECTOR),
        doc.matches(DESIGNATOR_SELECTOR),
        doc.matches(WAYPOINT_SELECTOR),
        doc.matches(DETAIL_SELECTOR),
        doc.matches(UPPER_LIMIT_SELECTOR),
        doc.matches(LOWER_LIMIT_SELECTOR),
    );
    match found {
        (Some(blocks), Some(designators), Some(waypoints), Some(details), Some(uppers), Some(
            lowers,
        )) => {
            let ghost marks = AirwayMarks {
                designators: designators@,
                waypoints: waypoints@,
                details: details@,
                uppers: uppers@,
                lowers: lowers@,
            };
            let ghost edges = doc.edges@;
            let ghost inner = option_views(doc.inner@);
            let at = doc.select(&blocks);
            let mut out: Vec<AirwayBlock> = Vec::new();
            let mut i: usize = 0;
            while i < at.len()
                invariant
                    i <= at.len(),
                    out@.len() == i,
                    edges == doc.edges@,
                    inner == option_views(doc.inner@),
                    marks.designators == designators@,
                    marks.waypoints == waypoints@,
                    marks.details == details@,
                    marks.uppers == uppers@,
                    marks.lowers == lowers@,
                    forall|k: int| 0 <= k < at@.len() ==> #[trigger] at@[k] < doc.edges@.len(),
                    forall|k: int|
                        0 <= k < i ==> (#[trigger] out@[k])@ == block_at(
                            edges,
                            inner,
                            marks,
                            at@[k] as int,
                        ),
                decreases at.len() - i,
            {
                let body = at[i];
                let designator_cells = doc.select_within(&designators, body);
                let waypoint_cells = doc.select_within(&waypoints, body);
                let block = AirwayBlock {
                    designators: doc.inner_html_of(&designator_cells),
                    waypoints: doc.inner_html_of(&waypoint_cells),
                    uppers: doc.table(body, &details, &uppers),
                    lowers: doc.table(body, &details, &lowers),
                };
                out.push(block);
                i += 1;
            }
            proof {
                assert(positions(at@).len() == at@.len());
                assert forall|k: int| 0 <= k < at@.len() implies block_views(out@)[k] == block_at(
                    edges,
                    inner,
                    marks,
                    positions(at@)[k],
                ) by {
                    assert(positions(at@)[k] == at@[k] as int);
                }
                assert(block_views(out@) =~= Seq::new(
                    positions(at@).len(),
                    |k: int| block_at(edges, inner, marks, positions(at@)[k]),
                ));
            }
            Ok(out)
        },
        _ => Err(Error::CannotScrapeData(BAD_SELECTOR)),
    }
}

/// The airways of a page: one for each table body that has a designator
/// cell, with its waypoints in the order of the page.
pub fn parse_airways(data: &str) -> (r: Result<Vec<Airway>>)
    ensures
        airways_result_view(r) == airways_of_page(data@),
{
    match blocks_of(data) {
        Ok(blocks) => Ok(airways_from_blocks(&blocks)),
        Err(e) => Err(e),
    }
}

impl<'a> Parser<'a> for Airways {
    type Output = Airways;

    fn parse(data: &'a str) -> (r: Result<Airways>)
        ensures
            airways_result_view(r) == airways_of_page(data@),
    {
        parse_airways(data)
    }
}

/// Limits go to waypoints by position: the i-th waypoint of an airway has
/// the limits of the i-th detail row of its block, and a waypoint beyond the
/// last detail row has empty limits. The number and the order of the
/// waypoints are those of the codes found.
pub proof fn lemma_limits_by_position(block: AirwayBlockView, airway: AirwayView, i: int)
    requires
        airway_of_block(block) == Some(airway),
        0 <= i < airway.waypoints.len(),
    ensures
        airway.waypoints.len() == waypoint_codes(block.waypoints, block.waypoints.len()).len(),
        airway.waypoints[i].designator == waypoint_codes(block.waypoints, block.waypoints.len())[i],
        airway.waypoints[i].upper_limit == limit_at(block.uppers, i),
        airway.waypoints[i].lower_limit == limit_at(block.lowers, i),
        i >= block.uppers.len() ==> airway.waypoints[i].upper_limit.len() == 0,
        i >= block.lowers.len() ==> airway.waypoints[i].lower_limit.len() == 0,
{
}

} // verus!
