//! The intersection table: one record for each data row of the first table
//! body.

use crate::document::{string_views, table_view};
use crate::error::{ErrorView, Result};
use crate::parse::fields::{latlong_of_text, parse_latlong};
use crate::parse::{base_table, clean, clean_text, page_table, Parser, RowState};
use crate::text::{split, split_on, to_chars, to_text, views};
use crate::types::{Degrees, Intersection, IntersectionView};
use vstd::prelude::*;

verus! {

/// A list of intersections.
pub type Intersections = Vec<Intersection>;

/// The selector of a data row of the intersection table.
pub const INTERSECTION_ROW_SELECTOR: &'static str = "tr.Table-row-type-3";

/// The coordinates after the first `n` lines of a cell: each line is parsed
/// by itself, and what it gives replaces what was there. The first line
/// that gives no coordinate at all is an error.
pub open spec fn coordinates_after_lines(
    start: (Degrees, Degrees),
    lines: Seq<Seq<char>>,
    n: nat,
) -> std::result::Result<(Degrees, Degrees), ErrorView>
    decreases n,
{
    if n == 0 || n > lines.len() {
        Ok(start)
    } else {
        match coordinates_after_lines(start, lines, (n - 1) as nat) {
            Ok((lat, lon)) => match latlong_of_text(lines[n - 1]) {
                Some((new_lat, new_lon)) => Ok(
                    (
                        match new_lat {
                            Some(a) => a,
                            None => lat,
                        },
                        match new_lon {
                            Some(a) => a,
                            None => lon,
                        },
                    ),
                ),
                None => Err(ErrorView::ParseError("latlong"@, lines[n - 1])),
            },
            Err(e) => Err(e),
        }
    }
}

/// The record after the cell in column `column`, whose inner markup is
/// `cell`. Column 0 holds the designator and column 1 the coordinates, one
/// fragment to a line; the other columns are not read. A row without a
/// designator is no data row.
pub open spec fn intersection_after_cell(acc: IntersectionView, column: int, cell: Seq<char>)
    -> RowState<IntersectionView> {
    let text = clean_text(cell);
    if column == 0 {
        if text.len() == 0 {
            RowState::Skipped
        } else {
            RowState::Filling(IntersectionView { designator: text, ..acc })
        }
    } else if column == 1 {
        let lines = split_on(text, '\n');
        match coordinates_after_lines((acc.latitude, acc.longitude), lines, lines.len()) {
            Ok((lat, lon)) => RowState::Filling(
                IntersectionView { latitude: lat, longitude: lon, ..acc },
            ),
            Err(e) => RowState::Failed(e),
        }
    } else {
        RowState::Filling(acc)
    }
}

/// The state of an intersection row after its first `n` cells.
pub open spec fn intersection_after_cells(cells: Seq<Seq<char>>, n: nat) -> RowState<
    IntersectionView,
>
    decreases n,
{
    if n == 0 || n > cells.len() {
        RowState::Filling(IntersectionView::blank())
    } else {
        match intersection_after_cells(cells, (n - 1) as nat) {
            RowState::Filling(acc) => intersection_after_cell(acc, n - 1, cells[n - 1]),
            other => other,
        }
    }
}

/// What a row gives: a record, nothing (the row is no data row, or every
/// field of it is blank), or an error.
pub open spec fn intersection_of_row(cells: Seq<Seq<char>>) -> std::result::Result<
    Option<IntersectionView>,
    ErrorView,
> {
    match intersection_after_cells(cells, cells.len()) {
        RowState::Filling(acc) => Ok(
            if acc.is_blank() {
                None
            } else {
                Some(acc)
            },
        ),
        RowState::Skipped => Ok(None),
        RowState::Failed(e) => Err(e),
    }
}

/// The records of the first `n` rows, in order; the error of the first row
/// that cannot be read.
pub open spec fn intersections_of_rows(rows: Seq<Seq<Seq<char>>>, n: nat) -> std::result::Result<
    Seq<IntersectionView>,
    ErrorView,
>
    decreases n,
{
    if n == 0 || n > rows.len() {
        Ok(Seq::empty())
    } else {
        match intersections_of_rows(rows, (n - 1) as nat) {
            Ok(before) => match intersection_of_row(rows[n - 1]) {
                Ok(Some(record)) => Ok(before.push(record)),
                Ok(None) => Ok(before),
                Err(e) => Err(e),
            },
            Err(e) => Err(e),
        }
    }
}

/// The intersections of a page.
pub open spec fn intersections_of_page(page: Seq<char>) -> std::result::Result<
    Seq<IntersectionView>,
    ErrorView,
> {
    match page_table(page, INTERSECTION_ROW_SELECTOR@) {
        Ok(rows) => intersections_of_rows(rows, rows.len()),
        Err(e) => Err(e),
    }
}

/// The views of a sequence of intersections.
pub open spec fn intersection_views(v: Seq<Intersection>) -> Seq<IntersectionView> {
    Seq::new(v.len(), |i: int| v[i]@)
}

/// What the result of an extraction of intersections holds, as plain values.
pub open spec fn intersections_result_view(r: Result<Vec<Intersection>>) -> std::result::Result<
    Seq<IntersectionView>,
    ErrorView,
> {
    match r {
        Ok(v) => Ok(intersection_views(v@)),
        Err(e) => Err(e@),
    }
}

/// What the result for one row holds, as plain values.
pub open spec fn intersection_row_view(r: Result<Option<Intersection>>) -> std::result::Result<
    Option<IntersectionView>,
    ErrorView,
> {
    match r {
        Ok(Some(n)) => Ok(Some(n@)),
        Ok(None) => Ok(None),
        Err(e) => Err(e@),
    }
}

/// Once a line has failed, further lines change nothing.
pub proof fn lemma_lines_fail(start: (Degrees, Degrees), lines: Seq<Seq<char>>, n: nat, m: nat)
    requires
        1 <= n <= m <= lines.len(),
        coordinates_after_lines(start, lines, n) is Err,
    ensures
        coordinates_after_lines(start, lines, m) == coordinates_after_lines(start, lines, n),
    decreases m - n,
{
    if n < m {
        lemma_lines_fail(start, lines, n, (m - 1) as nat);
    }
}

/// The coordinates that the lines of a cell give, starting from `start`.
pub fn coordinates_from_lines(start: (Degrees, Degrees), lines: &Vec<Vec<char>>) -> (r: Result<
    (Degrees, Degrees),
>)
    ensures
        match r {
            Ok(pair) => coordinates_after_lines(start, views(lines@), lines@.len()) == Ok::<
                (Degrees, Degrees),
                ErrorView,
            >(pair),
            Err(e) => coordinates_after_lines(start, views(lines@), lines@.len()) == Err::<
                (Degrees, Degrees),
                ErrorView,
            >(e@),
        },
{
    let ghost model = views(lines@);
    let mut lat = start.0;
    let mut lon = start.1;
    let mut i: usize = 0;
    while i < lines.len()
        invariant
            i <= lines.len(),
            model == views(lines@),
            coordinates_after_lines(start, model, i as nat) == Ok::<(Degrees, Degrees), ErrorView>(
                (lat, lon),
            ),
        decreases lines.len() - i,
    {
        proof {
            assert(model[i as int] == lines@[i as int]@);
        }
        let line = to_text(&lines[i]);
        match parse_latlong(line.as_str()) {
            Ok((new_lat, new_lon)) => {
                if let Some(a) = new_lat {
                    lat = a;
                }
                if let Some(a) = new_lon {
                    lon = a;
                }
            },
            Err(e) => {
                proof {
                    lemma_lines_fail(start, model, (i + 1) as nat, lines.len() as nat);
                }
                return Err(e);
            },
        }
        i += 1;
    }
    Ok((lat, lon))
}

/// Once a row is skipped or has failed, further cells change nothing.
pub proof fn lemma_row_stays(cells: Seq<Seq<char>>, n: nat, m: nat)
    requires
        1 <= n <= m <= cells.len(),
        !(intersection_after_cells(cells, n) is Filling),
    ensures
        intersection_after_cells(cells, m) == intersection_after_cells(cells, n),
    decreases m - n,
{
    if n < m {
        lemma_row_stays(cells, n, (m - 1) as nat);
    }
}

/// The intersection of one row of the table, given the inner markup of its
/// cells. `Ok(None)` where the row is no data row.
pub fn intersection_from_cells(cells: &Vec<String>) -> (r: Result<Option<Intersection>>)
    ensures
        intersection_row_view(r) == intersection_of_row(string_views(cells@)),
{
    let ghost model = string_views(cells@);
    let mut acc = Intersection::blank();
    let mut i: usize = 0;
    while i < cells.len()
        invariant
            i <= cells.len(),
            model == string_views(cells@),
            intersection_after_cells(model, i as nat) == RowState::Filling(acc@),
        decreases cells.len() - i,
    {
        proof {
            assert(model[i as int] == cells@[i as int]@);
        }
        if i == 0 {
            let text = clean(cells[i].as_str());
            if text.as_str().is_empty() {
                proof {
                    lemma_row_stays(model, (i + 1) as nat, cells.len() as nat);
                }
                return Ok(None);
            }
            acc.designator = text;
        } else if i == 1 {
            let text = clean(cells[i].as_str());
            let chars = to_chars(text.as_str());
            let lines = split(&chars, '\n');
            match coordinates_from_lines((acc.latitude, acc.longitude), &lines) {
                Ok((lat, lon)) => {
                    acc.latitude = lat;
                    acc.longitude = lon;
                },
                Err(e) => {
                    proof {
                        lemma_row_stays(model, (i + 1) as nat, cells.len() as nat);
                    }
                    return Err(e);
                },
            }
        }
        i += 1;
    }
    if acc.is_blank() {
        Ok(None)
    } else {
        Ok(Some(acc))
    }
}

/// Once a row has failed, further rows change nothing.
pub proof fn lemma_rows_fail(rows: Seq<Seq<Seq<char>>>, n: nat, m: nat)
    requires
        1 <= n <= m <= rows.len(),
        intersections_of_rows(rows, n) is Err,
    ensures
        intersections_of_rows(rows, m) == intersections_of_rows(rows, n),
    decreases m - n,
{
    if n < m {
        lemma_rows_fail(rows, n, (m - 1) as nat);
    }
}

/// The intersections of the rows of a table, in the order of the rows. The
/// first row that cannot be read ends the extraction with its error.
pub fn intersections_from_rows(rows: &Vec<Vec<String>>) -> (r: Result<Vec<Intersection>>)
    ensures
        intersections_result_view(r) == intersections_of_rows(table_view(rows@), rows@.len()),
{
    let ghost model = table_view(rows@);
    let mut out: Vec<Intersection> = Vec::new();
    let mut i: usize = 0;
    proof {
        assert(intersection_views(out@) =~= Seq::<IntersectionView>::empty());
    }
    while i < rows.len()
        invariant
            i <= rows.len(),
            model == table_view(rows@),
            intersections_of_rows(model, i as nat) == Ok::<Seq<IntersectionView>, ErrorView>(
                intersection_views(out@),
            ),
        decreases rows.len() - i,
    {
        proof {
            assert(model[i as int] == string_views(rows@[i as int]@));
        }
        match intersection_from_cells(&rows[i]) {
            Ok(Some(record)) => {
                proof {
                    assert(intersection_views(out@.push(record)) =~= intersection_views(
                        out@,
                    ).push(record@));
                }
                out.push(record);
            },
            Ok(None) => {},
            Err(e) => {
                proof {
                    lemma_rows_fail(model, (i + 1) as nat, rows.len() as nat);
                }
                return Err(e);
            },
        }
        i += 1;
    }
    Ok(out)
}

/// The intersections of a page: one for each data row of the first table
/// body that has a designator.
pub fn parse_intersections(data: &str) -> (r: Result<Vec<Intersection>>)
    ensures
        intersections_result_view(r) == intersections_of_page(data@),
{
    match base_table(data, INTERSECTION_ROW_SELECTOR) {
        Ok(rows) => intersections_from_rows(&rows),
        Err(e) => Err(e),
    }
}

impl<'a> Parser<'a> for Intersections {
    type Output = Intersections;

    fn parse(data: &'a str) -> (r: Result<Intersections>)
        ensures
            intersections_result_view(r) == intersections_of_page(data@),
    {
        parse_intersections(data)
    }
}

} // verus!
