//! The navaid table: one record for each row of the first table body.

use crate::document::{string_views, table_view};
use crate::error::{Error, ErrorView, Result};
use crate::parse::fields::{
    elevation_of_text, frequency_of_text, latlong_of_text, parse_elevation, parse_frequency,
    parse_latlong,
};
use crate::parse::{base_table, clean, clean_text, page_table, Parser, RowState};
use crate::text::{equals, split, split_on, to_chars, to_text, trim, trimmed, views};
use crate::types::{NavAid, NavAidKind, NavAidView};
use vstd::prelude::*;

verus! {

/// A list of radio navaids.
pub type Navaids = Vec<NavAid>;

/// The selector of a row of the navaid table.
pub const NAVAID_ROW_SELECTOR: &'static str = "tr";

/// The kind that a label of the table names, if it names one.
pub open spec fn kind_of_label(label: Seq<char>) -> Option<NavAidKind> {
    if label == "VOR"@ {
        Some(NavAidKind::VOR)
    } else if label == "VOR/DME"@ {
        Some(NavAidKind::VORDME)
    } else if label == "DME"@ {
        Some(NavAidKind::DME)
    } else if label == "NDB"@ {
        Some(NavAidKind::NDB)
    } else {
        None
    }
}

/// The name in the first cell of a navaid row: its first line, trimmed.
pub open spec fn name_line(text: Seq<char>) -> Seq<char> {
    trim(split_on(text, '\n')[0])
}

/// The kind label in the first cell of a navaid row: its second line,
/// trimmed; empty where there is no second line.
pub open spec fn kind_line(text: Seq<char>) -> Seq<char> {
    let lines = split_on(text, '\n');
    if lines.len() > 1 {
        trim(lines[1])
    } else {
        Seq::empty()
    }
}

/// The record after the cell in column `column`, whose inner markup is
/// `cell`. Column 0 holds the name and the kind, column 1 the identifier,
/// column 2 the frequency, column 4 the coordinates and column 5 the
/// elevation; the other columns are not read.
pub open spec fn navaid_after_cell(acc: NavAidView, column: int, cell: Seq<char>) -> RowState<
    NavAidView,
> {
    let text = clean_text(cell);
    if column == 0 {
        let label = kind_line(text);
        match kind_of_label(label) {
            Some(kind) => RowState::Filling(NavAidView { name: name_line(text), kind, ..acc }),
            None => if label.len() == 0 {
                RowState::Skipped
            } else {
                RowState::Failed(ErrorView::UnknownNavAidKind(label))
            },
        }
    } else if column == 1 {
        RowState::Filling(NavAidView { id: text, ..acc })
    } else if column == 2 {
        match frequency_of_text(text) {
            Ok(khz) => RowState::Filling(NavAidView { frequency_khz: khz, ..acc }),
            Err(what) => RowState::Failed(ErrorView::ParseError(what, text)),
        }
    } else if column == 4 {
        match latlong_of_text(text) {
            Some((lat, lon)) => RowState::Filling(
                NavAidView {
                    latitude: match lat {
                        Some(a) => a,
                        None => acc.latitude,
                    },
                    longitude: match lon {
                        Some(a) => a,
                        None => acc.longitude,
                    },
                    ..acc
                },
            ),
            None => RowState::Failed(ErrorView::ParseError("latlong"@, text)),
        }
    } else if column == 5 {
        RowState::Filling(
            NavAidView {
                elevation: match elevation_of_text(text) {
                    Ok(feet) => feet,
                    Err(_) => 0,
                },
                ..acc
            },
        )
    } else {
        RowState::Filling(acc)
    }
}

/// The state of a navaid row after its first `n` cells.
pub open spec fn navaid_after_cells(cells: Seq<Seq<char>>, n: nat) -> RowState<NavAidView>
    decreases n,
{
    if n == 0 || n > cells.len() {
        RowState::Filling(NavAidView::blank())
    } else {
        match navaid_after_cells(cells, (n - 1) as nat) {
            RowState::Filling(acc) => navaid_after_cell(acc, n - 1, cells[n - 1]),
            other => other,
        }
    }
}

/// What a row gives: a record, nothing (the row is no data row, or every
/// field of it is blank), or an error.
pub open spec fn navaid_of_row(cells: Seq<Seq<char>>) -> std::result::Result<
    Option<NavAidView>,
    ErrorView,
> {
    match navaid_after_cells(cells, cells.len()) {
        RowState::Filling(acc) => Ok(
            if acc.is_blank() {
                None
            } else {
                Some(acc)
            },
        ),
        RowState::Skipped => Ok(None),
        RowState::Failed(e) => Err(e),
    }
}

/// The records of the first `n` rows, in order; the error of the first row
/// that cannot be read.
pub open spec fn navaids_of_rows(rows: Seq<Seq<Seq<char>>>, n: nat) -> std::result::Result<
    Seq<NavAidView>,
    ErrorView,
>
    decreases n,
{
    if n == 0 || n > rows.len() {
        Ok(Seq::empty())
    } else {
        match navaids_of_rows(rows, (n - 1) as nat) {
            Ok(before) => match navaid_of_row(rows[n - 1]) {
                Ok(Some(record)) => Ok(before.push(record)),
                Ok(None) => Ok(before),
                Err(e) => Err(e),
            },
            Err(e) => Err(e),
        }
    }
}

/// The navaids of a page.
pub open spec fn navaids_of_page(page: Seq<char>) -> std::result::Result<
    Seq<NavAidView>,
    ErrorView,
> {
    match page_table(page, NAVAID_ROW_SELECTOR@) {
        Ok(rows) => navaids_of_rows(rows, rows.len()),
        Err(e) => Err(e),
    }
}

/// The views of a sequence of navaids.
pub open spec fn navaid_views(v: Seq<NavAid>) -> Seq<NavAidView> {
    Seq::new(v.len(), |i: int| v[i]@)
}

/// What the result of an extraction of navaids holds, as plain values.
pub open spec fn navaids_result_view(r: Result<Vec<NavAid>>) -> std::result::Result<
    Seq<NavAidView>,
    ErrorView,
> {
    match r {
        Ok(v) => Ok(navaid_views(v@)),
        Err(e) => Err(e@),
    }
}

/// What the result for one row holds, as plain values.
pub open spec fn navaid_row_view(r: Result<Option<NavAid>>) -> std::result::Result<
    Option<NavAidView>,
    ErrorView,
> {
    match r {
        Ok(Some(n)) => Ok(Some(n@)),
        Ok(None) => Ok(None),
        Err(e) => Err(e@),
    }
}

/// The kind that a label names.
fn kind_from_label(label: &Vec<char>) -> (r: Option<NavAidKind>)
    ensures
        r == kind_of_label(label@),
{
    if equals(label, "VOR") {
        Some(NavAidKind::VOR)
    } else if equals(label, "VOR/DME") {
        Some(NavAidKind::VORDME)
    } else if equals(label, "DME") {
        Some(NavAidKind::DME)
    } else if equals(label, "NDB") {
        Some(NavAidKind::NDB)
    } else {
        None
    }
}

/// The navaid of one row of the table, given the inner markup of its cells.
/// `Ok(None)` where the row is no data row: its kind label is empty, or no
/// field of it differs from the blank record.
pub fn navaid_from_cells(cells: &Vec<String>) -> (r: Result<Option<NavAid>>)
    ensures
        navaid_row_view(r) == navaid_of_row(string_views(cells@)),
{
    let ghost model = string_views(cells@);
    let mut acc = NavAid::blank();
    let mut i: usize = 0;
    while i < cells.len()
        invariant
            i <= cells.len(),
            model == string_views(cells@),
            navaid_after_cells(model, i as nat) == RowState::Filling(acc@),
        decreases cells.len() - i,
    {
        proof {
            assert(model[i as int] == cells@[i as int]@);
        }
        if i == 0 {
            let text = clean(cells[i].as_str());
            let chars = to_chars(text.as_str());
            let lines = split(&chars, '\n');
            proof {
                assert(views(lines@)[0] == lines@[0]@);
                if lines@.len() > 1 {
                    assert(views(lines@)[1] == lines@[1]@);
                }
            }
            let name = trimmed(&lines[0]);
            let label = if lines.len() > 1 {
                trimmed(&lines[1])
            } else {
                Vec::new()
            };
            match kind_from_label(&label) {
                Some(kind) => {
                    acc.name = to_text(&name);
                    acc.kind = kind;
                },
                None => {
                    if label.len() == 0 {
                        proof {
                            lemma_stays(model, (i + 1) as nat, cells.len() as nat);
                        }
                        return Ok(None);
                    } else {
                        proof {
                            lemma_stays(model, (i + 1) as nat, cells.len() as nat);
                        }
                        return Err(Error::UnknownNavAidKind(to_text(&label)));
                    }
                },
            }
        } else if i == 1 {
            acc.id = clean(cells[i].as_str());
        } else if i == 2 {
            let text = clean(cells[i].as_str());
            match parse_frequency(text.as_str()) {
                Ok(khz) => {
                    acc.frequency_khz = khz;
                },
                Err(e) => {
                    proof {
                        lemma_stays(model, (i + 1) as nat, cells.len() as nat);
                    }
                    return Err(e);
                },
            }
        } else if i == 4 {
            let text = clean(cells[i].as_str());
            match parse_latlong(text.as_str()) {
                Ok((lat, lon)) => {
                    if let Some(a) = lat {
                        acc.latitude = a;
                    }
                    if let Some(a) = lon {
                        acc.longitude = a;
                    }
                },
                Err(e) => {
                    proof {
                        lemma_stays(model, (i + 1) as nat, cells.len() as nat);
                    }
                    return Err(e);
                },
            }
        } else if i == 5 {
            let text = clean(cells[i].as_str());
            acc.elevation = match parse_elevation(text.as_str()) {
                Ok(feet) => feet,
                Err(_) => 0,
            };
        }
        i += 1;
    }
    if acc.is_blank() {
        Ok(None)
    } else {
        Ok(Some(acc))
    }
}

/// Once a row is skipped or has failed, further cells change nothing.
pub proof fn lemma_stays(cells: Seq<Seq<char>>, n: nat, m: nat)
    requires
        1 <= n <= m <= cells.len(),
        !(navaid_after_cells(cells, n) is Filling),
    ensures
        navaid_after_cells(cells, m) == navaid_after_cells(cells, n),
    decreases m - n,
{
    if n < m {
        lemma_stays(cells, n, (m - 1) as nat);
    }
}

/// The navaids of the rows of a table, in the order of the rows. The first
/// row that cannot be read ends the extraction with its error.
pub fn navaids_from_rows(rows: &Vec<Vec<String>>) -> (r: Result<Vec<NavAid>>)
    ensures
        navaids_result_view(r) == navaids_of_rows(table_view(rows@), rows@.len()),
{
    let ghost model = table_view(rows@);
    let mut out: Vec<NavAid> = Vec::new();
    let mut i: usize = 0;
    proof {
        assert(navaid_views(out@) =~= Seq::<NavAidView>::empty());
    }
    while i < rows.len()
        invariant
            i <= rows.len(),
            model == table_view(rows@),
            navaids_of_rows(model, i as nat) == Ok::<Seq<NavAidView>, ErrorView>(
                navaid_views(out@),
            ),
        decreases rows.len() - i,
    {
        proof {
            assert(model[i as int] == string_views(rows@[i as int]@));
        }
        match navaid_from_cells(&rows[i]) {
            Ok(Some(record)) => {
                proof {
                    assert(navaid_views(out@.push(record)) =~= navaid_views(out@).push(record@));
                }
                out.push(record);
            },
            Ok(None) => {},
            Err(e) => {
                proof {
                    lemma_rows_fail(model, (i + 1) as nat, rows.len() as nat);
                }
                return Err(e);
            },
        }
        i += 1;
    }
    Ok(out)
}

/// Once a row has failed, further rows change nothing.
pub proof fn lemma_rows_fail(rows: Seq<Seq<Seq<char>>>, n: nat, m: nat)
    requires
        1 <= n <= m <= rows.len(),
        navaids_of_rows(rows, n) is Err,
    ensures
        navaids_of_rows(rows, m) == navaids_of_rows(rows, n),
    decreases m - n,
{
    if n < m {
        lemma_rows_fail(rows, n, (m - 1) as nat);
    }
}

/// The navaids of a page: one for each row of the first table body that is
/// a data row.
pub fn parse_navaids(data: &str) -> (r: Result<Vec<NavAid>>)
    ensures
        navaids_result_view(r) == navaids_of_page(data@),
{
    match base_table(data, NAVAID_ROW_SELECTOR) {
        Ok(rows) => navaids_from_rows(&rows),
        Err(e) => Err(e),
    }
}

impl<'a> Parser<'a> for Navaids {
    type Output = Navaids;

    fn parse(data: &'a str) -> (r: Result<Navaids>)
        ensures
            navaids_result_view(r) == navaids_of_page(data@),
    {
        parse_navaids(data)
    }
}

/// Parsing the same page twice gives the same records: the outcome depends
/// on the markup alone.
pub proof fn lemma_navaids_repeatable(
    data: Seq<char>,
    first: Result<Vec<NavAid>>,
    second: Result<Vec<NavAid>>,
)
    requires
        navaids_result_view(first) == navaids_of_page(data),
        navaids_result_view(second) == navaids_of_page(data),
    ensures
        navaids_result_view(first) == navaids_result_view(second),
        first is Ok <==> second is Ok,
        first matches Ok(a) ==> second matches Ok(b) && navaid_views(a@) == navaid_views(b@),
{
}

/// A row whose elevation cell cannot be read still gives its record, with
/// the elevation 0.
pub proof fn lemma_elevation_defaults(acc: NavAidView, cell: Seq<char>)
    requires
        elevation_of_text(clean_text(cell)) is Err,
    ensures
        navaid_after_cell(acc, 5, cell) == RowState::Filling(NavAidView { elevation: 0, ..acc }),
{
}

} // verus!
