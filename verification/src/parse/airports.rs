//! The airport pages: the list of airports in the table of contents, and the
//! page of a single airport.

use crate::document::{
    hits, hits_within, markup_at, markups_at, positions, rows_of_table, string_views, table_view,
    Document,
};
use crate::error::{Error, ErrorView, Result};
use crate::html::{
    markup_attribute, markup_edges, markup_inner_html, markup_matches, option_views, TreeEdge,
};
use crate::parse::fields::{
    elevation_of_text, latlong_of_text, match_view, parse_elevation, parse_latlong,
};
use crate::parse::{clean, clean_text, Parser, BAD_SELECTOR};
use crate::pattern::{captures, group, group_text, regex_captures};
use crate::text::{
    ends_with, has_suffix, split, split_on, to_chars, to_text, trim, trimmed, views,
};
use crate::types::{Airport, AirportView, Chart, ChartView, chart_views};
use vstd::prelude::*;

verus! {

/// A list of airports.
pub type Airports = Vec<Airport>;

/// The selector of an entry of the list of airports.
pub const ENTRY_SELECTOR: &'static str = ".toc-block:nth-of-type(2) > .toc-block a";

/// An entry of the list: four capital letters, a dash or none, and the name.
pub const ENTRY_PATTERN: &'static str = r"^([A-Z]{4})\s*—?\s*(.*)$";

/// The ICAO code and the name that a match of the entry pattern gives.
pub open spec fn entry_of(found: Option<Seq<Option<Seq<char>>>>) -> Option<
    (Seq<char>, Seq<char>),
> {
    match found {
        Some(groups) => match (group_text(groups, 1), group_text(groups, 2)) {
            (Some(icao), Some(name)) => Some((icao, name)),
            _ => None,
        },
        None => None,
    }
}

/// The airport of an entry of the list, given the inner markup of its
/// anchor: the ICAO code and the name, and nothing else.
pub open spec fn airport_of_entry(cell: Seq<char>) -> Option<AirportView> {
    match entry_of(regex_captures(ENTRY_PATTERN@, clean_text(cell))) {
        Some((icao, name)) => Some(AirportView { icao, name, ..AirportView::blank() }),
        None => None,
    }
}

/// The airports of the first `n` entries, in order; an entry that is no
/// airport gives none.
pub open spec fn airports_of_entries(cells: Seq<Seq<char>>, n: nat) -> Seq<AirportView>
    decreases n,
{
    if n == 0 || n > cells.len() {
        Seq::empty()
    } else {
        match airport_of_entry(cells[n - 1]) {
            Some(airport) => airports_of_entries(cells, (n - 1) as nat).push(airport),
            None => airports_of_entries(cells, (n - 1) as nat),
        }
    }
}

/// The entries of the list of a page, as inner markup.
pub open spec fn page_entries(page: Seq<char>) -> std::result::Result<Seq<Seq<char>>, ErrorView> {
    match markup_matches(page, false, ENTRY_SELECTOR@) {
        Some(entries) => Ok(
            markups_at(
                markup_inner_html(page, false),
                hits(entries, 0, markup_edges(page, false).len() as int),
            ),
        ),
        None => Err(ErrorView::CannotScrapeData(BAD_SELECTOR@)),
    }
}

/// The airports that the table of contents lists.
pub open spec fn airport_list_of_page(page: Seq<char>) -> std::result::Result<
    Seq<AirportView>,
    ErrorView,
> {
    match page_entries(page) {
        Ok(cells) => Ok(airports_of_entries(cells, cells.len())),
        Err(e) => Err(e),
    }
}

/// The views of a sequence of airports.
pub open spec fn airport_views(v: Seq<Airport>) -> Seq<AirportView> {
    Seq::new(v.len(), |i: int| v[i]@)
}

/// What the result of an extraction of the list holds, as plain values.
pub open spec fn airports_result_view(r: Result<Vec<Airport>>) -> std::result::Result<
    Seq<AirportView>,
    ErrorView,
> {
    match r {
        Ok(v) => Ok(airport_views(v@)),
        Err(e) => Err(e@),
    }
}

/// The airport that a match of the entry pattern gives: the ICAO code and
/// the name, with every other field blank.
pub fn airport_from_captures(found: Option<Vec<Option<String>>>) -> (r: Option<Airport>)
    ensures
        match r {
            Some(airport) => entry_of(match_view(found)) == Some(
                (airport@.icao, airport@.name),
            ) && airport@ == (AirportView {
                icao: airport@.icao,
                name: airport@.name,
                ..AirportView::blank()
            }),
            None => entry_of(match_view(found)) is None,
        },
{
    match found {
        Some(groups) => match (group(&groups, 1), group(&groups, 2)) {
            (Some(icao), Some(name)) => {
                let mut airport = Airport::blank();
                airport.icao = to_text(&icao);
                airport.name = to_text(&name);
                Some(airport)
            },
            _ => None,
        },
        None => None,
    }
}

/// The airports of the entries of a list, in order.
pub fn airports_from_entries(cells: &Vec<String>) -> (r: Vec<Airport>)
    ensures
        airport_views(r@) == airports_of_entries(string_views(cells@), cells@.len()),
{
    let ghost model = string_views(cells@);
    let mut out: Vec<Airport> = Vec::new();
    let mut i: usize = 0;
    proof {
        assert(airport_views(out@) =~= Seq::<AirportView>::empty());
    }
    while i < cells.len()
        invariant
            i <= cells.len(),
            model == string_views(cells@),
            airport_views(out@) == airports_of_entries(model, i as nat),
        decreases cells.len() - i,
    {
        proof {
            assert(model[i as int] == cells@[i as int]@);
        }
        let text = clean(cells[i].as_str());
        match airport_from_captures(captures(ENTRY_PATTERN, text.as_str())) {
            Some(airport) => {
                proof {
                    assert(airport_views(out@.push(airport)) =~= airport_views(out@).push(
                        airport@,
                    ));
                }
                out.push(airport);
            },
            None => {},
        }
        i += 1;
    }
    out
}

/// The airports that a table-of-contents page lists. Only the ICAO code and
/// the name of each are filled; the rest is on the page of the airport.
pub fn parse_airport_list(data: &str) -> (r: Result<Vec<Airport>>)
    ensures
        airports_result_view(r) == airport_list_of_page(data@),
{
    let doc = Document::parse(data);
    match doc.matches(ENTRY_SELECTOR) {
        Some(entries) => {
            let at = doc.select(&entries);
            let cells = doc.inner_html_of(&at);
            Ok(airports_from_entries(&cells))
        },
        None => Err(Error::CannotScrapeData(BAD_SELECTOR)),
    }
}

/// The selector of a container.
pub const CONTAINER_SELECTOR: &'static str = "div";

/// The selector of the title of an airport page.
pub const TITLE_SELECTOR: &'static str = ".TitleAD";

/// The selector of the first row of a table.
pub const FIRST_ROW_SELECTOR: &'static str = "tr:nth-child(1)";

/// The selector of the third row of a table.
pub const THIRD_ROW_SELECTOR: &'static str = "tr:nth-child(3)";

/// The selector of the cell of a row that holds its value.
pub const VALUE_SELECTOR: &'static str = "td:last-child";

/// The selector of a cell.
pub const CHART_CELL_SELECTOR: &'static str = "td";

/// The selector of a hyperlink.
pub const LINK_SELECTOR: &'static str = "a";

/// The end of the identifier of the section that holds the data table.
pub const DATA_SECTION_SUFFIX: &'static str = "-2.2";

/// The end of the identifier of the section that lists the charts.
pub const CHART_SECTION_SUFFIX: &'static str = "-2.24";

/// The reason given where a page has no container with a title.
pub const NO_TITLE: &'static str = "airport title not present";

/// The reason given where the data section lacks a row or its value cell.
pub const NO_AIRPORT_DATA: &'static str = "airport data table not present";

/// The reason given where the cell after a chart title holds no hyperlink
/// with a target.
pub const NO_CHART_LINK: &'static str = "chart link not present";

/// The name of the title field in an error.
pub const TITLE_FIELD: &'static str = "title";

/// What a section of an airport page is for.
pub enum SectionKind {
    /// It holds the data table.
    Data,
    /// It lists the charts.
    Charts,
    /// It is not read.
    Other,
}

/// What a section is for, by the end of its identifier.
pub open spec fn section_kind(id: Option<Seq<char>>) -> SectionKind {
    match id {
        Some(id) => if has_suffix(id, DATA_SECTION_SUFFIX@) {
            SectionKind::Data
        } else if has_suffix(id, CHART_SECTION_SUFFIX@) {
            SectionKind::Charts
        } else {
            SectionKind::Other
        },
        None => SectionKind::Other,
    }
}

/// What a section of an airport page holds, as far as it is read. Of the
/// data section: for each first row and for each third row of a table, the
/// inner markup of its value cells. Of the chart section: the inner markup
/// of each cell and, for each cell, the target of each hyperlink in it.
pub struct AirportSection {
    pub id: Option<String>,
    pub position: Vec<Vec<String>>,
    pub elevation: Vec<Vec<String>>,
    pub cells: Vec<String>,
    pub links: Vec<Vec<Option<String>>>,
}

/// What an [`AirportSection`] holds, as plain values.
pub struct AirportSectionView {
    pub id: Option<Seq<char>>,
    pub position: Seq<Seq<Seq<char>>>,
    pub elevation: Seq<Seq<Seq<char>>>,
    pub cells: Seq<Seq<char>>,
    pub links: Seq<Seq<Option<Seq<char>>>>,
}

/// The views of the hyperlink targets of each cell.
pub open spec fn link_views(v: Seq<Vec<Option<String>>>) -> Seq<Seq<Option<Seq<char>>>> {
    Seq::new(v.len(), |i: int| option_views(v[i]@))
}

impl View for AirportSection {
    type V = AirportSectionView;

    open spec fn view(&self) -> AirportSectionView {
        AirportSectionView {
            id: match self.id {
                Some(s) => Some(s@),
                None => None,
            },
            position: table_view(self.position@),
            elevation: table_view(self.elevation@),
            cells: string_views(self.cells@),
            links: link_views(self.links@),
        }
    }
}

/// What an airport page holds: the inner markup of its title and its
/// sections in document order.
pub struct AirportPage {
    pub title: String,
    pub sections: Vec<AirportSection>,
}

/// What an [`AirportPage`] holds, as plain values.
pub struct AirportPageView {
    pub title: Seq<char>,
    pub sections: Seq<AirportSectionView>,
}

/// The views of a sequence of sections.
pub open spec fn section_views(v: Seq<AirportSection>) -> Seq<AirportSectionView> {
    Seq::new(v.len(), |i: int| v[i]@)
}

impl View for AirportPage {
    type V = AirportPageView;

    open spec fn view(&self) -> AirportPageView {
        AirportPageView { title: self.title@, sections: section_views(self.sections@) }
    }
}

/// The ICAO code and the name of a title: the text before and after the
/// first dash, each trimmed. A title without a dash is an error.
pub open spec fn titled(title: Seq<char>) -> std::result::Result<(Seq<char>, Seq<char>), ErrorView> {
    let text = clean_text(title);
    let parts = split_on(text, '—');
    if parts.len() < 2 {
        Err(ErrorView::ParseError(TITLE_FIELD@, text))
    } else {
        Ok((trim(parts[0]), trim(parts[1])))
    }
}

/// The first cell of the first row, where there is one.
pub open spec fn first_cell(rows: Seq<Seq<Seq<char>>>) -> Option<Seq<char>> {
    if rows.len() > 0 && rows[0].len() > 0 {
        Some(rows[0][0])
    } else {
        None
    }
}

/// The airport after the data section: the coordinates of the first row and
/// the elevation of the third.
pub open spec fn airport_after_data(acc: AirportView, section: AirportSectionView)
    -> std::result::Result<AirportView, ErrorView> {
    match (first_cell(section.position), first_cell(section.elevation)) {
        (Some(position), Some(elevation)) => {
            let position_text = clean_text(position);
            let elevation_text = clean_text(elevation);
            match latlong_of_text(position_text) {
                Some((lat, lon)) => match elevation_of_text(elevation_text) {
                    Ok(feet) => Ok(
                        AirportView {
                            latitude: match lat {
                                Some(a) => a,
                                None => acc.latitude,
                            },
                            longitude: match lon {
                                Some(a) => a,
                                None => acc.longitude,
                            },
                            elevation: feet,
                            ..acc
                        },
                    ),
                    Err(what) => Err(ErrorView::ParseError(what, elevation_text)),
                },
                None => Err(ErrorView::ParseError("latlong"@, position_text)),
            }
        },
        _ => Err(ErrorView::CannotScrapeData(NO_AIRPORT_DATA@)),
    }
}

/// The target of the first hyperlink of cell `i`, where the cell has a
/// hyperlink and the first one has a target.
pub open spec fn link_of(links: Seq<Seq<Option<Seq<char>>>>, i: int) -> Option<Seq<char>> {
    if 0 <= i < links.len() && links[i].len() > 0 {
        links[i][0]
    } else {
        None
    }
}

/// The charts after the first `n` pairs of cells: of each pair the first
/// cell is the title and the second holds the hyperlink.
pub open spec fn charts_after_pairs(
    start: Seq<ChartView>,
    cells: Seq<Seq<char>>,
    links: Seq<Seq<Option<Seq<char>>>>,
    n: nat,
) -> std::result::Result<Seq<ChartView>, ErrorView>
    decreases n,
{
    if n == 0 || 2 * n > cells.len() {
        Ok(start)
    } else {
        match charts_after_pairs(start, cells, links, (n - 1) as nat) {
            Ok(before) => match link_of(links, 2 * n - 1) {
                Some(url) => Ok(
                    before.push(ChartView { title: clean_text(cells[2 * n - 2]), url }),
                ),
                None => Err(ErrorView::CannotScrapeData(NO_CHART_LINK@)),
            },
            Err(e) => Err(e),
        }
    }
}

/// The airport after one section.
pub open spec fn airport_after_section(acc: AirportView, section: AirportSectionView)
    -> std::result::Result<AirportView, ErrorView> {
    match section_kind(section.id) {
        SectionKind::Data => airport_after_data(acc, section),
        SectionKind::Charts => match charts_after_pairs(
            acc.charts,
            section.cells,
            section.links,
            section.cells.len() / 2,
        ) {
            Ok(charts) => Ok(AirportView { charts, ..acc }),
            Err(e) => Err(e),
        },
        SectionKind::Other => Ok(acc),
    }
}

/// The airport after the first `n` sections.
pub open spec fn airport_after_sections(
    start: AirportView,
    sections: Seq<AirportSectionView>,
    n: nat,
) -> std::result::Result<AirportView, ErrorView>
    decreases n,
{
    if n == 0 || n > sections.len() {
        Ok(start)
    } else {
        match airport_after_sections(start, sections, (n - 1) as nat) {
            Ok(acc) => airport_after_section(acc, sections[n - 1]),
            Err(e) => Err(e),
        }
    }
}

/// The airport that a page gives.
pub open spec fn airport_of(page: AirportPageView) -> std::result::Result<AirportView, ErrorView> {
    match titled(page.title) {
        Ok((icao, name)) => airport_after_sections(
            AirportView { icao, name, ..AirportView::blank() },
            page.sections,
            page.sections.len(),
        ),
        Err(e) => Err(e),
    }
}

/// What the result of an extraction of an airport holds, as plain values.
pub open spec fn airport_result_view(r: Result<Airport>) -> std::result::Result<
    AirportView,
    ErrorView,
> {
    match r {
        Ok(a) => Ok(a@),
        Err(e) => Err(e@),
    }
}

/// What a section is for.
fn kind_of_section(id: &Option<String>) -> (r: SectionKind)
    ensures
        r == section_kind(
            match *id {
                Some(s) => Some(s@),
                None => None,
            },
        ),
{
    match id {
        Some(s) => {
            let chars = to_chars(s.as_str());
            if ends_with(&chars, DATA_SECTION_SUFFIX) {
                SectionKind::Data
            } else if ends_with(&chars, CHART_SECTION_SUFFIX) {
                SectionKind::Charts
            } else {
                SectionKind::Other
            }
        },
        None => SectionKind::Other,
    }
}

/// The first cell of the first row, cleaned.
fn first_cell_text(rows: &Vec<Vec<String>>) -> (r: Option<String>)
    ensures
        match r {
            Some(text) => first_cell(table_view(rows@)) matches Some(cell) && text@ == clean_text(
                cell,
            ),
            None => first_cell(table_view(rows@)) is None,
        },
{
    if rows.len() > 0 && rows[0].len() > 0 {
        proof {
            assert(table_view(rows@)[0] == string_views(rows@[0]@));
            assert(string_views(rows@[0]@)[0] == rows@[0]@[0]@);
        }
        Some(clean(rows[0][0].as_str()))
    } else {
        None
    }
}

/// Once a pair has failed, further pairs change nothing.
pub proof fn lemma_pairs_fail(
    start: Seq<ChartView>,
    cells: Seq<Seq<char>>,
    links: Seq<Seq<Option<Seq<char>>>>,
    n: nat,
    m: nat,
)
    requires
        1 <= n <= m,
        2 * m <= cells.len(),
        charts_after_pairs(start, cells, links, n) is Err,
    ensures
        charts_after_pairs(start, cells, links, m) == charts_after_pairs(start, cells, links, n),
    decreases m - n,
{
    if n < m {
        lemma_pairs_fail(start, cells, links, n, (m - 1) as nat);
    }
}

/// Adds the charts of a chart section to `charts`: of each pair of cells the
/// first is the title and the second holds the hyperlink. A last cell
/// without a partner is not read.
pub fn charts_from_cells(
    charts: Vec<Chart>,
    cells: &Vec<String>,
    links: &Vec<Vec<Option<String>>>,
) -> (r: Result<Vec<Chart>>)
    ensures
        match r {
            Ok(all) => charts_after_pairs(
                chart_views(charts@),
                string_views(cells@),
                link_views(links@),
                (cells@.len() / 2) as nat,
            ) == Ok::<Seq<ChartView>, ErrorView>(chart_views(all@)),
            Err(e) => charts_after_pairs(
                chart_views(charts@),
                string_views(cells@),
                link_views(links@),
                (cells@.len() / 2) as nat,
            ) == Err::<Seq<ChartView>, ErrorView>(e@),
        },
{
    let ghost start = chart_views(charts@);
    let ghost cell_model = string_views(cells@);
    let ghost link_model = link_views(links@);
    let pairs = cells.len() / 2;
    let mut out = charts;
    let mut k: usize = 0;
    while k < pairs
        invariant
            k <= pairs,
            pairs == cells@.len() / 2,
            2 * pairs <= cells@.len() <= usize::MAX,
            start == chart_views(charts@),
            cell_model == string_views(cells@),
            link_model == link_views(links@),
            charts_after_pairs(start, cell_model, link_model, k as nat) == Ok::<
                Seq<ChartView>,
                ErrorView,
            >(chart_views(out@)),
        decreases pairs - k,
    {
        let title_at = 2 * k;
        let link_at = 2 * k + 1;
        proof {
            assert(cell_model[title_at as int] == cells@[title_at as int]@);
            if link_at < links@.len() {
                assert(link_model[link_at as int] == option_views(links@[link_at as int]@));
                if links@[link_at as int]@.len() > 0 {
                    assert(option_views(links@[link_at as int]@)[0] == (match links@[link_at as int]@[0] {
                        Some(s) => Some(s@),
                        None => None,
                    }));
                }
            }
            assert(2 * (k + 1) - 1 == link_at);
            assert(2 * (k + 1) - 2 == title_at);
        }
        let url = if link_at < links.len() && links[link_at].len() > 0 {
            match &links[link_at][0] {
                Some(target) => Some(target.clone()),
                None => None,
            }
        } else {
            None
        };
        match url {
            Some(url) => {
                let chart = Chart { title: clean(cells[title_at].as_str()), url };
                proof {
                    assert(chart_views(out@.push(chart)) =~= chart_views(out@).push(chart@));
                }
                out.push(chart);
            },
            None => {
                proof {
                    lemma_pairs_fail(start, cell_model, link_model, (k + 1) as nat, pairs as nat);
                }
                return Err(Error::CannotScrapeData(NO_CHART_LINK));
            },
        }
        k += 1;
    }
    Ok(out)
}

/// The airport after one section.
fn airport_with_section(acc: Airport, section: &AirportSection) -> (r: Result<Airport>)
    ensures
        airport_result_view(r) == airport_after_section(acc@, section@),
{
    let mut acc = acc;
    match kind_of_section(&section.id) {
        SectionKind::Data => {
            let position = first_cell_text(&section.position);
            let elevation = first_cell_text(&section.elevation);
            match (position, elevation) {
                (Some(position), Some(elevation)) => {
                    match parse_latlong(position.as_str()) {
                        Ok((lat, lon)) => match parse_elevation(elevation.as_str()) {
                            Ok(feet) => {
                                if let Some(a) = lat {
                                    acc.latitude = a;
                                }
                                if let Some(a) = lon {
                                    acc.longitude = a;
                                }
                                acc.elevation = feet;
                                Ok(acc)
                            },
                            Err(e) => Err(e),
                        },
                        Err(e) => Err(e),
                    }
                },
                _ => Err(Error::CannotScrapeData(NO_AIRPORT_DATA)),
            }
        },
        SectionKind::Charts => {
            let Airport { icao, name, latitude, longitude, elevation, charts } = acc;
            match charts_from_cells(charts, &section.cells, &section.links) {
                Ok(charts) => Ok(Airport { icao, name, latitude, longitude, elevation, charts }),
                Err(e) => Err(e),
            }
        },
        SectionKind::Other => Ok(acc),
    }
}

/// Once a section has failed, further sections change nothing.
pub proof fn lemma_sections_fail(
    start: AirportView,
    sections: Seq<AirportSectionView>,
    n: nat,
    m: nat,
)
    requires
        1 <= n <= m <= sections.len(),
        airport_after_sections(start, sections, n) is Err,
    ensures
        airport_after_sections(start, sections, m) == airport_after_sections(start, sections, n),
    decreases m - n,
{
    if n < m {
        lemma_sections_fail(start, sections, n, (m - 1) as nat);
    }
}

/// The airport that a page gives: the ICAO code and the name of its title,
/// the coordinates and the elevation of its data section, and the charts of
/// its chart section in the order of the page.
pub fn airport_from_page(page: &AirportPage) -> (r: Result<Airport>)
    ensures
        airport_result_view(r) == airport_of(page@),
{
    let text = clean(page.title.as_str());
    let chars = to_chars(text.as_str());
    let parts = split(&chars, '—');
    if parts.len() < 2 {
        return Err(Error::ParseError(TITLE_FIELD, text));
    }
    proof {
        assert(views(parts@)[0] == parts@[0]@);
        assert(views(parts@)[1] == parts@[1]@);
    }
    let mut acc = Airport::blank();
    acc.icao = to_text(&trimmed(&parts[0]));
    acc.name = to_text(&trimmed(&parts[1]));
    let ghost start = acc@;
    let ghost model = section_views(page.sections@);
    let mut i: usize = 0;
    while i < page.sections.len()
        invariant
            i <= page.sections.len(),
            model == section_views(page.sections@),
            airport_of(page@) == airport_after_sections(start, model, page.sections@.len()),
            airport_after_sections(start, model, i as nat) == Ok::<AirportView, ErrorView>(acc@),
        decreases page.sections.len() - i,
    {
        let ghost before = acc@;
        proof {
            assert(model[i as int] == page.sections@[i as int]@);
            assert(airport_after_sections(start, model, (i + 1) as nat) == airport_after_section(
                before,
                model[i as int],
            ));
        }
        match airport_with_section(acc, &page.sections[i]) {
            Ok(next) => {
                acc = next;
            },
            Err(e) => {
                proof {
                    lemma_sections_fail(start, model, (i + 1) as nat, page.sections.len() as nat);
                }
                return Err(e);
            },
        }
        i += 1;
    }
    Ok(acc)
}

/// For each edge of the walk, what each of the selectors of an airport page
/// matches.
pub struct AirportMarks {
    pub containers: Vec<bool>,
    pub titles: Vec<bool>,
    pub first_rows: Vec<bool>,
    pub third_rows: Vec<bool>,
    pub values: Vec<bool>,
    pub cells: Vec<bool>,
    pub links: Vec<bool>,
}

/// What [`AirportMarks`] holds, as plain values.
pub struct AirportMarksView {
    pub containers: Seq<bool>,
    pub titles: Seq<bool>,
    pub first_rows: Seq<bool>,
    pub third_rows: Seq<bool>,
    pub values: Seq<bool>,
    pub cells: Seq<bool>,
    pub links: Seq<bool>,
}

impl View for AirportMarks {
    type V = AirportMarksView;

    open spec fn view(&self) -> AirportMarksView {
        AirportMarksView {
            containers: self.containers@,
            titles: self.titles@,
            first_rows: self.first_rows@,
            third_rows: self.third_rows@,
            values: self.values@,
            cells: self.cells@,
            links: self.links@,
        }
    }
}

/// The attribute value at `at`, where an element that has the attribute is
/// entered there.
pub open spec fn value_at(values: Seq<Option<Seq<char>>>, at: int) -> Option<Seq<char>> {
    if 0 <= at < values.len() {
        values[at]
    } else {
        None
    }
}

/// The attribute values at each of the positions `at`.
pub open spec fn values_at(values: Seq<Option<Seq<char>>>, at: Seq<int>) -> Seq<
    Option<Seq<char>>,
> {
    Seq::new(at.len(), |j: int| value_at(values, at[j]))
}

/// For each of the cells at `cells`, the target of each hyperlink below it.
pub open spec fn links_of_cells(
    edges: Seq<TreeEdge>,
    targets: Seq<Option<Seq<char>>>,
    links: Seq<bool>,
    cells: Seq<int>,
) -> Seq<Seq<Option<Seq<char>>>> {
    Seq::new(cells.len(), |i: int| values_at(targets, hits_within(edges, links, cells[i])))
}

/// The section entered at `at`, read as far as its kind asks.
pub open spec fn section_at(
    edges: Seq<TreeEdge>,
    inner: Seq<Option<Seq<char>>>,
    ids: Seq<Option<Seq<char>>>,
    targets: Seq<Option<Seq<char>>>,
    marks: AirportMarksView,
    at: int,
) -> AirportSectionView {
    let id = value_at(ids, at);
    match section_kind(id) {
        SectionKind::Data => AirportSectionView {
            id,
            position: rows_of_table(edges, inner, marks.first_rows, marks.values, at),
            elevation: rows_of_table(edges, inner, marks.third_rows, marks.values, at),
            cells: Seq::empty(),
            links: Seq::empty(),
        },
        SectionKind::Charts => AirportSectionView {
            id,
            position: Seq::empty(),
            elevation: Seq::empty(),
            cells: markups_at(inner, hits_within(edges, marks.cells, at)),
            links: links_of_cells(edges, targets, marks.links, hits_within(edges, marks.cells, at)),
        },
        SectionKind::Other => AirportSectionView {
            id,
            position: Seq::empty(),
            elevation: Seq::empty(),
            cells: Seq::empty(),
            links: Seq::empty(),
        },
    }
}

/// The first of the containers from the `k`-th on that has a title below it.
pub open spec fn first_titled(
    edges: Seq<TreeEdge>,
    titles: Seq<bool>,
    containers: Seq<int>,
    k: nat,
) -> Option<int>
    decreases containers.len() - k,
{
    if k >= containers.len() {
        None
    } else if hits_within(edges, titles, containers[k as int]).len() > 0 {
        Some(containers[k as int])
    } else {
        first_titled(edges, titles, containers, k + 1)
    }
}

/// What a page holds, given the walk, the inner markup, the identifiers and
/// the hyperlink targets of its elements, and what the selectors match: the
/// title of the first container that has one, and the containers below that
/// container as sections. An error where no container has a title.
pub open spec fn page_of_marks(
    edges: Seq<TreeEdge>,
    inner: Seq<Option<Seq<char>>>,
    ids: Seq<Option<Seq<char>>>,
    targets: Seq<Option<Seq<char>>>,
    marks: AirportMarksView,
) -> std::result::Result<AirportPageView, ErrorView> {
    let containers = hits(marks.containers, 0, edges.len() as int);
    match first_titled(edges, marks.titles, containers, 0) {
        Some(main) => {
            let at = hits_within(edges, marks.containers, main);
            Ok(
                AirportPageView {
                    title: markup_at(inner, hits_within(edges, marks.titles, main)[0]),
                    sections: Seq::new(
                        at.len(),
                        |k: int| section_at(edges, inner, ids, targets, marks, at[k]),
                    ),
                },
            )
        },
        None => Err(ErrorView::CannotScrapeData(NO_TITLE@)),
    }
}

/// What the selectors of an airport page match on a page; `None` where one
/// of them is not understood.
pub open spec fn page_marks(page: Seq<char>) -> Option<AirportMarksView> {
    match (
        markup_matches(page, false, CONTAINER_SELECTOR@),
        markup_matches(page, false, TITLE_SELECTOR@),
        markup_matches(page, false, FIRST_ROW_SELECTOR@),
        markup_matches(page, false, THIRD_ROW_SELECTOR@),
        markup_matches(page, false, VALUE_SELECTOR@),
        markup_matches(page, false, CHART_CELL_SELECTOR@),
        markup_matches(page, false, LINK_SELECTOR@),
    ) {
        (
            Some(containers),
            Some(titles),
            Some(first_rows),
            Some(third_rows),
            Some(values),
            Some(cells),
            Some(links),
        ) => Some(
            AirportMarksView { containers, titles, first_rows, third_rows, values, cells, links },
        ),
        _ => None,
    }
}

/// What an airport page holds.
pub open spec fn airport_page_of(page: Seq<char>) -> std::result::Result<
    AirportPageView,
    ErrorView,
> {
    match page_marks(page) {
        Some(marks) => page_of_marks(
            markup_edges(page, false),
            markup_inner_html(page, false),
            markup_attribute(page, false, "id"@),
            markup_attribute(page, false, "href"@),
            marks,
        ),
        None => Err(ErrorView::CannotScrapeData(BAD_SELECTOR@)),
    }
}

/// The airport of an airport page.
pub open spec fn airport_of_page(page: Seq<char>) -> std::result::Result<AirportView, ErrorView> {
    match airport_page_of(page) {
        Ok(model) => airport_of(model),
        Err(e) => Err(e),
    }
}

/// The attribute values at each of the positions `at`.
fn values_of(values: &Vec<Option<String>>, at: &Vec<usize>) -> (out: Vec<Option<String>>)
    ensures
        option_views(out@) == values_at(option_views(values@), positions(at@)),
{
    let mut out: Vec<Option<String>> = Vec::new();
    let mut i: usize = 0;
    while i < at.len()
        invariant
            i <= at.len(),
            out@.len() == i,
            forall|k: int|
                0 <= k < i ==> option_views(out@)[k] == value_at(
                    option_views(values@),
                    #[trigger] at@[k] as int,
                ),
        decreases at.len() - i,
    {
        let j = at[i];
        let value = if j < values.len() {
            match &values[j] {
                Some(s) => Some(s.clone()),
                None => None,
            }
        } else {
            None
        };
        proof {
            let grown = out@.push(value);
            assert forall|k: int| 0 <= k < i + 1 implies option_views(grown)[k] == value_at(
                option_views(values@),
                #[trigger] at@[k] as int,
            ) by {
                if k < i {
                    assert(option_views(grown)[k] == option_views(out@)[k]);
                }
            }
        }
        out.push(value);
        i += 1;
    }
    proof {
        assert(option_views(out@) =~= values_at(option_views(values@), positions(at@)));
    }
    out
}

/// The section entered at `at`.
fn section_from(
    doc: &Document,
    ids: &Vec<Option<String>>,
    targets: &Vec<Option<String>>,
    marks: &AirportMarks,
    at: usize,
) -> (r: AirportSection)
    requires
        at < doc.edges@.len(),
    ensures
        r@ == section_at(
            doc.edges@,
            option_views(doc.inner@),
            option_views(ids@),
            option_views(targets@),
            marks@,
            at as int,
        ),
{
    let id = if at < ids.len() {
        match &ids[at] {
            Some(s) => Some(s.clone()),
            None => None,
        }
    } else {
        None
    };
    match kind_of_section(&id) {
        SectionKind::Data => {
            let r = AirportSection {
                id,
                position: doc.table(at, &marks.first_rows, &marks.values),
                elevation: doc.table(at, &marks.third_rows, &marks.values),
                cells: Vec::new(),
                links: Vec::new(),
            };
            proof {
                assert(r@.cells =~= Seq::<Seq<char>>::empty());
                assert(r@.links =~= Seq::<Seq<Option<Seq<char>>>>::empty());
            }
            r
        },
        SectionKind::Charts => {
            let cells = doc.select_within(&marks.cells, at);
            let mut links: Vec<Vec<Option<String>>> = Vec::new();
            let mut i: usize = 0;
            while i < cells.len()
                invariant
                    i <= cells.len(),
                    links@.len() == i,
                    forall|k: int| 0 <= k < cells@.len() ==> #[trigger] cells@[k] < doc.edges@.len(),
                    forall|k: int|
                        0 <= k < i ==> option_views((#[trigger] links@[k])@) == values_at(
                            option_views(targets@),
                            hits_within(doc.edges@, marks.links@, cells@[k] as int),
                        ),
                decreases cells.len() - i,
            {
                let anchors = doc.select_within(&marks.links, cells[i]);
                links.push(values_of(targets, &anchors));
                i += 1;
            }
            let r = AirportSection {
                id,
                position: Vec::new(),
                elevation: Vec::new(),
                cells: doc.inner_html_of(&cells),
                links,
            };
            proof {
                assert(r@.position =~= Seq::<Seq<Seq<char>>>::empty());
                assert(r@.elevation =~= Seq::<Seq<Seq<char>>>::empty());
                assert(positions(cells@).len() == cells@.len());
                assert forall|k: int| 0 <= k < cells@.len() implies link_views(links@)[k]
                    == links_of_cells(
                    doc.edges@,
                    option_views(targets@),
                    marks.links@,
                    positions(cells@),
                )[k] by {
                    assert(positions(cells@)[k] == cells@[k] as int);
                }
                assert(r@.links =~= links_of_cells(
                    doc.edges@,
                    option_views(targets@),
                    marks.links@,
                    positions(cells@),
                ));
            }
            r
        },
        SectionKind::Other => {
            let r = AirportSection {
                id,
                position: Vec::new(),
                elevation: Vec::new(),
                cells: Vec::new(),
                links: Vec::new(),
            };
            proof {
                assert(r@.position =~= Seq::<Seq<Seq<char>>>::empty());
                assert(r@.elevation =~= Seq::<Seq<Seq<char>>>::empty());
                assert(r@.cells =~= Seq::<Seq<char>>::empty());
                assert(r@.links =~= Seq::<Seq<Option<Seq<char>>>>::empty());
            }
            r
        },
    }
}

/// What a parsed page holds, given the identifiers and the hyperlink targets
/// of its elements and what the selectors match.
pub fn page_from_marks(
    doc: &Document,
    ids: &Vec<Option<String>>,
    targets: &Vec<Option<String>>,
    marks: &AirportMarks,
) -> (r: Result<AirportPage>)
    ensures
        match r {
            Ok(page) => page_of_marks(
                doc.edges@,
                option_views(doc.inner@),
                option_views(ids@),
                option_views(targets@),
                marks@,
            ) == Ok::<AirportPageView, ErrorView>(page@),
            Err(e) => page_of_marks(
                doc.edges@,
                option_views(doc.inner@),
                option_views(ids@),
                option_views(targets@),
                marks@,
            ) == Err::<AirportPageView, ErrorView>(e@),
        },
{
    let containers = doc.select(&marks.containers);
    let ghost model = positions(containers@);
    let mut k: usize = 0;
    while k < containers.len()
        invariant
            k <= containers.len(),
            model == positions(containers@),
            model == hits(marks.containers@, 0, doc.edges@.len() as int),
            forall|j: int|
                0 <= j < containers@.len() ==> #[trigger] containers@[j] < doc.edges@.len(),
            first_titled(doc.edges@, marks.titles@, model, 0) == first_titled(
                doc.edges@,
                marks.titles@,
                model,
                k as nat,
            ),
        decreases containers.len() - k,
    {
        let main = containers[k];
        proof {
            assert(model[k as int] == main as int);
        }
        let titles = doc.select_within(&marks.titles, main);
        if titles.len() > 0 {
            proof {
                assert(positions(titles@).len() == titles@.len());
                assert(positions(titles@)[0] == titles@[0] as int);
            }
            let title = doc.inner_html(titles[0]);
            let at = doc.select_within(&marks.containers, main);
            let mut sections: Vec<AirportSection> = Vec::new();
            let mut i: usize = 0;
            while i < at.len()
                invariant
                    i <= at.len(),
                    sections@.len() == i,
                    forall|j: int| 0 <= j < at@.len() ==> #[trigger] at@[j] < doc.edges@.len(),
                    forall|j: int|
                        0 <= j < i ==> (#[trigger] sections@[j])@ == section_at(
                            doc.edges@,
                            option_views(doc.inner@),
                            option_views(ids@),
                            option_views(targets@),
                            marks@,
                            at@[j] as int,
                        ),
                decreases at.len() - i,
            {
                sections.push(section_from(doc, ids, targets, marks, at[i]));
                i += 1;
            }
            let page = AirportPage { title, sections };
            proof {
                let expected = Seq::new(
                    positions(at@).len(),
                    |j: int|
                        section_at(
                            doc.edges@,
                            option_views(doc.inner@),
                            option_views(ids@),
                            option_views(targets@),
                            marks@,
                            positions(at@)[j],
                        ),
                );
                assert(positions(at@).len() == at@.len());
                assert forall|j: int| 0 <= j < at@.len() implies section_views(sections@)[j]
                    == expected[j] by {
                    assert(positions(at@)[j] == at@[j] as int);
                }
                assert(section_views(sections@) =~= expected);
            }
            return Ok(page);
        }
        proof {
            assert(positions(titles@).len() == titles@.len());
        }
        k += 1;
    }
    Err(Error::CannotScrapeData(NO_TITLE))
}

/// What an airport page holds: the title of the first container that has
/// one, and the containers below it as sections.
pub fn read_airport_page(data: &str) -> (r: Result<AirportPage>)
    ensures
        match r {
            Ok(page) => airport_page_of(data@) == Ok::<AirportPageView, ErrorView>(page@),
            Err(e) => airport_page_of(data@) == Err::<AirportPageView, ErrorView>(e@),
        },
{
    let doc = Document::parse(data);
    let found = (
        doc.matches(CONTAINER_SELECTOR),
        doc.matches(TITLE_SELECTOR),
        doc.matches(FIRST_ROW_SELECTOR),
        doc.matches(THIRD_ROW_SELECTOR),
        doc.matches(VALUE_SELECTOR),
        doc.matches(CHART_CELL_SELECTOR),
        doc.matches(LINK_SELECTOR),
    );
    match found {
        (
            Some(containers),
            Some(titles),
            Some(first_rows),
            Some(third_rows),
            Some(values),
            Some(cells),
            Some(links),
        ) => {
            let marks = AirportMarks {
                containers,
                titles,
                first_rows,
                third_rows,
                values,
                cells,
                links,
            };
            let ids = doc.attributes("id");
            let targets = doc.attributes("href");
            page_from_marks(&doc, &ids, &targets, &marks)
        },
        _ => Err(Error::CannotScrapeData(BAD_SELECTOR)),
    }
}

/// The airport of an airport page. Only the first container with a title is
/// read.
pub fn parse_airport(data: &str) -> (r: Result<Airport>)
    ensures
        airport_result_view(r) == airport_of_page(data@),
{
    match read_airport_page(data) {
        Ok(page) => airport_from_page(&page),
        Err(e) => Err(e),
    }
}

impl<'a> Parser<'a> for Airport {
    type Output = Airport;

    fn parse(data: &'a str) -> (r: Result<Airport>)
        ensures
            airport_result_view(r) == airport_of_page(data@),
    {
        parse_airport(data)
    }
}

} // verus!
