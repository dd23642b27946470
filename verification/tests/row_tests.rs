use eaip::error::Error;
use eaip::parse::airports::{
    airport_from_captures, airport_from_page, airports_from_entries, charts_from_cells,
    read_airport_page, AirportPage, AirportSection,
};
use eaip::parse::airways::{
    airway_from_block, airways_from_blocks, blocks_of, first_line_of,
    waypoint_code_from_captures, waypoint_code_from_cell, AirwayBlock,
};
use eaip::parse::base_table;
use eaip::parse::intersections::{
    coordinates_from_lines, intersection_from_cells, intersections_from_rows,
};
use eaip::parse::navaids::{navaid_from_cells, navaids_from_rows};
use eaip::types::{Chart, Degrees, NavAidKind};

fn strings(texts: &[&str]) -> Vec<String> {
    texts.iter().map(|t| t.to_string()).collect()
}

fn angle(negative: bool, numerator: u64) -> Degrees {
    Degrees { negative, numerator, denominator: 10000 }
}

#[test]
fn navaid_of_given_cells() {
    let cells = strings(&[
        " ABERDEEN <br> VOR/DME <br>0.95°W",
        "<span>ADN</span>",
        "113.55MHz",
        "this column is not read: 999 kHz",
        "571209N 0021153W",
        "30FT",
        "nor is this one",
    ]);
    let navaid = navaid_from_cells(&cells).unwrap().unwrap();
    assert_eq!(navaid.name(), "ABERDEEN");
    assert_eq!(navaid.kind(), NavAidKind::VORDME);
    assert_eq!(navaid.id(), "ADN");
    assert_eq!(navaid.frequency_khz(), 113550);
    assert_eq!(navaid.latitude(), angle(false, 571209));
    assert_eq!(navaid.longitude(), angle(true, 21153));
    assert_eq!(navaid.elevation(), 30);
}

#[test]
fn navaid_rows_that_give_no_record() {
    assert!(navaid_from_cells(&Vec::new()).unwrap().is_none());
    assert!(navaid_from_cells(&strings(&["HEADER"])).unwrap().is_none());
    assert!(navaid_from_cells(&strings(&["NAME<br>  ", "ID", "no frequency"])).unwrap().is_none());
    // A line break in front is trimmed away, so the kind is read as the name.
    assert!(navaid_from_cells(&strings(&["<br>VOR"])).unwrap().is_none());
    // A name and a kind are enough for a record.
    let navaid = navaid_from_cells(&strings(&["X<br>VOR"])).unwrap().unwrap();
    assert_eq!(navaid.name(), "X");
    assert_eq!(navaid.frequency_khz(), 0);
}

#[test]
fn navaid_row_with_partial_coordinates_and_bad_elevation() {
    let cells = strings(&["X<br>NDB", "X", "344 kHz", "", "0021153E", "unknown"]);
    let navaid = navaid_from_cells(&cells).unwrap().unwrap();
    assert_eq!(navaid.latitude(), Degrees::zero());
    assert_eq!(navaid.longitude(), angle(false, 21153));
    assert_eq!(navaid.elevation(), 0);
    let cells = strings(&["X<br>NDB", "X", "344 kHz", "", "nowhere"]);
    match navaid_from_cells(&cells) {
        Err(Error::ParseError(what, raw)) => {
            assert_eq!(what, "latlong");
            assert_eq!(raw, "nowhere");
        }
        other => panic!("unexpected: {:?}", other),
    }
}

#[test]
fn navaid_rows_stop_at_the_first_error() {
    let rows = vec![
        strings(&["A<br>VOR", "AAA", "112.00 MHz"]),
        strings(&["header"]),
        strings(&["B<br>XYZ", "BBB"]),
        strings(&["C<br>VOR", "CCC", "bad"]),
    ];
    match navaids_from_rows(&rows) {
        Err(Error::UnknownNavAidKind(label)) => assert_eq!(label, "XYZ"),
        other => panic!("unexpected: {:?}", other),
    }
    let navaids = navaids_from_rows(&rows[..2].to_vec()).unwrap();
    assert_eq!(navaids.len(), 1);
    assert_eq!(navaids[0].id(), "AAA");
    assert_eq!(navaids_from_rows(&Vec::new()).unwrap().len(), 0);
}

#[test]
fn intersection_of_given_cells() {
    let cells = strings(&["<b>ABBEW</b>", "503035N<br>0032815W", "not read"]);
    let found = intersection_from_cells(&cells).unwrap().unwrap();
    assert_eq!(found.designator(), "ABBEW");
    assert_eq!(found.latitude(), angle(false, 503035));
    assert_eq!(found.longitude(), angle(true, 32815));
    assert!(intersection_from_cells(&strings(&["", "503035N"])).unwrap().is_none());
    assert!(intersection_from_cells(&Vec::new()).unwrap().is_none());
    assert!(intersection_from_cells(&strings(&["ABBEW", "503035N<br>text"])).is_err());
    let only_name = intersection_from_cells(&strings(&["ABBEW"])).unwrap().unwrap();
    assert_eq!(only_name.latitude(), Degrees::zero());
}

#[test]
fn later_lines_replace_earlier_coordinates() {
    let lines: Vec<Vec<char>> =
        ["503035N 0032815W", "0010000E", "100000S"].iter().map(|l| l.chars().collect()).collect();
    let start = (Degrees::zero(), Degrees::zero());
    let (lat, lon) = coordinates_from_lines(start, &lines).unwrap();
    assert_eq!(lat, angle(true, 100000));
    assert_eq!(lon, angle(false, 10000));
    assert_eq!(coordinates_from_lines(start, &Vec::new()).unwrap(), start);
}

#[test]
fn intersection_rows_in_order() {
    let rows = vec![
        strings(&["ABBEW", "503035N 0032815W"]),
        strings(&[""]),
        strings(&["ABDAL", "512646N 0015149E"]),
    ];
    let found = intersections_from_rows(&rows).unwrap();
    assert_eq!(found.len(), 2);
    assert_eq!(found[0].designator(), "ABBEW");
    assert_eq!(found[1].designator(), "ABDAL");
}

#[test]
fn rows_of_the_first_table_body() {
    let page = "<table><tbody><tr><td>1</td><td>2</td></tr><tr class=\"x\"><td>3</td></tr></tbody></table>\
        <table><tbody><tr><td>second table</td></tr></tbody></table>";
    assert_eq!(base_table(page, "tr").unwrap(), vec![strings(&["1", "2"]), strings(&["3"])]);
    assert_eq!(base_table(page, "tr.x").unwrap(), vec![strings(&["3"])]);
    assert!(matches!(base_table(page, "tr[").unwrap_err(), Error::CannotScrapeData(_)));
    match base_table("<ul><li>x</li></ul>", "tr") {
        Err(Error::CannotScrapeData(reason)) => assert_eq!(reason, "base table not present"),
        other => panic!("unexpected: {:?}", other),
    }
}

fn block(designators: &[&str], waypoints: &[&str], uppers: &[&[&str]], lowers: &[&[&str]]) -> AirwayBlock {
    AirwayBlock {
        designators: strings(designators),
        waypoints: strings(waypoints),
        uppers: uppers.iter().map(|r| strings(r)).collect(),
        lowers: lowers.iter().map(|r| strings(r)).collect(),
    }
}

#[test]
fn two_waypoints_and_one_detail_row() {
    let b = block(
        &["L9<br>remark"],
        &["ABERDEEN VOR/DME (ADN)", "ABBEW"],
        &[&["FL 460", "second cell"]],
        &[&["FL 245"]],
    );
    let airway = airway_from_block(&b).unwrap();
    assert_eq!(airway.designator(), "L9");
    let w = airway.waypoints();
    assert_eq!(w.len(), 2);
    assert_eq!(w[0].designator(), "ADN");
    assert_eq!(w[0].upper_limit(), "FL 460");
    assert_eq!(w[0].lower_limit(), "FL 245");
    assert_eq!(w[1].designator(), "ABBEW");
    assert_eq!(w[1].upper_limit(), "");
    assert_eq!(w[1].lower_limit(), "");
}

#[test]
fn more_detail_rows_than_waypoints() {
    let b = block(&["N57"], &["ABBEW"], &[&["FL 100"], &["FL 200"]], &[&[], &["FL 50"]]);
    let airway = airway_from_block(&b).unwrap();
    let w = airway.waypoints();
    assert_eq!(w.len(), 1);
    assert_eq!(w[0].upper_limit(), "FL 100");
    assert_eq!(w[0].lower_limit(), "");
}

#[test]
fn blocks_that_give_no_airway() {
    assert!(airway_from_block(&block(&[], &["ABBEW"], &[], &[])).is_none());
    assert!(airway_from_block(&block(&[""], &["no code"], &[], &[])).is_none());
    assert!(airway_from_block(&block(&[""], &["ABBEW"], &[], &[])).is_some());
    let blocks = vec![block(&[], &[], &[], &[]), block(&["A1"], &[], &[], &[])];
    let airways = airways_from_blocks(&blocks);
    assert_eq!(airways.len(), 1);
    assert_eq!(airways[0].designator(), "A1");
}

#[test]
fn codes_of_waypoints() {
    assert_eq!(waypoint_code_from_cell("STRUMBLE VOR/DME ( STU )"), Some("STU".to_string()));
    // A navaid whose name starts like an intersection is still a navaid.
    assert_eq!(waypoint_code_from_cell("DIKAS NDB (DKS)"), Some("DKS".to_string()));
    assert_eq!(waypoint_code_from_cell("<b>DIKAS</b>"), Some("DIKAS".to_string()));
    assert_eq!(waypoint_code_from_cell("via DIKAS"), None);
    assert_eq!(waypoint_code_from_cell("Abcde"), None);
    let navaid = Some(vec![Some("(ADN)".to_string()), Some("ADN".to_string())]);
    let other = Some(vec![Some("ABBEW".to_string()), Some("ABBEW".to_string())]);
    assert_eq!(waypoint_code_from_captures(navaid, other.clone()), Some("ADN".to_string()));
    assert_eq!(waypoint_code_from_captures(None, other), Some("ABBEW".to_string()));
    assert_eq!(waypoint_code_from_captures(None, None), None);
    assert_eq!(waypoint_code_from_captures(Some(vec![None]), None), None);
}

#[test]
fn first_lines() {
    assert_eq!(first_line_of("UL9\n(RNAV 5)"), "UL9");
    assert_eq!(first_line_of("UL9"), "UL9");
    assert_eq!(first_line_of("\nUL9"), "");
    assert_eq!(first_line_of(""), "");
}

#[test]
fn blocks_of_a_page() {
    let page = "<table><tbody>\
        <tr class=\"Table-row-type-1\"><td>A1</td><td>other</td></tr>\
        <tr class=\"Table-row-type-2\"><td>x</td><td>ABBEW</td></tr>\
        <tr class=\"Table-row-type-3\"><td>1</td><td>2</td><td>3</td><td><table><tbody><tr>\
          <td class=\"Upper\">U</td><td class=\"Lower\">L</td></tr></tbody></table></td></tr>\
        </tbody></table>";
    let blocks = blocks_of(page).unwrap();
    // The outer table body and the one nested in the detail row.
    assert_eq!(blocks.len(), 2);
    assert_eq!(blocks[0].designators, strings(&["A1"]));
    assert_eq!(blocks[0].waypoints, strings(&["ABBEW"]));
    assert_eq!(blocks[0].uppers, vec![strings(&["U"])]);
    assert_eq!(blocks[0].lowers, vec![strings(&["L"])]);
    assert!(blocks[1].designators.is_empty());
}

fn section(id: Option<&str>) -> AirportSection {
    AirportSection {
        id: id.map(|s| s.to_string()),
        position: Vec::new(),
        elevation: Vec::new(),
        cells: Vec::new(),
        links: Vec::new(),
    }
}

fn data_section(position: &str, elevation: &str) -> AirportSection {
    AirportSection {
        position: vec![strings(&[position, "not read"]), strings(&["not read"])],
        elevation: vec![strings(&[elevation])],
        ..section(Some("EGBO-AD-2.2"))
    }
}

#[test]
fn airport_of_a_given_page() {
    let page = AirportPage {
        title: "<b>EGBO</b> — WOLVERHAMPTON — HALFPENNY GREEN".to_string(),
        sections: vec![
            section(None),
            section(Some("EGBO-AD-2.1")),
            data_section("523103N 0021534W", "283 FT"),
            AirportSection {
                cells: strings(&["CHART A", "link", "CHART B", "link", "left over"]),
                links: vec![
                    vec![],
                    vec![Some("a.pdf".to_string()), Some("ignored.pdf".to_string())],
                    vec![Some("never read".to_string())],
                    vec![Some("https://example.org/b.pdf".to_string())],
                    vec![],
                ],
                ..section(Some("EGBO-AD-2.24"))
            },
        ],
    };
    let airport = airport_from_page(&page).unwrap();
    assert_eq!(airport.icao(), "EGBO");
    assert_eq!(airport.name(), "WOLVERHAMPTON");
    assert_eq!(airport.latitude(), angle(false, 523103));
    assert_eq!(airport.longitude(), angle(true, 21534));
    assert_eq!(airport.elevation(), 283);
    assert_eq!(
        airport.charts(),
        &vec![
            Chart { title: "CHART A".to_string(), url: "a.pdf".to_string() },
            Chart { title: "CHART B".to_string(), url: "https://example.org/b.pdf".to_string() },
        ]
    );
}

#[test]
fn airport_pages_that_cannot_be_read() {
    let page = AirportPage { title: "EGBO WOLVERHAMPTON".to_string(), sections: Vec::new() };
    match airport_from_page(&page) {
        Err(Error::ParseError(what, raw)) => {
            assert_eq!(what, "title");
            assert_eq!(raw, "EGBO WOLVERHAMPTON");
        }
        other => panic!("unexpected: {:?}", other),
    }
    let page = AirportPage {
        title: "EGBO — W".to_string(),
        sections: vec![section(Some("EGBO-AD-2.2"))],
    };
    match airport_from_page(&page) {
        Err(Error::CannotScrapeData(reason)) => assert_eq!(reason, "airport data table not present"),
        other => panic!("unexpected: {:?}", other),
    }
    let page = AirportPage {
        title: "EGBO — W".to_string(),
        sections: vec![data_section("523103N 0021534W", "283 M")],
    };
    match airport_from_page(&page) {
        Err(Error::ParseError(what, raw)) => {
            assert_eq!(what, "elevation");
            assert_eq!(raw, "283 M");
        }
        other => panic!("unexpected: {:?}", other),
    }
    let page = AirportPage {
        title: "EGBO — W".to_string(),
        sections: vec![data_section("in the Midlands", "283 FT")],
    };
    assert!(matches!(airport_from_page(&page), Err(Error::ParseError("latlong", _))));
}

#[test]
fn charts_of_given_cells() {
    let before = vec![Chart { title: "kept".to_string(), url: "k".to_string() }];
    let cells = strings(&["T1", "", "T2", ""]);
    let links = vec![vec![], vec![Some("1".to_string())], vec![], vec![None, Some("2".to_string())]];
    match charts_from_cells(before.clone(), &cells, &links) {
        Err(Error::CannotScrapeData(reason)) => assert_eq!(reason, "chart link not present"),
        other => panic!("unexpected: {:?}", other),
    }
    let charts = charts_from_cells(before, &cells[..3].to_vec(), &links).unwrap();
    assert_eq!(charts.len(), 2);
    assert_eq!(charts[0].title(), "kept");
    assert_eq!(charts[1].title(), "T1");
    assert_eq!(charts[1].url(), "1");
    assert!(charts_from_cells(Vec::new(), &strings(&["T", "x"]), &Vec::new()).is_err());
    assert!(charts_from_cells(Vec::new(), &strings(&["T"]), &Vec::new()).unwrap().is_empty());
}

#[test]
fn sections_of_a_page() {
    let page = "<div id=\"first\">no title here</div>\
        <div id=\"main\"><h1 class=\"TitleAD\">EGBO — W</h1>\
          <div id=\"EGBO-AD-2.2\"><table><tr><td>k</td><td>523103N</td></tr>\
            <tr><td>second</td></tr><tr><td>k</td><td>283 FT</td></tr></table></div>\
          <div id=\"EGBO-AD-2.24\"><table><tr><td>T</td><td><a href=\"u\">x</a><a>y</a></td></tr></table></div>\
          <div>plain</div>\
        </div>\
        <div><span class=\"TitleAD\">SECOND — AIRPORT</span></div>";
    let read = read_airport_page(page).unwrap();
    assert_eq!(read.title, "EGBO — W");
    assert_eq!(read.sections.len(), 3);
    assert_eq!(read.sections[0].id, Some("EGBO-AD-2.2".to_string()));
    assert_eq!(read.sections[0].position, vec![strings(&["523103N"])]);
    assert_eq!(read.sections[0].elevation, vec![strings(&["283 FT"])]);
    assert!(read.sections[0].cells.is_empty());
    assert_eq!(read.sections[1].cells, strings(&["T", "<a href=\"u\">x</a><a>y</a>"]));
    assert_eq!(read.sections[1].links, vec![vec![], vec![Some("u".to_string()), None]]);
    assert_eq!(read.sections[2].id, None);
    let airport = airport_from_page(&read).unwrap();
    assert_eq!(airport.icao(), "EGBO");
    assert_eq!(airport.elevation(), 283);
    assert_eq!(airport.charts().len(), 1);
}

#[test]
fn entries_of_a_list() {
    let airports = airports_from_entries(&strings(&[
        "<span>EGBO</span> — WOLVERHAMPTON",
        "EGLL—LONDON HEATHROW",
        "egxx — lower case",
        "EGPD",
        "AD 2 AERODROMES",
    ]));
    assert_eq!(airports.len(), 3);
    assert_eq!(airports[0].icao(), "EGBO");
    assert_eq!(airports[0].name(), "WOLVERHAMPTON");
    assert_eq!(airports[1].name(), "LONDON HEATHROW");
    assert_eq!(airports[2].icao(), "EGPD");
    assert_eq!(airports[2].name(), "");
    let given = Some(vec![Some("x".to_string()), Some("EGBO".to_string()), Some("W".to_string())]);
    assert_eq!(airport_from_captures(given).unwrap().name(), "W");
    assert!(airport_from_captures(Some(vec![Some("x".to_string()), None, None])).is_none());
    assert!(airport_from_captures(None).is_none());
}
