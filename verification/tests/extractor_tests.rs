use eaip::error::Error;
use eaip::parse::airports::{parse_airport, parse_airport_list};
use eaip::parse::airways::parse_airways;
use eaip::parse::intersections::parse_intersections;
use eaip::parse::navaids::parse_navaids;
use eaip::types::{Degrees, NavAidKind};

fn deg(a: Degrees) -> f64 {
    let m = a.numerator as f64 / a.denominator as f64;
    if a.negative {
        -m
    } else {
        m
    }
}

#[test]
fn end_to_end_navaid() {
    let page = "<table><tbody><tr>\
        <td>ABERDEEN<br/>VOR/DME</td><td>ADN</td><td>113.55MHz</td><td></td>\
        <td>571209N 0021153W</td><td>30FT</td></tr></tbody></table>";
    let navaids = parse_navaids(page).unwrap();
    assert_eq!(navaids.len(), 1);
    assert_eq!(navaids[0].name(), "ABERDEEN");
    assert_eq!(navaids[0].kind(), NavAidKind::VORDME);
    assert_eq!(navaids[0].id(), "ADN");
    assert_eq!(navaids[0].frequency_khz(), 113550);
    assert!((deg(navaids[0].latitude()) - 57.1209).abs() < 1e-9);
    assert!((deg(navaids[0].longitude()) + 2.1153).abs() < 1e-9);
    assert_eq!(navaids[0].elevation(), 30);
}

#[test]
fn navaid_without_table_is_an_error() {
    match parse_navaids("<p>nothing here</p>") {
        Err(Error::CannotScrapeData(reason)) => assert_eq!(reason, "base table not present"),
        other => panic!("unexpected: {:?}", other),
    }
}

#[test]
fn navaid_rows_skipped_failed_and_defaulted() {
    // A header row (no kind line) is skipped; an NDB without elevation gets 0.
    let page = "<table><tbody>\
        <tr><td>Name</td><td>ID</td><td>Frequency</td></tr>\
        <tr><td>WICK<br/>NDB</td><td>WIK</td><td>344 kHz</td><td></td>\
        <td>582632N 0030349W</td><td></td></tr>\
        <tr><td>TIREE<br/>DME</td><td>TIR</td><td>CH88X</td><td></td>\
        <td>562936N 0065232W</td><td>10 ft</td></tr>\
        </tbody></table>";
    let navaids = parse_navaids(page).unwrap();
    assert_eq!(navaids.len(), 2);
    assert_eq!(navaids[0].kind(), NavAidKind::NDB);
    assert_eq!(navaids[0].frequency_khz(), 344);
    assert_eq!(navaids[0].elevation(), 0);
    assert_eq!(navaids[1].kind(), NavAidKind::DME);
    assert_eq!(navaids[1].frequency_khz(), 105300 + 8800);
    assert_eq!(navaids[1].elevation(), 10);
}

#[test]
fn navaid_unknown_kind_is_fatal() {
    let page = "<table><tbody><tr><td>X<br/>TACAN</td><td>XXX</td></tr></tbody></table>";
    match parse_navaids(page) {
        Err(Error::UnknownNavAidKind(label)) => assert_eq!(label, "TACAN"),
        other => panic!("unexpected: {:?}", other),
    }
}

#[test]
fn navaid_bad_frequency_is_fatal() {
    let page = "<table><tbody><tr><td>X<br/>VOR</td><td>XXX</td><td>loud</td></tr></tbody></table>";
    match parse_navaids(page) {
        Err(Error::ParseError(what, raw)) => {
            assert_eq!(what, "frequency");
            assert_eq!(raw, "loud");
        }
        other => panic!("unexpected: {:?}", other),
    }
}

#[test]
fn intersections_of_a_table() {
    let page = "<table><tbody>\
        <tr class=\"Table-row-type-3\"><td>ABBEW</td><td>503035N<br/>0032815W</td></tr>\
        <tr class=\"Table-row-type-3\"><td></td><td>not read</td></tr>\
        <tr class=\"Table-row-type-2\"><td>HEADR</td><td>503035N 0032815W</td></tr>\
        <tr class=\"Table-row-type-3\"><td>ABDAL</td><td>512646N 0015149E</td></tr>\
        </tbody></table>";
    let found = parse_intersections(page).unwrap();
    assert_eq!(found.len(), 2);
    assert_eq!(found[0].designator(), "ABBEW");
    assert!((deg(found[0].latitude()) - 50.3035).abs() < 1e-9);
    assert!((deg(found[0].longitude()) + 3.2815).abs() < 1e-9);
    assert_eq!(found[1].designator(), "ABDAL");
    assert!((deg(found[1].longitude()) - 1.5149).abs() < 1e-9);
}

#[test]
fn intersection_bad_coordinates_are_fatal() {
    let page = "<table><tbody>\
        <tr class=\"Table-row-type-3\"><td>ABBEW</td><td>somewhere</td></tr>\
        </tbody></table>";
    match parse_intersections(page) {
        Err(Error::ParseError(what, raw)) => {
            assert_eq!(what, "latlong");
            assert_eq!(raw, "somewhere");
        }
        other => panic!("unexpected: {:?}", other),
    }
}

const AIRWAYS: &str = "<table>\
    <tbody>\
    <tr class=\"Table-row-type-1\"><td>UL9<br/>(RNAV 5)</td><td>x</td></tr>\
    <tr class=\"Table-row-type-2\"><td>&#916;</td><td>STRUMBLE VOR/DME ( STU )</td></tr>\
    <tr class=\"Table-row-type-3\"><td>1</td><td>2</td><td>3</td><td><table><tbody><tr>\
        <td class=\"Upper\">FL 460</td></tr><tr><td class=\"Lower\">FL 245</td></tr></tbody></table></td></tr>\
    <tr class=\"Table-row-type-2\"><td>&#916;</td><td>DIKAS</td></tr>\
    <tr class=\"Table-row-type-2\"><td>&#916;</td><td>no code at all</td></tr>\
    </tbody>\
    <tbody><tr><td>no designator row</td></tr></tbody>\
    </table>";

#[test]
fn airway_with_fewer_detail_rows_than_waypoints() {
    let airways = parse_airways(AIRWAYS).unwrap();
    assert_eq!(airways.len(), 1);
    let airway = &airways[0];
    assert_eq!(airway.designator(), "UL9");
    let waypoints = airway.waypoints();
    assert_eq!(waypoints.len(), 2);
    assert_eq!(waypoints[0].designator(), "STU");
    assert!(waypoints[0].is_navaid());
    assert!(!waypoints[0].is_intersection());
    assert_eq!(waypoints[0].upper_limit(), "FL 460");
    assert_eq!(waypoints[0].lower_limit(), "FL 245");
    assert_eq!(waypoints[1].designator(), "DIKAS");
    assert!(waypoints[1].is_intersection());
    assert!(!waypoints[1].is_navaid());
    assert_eq!(waypoints[1].upper_limit(), "");
    assert_eq!(waypoints[1].lower_limit(), "");
}

#[test]
fn airport_list_of_a_table_of_contents() {
    let page = "<div><div class=\"toc-block\">first</div>\
        <div class=\"toc-block\">\
          <div class=\"toc-block\"><a href=\"#a\">EGBO — WOLVERHAMPTON</a></div>\
          <div class=\"toc-block\"><a href=\"#b\">AD 2 introduction</a></div>\
          <div class=\"toc-block\"><a href=\"#c\">EGLL LONDON HEATHROW</a></div>\
        </div></div>";
    let airports = parse_airport_list(page).unwrap();
    assert_eq!(airports.len(), 2);
    assert_eq!(airports[0].icao(), "EGBO");
    assert_eq!(airports[0].name(), "WOLVERHAMPTON");
    assert_eq!(airports[0].elevation(), 0);
    assert!(airports[0].charts().is_empty());
    assert_eq!(airports[1].icao(), "EGLL");
    assert_eq!(airports[1].name(), "LONDON HEATHROW");
}

const AIRPORT: &str = "<html><body><div id=\"outer\">\
    <div class=\"TitleAD\">EGBO — WOLVERHAMPTON</div>\
    <div id=\"EGBO-AD-2.2\"><table><tbody>\
      <tr><td>1</td><td>ARP</td><td>523103N 0021534W</td></tr>\
      <tr><td>2</td><td>Direction</td><td>north</td></tr>\
      <tr><td>3</td><td>Elevation</td><td>283 FT</td></tr>\
    </tbody></table></div>\
    <div id=\"EGBO-AD-2.24\"><table><tbody>\
      <tr><td>AERODROME CHART</td><td><a href=\"../../graphics/1.pdf\">AD 2.EGBO-2-1</a></td></tr>\
      <tr><td>PARKING</td><td><a href=\"https://example.org/2.pdf\">AD 2.EGBO-2-2</a></td></tr>\
    </tbody></table></div>\
    </div></body></html>";

#[test]
fn airport_of_a_detail_page() {
    let airport = parse_airport(AIRPORT).unwrap();
    assert_eq!(airport.icao(), "EGBO");
    assert_eq!(airport.name(), "WOLVERHAMPTON");
    assert_eq!(airport.elevation(), 283);
    let charts = airport.charts();
    assert_eq!(charts.len(), 2);
    assert_eq!(charts[0].title(), "AERODROME CHART");
    assert_eq!(charts[0].url(), "../../graphics/1.pdf");
    assert_eq!(charts[1].title(), "PARKING");
    assert_eq!(charts[1].url(), "https://example.org/2.pdf");
}

#[test]
fn airport_coordinates_of_a_detail_page() {
    let page = "<div><span class=\"TitleAD\">EGBO — WOLVERHAMPTON</span>\
        <div id=\"EGBO-AD-2.2\"><table><tbody>\
        <tr><td>523103N 0021534W</td></tr><tr><td>x</td></tr><tr><td>283 ft</td></tr>\
        </tbody></table></div></div>";
    let airport = parse_airport(page).unwrap();
    assert!((deg(airport.latitude()) - 52.3103).abs() < 1e-9);
    assert!((deg(airport.longitude()) + 2.1534).abs() < 1e-9);
    assert_eq!(airport.elevation(), 283);
}

#[test]
fn airport_without_title_is_an_error() {
    match parse_airport("<div><div id=\"EGBO-AD-2.2\"></div></div>") {
        Err(Error::CannotScrapeData(reason)) => assert_eq!(reason, "airport title not present"),
        other => panic!("unexpected: {:?}", other),
    }
}

#[test]
fn airport_chart_without_link_is_an_error() {
    let page = "<div><span class=\"TitleAD\">EGBO — W</span>\
        <div id=\"EGBO-AD-2.24\"><table><tbody><tr><td>CHART</td><td>no link</td></tr>\
        </tbody></table></div></div>";
    match parse_airport(page) {
        Err(Error::CannotScrapeData(reason)) => assert_eq!(reason, "chart link not present"),
        other => panic!("unexpected: {:?}", other),
    }
}
