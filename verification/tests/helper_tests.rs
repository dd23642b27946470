use eaip::document::{find_subtree_end, select_between, Document};
use eaip::html::TreeEdge;
use eaip::number::{
    digit_of, parse_decimal, parse_digits, power_of_ten, push_decimal, push_padded, scale_down,
    Decimal,
};
use eaip::parse::airports::Airports;
use eaip::parse::airways::Airways;
use eaip::parse::intersections::Intersections;
use eaip::parse::Parser;
use eaip::text::{ends_with, equals, slice, split, to_chars, to_text, trimmed};
use eaip::types::{Airport, Airway, AirwayWaypoint, Chart, Degrees, Intersection, NavAid};

fn chars(s: &str) -> Vec<char> {
    s.chars().collect()
}

#[test]
fn chars_round_trip() {
    let v = to_chars("0.95°W — x");
    assert_eq!(v, chars("0.95°W — x"));
    assert_eq!(to_text(&v), "0.95°W — x");
    assert_eq!(to_text(&Vec::new()), "");
}

#[test]
fn trimming() {
    assert_eq!(trimmed(&chars("  a b \n\t")), chars("a b"));
    assert_eq!(trimmed(&chars("\u{a0}\u{2003}x\u{3000}\u{85}")), chars("x"));
    assert_eq!(trimmed(&chars(" \n ")), chars(""));
    assert_eq!(trimmed(&chars("")), chars(""));
    assert_eq!(trimmed(&chars("\u{200b}x")), chars("\u{200b}x"));
}

#[test]
fn splitting() {
    assert_eq!(split(&chars("a\nb\n\nc"), '\n'), vec![chars("a"), chars("b"), chars(""), chars("c")]);
    assert_eq!(split(&chars(""), '\n'), vec![chars("")]);
    assert_eq!(split(&chars("\n"), '\n'), vec![chars(""), chars("")]);
    assert_eq!(split(&chars("EGBO — X"), '—'), vec![chars("EGBO "), chars(" X")]);
}

#[test]
fn comparing_and_slicing() {
    assert!(equals(&chars("VOR/DME"), "VOR/DME"));
    assert!(!equals(&chars("VOR"), "VOR/DME"));
    assert!(!equals(&chars("VOR/DMX"), "VOR/DME"));
    assert!(ends_with(&chars("EGBO-AD-2.2"), "-2.2"));
    assert!(!ends_with(&chars("EGBO-AD-2.24"), "-2.2"));
    assert!(!ends_with(&chars("2.2"), "-2.2"));
    assert!(ends_with(&chars("x"), ""));
    assert_eq!(slice(&chars("abcdef"), 2, 4), chars("cd"));
    assert_eq!(slice(&chars("abcdef"), 3, 3), chars(""));
}

#[test]
fn reading_digits() {
    assert_eq!(digit_of('7'), Some(7));
    assert_eq!(digit_of('a'), None);
    assert_eq!(parse_digits(&chars("x0123y"), 1, 5), Some(123));
    assert_eq!(parse_digits(&chars("x0123y"), 1, 6), None);
    assert_eq!(parse_digits(&chars(""), 0, 0), Some(0));
    assert_eq!(parse_digits(&chars("18446744073709551615"), 0, 20), Some(u64::MAX));
    assert_eq!(parse_digits(&chars("18446744073709551616"), 0, 20), None);
    assert_eq!(parse_digits(&chars("١٢٣"), 0, 3), None);
}

#[test]
fn reading_decimals() {
    assert_eq!(parse_decimal(&chars("123.456")), Some(Decimal { mantissa: 123456, places: 3 }));
    assert_eq!(parse_decimal(&chars("123")), Some(Decimal { mantissa: 123, places: 0 }));
    assert_eq!(parse_decimal(&chars("123.")), Some(Decimal { mantissa: 123, places: 0 }));
    assert_eq!(parse_decimal(&chars(".5")), Some(Decimal { mantissa: 5, places: 1 }));
    assert_eq!(parse_decimal(&chars("0.050")), Some(Decimal { mantissa: 50, places: 3 }));
    assert_eq!(parse_decimal(&chars(".")), None);
    assert_eq!(parse_decimal(&chars("")), None);
    assert_eq!(parse_decimal(&chars("1.2.3")), None);
    assert_eq!(parse_decimal(&chars("1e5")), None);
    assert_eq!(parse_decimal(&chars("-1")), None);
    assert_eq!(parse_decimal(&chars("1844674407370955161.6")), None);
}

#[test]
fn powers_and_scaling() {
    assert_eq!(power_of_ten(0), Some(1));
    assert_eq!(power_of_ten(3), Some(1000));
    assert_eq!(power_of_ten(19), Some(10_000_000_000_000_000_000));
    assert_eq!(power_of_ten(20), None);
    assert_eq!(scale_down(123456, 3), 123);
    assert_eq!(scale_down(123456, 0), 123456);
    assert_eq!(scale_down(999, 3), 0);
    assert_eq!(scale_down(5, 1000), 0);
}

#[test]
fn writing_numbers() {
    let mut out = chars("n=");
    push_decimal(&mut out, 0);
    push_decimal(&mut out, 907);
    push_decimal(&mut out, u64::MAX);
    assert_eq!(to_text(&out), "n=090718446744073709551615");
    let mut out = Vec::new();
    push_padded(&mut out, 5, 2);
    push_padded(&mut out, 123, 2);
    push_padded(&mut out, -5, 4);
    push_padded(&mut out, -12345, 4);
    push_padded(&mut out, 0, 0);
    push_padded(&mut out, -1, 0);
    assert_eq!(to_text(&out), "05123-005-123450-1");
}

fn walk() -> Vec<TreeEdge> {
    vec![
        TreeEdge::Other,
        TreeEdge::Open("table".to_string()),
        TreeEdge::Open("tr".to_string()),
        TreeEdge::Text("a".to_string()),
        TreeEdge::Other,
        TreeEdge::Close("tr".to_string()),
        TreeEdge::Open("tr".to_string()),
        TreeEdge::Close("tr".to_string()),
        TreeEdge::Close("table".to_string()),
        TreeEdge::Open("p".to_string()),
    ]
}

#[test]
fn end_of_a_subtree() {
    let edges = walk();
    assert_eq!(find_subtree_end(&edges, 1), 8);
    assert_eq!(find_subtree_end(&edges, 2), 5);
    assert_eq!(find_subtree_end(&edges, 6), 7);
    // An element that is never left reaches to the end of the walk.
    assert_eq!(find_subtree_end(&edges, 9), 10);
    assert_eq!(find_subtree_end(&edges, 0), 10);
}

#[test]
fn positions_that_are_marked() {
    let marks = vec![true, false, true, true, false];
    assert_eq!(select_between(&marks, 0, 5), vec![0, 2, 3]);
    assert_eq!(select_between(&marks, 1, 3), vec![2]);
    assert_eq!(select_between(&marks, 3, 100), vec![3]);
    assert_eq!(select_between(&marks, 4, 2), Vec::<usize>::new());
}

#[test]
fn selection_in_a_document() {
    let doc = Document::parse(
        "<table><tbody><tr><td>a</td><td><b>b</b></td></tr><tr><td>c</td></tr></tbody></table><p>d</p>",
    );
    let rows = doc.matches("tr").unwrap();
    let cells = doc.matches("td").unwrap();
    let bodies = doc.matches("table > tbody").unwrap();
    assert!(doc.matches("td >").is_none());
    let body = doc.select(&bodies);
    assert_eq!(body.len(), 1);
    let found = doc.select(&rows);
    assert_eq!(found.len(), 2);
    let first = doc.select_within(&cells, found[0]);
    assert_eq!(doc.inner_html_of(&first), vec!["a".to_string(), "<b>b</b>".to_string()]);
    assert_eq!(
        doc.table(body[0], &rows, &cells),
        vec![vec!["a".to_string(), "<b>b</b>".to_string()], vec!["c".to_string()]]
    );
    assert_eq!(doc.inner_html(found[1]), "<td>c</td>");
    assert_eq!(doc.inner_html(usize::MAX), "");
    // The cells of the paragraph: none.
    let paragraphs = doc.select(&doc.matches("p").unwrap());
    assert_eq!(doc.select_within(&cells, paragraphs[0]), Vec::<usize>::new());
}

#[test]
fn attributes_in_a_document() {
    let doc = Document::parse("<div id=\"x\"><a href=\"u\">t</a><a>no target</a></div>");
    let ids = doc.attributes("id");
    let targets = doc.attributes("href");
    let divs = doc.select(&doc.matches("div").unwrap());
    let anchors = doc.select(&doc.matches("a").unwrap());
    assert_eq!(ids[divs[0]], Some("x".to_string()));
    assert_eq!(targets[anchors[0]], Some("u".to_string()));
    assert_eq!(targets[anchors[1]], None);
    assert_eq!(ids[anchors[0]], None);
}

#[test]
fn parsers_by_trait() {
    let page = "<table><tbody>\
        <tr class=\"Table-row-type-3\"><td>ABBEW</td><td>503035N 0032815W</td></tr>\
        </tbody></table>";
    assert_eq!(<Intersections as Parser>::parse(page).unwrap().len(), 1);
    assert_eq!(<Airways as Parser>::parse(page).unwrap(), Airways::new());
    assert!(<Airport as Parser>::parse(page).is_err());
    assert_eq!(Airports::new().len(), 0);
}

#[test]
fn blank_records() {
    assert!(NavAid::default().is_blank());
    assert!(NavAid::blank().is_blank());
    assert!(Intersection::default().is_blank());
    assert!(Airway::default().is_blank());
    assert_eq!(Airport::default(), Airport::blank());
    assert_eq!(Chart::default().title(), "");
    assert_eq!(AirwayWaypoint::default().designator(), "");
    assert_eq!(AirwayWaypoint::new("ADN".to_string()).upper_limit(), "");
    assert!(Degrees::default().is_zero());
    assert!(Degrees { negative: true, numerator: 0, denominator: 7 }.is_zero());
    assert!(!Degrees { negative: false, numerator: 1, denominator: 7 }.is_zero());
    let mut navaid = NavAid::blank();
    navaid.elevation = 1;
    assert!(!navaid.is_blank());
}
