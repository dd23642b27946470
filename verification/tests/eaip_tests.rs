use eaip::eaip::ais::{all, gb, nl};
use eaip::eaip::EAIP;
use eaip::error::Error;
use eaip::parts::{EAIPType, Part, AD, ENR};
use eaip::types::{Airport, Chart, Degrees};

fn zero() -> Degrees {
    Degrees::zero()
}

fn airport_with(urls: &[&str]) -> Airport {
    Airport {
        icao: "EGBO".to_string(),
        name: "WOLVERHAMPTON".to_string(),
        latitude: zero(),
        longitude: zero(),
        elevation: 283,
        charts: urls
            .iter()
            .enumerate()
            .map(|(i, u)| Chart { title: format!("chart {}", i), url: u.to_string() })
            .collect(),
    }
}

fn egbo() -> Part {
    Part::Aerodromes(AD::Aerodromes("EGBO".to_string()))
}

#[test]
fn url_of_a_page() {
    let named = gb();
    let url = named
        .eaip()
        .generate_url(
            airac::AIRAC::from_ymd(2022, 5, 19),
            Part::EnRoute(ENR::RadioNavAids(1)),
            EAIPType::HTML,
        )
        .unwrap();
    assert_eq!(
        url,
        "https://www.aurora.nats.co.uk/htmlAIP/Publications/2022-05-19-AIRAC/html/eAIP/EG-ENR-4.1-en-GB.html"
    );
}

#[test]
fn url_of_a_page_published_ahead() {
    let named = nl();
    let url = named
        .eaip()
        .generate_url(
            airac::AIRAC::from_ymd(2022, 5, 19),
            Part::EnRoute(ENR::RadioNavAids(4)),
            EAIPType::PDF,
        )
        .unwrap();
    assert_eq!(url, "https://eaip.lvnl.nl/2022-05-05-AIRAC/pdf/eAIP/EH-ENR-4.4-en-GB.pdf");
}

#[test]
fn url_for_a_given_start() {
    let eaip = EAIP::new_with_offset("https://example.org", "EG", "en-GB", 31);
    let url = eaip
        .generate_url_for_start((2024, 3, 1), Part::Aerodromes(AD::TableOfContents), EAIPType::HTML)
        .unwrap();
    assert_eq!(url, "https://example.org/2024-01-30-AIRAC/html/eAIP/EG-AD-0.1-en-GB.html");
    let eaip = EAIP::new_with_offset("https://example.org", "EG", "en-GB", -1);
    let url = eaip
        .generate_url_for_start((2023, 12, 31), Part::Aerodromes(AD::TableOfContents), EAIPType::HTML)
        .unwrap();
    assert_eq!(url, "https://example.org/2024-01-01-AIRAC/html/eAIP/EG-AD-0.1-en-GB.html");
}

#[test]
fn url_beyond_the_calendar() {
    let eaip = EAIP::new_with_offset("https://example.org", "EG", "en-GB", i64::MAX);
    assert_eq!(
        None,
        eaip.generate_url_for_start((2024, 3, 1), Part::EnRoute(ENR::Charts), EAIPType::HTML)
    );
    let eaip = EAIP::new_with_offset("https://example.org", "EG", "en-GB", 1);
    assert_eq!(
        None,
        eaip.generate_url_for_start((2023, 2, 30), Part::EnRoute(ENR::Charts), EAIPType::HTML)
    );
}

#[test]
fn named_services() {
    let services = all();
    assert_eq!(services.len(), 2);
    assert_eq!(services[0].country(), "GB");
    assert_eq!(services[0].name(), "NATS");
    assert_eq!(services[0].icao_prefix(), "EG");
    assert_eq!(services[0].url(), "https://nats.aero");
    assert_eq!(services[0].eaip(), &EAIP::new("https://www.aurora.nats.co.uk/htmlAIP/Publications", "EG", "en-GB"));
    assert_eq!(services[1].country(), "NL");
    assert_eq!(services[1].name(), "LVNL");
    assert_eq!(services[1].icao_prefix(), "EH");
    assert_eq!(services[1].url(), "https://lvnl.nl");
    assert_eq!(services[1].eaip().publish_offset_days, 14);
}

#[test]
fn chart_urls_are_joined_to_the_page() {
    let eaip = EAIP::new("https://example.org/aip", "EG", "en-GB");
    let mut airport = airport_with(&["../../graphics/1.pdf", "https://other.org/2.pdf", "3.pdf"]);
    airport
        .canonicalise_chart_urls(&eaip, airac::AIRAC::from_ymd(2022, 5, 19), egbo())
        .unwrap();
    assert_eq!(airport.icao(), "EGBO");
    assert_eq!(airport.elevation(), 283);
    let charts = airport.charts();
    assert_eq!(charts.len(), 3);
    assert_eq!(charts[0].title(), "chart 0");
    assert_eq!(charts[0].url(), "https://example.org/aip/2022-05-19-AIRAC/graphics/1.pdf");
    assert_eq!(charts[1].url(), "https://other.org/2.pdf");
    assert_eq!(
        charts[2].url(),
        "https://example.org/aip/2022-05-19-AIRAC/html/eAIP/3.pdf"
    );
}

#[test]
fn chart_urls_against_a_given_base() {
    let mut airport = airport_with(&["a/b.pdf", "http://[::1"]);
    airport.canonicalise_chart_urls_against("https://example.org/x/y.html").unwrap();
    assert_eq!(airport.charts()[0].url(), "https://example.org/x/a/b.pdf");
    // Text that is no address at all is left as it is.
    assert_eq!(airport.charts()[1].url(), "http://[::1");
}

#[test]
fn base_that_is_no_address() {
    let eaip = EAIP::new("not an address", "EG", "en-GB");
    let mut airport = airport_with(&["1.pdf"]);
    match airport.canonicalise_chart_urls(&eaip, airac::AIRAC::from_ymd(2022, 5, 19), egbo()) {
        Err(Error::EAIPInvalidBaseURL(base)) => {
            assert_eq!(base, "not an address/2022-05-19-AIRAC/html/eAIP/EG-AD-2.EGBO-en-GB.html")
        }
        other => panic!("unexpected: {:?}", other),
    }
    assert_eq!(airport.charts()[0].url(), "1.pdf");
}

#[test]
fn base_beyond_the_calendar() {
    let eaip = EAIP::new_with_offset("https://example.org", "EG", "en-GB", i64::MIN);
    let mut airport = airport_with(&["1.pdf"]);
    match airport.canonicalise_chart_urls(&eaip, airac::AIRAC::from_ymd(2022, 5, 19), egbo()) {
        Err(Error::EAIPInvalidBaseURL(base)) => assert_eq!(base, "https://example.org"),
        other => panic!("unexpected: {:?}", other),
    }
}

#[test]
fn chart_that_cannot_be_joined() {
    let eaip = EAIP::new("mailto:someone@example.org", "EG", "en-GB");
    let mut airport = airport_with(&["https://example.org/0.pdf", "1.pdf", "2.pdf"]);
    match airport.canonicalise_chart_urls(&eaip, airac::AIRAC::from_ymd(2022, 5, 19), egbo()) {
        Err(Error::ChartURLMalformed(url)) => assert_eq!(url, "1.pdf"),
        other => panic!("unexpected: {:?}", other),
    }
    let charts = airport.charts();
    assert_eq!(charts.len(), 3);
    assert_eq!(charts[0].url(), "https://example.org/0.pdf");
    assert_eq!(charts[1].url(), "1.pdf");
    assert_eq!(charts[2].url(), "2.pdf");
    assert_eq!(charts[2].title(), "chart 2");
}

#[test]
fn messages_of_errors() {
    assert_eq!(
        Error::CannotScrapeData("base table not present").message(),
        "The data cannot be scraped because base table not present"
    );
    assert_eq!(
        Error::ParseError("frequency", "loud".to_string()).message(),
        "The frequency cannot be parsed (loud)."
    );
    assert_eq!(
        Error::UnknownNavAidKind("TACAN".to_string()).message(),
        "Unknown NavAidKind: TACAN"
    );
    assert_eq!(
        Error::ChartURLMalformed("1.pdf".to_string()).message(),
        "There was an error converting the chart URL: 1.pdf"
    );
    assert_eq!(
        Error::EAIPInvalidBaseURL("x".to_string()).message(),
        "There was an error parsing the AIP base URL: x"
    );
}
