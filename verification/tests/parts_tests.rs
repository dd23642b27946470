use eaip::parts::{
    generate_location, generate_location_with_airac, generate_location_with_date, EAIPType, Part,
    AD, ENR, GEN,
};

fn html_route(section: Part) -> String {
    generate_location("EG", section, "en-GB", EAIPType::HTML)
}

#[test]
fn test_generate_location() {
    assert_eq!(
        "/html/eAIP/EG-AD-2.EGBO-en-GB.html",
        html_route(Part::Aerodromes(AD::Aerodromes("EGBO".to_string())))
    );
    assert_eq!("/html/eAIP/EG-GEN-0.1-en-GB.html", html_route(Part::General(GEN::Overview(1))));
    assert_eq!("/html/eAIP/EG-ENR-0.1-en-GB.html", html_route(Part::EnRoute(ENR::TableOfContents)));
}

#[test]
fn test_general() {
    assert_eq!("/html/eAIP/EG-GEN-0.1-en-GB.html", html_route(Part::General(GEN::Overview(1))));
    assert_eq!(
        "/html/eAIP/EG-GEN-1.1-en-GB.html",
        html_route(Part::General(GEN::NationalRegulations(1)))
    );
    assert_eq!(
        "/html/eAIP/EG-GEN-2.1-en-GB.html",
        html_route(Part::General(GEN::TablesAndCodes(1)))
    );
    assert_eq!("/html/eAIP/EG-GEN-3.1-en-GB.html", html_route(Part::General(GEN::Services(1))));
    assert_eq!("/html/eAIP/EG-GEN-4.1-en-GB.html", html_route(Part::General(GEN::Charges(1))));
}

#[test]
fn test_enroute() {
    assert_eq!("/html/eAIP/EG-ENR-0.1-en-GB.html", html_route(Part::EnRoute(ENR::TableOfContents)));
    assert_eq!("/html/eAIP/EG-ENR-1.1-en-GB.html", html_route(Part::EnRoute(ENR::GeneralRules(1))));
    assert_eq!("/html/eAIP/EG-ENR-2.1-en-GB.html", html_route(Part::EnRoute(ENR::ATSAirspace(1))));
    assert_eq!("/html/eAIP/EG-ENR-3.1-en-GB.html", html_route(Part::EnRoute(ENR::ATSRoutes(1))));
    assert_eq!("/html/eAIP/EG-ENR-4.1-en-GB.html", html_route(Part::EnRoute(ENR::RadioNavAids(1))));
    assert_eq!("/html/eAIP/EG-ENR-5.1-en-GB.html", html_route(Part::EnRoute(ENR::NavWarnings(1))));
    assert_eq!("/html/eAIP/EG-ENR-6-en-GB.html", html_route(Part::EnRoute(ENR::Charts)));
}

#[test]
fn test_aerodromes() {
    assert_eq!(
        "/html/eAIP/EG-AD-0.1-en-GB.html",
        html_route(Part::Aerodromes(AD::TableOfContents))
    );
    assert_eq!(
        "/html/eAIP/EG-AD-1.1-en-GB.html",
        html_route(Part::Aerodromes(AD::Introduction(1)))
    );
    assert_eq!(
        "/html/eAIP/EG-AD-2.ZZZZ-en-GB.html",
        html_route(Part::Aerodromes(AD::Aerodromes("ZZZZ".to_string())))
    );
    assert_eq!(
        "/html/eAIP/EG-AD-3.ZZZZ-en-GB.html",
        html_route(Part::Aerodromes(AD::Heliports("ZZZZ".to_string())))
    );
}

#[test]
fn test_generate_location_pdf() {
    assert_eq!(
        "/pdf/eAIP/EG-AD-2.EGBO-en-GB.pdf",
        generate_location(
            "EG",
            Part::Aerodromes(AD::Aerodromes("EGBO".to_string())),
            "en-GB",
            EAIPType::PDF
        )
    );
}

#[test]
fn test_generate_location_with_airac() {
    assert_eq!(
        "/2022-05-19-AIRAC/html/eAIP/EG-AD-2.EGBO-en-GB.html",
        generate_location_with_airac(
            airac::AIRAC::from_ymd(2022, 05, 19),
            "EG",
            Part::Aerodromes(AD::Aerodromes("EGBO".to_string())),
            "en-GB",
            EAIPType::HTML
        )
    );
}

#[test]
fn cycle_start_is_not_the_day_asked_for() {
    // 2022-05-23 lies in the cycle that started on 2022-05-19.
    assert_eq!(
        "/2022-05-19-AIRAC/html/eAIP/EG-ENR-4.1-en-GB.html",
        generate_location_with_airac(
            airac::AIRAC::from_ymd(2022, 5, 23),
            "EG",
            Part::EnRoute(ENR::RadioNavAids(1)),
            "en-GB",
            EAIPType::HTML
        )
    );
}

#[test]
fn dated_location_pads_and_signs() {
    assert_eq!(
        "/0987-01-02-AIRAC/pdf/eAIP/EH-GEN-2.10-en-GB.pdf",
        generate_location_with_date(
            987,
            1,
            2,
            "EH",
            Part::General(GEN::TablesAndCodes(10)),
            "en-GB",
            EAIPType::PDF
        )
    );
    assert_eq!(
        "/-005-12-31-AIRAC/html/eAIP/EG-ENR-6-en-GB.html",
        generate_location_with_date(
            -5,
            12,
            31,
            "EG",
            Part::EnRoute(ENR::Charts),
            "en-GB",
            EAIPType::HTML
        )
    );
    assert_eq!(
        "/12345-10-11-AIRAC/html/eAIP/EG-AD-0.1-en-GB.html",
        generate_location_with_date(
            12345,
            10,
            11,
            "EG",
            Part::Aerodromes(AD::TableOfContents),
            "en-GB",
            EAIPType::HTML
        )
    );
}

#[test]
fn part_labels() {
    assert_eq!(Part::General(GEN::Overview(0)).label(), "GEN-0.0");
    assert_eq!(Part::EnRoute(ENR::ATSRoutes(123)).label(), "ENR-3.123");
    assert_eq!(EAIPType::HTML.label(), "html");
    assert_eq!(EAIPType::PDF.label(), "pdf");
}
