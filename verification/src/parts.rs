//! The parts of an eAIP and the location of each within a publication.

use crate::number::{decimal_digits, push_decimal, push_padded, signed_padded};
use crate::text::{to_chars, to_text};
use airac::{Datelike, AIRAC};
use vstd::prelude::*;

verus! {

/// An AIRAC cycle, as the `airac` crate holds it.
#[verifier::external_type_specification]
#[verifier::external_body]
pub struct ExAIRAC(AIRAC);

/// The year, month and day on which a cycle starts.
pub uninterp spec fn cycle_start(airac: AIRAC) -> (int, int, int);

/// `AIRAC::starts`, then `Datelike::year`, `month` and `day`: the date on
/// which the cycle starts.
#[verifier::external_body]
pub(crate) fn start_of_cycle(airac: &AIRAC) -> (date: (i32, u32, u32))
    ensures
        cycle_start(*airac) == (date.0 as int, date.1 as int, date.2 as int),
{
    let start = airac.starts();
    (start.year(), start.month(), start.day())
}

/// The type of file to get from the eAIP.
#[derive(Debug, Clone, Copy, PartialEq, Eq, Structural)]
pub enum EAIPType {
    /// An HTML file.
    HTML,
    /// A PDF file.
    PDF,
}

impl EAIPType {
    /// The name of the type in a location.
    pub open spec fn label_spec(self) -> Seq<char> {
        match self {
            EAIPType::HTML => "html"@,
            EAIPType::PDF => "pdf"@,
        }
    }

    /// The name of the type in a location.
    pub fn label(&self) -> (r: &'static str)
        ensures
            r@ == self.label_spec(),
    {
        match self {
            EAIPType::HTML => "html",
            EAIPType::PDF => "pdf",
        }
    }
}

/// The General parts of an AIP.
#[derive(Debug, Clone, PartialEq)]
pub enum GEN {
    /// GEN 0
    Overview(usize),
    /// GEN 1 National Regulations and Requirements
    NationalRegulations(usize),
    /// GEN 2 Tables and Codes
    TablesAndCodes(usize),
    /// GEN 3 Services
    Services(usize),
    /// GEN 4 Charges for Aerodromes/Heliports and Air Navigation Services
    Charges(usize),
}

/// A section number and a page number, with a point between them.
pub open spec fn numbered(section: Seq<char>, page: nat) -> Seq<char> {
    section + "."@ + decimal_digits(page)
}

/// A section number and a name, with a point between them.
pub open spec fn named(section: Seq<char>, name: Seq<char>) -> Seq<char> {
    section + "."@ + name
}

impl GEN {
    /// The number of the part in a location.
    pub open spec fn label_spec(self) -> Seq<char> {
        match self {
            GEN::Overview(page) => numbered("0"@, page as nat),
            GEN::NationalRegulations(page) => numbered("1"@, page as nat),
            GEN::TablesAndCodes(page) => numbered("2"@, page as nat),
            GEN::Services(page) => numbered("3"@, page as nat),
            GEN::Charges(page) => numbered("4"@, page as nat),
        }
    }

    /// Appends the number of the part to `out`.
    pub fn push_label(&self, out: &mut Vec<char>)
        ensures
            final(out)@ == old(out)@ + self.label_spec(),
    {
        match self {
            GEN::Overview(page) => push_numbered(out, "0", *page),
            GEN::NationalRegulations(page) => push_numbered(out, "1", *page),
            GEN::TablesAndCodes(page) => push_numbered(out, "2", *page),
            GEN::Services(page) => push_numbered(out, "3", *page),
            GEN::Charges(page) => push_numbered(out, "4", *page),
        }
    }
}

/// Appends the characters of `s` to `out`.
pub fn push_str(out: &mut Vec<char>, s: &str)
    ensures
        final(out)@ == old(out)@ + s@,
{
    let mut more = to_chars(s);
    out.append(&mut more);
}

/// Appends a section number and a page number to `out`.
fn push_numbered(out: &mut Vec<char>, section: &str, page: usize)
    ensures
        final(out)@ == old(out)@ + numbered(section@, page as nat),
{
    push_str(out, section);
    push_str(out, ".");
    push_decimal(out, page as u64);
    proof {
        assert(final(out)@ == old(out)@ + (section@ + "."@ + decimal_digits(page as nat)));
    }
}

/// Appends a section number and a name to `out`.
fn push_named(out: &mut Vec<char>, section: &str, name: &str)
    ensures
        final(out)@ == old(out)@ + named(section@, name@),
{
    push_str(out, section);
    push_str(out, ".");
    push_str(out, name);
    proof {
        assert(final(out)@ == old(out)@ + (section@ + "."@ + name@));
    }
}

/// The En-Route parts of an AIP.
#[derive(Debug, Clone, PartialEq)]
pub enum ENR {
    /// ENR 0
    TableOfContents,
    /// ENR 1 General Rules and Procedures
    GeneralRules(usize),
    /// ENR 2 ATS Airspace
    ATSAirspace(usize),
    /// ENR 3 ATS Routes
    ATSRoutes(usize),
    /// ENR 4 Radio Navigation Aids and Systems
    RadioNavAids(usize),
    /// ENR 5 Navigation Warnings
    NavWarnings(usize),
    /// ENR 6 En-Route Charts
    Charts,
}

impl ENR {
    /// The number of the part in a location.
    pub open spec fn label_spec(self) -> Seq<char> {
        match self {
            ENR::TableOfContents => "0.1"@,
            ENR::GeneralRules(page) => numbered("1"@, page as nat),
            ENR::ATSAirspace(page) => numbered("2"@, page as nat),
            ENR::ATSRoutes(page) => numbered("3"@, page as nat),
            ENR::RadioNavAids(page) => numbered("4"@, page as nat),
            ENR::NavWarnings(page) => numbered("5"@, page as nat),
            ENR::Charts => "6"@,
        }
    }

    /// Appends the number of the part to `out`.
    pub fn push_label(&self, out: &mut Vec<char>)
        ensures
            final(out)@ == old(out)@ + self.label_spec(),
    {
        match self {
            ENR::TableOfContents => push_str(out, "0.1"),
            ENR::GeneralRules(page) => push_numbered(out, "1", *page),
            ENR::ATSAirspace(page) => push_numbered(out, "2", *page),
            ENR::ATSRoutes(page) => push_numbered(out, "3", *page),
            ENR::RadioNavAids(page) => push_numbered(out, "4", *page),
            ENR::NavWarnings(page) => push_numbered(out, "5", *page),
            ENR::Charts => push_str(out, "6"),
        }
    }
}

/// The Aerodromes parts of an AIP.
#[derive(Debug, Clone, PartialEq)]
pub enum AD {
    /// AD 0
    TableOfContents,
    /// AD 1 Aerodromes/Heliports -- Introduction
    Introduction(usize),
    /// AD 2 Aerodromes
    Aerodromes(String),
    /// AD 3 Heliports
    Heliports(String),
}

impl AD {
    /// The number of the part in a location.
    pub open spec fn label_spec(self) -> Seq<char> {
        match self {
            AD::TableOfContents => "0.1"@,
            AD::Introduction(page) => numbered("1"@, page as nat),
            AD::Aerodromes(icao) => named("2"@, icao@),
            AD::Heliports(icao) => named("3"@, icao@),
        }
    }

    /// Appends the number of the part to `out`.
    pub fn push_label(&self, out: &mut Vec<char>)
        ensures
            final(out)@ == old(out)@ + self.label_spec(),
    {
        match self {
            AD::TableOfContents => push_str(out, "0.1"),
            AD::Introduction(page) => push_numbered(out, "1", *page),
            AD::Aerodromes(icao) => push_named(out, "2", icao.as_str()),
            AD::Heliports(icao) => push_named(out, "3", icao.as_str()),
        }
    }
}

/// The parts of an AIP.
#[derive(Debug, Clone, PartialEq)]
pub enum Part {
    /// General (GEN)
    General(GEN),
    /// En-Route (ENR)
    EnRoute(ENR),
    /// Aerodromes (AD)
    Aerodromes(AD),
}

impl Part {
    /// The name of the part in a location.
    pub open spec fn label_spec(self) -> Seq<char> {
        match self {
            Part::General(g) => "GEN-"@ + g.label_spec(),
            Part::EnRoute(e) => "ENR-"@ + e.label_spec(),
            Part::Aerodromes(a) => "AD-"@ + a.label_spec(),
        }
    }

    /// Appends the name of the part to `out`.
    pub fn push_label(&self, out: &mut Vec<char>)
        ensures
            final(out)@ == old(out)@ + self.label_spec(),
    {
        match self {
            Part::General(g) => {
                push_str(out, "GEN-");
                g.push_label(out);
                proof {
                    assert(final(out)@ == old(out)@ + ("GEN-"@ + g.label_spec()));
                }
            },
            Part::EnRoute(e) => {
                push_str(out, "ENR-");
                e.push_label(out);
                proof {
                    assert(final(out)@ == old(out)@ + ("ENR-"@ + e.label_spec()));
                }
            },
            Part::Aerodromes(a) => {
                push_str(out, "AD-");
                a.push_label(out);
                proof {
                    assert(final(out)@ == old(out)@ + ("AD-"@ + a.label_spec()));
                }
            },
        }
    }

    /// The name of the part in a location.
    pub fn label(&self) -> (r: String)
        ensures
            r@ == self.label_spec(),
    {
        let mut out: Vec<char> = Vec::new();
        self.push_label(&mut out);
        proof {
            assert(out@ == self.label_spec());
        }
        to_text(&out)
    }
}

/// The location of a section in an eAIP package:
/// `/<type>/eAIP/<country>-<section>-<locale>.<type>`.
pub open spec fn location_of(
    country_code: Seq<char>,
    section: Part,
    locale: Seq<char>,
    typ: EAIPType,
) -> Seq<char> {
    "/"@ + typ.label_spec() + "/eAIP/"@ + country_code + "-"@ + section.label_spec() + "-"@
        + locale + "."@ + typ.label_spec()
}

/// The folder of a publication: the date on which it takes effect, as
/// `/<year>-<month>-<day>-AIRAC`, the year with four digits at least and the
/// month and the day with two.
pub open spec fn dated_folder(year: int, month: int, day: int) -> Seq<char> {
    "/"@ + signed_padded(year, 4) + "-"@ + signed_padded(month, 2) + "-"@ + signed_padded(day, 2)
        + "-AIRAC"@
}

/// Generates the location in an eAIP package for a particular section.
pub fn generate_location(country_code: &str, section: Part, locale: &str, typ: EAIPType) -> (r:
    String)
    ensures
        r@ == location_of(country_code@, section, locale@, typ),
{
    let mut out: Vec<char> = Vec::new();
    push_location(&mut out, country_code, &section, locale, typ);
    proof {
        assert(out@ == location_of(country_code@, section, locale@, typ));
    }
    to_text(&out)
}

/// Appends the location of a section to `out`.
fn push_location(
    out: &mut Vec<char>,
    country_code: &str,
    section: &Part,
    locale: &str,
    typ: EAIPType,
)
    ensures
        final(out)@ == old(out)@ + location_of(country_code@, *section, locale@, typ),
{
    push_str(out, "/");
    push_str(out, typ.label());
    push_str(out, "/eAIP/");
    push_str(out, country_code);
    push_str(out, "-");
    section.push_label(out);
    push_str(out, "-");
    push_str(out, locale);
    push_str(out, ".");
    push_str(out, typ.label());
    proof {
        assert(final(out)@ == old(out)@ + location_of(country_code@, *section, locale@, typ));
    }
}

/// The location of a section within the publication that takes effect on
/// the given date.
pub fn generate_location_with_date(
    year: i32,
    month: u32,
    day: u32,
    country_code: &str,
    section: Part,
    locale: &str,
    typ: EAIPType,
) -> (r: String)
    ensures
        r@ == dated_folder(year as int, month as int, day as int) + location_of(
            country_code@,
            section,
            locale@,
            typ,
        ),
{
    let mut out: Vec<char> = Vec::new();
    push_str(&mut out, "/");
    push_padded(&mut out, year as i64, 4);
    push_str(&mut out, "-");
    push_padded(&mut out, month as i64, 2);
    push_str(&mut out, "-");
    push_padded(&mut out, day as i64, 2);
    push_str(&mut out, "-AIRAC");
    proof {
        assert(out@ == dated_folder(year as int, month as int, day as int));
    }
    push_location(&mut out, country_code, &section, locale, typ);
    to_text(&out)
}

/// Generates the location of a section within the publication of an AIRAC
/// cycle.
pub fn generate_location_with_airac(
    airac: AIRAC,
    country_code: &str,
    section: Part,
    locale: &str,
    typ: EAIPType,
) -> (r: String)
    ensures
        r@ == dated_folder(cycle_start(airac).0, cycle_start(airac).1, cycle_start(airac).2)
            + location_of(country_code@, section, locale@, typ),
{
    let (year, month, day) = start_of_cycle(&airac);
    generate_location_with_date(year, month, day, country_code, section, locale, typ)
}

} // verus!
