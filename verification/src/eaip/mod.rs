//! An online publication and the addresses of its pages.

use crate::address::{address_kind, complete, complete_address, kind_of_address, AddressKind};
use crate::error::{Error, ErrorView, Result};
use crate::parts::{
    cycle_start, dated_folder, generate_location_with_date, location_of, start_of_cycle,
    EAIPType, Part,
};
use crate::text::{to_chars, to_text};
use crate::types::{Airport, AirportView, Chart, ChartView, chart_views};
use airac::AIRAC;
use chrono::{Datelike, NaiveDate, TimeDelta};
use vstd::prelude::*;

pub mod ais;

verus! {

/// The date that lies `days` days before the given date; `None` where the
/// given date does not exist or the result is beyond the calendar.
pub uninterp spec fn date_before(year: int, month: int, day: int, days: int) -> Option<
    (int, int, int),
>;

/// `NaiveDate::from_ymd_opt`, `TimeDelta::try_days` and
/// `NaiveDate::checked_sub_signed`: the date that lies `days` days before
/// the given one. `None` where one of the three gives none.
#[verifier::external_body]
pub(crate) fn days_before(date: (i32, u32, u32), days: i64) -> (r: Option<(i32, u32, u32)>)
    ensures
        match r {
            Some(d) => date_before(date.0 as int, date.1 as int, date.2 as int, days as int)
                == Some((d.0 as int, d.1 as int, d.2 as int)),
            None => date_before(date.0 as int, date.1 as int, date.2 as int, days as int)
                is None,
        },
{
    let from = NaiveDate::from_ymd_opt(date.0, date.1, date.2)?;
    let to = from.checked_sub_signed(TimeDelta::try_days(days)?)?;
    Some((to.year(), to.month(), to.day()))
}

/// Details of an online aeronautical information publication.
#[derive(Debug, Clone, PartialEq, Eq)]
pub struct EAIP {
    /// The address under which the publication is kept.
    pub base_uri: String,
    /// The country code that the names of its pages start with.
    pub country_code: String,
    /// The locale of its pages.
    pub locale: String,
    /// How many days before a cycle starts the publication for it appears.
    pub publish_offset_days: i64,
}

/// What an [`EAIP`] holds, as plain values.
pub struct EAIPView {
    pub base_uri: Seq<char>,
    pub country_code: Seq<char>,
    pub locale: Seq<char>,
    pub publish_offset_days: int,
}

impl View for EAIP {
    type V = EAIPView;

    open spec fn view(&self) -> EAIPView {
        EAIPView {
            base_uri: self.base_uri@,
            country_code: self.country_code@,
            locale: self.locale@,
            publish_offset_days: self.publish_offset_days as int,
        }
    }
}

/// The date under which the publication for a cycle is filed: the start of
/// the cycle where the offset is 0, else the date that lies the offset
/// before it.
pub open spec fn publication_date(start: (int, int, int), offset_days: int) -> Option<
    (int, int, int),
> {
    if offset_days == 0 {
        Some(start)
    } else {
        date_before(start.0, start.1, start.2, offset_days)
    }
}

/// The address of a page of a publication, where its date is within the
/// calendar.
pub open spec fn url_of(
    eaip: EAIPView,
    start: (int, int, int),
    part: Part,
    typ: EAIPType,
) -> Option<Seq<char>> {
    match publication_date(start, eaip.publish_offset_days) {
        Some(date) => Some(
            eaip.base_uri + (dated_folder(date.0, date.1, date.2) + location_of(
                eaip.country_code,
                part,
                eaip.locale,
                typ,
            )),
        ),
        None => None,
    }
}

impl EAIP {
    /// A publication that appears on the day on which its cycle starts.
    pub fn new(base_uri: &str, country_code: &str, locale: &str) -> (r: EAIP)
        ensures
            r@ == (EAIPView {
                base_uri: base_uri@,
                country_code: country_code@,
                locale: locale@,
                publish_offset_days: 0,
            }),
    {
        EAIP::new_with_offset(base_uri, country_code, locale, 0)
    }

    /// A publication that appears `publish_offset_days` days before its
    /// cycle starts: 14 for one that appears two weeks ahead.
    pub fn new_with_offset(
        base_uri: &str,
        country_code: &str,
        locale: &str,
        publish_offset_days: i64,
    ) -> (r: EAIP)
        ensures
            r@ == (EAIPView {
                base_uri: base_uri@,
                country_code: country_code@,
                locale: locale@,
                publish_offset_days: publish_offset_days as int,
            }),
    {
        EAIP {
            base_uri: base_uri.to_owned(),
            country_code: country_code.to_owned(),
            locale: locale.to_owned(),
            publish_offset_days,
        }
    }

    /// The address of a page of the publication for the cycle that starts on
    /// the given date. `None` where the date of the publication is beyond
    /// the calendar.
    pub fn generate_url_for_start(&self, start: (i32, u32, u32), part: Part, typ: EAIPType) -> (r:
        Option<String>)
        ensures
            match r {
                Some(url) => url_of(
                    self@,
                    (start.0 as int, start.1 as int, start.2 as int),
                    part,
                    typ,
                ) == Some(url@),
                None => url_of(
                    self@,
                    (start.0 as int, start.1 as int, start.2 as int),
                    part,
                    typ,
                ) is None,
            },
    {
        let date = if self.publish_offset_days == 0 {
            Some(start)
        } else {
            days_before(start, self.publish_offset_days)
        };
        match date {
            Some((year, month, day)) => {
                let location = generate_location_with_date(
                    year,
                    month,
                    day,
                    self.country_code.as_str(),
                    part,
                    self.locale.as_str(),
                    typ,
                );
                let mut url = to_chars(self.base_uri.as_str());
                let mut rest = to_chars(location.as_str());
                url.append(&mut rest);
                Some(to_text(&url))
            },
            None => None,
        }
    }

    /// The address of a page of the publication for an AIRAC cycle. `None`
    /// where the date of the publication is beyond the calendar.
    pub fn generate_url(&self, airac: AIRAC, part: Part, typ: EAIPType) -> (r: Option<String>)
        ensures
            match r {
                Some(url) => url_of(self@, cycle_start(airac), part, typ) == Some(url@),
                None => url_of(self@, cycle_start(airac), part, typ) is None,
            },
    {
        let start = start_of_cycle(&airac);
        self.generate_url_for_start(start, part, typ)
    }
}

/// The position of the first chart whose address is relative and cannot be
/// joined to `base`, from the `k`-th chart on; the number of charts where
/// there is none.
pub open spec fn first_malformed(charts: Seq<ChartView>, base: Seq<char>, k: nat) -> nat
    decreases charts.len() - k,
{
    if k >= charts.len() {
        charts.len()
    } else if complete_address(base, charts[k as int].url) is None {
        k
    } else {
        first_malformed(charts, base, k + 1)
    }
}

/// The charts with the addresses of the first `n` of them made complete
/// against `base`.
pub open spec fn charts_completed(charts: Seq<ChartView>, base: Seq<char>, n: nat) -> Seq<
    ChartView,
> {
    Seq::new(
        charts.len(),
        |i: int|
            if i < n {
                match complete_address(base, charts[i].url) {
                    Some(url) => ChartView { title: charts[i].title, url },
                    None => charts[i],
                }
            } else {
                charts[i]
            },
    )
}

/// The airport and the outcome after its chart addresses are made complete
/// against the address `base` of its page, `base` being `None` where the
/// page has no address. Without a complete base address nothing changes and
/// the outcome is an error. Else the charts before the first malformed one
/// are completed; the outcome is an error where there is a malformed one.
pub open spec fn canonicalised(airport: AirportView, eaip: EAIPView, base: Option<Seq<char>>) -> (
    AirportView,
    Option<ErrorView>,
) {
    match base {
        Some(base) => if address_kind(base) == AddressKind::Absolute {
            let stop = first_malformed(airport.charts, base, 0);
            (
                AirportView { charts: charts_completed(airport.charts, base, stop), ..airport },
                if stop < airport.charts.len() {
                    Some(ErrorView::ChartURLMalformed(airport.charts[stop as int].url))
                } else {
                    None
                },
            )
        } else {
            (airport, Some(ErrorView::EAIPInvalidBaseURL(base)))
        },
        None => (airport, Some(ErrorView::EAIPInvalidBaseURL(eaip.base_uri))),
    }
}

/// What a result without a value holds, as plain values.
pub open spec fn outcome_view(r: Result<()>) -> Option<ErrorView> {
    match r {
        Ok(_) => None,
        Err(e) => Some(e@),
    }
}

impl Airport {
    /// Makes the chart addresses complete against the address `base` of the
    /// page of the airport. The first chart whose address is relative and
    /// cannot be joined to the base ends the work with an error; the charts
    /// before it stay completed.
    pub fn canonicalise_chart_urls_against(&mut self, base: &str) -> (r: Result<()>)
        requires
            address_kind(base@) == AddressKind::Absolute,
        ensures
            final(self)@.icao == old(self)@.icao,
            final(self)@.name == old(self)@.name,
            final(self)@.latitude == old(self)@.latitude,
            final(self)@.longitude == old(self)@.longitude,
            final(self)@.elevation == old(self)@.elevation,
            final(self)@.charts == charts_completed(
                old(self)@.charts,
                base@,
                first_malformed(old(self)@.charts, base@, 0),
            ),
            outcome_view(r) == (if first_malformed(old(self)@.charts, base@, 0) < old(
                self,
            )@.charts.len() {
                Some(
                    ErrorView::ChartURLMalformed(
                        old(self)@.charts[first_malformed(old(self)@.charts, base@, 0) as int].url,
                    ),
                )
            } else {
                None
            }),
    {
        let ghost before = chart_views(self.charts@);
        let n = self.charts.len();
        let mut out: Vec<Chart> = Vec::new();
        let mut i: usize = 0;
        let mut failed: Option<String> = None;
        while i < n && failed.is_none()
            invariant
                i <= n,
                n == self.charts@.len(),
                before == chart_views(self.charts@),
                *self == *old(self),
                out@.len() == i,
                failed is None ==> first_malformed(before, base@, 0) == first_malformed(
                    before,
                    base@,
                    i as nat,
                ),
                failed is None ==> forall|k: int|
                    0 <= k < i ==> (#[trigger] out@[k])@ == charts_completed(before, base@, i as nat)[k],
                failed is Some ==> i > 0 && first_malformed(before, base@, 0) == i - 1
                    && failed->0@ == before[i - 1].url && forall|k: int|
                    0 <= k < i ==> (#[trigger] out@[k])@ == charts_completed(
                        before,
                        base@,
                        (i - 1) as nat,
                    )[k],
            decreases n - i + (if failed is None { 1int } else { 0int }),
        {
            proof {
                assert(before[i as int] == self.charts@[i as int]@);
            }
            let title = self.charts[i].title.clone();
            match complete(base, self.charts[i].url.as_str()) {
                Some(url) => {
                    out.push(Chart { title, url });
                },
                None => {
                    let url = self.charts[i].url.clone();
                    failed = Some(url.clone());
                    out.push(Chart { title, url });
                },
            }
            i += 1;
        }
        let ghost stop = first_malformed(before, base@, 0);
        proof {
            if failed is None {
                assert(i == n);
            }
        }
        while i < n
            invariant
                i <= n,
                n == self.charts@.len(),
                before == chart_views(self.charts@),
                *self == *old(self),
                out@.len() == i,
                stop == first_malformed(before, base@, 0),
                failed is None ==> stop == n && i == n,
                failed is Some ==> stop < i && failed->0@ == before[stop as int].url,
                forall|k: int|
                    0 <= k < i ==> (#[trigger] out@[k])@ == charts_completed(before, base@, stop)[k],
            decreases n - i,
        {
            proof {
                assert(before[i as int] == self.charts@[i as int]@);
            }
            out.push(
                Chart { title: self.charts[i].title.clone(), url: self.charts[i].url.clone() },
            );
            i += 1;
        }
        proof {
            assert(chart_views(out@) =~= charts_completed(before, base@, stop));
        }
        self.charts = out;
        match failed {
            Some(url) => Err(Error::ChartURLMalformed(url)),
            None => Ok(()),
        }
    }

    /// Makes the chart addresses complete, so that none is relative: each
    /// relative address is joined to the address of the page `part` of the
    /// publication for the cycle `airac`.
    pub fn canonicalise_chart_urls(&mut self, eaip: &EAIP, airac: AIRAC, part: Part) -> (r: Result<
        (),
    >)
        ensures
            (final(self)@, outcome_view(r)) == canonicalised(
                old(self)@,
                eaip@,
                url_of(eaip@, cycle_start(airac), part, EAIPType::HTML),
            ),
    {
        match eaip.generate_url(airac, part, EAIPType::HTML) {
            Some(base) => {
                match kind_of_address(base.as_str()) {
                    AddressKind::Absolute => self.canonicalise_chart_urls_against(base.as_str()),
                    _ => Err(Error::EAIPInvalidBaseURL(base)),
                }
            },
            None => Err(Error::EAIPInvalidBaseURL(eaip.base_uri.clone())),
        }
    }
}

} // verus!
