//! The publications of some national aeronautical information services.

use crate::eaip::{EAIPView, EAIP};
use vstd::prelude::*;

verus! {

/// A publication together with the names that go with it.
pub struct NamedEAIP {
    /// The ISO 3166 code of the country, two capital letters.
    pub country: &'static str,
    /// The name of the service.
    pub name: &'static str,
    /// The letters that every ICAO code of the country starts with.
    pub icao_prefix: &'static str,
    /// The web address of the service.
    pub url: &'static str,
    /// The publication.
    pub eaip: EAIP,
}

impl NamedEAIP {
    /// The ISO 3166 code of the country of this service, two capital letters.
    pub fn country(&self) -> (r: &'static str)
        ensures
            r@ == self.country@,
    {
        self.country
    }

    /// The name of this service, fit to be shown.
    pub fn name(&self) -> (r: &'static str)
        ensures
            r@ == self.name@,
    {
        self.name
    }

    /// The publication of this service.
    pub fn eaip(&self) -> (r: &EAIP)
        ensures
            r@ == self.eaip@,
    {
        &self.eaip
    }

    /// The letters that every ICAO code within this service starts with.
    pub fn icao_prefix(&self) -> (r: &'static str)
        ensures
            r@ == self.icao_prefix@,
    {
        self.icao_prefix
    }

    /// The web address of this service.
    pub fn url(&self) -> (r: &'static str)
        ensures
            r@ == self.url@,
    {
        self.url
    }
}

/// Whether `named` is the service of the United Kingdom, NATS.
pub open spec fn is_gb(named: NamedEAIP) -> bool {
    &&& named.country@ == "GB"@
    &&& named.name@ == "NATS"@
    &&& named.icao_prefix@ == "EG"@
    &&& named.url@ == "https://nats.aero"@
    &&& named.eaip@ == (EAIPView {
        base_uri: "https://www.aurora.nats.co.uk/htmlAIP/Publications"@,
        country_code: "EG"@,
        locale: "en-GB"@,
        publish_offset_days: 0,
    })
}

/// Whether `named` is the service of the Netherlands, LVNL, whose
/// publication appears two weeks ahead.
pub open spec fn is_nl(named: NamedEAIP) -> bool {
    &&& named.country@ == "NL"@
    &&& named.name@ == "LVNL"@
    &&& named.icao_prefix@ == "EH"@
    &&& named.url@ == "https://lvnl.nl"@
    &&& named.eaip@ == (EAIPView {
        base_uri: "https://eaip.lvnl.nl"@,
        country_code: "EH"@,
        locale: "en-GB"@,
        publish_offset_days: 14,
    })
}

/// United Kingdom: NATS.
pub fn gb() -> (r: NamedEAIP)
    ensures
        is_gb(r),
{
    NamedEAIP {
        country: "GB",
        name: "NATS",
        icao_prefix: "EG",
        url: "https://nats.aero",
        eaip: EAIP::new("https://www.aurora.nats.co.uk/htmlAIP/Publications", "EG", "en-GB"),
    }
}

/// The Netherlands: LVNL, whose publication appears two weeks ahead.
pub fn nl() -> (r: NamedEAIP)
    ensures
        is_nl(r),
{
    NamedEAIP {
        country: "NL",
        name: "LVNL",
        icao_prefix: "EH",
        url: "https://lvnl.nl",
        eaip: EAIP::new_with_offset("https://eaip.lvnl.nl", "EH", "en-GB", 14),
    }
}

/// All the services: the United Kingdom, then the Netherlands.
pub fn all() -> (r: Vec<NamedEAIP>)
    ensures
        r@.len() == 2,
        is_gb(r@[0]),
        is_nl(r@[1]),
{
    let mut out: Vec<NamedEAIP> = Vec::new();
    out.push(gb());
    out.push(nl());
    out
}

} // verus!
