//! The records that extraction produces.

use vstd::prelude::*;

verus! {

/// An angle in decimal degrees, held exactly as a signed fraction:
/// `numerator / denominator`, negated where `negative` is set.
#[derive(Clone, Copy, Debug, PartialEq, Eq)]
pub struct Degrees {
    /// Set for the southern and western hemispheres.
    pub negative: bool,
    /// The numerator of the magnitude.
    pub numerator: u64,
    /// The denominator of the magnitude; never 0 in a well-formed angle.
    pub denominator: u64,
}

impl Degrees {
    /// A well-formed angle has a denominator that is not 0.
    pub open spec fn wf(self) -> bool {
        self.denominator > 0
    }

    /// Whether the angle is zero degrees, whatever its sign.
    pub open spec fn is_zero_spec(self) -> bool {
        self.numerator == 0
    }

    /// Zero degrees.
    pub fn zero() -> (r: Degrees)
        ensures
            r == (Degrees { negative: false, numerator: 0, denominator: 1 }),
            r.wf(),
            r.is_zero_spec(),
    {
        Degrees { negative: false, numerator: 0, denominator: 1 }
    }

    /// Whether the angle is zero degrees, whatever its sign.
    pub fn is_zero(&self) -> (r: bool)
        ensures
            r == self.is_zero_spec(),
    {
        self.numerator == 0
    }
}

/// The kind of a radio navaid.
#[derive(Debug, Copy, Clone, PartialEq, Eq, Structural)]
pub enum NavAidKind {
    /// A VOR (VHF omnidirectional range) navaid.
    VOR,
    /// A DME (distance measuring equipment) only navaid.
    DME,
    /// A combined VOR/DME navaid.
    VORDME,
    /// An NDB (non-directional beacon) navaid.
    NDB,
}

impl Default for NavAidKind {
    fn default() -> (r: Self)
        ensures
            r == NavAidKind::VOR,
    {
        NavAidKind::VOR
    }
}

/// A radio-based navigational aid.
#[derive(Debug, Clone, PartialEq)]
pub struct NavAid {
    /// The identifier, three letters as a rule.
    pub id: String,
    /// The full name.
    pub name: String,
    /// The kind of navaid.
    pub kind: NavAidKind,
    /// The frequency in kHz.
    pub frequency_khz: usize,
    /// The latitude.
    pub latitude: Degrees,
    /// The longitude.
    pub longitude: Degrees,
    /// The elevation in feet; 0 where the source gives none.
    pub elevation: usize,
}

/// What a [`NavAid`] holds, as plain values.
pub struct NavAidView {
    pub id: Seq<char>,
    pub name: Seq<char>,
    pub kind: NavAidKind,
    pub frequency_khz: nat,
    pub latitude: Degrees,
    pub longitude: Degrees,
    pub elevation: nat,
}

impl NavAidView {
    /// The record in which no field was set.
    pub open spec fn blank() -> NavAidView {
        NavAidView {
            id: Seq::empty(),
            name: Seq::empty(),
            kind: NavAidKind::VOR,
            frequency_khz: 0,
            latitude: Degrees { negative: false, numerator: 0, denominator: 1 },
            longitude: Degrees { negative: false, numerator: 0, denominator: 1 },
            elevation: 0,
        }
    }

    /// Whether every field has the value it has in the blank record. An
    /// angle of zero degrees counts as blank whatever its form.
    pub open spec fn is_blank(self) -> bool {
        &&& self.id.len() == 0
        &&& self.name.len() == 0
        &&& self.kind == NavAidKind::VOR
        &&& self.frequency_khz == 0
        &&& self.latitude.is_zero_spec()
        &&& self.longitude.is_zero_spec()
        &&& self.elevation == 0
    }
}

impl View for NavAid {
    type V = NavAidView;

    open spec fn view(&self) -> NavAidView {
        NavAidView {
            id: self.id@,
            name: self.name@,
            kind: self.kind,
            frequency_khz: self.frequency_khz as nat,
            latitude: self.latitude,
            longitude: self.longitude,
            elevation: self.elevation as nat,
        }
    }
}

impl NavAid {
    /// The record in which no field is set.
    pub fn blank() -> (r: NavAid)
        ensures
            r@ == NavAidView::blank(),
    {
        NavAid {
            id: String::new(),
            name: String::new(),
            kind: NavAidKind::VOR,
            frequency_khz: 0,
            latitude: Degrees::zero(),
            longitude: Degrees::zero(),
            elevation: 0,
        }
    }

    /// Whether no field differs from the blank record.
    pub fn is_blank(&self) -> (r: bool)
        ensures
            r == self@.is_blank(),
    {
        self.id.as_str().is_empty() && self.name.as_str().is_empty() && self.kind
            == NavAidKind::VOR && self.frequency_khz == 0 && self.latitude.is_zero()
            && self.longitude.is_zero() && self.elevation == 0
    }

    /// The identifier of this navaid, three letters as a rule.
    pub fn id(&self) -> (r: &String)
        ensures
            r@ == self@.id,
    {
        &self.id
    }

    /// The full name of this navaid.
    pub fn name(&self) -> (r: &String)
        ensures
            r@ == self@.name,
    {
        &self.name
    }

    /// The kind of this navaid.
    pub fn kind(&self) -> (r: NavAidKind)
        ensures
            r == self@.kind,
    {
        self.kind
    }

    /// The frequency of this navaid in kHz.
    pub fn frequency_khz(&self) -> (r: usize)
        ensures
            r as nat == self@.frequency_khz,
    {
        self.frequency_khz
    }

    /// The latitude of this navaid.
    pub fn latitude(&self) -> (r: Degrees)
        ensures
            r == self@.latitude,
    {
        self.latitude
    }

    /// The longitude of this navaid.
    pub fn longitude(&self) -> (r: Degrees)
        ensures
            r == self@.longitude,
    {
        self.longitude
    }

    /// The elevation of this navaid in feet. For an NDB the source often
    /// gives none, and the elevation is then 0.
    pub fn elevation(&self) -> (r: usize)
        ensures
            r as nat == self@.elevation,
    {
        self.elevation
    }
}

/// An intersection (a named navigational waypoint).
#[derive(Debug, Clone, PartialEq)]
pub struct Intersection {
    /// The designator, five letters.
    pub designator: String,
    /// The latitude.
    pub latitude: Degrees,
    /// The longitude.
    pub longitude: Degrees,
}

/// What an [`Intersection`] holds, as plain values.
pub struct IntersectionView {
    pub designator: Seq<char>,
    pub latitude: Degrees,
    pub longitude: Degrees,
}

impl IntersectionView {
    /// The record in which no field was set.
    pub open spec fn blank() -> IntersectionView {
        IntersectionView {
            designator: Seq::empty(),
            latitude: Degrees { negative: false, numerator: 0, denominator: 1 },
            longitude: Degrees { negative: false, numerator: 0, denominator: 1 },
        }
    }

    /// Whether every field has the value it has in the blank record.
    pub open spec fn is_blank(self) -> bool {
        &&& self.designator.len() == 0
        &&& self.latitude.is_zero_spec()
        &&& self.longitude.is_zero_spec()
    }
}

impl View for Intersection {
    type V = IntersectionView;

    open spec fn view(&self) -> IntersectionView {
        IntersectionView {
            designator: self.designator@,
            latitude: self.latitude,
            longitude: self.longitude,
        }
    }
}

impl Intersection {
    /// The record in which no field is set.
    pub fn blank() -> (r: Intersection)
        ensures
            r@ == IntersectionView::blank(),
    {
        Intersection {
            designator: String::new(),
            latitude: Degrees::zero(),
            longitude: Degrees::zero(),
        }
    }

    /// Whether no field differs from the blank record.
    pub fn is_blank(&self) -> (r: bool)
        ensures
            r == self@.is_blank(),
    {
        self.designator.as_str().is_empty() && self.latitude.is_zero()
            && self.longitude.is_zero()
    }

    /// The designator of the intersection, five letters.
    pub fn designator(&self) -> (r: &String)
        ensures
            r@ == self@.designator,
    {
        &self.designator
    }

    /// The latitude of the intersection.
    pub fn latitude(&self) -> (r: Degrees)
        ensures
            r == self@.latitude,
    {
        self.latitude
    }

    /// The longitude of the intersection.
    pub fn longitude(&self) -> (r: Degrees)
        ensures
            r == self@.longitude,
    {
        self.longitude
    }
}

/// A waypoint on an airway.
#[derive(Debug, Clone, PartialEq)]
pub struct AirwayWaypoint {
    /// The designator: three characters for a navaid, five for an
    /// intersection.
    pub designator: String,
    /// The lower limit of the airway at this waypoint, as the source words it.
    pub lower_limit: String,
    /// The upper limit of the airway at this waypoint, as the source words it.
    pub upper_limit: String,
}

/// What an [`AirwayWaypoint`] holds, as plain values.
pub struct AirwayWaypointView {
    pub designator: Seq<char>,
    pub lower_limit: Seq<char>,
    pub upper_limit: Seq<char>,
}

impl View for AirwayWaypoint {
    type V = AirwayWaypointView;

    open spec fn view(&self) -> AirwayWaypointView {
        AirwayWaypointView {
            designator: self.designator@,
            lower_limit: self.lower_limit@,
            upper_limit: self.upper_limit@,
        }
    }
}

impl AirwayWaypoint {
    /// A waypoint with the given designator and no limits.
    pub fn new(designator: String) -> (r: AirwayWaypoint)
        ensures
            r@ == (AirwayWaypointView {
                designator: designator@,
                lower_limit: Seq::empty(),
                upper_limit: Seq::empty(),
            }),
    {
        AirwayWaypoint { designator, lower_limit: String::new(), upper_limit: String::new() }
    }

    /// The designator of the waypoint: five characters long for an
    /// intersection, three for a radio navaid.
    pub fn designator(&self) -> (r: &String)
        ensures
            r@ == self@.designator,
    {
        &self.designator
    }

    /// Whether this waypoint is a navaid: its designator has three
    /// characters.
    pub fn is_navaid(&self) -> (r: bool)
        ensures
            r == (self@.designator.len() == 3),
    {
        self.designator.as_str().unicode_len() == 3
    }

    /// Whether this waypoint is an intersection: its designator has five
    /// characters.
    pub fn is_intersection(&self) -> (r: bool)
        ensures
            r == (self@.designator.len() == 5),
    {
        self.designator.as_str().unicode_len() == 5
    }

    /// The lower limit of the airway at this waypoint.
    pub fn lower_limit(&self) -> (r: &String)
        ensures
            r@ == self@.lower_limit,
    {
        &self.lower_limit
    }

    /// The upper limit of the airway at this waypoint.
    pub fn upper_limit(&self) -> (r: &String)
        ensures
            r@ == self@.upper_limit,
    {
        &self.upper_limit
    }
}

/// The views of a sequence of waypoints.
pub open spec fn waypoint_views(v: Seq<AirwayWaypoint>) -> Seq<AirwayWaypointView> {
    Seq::new(v.len(), |i: int| v[i]@)
}

/// An airway.
#[derive(Debug, Clone, PartialEq)]
pub struct Airway {
    /// The designator; it starts with `U` for an upper airway.
    pub designator: String,
    /// The waypoints in route order.
    pub waypoints: Vec<AirwayWaypoint>,
}

/// What an [`Airway`] holds, as plain values.
pub struct AirwayView {
    pub designator: Seq<char>,
    pub waypoints: Seq<AirwayWaypointView>,
}

impl AirwayView {
    /// Whether the airway has neither a designator nor a waypoint.
    pub open spec fn is_blank(self) -> bool {
        self.designator.len() == 0 && self.waypoints.len() == 0
    }
}

impl View for Airway {
    type V = AirwayView;

    open spec fn view(&self) -> AirwayView {
        AirwayView { designator: self.designator@, waypoints: waypoint_views(self.waypoints@) }
    }
}

impl Airway {
    /// Whether the airway has neither a designator nor a waypoint.
    pub fn is_blank(&self) -> (r: bool)
        ensures
            r == self@.is_blank(),
    {
        self.designator.as_str().is_empty() && self.waypoints.len() == 0
    }

    /// The designator of the airway; it starts with `U` for an upper airway.
    pub fn designator(&self) -> (r: &String)
        ensures
            r@ == self@.designator,
    {
        &self.designator
    }

    /// The waypoints of this airway, in route order.
    pub fn waypoints(&self) -> (r: &Vec<AirwayWaypoint>)
        ensures
            waypoint_views(r@) == self@.waypoints,
    {
        &self.waypoints
    }
}

/// A chart of an airport.
#[derive(Debug, Clone, PartialEq)]
pub struct Chart {
    /// The title of the chart.
    pub title: String,
    /// The address of the chart, as the page gives it; it may be relative.
    pub url: String,
}

/// What a [`Chart`] holds, as plain values.
pub struct ChartView {
    pub title: Seq<char>,
    pub url: Seq<char>,
}

impl View for Chart {
    type V = ChartView;

    open spec fn view(&self) -> ChartView {
        ChartView { title: self.title@, url: self.url@ }
    }
}

impl Chart {
    /// The title of the chart.
    pub fn title(&self) -> (r: &String)
        ensures
            r@ == self@.title,
    {
        &self.title
    }

    /// The address of the chart.
    pub fn url(&self) -> (r: &String)
        ensures
            r@ == self@.url,
    {
        &self.url
    }
}

/// The views of a sequence of charts.
pub open spec fn chart_views(v: Seq<Chart>) -> Seq<ChartView> {
    Seq::new(v.len(), |i: int| v[i]@)
}

/// Data about an airport.
#[derive(Debug, Clone, PartialEq)]
pub struct Airport {
    /// The ICAO code.
    pub icao: String,
    /// The name.
    pub name: String,
    /// The latitude.
    pub latitude: Degrees,
    /// The longitude.
    pub longitude: Degrees,
    /// The elevation in feet.
    pub elevation: usize,
    /// The charts, in the order of the page.
    pub charts: Vec<Chart>,
}

/// What an [`Airport`] holds, as plain values.
pub struct AirportView {
    pub icao: Seq<char>,
    pub name: Seq<char>,
    pub latitude: Degrees,
    pub longitude: Degrees,
    pub elevation: nat,
    pub charts: Seq<ChartView>,
}

impl AirportView {
    /// The record in which no field was set.
    pub open spec fn blank() -> AirportView {
        AirportView {
            icao: Seq::empty(),
            name: Seq::empty(),
            latitude: Degrees { negative: false, numerator: 0, denominator: 1 },
            longitude: Degrees { negative: false, numerator: 0, denominator: 1 },
            elevation: 0,
            charts: Seq::empty(),
        }
    }
}

impl View for Airport {
    type V = AirportView;

    open spec fn view(&self) -> AirportView {
        AirportView {
            icao: self.icao@,
            name: self.name@,
            latitude: self.latitude,
            longitude: self.longitude,
            elevation: self.elevation as nat,
            charts: chart_views(self.charts@),
        }
    }
}

impl Airport {
    /// The record in which no field is set.
    pub fn blank() -> (r: Airport)
        ensures
            r@ == AirportView::blank(),
    {
        let r = Airport {
            icao: String::new(),
            name: String::new(),
            latitude: Degrees::zero(),
            longitude: Degrees::zero(),
            elevation: 0,
            charts: Vec::new(),
        };
        proof {
            assert(chart_views(r.charts@) == Seq::<ChartView>::empty());
        }
        r
    }

    /// The ICAO code of the aerodrome.
    pub fn icao(&self) -> (r: &String)
        ensures
            r@ == self@.icao,
    {
        &self.icao
    }

    /// The name of the aerodrome.
    pub fn name(&self) -> (r: &String)
        ensures
            r@ == self@.name,
    {
        &self.name
    }

    /// The latitude of the aerodrome.
    pub fn latitude(&self) -> (r: Degrees)
        ensures
            r == self@.latitude,
    {
        self.latitude
    }

    /// The longitude of the aerodrome.
    pub fn longitude(&self) -> (r: Degrees)
        ensures
            r == self@.longitude,
    {
        self.longitude
    }

    /// The elevation of the aerodrome in feet.
    pub fn elevation(&self) -> (r: usize)
        ensures
            r as nat == self@.elevation,
    {
        self.elevation
    }

    /// The charts of the aerodrome.
    pub fn charts(&self) -> (r: &Vec<Chart>)
        ensures
            chart_views(r@) == self@.charts,
    {
        &self.charts
    }
}

impl Default for Degrees {
    fn default() -> (r: Degrees)
        ensures
            r == (Degrees { negative: false, numerator: 0, denominator: 1 }),
    {
        Degrees::zero()
    }
}

impl Default for NavAid {
    fn default() -> (r: NavAid)
        ensures
            r@ == NavAidView::blank(),
    {
        NavAid::blank()
    }
}

impl Default for Intersection {
    fn default() -> (r: Intersection)
        ensures
            r@ == IntersectionView::blank(),
    {
        Intersection::blank()
    }
}

impl Default for AirwayWaypoint {
    fn default() -> (r: AirwayWaypoint)
        ensures
            r@ == (AirwayWaypointView {
                designator: Seq::empty(),
                lower_limit: Seq::empty(),
                upper_limit: Seq::empty(),
            }),
    {
        AirwayWaypoint::new(String::new())
    }
}

impl Default for Airway {
    fn default() -> (r: Airway)
        ensures
            r@.is_blank(),
    {
        let r = Airway { designator: String::new(), waypoints: Vec::new() };
        proof {
            assert(waypoint_views(r.waypoints@).len() == 0);
        }
        r
    }
}

impl Default for Chart {
    fn default() -> (r: Chart)
        ensures
            r@ == (ChartView { title: Seq::empty(), url: Seq::empty() }),
    {
        Chart { title: String::new(), url: String::new() }
    }
}

impl Default for Airport {
    fn default() -> (r: Airport)
        ensures
            r@ == AirportView::blank(),
    {
        Airport::blank()
    }
}

} // verus!
