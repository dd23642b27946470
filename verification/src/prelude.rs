//! The items that most users of the library need, in one place.

pub use crate::eaip::ais::NamedEAIP;
pub use crate::eaip::EAIP;
pub use crate::error::{Error, Result};
pub use crate::parse::airports::Airports;
pub use crate::parse::airways::Airways;
pub use crate::parse::intersections::Intersections;
pub use crate::parse::navaids::Navaids;
pub use crate::parse::Parser;
pub use crate::parts::{
    generate_location, generate_location_with_airac, EAIPType, Part, AD, ENR, GEN,
};
pub use crate::types::{
    Airport, Airway, AirwayWaypoint, Chart, Degrees, Intersection, NavAid, NavAidKind,
};
