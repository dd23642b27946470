//! Extraction of aeronautical records (navaids, intersections, airways and
//! airports) from the HTML pages of an electronic AIP.

pub mod address;
pub mod document;
pub mod eaip;
pub mod error;
pub mod html;
pub mod number;
pub mod parse;
pub mod parts;
pub mod pattern;
pub mod prelude;
pub mod text;
pub mod types;
