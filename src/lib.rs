//! Conversion of translation catalogs between the ATools resource format and CSV.
pub mod composer;
pub mod error;
pub mod format;
pub mod fromage;
pub mod parser;
pub mod round_trip;
pub mod text;
