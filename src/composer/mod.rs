//! Composers: each renders entries as lines of one output format.
use crate::fromage::Fromage;
use vstd::prelude::*;

pub mod atools;
pub mod csv;

pub use atools::AToolsComposer;
pub use csv::CsvComposer;

verus! {

/// Renders a stream of entries, one output line per entry.
pub trait FromageCook {
    /// The first line of the output, for formats that begin with a header.
    fn header(&self) -> Option<String>;

    /// The output line for one entry, without its line break.
    fn cook(&mut self, fromage: &Fromage) -> String;

    /// The line break that ends every output line.
    fn line_end(&self) -> &'static str;
}

} // verus!
