//! Parsers: each turns input lines into entries, one line at a time.
use crate::error::LactoseIntolerance;
use crate::fromage::Fromage;
use vstd::prelude::*;

pub mod atools;
pub mod csv;

pub use atools::AToolsMaker;
pub use atools::AToolsParser;
pub use csv::CsvMaker;
pub use csv::CsvParser;



verus! {

/// Builds a parsing process, reading the input's header line if the format has one.
pub trait FromageMaker: Sized {
    type Process: FromagemakingProcess;

    /// `header` is the first input line, for formats that begin with one.
    fn process(self, header: Option<&str>) -> Result<Self::Process, LactoseIntolerance>;
}

/// A forward-only parse of the input, one line per call. A failure on one line
/// leaves the process ready for the next.
pub trait FromagemakingProcess {
    fn next_fromage(&mut self, line: &str) -> Result<Fromage, LactoseIntolerance>;
}

/// The error reported for a line that does not parse: `bad line: <line>`.
pub open spec fn bad_line_message(line: Seq<char>) -> Seq<char> {
    seq!['b', 'a', 'd', ' ', 'l', 'i', 'n', 'e', ':', ' '] + line
}

pub fn bad_line(line: &str) -> (r: LactoseIntolerance)
    ensures
        r is Dyn,
        r->Dyn_0@ == bad_line_message(line@),
{
    let mut m = String::new();
    m.push('b');
    m.push('a');
    m.push('d');
    m.push(' ');
    m.push('l');
    m.push('i');
    m.push('n');
    m.push('e');
    m.push(':');
    m.push(' ');
    let ghost start = m@;
    for c in it: line.chars()
        invariant
            m@ == start + it.seq().subrange(0, it.index() as int),
    {
        m.push(c);
    }
    assert(m@ == bad_line_message(line@));
    LactoseIntolerance::Dyn(m)
}

/// Copies the characters of a string slice into a new `String`.
pub(crate) fn owned_string(s: &str) -> (r: String)
    ensures
        r@ == s@,
{
    let mut out = String::new();
    for c in it: s.chars()
        invariant
            out@ == it.seq().subrange(0, it.index() as int),
    {
        out.push(c);
    }
    out
}

} // verus!
