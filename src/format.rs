//! The names of the supported file formats.
use vstd::prelude::*;

verus! {

/// A file format that entries can be read from or written to.
#[derive(Debug, PartialEq, Eq, Clone, Copy)]
pub enum Format {
    ATools,
    Csv,
}

/// The text that `str::to_lowercase` makes of `s`.
pub uninterp spec fn lower_of(s: Seq<char>) -> Seq<char>;

/// Relies on `str::to_lowercase`: the result depends on the characters alone.
#[verifier::external_body]
fn lowercase(s: &str) -> (r: String)
    ensures
        r@ == lower_of(s@),
{
    s.to_lowercase()
}

/// The format that a lower-case name stands for.
pub open spec fn format_named(name: Seq<char>) -> Option<Format> {
    if name == seq!['a', 't', 'o', 'o', 'l', 's'] {
        Some(Format::ATools)
    } else if name == seq!['c', 's', 'v'] {
        Some(Format::Csv)
    } else {
        None
    }
}

fn is_word(s: &str, w: &str) -> (r: bool)
    ensures
        r == (s@ == w@),
{
    let n = s.unicode_len();
    if n != w.unicode_len() {
        return false;
    }
    let mut i: usize = 0;
    while i < n
        invariant
            n == s@.len() == w@.len(),
            i <= n,
            forall|j: int| 0 <= j < i ==> s@[j] == w@[j],
        decreases n - i,
    {
        if s.get_char(i) != w.get_char(i) {
            return false;
        }
        i = i + 1;
    }
    assert(s@ == w@);
    true
}

/// The error for a name that is not a format's.
pub open spec fn format_error() -> Seq<char> {
    "invalid format name ; available formats are: atools, csv"@
}

impl Format {
    /// The format named by `name`, already in lower case.
    pub fn from_lowercase(name: &str) -> (r: Result<Format, &'static str>)
        ensures
            match format_named(name@) {
                Some(f) => r == Ok::<Format, &'static str>(f),
                None => r is Err && r->Err_0@ == format_error(),
            },
    {
        proof {
            reveal_strlit("atools");
            reveal_strlit("csv");
            assert("atools"@ =~= seq!['a', 't', 'o', 'o', 'l', 's']);
            assert("csv"@ =~= seq!['c', 's', 'v']);
        }
        if is_word(name, "atools") {
            Ok(Format::ATools)
        } else if is_word(name, "csv") {
            Ok(Format::Csv)
        } else {
            Err("invalid format name ; available formats are: atools, csv")
        }
    }

    /// The format named by `name`, in any letter case.
    pub fn from_name(name: &str) -> (r: Result<Format, &'static str>)
        ensures
            match format_named(lower_of(name@)) {
                Some(f) => r == Ok::<Format, &'static str>(f),
                None => r is Err && r->Err_0@ == format_error(),
            },
    {
        let lower = lowercase(name);
        Format::from_lowercase(lower.as_str())
    }
}

impl std::str::FromStr for Format {
    type Err = &'static str;

    fn from_str(s: &str) -> (r: Result<Format, &'static str>)
        ensures
            match format_named(lower_of(s@)) {
                Some(f) => r == Ok::<Format, &'static str>(f),
                None => r is Err && r->Err_0@ == format_error(),
            },
    {
        Format::from_name(s)
    }
}

} // verus!
