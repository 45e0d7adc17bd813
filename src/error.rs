//! Errors of a conversion run.
use vstd::prelude::*;
use vstd::string::*;

verus! {

#[verifier::external_type_specification]
#[verifier::external_body]
pub struct ExIoError(std::io::Error);

/// Why a conversion, or one line of it, did not go through.
#[derive(Debug)]
pub enum LactoseIntolerance {
    /// The line source or the sink failed.
    Io(std::io::Error),
    /// A fixed configuration problem.
    Static(&'static str),
    /// A problem with one piece of input, described at run time.
    Dyn(String),
}

impl LactoseIntolerance {
    /// The human-readable description of the error.
    pub fn message(&self) -> (r: String)
        ensures
            self is Static ==> r@ == self->Static_0@,
            self is Dyn ==> r@ == self->Dyn_0@,
            self is Io ==> exists|t: String|
                to_string_from_display_ensures::<std::io::Error>(&self->Io_0, t) && r@
                    == "io error: "@ + t@,
    {
        match self {
            LactoseIntolerance::Io(e) => {
                let mut r = String::from_str("io error: ");
                proof {
                    reveal_strlit("io error: ");
                }
                let t = e.to_string();
                r.append(t.as_str());
                assert(to_string_from_display_ensures::<std::io::Error>(e, t) && r@ == "io error: "@
                    + t@);
                r
            },
            LactoseIntolerance::Static(m) => String::from_str(m),
            LactoseIntolerance::Dyn(m) => String::from_str(m.as_str()),
        }
    }
}

impl From<std::io::Error> for LactoseIntolerance {
    fn from(e: std::io::Error) -> (r: LactoseIntolerance) {
        LactoseIntolerance::Io(e)
    }
}

impl vstd::std_specs::convert::FromSpecImpl<std::io::Error> for LactoseIntolerance {
    open spec fn obeys_from_spec() -> bool {
        true
    }

    open spec fn from_spec(v: std::io::Error) -> LactoseIntolerance {
        LactoseIntolerance::Io(v)
    }
}

} // verus!
