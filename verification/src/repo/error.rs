//! What can go wrong in the repository.

use vstd::prelude::*;

use crate::text::{cat2, cat5, dec, decimal, Text};

verus! {

/// An error of the repository. An I/O failure is kept as its message.
#[derive(Debug, Clone)]
pub enum Error {
    Io(String),
    InvalidName(String),
    Parse { line: usize, message: String },
    AlreadyExists(String),
    NotFound(String),
}

/// An error, as specifications see it.
pub ghost enum Fault {
    Io(Text),
    InvalidName(Text),
    Parse(nat, Text),
    AlreadyExists(Text),
    NotFound(Text),
}

impl View for Error {
    type V = Fault;

    open spec fn view(&self) -> Fault {
        match self {
            Error::Io(e) => Fault::Io(e@),
            Error::InvalidName(s) => Fault::InvalidName(s@),
            Error::Parse { line, message } => Fault::Parse(*line as nat, message@),
            Error::AlreadyExists(s) => Fault::AlreadyExists(s@),
            Error::NotFound(s) => Fault::NotFound(s@),
        }
    }
}

/// A result, as specifications see it.
pub open spec fn outcome<T: View>(r: Result<T, Error>) -> Result<T::V, Fault> {
    match r {
        Ok(v) => Ok(v@),
        Err(e) => Err(e@),
    }
}

/// The text that is shown for an error.
pub open spec fn shown(f: Fault) -> Text {
    match f {
        Fault::Io(e) => e,
        Fault::InvalidName(s) => "invalid unit name: "@ + s,
        Fault::Parse(line, message) => "line "@ + decimal(line) + ": "@ + message,
        Fault::AlreadyExists(s) => "unit definition already exists: "@ + s,
        Fault::NotFound(s) => "unit definition not found: "@ + s,
    }
}

impl Error {
    /// The text that is shown for the error.
    pub fn message(&self) -> (r: String)
        ensures
            r@ == shown(self@),
    {
        match self {
            Error::Io(e) => e.clone(),
            Error::InvalidName(s) => cat2("invalid unit name: ", s.as_str()),
            Error::Parse { line, message } => {
                let n = dec(*line as u64);
                let r = cat5("line ", n.as_str(), ": ", message.as_str(), "");
                proof {
                    reveal_strlit("");
                    assert(r@ =~= shown(self@));
                }
                r
            },
            Error::AlreadyExists(s) => cat2("unit definition already exists: ", s.as_str()),
            Error::NotFound(s) => cat2("unit definition not found: ", s.as_str()),
        }
    }
}

/// An error says what it is about, and where in a file that is.
pub proof fn errors_say_what_is_wrong(s: String, line: usize)
    ensures
        shown(Error::Io(s)@) == s@,
        shown(Error::InvalidName(s)@) == "invalid unit name: "@ + s@,
        shown((Error::Parse { line, message: s })@) == "line "@ + decimal(line as nat) + ": "@ + s@,
        shown(Error::AlreadyExists(s)@) == "unit definition already exists: "@ + s@,
        shown(Error::NotFound(s)@) == "unit definition not found: "@ + s@,
{
}

} // verus!
