//! How a face refuses: the kinds of refusal a host distinguishes, each with
//! the text that explains it.

use vstd::prelude::*;

verus! {

/// Why a face refused a request.
#[derive(Debug, Clone, PartialEq, Eq)]
pub enum NameError {
    /// A required argument was absent (or blank); carries its name.
    MissingArgument(String),
    /// An argument was present but unusable.
    InvalidArgument {
        /// The argument's name.
        name: String,
        /// What was wrong with it.
        detail: String,
    },
    /// The capability does not authorize the request — permanent.
    Denied(String),
    /// The thing the request names does not exist — permanent.
    NotFound(String),
    /// The face could not produce its answer.
    Endpoint(String),
}

/// A refusal, as characters.
pub ghost enum Refusal {
    /// An absent argument, by name.
    Missing(Seq<char>),
    /// An unusable argument: its name and what was wrong.
    Invalid(Seq<char>, Seq<char>),
    /// Not authorized.
    Denied(Seq<char>),
    /// Absent.
    NotFound(Seq<char>),
    /// Failed.
    Endpoint(Seq<char>),
}

impl View for NameError {
    type V = Refusal;

    open spec fn view(&self) -> Refusal {
        match self {
            NameError::MissingArgument(n) => Refusal::Missing(n@),
            NameError::InvalidArgument { name, detail } => Refusal::Invalid(name@, detail@),
            NameError::Denied(m) => Refusal::Denied(m@),
            NameError::NotFound(m) => Refusal::NotFound(m@),
            NameError::Endpoint(m) => Refusal::Endpoint(m@),
        }
    }
}

/// A text outcome, as characters.
pub open spec fn text_outcome(r: Result<String, NameError>) -> Result<Seq<char>, Refusal> {
    match r {
        Ok(s) => Ok(s@),
        Err(e) => Err(e@),
    }
}

/// An outcome with nothing to return, as characters.
pub open spec fn unit_outcome(r: Result<(), NameError>) -> Result<(), Refusal> {
    match r {
        Ok(()) => Ok(()),
        Err(e) => Err(e@),
    }
}

/// An optional argument, as characters.
pub open spec fn arg_view(o: Option<String>) -> Option<Seq<char>> {
    match o {
        Some(s) => Some(s@),
        None => None,
    }
}

} // verus!
