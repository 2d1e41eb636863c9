//! The error taxonomy of the library.
//!
//! Only malformed user input and failed or overlong name resolution surface
//! as errors; a database miss never does, and a handle that could not be
//! opened blocks only the query paths that need it.

use vstd::prelude::*;

verus! {

/// Why a request could not be answered.
#[derive(Debug, Clone)]
pub enum IpGeoError {
    /// The host or address text is malformed or names a forbidden address.
    InvalidInput(String),
    /// Name resolution returned no address.
    ResolveError,
    /// Name resolution exceeded its time bound.
    TimeoutError,
    /// A lookup handle needed by this query could not be opened.
    DatabaseUnavailable,
}

impl IpGeoError {
    /// The message text a response carries for this error.
    pub fn message(&self) -> (r: String)
        ensures
            r@ == spec_error_message(*self),
    {
        match self {
            IpGeoError::InvalidInput(s) => "invalid input: ".to_owned().concat(s.as_str()),
            IpGeoError::ResolveError => "host could not be resolved".to_owned(),
            IpGeoError::TimeoutError => "host resolution timed out".to_owned(),
            IpGeoError::DatabaseUnavailable => "database unavailable".to_owned(),
        }
    }
}

/// The message text of each error.
pub open spec fn spec_error_message(e: IpGeoError) -> Seq<char> {
    match e {
        IpGeoError::InvalidInput(s) => "invalid input: "@ + s@,
        IpGeoError::ResolveError => "host could not be resolved"@,
        IpGeoError::TimeoutError => "host resolution timed out"@,
        IpGeoError::DatabaseUnavailable => "database unavailable"@,
    }
}

} // verus!
