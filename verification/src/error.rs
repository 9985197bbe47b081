use vstd::prelude::*;

use crate::requests::ReqError;

verus! {

/// Failures of a whole retrieval run. The kinds past `Request` arise in the
/// unverified surroundings — credential loading, response parsing, output
/// writing — which keep the underlying error values and report the kind.
#[derive(Clone, Copy, Debug, PartialEq, Eq, Structural)]
pub enum Error {
    /// The credentials file was missing or unreadable.
    NoCredentials,
    /// A request attempt failed; the kind says how.
    Request(ReqError),
    /// A response body did not have the expected shape.
    SerdeParse,
    /// A timestamp string could not be parsed.
    ChronoParse,
    /// A file could not be read or written.
    IoError,
    /// The result set could not be serialized.
    Csv,
}

} // verus!
