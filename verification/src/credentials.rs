use vstd::prelude::*;

verus! {

/// The venue credentials: an API key sent as a header, and a
/// base64-encoded secret that keys the request signature.
///
/// Loaded once by the surrounding application and then only read.
#[derive(Debug)]
pub struct Credentials {
    pub key: String,
    pub secret: String,
}

} // verus!
