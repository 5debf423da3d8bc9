//! The acceptance rule of the server's response envelope.
//!
//! Every call against the server answers with an HTTP status and a JSON
//! envelope `{ message, data, error }`.  A response counts as successful
//! exactly when the status signals success and `data` is non-null; the two
//! rejections are kept apart so the edge can attach the right message to
//! each.

use vstd::prelude::*;

verus! {

/// Why a server response was rejected.
#[derive(Debug, Clone, Copy, PartialEq, Eq, Structural)]
pub enum EnvelopeError {
    /// The HTTP status did not signal success.
    HttpFailure,
    /// The status signalled success but the envelope's `data` was null.
    NullData,
}

/// Judge one server response: accepted, with its payload, exactly when the
/// HTTP status signalled success and the envelope carried data.  The status
/// is judged first, so a failed request is never reported as missing data.
pub fn accept_envelope<T>(http_success: bool, data: Option<T>) -> (r: Result<T, EnvelopeError>)
    ensures
        r is Ok <==> (http_success && data is Some),
        r matches Ok(v) ==> (data matches Some(d) && v == d),
        (r matches Err(e) && e == EnvelopeError::HttpFailure) <==> !http_success,
        (r matches Err(e) && e == EnvelopeError::NullData) <==> (http_success && data is None),
{
    if !http_success {
        return Err(EnvelopeError::HttpFailure);
    }
    match data {
        Some(d) => Ok(d),
        None => Err(EnvelopeError::NullData),
    }
}

} // verus!
