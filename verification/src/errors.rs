//! Error taxonomy of the client: every failure is reported to the caller
//! with enough context to diagnose it, and nothing is retried or defaulted.

use vstd::prelude::*;

verus! {

/// Every way a client operation can fail.
#[derive(Debug)]
pub enum GateError {
    /// A signed call was attempted on a client constructed without credentials.
    MissingCredential,
    /// The secret could not be used to initialize the HMAC primitive.
    KeyInitError,
    /// A header value contains bytes that are illegal in an HTTP header.
    HeaderEncodingError,
    /// The remote service answered with a non-2xx status; carries the status
    /// code and the raw response body text.
    RequestFailure { status: u16, body: String },
    /// A 2xx response body did not decode into the expected record shape;
    /// carries the decoder's message and the offending raw text.
    DecodeFailure { error: String, raw_body: String },
    /// A string-typed numeric field failed to parse as a decimal number.
    NumericParseFailure,
}

} // verus!
