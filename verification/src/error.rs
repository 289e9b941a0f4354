//! Why a transport could not be built or a request not be addressed.
use vstd::prelude::*;
use vstd::string::*;

verus! {

/// Why a transport could not be built or a request not be addressed.
#[derive(Clone, Debug, PartialEq, Eq)]
pub enum TransportError {
    /// The base URI has no scheme.
    MissingScheme,
    /// The base URI has a scheme but no authority.
    MissingAuthority,
    /// The rewritten URI could not be built; the text is `http`'s error.
    RewriteUri(String),
}

/// The text of an error, as it is reported to the caller.
pub open spec fn error_message(e: TransportError) -> Seq<char> {
    match e {
        TransportError::MissingScheme => "FetchTransport base URI is missing a scheme"@,
        TransportError::MissingAuthority => "FetchTransport base URI is missing an authority"@,
        TransportError::RewriteUri(m) => "rewrite uri: "@ + m@,
    }
}

impl TransportError {
    /// The text of the error.
    pub fn message(&self) -> (r: String)
        ensures
            r@ == error_message(*self),
    {
        match self {
            TransportError::MissingScheme => String::from_str(
                "FetchTransport base URI is missing a scheme",
            ),
            TransportError::MissingAuthority => String::from_str(
                "FetchTransport base URI is missing an authority",
            ),
            TransportError::RewriteUri(m) => String::from_str("rewrite uri: ").concat(m.as_str()),
        }
    }
}

} // verus!
