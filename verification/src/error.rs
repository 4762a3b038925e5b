//! The error taxonomy of the client.
//!
//! The three scanning functions of the recognition engine are total and
//! never produce an error. These variants classify what can go wrong
//! around a remote request: building it, sending it, or reading its reply.

use vstd::prelude::*;
use vstd::string::StringExecFns;

verus! {

/// What can go wrong around a remote request.
#[derive(Debug, Clone, PartialEq)]
pub enum Error {
    /// The connection failed.
    Network(String),
    /// The request could not be built or sent.
    Http(String),
    /// The service answered with an API error: a code and a message.
    Api(String, String),
    /// The reply could not be decoded.
    Decode(String),
    /// A failure of none of the other kinds.
    Unknown(String),
    /// A request option holds a value the service would reject.
    InvalidParameter(String),
}

/// The one-line rendering of each error kind: `<kind>: <detail>`.
pub open spec fn message_spec(e: Error) -> Seq<char> {
    match e {
        Error::Network(m) => "Network error: "@ + m@,
        Error::Http(m) => "HTTP error: "@ + m@,
        Error::Api(code, m) => "W3W error: "@ + code@ + " "@ + m@,
        Error::Decode(m) => "Decode error: "@ + m@,
        Error::Unknown(m) => "Unknown error: "@ + m@,
        Error::InvalidParameter(m) => "Invalid parameter: "@ + m@,
    }
}

impl Error {
    /// The error as one line of text.
    pub fn message(&self) -> (r: String)
        ensures
            r@ == message_spec(*self),
    {
        match self {
            Error::Network(m) => "Network error: ".to_owned().concat(m.as_str()),
            Error::Http(m) => "HTTP error: ".to_owned().concat(m.as_str()),
            Error::Api(code, m) => "W3W error: ".to_owned().concat(code.as_str()).concat(
                " ",
            ).concat(m.as_str()),
            Error::Decode(m) => "Decode error: ".to_owned().concat(m.as_str()),
            Error::Unknown(m) => "Unknown error: ".to_owned().concat(m.as_str()),
            Error::InvalidParameter(m) => "Invalid parameter: ".to_owned().concat(m.as_str()),
        }
    }
}

/// Classifies a failed transport exchange into the error taxonomy. The
/// three flags are the transport's own classification of its failure —
/// whether it arose while building or sending the request, while
/// connecting, or while decoding the reply — and `text` is its rendering
/// of the failure. Request errors come first, then connection errors,
/// then decode errors; anything else is unknown.
pub fn classify_transport_error(
    is_request: bool,
    is_connect: bool,
    is_decode: bool,
    text: String,
) -> (e: Error)
    ensures
        e == if is_request {
            Error::Http(text)
        } else if is_connect {
            Error::Network(text)
        } else if is_decode {
            Error::Decode(text)
        } else {
            Error::Unknown(text)
        },
{
    if is_request {
        Error::Http(text)
    } else if is_connect {
        Error::Network(text)
    } else if is_decode {
        Error::Decode(text)
    } else {
        Error::Unknown(text)
    }
}

} // verus!
