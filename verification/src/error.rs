//! The closed error taxonomy: validation, transport, decoding and
//! API-reported failures, unified into one reportable type.

use crate::text::{dec_digits, u32_digits};
use vstd::prelude::*;

verus! {

/// Every way a request can fail.  API-reported failures carry the HTTP
/// status code and the raw response body text.
#[derive(Clone, Debug, PartialEq, Eq)]
pub enum NewsApiError {
    /// The "sources" parameter was combined with "country" or "category".
    InvalidParameterCombinationError,
    /// `send` was asked to run before any endpoint selector built a URL.
    UndefinedUrlError,
    /// The response body was not the expected JSON shape.
    DecodeError { message: String },
    /// The HTTP request itself failed (DNS, connection, TLS).
    TransportError { message: String },
    /// An HTTP failure status outside the specifically mapped ones.
    GenericError { code: u16, message: String },
    /// HTTP 400.
    BadRequest { code: u16, message: String },
    /// HTTP 401.
    Unauthorized { code: u16, message: String },
    /// HTTP 429.
    TooManyRequests { code: u16, message: String },
    /// HTTP 500.
    ServerError { code: u16, message: String },
}

/// The error a failure HTTP status maps to: 400, 401, 429 and 500 have
/// their own variants, every other code is generic.  The message is the
/// raw response body.
pub open spec fn spec_api_error(code: u16, message: String) -> NewsApiError {
    if code == 400 {
        NewsApiError::BadRequest { code, message }
    } else if code == 401 {
        NewsApiError::Unauthorized { code, message }
    } else if code == 429 {
        NewsApiError::TooManyRequests { code, message }
    } else if code == 500 {
        NewsApiError::ServerError { code, message }
    } else {
        NewsApiError::GenericError { code, message }
    }
}

/// The one-line report of an error.
pub open spec fn spec_describe(e: NewsApiError) -> Seq<char> {
    match e {
        NewsApiError::InvalidParameterCombinationError => {
            "The source parameter cannot be mixed with country or category"@
        },
        NewsApiError::UndefinedUrlError => "Error constructing newsapi URL"@,
        NewsApiError::DecodeError { message } => "DecodeError: "@ + message@,
        NewsApiError::TransportError { message } => "TransportError: "@ + message@,
        NewsApiError::GenericError { code, message } => {
            "GenericError: "@ + dec_digits(code as int) + " => "@ + message@
        },
        NewsApiError::BadRequest { code, message } => {
            "BadRequest: "@ + dec_digits(code as int) + " => "@ + message@
        },
        NewsApiError::Unauthorized { code, message } => {
            "Unauthorized: "@ + dec_digits(code as int) + " => "@ + message@
        },
        NewsApiError::TooManyRequests { code, message } => {
            "TooManyRequests: "@ + dec_digits(code as int) + " => "@ + message@
        },
        NewsApiError::ServerError { code, message } => {
            "ServerError: "@ + dec_digits(code as int) + " => "@ + message@
        },
    }
}

impl NewsApiError {
    /// The one-line report of this error, e.g.
    /// `BadRequest: 400 => BadRequest`.
    pub fn describe(&self) -> (r: String)
        ensures
            r@ == spec_describe(*self),
    {
        match self {
            NewsApiError::InvalidParameterCombinationError => {
                let r: String =
                    "The source parameter cannot be mixed with country or category".to_owned();
                r
            },
            NewsApiError::UndefinedUrlError => {
                let r: String = "Error constructing newsapi URL".to_owned();
                r
            },
            NewsApiError::DecodeError { message } => {
                let mut s: String = "DecodeError: ".to_owned();
                s.append(message.as_str());
                s
            },
            NewsApiError::TransportError { message } => {
                let mut s: String = "TransportError: ".to_owned();
                s.append(message.as_str());
                s
            },
            NewsApiError::GenericError { code, message } => {
                let mut s: String = "GenericError: ".to_owned();
                s.append(u32_digits(*code as u32).as_str());
                s.append(" => ");
                s.append(message.as_str());
                proof {
                    assert(s@ =~= spec_describe(*self));
                }
                s
            },
            NewsApiError::BadRequest { code, message } => {
                let mut s: String = "BadRequest: ".to_owned();
                s.append(u32_digits(*code as u32).as_str());
                s.append(" => ");
                s.append(message.as_str());
                proof {
                    assert(s@ =~= spec_describe(*self));
                }
                s
            },
            NewsApiError::Unauthorized { code, message } => {
                let mut s: String = "Unauthorized: ".to_owned();
                s.append(u32_digits(*code as u32).as_str());
                s.append(" => ");
                s.append(message.as_str());
                proof {
                    assert(s@ =~= spec_describe(*self));
                }
                s
            },
            NewsApiError::TooManyRequests { code, message } => {
                let mut s: String = "TooManyRequests: ".to_owned();
                s.append(u32_digits(*code as u32).as_str());
                s.append(" => ");
                s.append(message.as_str());
                proof {
                    assert(s@ =~= spec_describe(*self));
                }
                s
            },
            NewsApiError::ServerError { code, message } => {
                let mut s: String = "ServerError: ".to_owned();
                s.append(u32_digits(*code as u32).as_str());
                s.append(" => ");
                s.append(message.as_str());
                proof {
                    assert(s@ =~= spec_describe(*self));
                }
                s
            },
        }
    }
}

} // verus!
