//! Error types of the library.

use vstd::prelude::*;

verus! {

/// Relied on as an opaque value: the error that `serde_json` reports when it
/// cannot encode a value.
#[verifier::external_type_specification]
#[verifier::external_body]
pub struct ExJsonError(serde_json::Error);

/// Error response returned by the DhanHQ REST API.
#[derive(Debug, Clone, PartialEq, Eq)]
pub struct ApiErrorBody {
    /// Category of the error (e.g. "Invalid Authentication").
    pub error_type: Option<String>,
    /// Dhan error code (e.g. "DH-901").
    pub error_code: Option<String>,
    /// Human-readable description of the error.
    pub error_message: Option<String>,
}

/// The text of an optional field, or a fallback when it is absent.
pub open spec fn text_or(o: Option<String>, fallback: Seq<char>) -> Seq<char> {
    match o {
        Some(s) => s@,
        None => fallback,
    }
}

/// `"[code] type: message"`, with placeholders for absent fields.
pub open spec fn api_error_text(e: ApiErrorBody) -> Seq<char> {
    "["@ + text_or(e.error_code, "UNKNOWN"@) + "] "@ + text_or(e.error_type, "Unknown Error"@)
        + ": "@ + text_or(e.error_message, "No message"@)
}

fn append_or(out: &mut String, o: &Option<String>, fallback: &str)
    ensures
        final(out)@ == old(out)@ + text_or(*o, fallback@),
{
    match o {
        Some(s) => out.append(s.as_str()),
        None => out.append(fallback),
    }
}

impl ApiErrorBody {
    /// Renders the error as `"[code] type: message"`.
    pub fn to_display_string(&self) -> (r: String)
        ensures
            r@ == api_error_text(*self),
    {
        let mut out = String::new();
        out.append("[");
        append_or(&mut out, &self.error_code, "UNKNOWN");
        out.append("] ");
        append_or(&mut out, &self.error_type, "Unknown Error");
        out.append(": ");
        append_or(&mut out, &self.error_message, "No message");
        out
    }
}

/// Why a binary market feed packet could not be decoded.
#[derive(Debug, Clone, Copy, PartialEq, Eq)]
pub enum CodecError {
    /// The first header byte names no known response code.
    UnknownCode(u8),
    /// The packet holds fewer bytes than its response code requires.
    Truncated {
        /// The response code byte (0 for an empty packet).
        code: u8,
        /// Bytes present in the packet, header included.
        have: usize,
        /// Bytes required, header included.
        need: usize,
    },
}

/// All errors produced by the library.
#[derive(Debug)]
pub enum DhanError {
    /// An error response returned by the DhanHQ REST API.
    Api(ApiErrorBody),
    /// The server returned an unexpected HTTP status code.
    HttpStatus {
        /// The HTTP status code.
        status: u16,
        /// The response body text.
        body: String,
    },
    /// A network or transport-level failure of an HTTP request.
    Http(String),
    /// A JSON value could not be encoded or decoded.
    Json(serde_json::Error),
    /// A WebSocket transport failure (socket, TLS or handshake).
    WebSocket(String),
    /// A URL could not be built or parsed.
    Url(String),
    /// The caller provided an invalid argument or called out of order.
    InvalidArgument(String),
    /// A binary feed packet could not be decoded.
    Codec(CodecError),
}

} // verus!
