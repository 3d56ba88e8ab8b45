//! The error taxonomy: a closed set of failure kinds covering transport,
//! decoding, protocol-level and correlation failures, plus the canonical
//! constructors for the five reserved error codes and the helper that
//! turns an outcome into a response object.

use crate::{Response, Value, ValueView};
use vstd::prelude::*;

verus! {

/// The model of an [`RpcError`].
pub struct RpcErrorView {
    /// The integer identifier of the error.
    pub code: int,
    /// The error message.
    pub message: Seq<char>,
    /// Additional data, if any.
    pub data: Option<ValueView>,
}

/// A JSON-RPC error object.
#[derive(Debug)]
pub struct RpcError {
    /// The integer identifier of the error.
    pub code: i32,
    /// A string describing the error.
    pub message: String,
    /// Additional data specific to the error.
    pub data: Option<Value>,
}

impl View for RpcError {
    type V = RpcErrorView;

    open spec fn view(&self) -> RpcErrorView {
        RpcErrorView {
            code: self.code as int,
            message: self.message@,
            data: match self.data {
                Some(v) => Some(v@),
                None => None,
            },
        }
    }
}

/// A failure reported by the transport layer, as handed to the core by
/// the I/O layer that performed the exchange.
#[derive(Debug)]
pub struct TransportError {
    /// True when the peer closed a pooled connection before the request
    /// could be sent; the one condition the send policy retries.
    pub aborted: bool,
    /// A description of the failure, for diagnostics.
    pub message: String,
}

/// A library error: every failure a send or decode can surface.
#[derive(Debug)]
pub enum Error {
    /// A body was not valid JSON, or did not match the expected shape.
    Decode,
    /// The underlying HTTP transport failed.
    Transport(TransportError),
    /// The server returned a well-formed error object.
    Rpc(RpcError),
    /// Reading the response stream failed after the transport layer
    /// considered the exchange established.
    Io(String),
    /// A decoded response had neither `result` nor `error` set.
    NoErrorOrResult,
    /// The response `id` did not equal the request `id`.
    NonceMismatch,
}

impl From<RpcError> for Error {
    fn from(e: RpcError) -> (r: Error) {
        Error::Rpc(e)
    }
}

impl vstd::std_specs::convert::FromSpecImpl<RpcError> for Error {
    open spec fn obeys_from_spec() -> bool {
        true
    }

    open spec fn from_spec(e: RpcError) -> Error {
        Error::Rpc(e)
    }
}

impl Error {
    /// A short description of the failure kind.
    pub fn description(&self) -> (r: &'static str)
        ensures
            r@ == match self {
                Error::Decode => "JSON decode error"@,
                Error::Transport(_) => "transport error"@,
                Error::Rpc(_) => "RPC error response"@,
                Error::Io(_) => "IO error"@,
                Error::NoErrorOrResult => "Malformed RPC response"@,
                Error::NonceMismatch => "Nonce of response did not match nonce of request"@,
            },
    {
        match self {
            Error::Decode => "JSON decode error",
            Error::Transport(_) => "transport error",
            Error::Rpc(_) => "RPC error response",
            Error::Io(_) => "IO error",
            Error::NoErrorOrResult => "Malformed RPC response",
            Error::NonceMismatch => "Nonce of response did not match nonce of request",
        }
    }
}

/// The five standard error conditions reserved by the JSON-RPC
/// specification.
#[derive(Debug, Clone, Copy, PartialEq, Eq, Structural)]
pub enum StandardError {
    /// Invalid JSON was received by the server.
    ParseError,
    /// The JSON sent is not a valid Request object.
    InvalidRequest,
    /// The method does not exist / is not available.
    MethodNotFound,
    /// Invalid method parameter(s).
    InvalidParams,
    /// Internal JSON-RPC error.
    InternalError,
}

/// The canonical code of a standard error condition.
pub open spec fn standard_code(e: StandardError) -> int {
    match e {
        StandardError::ParseError => -32700,
        StandardError::InvalidRequest => -32600,
        StandardError::MethodNotFound => -32601,
        StandardError::InvalidParams => -32602,
        StandardError::InternalError => -32603,
    }
}

/// The canonical message of a standard error condition.
pub open spec fn standard_message(e: StandardError) -> Seq<char> {
    match e {
        StandardError::ParseError => "Parse error"@,
        StandardError::InvalidRequest => "Invalid Request"@,
        StandardError::MethodNotFound => "Method not found"@,
        StandardError::InvalidParams => "Invalid params"@,
        StandardError::InternalError => "Internal error"@,
    }
}

/// Create a standard error response: the canonical (code, message) pair
/// for the condition, carrying the given diagnostic data.
pub fn standard_error(code: StandardError, data: Option<Value>) -> (r: RpcError)
    ensures
        r.code == standard_code(code),
        r.message@ == standard_message(code),
        r.data == data,
{
    match code {
        StandardError::ParseError => RpcError {
            code: -32700,
            message: String::from_str("Parse error"),
            data,
        },
        StandardError::InvalidRequest => RpcError {
            code: -32600,
            message: String::from_str("Invalid Request"),
            data,
        },
        StandardError::MethodNotFound => RpcError {
            code: -32601,
            message: String::from_str("Method not found"),
            data,
        },
        StandardError::InvalidParams => RpcError {
            code: -32602,
            message: String::from_str("Invalid params"),
            data,
        },
        StandardError::InternalError => RpcError {
            code: -32603,
            message: String::from_str("Internal error"),
            data,
        },
    }
}

/// Converts a success-or-error outcome and a request id to a response
/// object, setting exactly one of `result`/`error`.
pub fn result_to_response(result: Result<Value, RpcError>, id: Value) -> (r: Response)
    ensures
        match result {
            Ok(data) => r == (Response { result: Some(data), error: None, id }),
            Err(err) => r == (Response { result: None, error: Some(err), id }),
        },
{
    match result {
        Ok(data) => Response { result: Some(data), error: None, id },
        Err(err) => Response { result: None, error: Some(err), id },
    }
}

} // verus!
