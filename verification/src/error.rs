//! What can go wrong.

use tokio_tungstenite::tungstenite::Error as WebSocketError;
use vstd::prelude::*;
use vstd::std_specs::convert::FromSpecImpl;

verus! {

/// A failure of a WebSocket connection, as `tungstenite` reports it.
#[verifier::external_type_specification]
#[verifier::external_body]
pub struct ExWebSocketError(WebSocketError);

/// What can go wrong while a connection is set up.
#[derive(Debug, Clone, Copy, PartialEq, Eq, Structural)]
pub enum Error {
    /// A step inside the application failed.
    ApplicationError,
    /// The UDP socket could not be used.
    SocketError,
    /// A WebSocket connection failed.
    GatewayError,
}

/// Why a message cannot be used.
#[derive(Debug, Clone, Copy, PartialEq, Eq, Structural)]
pub enum ReadError {
    /// The text is no JSON document, as when the other side closes the
    /// connection with a reason.
    Closed,
    /// A field that the message needs is missing or of another type.
    Malformed,
}

impl From<WebSocketError> for Error {
    fn from(_err: WebSocketError) -> (r: Self) {
        Error::GatewayError
    }
}

impl FromSpecImpl<WebSocketError> for Error {
    open spec fn obeys_from_spec() -> bool {
        true
    }

    open spec fn from_spec(_err: WebSocketError) -> Error {
        Error::GatewayError
    }
}

} // verus!
