use vstd::prelude::*;

verus! {

/// Everything the tunnel logic can refuse.
#[derive(Debug)]
pub enum TunnelError {
    /// The tunnel id is not a UUID.
    Uuid(uuid::Error),
    /// The tunnel secret is not standard base64.
    DecodeError(base64::DecodeError),
    /// The request's method is not an HTTP token.
    InvalidMethod(http::method::InvalidMethod),
    /// A length field is not a decimal number that fits a `usize`.
    ParseIntError,
    /// A response header value holds a byte that is not visible ASCII.
    ToStrError,
    /// The edge answered a registration with an error.
    RpcError(String),
    /// A data stream announced a protocol version other than ours.
    VersionMismatch,
    /// A request's metadata has no method.
    NoMethod,
    /// A request could not be handed to the RPC worker.
    SendError,
    /// Service discovery found no edge address.
    EdgeDiscoveryFailed,
    /// A protocol name other than `quic` or `http2`.
    InvalidProtocol,
}

} // verus!
