use vstd::prelude::*;

verus! {

/// Why a payload failed to decode.
#[derive(Clone, Copy, Debug, PartialEq, Eq, Structural)]
pub enum SchemaError {
    /// The body is not a document of the accepted JSON grammar.
    InvalidJson,
    /// A required field is absent.
    MissingField,
    /// The document or one of its fields has the wrong JSON type.
    WrongType,
}

/// Why a request failed before its body could be decoded.
#[derive(Clone, Copy, Debug, PartialEq, Eq, Structural)]
pub enum TransportError {
    /// The upstream answered with a non-success HTTP status.
    Status(u16),
    /// The request could not be sent or the connection failed.
    Network,
    /// The fixed request timeout elapsed.
    Timeout,
}

/// A failed overview request: either the transport failed, or the body did
/// not decode. Both are terminal for the invocation.
#[derive(Clone, Copy, Debug, PartialEq, Eq, Structural)]
pub enum ApiError {
    Transport(TransportError),
    Schema(SchemaError),
}

} // verus!
