use vstd::prelude::*;

verus! {

/// Why a handshake was refused. Each failure of session establishment maps to
/// exactly one of these kinds; on any of them no session value exists.
#[derive(Clone, Copy, Debug, PartialEq, Eq, Structural)]
pub enum HandshakeError {
    /// The peer sent no certificate although one was required.
    NoPeerCertificate,
    /// The presented chain has no path to a trust anchor, is expired, or a
    /// signature does not check.
    ChainValidationFailed,
    /// The server certificate does not cover the requested server name
    /// (client side only).
    HostnameMismatch,
    /// The transport reported malformed handshake messages.
    ProtocolError,
    /// The local private key does not match the local certificate.
    IdentityMaterialInvalid,
}

/// Why a byte buffer was refused by the frame codec.
#[derive(Clone, Copy, Debug, PartialEq, Eq, Structural)]
pub enum FrameError {
    /// The stream ended in the middle of a frame.
    Truncated,
    /// The bytes do not have the expected message shape.
    SchemaMismatch,
    /// The length prefix claims a payload above the configured maximum.
    SizeLimitExceeded,
}

/// The leaf certificate of an authenticated peer could not be decoded.
#[derive(Clone, Copy, Debug, PartialEq, Eq, Structural)]
pub struct CertificateParseError;

/// A certificate handed in at startup could not be parsed as DER X.509;
/// `index` is the position of the first offending input.
#[derive(Clone, Copy, Debug, PartialEq, Eq, Structural)]
pub struct MalformedCertificate {
    pub index: usize,
}

} // verus!
