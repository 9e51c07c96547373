//! What ends a connection.

use crate::protocol::{DeserializeErr, PacketErr, SerializeErr};
use vstd::prelude::*;

verus! {

/// Error of the RSA operations; carried through as it came.
#[verifier::external_type_specification]
#[verifier::external_body]
pub struct ExRsaError(rsa::Error);

/// Error of the public-key export; carried through as it came.
#[verifier::external_type_specification]
#[verifier::external_body]
pub struct ExSpkiError(rsa::pkcs8::spki::Error);

/// Failure of the byte stream underneath.
#[derive(Clone, Copy, Debug, PartialEq, Eq, Structural)]
pub enum TransportError {
    /// The peer is gone: a read gave no bytes.
    ConnectionReset,
}

/// Failure of an asymmetric or symmetric cipher operation.
#[derive(Debug)]
pub enum CipherError {
    /// The RSA operation failed.
    Rsa(rsa::Error),
    /// The shared secret does not have sixteen bytes but this many.
    SecretLength(usize),
}

/// Everything that can go wrong while a connection is served. All of it but
/// a `PacketErr` on a single frame is fatal to the connection.
#[derive(Debug)]
pub enum MinecraftError {
    ConnectionError(TransportError),
    SerializeError(SerializeErr),
    DeserializeError(DeserializeErr),
    EncryptionError(CipherError),
    CertificateParsingError(rsa::pkcs8::spki::Error),
    PacketErr(PacketErr),
    InvalidPacketHeader,
    Unauthorized,
}

impl From<TransportError> for MinecraftError {
    fn from(value: TransportError) -> (r: Self) {
        MinecraftError::ConnectionError(value)
    }
}

impl vstd::std_specs::convert::FromSpecImpl<TransportError> for MinecraftError {
    open spec fn obeys_from_spec() -> bool {
        true
    }

    open spec fn from_spec(value: TransportError) -> Self {
        MinecraftError::ConnectionError(value)
    }
}

impl From<SerializeErr> for MinecraftError {
    fn from(value: SerializeErr) -> (r: Self) {
        MinecraftError::SerializeError(value)
    }
}

impl vstd::std_specs::convert::FromSpecImpl<SerializeErr> for MinecraftError {
    open spec fn obeys_from_spec() -> bool {
        true
    }

    open spec fn from_spec(value: SerializeErr) -> Self {
        MinecraftError::SerializeError(value)
    }
}

impl From<DeserializeErr> for MinecraftError {
    fn from(value: DeserializeErr) -> (r: Self) {
        MinecraftError::DeserializeError(value)
    }
}

impl vstd::std_specs::convert::FromSpecImpl<DeserializeErr> for MinecraftError {
    open spec fn obeys_from_spec() -> bool {
        true
    }

    open spec fn from_spec(value: DeserializeErr) -> Self {
        MinecraftError::DeserializeError(value)
    }
}

impl From<PacketErr> for MinecraftError {
    fn from(value: PacketErr) -> (r: Self) {
        MinecraftError::PacketErr(value)
    }
}

impl vstd::std_specs::convert::FromSpecImpl<PacketErr> for MinecraftError {
    open spec fn obeys_from_spec() -> bool {
        true
    }

    open spec fn from_spec(value: PacketErr) -> Self {
        MinecraftError::PacketErr(value)
    }
}

impl From<rsa::Error> for MinecraftError {
    fn from(value: rsa::Error) -> (r: Self) {
        MinecraftError::EncryptionError(CipherError::Rsa(value))
    }
}

impl vstd::std_specs::convert::FromSpecImpl<rsa::Error> for MinecraftError {
    open spec fn obeys_from_spec() -> bool {
        true
    }

    open spec fn from_spec(value: rsa::Error) -> Self {
        MinecraftError::EncryptionError(CipherError::Rsa(value))
    }
}

impl From<rsa::pkcs8::spki::Error> for MinecraftError {
    fn from(value: rsa::pkcs8::spki::Error) -> (r: Self) {
        MinecraftError::CertificateParsingError(value)
    }
}

impl vstd::std_specs::convert::FromSpecImpl<rsa::pkcs8::spki::Error> for MinecraftError {
    open spec fn obeys_from_spec() -> bool {
        true
    }

    open spec fn from_spec(value: rsa::pkcs8::spki::Error) -> Self {
        MinecraftError::CertificateParsingError(value)
    }
}

} // verus!
