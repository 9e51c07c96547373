//! Connection protocol engine of a small block-game server: frame
//! reassembly, packet codec, the login handshake and the stream cipher that
//! wraps the transport once a session key is agreed on, together with the
//! record layout of the flash-backed world store.

pub mod encryption;
pub mod errors;
pub mod packets;
pub mod protocol;
pub mod server;
pub mod status;
pub mod types;
pub mod utils;
pub mod uuid;
pub mod v1_21_8;
pub mod varint;
pub mod world;
