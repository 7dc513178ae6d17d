pub mod crypto;
pub mod handshake;
