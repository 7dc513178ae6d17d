//! A VLESS + REALITY server's core: authenticating REALITY clients from the
//! TLS ClientHello, reading VLESS request headers, resolving the server
//! configuration, and producing share links and engine configurations.
pub mod reality;
pub mod text;
pub mod encoding;
pub mod address;
pub mod vless;
pub mod link;
pub mod config;
pub mod server;
