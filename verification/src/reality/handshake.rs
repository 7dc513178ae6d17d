//! Sniffing the first TLS record of a connection: an authenticated REALITY
//! client is told apart from probes and ordinary HTTPS traffic, which are
//! forwarded to the camouflage destination.
use vstd::prelude::*;
use crate::config::ServerConfig;
use crate::reality::crypto::{carries_short_id, client_keys, reality_keys, verify_reality_client, x25519_public};

verus! {

/// Result of sniffing the incoming client connection.
pub enum HandshakeVerdict {
    /// Authenticated REALITY client carrying our key and short ID.
    Authenticated { client_pub: [u8; 32], auth_key: [u8; 32], session_key: [u8; 32] },
    /// Unauthenticated probe, scanner, or regular HTTPS traffic to be
    /// forwarded to the fallback target.
    Fallback,
}

/// `buf` starts like a ClientHello record (content type 0x16, handshake type
/// ClientHello) with a 32-byte SessionID that is all present.
pub open spec fn has_reality_session_id(buf: Seq<u8>) -> bool {
    &&& buf.len() >= 76
    &&& buf[0] == 0x16
    &&& buf[5] == 0x01
    &&& buf[43] == 32
}

/// The 32 SessionID bytes of such a record.
pub open spec fn session_id_of(buf: Seq<u8>) -> Seq<u8> {
    buf.subrange(44, 76)
}

/// Parses a TLS ClientHello buffer, extracts its 32-byte SessionID and checks
/// it against the server key and short ID. Anything else falls back.
pub fn inspect_tls_client_hello(buf: &[u8], config: &ServerConfig) -> (res: HandshakeVerdict)
    ensures
        match res {
            HandshakeVerdict::Authenticated { client_pub, auth_key, session_key } => {
                &&& has_reality_session_id(buf@)
                &&& client_pub@ == session_id_of(buf@)
                &&& reality_keys(config.private_key@, client_pub@, config.short_id@) == Some((auth_key@, session_key@))
            },
            HandshakeVerdict::Fallback => !has_reality_session_id(buf@) || reality_keys(
                config.private_key@,
                session_id_of(buf@),
                config.short_id@,
            ) is None,
        },
        // A client whose SessionID is the public key of its ephemeral secret and
        // carries the short ID is authenticated, with the keys it derives from
        // the server's public key.
        forall|client_secret: Seq<u8>|
            client_secret.len() == 32 && has_reality_session_id(buf@) && session_id_of(buf@) == #[trigger] x25519_public(
                client_secret,
            ) && carries_short_id(session_id_of(buf@), config.short_id@) ==> (res matches HandshakeVerdict::Authenticated {
                auth_key,
                session_key,
                ..
            } && (auth_key@, session_key@) == client_keys(client_secret, x25519_public(config.private_key@), config.short_id@)),
{
    // TLS record header: ContentType Handshake (0x16), HandshakeType ClientHello (0x01).
    if buf.len() < 43 || buf[0] != 0x16 || buf[5] != 0x01 {
        return HandshakeVerdict::Fallback;
    }
    // Offset of the SessionID length: record header (5) + handshake type (1)
    // + length (3) + version (2) + random (32).
    let session_id_len_offset: usize = 43;
    if session_id_len_offset >= buf.len() {
        return HandshakeVerdict::Fallback;
    }
    // REALITY clients always supply a 32-byte SessionID (the client's
    // ephemeral public key).
    let session_id_len = buf[session_id_len_offset] as usize;
    if session_id_len != 32 {
        return HandshakeVerdict::Fallback;
    }
    let session_id_start = session_id_len_offset + 1;
    if session_id_start + 32 > buf.len() {
        return HandshakeVerdict::Fallback;
    }
    let mut client_session_id = [0u8; 32];
    let mut i: usize = 0;
    while i < 32
        invariant
            i <= 32,
            buf@.len() >= 76,
            session_id_start == 44,
            forall|j: int| 0 <= j < i ==> client_session_id@[j] == buf@[44 + j],
        decreases 32 - i,
    {
        client_session_id[i] = buf[session_id_start + i];
        i = i + 1;
    }
    assert(client_session_id@ =~= session_id_of(buf@));
    // X25519 key agreement and HKDF against the configured key and short ID.
    match verify_reality_client(&config.private_key, &client_session_id, config.short_id.as_slice()) {
        Some((auth_key, session_key)) => HandshakeVerdict::Authenticated {
            client_pub: client_session_id,
            auth_key,
            session_key,
        },
        None => HandshakeVerdict::Fallback,
    }
}

} // verus!
