use vless_vpn::address::SocketAddress;

fn x25519_public_key(secret: &[u8; 32]) -> [u8; 32] {
    *x25519_dalek::PublicKey::from(&x25519_dalek::StaticSecret::from(*secret)).as_bytes()
}
use vless_vpn::config::ServerConfig;
use vless_vpn::reality::crypto::{validate_short_id, verify_reality_client};
use vless_vpn::reality::handshake::{inspect_tls_client_hello, HandshakeVerdict};

fn dummy_config(short_id: Vec<u8>) -> ServerConfig {
    let private_key = [0x42u8; 32];
    ServerConfig {
        listen_addr: SocketAddress::V4 { ip4: [0, 0, 0, 0], port: 8080 },
        user_uuid: *uuid::Uuid::new_v4().as_bytes(),
        private_key,
        public_key: x25519_public_key(&private_key),
        short_id,
        dest_target: "gateway.icloud.com:443".to_string(),
        server_name: "gateway.icloud.com".to_string(),
        public_address: "127.0.0.1".to_string(),
        public_port: 8080,
        is_railway: false,
        has_tcp_proxy: false,
    }
}

fn client_hello(session_id: &[u8; 32]) -> Vec<u8> {
    let mut buf = vec![0x16, 0x03, 0x01, 0x02, 0x00, 0x01, 0x00, 0x01, 0xfc, 0x03, 0x03];
    buf.extend_from_slice(&[0x11u8; 32]);
    buf.push(32);
    buf.extend_from_slice(session_id);
    buf.extend_from_slice(&[0x00, 0x02, 0x13, 0x01]);
    buf
}

#[test]
fn test_reality_key_derivation() {
    let mut b1 = [0u8; 32];
    let mut b2 = [0u8; 32];
    for (x, y) in b1.iter_mut().zip(b2.iter_mut()) {
        *x = fastrand::u8(..);
        *y = fastrand::u8(..);
    }
    let short_id = [0x01, 0x02, 0x03, 0x04, 0x05, 0x06, 0x07, 0x08];
    b2[0..8].copy_from_slice(&short_id);

    let _client_public = x25519_public_key(&b2);

    let res = verify_reality_client(&b1, &b2, &short_id);
    assert!(res.is_some());
    let (auth_key, session_key) = res.unwrap();
    assert_ne!(auth_key, [0u8; 32]);
    assert_ne!(session_key, [0u8; 32]);
}

#[test]
fn test_validate_short_id() {
    let id1 = [1, 2, 3, 4];
    let id2 = [1, 2, 3, 4];
    let id3 = [1, 2, 3, 5];
    assert!(validate_short_id(&id1, &id2));
    assert!(!validate_short_id(&id1, &id3));
}

#[test]
fn validate_short_id_rejects_other_lengths() {
    assert!(!validate_short_id(&[1, 2, 3], &[1, 2, 3, 4]));
    assert!(validate_short_id(&[], &[]));
}

#[test]
fn short_id_must_appear_in_session_id() {
    let server = [7u8; 32];
    let mut session = [9u8; 32];
    let short_id = [0xaa, 0xbb, 0xcc];
    assert!(verify_reality_client(&server, &session, &short_id).is_none());
    session[29..32].copy_from_slice(&short_id);
    assert!(verify_reality_client(&server, &session, &short_id).is_some());
    // A short ID longer than the SessionID can never be carried.
    assert!(verify_reality_client(&server, &session, &[1u8; 33]).is_none());
    // An empty short ID is always carried.
    assert!(verify_reality_client(&server, &session, &[]).is_some());
}

#[test]
fn derived_keys_match_hkdf_of_shared_secret() {
    let server = [5u8; 32];
    let mut session = [3u8; 32];
    let short_id = [0x10, 0x20];
    session[4..6].copy_from_slice(&short_id);
    let (auth_key, session_key) = verify_reality_client(&server, &session, &short_id).unwrap();
    let shared = x25519_dalek::StaticSecret::from(server)
        .diffie_hellman(&x25519_dalek::PublicKey::from(session));
    let hk = hkdf::Hkdf::<sha2::Sha256>::new(Some(&short_id[..]), shared.as_bytes());
    let mut okm = [0u8; 64];
    hk.expand(b"REALITY", &mut okm).unwrap();
    assert_eq!(&auth_key[..], &okm[..32]);
    assert_eq!(&session_key[..], &okm[32..]);
}

#[test]
fn test_inspect_empty_buffer_returns_fallback() {
    let dummy_cfg = dummy_config(vec![1, 2, 3, 4]);
    assert!(matches!(
        inspect_tls_client_hello(&[], &dummy_cfg),
        HandshakeVerdict::Fallback
    ));
}

#[test]
fn inspect_authenticates_session_id_with_short_id() {
    let cfg = dummy_config(vec![1, 2, 3, 4]);
    let mut session = [0x55u8; 32];
    session[10..14].copy_from_slice(&[1, 2, 3, 4]);
    let buf = client_hello(&session);
    match inspect_tls_client_hello(&buf, &cfg) {
        HandshakeVerdict::Authenticated { client_pub, auth_key, session_key } => {
            assert_eq!(client_pub, session);
            let (a, s) = verify_reality_client(&cfg.private_key, &session, &cfg.short_id).unwrap();
            assert_eq!(auth_key, a);
            assert_eq!(session_key, s);
        }
        HandshakeVerdict::Fallback => panic!("expected an authenticated client"),
    }
}

#[test]
fn inspect_falls_back_on_probes() {
    let cfg = dummy_config(vec![1, 2, 3, 4]);
    let session = [0x55u8; 32];
    // No short ID in the SessionID.
    assert!(matches!(inspect_tls_client_hello(&client_hello(&session), &cfg), HandshakeVerdict::Fallback));
    let mut good = session;
    good[0..4].copy_from_slice(&[1, 2, 3, 4]);
    // Not a handshake record.
    let mut buf = client_hello(&good);
    buf[0] = 0x17;
    assert!(matches!(inspect_tls_client_hello(&buf, &cfg), HandshakeVerdict::Fallback));
    // Not a ClientHello.
    let mut buf = client_hello(&good);
    buf[5] = 0x02;
    assert!(matches!(inspect_tls_client_hello(&buf, &cfg), HandshakeVerdict::Fallback));
    // SessionID of another length.
    let mut buf = client_hello(&good);
    buf[43] = 16;
    assert!(matches!(inspect_tls_client_hello(&buf, &cfg), HandshakeVerdict::Fallback));
    // SessionID cut short.
    let buf = client_hello(&good);
    assert!(matches!(inspect_tls_client_hello(&buf[..70], &cfg), HandshakeVerdict::Fallback));
    assert!(matches!(inspect_tls_client_hello(&buf[..76], &cfg), HandshakeVerdict::Authenticated { .. }));
}

#[test]
fn client_deriving_from_server_public_key_is_authenticated() {
    let cfg = dummy_config(Vec::new());
    let client_secret = [0x24u8; 32];
    let session = x25519_public_key(&client_secret);
    let buf = client_hello(&session);
    let shared = x25519_dalek::StaticSecret::from(client_secret)
        .diffie_hellman(&x25519_dalek::PublicKey::from(cfg.public_key));
    let hk = hkdf::Hkdf::<sha2::Sha256>::new(Some(&[][..]), shared.as_bytes());
    let mut okm = [0u8; 64];
    hk.expand(b"REALITY", &mut okm).unwrap();
    match inspect_tls_client_hello(&buf, &cfg) {
        HandshakeVerdict::Authenticated { client_pub, auth_key, session_key } => {
            assert_eq!(client_pub, session);
            assert_eq!(&auth_key[..], &okm[..32]);
            assert_eq!(&session_key[..], &okm[32..]);
        }
        HandshakeVerdict::Fallback => panic!("expected an authenticated client"),
    }
}
