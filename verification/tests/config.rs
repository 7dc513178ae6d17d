use base64::Engine as _;
use vless_vpn::address::SocketAddress;

fn x25519_public_key(secret: &[u8; 32]) -> [u8; 32] {
    *x25519_dalek::PublicKey::from(&x25519_dalek::StaticSecret::from(*secret)).as_bytes()
}
use vless_vpn::config::{listen_address_texts, parse_u16, ConfigError, FreshValues, Opts, RailwayEnv, ServerConfig, DEFAULT_DEST, DEFAULT_SNI};

fn opts() -> Opts {
    Opts {
        port: 8080,
        bind: "0.0.0.0".to_string(),
        uuid: None,
        private_key: None,
        short_id: None,
        dest: DEFAULT_DEST.to_string(),
        sni: DEFAULT_SNI.to_string(),
        server_address: None,
        server_port: None,
    }
}

fn no_env() -> RailwayEnv {
    RailwayEnv {
        environment: None,
        project_id: None,
        service_id: None,
        tcp_proxy_domain: None,
        public_domain: None,
        tcp_proxy_port: None,
    }
}

fn fresh() -> FreshValues {
    FreshValues { uuid: [0x11; 16], private_key: [0x22; 32], short_id: [1, 2, 3, 4, 5, 6, 7, 8] }
}

fn listen() -> SocketAddress {
    SocketAddress::V4 { ip4: [0, 0, 0, 0], port: 8080 }
}

#[test]
fn defaults_take_fresh_values() {
    let c = ServerConfig::from_opts_with(opts(), listen(), no_env(), fresh()).unwrap();
    assert_eq!(c.user_uuid, [0x11; 16]);
    assert_eq!(c.private_key, [0x22; 32]);
    assert_eq!(c.public_key, x25519_public_key(&[0x22; 32]));
    assert_eq!(c.short_id, vec![1, 2, 3, 4, 5, 6, 7, 8]);
    assert_eq!(c.dest_target, "gateway.icloud.com:443");
    assert_eq!(c.server_name, "gateway.icloud.com");
    assert_eq!(c.public_address, "roundhouse.proxy.rlwy.net");
    assert_eq!(c.public_port, 8080);
    assert!(!c.is_railway);
    assert!(!c.has_tcp_proxy);
}

#[test]
fn random_defaults_are_v4_uuids_and_32_byte_keys() {
    let c = ServerConfig::from_opts(opts(), listen(), no_env()).unwrap();
    assert_eq!(c.user_uuid[6] >> 4, 4);
    assert_eq!(c.user_uuid[8] >> 6, 2);
    assert_eq!(c.short_id.len(), 8);
    assert_eq!(c.public_key, x25519_public_key(&c.private_key));
}

#[test]
fn explicit_values_are_parsed() {
    let mut o = opts();
    o.uuid = Some("  e596393a-47d2-4ff2-ad8a-e5edc8a078e1 ".to_string());
    o.private_key = Some(hex::encode([0x33u8; 32]));
    o.short_id = Some("0A0b".to_string());
    let c = ServerConfig::from_opts_with(o, listen(), no_env(), fresh()).unwrap();
    assert_eq!(c.user_uuid, *uuid::Uuid::parse_str("e596393a-47d2-4ff2-ad8a-e5edc8a078e1").unwrap().as_bytes());
    assert_eq!(c.private_key, [0x33; 32]);
    assert_eq!(c.short_id, vec![0x0a, 0x0b]);
}

#[test]
fn uuid_forms_accepted_by_uuid_crate() {
    for text in [
        "E596393A47D24FF2AD8AE5EDC8A078E1",
        "{e596393a-47d2-4ff2-ad8a-e5edc8a078e1}",
        "URN:uuid:e596393a-47d2-4ff2-ad8a-e5edc8a078e1",
    ] {
        let mut o = opts();
        o.uuid = Some(text.to_string());
        let c = ServerConfig::from_opts_with(o, listen(), no_env(), fresh()).unwrap();
        assert_eq!(c.user_uuid, *uuid::Uuid::parse_str(text).unwrap().as_bytes());
    }
}

#[test]
fn blank_options_count_as_unset() {
    let mut o = opts();
    o.uuid = Some("   ".to_string());
    o.private_key = Some("".to_string());
    o.short_id = Some("\t".to_string());
    o.server_address = Some(" ".to_string());
    let c = ServerConfig::from_opts_with(o, listen(), no_env(), fresh()).unwrap();
    assert_eq!(c.user_uuid, [0x11; 16]);
    assert_eq!(c.private_key, [0x22; 32]);
    assert_eq!(c.short_id, vec![1, 2, 3, 4, 5, 6, 7, 8]);
    assert_eq!(c.public_address, "roundhouse.proxy.rlwy.net");
}

#[test]
fn private_key_accepts_base64_forms() {
    let key = [0xfbu8; 32];
    for text in [
        base64::engine::general_purpose::URL_SAFE_NO_PAD.encode(key),
        base64::engine::general_purpose::STANDARD.encode(key),
    ] {
        let mut o = opts();
        o.private_key = Some(text);
        let c = ServerConfig::from_opts_with(o, listen(), no_env(), fresh()).unwrap();
        assert_eq!(c.private_key, key);
        assert_eq!(c.public_key, x25519_public_key(&key));
    }
}

#[test]
fn refused_options_give_their_errors() {
    let mut o = opts();
    o.uuid = Some("not-a-uuid".to_string());
    o.private_key = Some("!!".to_string());
    assert!(matches!(ServerConfig::from_opts_with(o, listen(), no_env(), fresh()), Err(ConfigError::InvalidUuid)));

    let mut o = opts();
    o.private_key = Some("!!".to_string());
    assert!(matches!(
        ServerConfig::from_opts_with(o, listen(), no_env(), fresh()),
        Err(ConfigError::InvalidPrivateKeyEncoding)
    ));

    let mut o = opts();
    o.private_key = Some("00112233".to_string());
    assert!(matches!(
        ServerConfig::from_opts_with(o, listen(), no_env(), fresh()),
        Err(ConfigError::PrivateKeyLength(4))
    ));

    let mut o = opts();
    o.short_id = Some("abc".to_string());
    assert!(matches!(
        ServerConfig::from_opts_with(o, listen(), no_env(), fresh()),
        Err(ConfigError::InvalidShortId)
    ));
}

#[test]
fn railway_tcp_proxy_sets_public_endpoint() {
    let mut env = no_env();
    env.tcp_proxy_domain = Some("roundhouse.proxy.rlwy.net".to_string());
    env.tcp_proxy_port = Some("12345".to_string());
    let c = ServerConfig::from_opts_with(opts(), listen(), env, fresh()).unwrap();
    assert!(c.is_railway);
    assert!(c.has_tcp_proxy);
    assert_eq!(c.public_address, "roundhouse.proxy.rlwy.net");
    assert_eq!(c.public_port, 12345);

    let mut env = no_env();
    env.tcp_proxy_domain = Some("proxy.example".to_string());
    env.tcp_proxy_port = Some("99999".to_string());
    let mut o = opts();
    o.server_address = Some("vpn.example.org".to_string());
    let c = ServerConfig::from_opts_with(o, listen(), env, fresh()).unwrap();
    assert!(c.is_railway);
    assert!(!c.has_tcp_proxy);
    assert_eq!(c.public_address, "vpn.example.org");
    assert_eq!(c.public_port, 8080);

    let mut env = no_env();
    env.project_id = Some(String::new());
    let mut o = opts();
    o.server_port = Some(443);
    let c = ServerConfig::from_opts_with(o, listen(), env, fresh()).unwrap();
    assert!(c.is_railway);
    assert_eq!(c.public_port, 443);
}

#[test]
fn port_numbers_parse_as_u16() {
    assert_eq!(parse_u16("443"), Some(443));
    assert_eq!(parse_u16("+80"), Some(80));
    assert_eq!(parse_u16("0065535"), Some(65535));
    assert_eq!(parse_u16("65536"), None);
    assert_eq!(parse_u16(""), None);
    assert_eq!(parse_u16("+"), None);
    assert_eq!(parse_u16("-1"), None);
    assert_eq!(parse_u16(" 1"), None);
    assert_eq!(parse_u16("12a"), None);
    for text in ["7", "+7", "007", "65535", "70000", "x", "", "٣"] {
        assert_eq!(parse_u16(text), text.parse::<u16>().ok());
    }
}

#[test]
fn share_link_names_the_configuration() {
    let mut c = ServerConfig::from_opts_with(opts(), listen(), no_env(), fresh()).unwrap();
    c.user_uuid = *uuid::Uuid::parse_str("e596393a-47d2-4ff2-ad8a-e5edc8a078e1").unwrap().as_bytes();
    c.public_key = [0u8; 32];
    c.short_id = vec![0xab, 0xcd];
    c.public_port = 12345;
    assert_eq!(
        c.generate_vless_share_link(),
        "vless://e596393a-47d2-4ff2-ad8a-e5edc8a078e1@roundhouse.proxy.rlwy.net:12345?encryption=none&flow=&security=reality&sni=gateway.icloud.com&fp=chrome&pbk=AAAAAAAAAAAAAAAAAAAAAAAAAAAAAAAAAAAAAAAAAAA&sid=abcd&type=tcp&headerType=none#Russia-TSPU-Bypass-Rust"
    );
    c.public_address = "2001:db8::1".to_string();
    assert!(c.generate_vless_share_link().contains("@[2001:db8::1]:12345?"));
}

#[test]
fn share_link_key_reads_back_as_private_key_option() {
    let c = ServerConfig::from_opts_with(opts(), listen(), no_env(), fresh()).unwrap();
    let written = base64::engine::general_purpose::URL_SAFE_NO_PAD.encode(c.private_key);
    let mut o = opts();
    o.private_key = Some(written);
    o.short_id = Some(hex::encode(&c.short_id));
    o.uuid = Some(uuid::Uuid::from_bytes(c.user_uuid).to_string());
    let d = ServerConfig::from_opts_with(o, listen(), no_env(), FreshValues { uuid: [0; 16], private_key: [0; 32], short_id: [0; 8] }).unwrap();
    assert_eq!(d.private_key, c.private_key);
    assert_eq!(d.short_id, c.short_id);
    assert_eq!(d.user_uuid, c.user_uuid);
}

#[test]
fn options_are_trimmed_of_unicode_whitespace() {
    let mut o = opts();
    o.short_id = Some("\u{3000}\u{2009}0aff\u{a0}\n".to_string());
    let c = ServerConfig::from_opts_with(o, listen(), no_env(), fresh()).unwrap();
    assert_eq!(c.short_id, vec![0x0a, 0xff]);
}

#[test]
fn private_key_base64_must_be_canonical() {
    // A 32-byte key in unpadded URL-safe Base64 ends in a symbol whose low bits
    // are zero; any other last symbol is refused.
    let mut text = base64::engine::general_purpose::URL_SAFE_NO_PAD.encode([0u8; 32]);
    text.pop();
    text.push('B');
    let mut o = opts();
    o.private_key = Some(text);
    assert!(matches!(
        ServerConfig::from_opts_with(o, listen(), no_env(), fresh()),
        Err(ConfigError::InvalidPrivateKeyEncoding)
    ));
}

#[test]
fn bind_option_texts() {
    assert_eq!(listen_address_texts(" [::1] ", 8080), ("::1".to_string(), "[::1]:8080".to_string()));
    assert_eq!(listen_address_texts("0.0.0.0", 443), ("0.0.0.0".to_string(), "0.0.0.0:443".to_string()));
    assert_eq!(listen_address_texts("[]]", 1), ("".to_string(), "[]]:1".to_string()));
    for bind in ["[fe80::1", "a]b]", "[[x]]", ""] {
        let (clean, _) = listen_address_texts(bind, 0);
        assert_eq!(clean, bind.trim().trim_matches(|c| c == '[' || c == ']'));
    }
}

#[test]
fn custom_port_destination_and_sni() {
    let mut o = opts();
    o.port = 443;
    o.dest = "dl.google.com:443".to_string();
    o.sni = "dl.google.com".to_string();
    let c = ServerConfig::from_opts_with(o, SocketAddress::V4 { ip4: [0, 0, 0, 0], port: 443 }, no_env(), fresh()).unwrap();
    assert_eq!(c.public_port, 443);
    assert_eq!(c.dest_target, "dl.google.com:443");
    assert_eq!(c.server_name, "dl.google.com");
    assert!(c.generate_vless_share_link().contains(":443?encryption=none&flow=&security=reality&sni=dl.google.com&"));
}

#[test]
fn share_link_reads_back() {
    let mut o = opts();
    o.server_address = Some("2001:db8::7".to_string());
    o.server_port = Some(2053);
    let c = ServerConfig::from_opts_with(o, listen(), no_env(), fresh()).unwrap();
    let link = c.generate_vless_share_link();
    let body = link.strip_prefix("vless://").unwrap();
    let (user, rest) = body.rsplit_once('@').unwrap();
    let (host_port, after) = rest.rsplit_once('?').unwrap();
    let (host, port) = host_port.rsplit_once(':').unwrap();
    let (query, fragment) = after.rsplit_once('#').unwrap();
    assert_eq!(uuid::Uuid::parse_str(user).unwrap().as_bytes(), &c.user_uuid);
    assert_eq!(host, "[2001:db8::7]");
    assert_eq!(port.parse::<u16>().unwrap(), 2053);
    assert_eq!(fragment, "Russia-TSPU-Bypass-Rust");
    let params: Vec<(&str, &str)> = query.split('&').map(|kv| kv.split_once('=').unwrap()).collect();
    let keys: Vec<&str> = params.iter().map(|p| p.0).collect();
    assert_eq!(keys, ["encryption", "flow", "security", "sni", "fp", "pbk", "sid", "type", "headerType"]);
    assert_eq!(params[0].1, "none");
    assert_eq!(params[1].1, "");
    assert_eq!(params[3].1, "gateway.icloud.com");
    assert_eq!(base64::engine::general_purpose::URL_SAFE_NO_PAD.decode(params[5].1).unwrap(), c.public_key);
    assert_eq!(hex::decode(params[6].1).unwrap(), c.short_id);
    assert_eq!(params[8].1, "none");
}

#[test]
fn share_link_reads_back_with_unusual_address() {
    let mut o = opts();
    o.server_address = Some("user@host?x".to_string());
    let c = ServerConfig::from_opts_with(o, listen(), no_env(), fresh()).unwrap();
    let link = c.generate_vless_share_link();
    let body = link.strip_prefix("vless://").unwrap();
    let (user, rest) = body.split_once('@').unwrap();
    let (host_port, _) = rest.rsplit_once('?').unwrap();
    let (host, port) = host_port.rsplit_once(':').unwrap();
    assert_eq!(uuid::Uuid::parse_str(user).unwrap().as_bytes(), &c.user_uuid);
    assert_eq!(host, "user@host?x");
    assert_eq!(port, "8080");
}
