use vless_vpn::address::SocketAddress;
use vless_vpn::config::{FreshValues, Opts, RailwayEnv, ServerConfig};
use vless_vpn::server::{
    engine_binary_candidates, engine_binary_name, engine_path_variable, generate_ascii_qr, generate_shoes_config,
    generate_xray_config, is_suppressed_engine_log, plan_engine, startup_banner, Engine,
};

fn config(listen_addr: SocketAddress) -> ServerConfig {
    let opts = Opts {
        port: 8080,
        bind: "0.0.0.0".to_string(),
        uuid: Some("e596393a-47d2-4ff2-ad8a-e5edc8a078e1".to_string()),
        private_key: None,
        short_id: Some("0102".to_string()),
        dest: "gateway.icloud.com:443".to_string(),
        sni: "gateway.icloud.com".to_string(),
        server_address: Some("1.2.3.4".to_string()),
        server_port: None,
    };
    let env = RailwayEnv {
        environment: None,
        project_id: None,
        service_id: None,
        tcp_proxy_domain: None,
        public_domain: None,
        tcp_proxy_port: None,
    };
    let fresh = FreshValues { uuid: [0; 16], private_key: [0; 32], short_id: [0; 8] };
    ServerConfig::from_opts_with(opts, listen_addr, env, fresh).unwrap()
}

#[test]
fn shoes_config_text() {
    let c = config(SocketAddress::V4 { ip4: [0, 0, 0, 0], port: 8080 });
    let expected = "- address: \"0.0.0.0:8080\"\n  protocol:\n    type: tls\n    reality_targets:\n      \"gateway.icloud.com\":\n        private_key: \"AAAAAAAAAAAAAAAAAAAAAAAAAAAAAAAAAAAAAAAAAAA\"\n        short_ids: [\"0102\"]\n        dest: \"gateway.icloud.com:443\"\n        vision: true\n        protocol:\n          type: vless\n          user_id: \"e596393a-47d2-4ff2-ad8a-e5edc8a078e1\"\n";
    assert_eq!(generate_shoes_config(&c), expected);
    let v6 = config(SocketAddress::V6 { ip6: [0; 16], port: 443, scope_id: 0 });
    assert!(generate_shoes_config(&v6).starts_with("- address: \"[::]:443\"\n"));
    let scoped = config(SocketAddress::V6 {
        ip6: [0xfe, 0x80, 0, 0, 0, 0, 0, 0, 0, 0, 0, 0, 0, 0, 0, 1],
        port: 443,
        scope_id: 2,
    });
    assert!(generate_shoes_config(&scoped).starts_with("- address: \"[fe80::1%2]:443\"\n"));
}

#[test]
fn xray_config_text() {
    let c = config(SocketAddress::V6 { ip6: [0, 0, 0, 0, 0, 0, 0, 0, 0, 0, 0, 0, 0, 0, 0, 1], port: 8443, scope_id: 0 });
    let text = generate_xray_config(&c);
    assert!(text.starts_with("{\n  \"log\": {\n    \"loglevel\": \"warning\"\n  },\n  \"inbounds\": [\n    {\n      \"port\": 8443,\n      \"listen\": \"::1\",\n"));
    assert!(text.contains("            \"id\": \"e596393a-47d2-4ff2-ad8a-e5edc8a078e1\",\n"));
    assert!(text.contains("          \"dest\": \"gateway.icloud.com:443\",\n"));
    assert!(text.contains("          \"serverNames\": [\n            \"gateway.icloud.com\"\n          ],\n"));
    assert!(text.contains("          \"privateKey\": \"AAAAAAAAAAAAAAAAAAAAAAAAAAAAAAAAAAAAAAAAAAA\",\n"));
    assert!(text.contains("          \"shortIds\": [\n            \"0102\"\n          ]\n"));
    assert!(text.ends_with("      \"tag\": \"direct\"\n    }\n  ]\n}"));
}

#[test]
fn engines_are_chosen_in_order() {
    let c = config(SocketAddress::V4 { ip4: [127, 0, 0, 1], port: 1 });
    let shoes = plan_engine(&c, Some("/app/shoes".to_string()), Some("/app/xray".to_string())).unwrap();
    assert_eq!(shoes.engine, Engine::Shoes);
    assert_eq!(shoes.binary, "/app/shoes");
    assert_eq!(shoes.config_file_name, "shoes_config.yaml");
    assert_eq!(shoes.config_text, generate_shoes_config(&c));
    assert_eq!(shoes.args_before_config, vec!["--no-reload".to_string()]);
    let xray = plan_engine(&c, None, Some("/app/xray".to_string())).unwrap();
    assert_eq!(xray.engine, Engine::Xray);
    assert_eq!(xray.config_file_name, "vless_xray_config.json");
    assert_eq!(xray.config_text, generate_xray_config(&c));
    assert_eq!(xray.args_before_config, vec!["run".to_string(), "-c".to_string()]);
    assert!(plan_engine(&c, None, None).is_none());
}

#[test]
fn engine_binaries_are_searched_in_order() {
    assert_eq!(
        engine_binary_candidates(Engine::Shoes, Some("/opt/shoes".to_string())),
        vec!["/opt/shoes", "/usr/local/bin/shoes", "/app/shoes", "/tmp/shoes"]
    );
    assert_eq!(
        engine_binary_candidates(Engine::Xray, None),
        vec!["/usr/local/bin/xray", "/app/xray", "/tmp/xray_bin/xray"]
    );
    assert_eq!(engine_path_variable(Engine::Shoes), "SHOES_PATH");
    assert_eq!(engine_path_variable(Engine::Xray), "XRAY_PATH");
    assert_eq!(engine_binary_name(Engine::Shoes), "shoes");
    assert_eq!(engine_binary_name(Engine::Xray), "xray");
}

#[test]
fn noise_log_lines_are_dropped() {
    assert!(is_suppressed_engine_log("ERROR Invalid TLS protocol version 0x0301"));
    assert!(is_suppressed_engine_log("warn: Session ID decrypt failed for 1.2.3.4"));
    assert!(is_suppressed_engine_log("failed to setup server stream: eof"));
    assert!(!is_suppressed_engine_log("listening on 0.0.0.0:8080"));
    assert!(!is_suppressed_engine_log(""));
}

#[test]
fn banner_shows_link_and_qr() {
    let mut c = config(SocketAddress::V4 { ip4: [0, 0, 0, 0], port: 8080 });
    let link = c.generate_vless_share_link();
    let qr = generate_ascii_qr(&link);
    assert!(qr.is_some());
    let banner = startup_banner(&c, &link, &qr);
    let eq = "=".repeat(79);
    assert!(banner.starts_with(&format!("\n{}\n  🚀 VLESS + RAW + REALITY SERVER IS ACTIVE!\n{}\n  🌐 ADDRESS   : 1.2.3.4:8080\n", eq, "-".repeat(79))));
    assert!(banner.contains(
        "\n  UUID        : e596393a-47d2-4ff2-ad8a-e5edc8a078e1\n  Camouflage  : gateway.icloud.com:443\n  SNI         : gateway.icloud.com\n  Port        : 8080\n-----"
    ));
    assert!(banner.contains(&format!("  📲 ANDROID IMPORT LINK (v2rayNG / NekoBox / Xray):\n  {}\n", link)));
    assert!(banner.contains("  📷 QR CODE:\n"));
    assert!(banner.ends_with(&format!("{}\n\n", eq)));
    c.is_railway = true;
    c.has_tcp_proxy = true;
    let banner = startup_banner(&c, &link, &None);
    assert!(banner.contains("  🌐 TCP PROXY : 1.2.3.4:8080\n"));
    assert!(!banner.contains("QR CODE"));
}

#[test]
fn qr_matches_qrcode_crate() {
    let data = "vless://example";
    let expected = qrcode::QrCode::with_error_correction_level(data.as_bytes(), qrcode::EcLevel::L)
        .unwrap()
        .render::<qrcode::render::unicode::Dense1x2>()
        .quiet_zone(false)
        .build();
    assert_eq!(generate_ascii_qr(data), Some(expected));
    assert_eq!(generate_ascii_qr(&"x".repeat(5000)), None);
}

#[test]
fn engine_log_filter_matches_anywhere_in_the_line() {
    assert!(is_suppressed_engine_log("Session ID decrypt failed"));
    assert!(!is_suppressed_engine_log("Session ID decrypt faile"));
    assert!(is_suppressed_engine_log("ünïcode → failed to setup server stream ✓"));
}
