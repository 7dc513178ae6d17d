//! What the server hands to the REALITY engine it runs (shoes or Xray): their
//! configuration files, the engine to start, the startup banner and the
//! engine log lines that are dropped.
use vstd::prelude::*;
use vstd::string::StringSliceAdditionalSpecFns;
use crate::address::{ipv4_text, ipv6_text, socket_ip_text, socket_port, socket_text, SocketAddress};
use crate::config::{ConfigView, ServerConfig};
use crate::encoding::{
    base64_decode, base64_encode, base64_url_nopad_encode, hex_encode, hex_encode_bytes, lemma_base64_encode_injective,
    uuid_text, uuid_to_string,
};
use crate::text::{decimal, has_substring, lemma_short_lacks, push_decimal, str_contains_str};

verus! {

/// The shoes engine configuration (YAML) for a server configuration.
pub open spec fn shoes_config_text(c: ConfigView) -> Seq<char> {
    "- address: \""@
        + socket_text(c.listen_addr)
        + "\"\n  protocol:\n    type: tls\n    reality_targets:\n      \""@
        + c.server_name
        + "\":\n        "@
        + "private_key: \""@
        + base64_encode(true, false, c.private_key)
        + "\""@
        + "\n        short_ids: [\""@
        + hex_encode(c.short_id)
        + "\"]\n        dest: \""@
        + c.dest_target
        + "\"\n        vision: true\n        protocol:\n          type: vless\n          user_id: \""@
        + uuid_text(c.user_uuid)
        + "\"\n"@
}

/// The Xray engine configuration (JSON) for a server configuration.
pub open spec fn xray_config_text(c: ConfigView) -> Seq<char> {
    "{\n  \"log\": {\n    \"loglevel\": \"warning\"\n  },\n  \"inbounds\": [\n    {\n      "@
        + "\"port\": "@
        + decimal(socket_port(c.listen_addr) as nat)
        + ",\n      \"listen\": \""@
        + socket_ip_text(c.listen_addr)
        + "\","@
        + "\n      \"protocol\": \"vless\",\n      \"settings\": {\n        \"clients\": [\n          {\n            \"id\": \""@
        + uuid_text(c.user_uuid)
        + "\",\n            \"flow\": \"xtls-rprx-vision\"\n          }\n        ],\n        \"decryption\": \"none\"\n      },\n      \"streamSettings\": {\n        \"network\": \"tcp\",\n        \"security\": \"reality\",\n        \"realitySettings\": {\n          \"show\": false,\n          \"dest\": \""@
        + c.dest_target
        + "\",\n          \"xver\": 0,\n          \"serverNames\": [\n            \""@
        + c.server_name
        + "\"\n          ],\n          "@
        + "\"privateKey\": \""@
        + base64_encode(true, false, c.private_key)
        + "\""@
        + ",\n          \"shortIds\": [\n            \""@
        + hex_encode(c.short_id)
        + "\"\n          ]\n        }\n      }\n    }\n  ],\n  \"outbounds\": [\n    {\n      \"protocol\": \"freedom\",\n      \"tag\": \"direct\"\n    }\n  ]\n}"@
}

/// The shoes engine configuration: listen address, REALITY target with the
/// private key (unpadded URL-safe Base64), short ID (hex), destination, and
/// the VLESS user.
pub fn generate_shoes_config(config: &ServerConfig) -> (res: String)
    ensures
        res@ == shoes_config_text(config@),
{
    let private_key_b64 = base64_url_nopad_encode(&config.private_key);
    let short_id_hex = hex_encode_bytes(config.short_id.as_slice());
    let listen = config.listen_addr.to_text();
    let uuid = uuid_to_string(&config.user_uuid);
    let mut s = String::new();
    s.append("- address: \"");
    s.append(listen.as_str());
    s.append("\"\n  protocol:\n    type: tls\n    reality_targets:\n      \"");
    s.append(config.server_name.as_str());
    s.append("\":\n        ");
    s.append("private_key: \"");
    s.append(private_key_b64.as_str());
    s.append("\"");
    s.append("\n        short_ids: [\"");
    s.append(short_id_hex.as_str());
    s.append("\"]\n        dest: \"");
    s.append(config.dest_target.as_str());
    s.append("\"\n        vision: true\n        protocol:\n          type: vless\n          user_id: \"");
    s.append(uuid.as_str());
    s.append("\"\n");
    assert(s@ =~= shoes_config_text(config@));
    s
}

/// The Xray engine configuration: a VLESS inbound with REALITY stream
/// settings on the listen address, and a direct outbound.
pub fn generate_xray_config(config: &ServerConfig) -> (res: String)
    ensures
        res@ == xray_config_text(config@),
{
    let private_key_b64 = base64_url_nopad_encode(&config.private_key);
    let short_id_hex = hex_encode_bytes(config.short_id.as_slice());
    let listen_ip = config.listen_addr.ip_text();
    let uuid = uuid_to_string(&config.user_uuid);
    let mut s = String::new();
    s.append("{\n  \"log\": {\n    \"loglevel\": \"warning\"\n  },\n  \"inbounds\": [\n    {\n      ");
    s.append("\"port\": ");
    push_decimal(&mut s, config.listen_addr.port() as u32);
    s.append(",\n      \"listen\": \"");
    s.append(listen_ip.as_str());
    s.append("\",");
    s.append("\n      \"protocol\": \"vless\",\n      \"settings\": {\n        \"clients\": [\n          {\n            \"id\": \"");
    s.append(uuid.as_str());
    s.append("\",\n            \"flow\": \"xtls-rprx-vision\"\n          }\n        ],\n        \"decryption\": \"none\"\n      },\n      \"streamSettings\": {\n        \"network\": \"tcp\",\n        \"security\": \"reality\",\n        \"realitySettings\": {\n          \"show\": false,\n          \"dest\": \"");
    s.append(config.dest_target.as_str());
    s.append("\",\n          \"xver\": 0,\n          \"serverNames\": [\n            \"");
    s.append(config.server_name.as_str());
    s.append("\"\n          ],\n          ");
    s.append("\"privateKey\": \"");
    s.append(private_key_b64.as_str());
    s.append("\"");
    s.append(",\n          \"shortIds\": [\n            \"");
    s.append(short_id_hex.as_str());
    s.append("\"\n          ]\n        }\n      }\n    }\n  ],\n  \"outbounds\": [\n    {\n      \"protocol\": \"freedom\",\n      \"tag\": \"direct\"\n    }\n  ]\n}");
    assert(s@ =~= xray_config_text(config@));
    s
}

/// Both engine configurations carry the server's private key as a quoted
/// value (`private_key` for shoes, `privateKey` for Xray) written as unpadded
/// URL-safe Base64, which decodes back to the key under that alphabet; and
/// shoes listens on the full listen address, IP and port.
pub proof fn lemma_engine_private_key(c: ConfigView)
    ensures
        has_substring(
            shoes_config_text(c),
            "private_key: \""@ + base64_encode(true, false, c.private_key) + "\""@,
        ),
        has_substring(
            xray_config_text(c),
            "\"privateKey\": \""@ + base64_encode(true, false, c.private_key) + "\""@,
        ),
        base64_decode(true, false, base64_encode(true, false, c.private_key)) == Some(c.private_key),
        ("- address: \""@ + socket_text(c.listen_addr) + "\""@).is_prefix_of(shoes_config_text(c)),
{
    reveal_strlit("- address: \"");
    reveal_strlit("\"");
    let key = base64_encode(true, false, c.private_key);
    let address = "- address: \""@ + socket_text(c.listen_addr);
    let before = address + "\"\n  protocol:\n    type: tls\n    reality_targets:\n      \""@ + c.server_name
        + "\":\n        "@;
    let p = "private_key: \""@ + key + "\""@;
    assert(shoes_config_text(c).subrange(before.len() as int, (before.len() + p.len()) as int) =~= p);
    reveal_strlit("\"\n  protocol:\n    type: tls\n    reality_targets:\n      \"");
    assert(shoes_config_text(c).subrange(0, (address.len() + 1) as int) =~= address + "\""@);
    let xbefore = "{\n  \"log\": {\n    \"loglevel\": \"warning\"\n  },\n  \"inbounds\": [\n    {\n      "@ + "\"port\": "@
        + decimal(socket_port(c.listen_addr) as nat) + ",\n      \"listen\": \""@ + socket_ip_text(c.listen_addr)
        + "\","@
        + "\n      \"protocol\": \"vless\",\n      \"settings\": {\n        \"clients\": [\n          {\n            \"id\": \""@
        + uuid_text(c.user_uuid)
        + "\",\n            \"flow\": \"xtls-rprx-vision\"\n          }\n        ],\n        \"decryption\": \"none\"\n      },\n      \"streamSettings\": {\n        \"network\": \"tcp\",\n        \"security\": \"reality\",\n        \"realitySettings\": {\n          \"show\": false,\n          \"dest\": \""@
        + c.dest_target + "\",\n          \"xver\": 0,\n          \"serverNames\": [\n            \""@ + c.server_name
        + "\"\n          ],\n          "@;
    let xp = "\"privateKey\": \""@ + key + "\""@;
    assert(xray_config_text(c).subrange(xbefore.len() as int, (xbefore.len() + xp.len()) as int) =~= xp);
    let w = choose|v: Seq<u8>| base64_encode(true, false, v) == key;
    lemma_base64_encode_injective(true, false, c.private_key, w);
}

/// The Xray inbound listens on the port of the listen address and on its IP
/// alone: the quoted `listen` value is the IP text, with no port, for IPv4 as
/// for IPv6 listen addresses.
pub proof fn lemma_xray_inbound_listen(c: ConfigView)
    ensures
        match c.listen_addr {
            SocketAddress::V4 { ip4, port } => has_substring(
                xray_config_text(c),
                "\"port\": "@ + decimal(port as nat) + ",\n      \"listen\": \""@ + ipv4_text(ip4@) + "\","@,
            ),
            SocketAddress::V6 { ip6, port, .. } => has_substring(
                xray_config_text(c),
                "\"port\": "@ + decimal(port as nat) + ",\n      \"listen\": \""@ + ipv6_text(ip6@) + "\","@,
            ),
        },
{
    let before = "{\n  \"log\": {\n    \"loglevel\": \"warning\"\n  },\n  \"inbounds\": [\n    {\n      "@;
    let p = "\"port\": "@ + decimal(socket_port(c.listen_addr) as nat) + ",\n      \"listen\": \""@
        + socket_ip_text(c.listen_addr) + "\","@;
    assert(xray_config_text(c).subrange(before.len() as int, (before.len() + p.len()) as int) =~= p);
}

/// The banner printed at startup: address, user UUID, camouflage
/// destination, SNI, public port, share link and, when one could be drawn,
/// its QR code.
pub open spec fn banner_text(c: ConfigView, share_link: Seq<char>, qr: Option<Seq<char>>) -> Seq<char> {
    "\n===============================================================================\n  🚀 VLESS + RAW + REALITY SERVER IS ACTIVE!\n-------------------------------------------------------------------------------\n"@
        + (if c.is_railway && c.has_tcp_proxy { "  🌐 TCP PROXY : "@ } else { "  🌐 ADDRESS   : "@ })
        + c.public_address + seq![':'] + decimal(c.public_port as nat)
        + "\n  UUID        : "@ + uuid_text(c.user_uuid)
        + "\n  Camouflage  : "@ + c.dest_target
        + "\n  SNI         : "@ + c.server_name
        + "\n  Port        : "@ + decimal(c.public_port as nat)
        + "\n-------------------------------------------------------------------------------\n  📲 ANDROID IMPORT LINK (v2rayNG / NekoBox / Xray):\n  "@ + share_link + seq!['\n']
        + match qr {
            Some(q) => "-------------------------------------------------------------------------------\n  📷 QR CODE:\n"@ + q + seq!['\n'],
            None => Seq::empty(),
        }
        + "===============================================================================\n\n"@
}

/// The startup banner for a configuration, its share link and QR code.
pub fn startup_banner(config: &ServerConfig, share_link: &str, qr: &Option<String>) -> (res: String)
    ensures
        res@ == banner_text(config@, share_link@, match qr { Some(q) => Some(q@), None => None }),
{
    let mut s = String::new();
    s.append("\n===============================================================================\n  🚀 VLESS + RAW + REALITY SERVER IS ACTIVE!\n-------------------------------------------------------------------------------\n");
    if config.is_railway && config.has_tcp_proxy {
        s.append("  🌐 TCP PROXY : ");
    } else {
        s.append("  🌐 ADDRESS   : ");
    }
    s.append(config.public_address.as_str());
    s.append(":");
    proof { reveal_strlit(":"); }
    push_decimal(&mut s, config.public_port as u32);
    let uuid = uuid_to_string(&config.user_uuid);
    s.append("\n  UUID        : ");
    s.append(uuid.as_str());
    s.append("\n  Camouflage  : ");
    s.append(config.dest_target.as_str());
    s.append("\n  SNI         : ");
    s.append(config.server_name.as_str());
    s.append("\n  Port        : ");
    push_decimal(&mut s, config.public_port as u32);
    s.append("\n-------------------------------------------------------------------------------\n  📲 ANDROID IMPORT LINK (v2rayNG / NekoBox / Xray):\n  ");
    s.append(share_link);
    s.append("\n");
    proof { reveal_strlit("\n"); }
    match qr {
        Some(q) => {
            s.append("-------------------------------------------------------------------------------\n  📷 QR CODE:\n");
            s.append(q.as_str());
            s.append("\n");
        },
        None => {},
    }
    s.append("===============================================================================\n\n");
    assert(s@ =~= banner_text(config@, share_link@, match qr { Some(q) => Some(q@), None => None }));
    s
}

/// The label of the banner's address line: the Railway TCP proxy when the
/// server runs behind one, else the plain address.
pub open spec fn address_label(c: ConfigView) -> Seq<char> {
    if c.is_railway && c.has_tcp_proxy {
        "  🌐 TCP PROXY : "@
    } else {
        "  🌐 ADDRESS   : "@
    }
}

/// The banner's address line gives the public address and the public port,
/// the host and port that the share link carries.
pub proof fn lemma_banner_address_line(c: ConfigView, share_link: Seq<char>, qr: Option<Seq<char>>)
    ensures
        has_substring(
            banner_text(c, share_link, qr),
            address_label(c) + c.public_address + seq![':'] + decimal(c.public_port as nat) + seq!['\n'],
        ),
{
    reveal_strlit("\n  UUID        : ");
    let before = "\n===============================================================================\n  🚀 VLESS + RAW + REALITY SERVER IS ACTIVE!\n-------------------------------------------------------------------------------\n"@;
    let p = address_label(c) + c.public_address + seq![':'] + decimal(c.public_port as nat) + seq!['\n'];
    assert(banner_text(c, share_link, qr).subrange(before.len() as int, (before.len() + p.len()) as int) =~= p);
}

/// The banner does not depend on where the server listens: configurations
/// that differ only in the listen address print the same banner.
pub proof fn lemma_banner_ignores_listen_address(
    c: ConfigView,
    listen_addr: SocketAddress,
    share_link: Seq<char>,
    qr: Option<Seq<char>>,
)
    ensures
        banner_text((ConfigView { listen_addr, ..c }), share_link, qr) == banner_text(c, share_link, qr),
{
}

/// The REALITY engines that can serve the connections, in order of preference.
#[derive(Debug, Clone, Copy, PartialEq, Eq)]
pub enum Engine {
    /// The pure-Rust shoes engine.
    Shoes,
    /// Xray-core.
    Xray,
}

/// How to start the engine: which one, its binary, the name of the
/// configuration file in the temporary directory and its text, and the
/// arguments that precede the configuration file's path.
pub struct EngineLaunch {
    pub engine: Engine,
    pub binary: String,
    pub config_file_name: String,
    pub config_text: String,
    pub args_before_config: Vec<String>,
}

/// The launch a server makes: shoes when its binary was found, else Xray when
/// its binary was found, else none.
pub open spec fn launch_matches(
    l: EngineLaunch,
    c: ConfigView,
    shoes_binary: Option<Seq<char>>,
    xray_binary: Option<Seq<char>>,
) -> bool {
    match shoes_binary {
        Some(b) => {
            &&& l.engine == Engine::Shoes
            &&& l.binary@ == b
            &&& l.config_file_name@ == "shoes_config.yaml"@
            &&& l.config_text@ == shoes_config_text(c)
            &&& l.args_before_config@.map_values(|a: String| a@) == seq!["--no-reload"@]
        },
        None => {
            &&& xray_binary matches Some(b)
            &&& l.engine == Engine::Xray
            &&& l.binary@ == b
            &&& l.config_file_name@ == "vless_xray_config.json"@
            &&& l.config_text@ == xray_config_text(c)
            &&& l.args_before_config@.map_values(|a: String| a@) == seq!["run"@, "-c"@]
        },
    }
}

/// Chooses the REALITY engine to run: shoes when its binary was found, else
/// Xray when its binary was found; `None` when neither was found, since
/// REALITY encryption is required.
pub fn plan_engine(config: &ServerConfig, shoes_binary: Option<String>, xray_binary: Option<String>) -> (res: Option<
    EngineLaunch,
>)
    ensures
        match res {
            Some(l) => launch_matches(
                l,
                config@,
                match shoes_binary { Some(b) => Some(b@), None => None },
                match xray_binary { Some(b) => Some(b@), None => None },
            ),
            None => shoes_binary is None && xray_binary is None,
        },
{
    match shoes_binary {
        Some(binary) => {
            let mut args: Vec<String> = Vec::new();
            args.push(String::from_str("--no-reload"));
            assert(args@.map_values(|a: String| a@) =~= seq!["--no-reload"@]);
            Some(EngineLaunch {
                engine: Engine::Shoes,
                binary,
                config_file_name: String::from_str("shoes_config.yaml"),
                config_text: generate_shoes_config(config),
                args_before_config: args,
            })
        },
        None => match xray_binary {
            Some(binary) => {
                let mut args: Vec<String> = Vec::new();
                args.push(String::from_str("run"));
                args.push(String::from_str("-c"));
                assert(args@.map_values(|a: String| a@) =~= seq!["run"@, "-c"@]);
                Some(EngineLaunch {
                    engine: Engine::Xray,
                    binary,
                    config_file_name: String::from_str("vless_xray_config.json"),
                    config_text: generate_xray_config(config),
                    args_before_config: args,
                })
            },
            None => None,
        },
    }
}

/// The variable that may name an engine's binary, the binary's name for a
/// `PATH` search, and the fixed places looked at in between.
pub open spec fn engine_search_text(engine: Engine) -> (Seq<char>, Seq<char>, Seq<Seq<char>>) {
    match engine {
        Engine::Shoes => (
            "SHOES_PATH"@,
            "shoes"@,
            seq!["/usr/local/bin/shoes"@, "/app/shoes"@, "/tmp/shoes"@],
        ),
        Engine::Xray => (
            "XRAY_PATH"@,
            "xray"@,
            seq!["/usr/local/bin/xray"@, "/app/xray"@, "/tmp/xray_bin/xray"@],
        ),
    }
}

/// The path named by the variable, if it is set.
pub open spec fn given_path(env_path: Option<String>) -> Seq<Seq<char>> {
    match env_path {
        Some(p) => seq![p@],
        None => Seq::empty(),
    }
}

/// Where to look for an engine binary, in order: the variable's path when it
/// is set, then the fixed places. (A `PATH` search for the binary's name
/// comes after these.)
pub fn engine_binary_candidates(engine: Engine, env_path: Option<String>) -> (res: Vec<String>)
    ensures
        res@.map_values(|p: String| p@) == given_path(env_path) + engine_search_text(engine).2,
{
    let mut res: Vec<String> = Vec::new();
    let ghost first = given_path(env_path);
    match env_path {
        Some(p) => res.push(p),
        None => {},
    }
    assert(res@.map_values(|p: String| p@) =~= first);
    match engine {
        Engine::Shoes => {
            res.push(String::from_str("/usr/local/bin/shoes"));
            res.push(String::from_str("/app/shoes"));
            res.push(String::from_str("/tmp/shoes"));
        },
        Engine::Xray => {
            res.push(String::from_str("/usr/local/bin/xray"));
            res.push(String::from_str("/app/xray"));
            res.push(String::from_str("/tmp/xray_bin/xray"));
        },
    }
    assert(res@.map_values(|p: String| p@) =~= first + engine_search_text(engine).2);
    res
}

/// The variable that may name an engine's binary.
pub fn engine_path_variable(engine: Engine) -> (res: &'static str)
    ensures
        res@ == engine_search_text(engine).0,
{
    match engine {
        Engine::Shoes => "SHOES_PATH",
        Engine::Xray => "XRAY_PATH",
    }
}

/// The binary's name for a `PATH` search.
pub fn engine_binary_name(engine: Engine) -> (res: &'static str)
    ensures
        res@ == engine_search_text(engine).1,
{
    match engine {
        Engine::Shoes => "shoes",
        Engine::Xray => "xray",
    }
}

/// Engine log lines that are harmless port probes, scanner errors or invalid
/// TLS handshake attempts, and are not passed on.
pub open spec fn is_noise_log_line(line: Seq<char>) -> bool {
    ||| has_substring(line, "Invalid TLS protocol version"@)
    ||| has_substring(line, "Session ID decrypt failed"@)
    ||| has_substring(line, "failed to setup server stream"@)
}

/// Whether an engine's error-output line is dropped rather than passed on.
pub fn is_suppressed_engine_log(line: &str) -> (res: bool)
    ensures
        res == is_noise_log_line(line@),
{
    str_contains_str(line, "Invalid TLS protocol version") || str_contains_str(line, "Session ID decrypt failed")
        || str_contains_str(line, "failed to setup server stream")
}

/// A log line is dropped exactly when it holds one of the three noise
/// phrases; every other line, whatever error it reports, is passed on. In
/// particular a line shorter than the shortest phrase (25 characters) is
/// always passed on.
pub proof fn lemma_noise_phrases(line: Seq<char>)
    ensures
        is_noise_log_line(line) <==> (has_substring(line, "Invalid TLS protocol version"@) || has_substring(
            line,
            "Session ID decrypt failed"@,
        ) || has_substring(line, "failed to setup server stream"@)),
        line.len() < 25 ==> !is_noise_log_line(line),
{
    reveal_strlit("Invalid TLS protocol version");
    reveal_strlit("Session ID decrypt failed");
    reveal_strlit("failed to setup server stream");
    if line.len() < 25 {
        lemma_short_lacks(line, "Invalid TLS protocol version"@);
        lemma_short_lacks(line, "Session ID decrypt failed"@);
        lemma_short_lacks(line, "failed to setup server stream"@);
    }
}

/// The QR rendering that `qrcode` gives for `data` at error correction level
/// L, drawn with `Dense1x2` unicode blocks without quiet zone; `None` when the
/// data does not fit in a QR code.
pub uninterp spec fn qr_dense_text(data: Seq<u8>) -> Option<Seq<char>>;

/// `qrcode::QrCode::with_error_correction_level(data, EcLevel::L)`, rendered
/// with `render::<unicode::Dense1x2>().quiet_zone(false).build()`. The text is
/// only named.
#[verifier::external_body]
fn qr_render_dense(data: &[u8]) -> (res: Option<String>)
    ensures
        match res {
            Some(t) => qr_dense_text(data@) == Some(t@),
            None => qr_dense_text(data@) is None,
        },
{
    match qrcode::QrCode::with_error_correction_level(data, qrcode::EcLevel::L) {
        Ok(code) => Some(code.render::<qrcode::render::unicode::Dense1x2>().quiet_zone(false).build()),
        Err(_) => None,
    }
}

/// The QR code of a share link as text, when the link fits in a QR code.
pub fn generate_ascii_qr(data: &str) -> (res: Option<String>)
    ensures
        match res {
            Some(t) => qr_dense_text(data.spec_bytes()) == Some(t@),
            None => qr_dense_text(data.spec_bytes()) is None,
        },
{
    qr_render_dense(data.as_bytes())
}

} // verus!
