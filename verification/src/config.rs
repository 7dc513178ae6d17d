//! Server configuration: options, the values they resolve to, and the VLESS
//! share link that clients import.
use vstd::prelude::*;
use crate::address::SocketAddress;
use crate::encoding::{
    base64_decode, base64_encode, base64_standard_decode, base64_url_nopad_decode,
    base64_url_nopad_encode, hex_decode, hex_decode_str, hex_encode, hex_encode_bytes,
    lemma_base64_encode_injective, lemma_base64_unpadded_len, lemma_uuid_roundtrip, uuid_parse, uuid_parse_str, uuid_text, uuid_to_string,
};
use crate::reality::crypto::{x25519_public, x25519_public_key};
use crate::link::{
    avoids, is_link_delimiter, lemma_base64_url_plain, lemma_concat_avoids, lemma_decimal_plain,
    lemma_hex_plain, lemma_first_index, lemma_last_index, lemma_plain_avoids, lemma_query_avoids, lemma_read_query, lemma_uuid_text_plain,
    push_query, query_text, read_link, well_formed_params, is_plain,
};
use crate::text::{decimal, push_char, push_decimal, str_trim, trim};
use crate::address::{bracketed_host, push_bracketed_host};

verus! {

/// Default legitimate camouflage destination (Apple's worldwide push/iCloud edge).
pub const DEFAULT_DEST: &'static str = "gateway.icloud.com:443";

/// Default legitimate Server Name Indication (SNI).
pub const DEFAULT_SNI: &'static str = "gateway.icloud.com";

/// Command-line / environment options of the server.
pub struct Opts {
    pub port: u16,
    pub bind: String,
    pub uuid: Option<String>,
    pub private_key: Option<String>,
    pub short_id: Option<String>,
    pub dest: String,
    pub sni: String,
    /// External server address / IP (e.g. Railway TCP domain).
    pub server_address: Option<String>,
    /// External public port if different from the internal listen port.
    pub server_port: Option<u16>,
}

/// The Railway deployment variables, each as read from the environment
/// (`None` when unset).
pub struct RailwayEnv {
    pub environment: Option<String>,
    pub project_id: Option<String>,
    pub service_id: Option<String>,
    pub tcp_proxy_domain: Option<String>,
    pub public_domain: Option<String>,
    pub tcp_proxy_port: Option<String>,
}

/// Freshly drawn values used where the options leave a setting out.
pub struct FreshValues {
    pub uuid: [u8; 16],
    pub private_key: [u8; 32],
    pub short_id: [u8; 8],
}

/// The resolved server configuration.
pub struct ServerConfig {
    pub listen_addr: SocketAddress,
    pub user_uuid: [u8; 16],
    pub private_key: [u8; 32],
    pub public_key: [u8; 32],
    pub short_id: Vec<u8>,
    pub dest_target: String,
    pub server_name: String,
    pub public_address: String,
    pub public_port: u16,
    pub is_railway: bool,
    pub has_tcp_proxy: bool,
}

/// The mathematical content of a `ServerConfig`.
pub ghost struct ConfigView {
    pub listen_addr: SocketAddress,
    pub user_uuid: Seq<u8>,
    pub private_key: Seq<u8>,
    pub public_key: Seq<u8>,
    pub short_id: Seq<u8>,
    pub dest_target: Seq<char>,
    pub server_name: Seq<char>,
    pub public_address: Seq<char>,
    pub public_port: u16,
    pub is_railway: bool,
    pub has_tcp_proxy: bool,
}

impl View for ServerConfig {
    type V = ConfigView;

    open spec fn view(&self) -> ConfigView {
        ConfigView {
            listen_addr: self.listen_addr,
            user_uuid: self.user_uuid@,
            private_key: self.private_key@,
            public_key: self.public_key@,
            short_id: self.short_id@,
            dest_target: self.dest_target@,
            server_name: self.server_name@,
            public_address: self.public_address@,
            public_port: self.public_port,
            is_railway: self.is_railway,
            has_tcp_proxy: self.has_tcp_proxy,
        }
    }
}

/// Why options were refused.
#[derive(Debug, Clone, Copy, PartialEq, Eq)]
pub enum ConfigError {
    /// The UUID option is no UUID text.
    InvalidUuid,
    /// The private key option is neither hexadecimal nor Base64.
    InvalidPrivateKeyEncoding,
    /// The private key decodes to this many bytes instead of 32.
    PrivateKeyLength(usize),
    /// The short ID option is not hexadecimal.
    InvalidShortId,
}

/// The trimmed text of an option that is set and not blank.
pub open spec fn given(o: Option<String>) -> Option<Seq<char>> {
    match o {
        Some(s) => if trim(s@).len() > 0 { Some(trim(s@)) } else { None },
        None => None,
    }
}

/// The (untrimmed) text of an option that is set and not blank.
pub open spec fn nonblank(o: Option<String>) -> Option<Seq<char>> {
    match o {
        Some(s) => if trim(s@).len() > 0 { Some(s@) } else { None },
        None => None,
    }
}

/// A private key text: hexadecimal, else unpadded URL-safe Base64, else
/// padded standard Base64.
pub open spec fn decode_private_key(t: Seq<char>) -> Option<Seq<u8>> {
    match hex_decode(t) {
        Some(b) => Some(b),
        None => match base64_decode(true, false, t) {
            Some(b) => Some(b),
            None => base64_decode(false, true, t),
        },
    }
}

/// An ASCII decimal digit.
pub open spec fn is_decimal_digit(c: char) -> bool {
    0x30 <= (c as u32) <= 0x39
}

/// The value of a run of decimal digits.
pub open spec fn digits_value(s: Seq<char>) -> nat
    decreases s.len(),
{
    if s.len() == 0 {
        0
    } else {
        digits_value(s.drop_last()) * 10 + ((s.last() as u32) - 0x30) as nat
    }
}

/// Every character is a decimal digit.
pub open spec fn all_digits(d: Seq<char>) -> bool {
    forall|i: int| 0 <= i < d.len() ==> is_decimal_digit(#[trigger] d[i])
}

/// The text after an optional leading `+`.
pub open spec fn without_plus(s: Seq<char>) -> Seq<char> {
    if s.len() > 0 && s[0] == '+' { s.drop_first() } else { s }
}

/// What `str::parse::<u16>` gives: an optional `+`, then one or more decimal
/// digits whose value fits in 16 bits.
pub open spec fn parse_u16_text(s: Seq<char>) -> Option<u16> {
    let d = without_plus(s);
    if d.len() > 0 && all_digits(d) && digits_value(d) <= 65535 {
        Some(digits_value(d) as u16)
    } else {
        None
    }
}

/// Some Railway variable is set.
pub open spec fn on_railway(env: RailwayEnv) -> bool {
    env.environment is Some || env.project_id is Some || env.service_id is Some || env.tcp_proxy_domain is Some
        || env.public_domain is Some
}

/// The Railway TCP proxy port, when set and a port number.
pub open spec fn proxy_port(env: RailwayEnv) -> Option<u16> {
    match env.tcp_proxy_port {
        Some(p) => parse_u16_text(p@),
        None => None,
    }
}

/// The address written into share links when nothing names one.
pub open spec fn default_public_address() -> Seq<char> {
    "roundhouse.proxy.rlwy.net"@
}

/// The configuration that options resolve to, given the listening address,
/// the Railway variables and fresh values for settings the options leave out.
/// Errors are checked in this order: UUID, private key, short ID.
pub open spec fn config_from(opts: Opts, listen_addr: SocketAddress, env: RailwayEnv, fresh: FreshValues) -> Result<
    ConfigView,
    ConfigError,
> {
    let uuid = match given(opts.uuid) {
        Some(t) => uuid_parse(t),
        None => Some(fresh.uuid@),
    };
    let key = match given(opts.private_key) {
        Some(t) => decode_private_key(t),
        None => Some(fresh.private_key@),
    };
    let short_id = match given(opts.short_id) {
        Some(t) => hex_decode(t),
        None => Some(fresh.short_id@),
    };
    if uuid is None {
        Err(ConfigError::InvalidUuid)
    } else if key is None {
        Err(ConfigError::InvalidPrivateKeyEncoding)
    } else if key->Some_0.len() != 32 {
        Err(ConfigError::PrivateKeyLength(key->Some_0.len() as usize))
    } else if short_id is None {
        Err(ConfigError::InvalidShortId)
    } else {
        let proxy_domain = nonblank(env.tcp_proxy_domain);
        Ok(
            ConfigView {
                listen_addr,
                user_uuid: uuid->Some_0,
                private_key: key->Some_0,
                public_key: x25519_public(key->Some_0),
                short_id: short_id->Some_0,
                dest_target: opts.dest@,
                server_name: opts.sni@,
                public_address: match nonblank(opts.server_address) {
                    Some(a) => a,
                    None => match proxy_domain {
                        Some(d) => d,
                        None => default_public_address(),
                    },
                },
                public_port: match opts.server_port {
                    Some(p) => p,
                    None => match proxy_port(env) {
                        Some(p) => p,
                        None => opts.port,
                    },
                },
                is_railway: on_railway(env),
                has_tcp_proxy: proxy_domain is Some && proxy_port(env) is Some,
            },
        )
    }
}

/// `s` without leading and trailing square brackets (`str::trim_matches`
/// with `[` and `]`).
pub open spec fn strip_brackets(s: Seq<char>) -> Seq<char>
    decreases s.len(),
{
    if s.len() > 0 && (s[0] == '[' || s[0] == ']') {
        strip_brackets(s.drop_first())
    } else if s.len() > 0 && (s.last() == '[' || s.last() == ']') {
        strip_brackets(s.drop_last())
    } else {
        s
    }
}

/// The two texts that the bind option is read as, in turn: the trimmed option
/// without brackets as an IP address (with the port beside it), else
/// `bind:port` as a socket address.
pub fn listen_address_texts(bind: &str, port: u16) -> (res: (String, String))
    ensures
        res.0@ == strip_brackets(trim(bind@)),
        res.1@ == trim(bind@) + seq![':'] + decimal(port as nat),
{
    let trimmed = str_trim(bind);
    let n = trimmed.unicode_len();
    let mut start: usize = 0;
    let mut end: usize = n;
    assert(trimmed@.subrange(0, n as int) =~= trimmed@);
    while start < end && (trimmed.get_char(start) == '[' || trimmed.get_char(start) == ']')
        invariant
            n == trimmed@.len(),
            start <= end <= n,
            end == n,
            strip_brackets(trimmed@) == strip_brackets(trimmed@.subrange(start as int, end as int)),
        decreases end - start,
    {
        let ghost t = trimmed@.subrange(start as int, end as int);
        assert(t.drop_first() =~= trimmed@.subrange(start + 1, end as int));
        start = start + 1;
    }
    while start < end && (trimmed.get_char(end - 1) == '[' || trimmed.get_char(end - 1) == ']')
        invariant
            n == trimmed@.len(),
            start <= end <= n,
            start == end || (trimmed@[start as int] != '[' && trimmed@[start as int] != ']'),
            strip_brackets(trimmed@) == strip_brackets(trimmed@.subrange(start as int, end as int)),
        decreases end - start,
    {
        let ghost t = trimmed@.subrange(start as int, end as int);
        assert(t.drop_last() =~= trimmed@.subrange(start as int, end - 1));
        if start + 1 == end {
            assert(t.len() == 1 && t[0] == t.last());
        }
        end = end - 1;
    }
    let ghost t = trimmed@.subrange(start as int, end as int);
    assert(strip_brackets(t) == t);
    let host = trimmed.substring_char(start, end);
    let mut with_port = String::from_str(trimmed);
    with_port.append(":");
    proof {
        reveal_strlit(":");
    }
    push_decimal(&mut with_port, port as u32);
    assert(with_port@ =~= trim(bind@) + seq![':'] + decimal(port as nat));
    (String::from_str(host), with_port)
}

/// UUID bytes drawn by `uuid::Uuid::new_v4`: version 4 and the RFC 4122 variant.
pub open spec fn is_uuid_v4(u: Seq<u8>) -> bool {
    u[6] / 16 == 4 && u[8] / 64 == 2
}

/// `uuid::Uuid::new_v4()`: random UUID bytes. Only the version nibble (4) and
/// the variant bits (`10`) that the function sets are claimed.
#[verifier::external_body]
fn random_uuid_v4() -> (res: [u8; 16])
    ensures
        is_uuid_v4(res@),
{
    *uuid::Uuid::new_v4().as_bytes()
}

/// `fastrand::u8(..)`: a random byte. Nothing is claimed of its value.
#[verifier::external_body]
fn random_byte() -> u8 {
    fastrand::u8(..)
}

/// Parses a decimal `u16` as `str::parse::<u16>` does.
pub fn parse_u16(s: &str) -> (res: Option<u16>)
    ensures
        res == parse_u16_text(s@),
{
    let n = s.unicode_len();
    let mut start: usize = 0;
    if n > 0 && s.get_char(0) == '+' {
        start = 1;
    }
    let ghost d = without_plus(s@);
    assert(d =~= s@.subrange(start as int, n as int));
    if start >= n {
        return None;
    }
    let mut value: u32 = 0;
    let mut i = start;
    while i < n
        invariant
            start <= i <= n,
            n == s@.len(),
            d == s@.subrange(start as int, n as int),
            d == without_plus(s@),
            forall|j: int| start <= j < i ==> is_decimal_digit(#[trigger] s@[j]),
            value == digits_value(s@.subrange(start as int, i as int)),
            value <= 65535,
        decreases n - i,
    {
        let c = s.get_char(i);
        if !((c as u32) >= 0x30 && (c as u32) <= 0x39) {
            assert(c == s@[i as int]);
            assert(d[i - start] == s@[i as int]);
            assert(!is_decimal_digit(d[i - start]));
            assert(!all_digits(d));
            return None;
        }
        let next = value * 10 + ((c as u32) - 0x30);
        assert(s@.subrange(start as int, i + 1).drop_last() =~= s@.subrange(start as int, i as int));
        if next > 65535 {
            proof {
                if all_digits(d) {
                    lemma_digits_value_grows(d, (i + 1 - start) as int);
                    assert(d.subrange(0, i + 1 - start) =~= s@.subrange(start as int, i + 1));
                }
            }
            return None;
        }
        value = next;
        i = i + 1;
    }
    assert(s@.subrange(start as int, n as int) == d);
    Some(value as u16)
}

/// The value of a digit run is at least that of any prefix.
proof fn lemma_digits_value_grows(d: Seq<char>, k: int)
    requires
        0 <= k <= d.len(),
        forall|i: int| 0 <= i < d.len() ==> is_decimal_digit(#[trigger] d[i]),
    ensures
        digits_value(d) >= digits_value(d.subrange(0, k)),
    decreases d.len(),
{
    if k < d.len() {
        lemma_digits_value_grows(d.drop_last(), k);
        assert(d.drop_last().subrange(0, k) =~= d.subrange(0, k));
    } else {
        assert(d.subrange(0, k) =~= d);
    }
}

/// A vector holding the bytes of `b`.
fn bytes_to_vec(b: &[u8]) -> (res: Vec<u8>)
    ensures
        res@ == b@,
{
    let mut v: Vec<u8> = Vec::new();
    let mut i: usize = 0;
    while i < b.len()
        invariant
            i <= b@.len(),
            v@ == b@.subrange(0, i as int),
        decreases b@.len() - i,
    {
        v.push(b[i]);
        i = i + 1;
        assert(v@ =~= b@.subrange(0, i as int));
    }
    assert(b@.subrange(0, b@.len() as int) =~= b@);
    v
}

/// The trimmed text of an option that is set and not blank.
fn given_text(o: &Option<String>) -> (res: Option<&str>)
    ensures
        match res {
            Some(t) => given(*o) == Some(t@),
            None => given(*o) is None,
        },
{
    match o {
        Some(s) => {
            let t = str_trim(s.as_str());
            if t.unicode_len() > 0 {
                Some(t)
            } else {
                None
            }
        },
        None => None,
    }
}

/// The option itself when it is set and not blank.
fn nonblank_text(o: Option<String>) -> (res: Option<String>)
    ensures
        match res {
            Some(t) => nonblank(o) == Some(t@),
            None => nonblank(o) is None,
        },
{
    match o {
        Some(s) => {
            let blank = str_trim(s.as_str()).unicode_len() == 0;
            if blank {
                None
            } else {
                Some(s)
            }
        },
        None => None,
    }
}

/// Decodes a private key text: hexadecimal, else unpadded URL-safe Base64,
/// else padded standard Base64.
fn decode_private_key_text(t: &str) -> (res: Option<Vec<u8>>)
    ensures
        match res {
            Some(b) => decode_private_key(t@) == Some(b@),
            None => decode_private_key(t@) is None,
        },
{
    match hex_decode_str(t) {
        Some(b) => {
            return Some(b);
        },
        None => {},
    }
    match base64_url_nopad_decode(t) {
        Some(b) => {
            proof {
                let c = choose|v: Seq<u8>| base64_encode(true, false, v) == t@;
                lemma_base64_encode_injective(true, false, b@, c);
            }
            return Some(b);
        },
        None => {},
    }
    match base64_standard_decode(t) {
        Some(b) => {
            proof {
                let c = choose|v: Seq<u8>| base64_encode(false, true, v) == t@;
                lemma_base64_encode_injective(false, true, b@, c);
            }
            Some(b)
        },
        None => None,
    }
}

impl ServerConfig {
    /// Resolves options into a configuration, with `fresh` supplying the
    /// UUID, private key and short ID where the options leave them out.
    pub fn from_opts_with(opts: Opts, listen_addr: SocketAddress, env: RailwayEnv, fresh: FreshValues) -> (res: Result<
        ServerConfig,
        ConfigError,
    >)
        ensures
            match res {
                Ok(c) => config_from(opts, listen_addr, env, fresh) == Ok::<ConfigView, ConfigError>(c@),
                Err(e) => config_from(opts, listen_addr, env, fresh) == Err::<ConfigView, ConfigError>(e),
            },
    {
        let ghost opts0 = opts;
        let ghost env0 = env;
        // 1. UUID
        let user_uuid: [u8; 16] = match given_text(&opts.uuid) {
            Some(t) => match uuid_parse_str(t) {
                Some(u) => u,
                None => {
                    return Err(ConfigError::InvalidUuid);
                },
            },
            None => fresh.uuid,
        };
        // 2. REALITY key pair
        let key: Vec<u8> = match given_text(&opts.private_key) {
            Some(t) => match decode_private_key_text(t) {
                Some(b) => b,
                None => {
                    return Err(ConfigError::InvalidPrivateKeyEncoding);
                },
            },
            None => bytes_to_vec(&fresh.private_key),
        };
        if key.len() != 32 {
            return Err(ConfigError::PrivateKeyLength(key.len()));
        }
        let mut private_key = [0u8; 32];
        let mut i: usize = 0;
        while i < 32
            invariant
                i <= 32,
                key@.len() == 32,
                forall|j: int| 0 <= j < i ==> private_key@[j] == key@[j],
            decreases 32 - i,
        {
            private_key[i] = key[i];
            i = i + 1;
        }
        assert(private_key@ =~= key@);
        let public_key = x25519_public_key(&private_key);
        // 3. Short ID
        let short_id: Vec<u8> = match given_text(&opts.short_id) {
            Some(t) => match hex_decode_str(t) {
                Some(b) => b,
                None => {
                    return Err(ConfigError::InvalidShortId);
                },
            },
            None => bytes_to_vec(&fresh.short_id),
        };
        // Railway deployment
        let is_railway = env.environment.is_some() || env.project_id.is_some() || env.service_id.is_some()
            || env.tcp_proxy_domain.is_some() || env.public_domain.is_some();
        let tcp_proxy_domain = nonblank_text(env.tcp_proxy_domain);
        let tcp_proxy_port: Option<u16> = match &env.tcp_proxy_port {
            Some(p) => parse_u16(p.as_str()),
            None => None,
        };
        let has_tcp_proxy = tcp_proxy_domain.is_some() && tcp_proxy_port.is_some();
        let public_address: String = match nonblank_text(opts.server_address) {
            Some(a) => a,
            None => match tcp_proxy_domain {
                Some(d) => d,
                None => String::from_str("roundhouse.proxy.rlwy.net"),
            },
        };
        let public_port: u16 = match opts.server_port {
            Some(p) => p,
            None => match tcp_proxy_port {
                Some(p) => p,
                None => opts.port,
            },
        };
        let config = ServerConfig {
            listen_addr,
            user_uuid,
            private_key,
            public_key,
            short_id,
            dest_target: opts.dest,
            server_name: opts.sni,
            public_address,
            public_port,
            is_railway,
            has_tcp_proxy,
        };
        assert(config@ == config_from(opts0, listen_addr, env0, fresh)->Ok_0);
        Ok(config)
    }

    /// Resolves options into a configuration, drawing a random version-4 UUID,
    /// private key and short ID for the settings that the options leave out.
    pub fn from_opts(opts: Opts, listen_addr: SocketAddress, env: RailwayEnv) -> (res: Result<ServerConfig, ConfigError>)
        ensures
            exists|fresh: FreshValues|
                is_uuid_v4(fresh.uuid@) && #[trigger] config_from(opts, listen_addr, env, fresh) == match res {
                    Ok(c) => Ok::<ConfigView, ConfigError>(c@),
                    Err(e) => Err::<ConfigView, ConfigError>(e),
                },
    {
        let uuid = random_uuid_v4();
        let mut private_key = [0u8; 32];
        let mut i: usize = 0;
        while i < 32
            invariant
                i <= 32,
            decreases 32 - i,
        {
            private_key[i] = random_byte();
            i = i + 1;
        }
        let mut short_id = [0u8; 8];
        let mut k: usize = 0;
        while k < 8
            invariant
                k <= 8,
            decreases 8 - k,
        {
            short_id[k] = random_byte();
            k = k + 1;
        }
        let fresh = FreshValues { uuid, private_key, short_id };
        let ghost fresh0 = fresh;
        let res = ServerConfig::from_opts_with(opts, listen_addr, env, fresh);
        assert(is_uuid_v4(fresh0.uuid@));
        res
    }
}

/// A 32-byte private key written as unpadded URL-safe Base64 (as the engine
/// configurations carry it) reads back as the same key when given as the
/// private key option: its 43 symbols are an odd count, so it is not taken for
/// hexadecimal.
pub proof fn lemma_private_key_text_roundtrip(key: Seq<u8>)
    requires
        key.len() == 32,
    ensures
        decode_private_key(base64_encode(true, false, key)) == Some(key),
{
    let t = base64_encode(true, false, key);
    lemma_base64_unpadded_len(true, key);
    assert(t.len() == 43);
    lemma_hex_decode_odd(t);
    let c = choose|v: Seq<u8>| base64_encode(true, false, v) == t;
    lemma_base64_encode_injective(true, false, key, c);
}

/// A text of odd length is not hexadecimal.
proof fn lemma_hex_decode_odd(t: Seq<char>)
    requires
        t.len() % 2 == 1,
    ensures
        hex_decode(t) is None,
    decreases t.len(),
{
    if t.len() > 1 {
        lemma_hex_decode_odd(t.skip(2));
    }
}

/// Every configuration that options resolve to holds a matching key pair: a
/// 32-byte private key and the X25519 public key derived from it.
pub proof fn lemma_config_key_pair(opts: Opts, listen_addr: SocketAddress, env: RailwayEnv, fresh: FreshValues)
    requires
        config_from(opts, listen_addr, env, fresh) is Ok,
    ensures
        config_from(opts, listen_addr, env, fresh)->Ok_0.private_key.len() == 32,
        config_from(opts, listen_addr, env, fresh)->Ok_0.public_key == x25519_public(
            config_from(opts, listen_addr, env, fresh)->Ok_0.private_key,
        ),
{
}

/// The public port of a resolved configuration: an explicit server port wins;
/// only when it is unset does the Railway TCP proxy port count (when it is a
/// port number); and when neither is there, clients reach the listen port.
pub proof fn lemma_public_port_choice(opts: Opts, listen_addr: SocketAddress, env: RailwayEnv, fresh: FreshValues)
    requires
        config_from(opts, listen_addr, env, fresh) is Ok,
    ensures
        opts.server_port is Some ==> config_from(opts, listen_addr, env, fresh)->Ok_0.public_port
            == opts.server_port->Some_0,
        opts.server_port is None && env.tcp_proxy_port is Some && parse_u16_text(env.tcp_proxy_port->Some_0@) is Some
            ==> config_from(opts, listen_addr, env, fresh)->Ok_0.public_port == parse_u16_text(
            env.tcp_proxy_port->Some_0@,
        )->Some_0,
        opts.server_port is None && (env.tcp_proxy_port is None || parse_u16_text(
            env.tcp_proxy_port->Some_0@,
        ) is None) ==> config_from(opts, listen_addr, env, fresh)->Ok_0.public_port == opts.port,
{
}

/// The public address of a resolved configuration: an explicit, non-blank
/// server address wins; else the Railway TCP proxy domain when it is set and
/// not blank; else the default Railway proxy host.
pub proof fn lemma_public_address_choice(opts: Opts, listen_addr: SocketAddress, env: RailwayEnv, fresh: FreshValues)
    requires
        config_from(opts, listen_addr, env, fresh) is Ok,
    ensures
        opts.server_address is Some && trim(opts.server_address->Some_0@).len() > 0 ==> config_from(
            opts,
            listen_addr,
            env,
            fresh,
        )->Ok_0.public_address == opts.server_address->Some_0@,
        nonblank(opts.server_address) is None && env.tcp_proxy_domain is Some && trim(
            env.tcp_proxy_domain->Some_0@,
        ).len() > 0 ==> config_from(opts, listen_addr, env, fresh)->Ok_0.public_address
            == env.tcp_proxy_domain->Some_0@,
        nonblank(opts.server_address) is None && nonblank(env.tcp_proxy_domain) is None ==> config_from(
            opts,
            listen_addr,
            env,
            fresh,
        )->Ok_0.public_address == "roundhouse.proxy.rlwy.net"@,
{
}

/// The query parameters of a configuration's share link: no VLESS
/// encryption, an empty flow, REALITY with the SNI, a Chrome fingerprint, the public key (unpadded
/// URL-safe Base64), the short ID (hex), and raw TCP without header
/// obfuscation.
pub open spec fn link_params(c: ConfigView) -> Seq<(Seq<char>, Seq<char>)> {
    seq![
        ("encryption"@, "none"@),
        ("flow"@, ""@),
        ("security"@, "reality"@),
        ("sni"@, c.server_name),
        ("fp"@, "chrome"@),
        ("pbk"@, base64_encode(true, false, c.public_key)),
        ("sid"@, hex_encode(c.short_id)),
        ("type"@, "tcp"@),
        ("headerType"@, "none"@),
    ]
}

/// The name that clients show for the imported link.
pub open spec fn link_fragment() -> Seq<char> {
    "Russia-TSPU-Bypass-Rust"@
}

/// The `vless://` share link of a configuration, ready to import into
/// v2rayNG, NekoBox or Xray clients:
/// `vless://UUID@HOST:PORT?PARAMS#NAME`.
pub open spec fn share_link_text(c: ConfigView) -> Seq<char> {
    "vless://"@ + uuid_text(c.user_uuid) + seq!['@'] + bracketed_host(c.public_address) + seq![':'] + decimal(
        c.public_port as nat,
    ) + seq!['?'] + query_text(link_params(c)) + seq!['#'] + link_fragment()
}

/// The code of a decimal digit.
proof fn lemma_digit_code(d: nat)
    requires
        d < 10,
    ensures
        (crate::text::digit_char(d) as u32) == 0x30 + d,
{
}

/// Decimal text of a number reads back as that number.
proof fn lemma_decimal_digits(n: nat)
    ensures
        all_digits(decimal(n)),
        digits_value(decimal(n)) == n,
        decimal(n).len() > 0,
        decimal(n)[0] != '+',
    decreases n,
{
    let t = decimal(n);
    if n < 10 {
        lemma_digit_code(n);
        assert(t.drop_last() =~= Seq::<char>::empty());
        assert(digits_value(t.drop_last()) == 0);
        assert(t.last() == crate::text::digit_char(n));
    } else {
        lemma_decimal_digits(n / 10);
        lemma_digit_code(n % 10);
        assert(t.drop_last() =~= decimal(n / 10));
        assert(t.last() == crate::text::digit_char(n % 10));
        assert(digits_value(t) == digits_value(decimal(n / 10)) * 10 + (n % 10));
        assert forall|i: int| 0 <= i < t.len() implies is_decimal_digit(#[trigger] t[i]) by {
            if i < t.len() - 1 {
                assert(t[i] == decimal(n / 10)[i]);
            }
        }
        assert(t[0] == decimal(n / 10)[0]);
    }
}

/// The port written in a link reads back as the port.
pub proof fn lemma_port_text_roundtrip(port: u16)
    ensures
        parse_u16_text(decimal(port as nat)) == Some(port),
{
    lemma_decimal_digits(port as nat);
    assert(without_plus(decimal(port as nat)) == decimal(port as nat));
}

/// The query parameters of a link avoid `d` when the SNI does.
proof fn lemma_link_params_avoid(c: ConfigView, d: char)
    requires
        is_link_delimiter(d),
        avoids(c.server_name, d),
    ensures
        forall|i: int| #![trigger link_params(c)[i]] 0 <= i < link_params(c).len() ==> avoids(link_params(c)[i].0, d)
            && avoids(link_params(c)[i].1, d),
{
    reveal_strlit("encryption");
    reveal_strlit("none");
    reveal_strlit("flow");
    reveal_strlit("");
    reveal_strlit("security");
    reveal_strlit("reality");
    reveal_strlit("sni");
    reveal_strlit("fp");
    reveal_strlit("chrome");
    reveal_strlit("pbk");
    reveal_strlit("sid");
    reveal_strlit("type");
    reveal_strlit("tcp");
    reveal_strlit("headerType");
    lemma_base64_url_plain(c.public_key);
    lemma_hex_plain(c.short_id);
    lemma_plain_avoids(base64_encode(true, false, c.public_key), d);
    lemma_plain_avoids(hex_encode(c.short_id), d);
    let ps = link_params(c);
    assert forall|i: int| #![trigger ps[i]] 0 <= i < ps.len() implies avoids(ps[i].0, d) && avoids(ps[i].1, d) by {
        if i != 3 && i != 5 && i != 6 {
            assert(is_plain(ps[i].1));
            lemma_plain_avoids(ps[i].1, d);
        }
    }
    lemma_link_keys_avoid(c, d);
}

/// The keys of a link's parameters avoid every delimiter.
proof fn lemma_link_keys_avoid(c: ConfigView, d: char)
    requires
        is_link_delimiter(d),
    ensures
        forall|i: int| #![trigger link_params(c)[i]] 0 <= i < link_params(c).len() ==> avoids(link_params(c)[i].0, d),
{
    reveal_strlit("encryption");
    reveal_strlit("flow");
    reveal_strlit("security");
    reveal_strlit("sni");
    reveal_strlit("fp");
    reveal_strlit("pbk");
    reveal_strlit("sid");
    reveal_strlit("type");
    reveal_strlit("headerType");
    let ps = link_params(c);
    assert forall|i: int| #![trigger ps[i]] 0 <= i < ps.len() implies avoids(ps[i].0, d) by {
        assert(is_plain(ps[i].0));
        lemma_plain_avoids(ps[i].0, d);
    }
}

/// A share link reads back as the configuration it was written from: a
/// reader that splits it at its delimiters finds the UUID text of the user,
/// the (bracketed) public address, the public port, the parameters of
/// `link_params` (whose `pbk` value decodes to the public key and whose `sid`
/// value decodes to the short ID) and the link's name. This holds whenever
/// the SNI holds no `?`, `#` or `&`, which would end its parameter early.
#[verifier::spinoff_prover]
#[verifier::rlimit(80)]
pub proof fn lemma_share_link_reads_back(c: ConfigView)
    requires
        c.user_uuid.len() == 16,
        avoids(c.server_name, '?'),
        avoids(c.server_name, '#'),
        avoids(c.server_name, '&'),
    ensures
        share_link_text(c).subrange(0, 8) == "vless://"@,
        uuid_parse(read_link(share_link_text(c)).user) == Some(c.user_uuid),
        read_link(share_link_text(c)).host == bracketed_host(c.public_address),
        parse_u16_text(read_link(share_link_text(c)).port) == Some(c.public_port),
        read_link(share_link_text(c)).params == link_params(c),
        base64_decode(true, false, read_link(share_link_text(c)).params[5].1) == Some(c.public_key),
        hex_decode(read_link(share_link_text(c)).params[6].1) == Some(c.short_id),
        read_link(share_link_text(c)).fragment == link_fragment(),
{
    reveal_strlit("vless://");
    reveal_strlit("Russia-TSPU-Bypass-Rust");
    let v = "vless://"@;
    let u = uuid_text(c.user_uuid);
    let h = bracketed_host(c.public_address);
    let p = decimal(c.public_port as nat);
    let ps = link_params(c);
    let q = query_text(ps);
    let f = link_fragment();
    let link = share_link_text(c);
    assert(link =~= v + u + seq!['@'] + h + seq![':'] + p + seq!['?'] + q + seq!['#'] + f);
    // Each part avoids the delimiters it is split by.
    lemma_uuid_text_plain(c.user_uuid);
    lemma_plain_avoids(u, '@');
    lemma_decimal_plain(c.public_port as nat);
    assert(is_plain(f));
    lemma_plain_avoids(p, ':');
    lemma_plain_avoids(f, '?');
    lemma_plain_avoids(f, '#');
    lemma_link_params_avoid(c, '?');
    lemma_link_params_avoid(c, '#');
    lemma_link_params_avoid(c, '&');
    lemma_query_avoids(ps, '?');
    lemma_query_avoids(ps, '#');
    let after_q = q + seq!['#'] + f;
    lemma_concat_avoids(q, seq!['#'], '?');
    lemma_concat_avoids(q + seq!['#'], f, '?');
    let host_port = h + seq![':'] + p;
    let r1 = host_port + seq!['?'] + after_q;
    // Split at the first '@': the user's UUID text holds none.
    let body = link.subrange(8, link.len() as int);
    assert(body =~= u + seq!['@'] + r1);
    lemma_first_index(u, '@', r1);
    assert(body.subrange(0, u.len() as int) =~= u);
    assert(body.subrange(u.len() as int + 1, body.len() as int) =~= r1);
    // Split at the last '?'.
    lemma_last_index(host_port, '?', after_q);
    assert(r1.subrange(0, host_port.len() as int) =~= host_port);
    assert(r1.subrange(host_port.len() as int + 1, r1.len() as int) =~= after_q);
    // Split host and port at the last ':'.
    lemma_last_index(h, ':', p);
    assert(host_port.subrange(0, h.len() as int) =~= h);
    assert(host_port.subrange(h.len() as int + 1, host_port.len() as int) =~= p);
    // Split query and name at the last '#'.
    lemma_last_index(q, '#', f);
    assert(after_q.subrange(0, q.len() as int) =~= q);
    assert(after_q.subrange(q.len() as int + 1, after_q.len() as int) =~= f);
    // The parameters, and the values they carry.
    lemma_link_keys_avoid(c, '=');
    assert(well_formed_params(ps));
    lemma_read_query(ps);
    lemma_uuid_roundtrip(c.user_uuid);
    lemma_port_text_roundtrip(c.public_port);
    crate::encoding::lemma_hex_roundtrip(c.short_id);
    let b = base64_encode(true, false, c.public_key);
    let w = choose|x: Seq<u8>| base64_encode(true, false, x) == b;
    lemma_base64_encode_injective(true, false, c.public_key, w);
}

impl ServerConfig {
    /// Formats the VLESS+REALITY link: user UUID, public address (bracketed
    /// when IPv6) and port, then the parameters of `link_params` and the
    /// link's name.
    pub fn generate_vless_share_link(&self) -> (res: String)
        ensures
            res@ == share_link_text(self@),
    {
        let pub_key_b64 = base64_url_nopad_encode(&self.public_key);
        let short_id_hex = hex_encode_bytes(self.short_id.as_slice());
        let uuid = uuid_to_string(&self.user_uuid);
        let mut s = String::new();
        s.append("vless://");
        s.append(uuid.as_str());
        push_char(&mut s, '@');
        push_bracketed_host(&mut s, self.public_address.as_str());
        push_char(&mut s, ':');
        push_decimal(&mut s, self.public_port as u32);
        push_char(&mut s, '?');
        let params: Vec<(&str, &str)> = vec![
            ("encryption", "none"),
            ("flow", ""),
            ("security", "reality"),
            ("sni", self.server_name.as_str()),
            ("fp", "chrome"),
            ("pbk", pub_key_b64.as_str()),
            ("sid", short_id_hex.as_str()),
            ("type", "tcp"),
            ("headerType", "none"),
        ];
        assert(params@.map_values(|p: (&str, &str)| (p.0@, p.1@)) =~= link_params(self@));
        push_query(&mut s, &params);
        push_char(&mut s, '#');
        s.append("Russia-TSPU-Bypass-Rust");
        assert(s@ =~= share_link_text(self@));
        s
    }
}

} // verus!
