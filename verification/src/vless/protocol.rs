//! The VLESS request header (version 0) and response header.
//!
//! Wire layout of a request header:
//! version (1) | UUID (16) | addons length (1) | addons | command (1) |
//! port (2, big-endian) | address type (1) | address, where the address is
//! four IPv4 bytes, a length byte and that many domain bytes (UTF-8), or
//! sixteen IPv6 bytes.
use vstd::prelude::*;
use vstd::utf8::{decode_utf8, valid_utf8};
use crate::address::{bracketed_host, ipv4_text, ipv6_text, push_bracketed_host, push_ipv4, push_ipv6};
use crate::text::{decimal, push_char, push_decimal};

verus! {

/// The only protocol version spoken.
pub const VLESS_VERSION: u8 = 0;
/// Command: TCP stream.
pub const CMD_TCP: u8 = 1;
/// Command: UDP datagrams.
pub const CMD_UDP: u8 = 2;
/// Command: multiplexed connection.
pub const CMD_MUX: u8 = 3;

/// Address type: four IPv4 bytes.
pub const ATYP_IPV4: u8 = 1;
/// Address type: length-prefixed domain name.
pub const ATYP_DOMAIN: u8 = 2;
/// Address type: sixteen IPv6 bytes.
pub const ATYP_IPV6: u8 = 3;

/// A parsed VLESS request.
#[derive(Debug, Clone, PartialEq, Eq)]
pub struct VlessRequest {
    pub uuid: [u8; 16],
    pub command: u8,
    pub target_addr: String,
    pub target_port: u16,
}

/// The mathematical content of a `VlessRequest`.
pub ghost struct VlessRequestView {
    pub uuid: Seq<u8>,
    pub command: u8,
    pub target_addr: Seq<char>,
    pub target_port: u16,
}

impl View for VlessRequest {
    type V = VlessRequestView;

    open spec fn view(&self) -> VlessRequestView {
        VlessRequestView {
            uuid: self.uuid@,
            command: self.command,
            target_addr: self.target_addr@,
            target_port: self.target_port,
        }
    }
}

/// The header field that a request ended before.
#[derive(Debug, Clone, Copy, PartialEq, Eq)]
pub enum VlessField {
    Version,
    Uuid,
    AddonsLength,
    AddonsData,
    Command,
    Port,
    AddressType,
    Ipv4Address,
    DomainLength,
    DomainData,
    Ipv6Address,
}

/// Why a request header was refused.
#[derive(Debug, Clone, Copy, PartialEq, Eq)]
pub enum VlessError {
    /// The bytes end inside `field`; the header needs at least `needed` bytes.
    Truncated { field: VlessField, needed: usize },
    UnsupportedVersion(u8),
    UnauthorizedUuid([u8; 16]),
    InvalidDomainUtf8,
    UnsupportedAddressType(u8),
}

/// Truncation inside `field` when the header needs `needed` bytes.
pub open spec fn truncated(field: VlessField, needed: int) -> Result<(VlessRequestView, nat), VlessError> {
    Err(VlessError::Truncated { field, needed: needed as usize })
}

/// The request that a header yields once its address is read.
pub open spec fn accepted(s: Seq<u8>, c: int, target_addr: Seq<char>, len: int) -> Result<(VlessRequestView, nat), VlessError> {
    Ok(
        (
            VlessRequestView {
                uuid: s.subrange(1, 17),
                command: s[c],
                target_addr,
                target_port: (s[c + 1] * 256 + s[c + 2]) as u16,
            },
            len as nat,
        ),
    )
}

/// The outcome of reading a request header from the start of `s`, for a
/// server that accepts the UUID `expected`: the request and the number of
/// header bytes, or the first check that fails in wire order. `c` is the
/// offset of the command byte, after the addons.
pub open spec fn parse_vless(s: Seq<u8>, expected: Seq<u8>) -> Result<(VlessRequestView, nat), VlessError> {
    if s.len() < 1 {
        truncated(VlessField::Version, 1)
    } else if s[0] != VLESS_VERSION {
        Err(VlessError::UnsupportedVersion(s[0]))
    } else if s.len() < 17 {
        truncated(VlessField::Uuid, 17)
    } else if s.subrange(1, 17) != expected {
        Err(VlessError::UnauthorizedUuid(uuid_array(s.subrange(1, 17))))
    } else if s.len() < 18 {
        truncated(VlessField::AddonsLength, 18)
    } else {
        let c = 18 + s[17] as int;
        if s.len() < c {
            truncated(VlessField::AddonsData, c)
        } else if s.len() < c + 1 {
            truncated(VlessField::Command, c + 1)
        } else if s.len() < c + 3 {
            truncated(VlessField::Port, c + 3)
        } else if s.len() < c + 4 {
            truncated(VlessField::AddressType, c + 4)
        } else if s[c + 3] == ATYP_IPV4 {
            if s.len() < c + 8 {
                truncated(VlessField::Ipv4Address, c + 8)
            } else {
                accepted(s, c, ipv4_text(s.subrange(c + 4, c + 8)), c + 8)
            }
        } else if s[c + 3] == ATYP_DOMAIN {
            if s.len() < c + 5 {
                truncated(VlessField::DomainLength, c + 5)
            } else {
                let end = c + 5 + s[c + 4] as int;
                if s.len() < end {
                    truncated(VlessField::DomainData, end)
                } else if !valid_utf8(s.subrange(c + 5, end)) {
                    Err(VlessError::InvalidDomainUtf8)
                } else {
                    accepted(s, c, decode_utf8(s.subrange(c + 5, end)), end)
                }
            }
        } else if s[c + 3] == ATYP_IPV6 {
            if s.len() < c + 20 {
                truncated(VlessField::Ipv6Address, c + 20)
            } else {
                accepted(s, c, ipv6_text(s.subrange(c + 4, c + 20)), c + 20)
            }
        } else {
            Err(VlessError::UnsupportedAddressType(s[c + 3]))
        }
    }
}

/// The 16-byte array whose view is `b` (for `b` of length 16).
pub open spec fn uuid_array(b: Seq<u8>) -> [u8; 16] {
    choose|a: [u8; 16]| a@ == b
}

/// `String::from_utf8`: the text of valid UTF-8 bytes, or an error.
#[verifier::external_body]
fn string_from_utf8(bytes: &[u8]) -> (res: Option<String>)
    ensures
        match res {
            Some(s) => valid_utf8(bytes@) && s@ == decode_utf8(bytes@),
            None => !valid_utf8(bytes@),
        },
{
    String::from_utf8(bytes.to_vec()).ok()
}

/// Parses a VLESS request header from the start of `buf`, accepting only the
/// client UUID `expected_uuid`. Returns the request and the number of header
/// bytes; whatever follows them is payload. When `buf` ends inside the header
/// the error says which field and how many bytes the header needs so far.
pub fn parse_vless_request(buf: &[u8], expected_uuid: &[u8; 16]) -> (res: Result<(VlessRequest, usize), VlessError>)
    ensures
        match res {
            Ok((req, n)) => parse_vless(buf@, expected_uuid@) == Ok::<(VlessRequestView, nat), VlessError>((req@, n as nat)),
            Err(e) => parse_vless(buf@, expected_uuid@) == Err::<(VlessRequestView, nat), VlessError>(e),
        },
{
    // 1. Version byte
    if buf.len() < 1 {
        return Err(VlessError::Truncated { field: VlessField::Version, needed: 1 });
    }
    if buf[0] != VLESS_VERSION {
        return Err(VlessError::UnsupportedVersion(buf[0]));
    }
    // 2. 16-byte UUID
    if buf.len() < 17 {
        return Err(VlessError::Truncated { field: VlessField::Uuid, needed: 17 });
    }
    let mut uuid = [0u8; 16];
    let mut i: usize = 0;
    while i < 16
        invariant
            i <= 16,
            buf@.len() >= 17,
            forall|j: int| 0 <= j < i ==> uuid@[j] == buf@[j + 1],
        decreases 16 - i,
    {
        uuid[i] = buf[i + 1];
        i = i + 1;
    }
    assert(uuid@ =~= buf@.subrange(1, 17));
    let mut same = true;
    let mut k: usize = 0;
    while k < 16
        invariant
            k <= 16,
            same == (forall|j: int| 0 <= j < k ==> uuid@[j] == expected_uuid@[j]),
        decreases 16 - k,
    {
        if uuid[k] != expected_uuid[k] {
            same = false;
        }
        k = k + 1;
    }
    if !same {
        assert(uuid@ != expected_uuid@);
        proof {
            let a = uuid_array(buf@.subrange(1, 17));
            assert(a@ == buf@.subrange(1, 17));
            assert(a@ =~= uuid@);
            broadcast use vstd::array::axiom_array_ext_equal;
            assert(a =~= uuid);
        }
        return Err(VlessError::UnauthorizedUuid(uuid));
    }
    assert(uuid@ =~= expected_uuid@);
    // 3. Addons length and bytes
    if buf.len() < 18 {
        return Err(VlessError::Truncated { field: VlessField::AddonsLength, needed: 18 });
    }
    let c: usize = 18 + buf[17] as usize;
    if buf.len() < c {
        return Err(VlessError::Truncated { field: VlessField::AddonsData, needed: c });
    }
    // 4. Command byte
    if buf.len() < c + 1 {
        return Err(VlessError::Truncated { field: VlessField::Command, needed: c + 1 });
    }
    let command = buf[c];
    // 5. Target port (big-endian)
    if buf.len() < c + 3 {
        return Err(VlessError::Truncated { field: VlessField::Port, needed: c + 3 });
    }
    let target_port: u16 = (buf[c + 1] as u16) * 256 + buf[c + 2] as u16;
    // 6. Address type and address
    if buf.len() < c + 4 {
        return Err(VlessError::Truncated { field: VlessField::AddressType, needed: c + 4 });
    }
    let addr_type = buf[c + 3];
    let mut target_addr = String::new();
    let len: usize;
    if addr_type == ATYP_IPV4 {
        if buf.len() < c + 8 {
            return Err(VlessError::Truncated { field: VlessField::Ipv4Address, needed: c + 8 });
        }
        push_ipv4(&mut target_addr, &buf[c + 4..c + 8]);
        len = c + 8;
    } else if addr_type == ATYP_DOMAIN {
        if buf.len() < c + 5 {
            return Err(VlessError::Truncated { field: VlessField::DomainLength, needed: c + 5 });
        }
        let end: usize = c + 5 + buf[c + 4] as usize;
        if buf.len() < end {
            return Err(VlessError::Truncated { field: VlessField::DomainData, needed: end });
        }
        match string_from_utf8(&buf[c + 5..end]) {
            Some(text) => {
                target_addr = text;
            },
            None => {
                return Err(VlessError::InvalidDomainUtf8);
            },
        }
        len = end;
    } else if addr_type == ATYP_IPV6 {
        if buf.len() < c + 20 {
            return Err(VlessError::Truncated { field: VlessField::Ipv6Address, needed: c + 20 });
        }
        push_ipv6(&mut target_addr, &buf[c + 4..c + 20]);
        len = c + 20;
    } else {
        return Err(VlessError::UnsupportedAddressType(addr_type));
    }
    let req = VlessRequest { uuid, command, target_addr, target_port };
    Ok((req, len))
}

/// The header bytes that a client sends: version 0, its UUID, the addons with
/// their length, command, big-endian port, address type and address (a domain
/// preceded by its length).
pub open spec fn vless_header(
    uuid: Seq<u8>,
    addons: Seq<u8>,
    command: u8,
    port: u16,
    address_type: u8,
    address: Seq<u8>,
) -> Seq<u8> {
    seq![VLESS_VERSION] + uuid + seq![addons.len() as u8] + addons + seq![
        command,
        (port / 256) as u8,
        (port % 256) as u8,
        address_type,
    ] + (if address_type == ATYP_DOMAIN { seq![address.len() as u8] } else { Seq::empty() }) + address
}

/// An address that its type describes: four IPv4 bytes, at most 255 bytes of
/// UTF-8 domain, or sixteen IPv6 bytes.
pub open spec fn well_formed_address(address_type: u8, address: Seq<u8>) -> bool {
    ||| address_type == ATYP_IPV4 && address.len() == 4
    ||| address_type == ATYP_DOMAIN && address.len() <= 255 && valid_utf8(address)
    ||| address_type == ATYP_IPV6 && address.len() == 16
}

/// The text of a well-formed address.
pub open spec fn address_text(address_type: u8, address: Seq<u8>) -> Seq<char> {
    if address_type == ATYP_IPV4 {
        ipv4_text(address)
    } else if address_type == ATYP_DOMAIN {
        decode_utf8(address)
    } else {
        ipv6_text(address)
    }
}

/// The header was refused or accepted, not cut short.
pub open spec fn is_decided(r: Result<(VlessRequestView, nat), VlessError>) -> bool {
    !(r matches Err(VlessError::Truncated { .. }))
}

/// Bytes that follow a header do not change how it is read: once the header
/// is accepted or refused, any payload after it leaves the outcome unchanged.
pub proof fn lemma_parse_vless_ignores_trailing(s: Seq<u8>, t: Seq<u8>, expected: Seq<u8>)
    requires
        is_decided(parse_vless(s, expected)),
    ensures
        parse_vless(s + t, expected) == parse_vless(s, expected),
{
    let u = s + t;
    assert forall|i: int| 0 <= i < s.len() implies #[trigger] u[i] == s[i] by {}
    assert forall|a: int, b: int| 0 <= a <= b <= s.len() implies #[trigger] u.subrange(a, b) == s.subrange(a, b) by {
        assert(u.subrange(a, b) =~= s.subrange(a, b));
    }
    if s.len() >= 18 {
        let c = 18 + s[17] as int;
        if s.len() >= c + 20 {
            assert(u.subrange(c + 4, c + 20) == s.subrange(c + 4, c + 20));
        }
        if s.len() >= c + 8 {
            assert(u.subrange(c + 4, c + 8) == s.subrange(c + 4, c + 8));
        }
        if s.len() >= c + 5 {
            let end = c + 5 + s[c + 4] as int;
            if s.len() >= end {
                assert(u.subrange(c + 5, end) == s.subrange(c + 5, end));
            }
        }
    }
    if s.len() >= 17 {
        assert(u.subrange(1, 17) == s.subrange(1, 17));
    }
}

/// A header cut short always asks for more bytes than it was given, so a
/// reader that supplies the bytes asked for makes progress.
pub proof fn lemma_parse_vless_truncated_needs_more(s: Seq<u8>, expected: Seq<u8>)
    ensures
        parse_vless(s, expected) matches Err(VlessError::Truncated { needed, .. }) ==> needed > s.len(),
{
}

/// An accepted header lies within the bytes read, and reading only the header
/// bytes gives the same request.
pub proof fn lemma_parse_vless_header_only(s: Seq<u8>, expected: Seq<u8>)
    requires
        parse_vless(s, expected) is Ok,
    ensures
        parse_vless(s, expected)->Ok_0.1 <= s.len(),
        parse_vless(s.subrange(0, parse_vless(s, expected)->Ok_0.1 as int), expected) == parse_vless(s, expected),
{
    let n = parse_vless(s, expected)->Ok_0.1 as int;
    let h = s.subrange(0, n);
    assert(h + s.subrange(n, s.len() as int) =~= s);
    assert forall|i: int| 0 <= i < n implies #[trigger] h[i] == s[i] by {}
    assert forall|a: int, b: int| 0 <= a <= b <= n implies #[trigger] h.subrange(a, b) == s.subrange(a, b) by {
        assert(h.subrange(a, b) =~= s.subrange(a, b));
    }
    let c = 18 + s[17] as int;
    assert(h.subrange(1, 17) == s.subrange(1, 17));
    if s[c + 3] == ATYP_IPV4 {
        assert(h.subrange(c + 4, c + 8) == s.subrange(c + 4, c + 8));
    } else if s[c + 3] == ATYP_DOMAIN {
        let end = c + 5 + s[c + 4] as int;
        assert(h.subrange(c + 5, end) == s.subrange(c + 5, end));
    } else {
        assert(h.subrange(c + 4, c + 20) == s.subrange(c + 4, c + 20));
    }
}

/// What a client sends is what the server reads: a header for the server's
/// UUID with a well-formed address, followed by any payload, is accepted as
/// the request it encodes, and the header length is reported.
pub proof fn lemma_parse_vless_roundtrip(
    uuid: Seq<u8>,
    addons: Seq<u8>,
    command: u8,
    port: u16,
    address_type: u8,
    address: Seq<u8>,
    payload: Seq<u8>,
)
    requires
        uuid.len() == 16,
        addons.len() <= 255,
        well_formed_address(address_type, address),
    ensures
        parse_vless(vless_header(uuid, addons, command, port, address_type, address) + payload, uuid) == Ok::<
            (VlessRequestView, nat),
            VlessError,
        >(
            (
                VlessRequestView {
                    uuid,
                    command,
                    target_addr: address_text(address_type, address),
                    target_port: port,
                },
                vless_header(uuid, addons, command, port, address_type, address).len(),
            ),
        ),
{
    let h = vless_header(uuid, addons, command, port, address_type, address);
    let c: int = 18 + addons.len() as int;
    let al: int = address.len() as int;
    let tail: Seq<u8> = if address_type == ATYP_DOMAIN { seq![address.len() as u8] } else { Seq::empty() };
    assert(h.subrange(1, 17) =~= uuid);
    assert(h[17] == addons.len() as u8);
    assert(h[c] == command);
    assert(h[c + 1] == (port / 256) as u8);
    assert(h[c + 2] == (port % 256) as u8);
    assert(h[c + 3] == address_type);
    if address_type == ATYP_DOMAIN {
        assert(h[c + 4] == address.len() as u8);
        assert(h.subrange(c + 5, c + 5 + al) =~= address);
        assert(h.len() == c + 5 + al);
    } else {
        assert(h.subrange(c + 4, c + 4 + al) =~= address);
        assert(h.len() == c + 4 + al);
    }
    assert(((port / 256) as u8) * 256 + ((port % 256) as u8) == port);
    assert(is_decided(parse_vless(h, uuid)));
    lemma_parse_vless_ignores_trailing(h, payload, uuid);
}

/// The standard 2-byte VLESS response header: version 0, no addons.
pub fn vless_response_header() -> (res: [u8; 2])
    ensures
        res@ == seq![VLESS_VERSION, 0u8],
{
    let res = [VLESS_VERSION, 0x00];
    assert(res@ =~= seq![VLESS_VERSION, 0u8]);
    res
}

/// `host:port` text of a destination, the host bracketed when it is an
/// unbracketed IPv6 address.
pub open spec fn host_port_text(host: Seq<char>, port: u16) -> Seq<char> {
    bracketed_host(host) + seq![':'] + decimal(port as nat)
}

/// The destination of a request as `tunnel_vless_connection` displays it.
pub fn destination_display(host: &str, port: u16) -> (res: String)
    ensures
        res@ == host_port_text(host@, port),
{
    let mut s = String::new();
    push_bracketed_host(&mut s, host);
    push_char(&mut s, ':');
    push_decimal(&mut s, port as u32);
    assert(s@ =~= host_port_text(host@, port));
    s
}

} // verus!
