use vless_vpn::vless::protocol::{
    destination_display, parse_vless_request, vless_response_header, VlessError, VlessField, ATYP_DOMAIN,
    ATYP_IPV4, ATYP_IPV6, CMD_TCP, CMD_UDP,
};

fn header(uuid: &[u8; 16], port: u16, atyp: u8, address: &[u8]) -> Vec<u8> {
    let mut data = Vec::new();
    data.push(0x00);
    data.extend_from_slice(uuid);
    data.push(0x00);
    data.push(CMD_TCP);
    data.extend_from_slice(&port.to_be_bytes());
    data.push(atyp);
    data.extend_from_slice(address);
    data
}

#[test]
fn test_parse_vless_ipv4_request() {
    let expected_uuid = *uuid::Uuid::new_v4().as_bytes();
    let mut data = Vec::new();
    data.push(0x00); // Version
    data.extend_from_slice(&expected_uuid); // UUID
    data.push(0x00); // Addons len
    data.push(CMD_TCP); // Command
    data.extend_from_slice(&443u16.to_be_bytes()); // Port
    data.push(ATYP_IPV4); // Address type
    data.extend_from_slice(&[1, 1, 1, 1]); // IP

    let (req, _) = parse_vless_request(&data, &expected_uuid).unwrap();

    assert_eq!(req.uuid, expected_uuid);
    assert_eq!(req.command, CMD_TCP);
    assert_eq!(req.target_port, 443);
    assert_eq!(req.target_addr, "1.1.1.1");
}

#[test]
fn test_parse_vless_domain_request() {
    let expected_uuid = *uuid::Uuid::new_v4().as_bytes();
    let mut data = Vec::new();
    data.push(0x00); // Version
    data.extend_from_slice(&expected_uuid); // UUID
    data.push(0x00); // Addons len
    data.push(CMD_TCP); // Command
    data.extend_from_slice(&443u16.to_be_bytes()); // Port
    data.push(ATYP_DOMAIN); // Domain type
    let domain = b"www.instagram.com";
    data.push(domain.len() as u8);
    data.extend_from_slice(domain);

    let (req, _) = parse_vless_request(&data, &expected_uuid).unwrap();

    assert_eq!(req.uuid, expected_uuid);
    assert_eq!(req.target_port, 443);
    assert_eq!(req.target_addr, "www.instagram.com");
}

#[test]
fn test_parse_vless_ipv6_request() {
    let expected_uuid = *uuid::Uuid::new_v4().as_bytes();
    let mut data = Vec::new();
    data.push(0x00); // Version
    data.extend_from_slice(&expected_uuid); // UUID
    data.push(0x00); // Addons len
    data.push(CMD_TCP); // Command
    data.extend_from_slice(&80u16.to_be_bytes()); // Port
    data.push(ATYP_IPV6); // Address type
    let ipv6_bytes = [0x20, 0x01, 0x0d, 0xb8, 0, 0, 0, 0, 0, 0, 0, 0, 0, 0, 0, 1];
    data.extend_from_slice(&ipv6_bytes);

    let (req, _) = parse_vless_request(&data, &expected_uuid).unwrap();

    assert_eq!(req.uuid, expected_uuid);
    assert_eq!(req.target_port, 80);
    assert_eq!(req.target_addr, "2001:db8::1");
}

#[test]
fn parse_reports_header_length_and_skips_addons() {
    let uuid = [7u8; 16];
    let mut data = vec![0x00];
    data.extend_from_slice(&uuid);
    data.push(3);
    data.extend_from_slice(&[0xde, 0xad, 0xbe]);
    data.push(CMD_UDP);
    data.extend_from_slice(&[0x1f, 0x90]);
    data.push(ATYP_IPV4);
    data.extend_from_slice(&[192, 168, 0, 255]);
    let header_len = data.len();
    data.extend_from_slice(b"payload bytes");
    let (req, n) = parse_vless_request(&data, &uuid).unwrap();
    assert_eq!(n, header_len);
    assert_eq!(req.command, CMD_UDP);
    assert_eq!(req.target_port, 8080);
    assert_eq!(req.target_addr, "192.168.0.255");
}

#[test]
fn parse_refuses_bad_headers() {
    let uuid = [1u8; 16];
    let good = header(&uuid, 443, ATYP_IPV4, &[1, 2, 3, 4]);

    let mut bad_version = good.clone();
    bad_version[0] = 1;
    assert_eq!(parse_vless_request(&bad_version, &uuid), Err(VlessError::UnsupportedVersion(1)));

    let other = [2u8; 16];
    assert_eq!(parse_vless_request(&good, &other), Err(VlessError::UnauthorizedUuid(uuid)));

    let bad_type = header(&uuid, 443, 4, &[1, 2, 3, 4]);
    assert_eq!(parse_vless_request(&bad_type, &uuid), Err(VlessError::UnsupportedAddressType(4)));

    let bad_domain = header(&uuid, 443, ATYP_DOMAIN, &[2, 0xff, 0xfe]);
    assert_eq!(parse_vless_request(&bad_domain, &uuid), Err(VlessError::InvalidDomainUtf8));
}

#[test]
fn parse_reports_where_a_header_ends_early() {
    let uuid = [1u8; 16];
    let good = header(&uuid, 443, ATYP_IPV4, &[1, 2, 3, 4]);
    let cases = [
        (0, VlessField::Version, 1),
        (10, VlessField::Uuid, 17),
        (17, VlessField::AddonsLength, 18),
        (18, VlessField::Command, 19),
        (20, VlessField::Port, 21),
        (21, VlessField::AddressType, 22),
        (24, VlessField::Ipv4Address, 26),
    ];
    for (len, field, needed) in cases {
        assert_eq!(
            parse_vless_request(&good[..len], &uuid),
            Err(VlessError::Truncated { field, needed })
        );
    }
    let domain = header(&uuid, 443, ATYP_DOMAIN, &[3, b'a', b'b', b'c']);
    assert_eq!(
        parse_vless_request(&domain[..22], &uuid),
        Err(VlessError::Truncated { field: VlessField::DomainLength, needed: 23 })
    );
    assert_eq!(
        parse_vless_request(&domain[..24], &uuid),
        Err(VlessError::Truncated { field: VlessField::DomainData, needed: 26 })
    );
    let v6 = header(&uuid, 443, ATYP_IPV6, &[0u8; 16]);
    assert_eq!(
        parse_vless_request(&v6[..30], &uuid),
        Err(VlessError::Truncated { field: VlessField::Ipv6Address, needed: 38 })
    );
    let mut addons = vec![0x00];
    addons.extend_from_slice(&uuid);
    addons.push(5);
    addons.extend_from_slice(&[0, 0]);
    assert_eq!(
        parse_vless_request(&addons, &uuid),
        Err(VlessError::Truncated { field: VlessField::AddonsData, needed: 23 })
    );
}

#[test]
fn reading_the_bytes_asked_for_completes_the_header() {
    let uuid = [9u8; 16];
    let full = header(&uuid, 8443, ATYP_DOMAIN, &[11, b'e', b'x', b'a', b'm', b'p', b'l', b'e', b'.', b'c', b'o', b'm']);
    let mut have = 0;
    loop {
        match parse_vless_request(&full[..have], &uuid) {
            Ok((req, n)) => {
                assert_eq!(n, full.len());
                assert_eq!(req.target_addr, "example.com");
                assert_eq!(req.target_port, 8443);
                break;
            }
            Err(VlessError::Truncated { needed, .. }) => {
                assert!(needed > have);
                have = needed;
            }
            Err(e) => panic!("unexpected error {:?}", e),
        }
    }
}

#[test]
fn ipv6_addresses_are_written_canonically() {
    let uuid = [0u8; 16];
    let cases: [([u8; 16], &str); 7] = [
        ([0; 16], "::"),
        ([0, 0, 0, 0, 0, 0, 0, 0, 0, 0, 0, 0, 0, 0, 0, 1], "::1"),
        ([0, 0, 0, 0, 0, 0, 0, 0, 0, 0, 0xff, 0xff, 192, 0, 2, 1], "::ffff:192.0.2.1"),
        ([0, 1, 0, 0, 0, 0, 0, 1, 0, 0, 0, 0, 0, 0, 0, 1], "1:0:0:1::1"),
        ([0x20, 0x01, 0x0d, 0xb8, 0, 0, 0, 0, 0, 1, 0, 0, 0, 0, 0, 1], "2001:db8::1:0:0:1"),
        ([0x20, 0x01, 0x0d, 0xb8, 0, 1, 0, 0, 0, 1, 0, 1, 0, 1, 0, 1], "2001:db8:1:0:1:1:1:1"),
        ([0xfe, 0x80, 0, 0, 0, 0, 0, 0, 0xab, 0xcd, 0x0e, 0xf0, 0, 0, 0, 0], "fe80::abcd:ef0:0:0"),
    ];
    for (bytes, text) in cases {
        let data = header(&uuid, 1, ATYP_IPV6, &bytes);
        let (req, _) = parse_vless_request(&data, &uuid).unwrap();
        assert_eq!(req.target_addr, text);
    }
}

#[test]
fn response_header_is_version_and_no_addons() {
    assert_eq!(vless_response_header(), [0u8, 0u8]);
}

#[test]
fn destinations_bracket_ipv6_hosts() {
    assert_eq!(destination_display("2001:db8::1", 443), "[2001:db8::1]:443");
    assert_eq!(destination_display("[2001:db8::1]", 443), "[2001:db8::1]:443");
    assert_eq!(destination_display("www.instagram.com", 443), "www.instagram.com:443");
    assert_eq!(destination_display("1.1.1.1", 0), "1.1.1.1:0");
}
