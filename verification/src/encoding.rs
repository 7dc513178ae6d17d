//! Text encodings of binary values: hexadecimal (`hex`), Base64 (`base64`)
//! and the hyphenated UUID form (`uuid`), stated over character sequences.
use vstd::prelude::*;
use crate::text::digit_char;

verus! {

/// The value of a hexadecimal digit, either case.
pub open spec fn hex_digit_value(c: char) -> Option<nat> {
    let u = c as u32;
    if 0x30 <= u <= 0x39 {
        Some((u - 0x30) as nat)
    } else if 0x41 <= u <= 0x46 {
        Some((u - 0x41 + 10) as nat)
    } else if 0x61 <= u <= 0x66 {
        Some((u - 0x61 + 10) as nat)
    } else {
        None
    }
}

/// The bytes that a hexadecimal text denotes: two digits per byte, high
/// nibble first; `None` for an odd length or a character that is no digit.
pub open spec fn hex_decode(s: Seq<char>) -> Option<Seq<u8>>
    decreases s.len(),
{
    if s.len() == 0 {
        Some(Seq::empty())
    } else if s.len() == 1 {
        None
    } else {
        match (hex_digit_value(s[0]), hex_digit_value(s[1]), hex_decode(s.skip(2))) {
            (Some(hi), Some(lo), Some(rest)) => Some(seq![(hi * 16 + lo) as u8] + rest),
            _ => None,
        }
    }
}

/// Lowercase hexadecimal text of bytes, two digits per byte.
pub open spec fn hex_encode(b: Seq<u8>) -> Seq<char>
    decreases b.len(),
{
    if b.len() == 0 {
        Seq::empty()
    } else {
        seq![digit_char((b[0] / 16) as nat), digit_char((b[0] % 16) as nat)] + hex_encode(b.drop_first())
    }
}

/// The Base64 symbol for a six-bit value: the standard alphabet ends in
/// `+` and `/`, the URL-safe one in `-` and `_`.
pub open spec fn base64_symbol(url_safe: bool, v: nat) -> char {
    if v < 26 {
        (v + 0x41) as char
    } else if v < 52 {
        (v - 26 + 0x61) as char
    } else if v < 62 {
        (v - 52 + 0x30) as char
    } else if v == 62 {
        if url_safe { '-' } else { '+' }
    } else {
        if url_safe { '_' } else { '/' }
    }
}

/// Base64 text of bytes (RFC 4648); `padded` adds `=` to complete the last
/// group of four symbols.
pub open spec fn base64_encode(url_safe: bool, padded: bool, b: Seq<u8>) -> Seq<char>
    decreases b.len(),
{
    if b.len() == 0 {
        Seq::empty()
    } else if b.len() == 1 {
        seq![base64_symbol(url_safe, (b[0] / 4) as nat), base64_symbol(url_safe, ((b[0] % 4) * 16) as nat)]
            + if padded { seq!['=', '='] } else { Seq::empty() }
    } else if b.len() == 2 {
        seq![
            base64_symbol(url_safe, (b[0] / 4) as nat),
            base64_symbol(url_safe, ((b[0] % 4) * 16 + b[1] / 16) as nat),
            base64_symbol(url_safe, ((b[1] % 16) * 4) as nat),
        ] + if padded { seq!['='] } else { Seq::empty() }
    } else {
        seq![
            base64_symbol(url_safe, (b[0] / 4) as nat),
            base64_symbol(url_safe, ((b[0] % 4) * 16 + b[1] / 16) as nat),
            base64_symbol(url_safe, ((b[1] % 16) * 4 + b[2] / 64) as nat),
            base64_symbol(url_safe, (b[2] % 64) as nat),
        ] + base64_encode(url_safe, padded, b.skip(3))
    }
}

/// The characters of `s` with ASCII capitals folded to lowercase.
pub open spec fn ascii_lowercase(s: Seq<char>) -> Seq<char> {
    s.map_values(|c: char| if 0x41 <= (c as u32) <= 0x5A { ((c as u32) + 32) as char } else { c })
}

/// The bytes of a hyphenated UUID text `xxxxxxxx-xxxx-xxxx-xxxx-xxxxxxxxxxxx`.
pub open spec fn uuid_parse_hyphenated(s: Seq<char>) -> Option<Seq<u8>> {
    if s.len() == 36 && s[8] == '-' && s[13] == '-' && s[18] == '-' && s[23] == '-' {
        hex_decode(
            s.subrange(0, 8) + s.subrange(9, 13) + s.subrange(14, 18) + s.subrange(19, 23)
                + s.subrange(24, 36),
        )
    } else {
        None
    }
}

/// The UUID bytes that `Uuid::parse_str` reads from a text: 32 digits, the
/// hyphenated form, the hyphenated form in braces, or it after a
/// case-insensitive `urn:uuid:`.
pub open spec fn uuid_parse(s: Seq<char>) -> Option<Seq<u8>> {
    if s.len() == 32 {
        hex_decode(s)
    } else if s.len() == 36 {
        uuid_parse_hyphenated(s)
    } else if s.len() == 38 && s[0] == '{' && s[37] == '}' {
        uuid_parse_hyphenated(s.subrange(1, 37))
    } else if s.len() == 45 && ascii_lowercase(s.subrange(0, 9)) == seq![
        'u',
        'r',
        'n',
        ':',
        'u',
        'u',
        'i',
        'd',
        ':',
    ] {
        uuid_parse_hyphenated(s.subrange(9, 45))
    } else {
        None
    }
}

/// The hyphenated lowercase text of UUID bytes (8-4-4-4-12 digits).
pub open spec fn uuid_text(b: Seq<u8>) -> Seq<char> {
    hex_encode(b.subrange(0, 4)) + seq!['-'] + hex_encode(b.subrange(4, 6)) + seq!['-']
        + hex_encode(b.subrange(6, 8)) + seq!['-'] + hex_encode(b.subrange(8, 10)) + seq!['-']
        + hex_encode(b.subrange(10, 16))
}

/// No Base64 symbol is the padding character `=`, and distinct six-bit
/// values have distinct symbols.
proof fn lemma_base64_symbol(url_safe: bool, a: nat, b: nat)
    requires
        a < 64,
        b < 64,
    ensures
        base64_symbol(url_safe, a) != '=',
        base64_symbol(url_safe, a) == base64_symbol(url_safe, b) ==> a == b,
{
}

/// The four symbol values of a group of three bytes determine the bytes.
proof fn lemma_base64_group(a0: u8, a1: u8, a2: u8, b0: u8, b1: u8, b2: u8)
    requires
        a0 / 4 == b0 / 4,
        (a0 % 4) * 16 + a1 / 16 == (b0 % 4) * 16 + b1 / 16,
        (a1 % 16) * 4 + a2 / 64 == (b1 % 16) * 4 + b2 / 64,
        a2 % 64 == b2 % 64,
    ensures
        a0 == b0,
        a1 == b1,
        a2 == b2,
{
    assert(a0 == b0 && a1 == b1 && a2 == b2) by (bit_vector)
        requires
            a0 / 4 == b0 / 4,
            (a0 % 4) * 16 + a1 / 16 == (b0 % 4) * 16 + b1 / 16,
            (a1 % 16) * 4 + a2 / 64 == (b1 % 16) * 4 + b2 / 64,
            a2 % 64 == b2 % 64,
    ;
}

/// Base64 encoding is injective: a text is the encoding of at most one byte
/// string, so decoding a text that some bytes encode to gives back exactly
/// those bytes.
pub proof fn lemma_base64_encode_injective(url_safe: bool, padded: bool, a: Seq<u8>, b: Seq<u8>)
    requires
        base64_encode(url_safe, padded, a) == base64_encode(url_safe, padded, b),
    ensures
        a == b,
    decreases a.len(),
{
    let ea = base64_encode(url_safe, padded, a);
    let eb = base64_encode(url_safe, padded, b);
    if a.len() == 0 || b.len() == 0 {
        assert(a.len() == 0 && b.len() == 0) by {
            if a.len() != 0 {
                assert(ea.len() > 0);
            }
            if b.len() != 0 {
                assert(eb.len() > 0);
            }
        }
        assert(a =~= b);
        return;
    }
    // The symbol values of the first group.
    let v0a = (a[0] / 4) as nat;
    let v0b = (b[0] / 4) as nat;
    assert(ea[0] == base64_symbol(url_safe, v0a));
    assert(eb[0] == base64_symbol(url_safe, v0b));
    lemma_base64_symbol(url_safe, v0a, v0b);
    if a.len() >= 3 && b.len() >= 3 {
        let v1a = ((a[0] % 4) * 16 + a[1] / 16) as nat;
        let v1b = ((b[0] % 4) * 16 + b[1] / 16) as nat;
        let v2a = ((a[1] % 16) * 4 + a[2] / 64) as nat;
        let v2b = ((b[1] % 16) * 4 + b[2] / 64) as nat;
        let v3a = (a[2] % 64) as nat;
        let v3b = (b[2] % 64) as nat;
        assert(ea[1] == base64_symbol(url_safe, v1a) && eb[1] == base64_symbol(url_safe, v1b));
        assert(ea[2] == base64_symbol(url_safe, v2a) && eb[2] == base64_symbol(url_safe, v2b));
        assert(ea[3] == base64_symbol(url_safe, v3a) && eb[3] == base64_symbol(url_safe, v3b));
        lemma_base64_symbol(url_safe, v1a, v1b);
        lemma_base64_symbol(url_safe, v2a, v2b);
        lemma_base64_symbol(url_safe, v3a, v3b);
        lemma_base64_group(a[0], a[1], a[2], b[0], b[1], b[2]);
        assert(base64_encode(url_safe, padded, a.skip(3)) =~= ea.skip(4));
        assert(base64_encode(url_safe, padded, b.skip(3)) =~= eb.skip(4));
        lemma_base64_encode_injective(url_safe, padded, a.skip(3), b.skip(3));
        assert(a =~= a.subrange(0, 3) + a.skip(3));
        assert(b =~= b.subrange(0, 3) + b.skip(3));
        assert(a.subrange(0, 3) =~= b.subrange(0, 3));
        return;
    }
    // At least one side ends in its first group: compare lengths and padding.
    let v1a = ((a[0] % 4) * 16 + if a.len() >= 2 { a[1] / 16 } else { 0 }) as nat;
    let v1b = ((b[0] % 4) * 16 + if b.len() >= 2 { b[1] / 16 } else { 0 }) as nat;
    assert(ea[1] == base64_symbol(url_safe, v1a));
    assert(eb[1] == base64_symbol(url_safe, v1b));
    lemma_base64_symbol(url_safe, v1a, v1b);
    if a.len() >= 2 && b.len() >= 2 {
        let v2a = ((a[1] % 16) * 4 + if a.len() >= 3 { a[2] / 64 } else { 0 }) as nat;
        let v2b = ((b[1] % 16) * 4 + if b.len() >= 3 { b[2] / 64 } else { 0 }) as nat;
        assert(ea[2] == base64_symbol(url_safe, v2a));
        assert(eb[2] == base64_symbol(url_safe, v2b));
        lemma_base64_symbol(url_safe, v2a, v2b);
        if a.len() >= 3 {
            lemma_base64_symbol(url_safe, (a[2] % 64) as nat, 0);
            assert(ea[3] == base64_symbol(url_safe, (a[2] % 64) as nat));
        }
        if b.len() >= 3 {
            lemma_base64_symbol(url_safe, (b[2] % 64) as nat, 0);
            assert(eb[3] == base64_symbol(url_safe, (b[2] % 64) as nat));
        }
        assert(a.len() == 2 && b.len() == 2);
        let (a0, a1, b0, b1) = (a[0], a[1], b[0], b[1]);
        assert(a0 == b0 && a1 == b1) by (bit_vector)
            requires
                a0 / 4 == b0 / 4,
                (a0 % 4) * 16 + a1 / 16 == (b0 % 4) * 16 + b1 / 16,
                (a1 % 16) * 4 == (b1 % 16) * 4,
        ;
        assert(a =~= b);
        return;
    }
    if a.len() >= 2 {
        let v2a = ((a[1] % 16) * 4 + if a.len() >= 3 { a[2] / 64 } else { 0 }) as nat;
        lemma_base64_symbol(url_safe, v2a, 0);
        assert(ea[2] == base64_symbol(url_safe, v2a));
        assert(false);
    }
    if b.len() >= 2 {
        let v2b = ((b[1] % 16) * 4 + if b.len() >= 3 { b[2] / 64 } else { 0 }) as nat;
        lemma_base64_symbol(url_safe, v2b, 0);
        assert(eb[2] == base64_symbol(url_safe, v2b));
        assert(false);
    }
    assert(a.len() == 1 && b.len() == 1);
    let (a0, b0) = (a[0], b[0]);
    assert(a0 == b0) by (bit_vector)
        requires
            a0 / 4 == b0 / 4,
            (a0 % 4) * 16 == (b0 % 4) * 16,
    ;
    assert(a =~= b);
}

/// Lowercase digits read back as their values.
proof fn lemma_digit_char_value(d: nat)
    requires
        d < 16,
    ensures
        hex_digit_value(digit_char(d)) == Some(d),
{
}

/// Hexadecimal text reads back as the bytes it was written from.
pub proof fn lemma_hex_roundtrip(b: Seq<u8>)
    ensures
        hex_decode(hex_encode(b)) == Some(b),
        hex_encode(b).len() == 2 * b.len(),
    decreases b.len(),
{
    if b.len() > 0 {
        let e = hex_encode(b);
        lemma_hex_roundtrip(b.drop_first());
        lemma_digit_char_value((b[0] / 16) as nat);
        lemma_digit_char_value((b[0] % 16) as nat);
        assert(e.skip(2) =~= hex_encode(b.drop_first()));
        assert(((b[0] / 16) * 16 + b[0] % 16) as u8 == b[0]);
        assert(seq![b[0]] + b.drop_first() =~= b);
    } else {
        assert(hex_encode(b) =~= Seq::<char>::empty());
        assert(b =~= Seq::<u8>::empty());
    }
}

/// Hexadecimal text of concatenated bytes is the concatenated text.
proof fn lemma_hex_encode_append(a: Seq<u8>, b: Seq<u8>)
    ensures
        hex_encode(a + b) == hex_encode(a) + hex_encode(b),
    decreases a.len(),
{
    if a.len() == 0 {
        assert(a + b =~= b);
        assert(hex_encode(a) =~= Seq::<char>::empty());
        assert(hex_encode(a) + hex_encode(b) =~= hex_encode(b));
    } else {
        lemma_hex_encode_append(a.drop_first(), b);
        assert((a + b).drop_first() =~= a.drop_first() + b);
        assert(hex_encode(a + b) =~= hex_encode(a) + hex_encode(b));
    }
}

/// The hyphenated UUID text reads back as the UUID bytes it was written from.
pub proof fn lemma_uuid_roundtrip(u: Seq<u8>)
    requires
        u.len() == 16,
    ensures
        uuid_parse(uuid_text(u)) == Some(u),
{
    let t = uuid_text(u);
    let (p0, p1, p2, p3, p4) = (
        u.subrange(0, 4),
        u.subrange(4, 6),
        u.subrange(6, 8),
        u.subrange(8, 10),
        u.subrange(10, 16),
    );
    lemma_hex_roundtrip(p0);
    lemma_hex_roundtrip(p1);
    lemma_hex_roundtrip(p2);
    lemma_hex_roundtrip(p3);
    lemma_hex_roundtrip(p4);
    assert(t.len() == 36);
    assert(t[8] == '-' && t[13] == '-' && t[18] == '-' && t[23] == '-');
    let digits = t.subrange(0, 8) + t.subrange(9, 13) + t.subrange(14, 18) + t.subrange(19, 23) + t.subrange(24, 36);
    lemma_hex_encode_append(p0, p1);
    lemma_hex_encode_append(p0 + p1, p2);
    lemma_hex_encode_append(p0 + p1 + p2, p3);
    lemma_hex_encode_append(p0 + p1 + p2 + p3, p4);
    assert(p0 + p1 + p2 + p3 + p4 =~= u);
    assert(digits =~= hex_encode(u));
    lemma_hex_roundtrip(u);
}

/// Unpadded Base64 of `n` bytes has `4 * (n / 3)` symbols plus 2 or 3 for a
/// final group of one or two bytes.
pub proof fn lemma_base64_unpadded_len(url_safe: bool, b: Seq<u8>)
    ensures
        base64_encode(url_safe, false, b).len() == 4 * (b.len() / 3) + if b.len() % 3 == 0 {
            0
        } else {
            b.len() % 3 + 1
        },
    decreases b.len(),
{
    if b.len() >= 3 {
        lemma_base64_unpadded_len(url_safe, b.skip(3));
    }
}

/// The bytes that a Base64 text encodes, if any.
pub open spec fn base64_decode(url_safe: bool, padded: bool, s: Seq<char>) -> Option<Seq<u8>> {
    if exists|v: Seq<u8>| base64_encode(url_safe, padded, v) == s {
        Some(choose|v: Seq<u8>| base64_encode(url_safe, padded, v) == s)
    } else {
        None
    }
}

/// `hex::encode`: lowercase hexadecimal text, two digits per byte.
#[verifier::external_body]
pub(crate) fn hex_encode_bytes(b: &[u8]) -> (res: String)
    ensures
        res@ == hex_encode(b@),
{
    hex::encode(b)
}

/// `hex::decode`: the bytes that a hexadecimal text denotes; either case is
/// accepted, and an odd length or a non-digit character is an error.
#[verifier::external_body]
pub(crate) fn hex_decode_str(s: &str) -> (res: Option<Vec<u8>>)
    ensures
        match res {
            Some(v) => hex_decode(s@) == Some(v@),
            None => hex_decode(s@) is None,
        },
{
    hex::decode(s).ok()
}

/// `Engine::encode` of `base64::engine::general_purpose::URL_SAFE_NO_PAD`:
/// URL-safe alphabet, no padding.
#[verifier::external_body]
pub(crate) fn base64_url_nopad_encode(b: &[u8]) -> (res: String)
    ensures
        res@ == base64_encode(true, false, b@),
{
    base64::Engine::encode(&base64::engine::general_purpose::URL_SAFE_NO_PAD, b)
}

/// `Engine::decode` of `base64::engine::general_purpose::URL_SAFE_NO_PAD`.
/// The engine rejects padding and non-zero trailing bits, so it accepts a
/// text exactly when it is the unpadded URL-safe encoding of some bytes, and
/// then returns those bytes.
#[verifier::external_body]
pub(crate) fn base64_url_nopad_decode(s: &str) -> (res: Option<Vec<u8>>)
    ensures
        match res {
            Some(v) => base64_encode(true, false, v@) == s@,
            None => forall|v: Seq<u8>| base64_encode(true, false, v) != s@,
        },
{
    base64::Engine::decode(&base64::engine::general_purpose::URL_SAFE_NO_PAD, s).ok()
}

/// `Engine::decode` of `base64::engine::general_purpose::STANDARD`. The
/// engine requires canonical padding and zero trailing bits, so it accepts a
/// text exactly when it is the padded standard encoding of some bytes, and
/// then returns those bytes.
#[verifier::external_body]
pub(crate) fn base64_standard_decode(s: &str) -> (res: Option<Vec<u8>>)
    ensures
        match res {
            Some(v) => base64_encode(false, true, v@) == s@,
            None => forall|v: Seq<u8>| base64_encode(false, true, v) != s@,
        },
{
    base64::Engine::decode(&base64::engine::general_purpose::STANDARD, s).ok()
}

/// `uuid::Uuid::parse_str`: the UUID bytes of a text in one of the accepted
/// forms (see `uuid_parse`), or an error.
#[verifier::external_body]
pub(crate) fn uuid_parse_str(s: &str) -> (res: Option<[u8; 16]>)
    ensures
        match res {
            Some(b) => uuid_parse(s@) == Some(b@),
            None => uuid_parse(s@) is None,
        },
{
    uuid::Uuid::parse_str(s).ok().map(|u| *u.as_bytes())
}

/// The `Display` text of `uuid::Uuid::from_bytes(b)`: hyphenated, lowercase.
#[verifier::external_body]
pub(crate) fn uuid_to_string(b: &[u8; 16]) -> (res: String)
    ensures
        res@ == uuid_text(b@),
{
    uuid::Uuid::from_bytes(*b).to_string()
}

} // verus!
