//! REALITY client authentication: the short ID carried in the ClientHello
//! SessionID, X25519 key agreement and HKDF-SHA256 key derivation.
use vstd::prelude::*;

verus! {

/// The public key `x25519_dalek::PublicKey::from(&StaticSecret::from(secret))`:
/// the X25519 base-point multiple of the (clamped) secret scalar.
pub uninterp spec fn x25519_public(secret: Seq<u8>) -> Seq<u8>;

/// The shared secret `StaticSecret::from(secret).diffie_hellman(&PublicKey::from(public))`.
pub uninterp spec fn x25519_shared(secret: Seq<u8>, public: Seq<u8>) -> Seq<u8>;

/// The output keying material that `Hkdf::<Sha256>::new(Some(salt), ikm)`
/// writes into a buffer of `len` bytes with `expand(info, ..)`.
pub uninterp spec fn hkdf_sha256_okm(salt: Seq<u8>, ikm: Seq<u8>, info: Seq<u8>, len: nat) -> Seq<u8>;

/// Compares two byte strings with `subtle`'s constant-time slice equality.
/// Claimed of `<[u8] as subtle::ConstantTimeEq>::ct_eq`: the resulting `Choice`
/// is 1 exactly when both slices have the same length and the same bytes.
#[verifier::external_body]
fn ct_eq_bytes(a: &[u8], b: &[u8]) -> (res: bool)
    ensures
        res == (a@ == b@),
{
    bool::from(subtle::ConstantTimeEq::ct_eq(a, b))
}

/// The X25519 public key of a secret key, computed by `x25519_dalek`
/// (`PublicKey::from(&StaticSecret::from(secret))`). Nothing is claimed of
/// the value beyond its name.
#[verifier::external_body]
pub(crate) fn x25519_public_key(secret: &[u8; 32]) -> (res: [u8; 32])
    ensures
        res@ == x25519_public(secret@),
{
    *x25519_dalek::PublicKey::from(&x25519_dalek::StaticSecret::from(*secret)).as_bytes()
}

/// The X25519 shared secret of `secret` with the peer key `public`, computed by
/// `x25519_dalek::StaticSecret::diffie_hellman`. Besides its name, only the
/// Diffie-Hellman agreement that the crate documents is claimed: when the peer
/// key is the public key of a secret `b`, the peer computes the same secret
/// from `b` and the public key of `secret`.
#[verifier::external_body]
fn x25519_diffie_hellman(secret: &[u8; 32], public: &[u8; 32]) -> (res: [u8; 32])
    ensures
        res@ == x25519_shared(secret@, public@),
        forall|b: Seq<u8>|
            b.len() == 32 && public@ == #[trigger] x25519_public(b) ==> res@ == x25519_shared(b, x25519_public(secret@)),
{
    x25519_dalek::StaticSecret::from(*secret).diffie_hellman(&x25519_dalek::PublicKey::from(*public)).to_bytes()
}

/// HKDF-SHA256 (`hkdf::Hkdf::<sha2::Sha256>::new` then `expand`) into 64
/// bytes. `expand` fails only for more than 255 * 32 output bytes, so for 64
/// bytes it always succeeds; the bytes themselves are only named.
#[verifier::external_body]
fn hkdf_sha256_expand_64(salt: &[u8], ikm: &[u8; 32], info: &[u8]) -> (res: Option<[u8; 64]>)
    ensures
        res is Some,
        res matches Some(okm) ==> okm@ == hkdf_sha256_okm(salt@, ikm@, info@, 64),
{
    let hk = hkdf::Hkdf::<sha2::Sha256>::new(Some(salt), ikm);
    let mut okm = [0u8; 64];
    match hk.expand(info, &mut okm) {
        Ok(()) => Some(okm),
        Err(_) => None,
    }
}

/// `w` occurs in `s` as a contiguous window.
pub open spec fn has_window(s: Seq<u8>, w: Seq<u8>) -> bool {
    exists|i: int| 0 <= i && i + w.len() <= s.len() && #[trigger] s.subrange(i, i + w.len()) == w
}

/// The SessionID carries the short ID (an empty short ID is always carried).
pub open spec fn carries_short_id(session_id: Seq<u8>, short_id: Seq<u8>) -> bool {
    short_id.len() == 0 || has_window(session_id, short_id)
}

/// The HKDF info string `"REALITY"`.
pub open spec fn reality_info() -> Seq<u8> {
    seq![0x52u8, 0x45, 0x41, 0x4c, 0x49, 0x54, 0x59]
}

/// The 64 bytes of key material: HKDF-SHA256 with the short ID as salt, the
/// X25519 shared secret of the server key and the SessionID as input key, and
/// `"REALITY"` as info.
pub open spec fn reality_okm(server_private: Seq<u8>, session_id: Seq<u8>, short_id: Seq<u8>) -> Seq<u8> {
    hkdf_sha256_okm(short_id, x25519_shared(server_private, session_id), reality_info(), 64)
}

/// The (authentication key, session key) pair that an authorized client
/// yields, or `None` when its SessionID does not carry the short ID.
pub open spec fn reality_keys(server_private: Seq<u8>, session_id: Seq<u8>, short_id: Seq<u8>) -> Option<(Seq<u8>, Seq<u8>)> {
    if carries_short_id(session_id, short_id) {
        let okm = reality_okm(server_private, session_id, short_id);
        Some((okm.subrange(0, 32), okm.subrange(32, 64)))
    } else {
        None
    }
}

/// The keys a client derives: HKDF-SHA256 over the shared secret of its
/// ephemeral secret with the server's public key, salted with the short ID.
pub open spec fn client_keys(client_secret: Seq<u8>, server_public: Seq<u8>, short_id: Seq<u8>) -> (Seq<u8>, Seq<u8>) {
    let okm = hkdf_sha256_okm(short_id, x25519_shared(client_secret, server_public), reality_info(), 64);
    (okm.subrange(0, 32), okm.subrange(32, 64))
}

/// Looks for `short_id` as a window of `session_id`, comparing each window in
/// constant time.
fn find_short_id(session_id: &[u8; 32], short_id: &[u8]) -> (res: bool)
    requires
        short_id@.len() > 0,
    ensures
        res == has_window(session_id@, short_id@),
{
    let n = short_id.len();
    if n > 32 {
        return false;
    }
    let last: usize = 32 - n;
    let mut i: usize = 0;
    while i <= last
        invariant
            n == short_id@.len(),
            1 <= n <= 32,
            last == 32 - n,
            i <= last + 1,
            forall|j: int| 0 <= j < i ==> #[trigger] session_id@.subrange(j, j + n) != short_id@,
        decreases last + 1 - i,
    {
        let window = &session_id[i..i + n];
        if ct_eq_bytes(window, short_id) {
            assert(session_id@.subrange(i as int, i + n) == short_id@);
            return true;
        }
        i = i + 1;
    }
    assert forall|j: int| 0 <= j && j + n <= session_id@.len() implies #[trigger] session_id@.subrange(j, j + n) != short_id@ by {
        assert(j < i);
    }
    false
}

/// Verifies whether a client's 32-byte SessionID contains a valid REALITY
/// X25519 ephemeral public key and authorized ShortID. On success returns the
/// derived (authentication key, session key).
pub fn verify_reality_client(
    server_private: &[u8; 32],
    client_session_id: &[u8; 32],
    expected_short_id: &[u8],
) -> (res: Option<([u8; 32], [u8; 32])>)
    ensures
        match res {
            Some((auth_key, session_key)) => reality_keys(server_private@, client_session_id@, expected_short_id@) == Some((auth_key@, session_key@)),
            None => reality_keys(server_private@, client_session_id@, expected_short_id@) is None,
        },
        // A client whose SessionID is the public key of its ephemeral secret,
        // and which embedded the short ID, gets the keys it derives itself
        // from the server's public key.
        forall|client_secret: Seq<u8>|
            client_secret.len() == 32 && client_session_id@ == #[trigger] x25519_public(client_secret)
                && carries_short_id(client_session_id@, expected_short_id@) ==> (res matches Some((a, k)) && (a@, k@)
                == client_keys(client_secret, x25519_public(server_private@), expected_short_id@)),
{
    // Authorized clients embed the configured short ID in their SessionID.
    if expected_short_id.len() != 0 {
        if !find_short_id(client_session_id, expected_short_id) {
            return None;
        }
    }
    // The SessionID is the client's ephemeral X25519 public key.
    let shared = x25519_diffie_hellman(server_private, client_session_id);
    let info: [u8; 7] = [0x52, 0x45, 0x41, 0x4c, 0x49, 0x54, 0x59];
    assert(info@ == reality_info());
    let okm = match hkdf_sha256_expand_64(expected_short_id, &shared, &info) {
        Some(okm) => okm,
        None => {
            return None;
        },
    };
    let mut auth_key = [0u8; 32];
    let mut session_key = [0u8; 32];
    let mut i: usize = 0;
    while i < 32
        invariant
            i <= 32,
            okm@.len() == 64,
            forall|j: int| 0 <= j < i ==> auth_key@[j] == okm@[j],
            forall|j: int| 0 <= j < i ==> session_key@[j] == okm@[j + 32],
        decreases 32 - i,
    {
        auth_key[i] = okm[i];
        session_key[i] = okm[i + 32];
        i = i + 1;
    }
    assert(auth_key@ =~= okm@.subrange(0, 32));
    assert(session_key@ =~= okm@.subrange(32, 64));
    Some((auth_key, session_key))
}

/// Validates that a received ShortID matches the server's authorized ShortID
/// using a constant-time comparison.
pub fn validate_short_id(received: &[u8], expected: &[u8]) -> (res: bool)
    ensures
        res == (received@ == expected@),
{
    if received.len() != expected.len() {
        return false;
    }
    ct_eq_bytes(received, expected)
}

} // verus!
