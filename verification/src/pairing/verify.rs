//! Verifying a remote pairing: the pairing record, the messages that
//! start and finish the verification, and what the device's replies mean.
//!
//! The cryptography is the dalek, RustCrypto and base64 crates': an X25519
//! key agreement, HKDF-SHA512, ChaCha20-Poly1305 and Ed25519 signatures.

use vstd::prelude::*;

use crate::error::IdeviceError;
use crate::pairing::tlv::{
    deserialize_tlv8, entry_view, reported_tlv_error, serialize_tlv8, tlv8_decoding,
    tlv8_encoding, PairingDataComponentType, TLV8Entry, TlvDecodeError,
};
use crate::text::{utf8_bytes, utf8_encode};
use base64::Engine;
use chacha20poly1305::aead::{Aead, KeyInit};
use ed25519_dalek::Signer;
use vstd::string::StringSliceAdditionalSpecFns;

verus! {

// ---------------------------------------------------------------------------
// Cryptography
// ---------------------------------------------------------------------------

/// The X25519 public key of a secret.
pub uninterp spec fn x25519_public(secret: Seq<u8>) -> Seq<u8>;

/// The X25519 shared secret of a secret and a peer's public key.
pub uninterp spec fn x25519_shared(secret: Seq<u8>, peer_public: Seq<u8>) -> Seq<u8>;

/// The Ed25519 public key of a signing key's seed.
pub uninterp spec fn ed25519_public(seed: Seq<u8>) -> Seq<u8>;

/// The Ed25519 signature of a message by a signing key's seed.
pub uninterp spec fn ed25519_signature(seed: Seq<u8>, message: Seq<u8>) -> Seq<u8>;

/// The first 32 bytes of HKDF-SHA512 output for a salt, key material and
/// info.
pub uninterp spec fn hkdf_sha512_okm(salt: Seq<u8>, ikm: Seq<u8>, info: Seq<u8>) -> Seq<u8>;

/// The ChaCha20-Poly1305 ciphertext and tag of a message.
pub uninterp spec fn chacha20poly1305_sealed(
    key: Seq<u8>,
    nonce: Seq<u8>,
    message: Seq<u8>,
    aad: Seq<u8>,
) -> Seq<u8>;

/// The digit of the standard base64 alphabet for a six-bit value.
pub open spec fn base64_digit(v: int) -> char {
    if v < 26 {
        ('A' as int + v) as char
    } else if v < 52 {
        ('a' as int + (v - 26)) as char
    } else if v < 62 {
        ('0' as int + (v - 52)) as char
    } else if v == 62 {
        '+'
    } else {
        '/'
    }
}

/// The standard, padded base64 text of bytes: every three bytes become
/// four digits of six bits each; a last one or two bytes become two or
/// three digits (the free low bits zero) and `=` padding to four.
pub open spec fn base64_text(data: Seq<u8>) -> Seq<char>
    decreases data.len(),
{
    if data.len() == 0 {
        Seq::empty()
    } else if data.len() == 1 {
        seq![base64_digit(data[0] as int / 4), base64_digit((data[0] % 4) * 16), '=', '=']
    } else if data.len() == 2 {
        seq![
            base64_digit(data[0] as int / 4),
            base64_digit((data[0] % 4) * 16 + data[1] / 16),
            base64_digit((data[1] % 16) * 4),
            '=',
        ]
    } else {
        seq![
            base64_digit(data[0] as int / 4),
            base64_digit((data[0] % 4) * 16 + data[1] / 16),
            base64_digit((data[1] % 16) * 4 + data[2] / 64),
            base64_digit(data[2] as int % 64),
        ] + base64_text(data.skip(3))
    }
}

/// The bytes standard base64 text decodes to: the bytes whose base64 text
/// it is, when there are any (no two byte strings share a text), else
/// none.
pub open spec fn base64_decoded(text: Seq<char>) -> Option<Seq<u8>> {
    if exists|b: Seq<u8>| base64_text(b) == text {
        Some(choose|b: Seq<u8>| base64_text(b) == text)
    } else {
        None
    }
}

/// The X25519 public key of a secret.
///
/// Calls `x25519_dalek::PublicKey::from(&StaticSecret::from(secret))`; the
/// contract names the result.
#[verifier::external_body]
fn x25519_public_key(secret: &[u8; 32]) -> (r: [u8; 32])
    ensures
        r@ == x25519_public(secret@),
{
    x25519_dalek::PublicKey::from(&x25519_dalek::StaticSecret::from(*secret)).to_bytes()
}

/// The X25519 shared secret with a peer.
///
/// Calls `StaticSecret::diffie_hellman` of x25519-dalek; the contract names
/// the result.
#[verifier::external_body]
fn x25519_shared_secret(secret: &[u8; 32], peer_public: &[u8; 32]) -> (r: [u8; 32])
    ensures
        r@ == x25519_shared(secret@, peer_public@),
{
    x25519_dalek::StaticSecret::from(*secret).diffie_hellman(
        &x25519_dalek::PublicKey::from(*peer_public),
    ).to_bytes()
}

/// The Ed25519 public key of a seed.
///
/// Calls `SigningKey::from_bytes(seed).verifying_key()` of ed25519-dalek;
/// the contract names the result.
#[verifier::external_body]
fn ed25519_public_key(seed: &[u8; 32]) -> (r: [u8; 32])
    ensures
        r@ == ed25519_public(seed@),
{
    ed25519_dalek::SigningKey::from_bytes(seed).verifying_key().to_bytes()
}

/// Signs a message with Ed25519.
///
/// Calls `SigningKey::sign` of ed25519-dalek, which is deterministic; the
/// contract names the result.
#[verifier::external_body]
fn ed25519_sign(seed: &[u8; 32], message: &[u8]) -> (r: [u8; 64])
    ensures
        r@ == ed25519_signature(seed@, message@),
{
    ed25519_dalek::SigningKey::from_bytes(seed).sign(message).to_bytes()
}

/// Derives 32 bytes with HKDF-SHA512.
///
/// Calls `Hkdf::<Sha512>::new(Some(salt), ikm).expand(info, ..)`; the hkdf
/// crate refuses only outputs longer than 255 hash lengths, so a 32-byte
/// output is always filled. The contract names the result.
#[verifier::external_body]
fn hkdf_sha512_expand(salt: &[u8], ikm: &[u8], info: &[u8]) -> (r: [u8; 32])
    ensures
        r@ == hkdf_sha512_okm(salt@, ikm@, info@),
{
    let mut okm = [0u8; 32];
    match hkdf::Hkdf::<sha2::Sha512>::new(Some(salt), ikm).expand(info, &mut okm) {
        Ok(()) => okm,
        Err(_) => okm,
    }
}

/// Encrypts and authenticates a message with ChaCha20-Poly1305.
///
/// Calls `Aead::encrypt` of chacha20poly1305, which appends the 16-byte tag
/// to the ciphertext and fails only for messages of 2^32 - 1 blocks of 64
/// bytes or more, which `requires` leaves out. The contract names the
/// result and states its length.
#[verifier::external_body]
fn chacha20poly1305_encrypt(key: &[u8; 32], nonce: &[u8; 12], message: &[u8], aad: &[u8]) -> (r:
    Vec<u8>)
    requires
        message@.len() <= 0xFFFF_FFFF,
    ensures
        r@ == chacha20poly1305_sealed(key@, nonce@, message@, aad@),
        r@.len() == message@.len() + 16,
{
    let cipher = chacha20poly1305::ChaCha20Poly1305::new(chacha20poly1305::Key::from_slice(key));
    let payload = chacha20poly1305::aead::Payload { msg: message, aad };
    match cipher.encrypt(chacha20poly1305::Nonce::from_slice(nonce), payload) {
        Ok(v) => v,
        Err(_) => Vec::new(),
    }
}

/// Encodes bytes as standard base64.
///
/// Calls `base64::engine::general_purpose::STANDARD.encode`, which writes
/// the padded text of the standard alphabet and panics when that text's
/// length does not fit in `usize`, which `requires` leaves out.
#[verifier::external_body]
fn base64_encode(data: &[u8]) -> (r: String)
    requires
        4 * ((data@.len() + 2) / 3) <= usize::MAX,
    ensures
        r@ == base64_text(data@),
{
    base64::engine::general_purpose::STANDARD.encode(data)
}

/// Decodes standard base64 text.
///
/// Calls `base64::engine::general_purpose::STANDARD.decode`, whose
/// configuration requires canonical padding and zero trailing bits: it
/// takes exactly the texts the encoder writes, and gives back their bytes;
/// it refuses any other text.
#[verifier::external_body]
fn base64_decode(text: &str) -> (r: Option<Vec<u8>>)
    ensures
        match base64_decoded(text@) {
            Some(d) => r matches Some(v) && v@ == d,
            None => r is None,
        },
{
    base64::engine::general_purpose::STANDARD.decode(text).ok()
}

// ---------------------------------------------------------------------------
// The pairing record
// ---------------------------------------------------------------------------

/// A remote pairing record: an X25519 key pair for the key agreement, an
/// Ed25519 key pair that signs, and the host's identifier.
pub struct RpPairingFile {
    /// The X25519 secret.
    pub x_private_key: [u8; 32],
    /// The X25519 public key.
    pub x_public_key: [u8; 32],
    /// The Ed25519 seed.
    pub e_private_key: [u8; 32],
    /// The Ed25519 public key.
    pub e_public_key: [u8; 32],
    /// The host's identifier.
    pub identifier: String,
}

/// Whether the record's public keys are those of its secrets.
pub open spec fn pairing_keys_match(p: RpPairingFile) -> bool {
    p.x_public_key@ == x25519_public(p.x_private_key@) && p.e_public_key@ == ed25519_public(
        p.e_private_key@,
    )
}

/// 32 bytes from the operating system's random source.
///
/// Calls `x25519_dalek::StaticSecret::random`, which fills the secret from
/// `OsRng`; nothing is stated of the bytes.
#[verifier::external_body]
fn random_secret() -> (r: [u8; 32]) {
    x25519_dalek::StaticSecret::random().to_bytes()
}

impl RpPairingFile {
    /// A record for the given secrets and identifier, with the public keys
    /// derived from the secrets.
    pub fn from_secrets(x_private_key: [u8; 32], e_private_key: [u8; 32], identifier: String) -> (r:
        RpPairingFile)
        ensures
            r.x_private_key == x_private_key,
            r.e_private_key == e_private_key,
            r.identifier@ == identifier@,
            pairing_keys_match(r),
    {
        let x_public_key = x25519_public_key(&x_private_key);
        let e_public_key = ed25519_public_key(&e_private_key);
        RpPairingFile { x_private_key, x_public_key, e_private_key, e_public_key, identifier }
    }

    /// A fresh record: random secrets and a random upper-case UUID as the
    /// identifier.
    pub fn generate() -> (r: RpPairingFile)
        ensures
            pairing_keys_match(r),
            crate::tss::is_uuid_v4_upper(r.identifier@),
    {
        let x = random_secret();
        let e = random_secret();
        let identifier = crate::tss::random_uuid_upper();
        RpPairingFile::from_secrets(x, e, identifier)
    }
}

// ---------------------------------------------------------------------------
// Messages
// ---------------------------------------------------------------------------

/// The salt of the verification key derivation.
pub open spec fn verify_salt() -> Seq<u8> {
    "Pair-Verify-Encrypt-Salt".spec_bytes()
}

/// The info of the verification key derivation.
pub open spec fn verify_info() -> Seq<u8> {
    "Pair-Verify-Encrypt-Info".spec_bytes()
}

/// The nonce of the third verification message: four zero bytes, then
/// `PV-Msg03`.
pub open spec fn verify_nonce() -> Seq<u8> {
    seq![0u8, 0, 0, 0, 0x50, 0x56, 0x2D, 0x4D, 0x73, 0x67, 0x30, 0x33]
}

/// The records of the message that starts verification: state 1 and the
/// host's X25519 public key.
pub open spec fn verify_start_records(x_public_key: Seq<u8>) -> Seq<(PairingDataComponentType, Seq<u8>)> {
    seq![
        (PairingDataComponentType::State, seq![1u8]),
        (PairingDataComponentType::PublicKey, x_public_key),
    ]
}

/// The record data of a component, when the records have one: the first.
pub open spec fn first_record(
    es: Seq<(PairingDataComponentType, Seq<u8>)>,
    t: PairingDataComponentType,
) -> Option<Seq<u8>>
    decreases es.len(),
{
    if es.len() == 0 {
        None
    } else if es[0].0 == t {
        Some(es[0].1)
    } else {
        first_record(es.skip(1), t)
    }
}

/// What a reply's data text decodes to: base64, then TLV8 records.
pub open spec fn reply_records(data: Option<Seq<char>>) -> Result<
    Seq<(PairingDataComponentType, Seq<u8>)>,
    IdeviceError,
> {
    match data {
        None => Err(IdeviceError::UnexpectedResponse),
        Some(text) => match base64_decoded(text) {
            None => Err(IdeviceError::Base64Decode),
            Some(bytes) => match tlv8_decoding(bytes) {
                Ok(es) => Ok(es),
                Err(e) => Err(reported_tlv_error(e)),
            },
        },
    }
}

/// The device's X25519 public key from its reply to the start message: the
/// reply's first public-key record, which must be 32 bytes.
pub open spec fn device_public_key(data: Option<Seq<char>>) -> Result<Seq<u8>, IdeviceError> {
    match reply_records(data) {
        Err(e) => Err(e),
        Ok(es) => match first_record(es, PairingDataComponentType::PublicKey) {
            None => Err(IdeviceError::UnexpectedResponse),
            Some(k) => if k.len() == 32 {
                Ok(k)
            } else {
                Err(IdeviceError::NotEnoughBytes(32, k.len() as usize))
            },
        },
    }
}

/// What the host signs: its X25519 public key, its identifier and the
/// device's public key.
pub open spec fn verify_signing_input(p: RpPairingFile, device_key: Seq<u8>) -> Seq<u8> {
    p.x_public_key@ + utf8_bytes(p.identifier@) + device_key
}

/// The encrypted records of the finishing message: the host's identifier
/// and its signature.
pub open spec fn verify_plaintext(p: RpPairingFile, device_key: Seq<u8>) -> Seq<u8> {
    tlv8_encoding(
        seq![
            (PairingDataComponentType::Identifier, utf8_bytes(p.identifier@)),
            (
                PairingDataComponentType::Signature,
                ed25519_signature(p.e_private_key@, verify_signing_input(p, device_key)),
            ),
        ],
    )
}

/// The key of the finishing message: HKDF-SHA512 of the shared secret.
pub open spec fn verify_key(p: RpPairingFile, device_key: Seq<u8>) -> Seq<u8> {
    hkdf_sha512_okm(verify_salt(), x25519_shared(p.x_private_key@, device_key), verify_info())
}

/// The records of the finishing message: state 3 and the encrypted
/// identifier and signature.
pub open spec fn verify_finish_records(p: RpPairingFile, device_key: Seq<u8>) -> Seq<
    (PairingDataComponentType, Seq<u8>),
> {
    seq![
        (PairingDataComponentType::State, seq![3u8]),
        (
            PairingDataComponentType::EncryptedData,
            chacha20poly1305_sealed(
                verify_key(p, device_key),
                verify_nonce(),
                verify_plaintext(p, device_key),
                Seq::empty(),
            ),
        ),
    ]
}

/// The base64 data of the message that starts verification.
pub fn verify_start_data(pairing: &RpPairingFile) -> (r: String)
    ensures
        r@ == base64_text(tlv8_encoding(verify_start_records(pairing.x_public_key@))),
{
    let entries = vec![
        TLV8Entry::m(1),
        TLV8Entry {
            tlv_type: PairingDataComponentType::PublicKey,
            data: vstd::slice::slice_to_vec(&pairing.x_public_key),
        },
    ];
    assert(entries@.map_values(|e: TLV8Entry| entry_view(e)) =~= verify_start_records(
        pairing.x_public_key@,
    ));
    proof {
        lemma_short_encoding(verify_start_records(pairing.x_public_key@));
    }
    let bytes = serialize_tlv8(entries.as_slice());
    base64_encode(bytes.as_slice())
}

/// Two records of up to 255 bytes each encode to at most 514 bytes.
proof fn lemma_short_encoding(es: Seq<(PairingDataComponentType, Seq<u8>)>)
    requires
        es.len() == 2,
    ensures
        tlv8_encoding(es).len() == es[0].1.len() + es[1].1.len() + 4,
{
    assert(es.drop_last().drop_last() =~= Seq::<(PairingDataComponentType, Seq<u8>)>::empty());
    assert(tlv8_encoding(es.drop_last()) == tlv8_encoding(es.drop_last().drop_last()) + crate::pairing::tlv::entry_bytes(es.drop_last().last()));
}

/// The records of a reply's data text.
fn read_reply(data: Option<&str>) -> (r: Result<Vec<TLV8Entry>, IdeviceError>)
    ensures
        match reply_records(
            match data {
                Some(t) => Some(t@),
                None => None,
            },
        ) {
            Ok(es) => r matches Ok(v) && v@.map_values(|e: TLV8Entry| entry_view(e)) == es,
            Err(e) => r matches Err(x) && x == e,
        },
{
    let text = match data {
        Some(t) => t,
        None => return Err(IdeviceError::UnexpectedResponse),
    };
    let bytes = match base64_decode(text) {
        Some(b) => b,
        None => return Err(IdeviceError::Base64Decode),
    };
    deserialize_tlv8(bytes.as_slice())
}

/// Reads the device's X25519 public key from its reply to the start
/// message, given the reply's `pairingData` data text, if it has one.
///
/// Fails with an unexpected-response error when there is no text or no
/// public-key record, with a base64 or TLV8 error when the text does not
/// decode, and with a not-enough-bytes error when the key is not 32 bytes.
pub fn verify_device_public_key(data: Option<&str>) -> (r: Result<[u8; 32], IdeviceError>)
    ensures
        match device_public_key(
            match data {
                Some(t) => Some(t@),
                None => None,
            },
        ) {
            Ok(k) => r matches Ok(a) && a@ == k,
            Err(e) => r matches Err(x) && x == e,
        },
{
    let entries = match read_reply(data) {
        Ok(v) => v,
        Err(e) => return Err(e),
    };
    let ghost es = entries@.map_values(|e: TLV8Entry| entry_view(e));
    let ghost dv = match data {
        Some(t) => Some(t@),
        None => None,
    };
    assert(es.skip(0) =~= es);
    let mut i: usize = 0;
    while i < entries.len()
        invariant
            i <= entries@.len(),
            es == entries@.map_values(|e: TLV8Entry| entry_view(e)),
            reply_records(dv) == Ok::<Seq<(PairingDataComponentType, Seq<u8>)>, IdeviceError>(es),
            dv == match data {
                Some(t) => Some(t@),
                None => None::<Seq<char>>,
            },
            first_record(es, PairingDataComponentType::PublicKey) == first_record(
                es.skip(i as int),
                PairingDataComponentType::PublicKey,
            ),
        decreases entries@.len() - i,
    {
        let ghost rest = es.skip(i as int);
        assert(rest[0] == entry_view(entries@[i as int]));
        assert(rest.skip(1) =~= es.skip(i + 1));
        if entries[i].tlv_type == PairingDataComponentType::PublicKey {
            let key = &entries[i].data;
            if key.len() != 32 {
                return Err(IdeviceError::NotEnoughBytes(32, key.len()));
            }
            let mut out = [0u8; 32];
            let mut k: usize = 0;
            while k < 32
                invariant
                    key@.len() == 32,
                    k <= 32,
                    forall|m: int| 0 <= m < k ==> out@[m] == key@[m],
                decreases 32 - k,
            {
                out[k] = key[k];
                k = k + 1;
            }
            assert(out@ =~= key@);
            return Ok(out);
        }
        i = i + 1;
    }
    assert(es.skip(i as int) =~= Seq::<(PairingDataComponentType, Seq<u8>)>::empty());
    Err(IdeviceError::UnexpectedResponse)
}

/// The base64 data of the message that finishes verification: state 3 and
/// the identifier and the signature over the two public keys and the
/// identifier, encrypted with the key derived from the shared secret.
pub fn verify_finish_data(pairing: &RpPairingFile, device_public_key: &[u8; 32]) -> (r: String)
    requires
        utf8_bytes(pairing.identifier@).len() + 68 <= 0xFFFF_FFFF,
        4 * ((utf8_bytes(pairing.identifier@).len() + 91) / 3) <= usize::MAX,
    ensures
        r@ == base64_text(tlv8_encoding(verify_finish_records(*pairing, device_public_key@))),
{
    let ghost id_len = utf8_bytes(pairing.identifier@).len();
    assert(id_len + 89 <= usize::MAX) by (nonlinear_arith)
        requires
            4 * ((id_len + 91) / 3) <= usize::MAX,
    ;
    let shared = x25519_shared_secret(&pairing.x_private_key, device_public_key);
    let salt = "Pair-Verify-Encrypt-Salt".as_bytes();
    let info = "Pair-Verify-Encrypt-Info".as_bytes();
    let key = hkdf_sha512_expand(salt, &shared, info);
    let id = utf8_encode(pairing.identifier.as_str());
    let mut signbuf: Vec<u8> = vstd::slice::slice_to_vec(&pairing.x_public_key);
    crate::bytes::append_bytes(&mut signbuf, id.as_slice());
    crate::bytes::append_bytes(&mut signbuf, device_public_key);
    let signature = ed25519_sign(&pairing.e_private_key, signbuf.as_slice());
    let plain_entries = vec![
        TLV8Entry { tlv_type: PairingDataComponentType::Identifier, data: id },
        TLV8Entry {
            tlv_type: PairingDataComponentType::Signature,
            data: vstd::slice::slice_to_vec(&signature),
        },
    ];
    let ghost plain_records = seq![
        (PairingDataComponentType::Identifier, utf8_bytes(pairing.identifier@)),
        (
            PairingDataComponentType::Signature,
            ed25519_signature(pairing.e_private_key@, verify_signing_input(*pairing, device_public_key@)),
        ),
    ];
    assert(plain_entries@.map_values(|e: TLV8Entry| entry_view(e)) =~= plain_records);
    proof {
        lemma_short_encoding(plain_records);
    }
    let plaintext = serialize_tlv8(plain_entries.as_slice());
    let nonce: [u8; 12] = [0, 0, 0, 0, 0x50, 0x56, 0x2D, 0x4D, 0x73, 0x67, 0x30, 0x33];
    assert(nonce@ =~= verify_nonce());
    let aad: [u8; 0] = [];
    assert(aad@ =~= Seq::<u8>::empty());
    let ciphertext = chacha20poly1305_encrypt(&key, &nonce, plaintext.as_slice(), &aad);
    let msg_entries = vec![
        TLV8Entry::m(3),
        TLV8Entry { tlv_type: PairingDataComponentType::EncryptedData, data: ciphertext },
    ];
    assert(msg_entries@.map_values(|e: TLV8Entry| entry_view(e)) =~= verify_finish_records(
        *pairing,
        device_public_key@,
    ));
    proof {
        lemma_short_encoding(verify_finish_records(*pairing, device_public_key@));
    }
    let msg = serialize_tlv8(msg_entries.as_slice());
    base64_encode(msg.as_slice())
}

/// Whether the device's reply to the finishing message reports an error.
pub open spec fn verify_rejected(es: Seq<(PairingDataComponentType, Seq<u8>)>) -> bool {
    exists|i: int| 0 <= i < es.len() && (#[trigger] es[i]).0 == PairingDataComponentType::ErrorResponse
}

/// Whether the device accepted the verification, from its reply to the
/// finishing message: false when the reply has an error record.
///
/// Fails as reading the device's public key does when the reply's data
/// text is missing or does not decode.
pub fn verify_accepted(data: Option<&str>) -> (r: Result<bool, IdeviceError>)
    ensures
        match reply_records(
            match data {
                Some(t) => Some(t@),
                None => None,
            },
        ) {
            Ok(es) => r == Ok::<bool, IdeviceError>(!verify_rejected(es)),
            Err(e) => r matches Err(x) && x == e,
        },
{
    let entries = match read_reply(data) {
        Ok(v) => v,
        Err(e) => return Err(e),
    };
    let ghost es = entries@.map_values(|e: TLV8Entry| entry_view(e));
    let ghost dv = match data {
        Some(t) => Some(t@),
        None => None,
    };
    let mut i: usize = 0;
    while i < entries.len()
        invariant
            i <= entries@.len(),
            es == entries@.map_values(|e: TLV8Entry| entry_view(e)),
            reply_records(dv) == Ok::<Seq<(PairingDataComponentType, Seq<u8>)>, IdeviceError>(es),
            dv == match data {
                Some(t) => Some(t@),
                None => None::<Seq<char>>,
            },
            forall|k: int| 0 <= k < i ==> (#[trigger] es[k]).0 != PairingDataComponentType::ErrorResponse,
        decreases entries@.len() - i,
    {
        assert(es[i as int] == entry_view(entries@[i as int]));
        if entries[i].tlv_type == PairingDataComponentType::ErrorResponse {
            return Ok(false);
        }
        i = i + 1;
    }
    Ok(true)
}

} // verus!
