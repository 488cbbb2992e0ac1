//! The cryptographic primitives of SNSP, called from their outside crates.
//!
//! Each primitive is a function of its arguments alone (key generation
//! aside), so its result is given a name here; the facts stated beside a name
//! are the ones the primitives' documentation gives. Base64 is stated in
//! full.

use vstd::prelude::*;
use sha3::Digest;
use ed25519_dalek::{Signer, Verifier};
use aes_gcm_siv::aead::{Aead, KeyInit};
use base64::Engine;

verus! {

/// The SHA3-256 digest of the data.
pub uninterp spec fn sha3_256_digest(data: Seq<u8>) -> Seq<u8>;

/// The Ed25519 public key of a 32-byte secret key.
pub uninterp spec fn ed25519_public_key(secret: Seq<u8>) -> Seq<u8>;

/// The Ed25519 signature of a message under a 32-byte secret key.
pub uninterp spec fn ed25519_signature(secret: Seq<u8>, message: Seq<u8>) -> Seq<u8>;

/// Whether 32 bytes decode to an Ed25519 public key.
pub uninterp spec fn ed25519_key_valid(public: Seq<u8>) -> bool;

/// Whether a 64-byte signature of a message verifies under a public key.
pub uninterp spec fn ed25519_accepts(public: Seq<u8>, message: Seq<u8>, signature: Seq<u8>) -> bool;

/// The X25519 public key of a 32-byte secret.
pub uninterp spec fn x25519_public_key(secret: Seq<u8>) -> Seq<u8>;

/// The X25519 shared secret of a secret and a peer's public key.
pub uninterp spec fn x25519_shared(secret: Seq<u8>, public: Seq<u8>) -> Seq<u8>;

/// The AES-256-GCM-SIV sealed text (ciphertext, then tag) of a plaintext
/// under a key and a 12-byte nonce, with no associated data, as the
/// algorithm defines it. `Aes256GcmSiv` computes it only for plaintexts of
/// at most `aes_gcm_siv_plaintext_max()` bytes.
pub uninterp spec fn aes_gcm_siv_seal(key: Seq<u8>, nonce: Seq<u8>, plaintext: Seq<u8>) -> Seq<u8>;

/// The character of the standard base64 alphabet (RFC 4648) for a 6-bit
/// value: `A`-`Z`, `a`-`z`, `0`-`9`, `+`, `/`.
pub open spec fn base64_char(v: nat) -> char {
    if v < 26 {
        ('A' as nat + v) as char
    } else if v < 52 {
        ('a' as nat + (v - 26)) as char
    } else if v < 62 {
        ('0' as nat + (v - 52)) as char
    } else if v == 62 {
        '+'
    } else {
        '/'
    }
}

/// The standard padded base64 text of bytes (RFC 4648): every three bytes
/// give four characters, six bits each; a last group of one or two bytes
/// gives two or three characters, padded with `=` to four.
pub open spec fn base64_standard(bytes: Seq<u8>) -> Seq<char>
    decreases bytes.len(),
{
    if bytes.len() == 0 {
        Seq::empty()
    } else if bytes.len() == 1 {
        let x = bytes[0] as nat;
        seq![base64_char(x / 4), base64_char((x % 4) * 16), '=', '=']
    } else if bytes.len() == 2 {
        let x = bytes[0] as nat;
        let y = bytes[1] as nat;
        seq![base64_char(x / 4), base64_char((x % 4) * 16 + y / 16), base64_char((y % 16) * 4), '=']
    } else {
        let x = bytes[0] as nat;
        let y = bytes[1] as nat;
        let z = bytes[2] as nat;
        seq![base64_char(x / 4), base64_char((x % 4) * 16 + y / 16), base64_char((y % 16) * 4 + z / 64), base64_char(z % 64)]
            + base64_standard(bytes.skip(3))
    }
}

/// The largest plaintext AES-GCM-SIV accepts, in bytes.
pub open spec fn aes_gcm_siv_plaintext_max() -> nat {
    0x10_0000_0000
}

/// Trusted: `sha3::Sha3_256` fed the data, then finalized; the result is
/// the digest of the data.
#[verifier::external_body]
pub(crate) fn sha3_256(data: &[u8]) -> (d: [u8; 32])
    ensures
        d@ == sha3_256_digest(data@),
{
    let mut hasher = sha3::Sha3_256::new();
    hasher.update(data);
    hasher.finalize().into()
}

/// Trusted: `ed25519_dalek::SigningKey::generate` with the operating
/// system's random source; nothing is claimed of the secret it returns.
#[verifier::external_body]
pub(crate) fn ed25519_generate_secret() -> (secret: [u8; 32]) {
    ed25519_dalek::SigningKey::generate(&mut rand_core::OsRng).to_bytes()
}

/// Trusted: `SigningKey::verifying_key`; the result is the public key of the
/// secret, and it decodes as a public key.
#[verifier::external_body]
pub(crate) fn ed25519_public(secret: &[u8; 32]) -> (public: [u8; 32])
    ensures
        public@ == ed25519_public_key(secret@),
        ed25519_key_valid(public@),
{
    ed25519_dalek::SigningKey::from_bytes(secret).verifying_key().to_bytes()
}

/// Trusted: `SigningKey::sign`; the result is the signature of the message,
/// and it verifies under the secret's public key.
#[verifier::external_body]
pub(crate) fn ed25519_sign(secret: &[u8; 32], message: &[u8]) -> (signature: [u8; 64])
    ensures
        signature@ == ed25519_signature(secret@, message@),
        ed25519_accepts(ed25519_public_key(secret@), message@, signature@),
{
    ed25519_dalek::SigningKey::from_bytes(secret).sign(message).to_bytes()
}

/// Trusted: `VerifyingKey::from_bytes` succeeds exactly for the bytes named
/// valid.
#[verifier::external_body]
pub(crate) fn ed25519_check_key(public: &[u8; 32]) -> (valid: bool)
    ensures
        valid == ed25519_key_valid(public@),
{
    ed25519_dalek::VerifyingKey::from_bytes(public).is_ok()
}

/// Trusted: `VerifyingKey::verify` of a `Signature` read from 64 bytes; it
/// succeeds exactly when the signature is named accepted.
#[verifier::external_body]
pub(crate) fn ed25519_verify(public: &[u8; 32], message: &[u8], signature: &[u8; 64]) -> (ok: bool)
    requires
        ed25519_key_valid(public@),
    ensures
        ok == ed25519_accepts(public@, message@, signature@),
{
    match ed25519_dalek::VerifyingKey::from_bytes(public) {
        Ok(key) => key.verify(message, &ed25519_dalek::Signature::from_bytes(signature)).is_ok(),
        Err(_) => false,
    }
}

/// Trusted: `x25519_dalek::PublicKey::from(&StaticSecret)`; the result is the
/// public key of the secret, and Diffie-Hellman agreement holds: a peer's
/// secret combined with this public key gives what this secret combined with
/// the peer's public key gives.
#[verifier::external_body]
pub(crate) fn x25519_public(secret: &[u8; 32]) -> (public: [u8; 32])
    ensures
        public@ == x25519_public_key(secret@),
        forall|peer: Seq<u8>|
            peer.len() == 32 ==> #[trigger] x25519_shared(peer, public@) == x25519_shared(
                secret@,
                x25519_public_key(peer),
            ),
{
    x25519_dalek::PublicKey::from(&x25519_dalek::StaticSecret::from(*secret)).to_bytes()
}

/// Trusted: `StaticSecret::diffie_hellman`; the result is the shared secret.
#[verifier::external_body]
pub(crate) fn x25519_agree(secret: &[u8; 32], public: &[u8; 32]) -> (shared: [u8; 32])
    ensures
        shared@ == x25519_shared(secret@, public@),
{
    let secret = x25519_dalek::StaticSecret::from(*secret);
    let public = x25519_dalek::PublicKey::from(*public);
    secret.diffie_hellman(&public).to_bytes()
}

/// Trusted: `Aes256GcmSiv::encrypt` with no associated data; it fails
/// exactly when the plaintext is longer than 2^36 bytes, and otherwise
/// returns the sealed text.
#[verifier::external_body]
pub(crate) fn aes_seal(key: &[u8; 32], nonce: &[u8; 12], plaintext: &[u8]) -> (sealed: Option<Vec<u8>>)
    ensures
        sealed is Some <==> plaintext@.len() <= aes_gcm_siv_plaintext_max(),
        sealed is Some ==> sealed->0@ == aes_gcm_siv_seal(key@, nonce@, plaintext@),
{
    let cipher = aes_gcm_siv::Aes256GcmSiv::new(key.into());
    cipher.encrypt(aes_gcm_siv::Nonce::from_slice(nonce), plaintext).ok()
}

/// Trusted: `Aes256GcmSiv::decrypt` with no associated data; what it returns
/// is a plaintext whose sealed text is the input, and it returns the
/// plaintext on the sealed text of every plaintext of at most
/// `aes_gcm_siv_plaintext_max()` bytes. (A sealed text whose part before
/// the tag is longer than the crate's `C_MAX`, which is `P_MAX` plus 16, is
/// refused whatever it holds.)
#[verifier::external_body]
pub(crate) fn aes_open(key: &[u8; 32], nonce: &[u8; 12], sealed: &[u8]) -> (plaintext: Option<Vec<u8>>)
    ensures
        plaintext is Some ==> aes_gcm_siv_seal(key@, nonce@, plaintext->0@) == sealed@,
        forall|p: Seq<u8>|
            p.len() <= aes_gcm_siv_plaintext_max() && #[trigger] aes_gcm_siv_seal(key@, nonce@, p) == sealed@
                ==> plaintext is Some && plaintext->0@ == p,
{
    let cipher = aes_gcm_siv::Aes256GcmSiv::new(key.into());
    cipher.decrypt(aes_gcm_siv::Nonce::from_slice(nonce), sealed).ok()
}

/// Trusted: `base64::engine::general_purpose::STANDARD.encode`, the
/// standard alphabet with padding, as RFC 4648 defines the encoding.
#[verifier::external_body]
pub(crate) fn base64_encode(bytes: &[u8]) -> (text: String)
    ensures
        text@ == base64_standard(bytes@),
{
    base64::engine::general_purpose::STANDARD.encode(bytes)
}

} // verus!
