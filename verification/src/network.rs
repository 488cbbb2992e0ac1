//! SNSP wire formats: transport frames and RPC envelopes.

use vstd::prelude::*;
use vstd::utf8::*;
use crate::codec::{
    be_bytes, be_value, copy_range, lemma_be_bytes_len, lemma_be_roundtrip, lemma_be_value_bound,
    lemma_be_value_roundtrip, pow256, push_all, push_be, read_be,
};

verus! {

broadcast use vstd::utf8::group_utf8_lib;

/// The kind of a transport frame, carried in the header's flags byte.
#[derive(Debug, Clone, Copy, PartialEq, Eq, Structural)]
pub enum FrameKind {
    Open,
    Data,
    Close,
    Rpc,
    Ack,
}

/// The flags byte of each frame kind.
pub open spec fn frame_kind_code(kind: FrameKind) -> u8 {
    match kind {
        FrameKind::Open => 0x01,
        FrameKind::Data => 0x02,
        FrameKind::Close => 0x04,
        FrameKind::Rpc => 0x08,
        FrameKind::Ack => 0x10,
    }
}

impl FrameKind {
    /// The flags byte of this frame kind.
    pub fn code(&self) -> (c: u8)
        ensures
            c == frame_kind_code(*self),
    {
        match self {
            FrameKind::Open => 0x01,
            FrameKind::Data => 0x02,
            FrameKind::Close => 0x04,
            FrameKind::Rpc => 0x08,
            FrameKind::Ack => 0x10,
        }
    }
}

/// The fixed 12-byte header of a transport frame.
#[derive(Debug, Clone, Copy, PartialEq, Eq, Structural)]
pub struct FrameHeader {
    pub version: u8,
    pub flags: u8,
    pub stream_id: u32,
    pub method: u16,
    pub length: u32,
}

/// A transport frame: a header followed by `header.length` payload bytes.
#[derive(Debug, Clone)]
pub struct Frame {
    pub header: FrameHeader,
    pub payload: Vec<u8>,
}

/// Why bytes could not be decoded.
#[derive(Debug, Clone, Copy, PartialEq, Eq, Structural)]
pub enum WireError {
    /// A frame needs at least 12 header bytes.
    FrameTooShort,
    /// The payload is not as long as the header says.
    FrameLengthMismatch,
    /// An RPC envelope needs at least the 2-byte method length.
    RpcTooShort,
    /// The method length runs past the end of the envelope.
    RpcMethodOutOfRange,
    /// The method name is not valid UTF-8.
    RpcMethodNotUtf8,
}

/// The bytes of a frame: version, flags, then stream id, method and length
/// in big-endian order, then the payload.
pub open spec fn frame_encoding(h: FrameHeader, payload: Seq<u8>) -> Seq<u8> {
    seq![h.version, h.flags] + be_bytes(h.stream_id as nat, 4) + be_bytes(h.method as nat, 2)
        + be_bytes(h.length as nat, 4) + payload
}

/// What decoding the bytes gives: the header and payload, or the error.
pub open spec fn frame_decoding(bytes: Seq<u8>) -> Result<(FrameHeader, Seq<u8>), WireError> {
    if bytes.len() < 12 {
        Err(WireError::FrameTooShort)
    } else {
        let h = FrameHeader {
            version: bytes[0],
            flags: bytes[1],
            stream_id: be_value(bytes.subrange(2, 6)) as u32,
            method: be_value(bytes.subrange(6, 8)) as u16,
            length: be_value(bytes.subrange(8, 12)) as u32,
        };
        if be_value(bytes.subrange(8, 12)) != bytes.len() - 12 {
            Err(WireError::FrameLengthMismatch)
        } else {
            Ok((h, bytes.subrange(12, bytes.len() as int)))
        }
    }
}

impl Frame {
    /// A version-1 frame of the given kind whose length field is the payload
    /// length (truncated to 32 bits).
    pub fn new(kind: FrameKind, stream_id: u32, method: u16, payload: Vec<u8>) -> (f: Self)
        ensures
            f.header == (FrameHeader {
                version: 1,
                flags: frame_kind_code(kind),
                stream_id,
                method,
                length: payload@.len() as u32,
            }),
            f.payload@ == payload@,
    {
        let length = payload.len() as u32;
        Frame {
            header: FrameHeader { version: 1, flags: kind.code(), stream_id, method, length },
            payload,
        }
    }

    /// The wire bytes of the frame.
    pub fn encode(&self) -> (bytes: Vec<u8>)
        ensures
            bytes@ == frame_encoding(self.header, self.payload@),
    {
        let mut bytes: Vec<u8> = Vec::new();
        bytes.push(self.header.version);
        bytes.push(self.header.flags);
        push_be(&mut bytes, self.header.stream_id as u64, 4);
        push_be(&mut bytes, self.header.method as u64, 2);
        push_be(&mut bytes, self.header.length as u64, 4);
        push_all(&mut bytes, self.payload.as_slice());
        assert(bytes@ =~= frame_encoding(self.header, self.payload@));
        bytes
    }

    /// Parses wire bytes into a frame.
    pub fn decode(bytes: &[u8]) -> (r: Result<Self, WireError>)
        ensures
            match r {
                Ok(f) => frame_decoding(bytes@) == Ok::<(FrameHeader, Seq<u8>), WireError>((f.header, f.payload@)),
                Err(e) => frame_decoding(bytes@) == Err::<(FrameHeader, Seq<u8>), WireError>(e),
            },
    {
        if bytes.len() < 12 {
            return Err(WireError::FrameTooShort);
        }
        let version = bytes[0];
        let flags = bytes[1];
        let stream_id = read_be(bytes, 2, 4) as u32;
        let method = read_be(bytes, 6, 2) as u16;
        let length64 = read_be(bytes, 8, 4);
        let length = length64 as u32;
        if length64 != (bytes.len() - 12) as u64 {
            return Err(WireError::FrameLengthMismatch);
        }
        let payload = copy_range(bytes, 12, bytes.len());
        Ok(Frame { header: FrameHeader { version, flags, stream_id, method, length }, payload })
    }
}

/// Decoding the encoding of a frame whose length field matches its payload
/// gives the frame back.
pub proof fn lemma_frame_decode_encode(h: FrameHeader, payload: Seq<u8>)
    requires
        h.length == payload.len(),
    ensures
        frame_decoding(frame_encoding(h, payload)) == Ok::<(FrameHeader, Seq<u8>), WireError>((h, payload)),
{
    let b = frame_encoding(h, payload);
    lemma_be_bytes_len(h.stream_id as nat, 4);
    lemma_be_bytes_len(h.method as nat, 2);
    lemma_be_bytes_len(h.length as nat, 4);
    assert(pow256(4) == 4294967296 && pow256(2) == 65536) by {
        reveal_with_fuel(pow256, 5);
    }
    assert(b.subrange(2, 6) =~= be_bytes(h.stream_id as nat, 4));
    assert(b.subrange(6, 8) =~= be_bytes(h.method as nat, 2));
    assert(b.subrange(8, 12) =~= be_bytes(h.length as nat, 4));
    assert(b.subrange(12, b.len() as int) =~= payload);
    lemma_be_roundtrip(h.stream_id as nat, 4);
    lemma_be_roundtrip(h.method as nat, 2);
    lemma_be_roundtrip(h.length as nat, 4);
}

/// Bytes that decode to a frame are exactly that frame's encoding.
pub proof fn lemma_frame_encode_decode(bytes: Seq<u8>)
    requires
        frame_decoding(bytes) is Ok,
    ensures
        frame_encoding(frame_decoding(bytes)->Ok_0.0, frame_decoding(bytes)->Ok_0.1) == bytes,
{
    let (h, p) = frame_decoding(bytes)->Ok_0;
    lemma_be_value_bound(bytes.subrange(2, 6));
    lemma_be_value_bound(bytes.subrange(6, 8));
    lemma_be_value_bound(bytes.subrange(8, 12));
    assert(pow256(4) == 4294967296 && pow256(2) == 65536) by {
        reveal_with_fuel(pow256, 5);
    }
    lemma_be_value_roundtrip(bytes.subrange(2, 6));
    lemma_be_value_roundtrip(bytes.subrange(6, 8));
    lemma_be_value_roundtrip(bytes.subrange(8, 12));
    assert(frame_encoding(h, p) =~= bytes);
}

/// Four bytes read most significant first.
proof fn lemma_be_value_four(s: Seq<u8>)
    requires
        s.len() == 4,
    ensures
        be_value(s) == s[0] as int * 16777216 + s[1] as int * 65536 + s[2] as int * 256 + s[3] as int,
{
    let s3 = s.drop_last();
    let s2 = s3.drop_last();
    let s1 = s2.drop_last();
    let s0 = s1.drop_last();
    assert(s0.len() == 0);
    assert(s1.last() == s[0] && s2.last() == s[1] && s3.last() == s[2] && s.last() == s[3]);
    assert(be_value(s0) == 0);
    assert(be_value(s1) == s[0] as nat);
    assert(be_value(s2) == s[0] as nat * 256 + s[1] as nat);
    assert(be_value(s3) == (s[0] as nat * 256 + s[1] as nat) * 256 + s[2] as nat);
}

/// Two bytes read most significant first.
proof fn lemma_be_value_two(s: Seq<u8>)
    requires
        s.len() == 2,
    ensures
        be_value(s) == s[0] as int * 256 + s[1] as int,
{
    let s1 = s.drop_last();
    let s0 = s1.drop_last();
    assert(s0.len() == 0);
    assert(s1.last() == s[0] && s.last() == s[1]);
    assert(be_value(s0) == 0);
    assert(be_value(s1) == s[0] as nat);
}

/// The wire layout of a frame: the version, the flags, then the stream id
/// in bytes 2 to 5, the method in bytes 6 and 7 and the payload length in
/// bytes 8 to 11, each most significant byte first, then the payload.
pub proof fn lemma_frame_layout(h: FrameHeader, payload: Seq<u8>)
    ensures
        ({
            let b = frame_encoding(h, payload);
            &&& b.len() == 12 + payload.len()
            &&& b[0] == h.version
            &&& b[1] == h.flags
            &&& b[2] as int * 16777216 + b[3] as int * 65536 + b[4] as int * 256 + b[5] as int == h.stream_id
            &&& b[6] as int * 256 + b[7] as int == h.method
            &&& b[8] as int * 16777216 + b[9] as int * 65536 + b[10] as int * 256 + b[11] as int == h.length
            &&& b.subrange(12, b.len() as int) == payload
        }),
{
    let b = frame_encoding(h, payload);
    lemma_be_bytes_len(h.stream_id as nat, 4);
    lemma_be_bytes_len(h.method as nat, 2);
    lemma_be_bytes_len(h.length as nat, 4);
    assert(pow256(4) == 4294967296 && pow256(2) == 65536) by {
        reveal_with_fuel(pow256, 5);
    }
    let sid = b.subrange(2, 6);
    let m = b.subrange(6, 8);
    let len = b.subrange(8, 12);
    assert(sid =~= be_bytes(h.stream_id as nat, 4));
    assert(m =~= be_bytes(h.method as nat, 2));
    assert(len =~= be_bytes(h.length as nat, 4));
    assert(b.subrange(12, b.len() as int) =~= payload);
    lemma_be_roundtrip(h.stream_id as nat, 4);
    lemma_be_roundtrip(h.method as nat, 2);
    lemma_be_roundtrip(h.length as nat, 4);
    lemma_be_value_four(sid);
    lemma_be_value_two(m);
    lemma_be_value_four(len);
    assert(sid[0] == b[2] && sid[1] == b[3] && sid[2] == b[4] && sid[3] == b[5]);
    assert(m[0] == b[6] && m[1] == b[7]);
    assert(len[0] == b[8] && len[1] == b[9] && len[2] == b[10] && len[3] == b[11]);
}

/// A remote procedure call: a method name and an opaque payload.
#[derive(Debug, Clone)]
pub struct RpcEnvelope {
    pub method: String,
    pub payload: Vec<u8>,
}

/// The bytes of an envelope: the UTF-8 length of the method name (truncated
/// to 16 bits) in big-endian order, the method name, then the payload.
pub open spec fn rpc_encoding(method: Seq<char>, payload: Seq<u8>) -> Seq<u8> {
    be_bytes(encode_utf8(method).len() % 65536, 2) + encode_utf8(method) + payload
}

/// What decoding the bytes gives: the method name and payload, or the error.
pub open spec fn rpc_decoding(bytes: Seq<u8>) -> Result<(Seq<char>, Seq<u8>), WireError> {
    if bytes.len() < 2 {
        Err(WireError::RpcTooShort)
    } else {
        let n = be_value(bytes.subrange(0, 2)) as int;
        if bytes.len() < 2 + n {
            Err(WireError::RpcMethodOutOfRange)
        } else if !valid_utf8(bytes.subrange(2, 2 + n)) {
            Err(WireError::RpcMethodNotUtf8)
        } else {
            Ok((decode_utf8(bytes.subrange(2, 2 + n)), bytes.subrange(2 + n, bytes.len() as int)))
        }
    }
}

/// Builds a string from UTF-8 bytes, or nothing when they are not UTF-8.
///
/// Trusted: `String::from_utf8`, which std documents as returning the string
/// with those bytes when they are valid UTF-8 and an error otherwise.
#[verifier::external_body]
fn string_from_utf8(bytes: Vec<u8>) -> (s: Option<String>)
    ensures
        s is Some <==> valid_utf8(bytes@),
        s is Some ==> s->0@ == decode_utf8(bytes@),
{
    String::from_utf8(bytes).ok()
}

impl RpcEnvelope {
    /// The wire bytes of the envelope.
    pub fn encode(&self) -> (bytes: Vec<u8>)
        ensures
            bytes@ == rpc_encoding(self.method@, self.payload@),
    {
        let mut bytes: Vec<u8> = Vec::new();
        let method = self.method.as_str().as_bytes();
        let n = method.len();
        let n16 = n as u16;
        assert(n16 == n % 65536) by (bit_vector)
            requires
                n16 == n as u16,
        ;
        push_be(&mut bytes, n16 as u64, 2);
        push_all(&mut bytes, method);
        push_all(&mut bytes, self.payload.as_slice());
        proof {
            assert(method@ == encode_utf8(self.method@));
        }
        assert(bytes@ =~= rpc_encoding(self.method@, self.payload@));
        bytes
    }

    /// Parses wire bytes into an envelope.
    pub fn decode(bytes: &[u8]) -> (r: Result<Self, WireError>)
        ensures
            match r {
                Ok(e) => rpc_decoding(bytes@) == Ok::<(Seq<char>, Seq<u8>), WireError>((e.method@, e.payload@)),
                Err(err) => rpc_decoding(bytes@) == Err::<(Seq<char>, Seq<u8>), WireError>(err),
            },
    {
        if bytes.len() < 2 {
            return Err(WireError::RpcTooShort);
        }
        let method_len64 = read_be(bytes, 0, 2);
        proof {
            lemma_be_value_bound(bytes@.subrange(0, 2));
            assert(pow256(2) == 65536) by {
                reveal_with_fuel(pow256, 3);
            }
        }
        let method_len = method_len64 as usize;
        if bytes.len() < 2 + method_len {
            return Err(WireError::RpcMethodOutOfRange);
        }
        let raw = copy_range(bytes, 2, 2 + method_len);
        let method = match string_from_utf8(raw) {
            Some(m) => m,
            None => return Err(WireError::RpcMethodNotUtf8),
        };
        let payload = copy_range(bytes, 2 + method_len, bytes.len());
        Ok(RpcEnvelope { method, payload })
    }
}

/// Decoding the encoding of an envelope whose method name is shorter than
/// 65536 bytes gives the envelope back.
pub proof fn lemma_rpc_decode_encode(method: Seq<char>, payload: Seq<u8>)
    requires
        encode_utf8(method).len() < 65536,
    ensures
        rpc_decoding(rpc_encoding(method, payload)) == Ok::<(Seq<char>, Seq<u8>), WireError>((method, payload)),
{
    let m = encode_utf8(method);
    let b = rpc_encoding(method, payload);
    lemma_be_bytes_len(m.len() as nat, 2);
    assert(pow256(2) == 65536) by {
        reveal_with_fuel(pow256, 3);
    }
    assert(b.subrange(0, 2) =~= be_bytes(m.len() as nat, 2));
    lemma_be_roundtrip(m.len() as nat, 2);
    assert(b.subrange(2, 2 + m.len() as int) =~= m);
    assert(b.subrange(2 + m.len() as int, b.len() as int) =~= payload);
    encode_utf8_valid_utf8(method);
    encode_utf8_decode_utf8(method);
}

} // verus!

verus! {

use crate::crypto::{
    aes_gcm_siv_plaintext_max, aes_gcm_siv_seal, aes_open, aes_seal, base64_encode,
    base64_standard, ed25519_accepts, ed25519_check_key, ed25519_generate_secret,
    ed25519_key_valid, ed25519_public, ed25519_public_key, ed25519_sign, ed25519_signature,
    ed25519_verify, sha3_256, sha3_256_digest, x25519_agree, x25519_public, x25519_public_key,
    x25519_shared,
};

/// A long-term Ed25519 identity: a secret key and its public key.
#[derive(Debug)]
pub struct Identity {
    secret: [u8; 32],
    public: [u8; 32],
}

impl Identity {
    #[verifier::type_invariant]
    spec fn keys_match(&self) -> bool {
        &&& self.public@ == ed25519_public_key(self.secret@)
        &&& ed25519_key_valid(self.public@)
    }

    /// The 32 secret key bytes.
    pub closed spec fn secret_bytes(&self) -> Seq<u8> {
        self.secret@
    }

    /// A fresh identity from the operating system's random source: whatever
    /// secret is drawn, 32 bytes, whose public key is a valid Ed25519 key.
    pub fn generate() -> (id: Self)
        ensures
            id.secret_bytes().len() == 32,
            ed25519_key_valid(ed25519_public_key(id.secret_bytes())),
    {
        let secret = ed25519_generate_secret();
        let public = ed25519_public(&secret);
        let id = Identity { secret, public };
        proof {
            use_type_invariant(&id);
            vstd::array::array_len_matches_n(&id.secret);
        }
        id
    }

    /// The standard base64 text of the public key.
    pub fn public_id(&self) -> (text: String)
        ensures
            text@ == base64_standard(ed25519_public_key(self.secret_bytes())),
    {
        proof {
            use_type_invariant(self);
        }
        base64_encode(&self.public)
    }

    /// The Ed25519 signature of a payload.
    pub fn sign(&self, payload: &[u8]) -> (signature: [u8; 64])
        ensures
            signature@ == ed25519_signature(self.secret_bytes(), payload@),
            ed25519_accepts(ed25519_public_key(self.secret_bytes()), payload@, signature@),
    {
        ed25519_sign(&self.secret, payload)
    }

    /// The 32 bytes of the public key.
    pub fn verifying_key(&self) -> (public: [u8; 32])
        ensures
            public@ == ed25519_public_key(self.secret_bytes()),
            ed25519_key_valid(public@),
    {
        proof {
            use_type_invariant(self);
        }
        self.public
    }
}

impl Clone for Identity {
    fn clone(&self) -> (c: Self)
        ensures
            c.secret_bytes() == self.secret_bytes(),
    {
        proof {
            use_type_invariant(self);
        }
        Identity { secret: self.secret, public: self.public }
    }
}

/// The opening message of a handshake: the initiator's identity key, its
/// ephemeral X25519 key, and its signature of the two keys.
#[derive(Debug, Clone)]
pub struct Hello {
    pub identity: [u8; 32],
    pub ephemeral_key: [u8; 32],
    pub signature: Vec<u8>,
}

/// The answer to a [`Hello`], with the responder's keys and signature.
#[derive(Debug, Clone)]
pub struct Accept {
    pub identity: [u8; 32],
    pub ephemeral_key: [u8; 32],
    pub signature: Vec<u8>,
}

/// Why a handshake message was refused.
#[derive(Debug, Clone, Copy, PartialEq, Eq, Structural)]
pub enum HandshakeError {
    /// The identity bytes are not an Ed25519 public key.
    InvalidIdentityKey,
    /// The signature is not 64 bytes long.
    InvalidSignatureLength,
    /// The signature does not verify.
    SignatureRejected,
}

/// The outcome of checking a handshake message: the identity key must be a
/// key, the signature 64 bytes, and it must verify over the identity key
/// followed by the ephemeral key.
pub open spec fn handshake_check(identity: Seq<u8>, ephemeral: Seq<u8>, signature: Seq<u8>) -> Result<(), HandshakeError> {
    if !ed25519_key_valid(identity) {
        Err(HandshakeError::InvalidIdentityKey)
    } else if signature.len() != 64 {
        Err(HandshakeError::InvalidSignatureLength)
    } else if !ed25519_accepts(identity, identity + ephemeral, signature) {
        Err(HandshakeError::SignatureRejected)
    } else {
        Ok(())
    }
}

fn check_signed_keys(identity: &[u8; 32], ephemeral: &[u8; 32], signature: &Vec<u8>) -> (r: Result<(), HandshakeError>)
    ensures
        r == handshake_check(identity@, ephemeral@, signature@),
{
    if !ed25519_check_key(identity) {
        return Err(HandshakeError::InvalidIdentityKey);
    }
    if signature.len() != 64 {
        return Err(HandshakeError::InvalidSignatureLength);
    }
    let mut sig = [0u8; 64];
    let mut i: usize = 0;
    while i < 64
        invariant
            i <= 64,
            signature@.len() == 64,
            forall|j: int| 0 <= j < i ==> sig@[j] == signature@[j],
        decreases 64 - i,
    {
        sig.set(i, signature[i]);
        i = i + 1;
    }
    assert(sig@ =~= signature@);
    let mut payload: Vec<u8> = Vec::new();
    crate::codec::push_all(&mut payload, identity);
    crate::codec::push_all(&mut payload, ephemeral);
    assert(payload@ =~= identity@ + ephemeral@);
    if ed25519_verify(identity, payload.as_slice(), &sig) {
        Ok(())
    } else {
        Err(HandshakeError::SignatureRejected)
    }
}

impl Hello {
    /// Checks the identity key and the signature of the two keys.
    pub fn verify(&self) -> (r: Result<(), HandshakeError>)
        ensures
            r == handshake_check(self.identity@, self.ephemeral_key@, self.signature@),
    {
        check_signed_keys(&self.identity, &self.ephemeral_key, &self.signature)
    }
}

impl Accept {
    /// Checks the identity key and the signature of the two keys.
    pub fn verify(&self) -> (r: Result<(), HandshakeError>)
        ensures
            r == handshake_check(self.identity@, self.ephemeral_key@, self.signature@),
    {
        check_signed_keys(&self.identity, &self.ephemeral_key, &self.signature)
    }
}

/// The identity key, the ephemeral public key, and the signature of the two
/// that a handshake message carries.
fn signed_keys(identity: &Identity, ephemeral: &[u8; 32]) -> (r: ([u8; 32], [u8; 32], Vec<u8>))
    ensures
        r.0@ == ed25519_public_key(identity.secret_bytes()),
        r.1@ == x25519_public_key(ephemeral@),
        r.2@ == ed25519_signature(identity.secret_bytes(), r.0@ + r.1@),
        handshake_check(r.0@, r.1@, r.2@) == Ok::<(), HandshakeError>(()),
{
    let ephemeral_key = x25519_public(ephemeral);
    let identity_bytes = identity.verifying_key();
    let mut payload: Vec<u8> = Vec::new();
    crate::codec::push_all(&mut payload, &identity_bytes);
    crate::codec::push_all(&mut payload, &ephemeral_key);
    assert(payload@ =~= identity_bytes@ + ephemeral_key@);
    let signature = identity.sign(payload.as_slice());
    let mut sig_vec: Vec<u8> = Vec::new();
    crate::codec::push_all(&mut sig_vec, &signature);
    assert(sig_vec@ =~= signature@);
    (identity_bytes, ephemeral_key, sig_vec)
}

/// The opening handshake message of an identity with an ephemeral secret.
pub fn hello(identity: &Identity, ephemeral: &[u8; 32]) -> (h: Hello)
    ensures
        h.identity@ == ed25519_public_key(identity.secret_bytes()),
        h.ephemeral_key@ == x25519_public_key(ephemeral@),
        h.signature@ == ed25519_signature(identity.secret_bytes(), h.identity@ + h.ephemeral_key@),
        handshake_check(h.identity@, h.ephemeral_key@, h.signature@) == Ok::<(), HandshakeError>(()),
{
    let (identity, ephemeral_key, signature) = signed_keys(identity, ephemeral);
    Hello { identity, ephemeral_key, signature }
}

/// The answering handshake message of an identity with an ephemeral secret.
pub fn accept(identity: &Identity, ephemeral: &[u8; 32]) -> (a: Accept)
    ensures
        a.identity@ == ed25519_public_key(identity.secret_bytes()),
        a.ephemeral_key@ == x25519_public_key(ephemeral@),
        a.signature@ == ed25519_signature(identity.secret_bytes(), a.identity@ + a.ephemeral_key@),
        handshake_check(a.identity@, a.ephemeral_key@, a.signature@) == Ok::<(), HandshakeError>(()),
{
    let (identity, ephemeral_key, signature) = signed_keys(identity, ephemeral);
    Accept { identity, ephemeral_key, signature }
}

/// An encrypted channel keyed by the SHA3-256 digest of an X25519 shared
/// secret.
#[derive(Debug, Clone)]
pub struct SecureChannel {
    key: [u8; 32],
}

/// The 12-byte nonce of a sequence number: four zero bytes, then the
/// sequence number in big-endian order.
pub open spec fn sequence_nonce(sequence: u64) -> Seq<u8> {
    seq![0u8, 0u8, 0u8, 0u8] + be_bytes(sequence as nat, 8)
}

fn nonce_from_sequence(sequence: u64) -> (nonce: [u8; 12])
    ensures
        nonce@ == sequence_nonce(sequence),
{
    let mut v: Vec<u8> = Vec::new();
    v.push(0);
    v.push(0);
    v.push(0);
    v.push(0);
    push_be(&mut v, sequence, 8);
    proof {
        lemma_be_bytes_len(sequence as nat, 8);
    }
    let mut nonce = [0u8; 12];
    let mut i: usize = 0;
    while i < 12
        invariant
            i <= 12,
            v@.len() == 12,
            v@ == sequence_nonce(sequence),
            forall|j: int| 0 <= j < i ==> nonce@[j] == v@[j],
        decreases 12 - i,
    {
        nonce.set(i, v[i]);
        i = i + 1;
    }
    assert(nonce@ =~= v@);
    nonce
}

/// Why a channel could not seal or open a message.
#[derive(Debug, Clone, Copy, PartialEq, Eq, Structural)]
pub enum ChannelError {
    /// The plaintext is longer than AES-GCM-SIV accepts.
    EncryptionFailed,
    /// The ciphertext is not the sealed text of any plaintext.
    DecryptionFailed,
}

impl SecureChannel {
    /// The channel key.
    pub closed spec fn key_bytes(&self) -> Seq<u8> {
        self.key@
    }

    /// The channel of a local X25519 secret and a remote public key: its key
    /// is the SHA3-256 digest of the shared secret.
    pub fn derive(local_secret: &[u8; 32], remote_public: [u8; 32]) -> (c: Self)
        ensures
            c.key_bytes() == sha3_256_digest(x25519_shared(local_secret@, remote_public@)),
    {
        let shared = x25519_agree(local_secret, &remote_public);
        let key = sha3_256(&shared);
        SecureChannel { key }
    }

    /// Seals a plaintext with the nonce of a sequence number.
    pub fn encrypt(&self, sequence: u64, plaintext: &[u8]) -> (r: Result<Vec<u8>, ChannelError>)
        ensures
            r is Ok <==> plaintext@.len() <= aes_gcm_siv_plaintext_max(),
            r is Ok ==> r->Ok_0@ == aes_gcm_siv_seal(self.key_bytes(), sequence_nonce(sequence), plaintext@),
            r is Err ==> r == Err::<Vec<u8>, ChannelError>(ChannelError::EncryptionFailed),
    {
        let nonce = nonce_from_sequence(sequence);
        match aes_seal(&self.key, &nonce, plaintext) {
            Some(sealed) => Ok(sealed),
            None => Err(ChannelError::EncryptionFailed),
        }
    }

    /// Opens a ciphertext sealed with the nonce of a sequence number.
    pub fn decrypt(&self, sequence: u64, ciphertext: &[u8]) -> (r: Result<Vec<u8>, ChannelError>)
        ensures
            r is Ok ==> aes_gcm_siv_seal(self.key_bytes(), sequence_nonce(sequence), r->Ok_0@) == ciphertext@,
            forall|p: Seq<u8>|
                p.len() <= aes_gcm_siv_plaintext_max()
                    && #[trigger] aes_gcm_siv_seal(self.key_bytes(), sequence_nonce(sequence), p) == ciphertext@
                    ==> r is Ok && r->Ok_0@ == p,
            r is Err ==> r == Err::<Vec<u8>, ChannelError>(ChannelError::DecryptionFailed),
    {
        let nonce = nonce_from_sequence(sequence);
        match aes_open(&self.key, &nonce, ciphertext) {
            Some(plain) => Ok(plain),
            None => Err(ChannelError::DecryptionFailed),
        }
    }
}

} // verus!

verus! {

/// The error of an input or output operation of std.
#[verifier::external_type_specification]
#[verifier::external_body]
pub struct ExIoError(std::io::Error);

/// A datagram transport: sends and receives whole frames of bytes.
pub trait Transport {
    /// Sends the bytes; gives how many were sent.
    fn send(&mut self, bytes: &[u8]) -> std::io::Result<usize>;

    /// Receives a datagram into the buffer; gives how many bytes it has.
    fn recv(&mut self, buffer: &mut [u8]) -> std::io::Result<usize>;
}

} // verus!
