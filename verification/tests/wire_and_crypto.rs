use snsx::codec::hex;
use snsx::network::{
    accept, hello, ChannelError, Frame, FrameKind, HandshakeError, Identity, RpcEnvelope, SecureChannel,
    WireError,
};

#[test]
fn frame_roundtrip() {
    let f = Frame::new(FrameKind::Rpc, 7, 513, vec![1, 2, 3]);
    let bytes = f.encode();
    let g = Frame::decode(&bytes).unwrap();
    assert_eq!(g.encode(), bytes);
    assert_eq!(g.payload, vec![1, 2, 3]);
}

#[test]
fn frame_decode_rejects_short_input() {
    assert_eq!(Frame::decode(&[1, 2]).err(), Some(WireError::FrameTooShort));
}

#[test]
fn rpc_roundtrip() {
    let e = RpcEnvelope { method: "ping".to_string(), payload: vec![9, 8] };
    let bytes = e.encode();
    assert_eq!(bytes, vec![0, 4, b'p', b'i', b'n', b'g', 9, 8]);
    let d = RpcEnvelope::decode(&bytes).unwrap();
    assert_eq!(d.method, "ping");
    assert_eq!(d.payload, vec![9, 8]);
    assert!(RpcEnvelope::decode(&[0]).is_err());
    assert!(RpcEnvelope::decode(&[0, 5, b'a']).is_err());
}

#[test]
fn hex_is_lowercase_pairs() {
    assert_eq!(hex(&[0x00, 0xab, 0x7f]), "00ab7f");
    assert_eq!(hex(&[]), "");
}

#[test]
fn signatures_and_handshake() {
    let id = Identity::generate();
    let sig = id.sign(b"payload");
    assert_eq!(sig.len(), 64);
    let eph = [5u8; 32];
    let h = hello(&id, &eph);
    assert!(h.verify().is_ok());
    let a = accept(&id, &eph);
    assert!(a.verify().is_ok());
    let other = Identity::generate();
    let mut forged = hello(&id, &eph);
    forged.signature = other.sign(b"nothing").to_vec();
    assert!(forged.verify().is_err());
    assert_eq!(forged.verify(), Err(HandshakeError::SignatureRejected));
    let mut short = hello(&id, &eph);
    short.signature = vec![1, 2, 3];
    assert_eq!(short.verify(), Err(HandshakeError::InvalidSignatureLength));
    assert_eq!(id.public_id().len(), 44);
}

#[test]
fn channel_peers_agree_and_roundtrip() {
    let a_secret = [1u8; 32];
    let b_secret = [2u8; 32];
    let a_public = x25519_dalek::PublicKey::from(&x25519_dalek::StaticSecret::from(a_secret)).to_bytes();
    let b_public = x25519_dalek::PublicKey::from(&x25519_dalek::StaticSecret::from(b_secret)).to_bytes();
    let a = SecureChannel::derive(&a_secret, b_public);
    let b = SecureChannel::derive(&b_secret, a_public);
    let sealed = a.encrypt(3, b"secret text").unwrap();
    assert_ne!(sealed, b"secret text".to_vec());
    assert_eq!(b.decrypt(3, &sealed).unwrap(), b"secret text".to_vec());
    assert_eq!(b.decrypt(4, &sealed), Err(ChannelError::DecryptionFailed));
}

#[test]
fn hello_with_a_non_key_identity_is_refused() {
    let mut refused = 0;
    for b in 0u8..=255 {
        let bytes = [b; 32];
        if ed25519_dalek::VerifyingKey::from_bytes(&bytes).is_err() {
            let h = snsx::network::Hello { identity: bytes, ephemeral_key: [7u8; 32], signature: vec![0u8; 64] };
            assert_eq!(h.verify(), Err(HandshakeError::InvalidIdentityKey));
            refused += 1;
        }
    }
    assert!(refused > 0);
}
