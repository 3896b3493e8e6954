use zero2prod::signing::SignedTokenCodec;

fn codec() -> SignedTokenCodec {
    SignedTokenCodec::new(vec![7u8; 64]).unwrap()
}

#[test]
fn short_secrets_are_refused() {
    assert!(SignedTokenCodec::new(vec![1u8; 31]).is_none());
    assert!(SignedTokenCodec::new(vec![1u8; 32]).is_some());
}

#[test]
fn sign_matches_the_rfc_4231_vector() {
    let c = SignedTokenCodec::new(vec![0xaau8; 131]).unwrap();
    let tag = c.sign(b"Test Using Larger Than Block-Size Key - Hash Key First");
    let hex: String = tag.iter().map(|b| format!("{:02x}", b)).collect();
    assert_eq!(hex, "60e431591ee0b67f0d8a26aacbf5b77f8e0bc6213728c5140546040f0ee37f54");
}

#[test]
fn a_signed_payload_verifies() {
    let c = codec();
    let tag = c.sign(b"Authentication failed");
    assert_eq!(tag.len(), 32);
    assert!(c.verify(b"Authentication failed", &tag));
    assert!(!c.verify(b"Authentication failes", &tag));
}

#[test]
fn every_flipped_tag_bit_is_detected() {
    let c = codec();
    for payload in [&b""[..], &b"x"[..], &b"<script>alert(1)</script>"[..]] {
        let tag = c.sign(payload);
        for i in 0..tag.len() {
            for bit in 0..8 {
                let mut forged = tag.clone();
                forged[i] ^= 1u8 << bit;
                assert!(!c.verify(payload, &forged));
            }
        }
    }
}

#[test]
fn another_secret_gives_another_tag() {
    let other = SignedTokenCodec::new(vec![8u8; 64]).unwrap();
    let tag = codec().sign(b"hello");
    assert!(!other.verify(b"hello", &tag));
    assert!(!codec().verify(b"hello", &tag[..31]));
}
