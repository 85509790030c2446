//! Tests of the leaf models: short strings, the feature collection bound,
//! and the peer-address payload codec.

use ergo_handshake::{
    FeaturesError, IpOctets, Mode, ModelParseError, PeerAddr, PeerFeature, ShortString,
};

/// A small deterministic generator standing in for the random inputs the
/// reference tests drew.
struct Lcg(u64);

impl Lcg {
    fn next(&mut self) -> u64 {
        self.0 = self.0.wrapping_mul(6364136223846793005).wrapping_add(1442695040888963407);
        self.0 >> 16
    }

    fn byte(&mut self) -> u8 {
        (self.next() % 256) as u8
    }

    fn port(&mut self) -> u16 {
        // ports below 128 encode in one byte, which the accepted payload
        // lengths exclude; the reference captures never carry them
        128 + (self.next() % (65536 - 128)) as u16
    }
}

fn put_u16_vlq(out: &mut Vec<u8>, v: u16) {
    let mut value = v as u64;
    loop {
        if value < 128 {
            out.push(value as u8);
            return;
        }
        out.push((value % 128 + 128) as u8);
        value /= 128;
    }
}

fn generate_random_peer_addr_bytes(lcg: &mut Lcg, ip_len: usize) -> Vec<u8> {
    let mut out = Vec::new();
    for _ in 0..ip_len {
        out.push(lcg.byte());
    }
    put_u16_vlq(&mut out, lcg.port());
    out
}

fn generate_random_addr(lcg: &mut Lcg, v4: bool) -> PeerAddr {
    let ip = if v4 {
        let mut a = [0u8; 4];
        for b in a.iter_mut() {
            *b = lcg.byte();
        }
        IpOctets::V4(a)
    } else {
        let mut a = [0u8; 16];
        for b in a.iter_mut() {
            *b = lcg.byte();
        }
        IpOctets::V6(a)
    };
    PeerAddr { ip, port: lcg.port() }
}

#[test]
fn test_serialize_valid_ip4_peer_addr() {
    let mut lcg = Lcg(11);
    for _ in 0..10 {
        let addr = generate_random_addr(&mut lcg, true);
        assert!(addr.try_into_vlq().is_ok());
    }
}

#[test]
fn test_serialize_valid_ip6_peer_addr() {
    let mut lcg = Lcg(12);
    for _ in 0..10 {
        let addr = generate_random_addr(&mut lcg, false);
        assert!(addr.try_into_vlq().is_ok());
    }
}

#[test]
fn test_parse_valid_ip4_peer_addr() {
    let mut lcg = Lcg(13);
    for _ in 0..10 {
        let data = generate_random_peer_addr_bytes(&mut lcg, 4);
        let peer_addr = PeerAddr::try_from_vlq(data);
        assert!(peer_addr.is_ok());
        assert!(peer_addr.expect("internal error: can't vlq decode peer addr").is_ipv4())
    }
}

#[test]
fn test_parse_valid_ip6_peer_addr() {
    let mut lcg = Lcg(14);
    for _ in 0..10 {
        let data = generate_random_peer_addr_bytes(&mut lcg, 16);
        let peer_addr = PeerAddr::try_from_vlq(data);
        assert!(peer_addr.is_ok());
        assert!(peer_addr.expect("internal error: can't vlq decode peer addr").is_ipv6())
    }
}

#[test]
fn test_parse_invalid_addr_len() {
    for len in 0..100 {
        // skip proper lengths
        if len == 6 || len == 7 || len == 18 || len == 19 {
            continue;
        }
        let bytes = vec![0; len];
        assert!(PeerAddr::try_from_vlq(bytes).is_err());
    }
}

#[test]
fn test_peer_addr_roundtrip() {
    let addr = PeerAddr { ip: IpOctets::V4([127, 0, 0, 1]), port: 9006 };
    let bytes = addr.try_into_vlq().expect("serialize failed");
    assert_eq!(bytes, vec![0x7f, 0x00, 0x00, 0x01, 0xae, 0x46]);
    let back = PeerAddr::try_from_vlq(bytes).expect("parse failed");
    assert_eq!(back, addr);
}

#[test]
fn test_peer_addr_invalid_length_error_value() {
    let r = PeerAddr::try_from_vlq(vec![0; 5]);
    assert_eq!(r.unwrap_err(), ModelParseError::InvalidPeerAddrLength(5));
}

#[test]
fn test_peer_addr_invalid_port_encoding() {
    // six bytes, but both port bytes carry the continuation bit
    let r = PeerAddr::try_from_vlq(vec![1, 2, 3, 4, 0x80, 0x80]);
    assert!(matches!(r, Err(ModelParseError::InvalidPortEncoding(_))));
    // a seven-byte payload whose port run exceeds a u16
    let r = PeerAddr::try_from_vlq(vec![1, 2, 3, 4, 0xff, 0xff, 0x7f]);
    assert!(matches!(r, Err(ModelParseError::InvalidPortEncoding(_))));
}

#[test]
fn test_short_string_length_bounds() {
    // 255 bytes succeed, 256 fail with the length error
    let ok = ShortString::try_from(vec![b'a'; 255]);
    assert!(ok.is_ok());
    assert_eq!(ok.expect("short string rejected").len(), 255);
    let too_long = ShortString::try_from(vec![b'a'; 256]);
    assert_eq!(too_long.unwrap_err(), ModelParseError::InvalidShortStringLength(256));
}

#[test]
fn test_short_string_utf8_validation() {
    let ok = ShortString::try_from("ergo-mainnet-3.3.6".as_bytes().to_vec());
    assert!(ok.is_ok());
    let multi = ShortString::try_from("पीर".as_bytes().to_vec());
    assert!(multi.is_ok());
    let bad = ShortString::try_from(vec![0xff, 0xfe]);
    assert_eq!(bad.unwrap_err(), ModelParseError::InvalidUtf8Buffer);
    // a truncated multi-byte code point
    let truncated = ShortString::try_from(vec![0xe0, 0xa4]);
    assert_eq!(truncated.unwrap_err(), ModelParseError::InvalidUtf8Buffer);
    // an over-long encoding of '/'
    let overlong = ShortString::try_from(vec![0xc0, 0xaf]);
    assert_eq!(overlong.unwrap_err(), ModelParseError::InvalidUtf8Buffer);
}

#[test]
fn test_features_length_bounds() {
    let make = |n: usize| {
        let mut v = Vec::new();
        for _ in 0..n {
            v.push(PeerFeature::Mode(Mode {
                state_type: 0,
                is_verifying: true,
                nipopow_suffix_len: None,
                blocks_to_keep: -1,
            }));
        }
        v
    };
    let ok = ergo_handshake::Features::try_new(make(255));
    assert!(ok.is_ok());
    assert_eq!(ok.expect("features rejected").len(), 255);
    let too_many = ergo_handshake::Features::try_new(make(256));
    assert!(matches!(too_many, Err(FeaturesError::TooMuchPeerFeatures(256))));
}
