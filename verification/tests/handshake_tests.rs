//! End-to-end tests of the handshake codec, on byte vectors captured from
//! reference nodes.

use ergo_handshake::vlq::VlqReader;
use ergo_handshake::{
    Features, Handshake, HsSpecReaderError, IpOctets, MagicBytes, Mode, PeerAddr, PeerFeature,
    SessionId, ShortString, Version,
};

fn hex_to_bytes(s: &str) -> Vec<u8> {
    let digit = |c: u8| -> u8 {
        match c {
            b'0'..=b'9' => c - b'0',
            b'a'..=b'f' => c - b'a' + 10,
            b'A'..=b'F' => c - b'A' + 10,
            _ => panic!("internal error: invalid hex str"),
        }
    };
    let raw = s.as_bytes();
    assert!(raw.len() % 2 == 0, "internal error: invalid hex str");
    let mut out = Vec::new();
    let mut i = 0;
    while i < raw.len() {
        out.push(digit(raw[i]) * 16 + digit(raw[i + 1]));
        i += 2;
    }
    out
}

fn create_hs(
    agent_name: &str,
    version: Version,
    peer_name: &str,
    pub_address: Option<PeerAddr>,
    features: Option<Features>,
) -> Handshake {
    let agent_name =
        ShortString::try_from(agent_name.to_string().into_bytes()).expect("invalid agent name");
    let peer_name =
        ShortString::try_from(peer_name.to_string().into_bytes()).expect("invalid peer name");
    Handshake { agent_name, version, peer_name, pub_address, features }
}

fn create_peer_addr(octets: [u8; 4], port: u16) -> PeerAddr {
    PeerAddr { ip: IpOctets::V4(octets), port }
}

fn create_features(features: Vec<PeerFeature>) -> Features {
    Features::try_new(features).expect("invalid features vec length")
}

fn create_mode_pf(
    state_type: u8,
    is_verifying: bool,
    nipopow_suffix_len: Option<u32>,
    blocks_to_keep: i32,
) -> PeerFeature {
    PeerFeature::Mode(Mode { state_type, is_verifying, nipopow_suffix_len, blocks_to_keep })
}

fn create_session_id_pf(magic: MagicBytes, session_id: i64) -> PeerFeature {
    PeerFeature::SessionId(SessionId { magic, session_id })
}

fn create_local_addr_pf(octets: [u8; 4], port: u16) -> PeerFeature {
    PeerFeature::LocalAddr(create_peer_addr(octets, port))
}

fn real_app_test_cases() -> Vec<(Handshake, Vec<u8>)> {
    let case1 = {
        let hs = create_hs(
            "ergoref",
            Version([4, 0, 5]),
            "ergo-mainnet-4.0.0",
            None,
            Some(create_features(vec![
                create_mode_pf(0, true, None, -1),
                create_session_id_pf(MagicBytes([1, 0, 2, 4]), -7226886467503878579),
            ])),
        );
        let hs_bytes = hex_to_bytes("c3bcaca3fb2e076572676f726566040005126572676f2d6d61696e6e65742d342e302e300002100400010001030e01000204e5c6abfafabc87cbc801");
        (hs, hs_bytes)
    };
    let case2 = {
        let hs = create_hs(
            "ergoref",
            Version([3, 3, 6]),
            "mainnet-seed-node-sf",
            Some(create_peer_addr([165, 227, 26, 175], 9030)),
            Some(create_features(vec![
                create_mode_pf(0, true, None, -1),
                create_session_id_pf(MagicBytes([1, 0, 2, 4]), -2393537216959524988),
            ])),
        );
        let hs_bytes = hex_to_bytes("93bdaca3fb2e076572676f726566030306146d61696e6e65742d736565642d6e6f64652d73660108a5e31aafc64602100400010001030d01000204f7c1e5d8dadac6b742");
        (hs, hs_bytes)
    };
    let case3 = {
        let hs = create_hs(
            "ergoref",
            Version([4, 0, 5]),
            "ergo-mainnet-4.0.1",
            Some(create_peer_addr([213, 239, 193, 208], 9030)),
            Some(create_features(vec![
                create_mode_pf(0, true, None, -1),
                create_session_id_pf(MagicBytes([1, 0, 2, 4]), 6155961833357488951),
            ])),
        );
        let hs_bytes = hex_to_bytes("dee2aca3fb2e076572676f726566040005126572676f2d6d61696e6e65742d342e302e310108d5efc1d0c64602100400010001030e01000204eecc9582ffaaafeeaa01");
        (hs, hs_bytes)
    };
    let case4 = {
        let hs = create_hs(
            "ergoref",
            Version([3, 3, 6]),
            "mainnet-seed-node-toronto",
            Some(create_peer_addr([159, 89, 116, 15], 9030)),
            Some(create_features(vec![
                create_mode_pf(0, true, None, -1),
                create_session_id_pf(MagicBytes([1, 0, 2, 4]), -8301048747963648041),
            ])),
        );
        let hs_bytes = hex_to_bytes("ed8aada3fb2e076572676f726566030306196d61696e6e65742d736565642d6e6f64652d746f726f6e746f01089f59740fc64602100400010001030e01000204d1a098d9dff69fb3e601");
        (hs, hs_bytes)
    };
    let case5 = {
        let hs = create_hs(
            "ergoref",
            Version([3, 3, 6]),
            "ergo-mainnet-4.0.0",
            None,
            Some(create_features(vec![
                create_mode_pf(0, true, None, -1),
                create_session_id_pf(MagicBytes([1, 0, 2, 4]), 3120095637531038426),
            ])),
        );
        let hs_bytes = hex_to_bytes("e3b1ada3fb2e076572676f726566030306126572676f2d6d61696e6e65742d342e302e300002100400010001030d01000204b4cbc4c4f19ce7cc56");
        (hs, hs_bytes)
    };
    vec![case1, case2, case3, case4, case5]
}

fn run_test(hs: Handshake, hs_bytes: Vec<u8>) {
    let hs_actual = Handshake::parse(&hs_bytes);
    assert!(hs_actual.is_ok());
    let hs_actual = hs_actual.expect("can't parse hs bytes");
    assert_eq!(hs_actual, hs);

    // re-serialize under the captured timestamp and compare the bytes after
    // the timestamp field, as well as the whole buffer
    let mut rd = VlqReader::new(&hs_bytes);
    let captured_ts = rd.get_u64().expect("can't read captured timestamp");
    let hs_bytes_actual = hs_actual.serialize_with_timestamp(captured_ts);
    assert!(hs_bytes_actual.is_ok());
    let hs_bytes_actual = hs_bytes_actual.expect("can't serialize hs msg");
    // avoiding timestamp bytes
    assert_eq!(&hs_bytes_actual[5..], &hs_bytes[5..]);
    assert_eq!(hs_bytes_actual, hs_bytes);
}

#[test]
fn test_base_ergo_case() {
    let hs_expected = create_hs(
        "ergoref",
        Version([3, 3, 6]),
        "ergo-mainnet-3.3.6",
        None,
        Some(create_features(vec![
            create_mode_pf(0, true, None, -1),
            create_local_addr_pf([127, 0, 0, 1], 9006),
        ])),
    );
    let hs_bytes = hex_to_bytes("bcd2919cee2e076572676f726566030306126572676f2d6d61696e6e65742d332e332e36000210040001000102067f000001ae46");

    run_test(hs_expected, hs_bytes)
}

#[test]
fn test_real_app_cases() {
    for (hs_expected, hs_bytes) in real_app_test_cases() {
        run_test(hs_expected, hs_bytes)
    }
}

#[test]
fn test_serialize_parse_roundtrip_with_clock() {
    // the clock-stamped serializer and the parser undo each other on every
    // field but the timestamp, which is not part of the message
    let hs = create_hs(
        "ergoref",
        Version([4, 0, 5]),
        "some-node",
        Some(create_peer_addr([10, 0, 0, 7], 9030)),
        Some(create_features(vec![
            create_mode_pf(3, false, Some(10), 1024),
            create_session_id_pf(MagicBytes([1, 0, 2, 4]), 42),
            create_local_addr_pf([192, 168, 1, 1], 60000),
        ])),
    );
    let bytes = hs.serialize().expect("serialize failed");
    let back = Handshake::parse(&bytes).expect("parse failed");
    assert_eq!(back, hs);
}

#[test]
fn test_unknown_feature_is_skipped() {
    // a single feature with id 99: parsing must succeed and the features
    // field must come back absent, not as an empty present list
    let mut bytes = hex_to_bytes("bcd2919cee2e076572676f726566030306126572676f2d6d61696e6e65742d332e332e3600");
    bytes.extend_from_slice(&[0x01, 99, 0x03, 0xde, 0xad, 0xbe]);
    let hs = Handshake::parse(&bytes).expect("parse failed");
    assert!(hs.features.is_none());
}

#[test]
fn test_unknown_feature_beside_recognized_one() {
    // an unknown feature is dropped, the recognized one beside it is kept
    let mut bytes = hex_to_bytes("bcd2919cee2e076572676f726566030306126572676f2d6d61696e6e65742d332e332e3600");
    bytes.extend_from_slice(&[0x02, 99, 0x02, 0xaa, 0xbb]);
    bytes.extend_from_slice(&[0x10, 0x04, 0x00, 0x01, 0x00, 0x01]);
    let hs = Handshake::parse(&bytes).expect("parse failed");
    let features = hs.features.expect("features dropped");
    assert_eq!(features.len(), 1);
    assert_eq!(
        *features.get(0),
        create_mode_pf(0, true, None, -1)
    );
}

#[test]
fn test_missing_features_section() {
    // a buffer that ends right after the address flag has no feature section
    let bytes = hex_to_bytes("bcd2919cee2e076572676f726566030306126572676f2d6d61696e6e65742d332e332e3600");
    let hs = Handshake::parse(&bytes).expect("parse failed");
    assert!(hs.features.is_none());
    // a zero feature count normalizes to the same absent field
    let mut with_count = bytes.clone();
    with_count.push(0);
    let hs = Handshake::parse(&with_count).expect("parse failed");
    assert!(hs.features.is_none());
}

#[test]
fn test_addr_quirk_length_bytes() {
    // the advertised address length is the payload length plus two:
    // 8 for IPv4 with a two-byte port run, 20 for IPv6
    let hs4 = create_hs(
        "a",
        Version([1, 2, 3]),
        "b",
        Some(create_peer_addr([1, 2, 3, 4], 9006)),
        None,
    );
    let bytes = hs4.serialize_with_timestamp(0).expect("serialize failed");
    // layout: ts(1) agent(2) version(3) peer(2) flag(1) len-byte payload
    assert_eq!(bytes[8], 1);
    assert_eq!(bytes[9], 8);
    assert_eq!(&bytes[10..], &[1, 2, 3, 4, 0xae, 0x46]);

    let hs6 = create_hs(
        "a",
        Version([1, 2, 3]),
        "b",
        Some(PeerAddr { ip: IpOctets::V6([9; 16]), port: 9006 }),
        None,
    );
    let bytes = hs6.serialize_with_timestamp(0).expect("serialize failed");
    assert_eq!(bytes[9], 20);

    // and both frames decode back to the same address
    let hs4_back = Handshake::parse(&hs4.serialize_with_timestamp(7).expect("serialize failed"))
        .expect("parse failed");
    assert_eq!(hs4_back, hs4);
    let hs6_back = Handshake::parse(&hs6.serialize_with_timestamp(7).expect("serialize failed"))
        .expect("parse failed");
    assert_eq!(hs6_back, hs6);
}

#[test]
fn test_addr_quirk_rejects_other_lengths() {
    let head = hex_to_bytes("bcd2919cee2e076572676f726566030306126572676f2d6d61696e6e65742d332e332e36");
    // advertised lengths 0, 1 are too short to carry the quirk at all
    for short_len in 0..2u8 {
        let mut bytes = head.clone();
        bytes.push(1);
        bytes.push(short_len);
        let r = Handshake::parse(&bytes);
        assert!(matches!(r, Err(HsSpecReaderError::TooShortPeerAddrDataLength(_, 8))));
    }
    // an advertised length whose payload fits neither address family
    let mut bytes = head.clone();
    bytes.push(1);
    bytes.push(7);
    bytes.extend_from_slice(&[0, 0, 0, 0, 0]);
    let r = Handshake::parse(&bytes);
    assert!(matches!(
        r,
        Err(HsSpecReaderError::CannotReadModelFromBytes(
            ergo_handshake::ModelParseError::InvalidPeerAddrLength(5)
        ))
    ));
}

#[test]
fn test_parse_error_cases() {
    // an empty buffer fails on the timestamp run
    assert!(matches!(
        Handshake::parse(&[]),
        Err(HsSpecReaderError::CannotVlqDecodeData(_))
    ));
    // a buffer that ends inside the agent name
    let bytes = hex_to_bytes("bcd2919cee2e076572676f");
    assert!(matches!(Handshake::parse(&bytes), Err(HsSpecReaderError::CannotReadBytes)));
    // a name that is not UTF-8
    let bytes = hex_to_bytes("bcd2919cee2e02fffe");
    assert!(matches!(
        Handshake::parse(&bytes),
        Err(HsSpecReaderError::CannotReadModelFromBytes(
            ergo_handshake::ModelParseError::InvalidUtf8Buffer
        ))
    ));
    // a feature that announces more payload than the buffer holds
    let mut bytes = hex_to_bytes("bcd2919cee2e076572676f726566030306126572676f2d6d61696e6e65742d332e332e3600");
    bytes.extend_from_slice(&[0x01, 0x10, 0x20, 0x00]);
    assert!(matches!(Handshake::parse(&bytes), Err(HsSpecReaderError::CannotReadBytes)));
    // a local-address feature whose payload length fits no address family
    let mut bytes = hex_to_bytes("bcd2919cee2e076572676f726566030306126572676f2d6d61696e6e65742d332e332e3600");
    bytes.extend_from_slice(&[0x01, 0x02, 0x03, 0xaa, 0xbb, 0xcc]);
    assert!(matches!(
        Handshake::parse(&bytes),
        Err(HsSpecReaderError::CannotReadPeerFeatureFromBytes(_))
    ));
}

#[test]
fn test_mode_feature_with_nipopow_roundtrip() {
    let hs = create_hs(
        "nipopow-node",
        Version([5, 0, 0]),
        "peer",
        None,
        Some(create_features(vec![create_mode_pf(1, true, Some(4096), -1)])),
    );
    let bytes = hs.serialize_with_timestamp(1234).expect("serialize failed");
    let back = Handshake::parse(&bytes).expect("parse failed");
    assert_eq!(back, hs);
}
