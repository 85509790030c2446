//! Tests of the feature payload codecs and the id dispatch.

use ergo_handshake::features::mode::{parse_mode, serialize_mode};
use ergo_handshake::features::registry::{parse_feature, serialize_feature};
use ergo_handshake::features::session_id::{parse_session_id, serialize_session_id};
use ergo_handshake::{IpOctets, MagicBytes, Mode, PeerAddr, PeerFeature, SessionId};

#[test]
fn test_mode_payload_exact_bytes() {
    let mode =
        Mode { state_type: 0, is_verifying: true, nipopow_suffix_len: None, blocks_to_keep: -1 };
    let bytes = serialize_mode(&mode).expect("serialize failed");
    assert_eq!(bytes, vec![0x00, 0x01, 0x00, 0x01]);
    assert_eq!(parse_mode(bytes).expect("parse failed"), mode);
}

#[test]
fn test_mode_payload_with_nipopow() {
    let mode = Mode {
        state_type: 1,
        is_verifying: false,
        nipopow_suffix_len: Some(300),
        blocks_to_keep: 2,
    };
    let bytes = serialize_mode(&mode).expect("serialize failed");
    assert_eq!(bytes, vec![0x01, 0x00, 0x01, 0xac, 0x02, 0x04]);
    assert_eq!(parse_mode(bytes).expect("parse failed"), mode);
}

#[test]
fn test_mode_payload_too_short() {
    assert!(parse_mode(vec![]).is_err());
    assert!(parse_mode(vec![0, 1]).is_err());
}

#[test]
fn test_session_id_payload() {
    let sid = SessionId { magic: MagicBytes([1, 0, 2, 4]), session_id: -1 };
    let bytes = serialize_session_id(&sid).expect("serialize failed");
    assert_eq!(bytes, vec![1, 0, 2, 4, 0x01]);
    assert_eq!(parse_session_id(bytes).expect("parse failed"), sid);
    assert!(parse_session_id(vec![1, 0, 2]).is_err());
}

#[test]
fn test_feature_dispatch_by_id() {
    let mode_payload = vec![0x00, 0x01, 0x00, 0x01];
    let f = parse_feature(16, mode_payload.clone()).expect("parse failed");
    assert_eq!(
        f,
        PeerFeature::Mode(Mode {
            state_type: 0,
            is_verifying: true,
            nipopow_suffix_len: None,
            blocks_to_keep: -1,
        })
    );
    assert_eq!(f.get_id(), 16);
    assert_eq!(serialize_feature(&f).expect("serialize failed"), mode_payload);

    let addr_payload = vec![127, 0, 0, 1, 0xae, 0x46];
    let f = parse_feature(2, addr_payload.clone()).expect("parse failed");
    assert_eq!(
        f,
        PeerFeature::LocalAddr(PeerAddr { ip: IpOctets::V4([127, 0, 0, 1]), port: 9006 })
    );
    assert_eq!(f.get_id(), 2);
    assert_eq!(serialize_feature(&f).expect("serialize failed"), addr_payload);

    let sid_payload = vec![1, 0, 2, 4, 0x01];
    let f = parse_feature(3, sid_payload.clone()).expect("parse failed");
    assert_eq!(f.get_id(), 3);
    assert_eq!(serialize_feature(&f).expect("serialize failed"), sid_payload);
}

#[test]
fn test_unknown_id_parses_as_unrecognized() {
    // any id outside {2, 3, 16} is the sentinel, whatever the payload holds
    for id in [0u8, 1, 4, 15, 17, 99, 255] {
        let f = parse_feature(id, vec![0xde, 0xad]).expect("parse failed");
        assert_eq!(f, PeerFeature::Unrecognized);
    }
    // even an empty or malformed payload does not fail
    assert!(parse_feature(99, vec![]).is_ok());
}

#[test]
fn test_recognized_id_with_bad_payload_fails() {
    assert!(parse_feature(16, vec![]).is_err());
    assert!(parse_feature(2, vec![1, 2, 3]).is_err());
    assert!(parse_feature(3, vec![1]).is_err());
}
