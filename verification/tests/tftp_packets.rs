//! The TFTP packet codec: packed bytes of each packet kind, and the
//! pack/unpack round trips.

use casperfpga::tftp::{ErrorCode, Mode, Payload};

#[test]
fn test_pack_read() {
    let payload = Payload::Read {
        filename: b"/foo".to_vec(),
        mode: Mode::Octet,
    };
    let packed = payload.pack();
    assert_eq!(
        packed,
        vec![0, 1, b'/', b'f', b'o', b'o', 0, b'o', b'c', b't', b'e', b't', 0]
    );
}

#[test]
fn test_pack_write() {
    let payload = Payload::Write {
        filename: b"/foo".to_vec(),
        mode: Mode::Octet,
    };
    let packed = payload.pack();
    assert_eq!(
        packed,
        vec![0, 2, b'/', b'f', b'o', b'o', 0, b'o', b'c', b't', b'e', b't', 0]
    );
}

#[test]
fn test_pack_data() {
    let payload = Payload::Data {
        block: 1,
        data: vec![0xDE, 0xAD, 0xBE, 0xEF],
    };
    let packed = payload.pack();
    assert_eq!(packed, vec![0, 3, 0, 1, 0xDE, 0xAD, 0xBE, 0xEF]);
}

#[test]
fn test_pack_ack() {
    let payload = Payload::Ack { block: 1 };
    let packed = payload.pack();
    assert_eq!(packed, vec![0, 4, 0, 1]);
}

#[test]
fn test_pack_error() {
    let payload = Payload::Error {
        error_code: ErrorCode::Full,
        error_msg: b"Full".to_vec(),
    };
    let packed = payload.pack();
    assert_eq!(packed, vec![0, 5, 0, 3, b'F', b'u', b'l', b'l', 0]);
}

#[test]
fn test_roundtrip_read() {
    let payload = vec![
        0, 1, b'/', b'f', b'o', b'o', 0, b'o', b'c', b't', b'e', b't', 0,
    ];
    assert_eq!(payload, Payload::unpack(&payload).unwrap().pack());
}

#[test]
fn test_roundtrip_write() {
    let payload = vec![
        0, 2, b'/', b'f', b'o', b'o', 0, b'o', b'c', b't', b'e', b't', 0,
    ];
    assert_eq!(payload, Payload::unpack(&payload).unwrap().pack());
}

#[test]
fn test_roundtrip_data() {
    let payload = vec![0, 3, 0, 1, 0xDE, 0xAD, 0xBE, 0xEF];
    assert_eq!(payload, Payload::unpack(&payload).unwrap().pack());
}

#[test]
fn test_roundtrip_ack() {
    let payload = vec![0, 4, 0, 1];
    assert_eq!(payload, Payload::unpack(&payload).unwrap().pack());
}

#[test]
fn test_roundtrip_error() {
    let payload = vec![0, 5, 0, 3, b'F', b'u', b'l', b'l', 0];
    assert_eq!(payload, Payload::unpack(&payload).unwrap().pack());
}

#[test]
fn unpack_rejects_short_and_unknown() {
    assert!(matches!(
        Payload::unpack(&vec![0, 4, 0]),
        Err(casperfpga::tftp::Error::Incomplete)
    ));
    assert!(matches!(
        Payload::unpack(&vec![0, 9, 0, 1]),
        Err(casperfpga::tftp::Error::BadOpcode)
    ));
    assert!(matches!(
        Payload::unpack(&vec![0, 5, 0, 99, b'x', 0]),
        Err(casperfpga::tftp::Error::BadErrorCode)
    ));
    // An ERROR packet whose message never ends is incomplete.
    assert!(matches!(
        Payload::unpack(&vec![0, 5, 0, 1, b'x']),
        Err(casperfpga::tftp::Error::Incomplete)
    ));
    // A request naming a mode that is no mode.
    assert!(matches!(
        Payload::unpack(&vec![0, 1, b'f', 0, b'm', b'x', 0]),
        Err(casperfpga::tftp::Error::BadMode(_))
    ));
}

#[test]
fn unpack_reads_mode_case_insensitively() {
    let bytes = vec![0, 1, b'f', 0, b'O', b'C', b'T', b'E', b'T', 0];
    match Payload::unpack(&bytes).unwrap() {
        Payload::Read { filename, mode } => {
            assert_eq!(filename, b"f".to_vec());
            assert!(matches!(mode, Mode::Octet));
        }
        _ => panic!("expected a read request"),
    }
}
