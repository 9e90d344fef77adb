//! The compact sorted list codec: the directory decode and the re-encode
//! round trip.

use casperfpga::csl::{from_bytes, to_bytes};

fn directory_blob() -> Vec<u8> {
    vec![
        0x01, 0x0D, b'a', b'd', b'c', b'1', b'6', b'_', b'w', b'b', b'_', b'r', b'a', b'm', b'1',
        0x01, 0x0C, 0x01, b'2', 0x02, 0x00, 0x09, b'e', b'q', b'_', b'0', b'_', b'g', b'a', b'i',
        b'n', 0x03, 0x03, 0x06, b'1', b'_', b'g', b'a', b'i', b'n', 0x04, 0x01, 0x0C, b't', b'h',
        b'_', b'0', b'_', b'b', b'f', b'r', b'a', b'm', b'e', b's', 0x05, 0x06, 0x04, b'c', b'o',
        b'r', b'e', 0x06, 0x00, 0x00,
    ]
}

#[test]
fn test_from_csl() {
    let unpacked = from_bytes(&directory_blob()).unwrap();
    assert_eq!(
        unpacked,
        vec![
            (b"adc16_wb_ram1".to_vec(), vec![0x01]),
            (b"adc16_wb_ram2".to_vec(), vec![0x02]),
            (b"eq_0_gain".to_vec(), vec![0x03]),
            (b"eq_1_gain".to_vec(), vec![0x04]),
            (b"eth_0_bframes".to_vec(), vec![0x05]),
            (b"eth_0_core".to_vec(), vec![0x06])
        ]
    );
}

#[test]
fn reencode_round_trip() {
    let entries = from_bytes(&directory_blob()).unwrap();
    let blob = to_bytes(&entries);
    let again = from_bytes(&blob).unwrap();
    assert_eq!(again, entries);
}

#[test]
fn decode_rejects_truncation_and_bad_text() {
    assert!(matches!(
        from_bytes(&vec![0x01]),
        Err(casperfpga::csl::Error::Parse)
    ));
    // The first key claims three bytes but only two follow.
    assert!(matches!(
        from_bytes(&vec![0x00, 0x03, b'a', b'b']),
        Err(casperfpga::csl::Error::Parse)
    ));
    // A key holding an invalid UTF-8 byte.
    assert!(matches!(
        from_bytes(&vec![0x00, 0x01, 0xFF, 0x00, 0x00]),
        Err(casperfpga::csl::Error::Utf8)
    ));
}
