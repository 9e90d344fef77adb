//! The TAPCP operation arithmetic: pseudo-file names, word-aligned
//! slicing, the liveness probe, flash metadata, and the programming
//! sequence.

use casperfpga::tapcp::{
    classify_running, clock_counter_delta, encode_metadata, extract_window, find_end_marker,
    parse_listdev, parse_metadata_pairs, read_device_filename, read_flash_filename,
    read_word_span, write_device_filename, write_flash_filename, MetadataScan, Platform,
    ProgramAction, ProgramEvent, ProgramSession,
};

#[test]
fn filenames_spell_hex_offsets() {
    assert_eq!(
        read_device_filename(&b"tx_en".to_vec(), 0x1a, 0),
        b"/dev/tx_en.1a.0".to_vec()
    );
    assert_eq!(
        write_device_filename(&b"tx_en".to_vec(), 12),
        b"/dev/tx_en.c".to_vec()
    );
    assert_eq!(read_flash_filename(0x200000, 256), b"/flash.200000.100".to_vec());
    assert_eq!(write_flash_filename(0x810000), b"/flash.810000".to_vec());
}

#[test]
fn word_aligned_slicing() {
    // Three bytes from byte offset two sit in two words starting at word
    // zero; the window is sliced out of them.
    let (first_word, word_n) = read_word_span(2, 3);
    assert_eq!(first_word, 0);
    assert_eq!(word_n, 2);
    let fetched = vec![0x01, 0x02, 0x03, 0x04, 0x05, 0x06, 0x07, 0x08];
    assert_eq!(extract_window(&fetched, 2, 3), vec![0x03, 0x04, 0x05]);
    // An aligned whole-word read asks for exactly its words.
    assert_eq!(read_word_span(4, 8), (1, 2));
    assert_eq!(read_word_span(0, 1), (0, 1));
}

#[test]
fn platform_addresses() {
    assert_eq!(Platform::SNAP.flash_location(), 0x0080_0000);
    assert_eq!(Platform::SNAP2.flash_location(), 0x00C0_0000);
    assert_eq!(Platform::SNAP.program_location(), 0x0081_0000);
    assert_eq!(Platform::SNAP.boot_address(), 0x0081_0000 >> 8);
    assert_eq!(Platform::SNAP2.boot_address(), 0x00C1_0000);
}

#[test]
fn running_probe_classification() {
    // An answer means running; a file-not-found ERROR means not running;
    // any other fault stays a fault.
    assert_eq!(classify_running(Ok(vec![0, 0, 0, 1])).unwrap(), true);
    assert_eq!(
        classify_running(Err(casperfpga::tftp::Error::ErrorResponse(
            casperfpga::tftp::ErrorCode::NotFound,
            b"no file".to_vec()
        )))
        .unwrap(),
        false
    );
    assert!(classify_running(Err(casperfpga::tftp::Error::Timeout)).is_err());
    assert!(classify_running(Err(casperfpga::tftp::Error::ErrorResponse(
        casperfpga::tftp::ErrorCode::AccessViolation,
        vec![]
    )))
    .is_err());
}

#[test]
fn metadata_round_trip() {
    let pairs = vec![
        (b"flash".to_vec(), b"1234".to_vec()),
        (b"foo".to_vec(), b"bar".to_vec()),
    ];
    let blob = encode_metadata(&pairs);
    assert_eq!(blob.len() % 1024, 0);
    let end = find_end_marker(&blob).unwrap();
    let truncated = blob[..end].to_vec();
    let decoded = parse_metadata_pairs(&truncated);
    assert_eq!(decoded, pairs);
}

#[test]
fn listdev_payloads_decode() {
    // One entry: the key `x` with address 0x1000 and length 0x20.
    let blob = vec![
        0x08, 0x01, b'x', 0x00, 0x00, 0x10, 0x00, 0x00, 0x00, 0x00, 0x20, 0x00, 0x00,
    ];
    let map = parse_listdev(&blob).unwrap();
    assert_eq!(map.len(), 1);
    assert_eq!(map[0].0, b"x".to_vec());
    assert_eq!(map[0].1.addr, 0x1000);
    assert_eq!(map[0].1.length, 0x20);
}

#[test]
fn program_skip_on_match() {
    // With the stored fingerprint equal and no force, the sequence ends
    // without one flash write.
    let md5_hex = b"00112233445566778899aabbccddeeff".to_vec();
    let bitstream = vec![0xAB; 100];
    let mut session = ProgramSession::new(Platform::SNAP, false, md5_hex.clone(), bitstream);
    let stored = vec![
        (b"md5".to_vec(), md5_hex.clone()),
        (b"sector_size".to_vec(), b"65536".to_vec()),
    ];
    let action = session.step(ProgramEvent::Metadata(stored));
    assert!(matches!(action, ProgramAction::AlreadyProgrammed));
}

#[test]
fn program_writes_sectors_then_boots() {
    let md5_hex = b"00112233445566778899aabbccddeeff".to_vec();
    let bitstream = vec![0xCD; 0x10000 + 10];
    let mut session =
        ProgramSession::new(Platform::SNAP, false, md5_hex.clone(), bitstream.clone());
    // A stale fingerprint forces the write sequence.
    let stored = vec![(b"md5".to_vec(), b"deadbeef".to_vec())];
    match session.step(ProgramEvent::Metadata(stored)) {
        ProgramAction::WriteFlash { offset, data } => {
            assert_eq!(offset, 0x0081_0000);
            assert_eq!(data, vec![0xCD; 0x10000]);
        }
        other => panic!("expected the first sector write, got {other:?}"),
    }
    match session.step(ProgramEvent::Completed) {
        ProgramAction::WriteFlash { offset, data } => {
            assert_eq!(offset, 0x0082_0000);
            assert_eq!(data, vec![0xCD; 10]);
        }
        other => panic!("expected the second sector write, got {other:?}"),
    }
    match session.step(ProgramEvent::Completed) {
        ProgramAction::SetMetadata { pairs } => {
            assert_eq!(
                pairs,
                vec![
                    (b"sector_size".to_vec(), b"65536".to_vec()),
                    (b"md5".to_vec(), md5_hex.clone()),
                ]
            );
        }
        other => panic!("expected the metadata write, got {other:?}"),
    }
    match session.step(ProgramEvent::Completed) {
        ProgramAction::BootFrom { addr } => assert_eq!(addr, 0x0081_0000 >> 8),
        other => panic!("expected the boot, got {other:?}"),
    }
    assert!(matches!(
        session.step(ProgramEvent::Completed),
        ProgramAction::Done
    ));
}

#[test]
fn forced_program_ignores_matching_fingerprint() {
    let md5_hex = b"aa".to_vec();
    let mut session = ProgramSession::new(Platform::SNAP2, true, md5_hex.clone(), vec![1, 2, 3]);
    let stored = vec![(b"md5".to_vec(), md5_hex)];
    assert!(matches!(
        session.step(ProgramEvent::Metadata(stored)),
        ProgramAction::WriteFlash { .. }
    ));
}

#[test]
fn clock_counter_wraps() {
    assert_eq!(clock_counter_delta(10, 250), 240);
    assert_eq!(clock_counter_delta(0xFFFF_FFF0, 5), 21);
    assert_eq!(clock_counter_delta(7, 7), 0);
}

#[test]
fn program_of_empty_bitstream_skips_to_metadata() {
    let md5_hex = b"d41d8cd98f00b204e9800998ecf8427e".to_vec();
    let mut session = ProgramSession::new(Platform::SNAP2, false, md5_hex, Vec::new());
    match session.step(ProgramEvent::Metadata(Vec::new())) {
        ProgramAction::SetMetadata { pairs } => {
            assert_eq!(pairs[0].0, b"sector_size".to_vec());
        }
        other => panic!("expected the metadata write, got {other:?}"),
    }
}

#[test]
fn metadata_scan_budget_and_find() {
    let pairs = vec![(b"md5".to_vec(), b"abcd".to_vec())];
    let blob = encode_metadata(&pairs);
    let mut scan = MetadataScan::new();
    // The first chunk of the encoded blob already holds the terminator.
    assert_eq!(scan.next_chunk(), Some(0));
    let found = scan.step(&blob).unwrap().unwrap();
    assert_eq!(found, pairs);
    // A scan fed chunks without the terminator spends its budget of 128
    // and then names the next chunk no more.
    let mut empty_scan = MetadataScan::new();
    let filler = vec![0x30u8; 1024];
    let mut fed = 0u32;
    while let Some(idx) = empty_scan.next_chunk() {
        assert_eq!(idx, fed);
        assert!(empty_scan.step(&filler).unwrap().is_none());
        fed += 1;
    }
    assert_eq!(fed, 128);
    assert!(matches!(
        empty_scan.step(&filler),
        Err(casperfpga::transport::Error::MissingMetadata)
    ));
}
