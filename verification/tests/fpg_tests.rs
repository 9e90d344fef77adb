//! The descriptor parser: the header markers, the register and metadata
//! lines, and a whole header-only descriptor.

use casperfpga::fpg::{
    check_tag, fpg_file, read_fpg_bytes, read_line_end, read_meta_at, read_register_at, Register,
};

#[test]
fn fpg_test_shebang() {
    let input = b"#!/bin/kcpfpg\n".to_vec();
    let tag = b"#!/bin/kcpfpg".to_vec();
    assert!(check_tag(&input, 0, &tag));
    // The line ending consumes the rest of the input.
    assert_eq!(read_line_end(&input, tag.len()), Some(1));
    assert_eq!(tag.len() + 1, input.len());
}

#[test]
fn fpg_test_uploadbin() {
    let input = b"?uploadbin\n".to_vec();
    let tag = b"?uploadbin".to_vec();
    assert!(check_tag(&input, 0, &tag));
    assert_eq!(read_line_end(&input, tag.len()), Some(1));
    assert_eq!(tag.len() + 1, input.len());
}

#[test]
fn fpg_test_register() {
    let input = b"?register\tfft_overflow_cnt\t0x3510c\t0x4\n".to_vec();
    let (name, addr, size, end) = read_register_at(&input, 0).unwrap();
    assert_eq!(end, input.len());
    assert_eq!(name, b"fft_overflow_cnt".to_vec());
    assert_eq!(addr, 0x3510C);
    assert_eq!(size, 0x4);
}

#[test]
fn fpg_test_meta() {
    let input = b"?meta\tgbe0/txs/ss/bram\txps:bram\tinit_vals\t[0:2^13-1]\n".to_vec();
    let (device, kind, key, value, end) = read_meta_at(&input, 0).unwrap();
    assert_eq!(end, input.len());
    assert_eq!(device, b"gbe0_txs_ss_bram".to_vec());
    assert_eq!(kind, b"xps:bram".to_vec());
    assert_eq!(key, b"init_vals".to_vec());
    assert_eq!(value, b"[0:2^13-1]".to_vec());
}

fn header_only_descriptor() -> Vec<u8> {
    let mut input = b"#!/bin/kcpfpg\n?uploadbin\n?register\ttx_en\t0x3513c\t0x4\n?meta\tSNAP\txps:xsg\tclk_rate\t250\n?meta\ttx_en\txps:sw_reg\tbitwidths\t32\n?quit\n"
        .to_vec();
    input.extend_from_slice(&[0xDE, 0xAD, 0xBE, 0xEF]);
    input
}

#[test]
fn fpg_test_fpg_file() {
    let input = header_only_descriptor();
    let (devices, bitstream) = fpg_file(&input).unwrap();
    assert_eq!(devices.len(), 2);
    let snap = devices.iter().find(|d| d.0 == b"SNAP".to_vec()).unwrap();
    assert_eq!(snap.1.kind, b"xps:xsg".to_vec());
    assert!(snap.1.register.is_none());
    assert_eq!(
        snap.1.metadata,
        vec![(b"clk_rate".to_vec(), b"250".to_vec())]
    );
    let tx_en = devices.iter().find(|d| d.0 == b"tx_en".to_vec()).unwrap();
    assert_eq!(tx_en.1.kind, b"xps:sw_reg".to_vec());
    assert_eq!(tx_en.1.register, Some(Register { addr: 217404, size: 4 }));
    assert_eq!(
        tx_en.1.metadata,
        vec![(b"bitwidths".to_vec(), b"32".to_vec())]
    );
    assert_eq!(bitstream, vec![0xDE, 0xAD, 0xBE, 0xEF]);
}

#[test]
fn descriptor_fingerprint_and_name() {
    let input = header_only_descriptor();
    let file = read_fpg_bytes(&input, b"design.fpg".to_vec()).unwrap();
    assert_eq!(file.bitstream, vec![0xDE, 0xAD, 0xBE, 0xEF]);
    assert_eq!(file.filename, b"design.fpg".to_vec());
    let digest = md5::compute(&input);
    assert_eq!(file.md5, digest.0.to_vec());
    // The hex spelling prints each byte bare, one digit when it fits.
    let expect: String = digest.0.iter().map(|v| format!("{v:x}")).collect();
    assert_eq!(file.md5_string(), expect.as_bytes().to_vec());
}

#[test]
fn malformed_header_is_refused() {
    let input = b"#!/bin/kcpfpg\n?register\tx\t0x0\t0x4\n?quit\n".to_vec();
    assert!(matches!(
        read_fpg_bytes(&input, b"x.fpg".to_vec()),
        Err(casperfpga::fpg::Error::ParseMatch)
    ));
}
