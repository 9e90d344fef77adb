//! The byte-level encodings, the binder's device classification, and the
//! ADC controller's packed words.

use casperfpga::adc16::{Adc16, AdcControl, ChipSelect, DemuxMode};
use casperfpga::binder::{CasperFpga, Kind, SoftwareRegister};
use casperfpga::encoding::{from_hex, parse_decimal, to_hex_bytes, utf8_check, utf8_string};
use casperfpga::fpg::read_fpg_bytes;
use casperfpga::mock::Mock;
use casperfpga::transport::{Register, Transport};

#[test]
fn from_hex_parses_and_rejects() {
    assert_eq!(from_hex(&b"3513c".to_vec()).unwrap(), 0x3513C);
    assert_eq!(from_hex(&b"0".to_vec()).unwrap(), 0);
    assert_eq!(from_hex(&b"FFFFFFFF".to_vec()).unwrap(), u32::MAX);
    assert!(matches!(
        from_hex(&b"100000000".to_vec()),
        Err(casperfpga::encoding::ParseError::Integer)
    ));
    assert!(matches!(
        from_hex(&b"".to_vec()),
        Err(casperfpga::encoding::ParseError::Integer)
    ));
    assert!(matches!(
        from_hex(&b"12g".to_vec()),
        Err(casperfpga::encoding::ParseError::Integer)
    ));
    assert!(matches!(
        from_hex(&vec![0xFF, 0x30]),
        Err(casperfpga::encoding::ParseError::Utf8)
    ));
}

#[test]
fn hex_spelling_matches_format() {
    for n in [0u64, 1, 10, 15, 16, 255, 0x3513c, 0x00810000, u64::MAX] {
        assert_eq!(to_hex_bytes(n), format!("{n:x}").as_bytes().to_vec());
    }
}

#[test]
fn decimal_parses_and_rejects() {
    assert_eq!(parse_decimal(&b"250".to_vec()), Some(250));
    assert_eq!(parse_decimal(&b"0".to_vec()), Some(0));
    assert_eq!(
        parse_decimal(&b"18446744073709551615".to_vec()),
        Some(u64::MAX)
    );
    assert_eq!(parse_decimal(&b"18446744073709551616".to_vec()), None);
    assert_eq!(parse_decimal(&b"".to_vec()), None);
    assert_eq!(parse_decimal(&b"12a".to_vec()), None);
}

#[test]
fn utf8_validation() {
    assert!(utf8_check(&b"plain ascii".to_vec()));
    assert!(utf8_check(&vec![0xC3, 0xA9]));
    assert!(utf8_check(&vec![0xE2, 0x82, 0xAC]));
    assert!(utf8_check(&vec![0xF0, 0x9F, 0x92, 0xBE]));
    assert!(!utf8_check(&vec![0xFF]));
    assert!(!utf8_check(&vec![0xC3]));
    assert!(!utf8_check(&vec![0xE2, 0x82]));
    // An overlong two-byte form of a one-byte character.
    assert!(!utf8_check(&vec![0xC0, 0xAF]));
    // A UTF-16 surrogate is not a character.
    assert!(!utf8_check(&vec![0xED, 0xA0, 0x80]));
    assert!(matches!(
        utf8_string(&vec![0xFF]),
        Err(casperfpga::encoding::ParseError::Utf8)
    ));
    assert_eq!(utf8_string(&b"ok".to_vec()).unwrap(), b"ok".to_vec());
}

#[test]
fn test_from_fpg() {
    let device = casperfpga::fpg::Device {
        kind: b"xps:sw_reg".to_vec(),
        register: None,
        metadata: vec![
            (b"io_dir".to_vec(), b"From\\_Processor".to_vec()),
            (b"io_delay".to_vec(), b"0".to_vec()),
            (b"bin_pts".to_vec(), b"0".to_vec()),
            (b"arith_types".to_vec(), b"0".to_vec()),
        ],
    };
    let swreg = SoftwareRegister::from_fpg(&device).unwrap();
    assert_eq!(swreg.direction, casperfpga::swreg::Direction::FromProcessor);
    assert_eq!(
        swreg.kind,
        Kind::Fixed {
            bin_pts: 0,
            signed: false
        }
    );
}

#[test]
fn binder_builds_typed_blocks() {
    let input = b"#!/bin/kcpfpg\n?uploadbin\n?register\ttx_en\t0x3513c\t0x4\n?meta\ttx_en\txps:sw_reg\tio_dir\tFrom\\_Processor\n?meta\ttx_en\txps:sw_reg\tarith_types\t2\n?meta\tgbe0\txps:ten_gbe\tfake\t0\n?meta\tignored\txps:xsg\tclk_rate\t250\n?quit\n"
        .to_vec();
    let file = read_fpg_bytes(&input, b"d.fpg".to_vec()).unwrap();
    let design = CasperFpga::new(&file).unwrap();
    assert_eq!(design.blocks.len(), 2);
    assert_eq!(design.blocks[0].0, b"tx_en".to_vec());
    assert!(matches!(
        design.blocks[0].1,
        casperfpga::binder::YellowBlock::Bool(_)
    ));
    assert_eq!(design.blocks[1].0, b"gbe0".to_vec());
    assert!(matches!(
        design.blocks[1].1,
        casperfpga::binder::YellowBlock::Gbe(_)
    ));
}

#[test]
fn chip_select_masks() {
    assert_eq!(ChipSelect::select_all().mask(), 0xFF);
    assert_eq!(ChipSelect::by_number(0).mask(), 1);
    assert_eq!(ChipSelect::by_number(7).mask(), 128);
    let cs = ChipSelect {
        a: false,
        b: true,
        c: true,
        d: false,
        e: false,
        f: false,
        g: false,
        h: false,
    };
    assert_eq!(cs.mask(), 0b0000_0110);
}

#[test]
fn adc_control_words() {
    let mut c = AdcControl::clear();
    assert_eq!(c.pack(), 0);
    c.snap_request = true;
    assert_eq!(c.pack(), 0x1_0000);
    c.snap_request = false;
    c.demux_mode = DemuxMode::QuadChannel;
    assert_eq!(c.pack(), 0x0200_0000);
    assert_eq!(AdcControl::unpack(0x0200_0000).unwrap(), c);
    assert!(AdcControl::unpack(0x0300_0000).is_none());
}

#[test]
fn controller_reads_wire_fields() {
    // The wire word carries the revision at bit 16, the supported chip
    // count at bit 20, and the line lock at bit 24.
    let mut t = Mock::new(vec![(
        b"adc16_controller".to_vec(),
        Register { addr: 0, length: 8 },
    )]);
    // supported = 8, revision = 2, line lock = 3.
    let word: u32 = (3 << 24) | (8 << 20) | (2 << 16);
    t.write_bytes(&b"adc16_controller".to_vec(), 0, &word.to_be_bytes().to_vec())
        .unwrap();
    let adc = Adc16::new();
    assert_eq!(adc.supported_chips(&mut t).unwrap(), 8);
    assert_eq!(adc.revision(&mut t).unwrap(), 2);
    assert!(adc.locked(&mut t).unwrap());
}

#[test]
fn controller_init_and_bank_snapshot() {
    let mut t = Mock::new(vec![
        (
            b"adc16_controller".to_vec(),
            Register { addr: 0, length: 8 },
        ),
        (
            b"adc16_wb_ram0".to_vec(),
            Register {
                addr: 8,
                length: 1024,
            },
        ),
    ]);
    let mut adc = Adc16::new();
    adc.chip_select(&ChipSelect::select_all());
    adc.init(&mut t, casperfpga::snapadc::AdcMode::Dual, 500).unwrap();
    adc.power_cycle(&mut t).unwrap();
    adc.bitslip(&mut t, 0b0000_0100).unwrap();
    let bank = casperfpga::snapadc::SnapAdc::from_fpg(
        b"adc".to_vec(),
        &b"8".to_vec(),
        &b"500".to_vec(),
        &b"6".to_vec(),
        &b"sys_clk".to_vec(),
    )
    .unwrap();
    let captured = bank
        .snapshot(&mut t, casperfpga::snapadc::SnapAdcChip::A)
        .unwrap();
    assert_eq!(captured.len(), 1024);
}
