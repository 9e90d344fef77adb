//! The typed peripherals over the in-memory transport: software registers
//! (widths and overflow), BRAM bounds, the clock switch, the snapshot
//! block, the Ethernet core, and the packed register round trips.

use casperfpga::bram::Bram;
use casperfpga::clockswitch::{ClockSwitch, Source};
use casperfpga::mock::Mock;
use casperfpga::snapshot::{Control, Snapshot, Status};
use casperfpga::swreg::{BooleanSoftwareRegister, Direction, FixedSoftwareRegister};
use casperfpga::ten_gbe::{CoreType, EthernetType, Port, PromiscRstEn, TenGbE};
use casperfpga::transport::Register;

fn one_register(name: &[u8], length: usize) -> Mock {
    Mock::new(vec![(name.to_vec(), Register { addr: 0, length })])
}

#[test]
fn test_fixed_readwrite() {
    // A 32-bit unsigned register with five fractional bits: the value
    // 2.75 is the raw pattern 88.
    let mut t = one_register(b"my_reg", 4);
    let reg = FixedSoftwareRegister::new(
        b"my_reg".to_vec(),
        Direction::FromProcessor,
        32,
        false,
        5,
    );
    let test_num: u32 = 88;
    reg.write(&mut t, test_num).unwrap();
    assert_eq!(test_num, reg.read(&mut t).unwrap());
}

#[test]
fn test_ufixed_readwrite() {
    // A 32-bit signed register with seven fractional bits: the value
    // 3.15625 is the raw pattern 404.
    let mut t = one_register(b"my_reg", 4);
    let reg = FixedSoftwareRegister::new(
        b"my_reg".to_vec(),
        Direction::FromProcessor,
        32,
        true,
        7,
    );
    let test_num: u32 = 404;
    reg.write(&mut t, test_num).unwrap();
    assert_eq!(test_num, reg.read(&mut t).unwrap());
}

#[test]
fn test_bool_readwrite() {
    let mut t = one_register(b"my_reg", 4);
    let reg = BooleanSoftwareRegister::new(b"my_reg".to_vec(), Direction::FromProcessor);
    let test_val = false;
    reg.write(&mut t, test_val).unwrap();
    assert_eq!(test_val, reg.read(&mut t).unwrap());
    let test_val = true;
    reg.write(&mut t, test_val).unwrap();
    assert_eq!(test_val, reg.read(&mut t).unwrap());
}

#[test]
fn swreg_overflow_and_readonly() {
    let mut t = one_register(b"my_reg", 4);
    let reg = FixedSoftwareRegister::new(
        b"my_reg".to_vec(),
        Direction::FromProcessor,
        8,
        false,
        0,
    );
    // The magnitude 257 exceeds two to the eighth; 256 does not.
    assert!(matches!(
        reg.write(&mut t, 257),
        Err(casperfpga::swreg::Error::Overflow)
    ));
    assert!(reg.write(&mut t, 256).is_ok());
    // A signed register measures the two's-complement magnitude.
    let signed = FixedSoftwareRegister::new(
        b"my_reg".to_vec(),
        Direction::FromProcessor,
        8,
        true,
        0,
    );
    assert!(matches!(
        signed.write(&mut t, (-300i32) as u32),
        Err(casperfpga::swreg::Error::Overflow)
    ));
    assert!(signed.write(&mut t, (-17i32) as u32).is_ok());
    let readonly =
        FixedSoftwareRegister::new(b"my_reg".to_vec(), Direction::ToProcessor, 8, false, 0);
    assert!(matches!(
        readonly.write(&mut t, 1),
        Err(casperfpga::swreg::Error::ReadOnly)
    ));
}

#[test]
fn bram_bounds_and_round_trip() {
    let mut t = one_register(b"buf", 16);
    let bram = Bram::new(b"buf".to_vec(), 4, 4);
    // Reading the address equal to the size fails out of bounds.
    assert!(matches!(
        bram.read_addr(&mut t, 4),
        Err(casperfpga::bram::Error::OutOfBounds)
    ));
    assert!(matches!(
        bram.write_addr(&mut t, 4, &vec![1, 2, 3, 4]),
        Err(casperfpga::bram::Error::OutOfBounds)
    ));
    assert!(matches!(
        bram.write_addr(&mut t, 0, &vec![1, 2, 3]),
        Err(casperfpga::bram::Error::BadSize)
    ));
    bram.write_addr(&mut t, 0, &vec![9, 8, 7, 6]).unwrap();
    assert_eq!(bram.read_addr(&mut t, 0).unwrap(), vec![9, 8, 7, 6]);
    assert!(matches!(
        bram.write(&mut t, &vec![0; 15]),
        Err(casperfpga::bram::Error::BadSize)
    ));
    let all: Vec<u8> = (0..16).collect();
    bram.write(&mut t, &all).unwrap();
    assert_eq!(bram.read(&mut t).unwrap(), all);
}

#[test]
fn bram_size_from_addr_width() {
    let bram = Bram::from_fpg(b"buf".to_vec(), &b"13".to_vec(), 4).unwrap();
    assert_eq!(bram.size, 8192);
    assert!(matches!(
        Bram::from_fpg(b"buf".to_vec(), &b"x".to_vec(), 4),
        Err(casperfpga::bram::Error::BadAddrWidth)
    ));
}

#[test]
fn clockswitch_test_clock_switch() {
    let mut t = one_register(b"adc16_use_synth", 4);
    let cksw = ClockSwitch::new();
    cksw.set_source(&mut t, Source::External).unwrap();
    assert_eq!(cksw.get_source(&mut t).unwrap(), Source::External);
    cksw.set_source(&mut t, Source::Internal).unwrap();
    assert_eq!(cksw.get_source(&mut t).unwrap(), Source::Internal);
}

#[test]
fn snapadc_test_clock_switch() {
    let mut t = one_register(b"adc16_use_synth", 4);
    let cksw = ClockSwitch::new();
    cksw.set_source(&mut t, Source::External).unwrap();
    assert_eq!(cksw.get_source(&mut t).unwrap(), Source::External);
    cksw.set_source(&mut t, Source::Internal).unwrap();
    assert_eq!(cksw.get_source(&mut t).unwrap(), Source::Internal);
}

#[test]
fn snapshot_block_operations() {
    let mut t = Mock::new(vec![
        (b"ss_ctrl".to_vec(), Register { addr: 0, length: 4 }),
        (b"ss_status".to_vec(), Register { addr: 4, length: 4 }),
        (b"ss_bram".to_vec(), Register { addr: 8, length: 16 }),
    ]);
    let snap = Snapshot::new(b"ss".to_vec(), false, 4);
    snap.arm(&mut t).unwrap();
    snap.trigger(&mut t).unwrap();
    let captured = snap.read(&mut t).unwrap();
    assert_eq!(captured.len(), 16);
    assert!(matches!(
        snap.set_offset(&mut t, 3),
        Err(casperfpga::snapshot::Error::NoOffsets)
    ));
    let with_offset =
        Snapshot::from_fpg(b"ss".to_vec(), &b"4".to_vec(), &b"on".to_vec()).unwrap();
    assert!(with_offset.has_offset);
}

#[test]
fn ten_gbe_fields_round_trip() {
    let mut t = one_register(b"gbe0", 0x2000);
    let gbe = TenGbE::from_fpg(b"gbe0".to_vec());
    gbe.set_ip(&mut t, [192, 168, 4, 10]).unwrap();
    assert_eq!(gbe.get_ip(&mut t).unwrap(), [192, 168, 4, 10]);
    gbe.set_gateway(&mut t, [192, 168, 4, 1]).unwrap();
    assert_eq!(gbe.get_gateway(&mut t).unwrap(), [192, 168, 4, 1]);
    gbe.set_netmask(&mut t, [255, 255, 255, 0]).unwrap();
    assert_eq!(gbe.get_netmask(&mut t).unwrap(), [255, 255, 255, 0]);
    gbe.set_port(&mut t, 60000).unwrap();
    assert_eq!(gbe.get_port(&mut t).unwrap(), 60000);
    let mac = [0x02, 0x00, 0x00, 0x00, 0x00, 0x01];
    gbe.set_mac(&mut t, &mac).unwrap();
    assert_eq!(gbe.get_mac(&mut t).unwrap(), mac.to_vec());
    gbe.set_enable(&mut t, true).unwrap();
    gbe.toggle_reset(&mut t).unwrap();
    gbe.set_single_arp_entry(&mut t, &[192, 168, 4, 20], &mac)
        .unwrap();
}

#[test]
fn packed_words_round_trip() {
    let c = Control {
        arm: true,
        trig_override: false,
        write_enable_override: true,
        circular_capture: false,
    };
    assert_eq!(Control::unpack(c.pack()), c);
    assert_eq!(c.pack(), 5);
    let s = Status::unpack(0x8000_0007);
    assert_eq!(s.addr, 7);
    assert!(s.done);
    let ct = CoreType::unpack(0x0001_0302).unwrap();
    assert!(matches!(ct.core_type, EthernetType::TenGbE));
    assert_eq!(ct.revision, 3);
    assert!(!ct.cpu_tx_enable && ct.cpu_rx_enable);
    let p = Port {
        port_mask: 0xFF,
        port: 60000,
    };
    assert_eq!(p.pack(), vec![0x00, 0xFF, 0xEA, 0x60]);
    let flags = PromiscRstEn {
        soft_rst: true,
        promisc: false,
        enable: true,
    };
    assert_eq!(PromiscRstEn::unpack(flags.pack()), flags);
}
