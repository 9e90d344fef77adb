//! The in-memory transport: zeroed registers, windowed reads, and the
//! write/read round trips.

use casperfpga::mock::Mock;
use casperfpga::transport::{Register, Transport};

fn scratchpad() -> Mock {
    Mock::new(vec![(
        b"sys_scratchpad".to_vec(),
        Register { addr: 0, length: 4 },
    )])
}

#[test]
fn mock_test_read() {
    let mut transport = scratchpad();
    let bytes = transport
        .read_n_bytes(&b"sys_scratchpad".to_vec(), 0, 4)
        .unwrap();
    assert_eq!(bytes, vec![0, 0, 0, 0]);
}

#[test]
fn mock_test_read_offset() {
    let mut transport = scratchpad();
    let bytes = transport
        .read_n_bytes(&b"sys_scratchpad".to_vec(), 2, 2)
        .unwrap();
    assert_eq!(bytes, vec![0, 0]);
}

#[test]
fn mock_test_write_read() {
    let mut transport = scratchpad();
    let write_bytes = vec![1, 2, 3, 4];
    transport
        .write_bytes(&b"sys_scratchpad".to_vec(), 0, &write_bytes)
        .unwrap();
    let read_bytes = transport
        .read_n_bytes(&b"sys_scratchpad".to_vec(), 0, 4)
        .unwrap();
    assert_eq!(read_bytes, write_bytes);
}

#[test]
fn mock_test_write_read_offset() {
    let mut transport = scratchpad();
    let write_bytes = vec![7, 8];
    transport
        .write_bytes(&b"sys_scratchpad".to_vec(), 2, &write_bytes)
        .unwrap();
    let read_bytes = transport
        .read_n_bytes(&b"sys_scratchpad".to_vec(), 0, 4)
        .unwrap();
    assert_eq!(read_bytes, vec![0, 0, 7, 8]);
    let read_bytes = transport
        .read_n_bytes(&b"sys_scratchpad".to_vec(), 2, 2)
        .unwrap();
    assert_eq!(read_bytes, vec![7, 8]);
}

#[test]
fn mock_test_const_size() {
    let mut transport = scratchpad();
    let write_bytes = vec![1, 2, 3, 4];
    transport
        .write_bytes(&b"sys_scratchpad".to_vec(), 0, &write_bytes)
        .unwrap();
    let read_bytes = transport
        .read_n_bytes(&b"sys_scratchpad".to_vec(), 0, 4)
        .unwrap();
    assert_eq!(read_bytes, write_bytes);
}

#[test]
fn mock_bounds_and_missing_devices() {
    let mut transport = scratchpad();
    assert!(matches!(
        transport.read_n_bytes(&b"sys_scratchpad".to_vec(), 2, 3),
        Err(casperfpga::transport::Error::OutOfBounds)
    ));
    assert!(matches!(
        transport.read_n_bytes(&b"absent".to_vec(), 0, 1),
        Err(casperfpga::transport::Error::DeviceNotFound(_))
    ));
    assert!(transport.is_running().unwrap());
    let listed = transport.listdev().unwrap();
    assert_eq!(listed.len(), 1);
    assert_eq!(listed[0].0, b"sys_scratchpad".to_vec());
    assert_eq!(listed[0].1, Register { addr: 0, length: 4 });
}
