//! The transfer engines against an in-process server: an upload and a
//! download carried over matching packets round-trip every payload, the
//! final block rules hold, and timeouts resend and then fail.

use casperfpga::session::{Download, RetryDecision, RetryPolicy, Upload, XferAction, XferEvent};
use casperfpga::tftp::{Mode, Payload};

/// A tiny in-process TFTP server: it stores one file's bytes and answers
/// each packet it is handed, as the board's server would.
struct MiniServer {
    stored: Vec<u8>,
}

impl MiniServer {
    fn handle(&mut self, packet: &Vec<u8>) -> Option<Vec<u8>> {
        match Payload::unpack(packet).unwrap() {
            Payload::Read { .. } => {
                let data = self.block(1);
                Some(Payload::Data { block: 1, data }.pack())
            }
            Payload::Write { .. } => Some(Payload::Ack { block: 0 }.pack()),
            Payload::Data { block, data } => {
                self.stored.extend_from_slice(&data);
                Some(Payload::Ack { block }.pack())
            }
            Payload::Ack { block } => {
                let next = block + 1;
                let prev_len = self.block(block).len();
                if block > 0 && prev_len < 512 {
                    None
                } else {
                    let data = self.block(next);
                    Some(Payload::Data { block: next, data }.pack())
                }
            }
            Payload::Error { .. } => None,
        }
    }

    fn block(&self, number: u16) -> Vec<u8> {
        let start = (number as usize - 1) * 512;
        let end = (start + 512).min(self.stored.len());
        if start > self.stored.len() {
            Vec::new()
        } else {
            self.stored[start..end].to_vec()
        }
    }
}

fn upload_to(server: &mut MiniServer, payload: &[u8]) {
    let (mut ul, first) = Upload::begin(b"/f".to_vec(), payload.to_vec(), 5);
    let mut reply = server.handle(&first);
    loop {
        let packet = reply.expect("the server hung up mid-upload");
        match ul.step(XferEvent::Received(packet)) {
            XferAction::Send(bytes) => {
                reply = server.handle(&bytes);
            }
            XferAction::Complete => return,
            other => panic!("unexpected upload action {other:?}"),
        }
    }
}

fn download_from(server: &mut MiniServer) -> Vec<u8> {
    let (mut dl, first) = Download::begin(b"/f".to_vec(), 5);
    let mut reply = server.handle(&first);
    loop {
        let packet = reply.expect("the server hung up mid-download");
        match dl.step(XferEvent::Received(packet)) {
            XferAction::Send(bytes) => {
                reply = server.handle(&bytes);
            }
            XferAction::Finish { send, data } => {
                let _ = server.handle(&send);
                return data;
            }
            other => panic!("unexpected download action {other:?}"),
        }
    }
}

#[test]
fn upload_then_download_round_trip() {
    for len in [0usize, 1, 511, 512, 513, 1024, 1500] {
        let payload: Vec<u8> = (0..len).map(|i| (i % 251) as u8).collect();
        let mut server = MiniServer { stored: Vec::new() };
        upload_to(&mut server, &payload);
        assert_eq!(server.stored, payload, "stored bytes for length {len}");
        let back = download_from(&mut server);
        assert_eq!(back, payload, "downloaded bytes for length {len}");
    }
}

#[test]
fn final_block_of_full_payload_is_empty() {
    // A payload of exactly one block is closed by an empty DATA packet.
    let payload = vec![7u8; 512];
    let (mut ul, _wrq) = Upload::begin(b"/f".to_vec(), payload, 5);
    // The WRQ acknowledgement releases the full block.
    match ul.step(XferEvent::Received(Payload::Ack { block: 0 }.pack())) {
        XferAction::Send(bytes) => match Payload::unpack(&bytes).unwrap() {
            Payload::Data { block, data } => {
                assert_eq!(block, 1);
                assert_eq!(data.len(), 512);
            }
            other => panic!("expected the first data block, got {other:?}"),
        },
        other => panic!("expected a send, got {other:?}"),
    }
    match ul.step(XferEvent::Received(Payload::Ack { block: 1 }.pack())) {
        XferAction::Send(bytes) => match Payload::unpack(&bytes).unwrap() {
            Payload::Data { block, data } => {
                assert_eq!(block, 2);
                assert_eq!(data.len(), 0);
            }
            other => panic!("expected the closing empty block, got {other:?}"),
        },
        other => panic!("expected a send, got {other:?}"),
    }
    assert!(matches!(
        ul.step(XferEvent::Received(Payload::Ack { block: 2 }.pack())),
        XferAction::Complete
    ));
    // The empty payload is one empty DATA packet.
    let (mut empty, _wrq) = Upload::begin(b"/f".to_vec(), Vec::new(), 5);
    match empty.step(XferEvent::Received(Payload::Ack { block: 0 }.pack())) {
        XferAction::Send(bytes) => match Payload::unpack(&bytes).unwrap() {
            Payload::Data { block, data } => {
                assert_eq!(block, 1);
                assert_eq!(data.len(), 0);
            }
            other => panic!("expected one empty block, got {other:?}"),
        },
        other => panic!("expected a send, got {other:?}"),
    }
}

#[test]
fn timeouts_resend_then_fail() {
    let (mut dl, rrq) = Download::begin(b"/f".to_vec(), 2);
    // Each timeout resends the last packet, here the read request.
    match dl.step(XferEvent::TimedOut) {
        XferAction::Send(bytes) => assert_eq!(bytes, rrq),
        other => panic!("expected a resend, got {other:?}"),
    }
    match dl.step(XferEvent::TimedOut) {
        XferAction::Send(bytes) => assert_eq!(bytes, rrq),
        other => panic!("expected a resend, got {other:?}"),
    }
    // The budget of two is gone: the next timeout fails.
    assert!(matches!(
        dl.step(XferEvent::TimedOut),
        XferAction::Fail(casperfpga::tftp::Error::Timeout)
    ));
}

#[test]
fn out_of_order_data_resends_previous_ack() {
    let (mut dl, _rrq) = Download::begin(b"/f".to_vec(), 5);
    let first = Payload::Data {
        block: 1,
        data: vec![1u8; 512],
    };
    let ack1 = Payload::Ack { block: 1 }.pack();
    match dl.step(XferEvent::Received(first.pack())) {
        XferAction::Send(bytes) => assert_eq!(bytes, ack1),
        other => panic!("expected the first acknowledgement, got {other:?}"),
    }
    // A repeat of block one is not acknowledged anew: the previous
    // acknowledgement goes out again.
    match dl.step(XferEvent::Received(first.pack())) {
        XferAction::Send(bytes) => assert_eq!(bytes, ack1),
        other => panic!("expected a resend of the acknowledgement, got {other:?}"),
    }
}

#[test]
fn write_transfer_fails_on_wrong_ack() {
    let (mut ul, _wrq) = Upload::begin(b"/f".to_vec(), vec![1, 2, 3], 5);
    assert!(matches!(
        ul.step(XferEvent::Received(Payload::Ack { block: 7 }.pack())),
        XferAction::Fail(casperfpga::tftp::Error::BadBlock(7))
    ));
}

#[test]
fn download_fails_on_server_error() {
    let (mut dl, _rrq) = Download::begin(b"/missing".to_vec(), 5);
    let err = Payload::Error {
        error_code: casperfpga::tftp::ErrorCode::NotFound,
        error_msg: b"no file".to_vec(),
    };
    assert!(matches!(
        dl.step(XferEvent::Received(err.pack())),
        XferAction::Fail(casperfpga::tftp::Error::ErrorResponse(
            casperfpga::tftp::ErrorCode::NotFound,
            _
        ))
    ));
}

#[test]
fn retry_policy_absorbs_protocol_errors() {
    let mut policy = RetryPolicy::new(2, 500);
    let protocol_error = || {
        casperfpga::tftp::Error::ErrorResponse(
            casperfpga::tftp::ErrorCode::NotDefined,
            b"busy".to_vec(),
        )
    };
    match policy.on_failure(protocol_error()) {
        RetryDecision::SleepAndRetry(pause) => assert_eq!(pause, 500),
        other => panic!("expected a retry, got {other:?}"),
    }
    match policy.on_failure(protocol_error()) {
        RetryDecision::SleepAndRetry(pause) => assert_eq!(pause, 750),
        other => panic!("expected a retry, got {other:?}"),
    }
    assert!(matches!(
        policy.on_failure(protocol_error()),
        RetryDecision::GiveUp(casperfpga::tftp::Error::Timeout)
    ));
    // Any other fault propagates at once.
    let mut fresh = RetryPolicy::new(2, 500);
    assert!(matches!(
        fresh.on_failure(casperfpga::tftp::Error::BadOpcode),
        RetryDecision::GiveUp(casperfpga::tftp::Error::BadOpcode)
    ));
}
