//! The TFTP transfer engines, as state machines: a download collects DATA
//! blocks in order and acknowledges each; an upload sends the payload in
//! 512-byte blocks against the server's acknowledgements. The socket never
//! appears here — a driver performs each returned send and feeds back what
//! arrived (or that nothing did), and every protocol decision is made and
//! specified in this module.

use vstd::prelude::*;

use crate::encoding::clone_bytes;
use crate::tapcp::MAX_TIMEOUT_MS;
use crate::tftp::{
    packet_bytes, parse_packet, Error, ErrorModel, Mode, PacketModel, Payload, MAX_DATA,
};

verus! {

/// What a transfer sees from the socket: a datagram, or nothing in time.
#[derive(Debug)]
pub enum XferEvent {
    Received(Vec<u8>),
    TimedOut,
}

/// What the driver must do next.
#[derive(Debug)]
pub enum XferAction {
    /// Send these bytes, then wait for the next datagram.
    Send(Vec<u8>),
    /// Send these bytes (the final acknowledgement); the download is done
    /// and `data` is the whole payload.
    Finish { send: Vec<u8>, data: Vec<u8> },
    /// The upload is done.
    Complete,
    /// The transfer failed.
    Fail(Error),
}

/// The 512-byte blocks a payload travels in: every block but the last is
/// full, and a payload that fills its last block is closed by an empty one.
pub open spec fn data_blocks(data: Seq<u8>) -> Seq<Seq<u8>>
    decreases data.len(),
{
    if data.len() < 512 {
        seq![data]
    } else {
        seq![data.take(512)] + data_blocks(data.skip(512))
    }
}

/// The blocks of a payload carry it faithfully: they flatten back to the
/// payload, every block before the last holds exactly 512 bytes, the last
/// holds fewer — and a payload whose length is a multiple of 512 (the empty
/// payload included) ends in an empty block.
pub proof fn lemma_data_blocks(data: Seq<u8>)
    ensures
        data_blocks(data).len() >= 1,
        data_blocks(data).flatten() == data,
        forall|i: int|
            0 <= i < data_blocks(data).len() - 1 ==> (#[trigger] data_blocks(data)[i]).len()
                == 512,
        data_blocks(data).last().len() < 512,
        data.len() % 512 == 0 ==> data_blocks(data).last().len() == 0,
        data_blocks(data).len() == data.len() / 512 + 1,
    decreases data.len(),
{
    if data.len() < 512 {
        assert(data_blocks(data) == seq![data]);
        assert(seq![data].flatten() =~= data) by {
            assert(seq![data].first() == data);
            assert(seq![data].drop_first() =~= Seq::<Seq<u8>>::empty());
            assert(seq![data].flatten() == data + seq![data].drop_first().flatten());
            assert(Seq::<Seq<u8>>::empty().flatten() =~= Seq::<u8>::empty());
            assert(data + Seq::<u8>::empty() =~= data);
        };
    } else {
        let rest = data.skip(512);
        lemma_data_blocks(rest);
        let bs = data_blocks(data);
        assert(bs == seq![data.take(512)] + data_blocks(rest));
        assert(bs.flatten() =~= data) by {
            assert((seq![data.take(512)] + data_blocks(rest)).flatten() == seq![
                data.take(512),
            ].flatten() + data_blocks(rest).flatten()) by {
                vstd::seq_lib::lemma_flatten_concat(seq![data.take(512)], data_blocks(rest));
            };
            assert(seq![data.take(512)].first() == data.take(512));
            assert(seq![data.take(512)].drop_first() =~= Seq::<Seq<u8>>::empty());
            assert(seq![data.take(512)].flatten() == data.take(512) + seq![
                data.take(512),
            ].drop_first().flatten());
            assert(Seq::<Seq<u8>>::empty().flatten() =~= Seq::<u8>::empty());
            assert(data.take(512) + Seq::<u8>::empty() =~= data.take(512));
            assert(data.take(512) + rest =~= data);
        };
        assert forall|i: int| 0 <= i < bs.len() - 1 implies (#[trigger] bs[i]).len() == 512 by {
            if i > 0 {
                assert(bs[i] == data_blocks(rest)[i - 1]);
            }
        };
        assert(bs.last() == data_blocks(rest).last());
        assert(data.len() % 512 == 0 ==> rest.len() % 512 == 0);
        assert(data.len() / 512 == rest.len() / 512 + 1);
    }
}

/// The block round trip at the heart of the transfer pair: for every byte
/// sequence, uploading it sends exactly its blocks, and a download that
/// receives those blocks in order hands back the very same bytes.
pub proof fn lemma_tftp_round_trip(data: Seq<u8>)
    ensures
        data_blocks(data).flatten() == data,
{
    lemma_data_blocks(data);
}

/// The upload-then-download identity: a download that has received exactly
/// the blocks an upload of `data` sends — which a server storing them
/// faithfully serves back — holds exactly `data`.
pub proof fn lemma_download_of_upload(dl: Download, data: Seq<u8>)
    requires
        dl.wf(),
        dl.spec_blocks() == data_blocks(data),
    ensures
        dl.spec_data() == data,
{
    lemma_data_blocks(data);
}

// ---------------------------------------------------------------------------
// Download
// ---------------------------------------------------------------------------

/// Where a download stands: which block it expects, what it has collected,
/// how many timeouts it will still absorb, and the last packet it sent
/// (resent whenever the server goes quiet or repeats itself).
pub struct Download {
    expected_block: u16,
    data: Vec<u8>,
    retries_left: usize,
    last_sent: Vec<u8>,
    blocks: Ghost<Seq<Seq<u8>>>,
}

impl Download {
    /// The payload blocks received, in order.
    pub closed spec fn spec_blocks(&self) -> Seq<Seq<u8>> {
        self.blocks@
    }

    /// The bytes collected so far.
    pub closed spec fn spec_data(&self) -> Seq<u8> {
        self.data@
    }

    /// The block number expected next.
    pub closed spec fn spec_expected(&self) -> u16 {
        self.expected_block
    }

    /// How many more timeouts are absorbed before the download fails.
    pub closed spec fn spec_retries_left(&self) -> int {
        self.retries_left as int
    }

    /// The bytes of the packet sent last.
    pub closed spec fn spec_last_sent(&self) -> Seq<u8> {
        self.last_sent@
    }

    /// The collected bytes are the received blocks, flattened; established
    /// at `begin` and kept by every step.
    pub closed spec fn wf(&self) -> bool {
        self.data@ == self.blocks@.flatten()
    }

    /// Opens a download of `filename` in octet mode: the returned bytes are
    /// the read request to send first.
    pub fn begin(filename: Vec<u8>, retries: usize) -> (r: (Download, Vec<u8>))
        ensures
            r.1@ == packet_bytes(
                PacketModel::Read { filename: filename@, mode: Mode::Octet },
            ),
            r.0.wf(),
            r.0.spec_blocks() == Seq::<Seq<u8>>::empty(),
            r.0.spec_data() == Seq::<u8>::empty(),
            r.0.spec_expected() == 1,
            r.0.spec_retries_left() == retries,
            r.0.spec_last_sent() == r.1@,
    {
        let rrq = Payload::Read { filename, mode: Mode::Octet };
        let bytes = rrq.pack();
        let dl = Download {
            expected_block: 1,
            data: Vec::new(),
            retries_left: retries,
            last_sent: clone_bytes(&bytes),
            blocks: Ghost(Seq::empty()),
        };
        proof {
            assert(Seq::<Seq<u8>>::empty().flatten() =~= Seq::<u8>::empty());
        }
        (dl, bytes)
    }

    /// Drives the download by one received datagram or one timeout.
    ///
    /// An in-order DATA block is collected and acknowledged — and a short
    /// one completes the transfer. Any other well-formed DATA (or any other
    /// well-formed packet) is answered by resending the last packet, as the
    /// out-of-order rule asks. An ERROR packet, or one that does not parse,
    /// fails the download with that fault. A timeout resends the last
    /// packet until the retry budget is gone, then fails with `Timeout`.
    pub fn step(&mut self, event: XferEvent) -> (r: XferAction)
        requires
            old(self).wf(),
        ensures
            final(self).wf(),
            match event {
                XferEvent::TimedOut => {
                    if old(self).spec_retries_left() == 0 {
                        &&& r matches XferAction::Fail(e)
                        &&& e@ == ErrorModel::Timeout
                        &&& final(self).spec_blocks() == old(self).spec_blocks()
                    } else {
                        &&& r matches XferAction::Send(b) && b@ == old(self).spec_last_sent()
                        &&& final(self).spec_retries_left() == old(self).spec_retries_left() - 1
                        &&& final(self).spec_blocks() == old(self).spec_blocks()
                        &&& final(self).spec_expected() == old(self).spec_expected()
                        &&& final(self).spec_last_sent() == old(self).spec_last_sent()
                    }
                },
                XferEvent::Received(bytes) => {
                    match parse_packet(bytes@) {
                        Ok(PacketModel::Data { block, data }) => {
                            if block == old(self).spec_expected() {
                                let ack = packet_bytes(PacketModel::Ack { block });
                                &&& final(self).spec_blocks() == old(self).spec_blocks().push(
                                    data,
                                )
                                &&& final(self).spec_data() == old(self).spec_data() + data
                                &&& if data.len() < 512 {
                                    r matches XferAction::Finish { send, data: got } && send@
                                        == ack && got@ == old(self).spec_data() + data
                                } else {
                                    (r matches XferAction::Send(b) && b@ == ack) && final(self).spec_expected() == (
                                    if old(self).spec_expected() == 0xFFFF {
                                        0u16
                                    } else {
                                        (old(self).spec_expected() + 1) as u16
                                    }) && final(self).spec_last_sent() == ack
                                }
                            } else {
                                (r matches XferAction::Send(b) && b@ == old(
                                    self,
                                ).spec_last_sent()) && final(self).spec_blocks() == old(
                                    self,
                                ).spec_blocks() && final(self).spec_expected() == old(
                                    self,
                                ).spec_expected()
                            }
                        },
                        Ok(PacketModel::Error { error_code, error_msg }) => r matches
                            XferAction::Fail(e) && e@ == ErrorModel::ErrorResponse(
                            error_code,
                            error_msg,
                        ) && final(self).spec_blocks() == old(self).spec_blocks(),
                        Ok(_) => (r matches XferAction::Send(b) && b@ == old(
                            self,
                        ).spec_last_sent()) && final(self).spec_blocks() == old(
                            self,
                        ).spec_blocks() && final(self).spec_expected() == old(
                            self,
                        ).spec_expected(),
                        Err(pe) => r matches XferAction::Fail(e) && e@ == pe && final(self).spec_blocks() == old(self).spec_blocks(),
                    }
                },
            },
    {
        match event {
            XferEvent::TimedOut => {
                if self.retries_left == 0 {
                    XferAction::Fail(Error::Timeout)
                } else {
                    self.retries_left = self.retries_left - 1;
                    XferAction::Send(clone_bytes(&self.last_sent))
                }
            },
            XferEvent::Received(bytes) => {
                let packet = match Payload::unpack(&bytes) {
                    Ok(p) => p,
                    Err(e) => {
                        return XferAction::Fail(e);
                    },
                };
                match packet {
                    Payload::Data { block, data } => {
                        if block == self.expected_block {
                            let ack = Payload::Ack { block };
                            let ack_bytes = ack.pack();
                            let short = data.len() < MAX_DATA;
                            let ghost old_data = self.data@;
                            crate::encoding::append_bytes(&mut self.data, &data);
                            proof {
                                let before = self.blocks@;
                                self.blocks@ = self.blocks@.push(data@);
                                assert(before + seq![data@] =~= self.blocks@);
                                vstd::seq_lib::lemma_flatten_concat(before, seq![data@]);
                                assert(seq![data@].first() == data@);
                                assert(seq![data@].drop_first() =~= Seq::<Seq<u8>>::empty());
                                assert(seq![data@].flatten() == data@ + seq![
                                    data@,
                                ].drop_first().flatten());
                                assert(Seq::<Seq<u8>>::empty().flatten() =~= Seq::<u8>::empty());
                                assert(data@ + Seq::<u8>::empty() =~= data@);
                                assert(self.blocks@.flatten() == before.flatten() + seq![
                                    data@,
                                ].flatten());
                                assert(self.blocks@.flatten() == old_data + data@);
                            }
                            if short {
                                let out = clone_bytes(&self.data);
                                XferAction::Finish { send: ack_bytes, data: out }
                            } else {
                                // The block counter wraps past 65535, as long
                                // transfers against this server family do.
                                self.expected_block = if self.expected_block == u16::MAX {
                                    0
                                } else {
                                    self.expected_block + 1
                                };
                                self.last_sent = clone_bytes(&ack_bytes);
                                XferAction::Send(ack_bytes)
                            }
                        } else {
                            XferAction::Send(clone_bytes(&self.last_sent))
                        }
                    },
                    Payload::Error { error_code, error_msg } => {
                        XferAction::Fail(Error::ErrorResponse(error_code, error_msg))
                    },
                    _ => XferAction::Send(clone_bytes(&self.last_sent)),
                }
            },
        }
    }
}

// ---------------------------------------------------------------------------
// Upload
// ---------------------------------------------------------------------------

/// The block at index `k`, sliced straight out of the payload.
pub proof fn lemma_data_blocks_index(d: Seq<u8>, k: int)
    requires
        0 <= k < data_blocks(d).len(),
    ensures
        data_blocks(d)[k] == d.subrange(
            k * 512,
            if k * 512 + 512 <= d.len() {
                k * 512 + 512
            } else {
                d.len() as int
            },
        ),
    decreases d.len(),
{
    if d.len() < 512 {
        assert(data_blocks(d) == seq![d]);
        assert(d.subrange(0, d.len() as int) =~= d);
    } else {
        let rest = d.skip(512);
        lemma_data_blocks(rest);
        assert(data_blocks(d) == seq![d.take(512)] + data_blocks(rest));
        if k == 0 {
            assert(d.take(512) =~= d.subrange(0, 512));
        } else {
            lemma_data_blocks_index(rest, k - 1);
            assert(data_blocks(d)[k] == data_blocks(rest)[k - 1]);
            let lo = (k - 1) * 512;
            let hi = if lo + 512 <= rest.len() {
                lo + 512
            } else {
                rest.len() as int
            };
            assert(rest.subrange(lo, hi) =~= d.subrange(lo + 512, hi + 512)) by {
                assert(forall|j: int|
                    0 <= j < hi - lo ==> #[trigger] rest.subrange(lo, hi)[j] == rest[lo + j]
                        && rest[lo + j] == d[lo + 512 + j]);
            };
            assert(k * 512 == lo + 512);
        }
    }
}

/// Where an upload stands: the payload, the block whose acknowledgement is
/// awaited (`0` before the write request is answered), how many blocks
/// there are in all, the retry budget, and the last packet sent.
pub struct Upload {
    data: Vec<u8>,
    awaiting: u16,
    blocks_count: u16,
    retries_left: usize,
    last_sent: Vec<u8>,
    sent: Ghost<Seq<Seq<u8>>>,
}

impl Upload {
    /// The payload being uploaded.
    pub closed spec fn spec_data(&self) -> Seq<u8> {
        self.data@
    }

    /// The block number whose acknowledgement is awaited.
    pub closed spec fn spec_awaiting(&self) -> u16 {
        self.awaiting
    }

    /// How many more timeouts are absorbed before the upload fails.
    pub closed spec fn spec_retries_left(&self) -> int {
        self.retries_left as int
    }

    /// The bytes of the packet sent last.
    pub closed spec fn spec_last_sent(&self) -> Seq<u8> {
        self.last_sent@
    }

    /// The DATA payloads sent so far, in order.
    pub closed spec fn spec_sent(&self) -> Seq<Seq<u8>> {
        self.sent@
    }

    /// What was sent is exactly the first `awaiting` blocks of the payload:
    /// established at `begin` and kept by every step, so that a completed
    /// upload has sent precisely `data_blocks` of its payload.
    pub closed spec fn wf(&self) -> bool {
        &&& self.sent@ == data_blocks(self.data@).take(self.awaiting as int)
        &&& self.awaiting as int <= data_blocks(self.data@).len()
        &&& self.blocks_count as int == data_blocks(self.data@).len()
    }

    /// Whether every block has been sent and acknowledged.
    pub open spec fn spec_complete(&self) -> bool {
        self.spec_awaiting() as int == data_blocks(self.spec_data()).len()
    }

    /// Opens an upload of `data` to `filename` in octet mode: the returned
    /// bytes are the write request to send first. The payload must fit the
    /// 16-bit block numbering.
    pub fn begin(filename: Vec<u8>, data: Vec<u8>, retries: usize) -> (r: (Upload, Vec<u8>))
        requires
            data@.len() <= 33553919,
        ensures
            r.1@ == packet_bytes(
                PacketModel::Write { filename: filename@, mode: Mode::Octet },
            ),
            r.0.wf(),
            r.0.spec_data() == data@,
            r.0.spec_awaiting() == 0,
            r.0.spec_sent() == Seq::<Seq<u8>>::empty(),
            r.0.spec_retries_left() == retries,
            r.0.spec_last_sent() == r.1@,
    {
        proof {
            lemma_data_blocks(data@);
        }
        let blocks_count = (data.len() / 512 + 1) as u16;
        let wrq = Payload::Write { filename, mode: Mode::Octet };
        let bytes = wrq.pack();
        let ul = Upload {
            data,
            awaiting: 0,
            blocks_count,
            retries_left: retries,
            last_sent: clone_bytes(&bytes),
            sent: Ghost(Seq::empty()),
        };
        proof {
            assert(data_blocks(ul.data@).take(0) =~= Seq::<Seq<u8>>::empty());
        }
        (ul, bytes)
    }

    /// Drives the upload by one received datagram or one timeout.
    ///
    /// The acknowledgement of the awaited block releases the next DATA
    /// packet — carrying exactly the next 512-byte block of the payload —
    /// or completes the upload once every block is out. An acknowledgement
    /// of any other block is fatal, as a write transfer cannot recover its
    /// place. An ERROR packet, or one that does not parse, fails the upload
    /// with that fault; any other well-formed packet is answered by
    /// resending the last packet. A timeout resends the last packet until
    /// the retry budget is gone, then fails with `Timeout`.
    pub fn step(&mut self, event: XferEvent) -> (r: XferAction)
        requires
            old(self).wf(),
        ensures
            final(self).wf(),
            final(self).spec_data() == old(self).spec_data(),
            match event {
                XferEvent::TimedOut => {
                    if old(self).spec_retries_left() == 0 {
                        &&& r matches XferAction::Fail(e)
                        &&& e@ == ErrorModel::Timeout
                        &&& final(self).spec_sent() == old(self).spec_sent()
                    } else {
                        &&& r matches XferAction::Send(b) && b@ == old(self).spec_last_sent()
                        &&& final(self).spec_retries_left() == old(self).spec_retries_left() - 1
                        &&& final(self).spec_sent() == old(self).spec_sent()
                        &&& final(self).spec_awaiting() == old(self).spec_awaiting()
                        &&& final(self).spec_last_sent() == old(self).spec_last_sent()
                    }
                },
                XferEvent::Received(bytes) => {
                    match parse_packet(bytes@) {
                        Ok(PacketModel::Ack { block }) => {
                            if block == old(self).spec_awaiting() {
                                if old(self).spec_awaiting() as int == data_blocks(
                                    old(self).spec_data(),
                                ).len() {
                                    (r is Complete) && final(self).spec_sent() == data_blocks(
                                        old(self).spec_data(),
                                    ) && final(self).spec_complete()
                                } else {
                                    let payload = data_blocks(old(self).spec_data())[old(
                                        self,
                                    ).spec_awaiting() as int];
                                    let pkt = packet_bytes(
                                        PacketModel::Data {
                                            block: (old(self).spec_awaiting() + 1) as u16,
                                            data: payload,
                                        },
                                    );
                                    (r matches XferAction::Send(b) && b@ == pkt) && final(self).spec_awaiting() == old(self).spec_awaiting() + 1 && final(self).spec_sent() == old(self).spec_sent().push(payload) && final(self).spec_last_sent() == pkt
                                }
                            } else {
                                (r matches XferAction::Fail(e) && e@ == ErrorModel::BadBlock(
                                    block,
                                )) && final(self).spec_sent() == old(self).spec_sent()
                            }
                        },
                        Ok(PacketModel::Error { error_code, error_msg }) => (r matches
                            XferAction::Fail(e) && e@ == ErrorModel::ErrorResponse(
                            error_code,
                            error_msg,
                        )) && final(self).spec_sent() == old(self).spec_sent(),
                        Ok(_) => (r matches XferAction::Send(b) && b@ == old(
                            self,
                        ).spec_last_sent()) && final(self).spec_sent() == old(self).spec_sent()
                            && final(self).spec_awaiting() == old(self).spec_awaiting(),
                        Err(pe) => (r matches XferAction::Fail(e) && e@ == pe) && final(self).spec_sent() == old(self).spec_sent(),
                    }
                },
            },
    {
        match event {
            XferEvent::TimedOut => {
                if self.retries_left == 0 {
                    XferAction::Fail(Error::Timeout)
                } else {
                    self.retries_left = self.retries_left - 1;
                    XferAction::Send(clone_bytes(&self.last_sent))
                }
            },
            XferEvent::Received(bytes) => {
                let packet = match Payload::unpack(&bytes) {
                    Ok(p) => p,
                    Err(e) => {
                        return XferAction::Fail(e);
                    },
                };
                match packet {
                    Payload::Ack { block } => {
                        if block == self.awaiting {
                            if self.awaiting == self.blocks_count {
                                proof {
                                    assert(self.sent@ =~= data_blocks(self.data@)) by {
                                        assert(data_blocks(self.data@).take(
                                            self.awaiting as int,
                                        ) =~= data_blocks(self.data@));
                                    };
                                }
                                XferAction::Complete
                            } else {
                                let k = self.awaiting as usize;
                                proof {
                                    lemma_data_blocks(self.data@);
                                    lemma_data_blocks_index(self.data@, k as int);
                                    assert(k * 512 <= (self.blocks_count - 1) * 512);
                                    assert((self.blocks_count - 1) * 512 == (self.data@.len()
                                        / 512) * 512);
                                    assert((self.data@.len() / 512) * 512 <= self.data@.len());
                                }
                                let start = k * 512;
                                let len = self.data.len();
                                let end = if len - start < 512 {
                                    len
                                } else {
                                    start + 512
                                };
                                let payload = crate::encoding::subvec(&self.data, start, end);
                                let ghost payload_spec = payload@;
                                let pkt = Payload::Data {
                                    block: self.awaiting + 1,
                                    data: payload,
                                };
                                let pkt_bytes = pkt.pack();
                                self.awaiting = self.awaiting + 1;
                                self.last_sent = clone_bytes(&pkt_bytes);
                                proof {
                                    self.sent@ = self.sent@.push(payload_spec);
                                    assert(payload_spec == data_blocks(self.data@)[k as int]);
                                    assert(data_blocks(self.data@).take(self.awaiting as int)
                                        =~= data_blocks(self.data@).take(k as int).push(
                                        payload_spec,
                                    ));
                                }
                                XferAction::Send(pkt_bytes)
                            }
                        } else {
                            XferAction::Fail(Error::BadBlock(block))
                        }
                    },
                    Payload::Error { error_code, error_msg } => {
                        XferAction::Fail(Error::ErrorResponse(error_code, error_msg))
                    },
                    _ => XferAction::Send(clone_bytes(&self.last_sent)),
                }
            },
        }
    }
}

// ---------------------------------------------------------------------------
// Retry policy
// ---------------------------------------------------------------------------

/// The wait before the n-th receive retry, in milliseconds: one less than
/// the n-th power of two.
pub fn backoff_delay_ms(retry_count: u32) -> (r: u64)
    requires
        retry_count < 64,
    ensures
        r == (1u64 << retry_count) - 1,
{
    assert((1u64 << retry_count) >= 1) by (bit_vector)
        requires
            retry_count < 64,
    ;
    (1u64 << retry_count) - 1
}

/// A grown per-transaction timeout: half again as long, capped.
pub fn grow_timeout_ms(t: u64) -> (r: u64)
    requires
        t <= MAX_TIMEOUT_MS,
    ensures
        t + t / 2 <= MAX_TIMEOUT_MS ==> r == t + t / 2,
        t + t / 2 > MAX_TIMEOUT_MS ==> r == MAX_TIMEOUT_MS,
{
    let grown = t + t / 2;
    if grown > MAX_TIMEOUT_MS {
        MAX_TIMEOUT_MS
    } else {
        grown
    }
}

/// The outer retry layer over whole transfers: the board sheds load by
/// answering rapid traffic with spurious protocol errors, so a transfer
/// that failed with a server ERROR is retried after a growing pause, while
/// every other failure propagates at once.
pub struct RetryPolicy {
    used: usize,
    budget: usize,
    timeout_ms: u64,
}

/// What to do with one failed transfer.
#[derive(Debug)]
pub enum RetryDecision {
    /// Sleep this many milliseconds, then run the whole transfer again.
    SleepAndRetry(u64),
    /// Give up with this fault.
    GiveUp(Error),
}

impl RetryPolicy {
    /// How many retries have been spent.
    pub closed spec fn spec_used(&self) -> int {
        self.used as int
    }

    /// How many retries there are in all.
    pub closed spec fn spec_budget(&self) -> int {
        self.budget as int
    }

    /// The pause before the next retry, in milliseconds.
    pub closed spec fn spec_timeout_ms(&self) -> u64 {
        self.timeout_ms
    }

    /// The timeout never passes its cap.
    pub closed spec fn wf(&self) -> bool {
        self.timeout_ms <= MAX_TIMEOUT_MS
    }

    /// A fresh policy with `budget` retries and the starting pause.
    pub fn new(budget: usize, timeout_ms: u64) -> (r: RetryPolicy)
        requires
            timeout_ms <= MAX_TIMEOUT_MS,
        ensures
            r.wf(),
            r.spec_used() == 0,
            r.spec_budget() == budget,
            r.spec_timeout_ms() == timeout_ms,
    {
        RetryPolicy { used: 0, budget, timeout_ms }
    }

    /// Decides on one transfer failure: a server ERROR is transient — sleep
    /// the current pause, grow it by half (capped), and retry, until the
    /// budget is spent and the transfer fails with `Timeout`; every other
    /// fault gives up at once, unchanged.
    pub fn on_failure(&mut self, fault: Error) -> (r: RetryDecision)
        requires
            old(self).wf(),
        ensures
            final(self).wf(),
            final(self).spec_budget() == old(self).spec_budget(),
            match r {
                RetryDecision::SleepAndRetry(pause) => {
                    &&& fault@ matches ErrorModel::ErrorResponse(_, _)
                    &&& old(self).spec_used() < old(self).spec_budget()
                    &&& pause == old(self).spec_timeout_ms()
                    &&& final(self).spec_used() == old(self).spec_used() + 1
                },
                RetryDecision::GiveUp(e) => {
                    &&& final(self).spec_used() == old(self).spec_used()
                    &&& if fault@ matches ErrorModel::ErrorResponse(_, _) {
                        old(self).spec_used() >= old(self).spec_budget() && e@
                            == ErrorModel::Timeout
                    } else {
                        e@ == fault@
                    }
                },
            },
    {
        match fault {
            Error::ErrorResponse(code, msg) => {
                if self.used >= self.budget {
                    RetryDecision::GiveUp(Error::Timeout)
                } else {
                    self.used = self.used + 1;
                    let pause = self.timeout_ms;
                    self.timeout_ms = grow_timeout_ms(self.timeout_ms);
                    RetryDecision::SleepAndRetry(pause)
                }
            },
            other => RetryDecision::GiveUp(other),
        }
    }
}

} // verus!
