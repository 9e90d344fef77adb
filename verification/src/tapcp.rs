//! TAPCP operations over the board's pseudo-file namespace: the filenames,
//! the word-aligned read arithmetic, the device-directory decoding, the
//! flash metadata codec, and the programming sequence — everything the
//! socket driver must decide is computed and specified here.

use vstd::prelude::*;

use crate::encoding::{
    append_bytes, bytes_eq, clone_bytes, hex_repr, is_utf8, subvec, to_hex_bytes, utf8_check,
};
use crate::transport::{Error, Register, RegisterMap};

verus! {

/// The flash erase/write unit, in bytes.
pub const FLASH_SECTOR_SIZE: u32 = 0x10000;

/// The starting per-request timeout, in milliseconds.
pub const DEFAULT_TIMEOUT_MS: u64 = 500;

/// The cap the growing timeout never passes, in milliseconds.
pub const MAX_TIMEOUT_MS: u64 = 5000;

/// How many times a whole transaction is retried by default.
pub const DEFAULT_RETRIES: usize = 5;

/// How many words one flash metadata chunk holds.
pub const METADATA_CHUNK_WORDS: u32 = 256;

/// How many metadata chunks are scanned before giving up.
pub const METADATA_MAX_CHUNKS: u32 = 128;

/// Board families that speak TAPCP, which differ in where their flash keeps
/// the metadata sector.
#[derive(Debug, Copy, Clone, PartialEq, Eq, Structural)]
pub enum Platform {
    SNAP,
    SNAP2,
}

/// The platform's metadata sector address on flash.
pub open spec fn spec_flash_location(p: Platform) -> u32 {
    match p {
        Platform::SNAP => 0x0080_0000u32,
        Platform::SNAP2 => 0x00C0_0000u32,
    }
}

impl Platform {
    /// The 32-bit flash address of this platform's metadata sector.
    pub fn flash_location(self) -> (r: u32)
        ensures
            r == spec_flash_location(self),
    {
        match self {
            Platform::SNAP => 0x0080_0000,
            Platform::SNAP2 => 0x00C0_0000,
        }
    }

    /// Where programs are written: one sector past the metadata sector.
    pub fn program_location(self) -> (r: u32)
        ensures
            r == spec_flash_location(self) + FLASH_SECTOR_SIZE,
    {
        self.flash_location() + FLASH_SECTOR_SIZE
    }

    /// The address handed to the boot endpoint: one family's loader wants
    /// the program location shifted right by eight bits, the other takes it
    /// as it is.
    pub fn boot_address(self) -> (r: u32)
        ensures
            self is SNAP ==> r == (spec_flash_location(self) + FLASH_SECTOR_SIZE) / 0x100,
            self is SNAP2 ==> r == spec_flash_location(self) + FLASH_SECTOR_SIZE,
    {
        match self {
            Platform::SNAP => self.program_location() / 0x100,
            Platform::SNAP2 => self.program_location(),
        }
    }
}

// ---------------------------------------------------------------------------
// Pseudo-file names
// ---------------------------------------------------------------------------

/// `/dev/<name>.<word offset>.<word count>`, offsets in lowercase hex.
pub open spec fn read_device_filename_spec(device: Seq<u8>, offset: int, n: int) -> Seq<u8> {
    seq![0x2Fu8, 0x64, 0x65, 0x76, 0x2F] + device + seq![0x2Eu8] + hex_repr(offset) + seq![0x2Eu8]
        + hex_repr(n)
}

/// `/dev/<name>.<word offset>`, offset in lowercase hex.
pub open spec fn write_device_filename_spec(device: Seq<u8>, offset: int) -> Seq<u8> {
    seq![0x2Fu8, 0x64, 0x65, 0x76, 0x2F] + device + seq![0x2Eu8] + hex_repr(offset)
}

/// `/flash.<word offset>.<word count>`, offsets in lowercase hex.
pub open spec fn read_flash_filename_spec(offset: int, n: int) -> Seq<u8> {
    seq![0x2Fu8, 0x66, 0x6C, 0x61, 0x73, 0x68, 0x2E] + hex_repr(offset) + seq![0x2Eu8] + hex_repr(n)
}

/// `/flash.<word offset>`, offset in lowercase hex.
pub open spec fn write_flash_filename_spec(offset: int) -> Seq<u8> {
    seq![0x2Fu8, 0x66, 0x6C, 0x61, 0x73, 0x68, 0x2E] + hex_repr(offset)
}

/// Builds the read name for a device window.
pub fn read_device_filename(device: &Vec<u8>, offset: u64, n: u64) -> (r: Vec<u8>)
    ensures
        r@ == read_device_filename_spec(device@, offset as int, n as int),
{
    let mut out: Vec<u8> = vec![0x2F, 0x64, 0x65, 0x76, 0x2F];
    assert(out@ =~= seq![0x2Fu8, 0x64, 0x65, 0x76, 0x2F]);
    append_bytes(&mut out, device);
    out.push(0x2E);
    let oh = to_hex_bytes(offset);
    append_bytes(&mut out, &oh);
    out.push(0x2E);
    let nh = to_hex_bytes(n);
    append_bytes(&mut out, &nh);
    assert(out@ =~= read_device_filename_spec(device@, offset as int, n as int));
    out
}

/// Builds the write name for a device window.
pub fn write_device_filename(device: &Vec<u8>, offset: u64) -> (r: Vec<u8>)
    ensures
        r@ == write_device_filename_spec(device@, offset as int),
{
    let mut out: Vec<u8> = vec![0x2F, 0x64, 0x65, 0x76, 0x2F];
    assert(out@ =~= seq![0x2Fu8, 0x64, 0x65, 0x76, 0x2F]);
    append_bytes(&mut out, device);
    out.push(0x2E);
    let oh = to_hex_bytes(offset);
    append_bytes(&mut out, &oh);
    assert(out@ =~= write_device_filename_spec(device@, offset as int));
    out
}

/// Builds the read name for a flash window.
pub fn read_flash_filename(offset: u64, n: u64) -> (r: Vec<u8>)
    ensures
        r@ == read_flash_filename_spec(offset as int, n as int),
{
    let mut out: Vec<u8> = vec![0x2F, 0x66, 0x6C, 0x61, 0x73, 0x68, 0x2E];
    assert(out@ =~= seq![0x2Fu8, 0x66, 0x6C, 0x61, 0x73, 0x68, 0x2E]);
    let oh = to_hex_bytes(offset);
    append_bytes(&mut out, &oh);
    out.push(0x2E);
    let nh = to_hex_bytes(n);
    append_bytes(&mut out, &nh);
    assert(out@ =~= read_flash_filename_spec(offset as int, n as int));
    out
}

/// Builds the write name for a flash window.
pub fn write_flash_filename(offset: u64) -> (r: Vec<u8>)
    ensures
        r@ == write_flash_filename_spec(offset as int),
{
    let mut out: Vec<u8> = vec![0x2F, 0x66, 0x6C, 0x61, 0x73, 0x68, 0x2E];
    assert(out@ =~= seq![0x2Fu8, 0x66, 0x6C, 0x61, 0x73, 0x68, 0x2E]);
    let oh = to_hex_bytes(offset);
    append_bytes(&mut out, &oh);
    assert(out@ =~= write_flash_filename_spec(offset as int));
    out
}

/// The name of the clock counter every running gateware serves.
pub open spec fn clk_counter_name() -> Seq<u8> {
    seq![
        0x73u8, 0x79, 0x73, 0x5F, 0x63, 0x6C, 0x6B, 0x63, 0x6F, 0x75, 0x6E, 0x74, 0x65,
        0x72,
    ]
}

/// Writes the clock counter's device name, `sys_clkcounter`.
pub fn clk_counter_bytes() -> (r: Vec<u8>)
    ensures
        r@ == clk_counter_name(),
{
    let v = vec![
        0x73u8, 0x79, 0x73, 0x5F, 0x63, 0x6C, 0x6B, 0x63, 0x6F, 0x75, 0x6E, 0x74, 0x65,
        0x72,
    ];
    assert(v@ =~= clk_counter_name());
    v
}

// ---------------------------------------------------------------------------
// Word-aligned reads
// ---------------------------------------------------------------------------

/// How many whole 4-byte words cover a byte window of `n` bytes starting at
/// byte `offset`.
pub open spec fn word_count(offset: int, n: int) -> int {
    ((offset % 4) + n + 3) / 4
}

/// The word-aligned plan for a byte read: the first word to fetch and how
/// many words to fetch.
pub fn read_word_span(offset: usize, n: usize) -> (r: (usize, usize))
    requires
        offset + n + 3 <= usize::MAX,
    ensures
        r.0 == offset as int / 4,
        r.1 == word_count(offset as int, n as int),
{
    (offset / 4, (offset % 4 + n + 3) / 4)
}

/// Slices the requested bytes out of the fetched words.
pub fn extract_window(words: &Vec<u8>, offset: usize, n: usize) -> (r: Vec<u8>)
    requires
        (offset as int % 4) + n <= words@.len(),
    ensures
        r@ == words@.subrange(offset as int % 4, (offset as int % 4) + n),
{
    let ghost wlen = words@.len();
    proof {
        assert(wlen == words.len());
    }
    let start = offset % 4;
    subvec(words, start, start + n)
}

/// Word-aligned slicing is faithful and minimal: the words fetched by the
/// plan, sliced from `offset mod 4`, are exactly the requested bytes of the
/// device, and one word fewer would not cover them.
pub proof fn lemma_word_aligned_read(mem: Seq<u8>, offset: int, n: int)
    requires
        0 <= offset,
        0 <= n,
        offset + n <= mem.len(),
        4 * (offset / 4 + word_count(offset, n)) <= mem.len(),
    ensures
        mem.subrange(
            4 * (offset / 4),
            4 * (offset / 4) + 4 * word_count(offset, n),
        ).subrange(offset % 4, (offset % 4) + n) == mem.subrange(offset, offset + n),
        n > 0 ==> 4 * (word_count(offset, n) - 1) < (offset % 4) + n,
        (offset % 4) + n <= 4 * word_count(offset, n),
{
    let fw = offset / 4;
    let wc = word_count(offset, n);
    let words = mem.subrange(4 * fw, 4 * fw + 4 * wc);
    assert(offset == 4 * fw + offset % 4);
    assert((offset % 4) + n <= 4 * wc);
    assert forall|j: int| 0 <= j < n implies #[trigger] words.subrange(
        offset % 4,
        (offset % 4) + n,
    )[j] == mem.subrange(offset, offset + n)[j] by {
        assert(words[(offset % 4) + j] == mem[4 * fw + (offset % 4) + j]);
    };
    assert(words.subrange(offset % 4, (offset % 4) + n) =~= mem.subrange(offset, offset + n));
}

/// Whether a device read of `n` words came back whole: a word count of zero
/// reads everything there is, any other asks for exactly `4 n` bytes.
pub fn device_read_complete(len: usize, n: usize) -> (r: bool)
    requires
        n <= usize::MAX / 4,
    ensures
        r == (n == 0 || len == 4 * n),
{
    n == 0 || len == 4 * n
}

// ---------------------------------------------------------------------------
// Device directory
// ---------------------------------------------------------------------------

/// What the directory blob decodes to as a register map: each entry's
/// 8-byte payload read as big-endian address and length.
pub open spec fn listdev_registers(l: Seq<(Seq<u8>, Seq<u8>)>) -> Seq<(Seq<u8>, Register)> {
    l.map_values(
        |e: (Seq<u8>, Seq<u8>)|
            (
                e.0,
                Register {
                    addr: crate::encoding::be32_val(e.1[0], e.1[1], e.1[2], e.1[3]) as usize,
                    length: crate::encoding::be32_val(e.1[4], e.1[5], e.1[6], e.1[7]) as usize,
                },
            ),
    )
}

/// The register-map view of an exec register map.
pub open spec fn register_map_view(m: Seq<(Vec<u8>, Register)>) -> Seq<(Seq<u8>, Register)> {
    m.map_values(|e: (Vec<u8>, Register)| (e.0@, e.1))
}

/// The success shape of a directory decode: the blob decodes to entries
/// whose payloads are all 8 bytes, and the map reads them as registers.
pub open spec fn listdev_ok(b: Seq<u8>, m: Seq<(Seq<u8>, Register)>) -> bool {
    &&& crate::csl::csl_decode(b) matches Ok(l)
    &&& crate::csl::csl_decode(b)->Ok_0.len() == m.len()
    &&& forall|i: int|
        0 <= i < m.len() ==> (#[trigger] crate::csl::csl_decode(b)->Ok_0[i]).1.len() == 8
    &&& m == listdev_registers(crate::csl::csl_decode(b)->Ok_0)
}

/// The failure shape of a directory whose blob decodes but carries a
/// payload of the wrong width.
pub open spec fn listdev_bad_payload(b: Seq<u8>) -> bool {
    &&& crate::csl::csl_decode(b) matches Ok(l)
    &&& exists|i: int|
        0 <= i < crate::csl::csl_decode(b)->Ok_0.len() && (#[trigger] crate::csl::csl_decode(
            b,
        )->Ok_0[i]).1.len() != 8
}

/// Decodes the `/listdev` payload: a CSL blob whose 8-byte payloads carry
/// each device's address and length, big-endian.
pub fn parse_listdev(bytes: &Vec<u8>) -> (r: Result<RegisterMap, Error>)
    ensures
        r matches Ok(m) ==> listdev_ok(bytes@, register_map_view(m@)),
        r matches Err(e) ==> ((e matches Error::Csl(ce) && crate::csl::csl_decode(bytes@)
            == Err::<Seq<(Seq<u8>, Seq<u8>)>, _>(ce)) || ((e matches Error::Incomplete)
            && listdev_bad_payload(bytes@))),
{
    let entries = match crate::csl::from_bytes(bytes) {
        Ok(v) => v,
        Err(e) => {
            return Err(Error::Csl(e));
        },
    };
    let ghost l = crate::csl::pairs_view(entries@);
    let mut out: RegisterMap = Vec::new();
    let mut i: usize = 0;
    while i < entries.len()
        invariant
            0 <= i <= entries@.len(),
            l == crate::csl::pairs_view(entries@),
            crate::csl::csl_decode(bytes@) == Ok::<_, crate::csl::Error>(l),
            forall|j: int| 0 <= j < i ==> (#[trigger] l[j]).1.len() == 8,
            out@.len() == i,
            register_map_view(out@) == listdev_registers(l).take(i as int),
        decreases entries@.len() - i,
    {
        assert(l[i as int] == (entries@[i as int].0@, entries@[i as int].1@));
        if entries[i].1.len() != 8 {
            proof {
                assert(l[i as int].1.len() != 8);
                assert(crate::csl::csl_decode(bytes@)->Ok_0 == l);
                assert(crate::csl::csl_decode(bytes@)->Ok_0[i as int].1.len() != 8);
                assert(listdev_bad_payload(bytes@));
            }
            return Err(Error::Incomplete);
        }
        let pl = &entries[i].1;
        let addr = crate::encoding::u32_from_be(pl[0], pl[1], pl[2], pl[3]);
        let length = crate::encoding::u32_from_be(pl[4], pl[5], pl[6], pl[7]);
        let name = clone_bytes(&entries[i].0);
        let ghost nm = name@;
        let reg = Register { addr: addr as usize, length: length as usize };
        out.push((name, reg));
        proof {
            assert(out@[i as int].0@ == nm && out@[i as int].1 == reg);
            assert(register_map_view(out@)[i as int] == (out@[i as int].0@, out@[i as int].1));
            assert(pl@ == l[i as int].1);
            assert(listdev_registers(l)[i as int] == (
                l[i as int].0,
                Register {
                    addr: crate::encoding::be32_val(
                        l[i as int].1[0],
                        l[i as int].1[1],
                        l[i as int].1[2],
                        l[i as int].1[3],
                    ) as usize,
                    length: crate::encoding::be32_val(
                        l[i as int].1[4],
                        l[i as int].1[5],
                        l[i as int].1[6],
                        l[i as int].1[7],
                    ) as usize,
                },
            ));
            assert(register_map_view(out@)[i as int] == listdev_registers(l)[i as int]);
            assert(register_map_view(out@) =~= listdev_registers(l).take(i + 1));
        }
        i += 1;
    }
    assert(listdev_registers(l).take(i as int) =~= listdev_registers(l));
    assert(listdev_ok(bytes@, register_map_view(out@)));
    Ok(out)
}

// ---------------------------------------------------------------------------
// Liveness probe
// ---------------------------------------------------------------------------

/// What the probe of the clock counter concludes (the check behind
/// `is_running`): an answer means a user program is serving the register; a
/// file-not-found ERROR from the server means none is loaded, and only that
/// ERROR code — every other failure is a real transport error.
pub fn classify_running(outcome: Result<Vec<u8>, crate::tftp::Error>) -> (r: Result<bool, Error>)
    ensures
        r matches Ok(b) ==> (b <==> outcome is Ok) || !(outcome matches Err(
            crate::tftp::Error::ErrorResponse(code, _),
        ) && code == crate::tftp::ErrorCode::NotFound),
        outcome is Ok ==> (r matches Ok(b) && b),
        (outcome matches Err(e) && e@ matches crate::tftp::ErrorModel::ErrorResponse(code, _)
            && code == crate::tftp::ErrorCode::NotFound) ==> (r matches Ok(b) && !b),
        (outcome matches Err(e) && !(e@ matches crate::tftp::ErrorModel::ErrorResponse(code, _)
            && code == crate::tftp::ErrorCode::NotFound)) ==> (r matches Err(te) && te matches Error::Tftp(_)),
{
    match outcome {
        Ok(_) => Ok(true),
        Err(e) => match e {
            crate::tftp::Error::ErrorResponse(code, msg) => {
                if matches!(code, crate::tftp::ErrorCode::NotFound) {
                    Ok(false)
                } else {
                    Err(Error::Tftp(crate::tftp::Error::ErrorResponse(code, msg)))
                }
            },
            other => Err(Error::Tftp(other)),
        },
    }
}

// ---------------------------------------------------------------------------
// Flash metadata
// ---------------------------------------------------------------------------

/// The metadata terminator text, `?end`.
pub open spec fn end_marker_text() -> Seq<u8> {
    seq![0x3Fu8, 0x65, 0x6E, 0x64]
}

/// One stored pair: `?key<TAB>value`.
pub open spec fn meta_pair_bytes(k: Seq<u8>, v: Seq<u8>) -> Seq<u8> {
    seq![0x3Fu8] + k + seq![0x09u8] + v
}

/// All stored pairs, in order.
pub open spec fn meta_pairs_bytes(pairs: Seq<(Seq<u8>, Seq<u8>)>) -> Seq<u8>
    decreases pairs.len(),
{
    if pairs.len() == 0 {
        Seq::<u8>::empty()
    } else {
        meta_pair_bytes(pairs[0].0, pairs[0].1) + meta_pairs_bytes(pairs.skip(1))
    }
}

/// The whole stored blob: the pairs, the terminator, then ASCII `0` padding
/// up to the next 1024-byte boundary.
pub open spec fn metadata_encoding(pairs: Seq<(Seq<u8>, Seq<u8>)>) -> Seq<u8> {
    let body = meta_pairs_bytes(pairs) + end_marker_text();
    let pad = if body.len() % 1024 == 0 {
        0int
    } else {
        1024 - (body.len() % 1024)
    };
    body + Seq::new(pad as nat, |i: int| 0x30u8)
}

/// Serializes a metadata map for flash.
pub fn encode_metadata(pairs: &Vec<(Vec<u8>, Vec<u8>)>) -> (r: Vec<u8>)
    ensures
        r@ == metadata_encoding(crate::csl::pairs_view(pairs@)),
        r@.len() % 1024 == 0,
{
    let ghost l = crate::csl::pairs_view(pairs@);
    let mut out: Vec<u8> = Vec::new();
    let mut i: usize = 0;
    assert(l.skip(0) =~= l);
    assert(out@ + meta_pairs_bytes(l) =~= meta_pairs_bytes(l));
    while i < pairs.len()
        invariant
            0 <= i <= pairs@.len(),
            l == crate::csl::pairs_view(pairs@),
            meta_pairs_bytes(l) == out@ + meta_pairs_bytes(l.skip(i as int)),
        decreases pairs@.len() - i,
    {
        let ghost before = out@;
        let ghost tail = l.skip(i as int);
        out.push(0x3F);
        append_bytes(&mut out, &pairs[i].0);
        out.push(0x09);
        append_bytes(&mut out, &pairs[i].1);
        proof {
            assert(tail[0] == l[i as int]);
            assert(l[i as int] == (pairs@[i as int].0@, pairs@[i as int].1@));
            assert(meta_pairs_bytes(tail) == meta_pair_bytes(l[i as int].0, l[i as int].1)
                + meta_pairs_bytes(tail.skip(1)));
            assert(out@ =~= before + meta_pair_bytes(l[i as int].0, l[i as int].1));
            assert(tail.skip(1) =~= l.skip(i + 1));
            assert(before + (meta_pair_bytes(l[i as int].0, l[i as int].1) + meta_pairs_bytes(
                l.skip(i + 1),
            )) =~= (before + meta_pair_bytes(l[i as int].0, l[i as int].1)) + meta_pairs_bytes(
                l.skip(i + 1),
            ));
        }
        i += 1;
    }
    proof {
        assert(meta_pairs_bytes(l.skip(i as int)) =~= Seq::<u8>::empty());
        assert(out@ + Seq::<u8>::empty() =~= out@);
    }
    out.push(0x3F);
    out.push(0x65);
    out.push(0x6E);
    out.push(0x64);
    assert(out@ =~= meta_pairs_bytes(l) + end_marker_text());
    let ghost body = out@;
    let body_len = out.len();
    let pad = if body_len % 1024 == 0 {
        0
    } else {
        1024 - body_len % 1024
    };
    let mut j: usize = 0;
    while j < pad
        invariant
            0 <= j <= pad,
            pad < 1024,
            out@ == body + Seq::new(j as nat, |k: int| 0x30u8),
        decreases pad - j,
    {
        out.push(0x30);
        assert(out@ =~= body + Seq::new((j + 1) as nat, |k: int| 0x30u8));
        j += 1;
    }
    assert(out@ =~= metadata_encoding(l));
    out
}

/// The first position where the terminator `?end` stands, if any.
pub open spec fn first_end_marker(s: Seq<u8>) -> Option<int>
    decreases s.len(),
{
    if s.len() < 4 {
        None
    } else if s.subrange(0, 4) == end_marker_text() {
        Some(0int)
    } else {
        match first_end_marker(s.skip(1)) {
            None => None,
            Some(i) => Some(i + 1),
        }
    }
}

proof fn lemma_first_end_marker_val(s: Seq<u8>, k: int)
    requires
        0 <= k,
        k + 4 <= s.len(),
        s.subrange(k, k + 4) == end_marker_text(),
        forall|j: int| 0 <= j < k ==> #[trigger] s.subrange(j, j + 4) != end_marker_text(),
    ensures
        first_end_marker(s) == Some(k),
    decreases k,
{
    if k == 0 {
    } else {
        let t = s.skip(1);
        assert forall|j: int| 0 <= j < k - 1 implies #[trigger] t.subrange(j, j + 4)
            != end_marker_text() by {
            assert(t.subrange(j, j + 4) =~= s.subrange(j + 1, j + 1 + 4));
        };
        assert(t.subrange(k - 1, k - 1 + 4) =~= s.subrange(k, k + 4));
        lemma_first_end_marker_val(t, k - 1);
        assert(s.subrange(0int, 0int + 4) != end_marker_text());
    }
}

proof fn lemma_first_end_marker_none(s: Seq<u8>)
    requires
        forall|j: int| 0 <= j && j + 4 <= s.len() ==> #[trigger] s.subrange(j, j + 4) != end_marker_text(),
    ensures
        first_end_marker(s) is None,
    decreases s.len(),
{
    if s.len() >= 4 {
        let t = s.skip(1);
        assert forall|j: int| 0 <= j && j + 4 <= t.len() implies #[trigger] t.subrange(j, j + 4)
            != end_marker_text() by {
            assert(t.subrange(j, j + 4) =~= s.subrange(j + 1, j + 1 + 4));
        };
        lemma_first_end_marker_none(t);
        assert(s.subrange(0int, 0int + 4) != end_marker_text());
    }
}

/// Finds the first `?end` in the scanned bytes.
pub fn find_end_marker(s: &Vec<u8>) -> (r: Option<usize>)
    ensures
        r matches Some(i) ==> first_end_marker(s@) == Some(i as int) && i + 4 <= s@.len(),
        r is None ==> first_end_marker(s@) is None,
{
    let n = s.len();
    if n < 4 {
        proof {
            lemma_first_end_marker_none(s@);
        }
        return None;
    }
    let mut i: usize = 0;
    while i <= n - 4
        invariant
            0 <= i <= n - 3,
            n == s@.len(),
            4 <= n,
            forall|j: int| 0 <= j < i ==> #[trigger] s@.subrange(j, j + 4) != end_marker_text(),
        decreases n - i,
    {
        if s[i] == 0x3F && s[i + 1] == 0x65 && s[i + 2] == 0x6E && s[i + 3] == 0x64 {
            proof {
                assert(s@.subrange(i as int, i + 4) =~= end_marker_text());
                lemma_first_end_marker_val(s@, i as int);
            }
            return Some(i);
        }
        proof {
            assert(s@.subrange(i as int, i + 4) != end_marker_text()) by {
                if s@.subrange(i as int, i + 4) == end_marker_text() {
                    assert(s@.subrange(i as int, i + 4)[0] == s@[i as int]);
                    assert(s@.subrange(i as int, i + 4)[1] == s@[i + 1]);
                    assert(s@.subrange(i as int, i + 4)[2] == s@[i + 2]);
                    assert(s@.subrange(i as int, i + 4)[3] == s@[i + 3]);
                }
            };
        }
        i += 1;
    }
    proof {
        assert forall|j: int| 0 <= j && j + 4 <= s@.len() implies #[trigger] s@.subrange(j, j + 4)
            != end_marker_text() by {
            assert(j < i);
        };
        lemma_first_end_marker_none(s@);
    }
    None
}

/// The pair one `?`-delimited piece yields: split at its first TAB, if it
/// has one; a piece without a TAB yields nothing.
pub open spec fn piece_pairs(p: Seq<u8>) -> Seq<(Seq<u8>, Seq<u8>)> {
    match crate::encoding::first_byte(p, 0x09) {
        None => seq![],
        Some(i) => seq![(p.take(i), p.skip(i + 1))],
    }
}

/// The metadata pairs a truncated blob decodes to: the blob is split at
/// every `?`, and each piece holding a TAB becomes a `(key, value)` pair
/// split at its first TAB.
pub open spec fn metadata_pairs_of(s: Seq<u8>) -> Seq<(Seq<u8>, Seq<u8>)>
    decreases s.len(),
{
    match crate::encoding::first_byte(s, 0x3F) {
        None => piece_pairs(s),
        Some(i) => if 0 <= i < s.len() {
            piece_pairs(s.take(i)) + metadata_pairs_of(s.skip(i + 1))
        } else {
            seq![]
        },
    }
}

/// Splits a truncated metadata blob into its pairs.
pub fn parse_metadata_pairs(s: &Vec<u8>) -> (r: Vec<(Vec<u8>, Vec<u8>)>)
    ensures
        crate::csl::pairs_view(r@) == metadata_pairs_of(s@),
{
    let mut out: Vec<(Vec<u8>, Vec<u8>)> = Vec::new();
    let mut rest = clone_bytes(s);
    assert(crate::csl::pairs_view(out@) + metadata_pairs_of(rest@) =~= metadata_pairs_of(rest@));
    loop
        invariant
            metadata_pairs_of(s@) == crate::csl::pairs_view(out@) + metadata_pairs_of(rest@),
        decreases rest@.len(),
    {
        let ghost pairs_before = crate::csl::pairs_view(out@);
        let ghost rest0 = rest@;
        let rest_len = rest.len();
        let (piece, more) = match crate::encoding::find_byte(&rest, 0x3F) {
            None => (rest, None),
            Some(i) => {
                let piece = subvec(&rest, 0, i);
                let tail = subvec(&rest, i + 1, rest_len);
                (piece, Some(tail))
            },
        };
        let ghost piece0 = piece@;
        match crate::encoding::find_byte(&piece, 0x09) {
            None => {
                assert(piece_pairs(piece0) =~= Seq::<(Seq<u8>, Seq<u8>)>::empty());
            },
            Some(t) => {
                let k = subvec(&piece, 0, t);
                let v = subvec(&piece, t + 1, piece.len());
                assert(k@ =~= piece0.take(t as int));
                assert(v@ =~= piece0.skip(t + 1));
                out.push((k, v));
                assert(crate::csl::pairs_view(out@) =~= pairs_before + piece_pairs(piece0));
            },
        }
        proof {
            if crate::csl::pairs_view(out@) != pairs_before + piece_pairs(piece0) {
                assert(crate::csl::pairs_view(out@) =~= pairs_before + piece_pairs(piece0));
            }
        }
        match more {
            None => {
                proof {
                    assert(piece0 == rest0);
                    assert(metadata_pairs_of(rest0) == piece_pairs(rest0));
                    assert(pairs_before + piece_pairs(rest0) =~= crate::csl::pairs_view(out@));
                }
                return out;
            },
            Some(tail) => {
                proof {
                    let i = crate::encoding::first_byte(rest0, 0x3F)->Some_0;
                    assert(piece0 =~= rest0.take(i));
                    assert(tail@ =~= rest0.skip(i + 1));
                    assert(metadata_pairs_of(rest0) == piece_pairs(rest0.take(i))
                        + metadata_pairs_of(rest0.skip(i + 1)));
                    assert(pairs_before + (piece_pairs(piece0) + metadata_pairs_of(tail@)) =~= (
                    pairs_before + piece_pairs(piece0)) + metadata_pairs_of(tail@));
                }
                rest = tail;
            },
        }
    }
}

/// One step of the flash metadata scan: append the chunk just read, then
/// look for the terminator. When `?end` appears, the pairs before it are
/// the metadata; until then the scan goes on. Chunks must be UTF-8 text, as
/// stored metadata is.
pub fn metadata_scan_step(acc: &mut Vec<u8>, chunk: &Vec<u8>) -> (r: Result<
    Option<Vec<(Vec<u8>, Vec<u8>)>>,
    Error,
>)
    ensures
        r matches Err(e) ==> (!is_utf8(chunk@) && (e matches Error::Utf8) && final(acc)@ == old(
            acc,
        )@),
        r matches Ok(opt) ==> is_utf8(chunk@) && final(acc)@ == old(acc)@ + chunk@ && match opt {
            Some(pairs) => first_end_marker(old(acc)@ + chunk@) matches Some(i)
                && crate::csl::pairs_view(pairs@) == metadata_pairs_of(
                (old(acc)@ + chunk@).take(i),
            ),
            None => first_end_marker(old(acc)@ + chunk@) is None,
        },
{
    if !utf8_check(chunk) {
        return Err(Error::Utf8);
    }
    append_bytes(acc, chunk);
    match find_end_marker(acc) {
        Some(i) => {
            let truncated = subvec(acc, 0, i);
            assert(truncated@ =~= acc@.take(i as int));
            let pairs = parse_metadata_pairs(&truncated);
            Ok(Some(pairs))
        },
        None => Ok(None),
    }
}

/// The flash metadata scan: it owns the accumulated bytes and the chunk
/// budget, so that the driver only fetches the chunk the scan names next.
/// The scan gives up after [`METADATA_MAX_CHUNKS`] chunks.
pub struct MetadataScan {
    acc: Vec<u8>,
    chunks_done: u32,
}

impl MetadataScan {
    /// The bytes accumulated so far.
    pub closed spec fn spec_acc(&self) -> Seq<u8> {
        self.acc@
    }

    /// How many chunks have been fed in.
    pub closed spec fn spec_chunks(&self) -> u32 {
        self.chunks_done
    }

    /// A fresh scan: nothing read, the whole budget left.
    pub fn new() -> (r: MetadataScan)
        ensures
            r.spec_acc() == Seq::<u8>::empty(),
            r.spec_chunks() == 0,
    {
        MetadataScan { acc: Vec::new(), chunks_done: 0 }
    }

    /// The index of the chunk to read next, or nothing once the budget of
    /// [`METADATA_MAX_CHUNKS`] chunks is spent — then the metadata is
    /// missing.
    pub fn next_chunk(&self) -> (r: Option<u32>)
        ensures
            r matches Some(i) ==> i == self.spec_chunks() && i < METADATA_MAX_CHUNKS,
            r is None <==> self.spec_chunks() >= METADATA_MAX_CHUNKS,
    {
        if self.chunks_done < METADATA_MAX_CHUNKS {
            Some(self.chunks_done)
        } else {
            None
        }
    }

    /// Feeds the chunk just read. Past the budget the scan reports the
    /// metadata missing; a chunk that is not UTF-8 text is refused; and
    /// otherwise the chunk is appended and the terminator sought — found,
    /// the pairs before it are the metadata.
    pub fn step(&mut self, chunk: &Vec<u8>) -> (r: Result<Option<Vec<(Vec<u8>, Vec<u8>)>>, Error>)
        ensures
            old(self).spec_chunks() >= METADATA_MAX_CHUNKS ==> (r matches Err(e) && (
            e matches Error::MissingMetadata) && final(self).spec_acc() == old(self).spec_acc()
                && final(self).spec_chunks() == old(self).spec_chunks()),
            old(self).spec_chunks() < METADATA_MAX_CHUNKS ==> {
                &&& (r matches Err(e) && (e matches Error::Utf8)) ==> (!is_utf8(chunk@) && final(self).spec_acc() == old(self).spec_acc() && final(self).spec_chunks() == old(
                    self,
                ).spec_chunks())
                &&& r matches Ok(opt) ==> {
                    &&& is_utf8(chunk@)
                    &&& final(self).spec_acc() == old(self).spec_acc() + chunk@
                    &&& final(self).spec_chunks() == old(self).spec_chunks() + 1
                    &&& (match opt {
                        Some(pairs) => first_end_marker(old(self).spec_acc() + chunk@) matches Some(
                            i,
                        ) && crate::csl::pairs_view(pairs@) == metadata_pairs_of(
                            (old(self).spec_acc() + chunk@).take(i),
                        ),
                        None => first_end_marker(old(self).spec_acc() + chunk@) is None,
                    })
                }
            },
    {
        if self.chunks_done >= METADATA_MAX_CHUNKS {
            return Err(Error::MissingMetadata);
        }
        let found = match metadata_scan_step(&mut self.acc, chunk) {
            Ok(v) => v,
            Err(e) => {
                return Err(e);
            },
        };
        self.chunks_done = self.chunks_done + 1;
        Ok(found)
    }
}

/// The metadata the program step writes back: the sector size and the new
/// image's fingerprint.
pub open spec fn sector_size_key() -> Seq<u8> {
    seq![0x73u8, 0x65, 0x63, 0x74, 0x6F, 0x72, 0x5F, 0x73, 0x69, 0x7A, 0x65]
}

/// The decimal spelling of the sector size, 65536 bytes.
pub open spec fn sector_size_value() -> Seq<u8> {
    seq![0x36u8, 0x35, 0x35, 0x33, 0x36]
}

/// The key the fingerprint is stored under, `md5`.
pub open spec fn md5_key() -> Seq<u8> {
    seq![0x6Du8, 0x64, 0x35]
}

/// Writes the key `md5`.
pub fn md5_key_bytes() -> (r: Vec<u8>)
    ensures
        r@ == md5_key(),
{
    let v = vec![0x6Du8, 0x64, 0x35];
    assert(v@ =~= md5_key());
    v
}

/// Builds the metadata written after programming: the sector size and the
/// fingerprint of the image now on flash.
pub fn program_metadata(md5_hex: &Vec<u8>) -> (r: Vec<(Vec<u8>, Vec<u8>)>)
    ensures
        crate::csl::pairs_view(r@) =~= seq![
            (sector_size_key(), sector_size_value()),
            (md5_key(), md5_hex@),
        ],
{
    let key1 = vec![0x73u8, 0x65, 0x63, 0x74, 0x6F, 0x72, 0x5F, 0x73, 0x69, 0x7A, 0x65];
    assert(key1@ =~= sector_size_key());
    let val1 = vec![0x36u8, 0x35, 0x35, 0x33, 0x36];
    assert(val1@ =~= sector_size_value());
    let key2 = md5_key_bytes();
    let val2 = clone_bytes(md5_hex);
    let mut out: Vec<(Vec<u8>, Vec<u8>)> = Vec::new();
    out.push((key1, val1));
    out.push((key2, val2));
    assert(crate::csl::pairs_view(out@) =~= seq![
        (sector_size_key(), sector_size_value()),
        (md5_key(), md5_hex@),
    ]);
    out
}

/// The first value stored under `key`, if any.
pub open spec fn meta_lookup(pairs: Seq<(Seq<u8>, Seq<u8>)>, key: Seq<u8>) -> Option<Seq<u8>>
    decreases pairs.len(),
{
    if pairs.len() == 0 {
        None
    } else if pairs[0].0 == key {
        Some(pairs[0].1)
    } else {
        meta_lookup(pairs.skip(1), key)
    }
}

/// Looks up the first value stored under `key`.
pub fn meta_lookup_exec(pairs: &Vec<(Vec<u8>, Vec<u8>)>, key: &Vec<u8>) -> (r: Option<Vec<u8>>)
    ensures
        r matches Some(v) ==> meta_lookup(crate::csl::pairs_view(pairs@), key@) == Some(v@),
        r is None ==> meta_lookup(crate::csl::pairs_view(pairs@), key@) is None,
{
    let ghost pv = crate::csl::pairs_view(pairs@);
    let mut i: usize = 0;
    assert(pv.skip(0) =~= pv);
    while i < pairs.len()
        invariant
            0 <= i <= pairs@.len(),
            pv == crate::csl::pairs_view(pairs@),
            meta_lookup(pv, key@) == meta_lookup(pv.skip(i as int), key@),
        decreases pairs@.len() - i,
    {
        proof {
            assert(pv.skip(i as int)[0] == pv[i as int]);
            assert(pv[i as int] == (pairs@[i as int].0@, pairs@[i as int].1@));
            assert(pv.skip(i as int).skip(1) =~= pv.skip(i + 1));
        }
        if bytes_eq(&pairs[i].0, key) {
            return Some(clone_bytes(&pairs[i].1));
        }
        i += 1;
    }
    assert(pv.skip(i as int) =~= Seq::<(Seq<u8>, Seq<u8>)>::empty());
    None
}

// ---------------------------------------------------------------------------
// The programming sequence
// ---------------------------------------------------------------------------

/// One sector-sized slice of the bitstream; the last may be short.
pub open spec fn sector_data(bs: Seq<u8>, i: int) -> Seq<u8> {
    if (i + 1) * (FLASH_SECTOR_SIZE as int) <= bs.len() {
        bs.subrange(i * (FLASH_SECTOR_SIZE as int), (i + 1) * (FLASH_SECTOR_SIZE as int))
    } else {
        bs.subrange(i * (FLASH_SECTOR_SIZE as int), bs.len() as int)
    }
}

/// Whether the bitstream reaches into sector `i`.
pub open spec fn sector_exists(bs: Seq<u8>, i: int) -> bool {
    i * (FLASH_SECTOR_SIZE as int) < bs.len()
}

/// What the driver is told to do next while programming.
#[derive(Debug)]
pub enum ProgramAction {
    /// Read the flash metadata and answer with it.
    FetchMetadata,
    /// Write `data` to the flash name built from `offset`, then answer.
    WriteFlash { offset: u64, data: Vec<u8> },
    /// Overwrite the flash metadata with `pairs`, then answer.
    SetMetadata { pairs: Vec<(Vec<u8>, Vec<u8>)> },
    /// Write the 32-bit address to the boot endpoint, sleep out the reboot,
    /// then answer; a timeout of this one write is expected and is no error.
    BootFrom { addr: u32 },
    /// The image already on flash matches; nothing was written.
    AlreadyProgrammed,
    /// The sequence is complete.
    Done,
}

/// What the driver reports back between steps.
#[derive(Debug)]
pub enum ProgramEvent {
    /// The fetched metadata pairs; an unreadable or absent metadata block
    /// is reported as no pairs at all.
    Metadata(Vec<(Vec<u8>, Vec<u8>)>),
    /// The action completed.
    Completed,
}

/// Where the programming sequence stands.
#[derive(Debug, Clone, Copy, PartialEq, Eq, Structural)]
pub enum ProgramPhase {
    /// Waiting for the flash metadata.
    CheckingFingerprint,
    /// Writing the numbered sector next.
    WritingSector(u32),
    /// Writing the new metadata next.
    WritingMetadata,
    /// Booting the new image next.
    Booting,
    /// Finished.
    Finished,
}

/// The programming sequence against one board: compare fingerprints, write
/// the bitstream sector by sector, store the new metadata, and boot the new
/// image. The driver performs each returned action and reports back; every
/// decision is made here.
pub struct ProgramSession {
    platform: Platform,
    force: bool,
    md5_hex: Vec<u8>,
    bitstream: Vec<u8>,
    phase: ProgramPhase,
    flash_writes: Ghost<int>,
}

impl ProgramSession {
    /// The image fits the flash's 32-bit address space, and a sector being
    /// written always exists.
    #[verifier::type_invariant]
    pub closed spec fn wf(&self) -> bool {
        &&& self.bitstream@.len() <= 0xFFFF_FFFF
        &&& self.phase matches ProgramPhase::WritingSector(i) ==> sector_exists(
            self.bitstream@,
            i as int,
        )
    }

    /// The phase the session is in.
    pub closed spec fn spec_phase(&self) -> ProgramPhase {
        self.phase
    }

    /// How many flash sector writes the session has ordered.
    pub closed spec fn spec_flash_writes(&self) -> int {
        self.flash_writes@
    }

    /// The bitstream the session programs.
    pub closed spec fn spec_bitstream(&self) -> Seq<u8> {
        self.bitstream@
    }

    /// The fingerprint text of the image being programmed.
    pub closed spec fn spec_md5_hex(&self) -> Seq<u8> {
        self.md5_hex@
    }

    /// Whether skipping is allowed (a forced session never skips).
    pub closed spec fn spec_force(&self) -> bool {
        self.force
    }

    /// The platform the session programs.
    pub closed spec fn spec_platform(&self) -> Platform {
        self.platform
    }

    /// The address this session boots from.
    pub closed spec fn boot_addr_spec(&self) -> u32 {
        if self.platform is SNAP {
            ((spec_flash_location(self.platform) + FLASH_SECTOR_SIZE) / 0x100) as u32
        } else {
            (spec_flash_location(self.platform) + FLASH_SECTOR_SIZE) as u32
        }
    }

    /// Starts a programming sequence; the driver's first duty is to fetch
    /// the stored metadata and report it. The image must fit the flash's
    /// 32-bit address space.
    pub fn new(platform: Platform, force: bool, md5_hex: Vec<u8>, bitstream: Vec<u8>) -> (r:
        ProgramSession)
        requires
            bitstream@.len() <= 0xFFFF_FFFF,
        ensures
            r.spec_phase() == ProgramPhase::CheckingFingerprint,
            r.spec_flash_writes() == 0,
            r.spec_bitstream() == bitstream@,
            r.spec_md5_hex() == md5_hex@,
            r.spec_force() == force,
            r.spec_platform() == platform,
    {
        ProgramSession {
            platform,
            force,
            md5_hex,
            bitstream,
            phase: ProgramPhase::CheckingFingerprint,
            flash_writes: Ghost(0int),
        }
    }

    /// The shape of a step that orders a write: either the next sector goes
    /// out to its own flash offset, or — past the last sector — the new
    /// metadata goes out, after which no flash sector write is ever added.
    pub open spec fn step_write_shape(&self, r: ProgramAction, writes_before: int) -> bool {
        match r {
            ProgramAction::WriteFlash { offset, data } => {
                &&& self.spec_phase() matches ProgramPhase::WritingSector(i)
                &&& offset == spec_flash_location(self.spec_platform()) + FLASH_SECTOR_SIZE + (
                i as int) * (FLASH_SECTOR_SIZE as int)
                &&& data@ == sector_data(
                    self.spec_bitstream(),
                    self.spec_phase()->WritingSector_0 as int,
                )
                &&& self.spec_flash_writes() == writes_before + 1
            },
            ProgramAction::SetMetadata { pairs } => {
                &&& self.spec_phase() == ProgramPhase::WritingMetadata
                &&& crate::csl::pairs_view(pairs@) == seq![
                    (sector_size_key(), sector_size_value()),
                    (md5_key(), self.spec_md5_hex()),
                ]
                &&& self.spec_flash_writes() == writes_before
            },
            _ => false,
        }
    }

    /// Decides the next action from the driver's report.
    ///
    /// The fingerprint check: when the stored `md5` equals the image's and
    /// the session is not forced, the sequence ends at once having ordered
    /// no flash write at all. Otherwise every sector of the bitstream is
    /// written in order at `program_location + sector * FLASH_SECTOR_SIZE`,
    /// the metadata is replaced, and the boot address is issued.
    pub fn step(&mut self, event: ProgramEvent) -> (r: ProgramAction)
        ensures
            final(self).spec_bitstream() == old(self).spec_bitstream(),
            final(self).spec_md5_hex() == old(self).spec_md5_hex(),
            final(self).spec_force() == old(self).spec_force(),
            final(self).spec_platform() == old(self).spec_platform(),
            old(self).spec_phase() == ProgramPhase::CheckingFingerprint ==> (match event {
                ProgramEvent::Metadata(pairs) => {
                    if !old(self).spec_force() && meta_lookup(
                        crate::csl::pairs_view(pairs@),
                        md5_key(),
                    ) == Some(old(self).spec_md5_hex()) {
                        &&& r is AlreadyProgrammed
                        &&& final(self).spec_phase() == ProgramPhase::Finished
                        &&& final(self).spec_flash_writes() == old(self).spec_flash_writes()
                    } else {
                        final(self).spec_phase() == (if sector_exists(
                            old(self).spec_bitstream(),
                            0,
                        ) {
                            ProgramPhase::WritingSector(0)
                        } else {
                            ProgramPhase::WritingMetadata
                        }) && final(self).step_write_shape(r, old(self).spec_flash_writes())
                    }
                },
                ProgramEvent::Completed => r is Done && final(self).spec_phase() == old(
                    self,
                ).spec_phase(),
            }),
            old(self).spec_phase() matches ProgramPhase::WritingSector(i) ==> (match event {
                ProgramEvent::Completed => {
                    final(self).spec_phase() == (if sector_exists(
                        old(self).spec_bitstream(),
                        i + 1,
                    ) {
                        ProgramPhase::WritingSector((i + 1) as u32)
                    } else {
                        ProgramPhase::WritingMetadata
                    }) && final(self).step_write_shape(r, old(self).spec_flash_writes())
                },
                ProgramEvent::Metadata(_) => r is Done && final(self).spec_phase() == old(
                    self,
                ).spec_phase(),
            }),
            old(self).spec_phase() == ProgramPhase::WritingMetadata ==> {
                &&& final(self).spec_flash_writes() == old(self).spec_flash_writes()
                &&& match event {
                    ProgramEvent::Completed => r matches ProgramAction::BootFrom { addr }
                        && addr == old(self).boot_addr_spec() && final(self).spec_phase()
                        == ProgramPhase::Booting,
                    ProgramEvent::Metadata(_) => r is Done && final(self).spec_phase() == old(
                        self,
                    ).spec_phase(),
                }
            },
            old(self).spec_phase() == ProgramPhase::Booting || old(self).spec_phase()
                == ProgramPhase::Finished ==> r is Done && final(self).spec_phase()
                == ProgramPhase::Finished && final(self).spec_flash_writes() == old(
                self,
            ).spec_flash_writes(),
    {
        proof {
            use_type_invariant(&*self);
        }
        match self.phase {
            ProgramPhase::CheckingFingerprint => {
                match event {
                    ProgramEvent::Metadata(pairs) => {
                        let key = md5_key_bytes();
                        let stored = meta_lookup_exec(&pairs, &key);
                        let matches_stored = match stored {
                            Some(v) => bytes_eq(&v, &self.md5_hex),
                            None => false,
                        };
                        if matches_stored && !self.force {
                            self.phase = ProgramPhase::Finished;
                            ProgramAction::AlreadyProgrammed
                        } else {
                            self.write_or_finish(0)
                        }
                    },
                    ProgramEvent::Completed => ProgramAction::Done,
                }
            },
            ProgramPhase::WritingSector(i) => {
                match event {
                    ProgramEvent::Completed => {
                        proof {
                            assert(sector_exists(self.bitstream@, i as int));
                            assert((i as int) * 0x10000 < 0x1_0000_0000);
                            assert(i < 0x10000);
                        }
                        self.write_or_finish(i + 1)
                    },
                    ProgramEvent::Metadata(_) => ProgramAction::Done,
                }
            },
            ProgramPhase::WritingMetadata => {
                match event {
                    ProgramEvent::Completed => {
                        self.phase = ProgramPhase::Booting;
                        ProgramAction::BootFrom { addr: self.platform.boot_address() }
                    },
                    ProgramEvent::Metadata(_) => ProgramAction::Done,
                }
            },
            ProgramPhase::Booting => {
                self.phase = ProgramPhase::Finished;
                ProgramAction::Done
            },
            ProgramPhase::Finished => {
                ProgramAction::Done
            },
        }
    }

    /// Orders the write of sector `i`, or of the metadata once every sector
    /// is out.
    fn write_or_finish(&mut self, i: u32) -> (r: ProgramAction)
        requires
            old(self).wf(),
            i <= 0x10000,
        ensures
            final(self).spec_bitstream() == old(self).spec_bitstream(),
            final(self).spec_md5_hex() == old(self).spec_md5_hex(),
            final(self).spec_force() == old(self).spec_force(),
            final(self).spec_platform() == old(self).spec_platform(),
            final(self).spec_phase() == (if sector_exists(old(self).spec_bitstream(), i as int) {
                ProgramPhase::WritingSector(i)
            } else {
                ProgramPhase::WritingMetadata
            }),
            final(self).step_write_shape(r, old(self).spec_flash_writes()),
    {
        let total_len = self.bitstream.len();
        let start_long: u64 = (i as u64) * (FLASH_SECTOR_SIZE as u64);
        if start_long < total_len as u64 {
            let start = start_long as usize;
            let sector_size = FLASH_SECTOR_SIZE as usize;
            let end = if total_len - start < sector_size {
                total_len
            } else {
                start + sector_size
            };
            let data = subvec(&self.bitstream, start, end);
            proof {
                assert(data@ == sector_data(self.bitstream@, i as int));
                self.flash_writes@ = self.flash_writes@ + 1;
            }
            self.phase = ProgramPhase::WritingSector(i);
            let offset: u64 = self.platform.flash_location() as u64 + FLASH_SECTOR_SIZE as u64
                + start_long;
            ProgramAction::WriteFlash { offset, data }
        } else {
            self.phase = ProgramPhase::WritingMetadata;
            let pairs = program_metadata(&self.md5_hex);
            ProgramAction::SetMetadata { pairs }
        }
    }
}

/// The clock counter's advance between two reads, the wrap past the 32-bit
/// boundary counted as one more turn.
pub fn clock_counter_delta(first: u32, second: u32) -> (r: u64)
    ensures
        second >= first ==> r == second - first,
        second < first ==> r == second + 0x1_0000_0000 - first,
{
    if second >= first {
        second as u64 - first as u64
    } else {
        second as u64 + 0x1_0000_0000 - first as u64
    }
}

} // verus!
