//! The ADC16 controller: the in-fabric register block that manages up to
//! eight HMCAD1511 chips. Chip registers are programmed by bit-banging a
//! three-wire interface through the word at offset 0; the word at offset 4
//! controls demultiplexing, bitslips and snapshots on the fabric side.

use vstd::prelude::*;

use crate::encoding::{be32_bytes, be32_val};
use crate::hmcad1511::{
    ChanNumClkDiv, ChannelNum, ClockDivide, CustomPattern1, CustomPattern2, DeskewSyncMode,
    DeskewSyncPattern, InputSelect, InputSelect12, InputSelect34, LvdsDriveStrength, LvdsDrives,
    LvdsOutputControl, LvdsShift, LvdsTermination, LvdsTerminations, Pattern, PatternCtl, Reset,
    SleepPd,
};
use crate::snapadc::AdcMode;
use crate::snapshot::bit;
use crate::transport::{read_value, write_value, Transport, WriteEvent};

verus! {

/// Errors of the controller operations.
#[derive(Debug)]
pub enum Error {
    /// The transport failed.
    Transport(crate::transport::Error),
    /// A register word did not decode to its typed fields.
    Packing,
    /// The gateware does not support demultiplexing modes.
    NoDemux,
}

/// The name of the controller's register, `adc16_controller`.
pub open spec fn controller_name() -> Seq<u8> {
    seq![
        0x61u8, 0x64, 0x63, 0x31, 0x36, 0x5F, 0x63, 0x6F, 0x6E, 0x74, 0x72, 0x6F, 0x6C, 0x6C, 0x65,
        0x72,
    ]
}

fn controller_name_bytes() -> (r: Vec<u8>)
    ensures
        r@ == controller_name(),
{
    let v = vec![
        0x61u8, 0x64, 0x63, 0x31, 0x36, 0x5F, 0x63, 0x6F, 0x6E, 0x74, 0x72, 0x6F, 0x6C, 0x6C, 0x65,
        0x72,
    ];
    assert(v@ =~= controller_name());
    v
}

/// The mask of chips that receive three-wire writes: chip A at bit 0
/// through chip H at bit 7.
#[derive(Debug, Copy, Clone, PartialEq, Eq, Structural)]
pub struct ChipSelect {
    pub a: bool,
    pub b: bool,
    pub c: bool,
    pub d: bool,
    pub e: bool,
    pub f: bool,
    pub g: bool,
    pub h: bool,
}

impl ChipSelect {
    /// The packed mask byte.
    pub open spec fn spec_mask(self) -> u8 {
        (bit(self.a) + 2 * bit(self.b) + 4 * bit(self.c) + 8 * bit(self.d) + 16 * bit(self.e) + 32
            * bit(self.f) + 64 * bit(self.g) + 128 * bit(self.h)) as u8
    }

    /// The selection a mask byte carries.
    pub open spec fn of_mask(m: u8) -> ChipSelect {
        ChipSelect {
            a: m % 2 == 1,
            b: (m / 2) % 2 == 1,
            c: (m / 4) % 2 == 1,
            d: (m / 8) % 2 == 1,
            e: (m / 16) % 2 == 1,
            f: (m / 32) % 2 == 1,
            g: (m / 64) % 2 == 1,
            h: (m / 128) % 2 == 1,
        }
    }

    /// Unpacking a packed mask yields the selection packed into it.
    pub proof fn lemma_round_trip(s: ChipSelect)
        ensures
            ChipSelect::of_mask(s.spec_mask()) == s,
    {
    }

    /// Packs the selection into its mask byte.
    pub fn mask(&self) -> (r: u8)
        ensures
            r == self.spec_mask(),
    {
        let a: u8 = if self.a { 1 } else { 0 };
        let b: u8 = if self.b { 2 } else { 0 };
        let c: u8 = if self.c { 4 } else { 0 };
        let d: u8 = if self.d { 8 } else { 0 };
        let e: u8 = if self.e { 16 } else { 0 };
        let f: u8 = if self.f { 32 } else { 0 };
        let g: u8 = if self.g { 64 } else { 0 };
        let h: u8 = if self.h { 128 } else { 0 };
        a + b + c + d + e + f + g + h
    }

    /// No chip selected.
    pub fn none() -> (r: ChipSelect)
        ensures
            r.spec_mask() == 0,
    {
        ChipSelect {
            a: false,
            b: false,
            c: false,
            d: false,
            e: false,
            f: false,
            g: false,
            h: false,
        }
    }

    /// Every chip the controller can drive.
    pub fn select_all() -> (r: ChipSelect)
        ensures
            r.spec_mask() == 0xFF,
    {
        ChipSelect { a: true, b: true, c: true, d: true, e: true, f: true, g: true, h: true }
    }

    /// The selection holding exactly the numbered chip, 0 for A through 7
    /// for H.
    pub fn by_number(v: u8) -> (r: ChipSelect)
        requires
            v < 8,
        ensures
            r.spec_mask() == vstd::arithmetic::power2::pow2(v as nat),
    {
        proof {
            vstd::arithmetic::power2::lemma2_to64();
        }
        let mut r = ChipSelect::none();
        if v == 0 {
            r.a = true;
        } else if v == 1 {
            r.b = true;
        } else if v == 2 {
            r.c = true;
        } else if v == 3 {
            r.d = true;
        } else if v == 4 {
            r.e = true;
        } else if v == 5 {
            r.f = true;
        } else if v == 6 {
            r.g = true;
        } else {
            r.h = true;
        }
        r
    }
}

/// The three-wire word at offset 0: the chip-select mask in bits 0 to 7,
/// the serial data bit at 8, the serial clock at 9; read back, the
/// revision sits in bits 16 and 17, the supported chip count in bits 20 to
/// 23 and the line-lock state in bits 24 and 25.
pub open spec fn wire_word(cs_mask: u8, sclk: bool, sdata: bool) -> u32 {
    (cs_mask + 0x100 * bit(sdata) + 0x200 * bit(sclk)) as u32
}

/// The idle three-wire word: clock high, data low, the chip-select mask
/// kept asserted.
pub open spec fn idle_word(cs_mask: u8) -> u32 {
    wire_word(cs_mask, true, false)
}

/// Whether bit `k` of a value is set.
pub open spec fn nth_bit(v: int, k: nat) -> bool {
    (v / vstd::arithmetic::power2::pow2(k) as int) % 2 == 1
}

/// The write event that puts `word` on the controller's register.
pub open spec fn wire_event(word: u32) -> WriteEvent {
    WriteEvent { device: controller_name(), offset: 0, data: be32_bytes(word) }
}

/// The two writes that clock one bit out: the bit with the clock low, then
/// the same bit with the clock high.
pub open spec fn bit_events(cs_mask: u8, b: bool) -> Seq<WriteEvent> {
    seq![
        wire_event(wire_word(cs_mask, false, b)),
        wire_event(wire_word(cs_mask, true, b)),
    ]
}

/// The writes that clock out bits `k` down to 0 of `v`, most significant
/// first.
pub open spec fn bits_events(cs_mask: u8, v: int, k: int) -> Seq<WriteEvent>
    decreases k + 1,
{
    if k < 0 {
        Seq::<WriteEvent>::empty()
    } else {
        bit_events(cs_mask, nth_bit(v, k as nat)) + bits_events(cs_mask, v, k - 1)
    }
}

/// The whole three-wire transaction that writes `val` to chip register
/// `addr` on the selected chips: idle, the eight address bits, the sixteen
/// value bits, idle again.
pub open spec fn three_wire_events(cs_mask: u8, addr: u8, val: u16) -> Seq<WriteEvent> {
    seq![wire_event(idle_word(cs_mask))] + bits_events(cs_mask, addr as int, 7) + bits_events(
        cs_mask,
        val as int,
        15,
    ) + seq![wire_event(idle_word(cs_mask))]
}

/// How many writes a bit run makes: two per bit.
pub proof fn lemma_bits_events_len(cs_mask: u8, v: int, k: int)
    ensures
        bits_events(cs_mask, v, k).len() == if k < 0 {
            0int
        } else {
            2 * (k + 1)
        },
    decreases k + 1,
{
    if k >= 0 {
        lemma_bits_events_len(cs_mask, v, k - 1);
    }
}

/// A transaction interrupted while clocking the address bits has written a
/// front part of the whole transaction.
proof fn lemma_addr_run_prefix(
    w_old: Seq<WriteEvent>,
    w_before: Seq<WriteEvent>,
    w_now: Seq<WriteEvent>,
    cs_mask: u8,
    addr: u8,
    val: u16,
    k: int,
)
    requires
        1 <= k <= 8,
        w_before + bits_events(cs_mask, addr as int, k - 1) == (w_old + seq![
            wire_event(idle_word(cs_mask)),
        ]) + bits_events(cs_mask, addr as int, 7),
        crate::transport::trace_extends_prefix(
            w_before,
            w_now,
            bit_events(cs_mask, nth_bit(addr as int, (k - 1) as nat)),
        ),
    ensures
        crate::transport::trace_extends_prefix(
            w_old,
            w_now,
            three_wire_events(cs_mask, addr, val),
        ),
{
    let a1 = seq![wire_event(idle_word(cs_mask))];
    let base = w_old + a1;
    let full_a = bits_events(cs_mask, addr as int, 7);
    let full_v = bits_events(cs_mask, val as int, 15);
    let rem = bits_events(cs_mask, addr as int, k - 1);
    lemma_bits_events_len(cs_mask, addr as int, 7);
    lemma_bits_events_len(cs_mask, addr as int, k - 1);
    lemma_bits_events_len(cs_mask, addr as int, k - 2);
    lemma_bits_events_len(cs_mask, val as int, 15);
    crate::transport::lemma_concat_prefix_of(w_before, rem, base, full_a);
    let m = w_before.len() - base.len();
    assert(full_a.take(m) + rem =~= full_a) by {
        let lhs = base + (full_a.take(m) + rem);
        assert(lhs =~= (base + full_a.take(m)) + rem);
        assert(lhs == base + full_a);
        assert(forall|j: int|
            0 <= j < full_a.len() ==> (#[trigger] (full_a.take(m) + rem)[j]) == lhs[base.len()
                + j]);
        assert(forall|j: int|
            0 <= j < full_a.len() ==> (base + full_a)[base.len() + j] == #[trigger] full_a[j]);
    };
    let bitev = bit_events(cs_mask, nth_bit(addr as int, (k - 1) as nat));
    let restbits = bits_events(cs_mask, addr as int, k - 2);
    assert(rem == bitev + restbits);
    let n = choose|n: int| 0 <= n <= bitev.len() && w_now == w_before + bitev.take(n);
    crate::transport::lemma_take_short(bitev, restbits, n);
    crate::transport::lemma_take_concat(full_a.take(m), rem, n);
    assert(full_a.take(m + n) == full_a.take(m) + bitev.take(n));
    assert(w_now =~= base + full_a.take(m + n));
    let tw = three_wire_events(cs_mask, addr, val);
    crate::transport::lemma_take_concat(a1, full_a, m + n);
    crate::transport::lemma_take_short(a1 + full_a, full_v, 1 + m + n);
    crate::transport::lemma_take_short((a1 + full_a) + full_v, a1, 1 + m + n);
    assert(tw == ((a1 + full_a) + full_v) + a1);
    assert(w_now =~= w_old + tw.take(1 + m + n));
}

/// A transaction interrupted while clocking the value bits has written a
/// front part of the whole transaction.
proof fn lemma_val_run_prefix(
    w_old: Seq<WriteEvent>,
    w_before: Seq<WriteEvent>,
    w_now: Seq<WriteEvent>,
    cs_mask: u8,
    addr: u8,
    val: u16,
    k: int,
)
    requires
        1 <= k <= 16,
        w_before + bits_events(cs_mask, val as int, k - 1) == ((w_old + seq![
            wire_event(idle_word(cs_mask)),
        ]) + bits_events(cs_mask, addr as int, 7)) + bits_events(cs_mask, val as int, 15),
        crate::transport::trace_extends_prefix(
            w_before,
            w_now,
            bit_events(cs_mask, nth_bit(val as int, (k - 1) as nat)),
        ),
    ensures
        crate::transport::trace_extends_prefix(
            w_old,
            w_now,
            three_wire_events(cs_mask, addr, val),
        ),
{
    let a1 = seq![wire_event(idle_word(cs_mask))];
    let full_a = bits_events(cs_mask, addr as int, 7);
    let full_v = bits_events(cs_mask, val as int, 15);
    let base = (w_old + a1) + full_a;
    let rem = bits_events(cs_mask, val as int, k - 1);
    lemma_bits_events_len(cs_mask, addr as int, 7);
    lemma_bits_events_len(cs_mask, val as int, 15);
    lemma_bits_events_len(cs_mask, val as int, k - 1);
    lemma_bits_events_len(cs_mask, val as int, k - 2);
    crate::transport::lemma_concat_prefix_of(w_before, rem, base, full_v);
    let m = w_before.len() - base.len();
    assert(full_v.take(m) + rem =~= full_v) by {
        let lhs = base + (full_v.take(m) + rem);
        assert(lhs =~= (base + full_v.take(m)) + rem);
        assert(lhs == base + full_v);
        assert(forall|j: int|
            0 <= j < full_v.len() ==> (#[trigger] (full_v.take(m) + rem)[j]) == lhs[base.len()
                + j]);
        assert(forall|j: int|
            0 <= j < full_v.len() ==> (base + full_v)[base.len() + j] == #[trigger] full_v[j]);
    };
    let bitev = bit_events(cs_mask, nth_bit(val as int, (k - 1) as nat));
    let restbits = bits_events(cs_mask, val as int, k - 2);
    assert(rem == bitev + restbits);
    let n = choose|n: int| 0 <= n <= bitev.len() && w_now == w_before + bitev.take(n);
    crate::transport::lemma_take_short(bitev, restbits, n);
    crate::transport::lemma_take_concat(full_v.take(m), rem, n);
    assert(full_v.take(m + n) == full_v.take(m) + bitev.take(n));
    assert(w_now =~= base + full_v.take(m + n));
    let tw = three_wire_events(cs_mask, addr, val);
    crate::transport::lemma_take_concat(a1 + full_a, full_v, m + n);
    crate::transport::lemma_take_short((a1 + full_a) + full_v, a1, 17 + m + n);
    assert(tw == ((a1 + full_a) + full_v) + a1);
    assert(w_now =~= w_old + tw.take(17 + m + n));
}

/// The fabric control word at offset 4: the delay-tap mask in bits 0 to 4,
/// the bitslip mask in bits 8 to 15, the snapshot request at bit 16, the
/// reset at bit 20, the demultiplexer mode in bits 24 and 25, and the
/// demultiplexer write-enable probe at bit 26.
#[derive(Debug, Copy, Clone, PartialEq, Eq, Structural)]
pub struct AdcControl {
    pub demux_write_enable: bool,
    pub demux_mode: DemuxMode,
    pub reset: bool,
    pub snap_request: bool,
    /// Bitslip mask, chip A at its lowest bit.
    pub bitslip: u8,
    /// Delay-tap mask, five bits.
    pub delay_taps: u8,
}

/// The fabric demultiplexer modes.
#[derive(Debug, Copy, Clone, PartialEq, Eq, Structural)]
pub enum DemuxMode {
    /// One channel (code 0).
    SingleChannel,
    /// Two channels (code 1).
    DualChannel,
    /// Four channels (code 2).
    QuadChannel,
}

/// The code a demultiplexer-mode field carries.
pub open spec fn demux_code(m: DemuxMode) -> u32 {
    match m {
        DemuxMode::SingleChannel => 0u32,
        DemuxMode::DualChannel => 1u32,
        DemuxMode::QuadChannel => 2u32,
    }
}

/// The mode a code names, if it names one.
pub open spec fn demux_of(c: u32) -> Option<DemuxMode> {
    if c == 0 {
        Some(DemuxMode::SingleChannel)
    } else if c == 1 {
        Some(DemuxMode::DualChannel)
    } else if c == 2 {
        Some(DemuxMode::QuadChannel)
    } else {
        None
    }
}

impl AdcControl {
    /// The delay-tap mask fits its five bits.
    pub open spec fn wf(self) -> bool {
        self.delay_taps < 32
    }

    /// The packed register word.
    pub open spec fn spec_word(self) -> u32 {
        (self.delay_taps % 32 + 0x100 * self.bitslip + 0x1_0000 * bit(self.snap_request)
            + 0x10_0000 * bit(self.reset) + 0x100_0000 * demux_code(self.demux_mode) + 0x400_0000
            * bit(self.demux_write_enable)) as u32
    }

    /// The fields a register word carries, when the mode code is known.
    pub open spec fn of_word(w: u32) -> Option<AdcControl> {
        match demux_of((w / 0x100_0000) % 4) {
            None => None,
            Some(demux_mode) => Some(
                AdcControl {
                    demux_write_enable: (w / 0x400_0000) % 2 == 1,
                    demux_mode,
                    reset: (w / 0x10_0000) % 2 == 1,
                    snap_request: (w / 0x1_0000) % 2 == 1,
                    bitslip: ((w / 0x100) % 0x100) as u8,
                    delay_taps: (w % 32) as u8,
                },
            ),
        }
    }

    /// Unpacking a packed control word yields the fields packed into it,
    /// for tap masks that fit their field.
    #[verifier::rlimit(50)]
    pub proof fn lemma_round_trip(s: AdcControl)
        requires
            s.wf(),
        ensures
            AdcControl::of_word(s.spec_word()) == Some(s),
    {
    }

    /// Packs the fields into the register word.
    pub fn pack(&self) -> (r: u32)
        requires
            self.wf(),
        ensures
            r == self.spec_word(),
    {
        let mut w: u32 = self.delay_taps as u32 + 0x100 * (self.bitslip as u32);
        if self.snap_request {
            w = w + 0x1_0000;
        }
        if self.reset {
            w = w + 0x10_0000;
        }
        let code: u32 = match self.demux_mode {
            DemuxMode::SingleChannel => 0,
            DemuxMode::DualChannel => 1,
            DemuxMode::QuadChannel => 2,
        };
        w = w + 0x100_0000 * code;
        if self.demux_write_enable {
            w = w + 0x400_0000;
        }
        w
    }

    /// Unpacks a register word into its fields.
    pub fn unpack(w: u32) -> (r: Option<AdcControl>)
        ensures
            r == AdcControl::of_word(w),
    {
        let code = (w / 0x100_0000) % 4;
        let demux_mode = if code == 0 {
            DemuxMode::SingleChannel
        } else if code == 1 {
            DemuxMode::DualChannel
        } else if code == 2 {
            DemuxMode::QuadChannel
        } else {
            return None;
        };
        Some(
            AdcControl {
                demux_write_enable: (w / 0x400_0000) % 2 == 1,
                demux_mode,
                reset: (w / 0x10_0000) % 2 == 1,
                snap_request: (w / 0x1_0000) % 2 == 1,
                bitslip: ((w / 0x100) % 0x100) as u8,
                delay_taps: (w % 32) as u8,
            },
        )
    }

    /// Every field at its rest value.
    pub fn clear() -> (r: AdcControl)
        ensures
            r == (AdcControl {
                demux_write_enable: false,
                demux_mode: DemuxMode::SingleChannel,
                reset: false,
                snap_request: false,
                bitslip: 0,
                delay_taps: 0,
            }),
            r.wf(),
            r.spec_word() == 0,
    {
        AdcControl {
            demux_write_enable: false,
            demux_mode: DemuxMode::SingleChannel,
            reset: false,
            snap_request: false,
            bitslip: 0,
            delay_taps: 0,
        }
    }
}

/// Which crossbar inputs feed the converters, by channel mode.
#[derive(Debug, Copy, Clone)]
pub enum ChannelInput {
    /// One input for all four converters.
    Single(InputSelect),
    /// Converters 1 and 2 share the first input, 3 and 4 the second.
    Dual(InputSelect, InputSelect),
    /// Four independent inputs.
    Quad(InputSelect, InputSelect, InputSelect, InputSelect),
}

/// Test patterns a chip can emit instead of samples.
#[derive(Debug, Copy, Clone, PartialEq, Eq, Structural)]
pub enum TestPattern {
    /// A ramp from 0 to 255.
    Ramp,
    /// The deskew pattern.
    Deskew,
    /// The sync pattern.
    Sync,
    /// The first custom word.
    Custom1,
    /// The second custom word.
    Custom2,
    /// Both custom words alternating.
    Dual,
    /// Sampled data, no pattern.
    Sampled,
}

/// The controller handle: the chip-select state it drives writes with.
#[derive(Debug)]
pub struct Adc16 {
    /// The chips that receive three-wire writes.
    pub cs: ChipSelect,
}

impl Adc16 {
    /// A controller with no chips selected.
    pub fn new() -> (r: Adc16)
        ensures
            r.cs.spec_mask() == 0,
    {
        Adc16 { cs: ChipSelect::none() }
    }

    /// Sets the chip-select state for later three-wire writes.
    pub fn chip_select(&mut self, cs: &ChipSelect)
        ensures
            final(self).cs == cs,
    {
        self.cs = *cs;
    }

    /// Reads the three-wire word.
    fn read_wire<T: Transport>(&self, t: &mut T) -> (r: Result<u32, Error>)
        ensures
            r matches Err(e) ==> e is Transport,
            final(t).mem() == old(t).mem(),
            final(t).writes() == old(t).writes(),
            r matches Ok(v) ==> {
                &&& old(t).mem().dom().contains(controller_name())
                &&& old(t).mem()[controller_name()].len() >= 4
                &&& v == be32_val(
                    old(t).mem()[controller_name()][0],
                    old(t).mem()[controller_name()][1],
                    old(t).mem()[controller_name()][2],
                    old(t).mem()[controller_name()][3],
                )
            },
    {
        let name = controller_name_bytes();
        let raw: u32 = match read_value(t, &name, 0) {
            Ok(v) => v,
            Err(e) => {
                return Err(Error::Transport(e));
            },
        };
        proof {
            let w = old(t).mem()[controller_name()];
            assert(w.subrange(0, 4)[0] == w[0] && w.subrange(0, 4)[1] == w[1] && w.subrange(
                0,
                4,
            )[2] == w[2] && w.subrange(0, 4)[3] == w[3]);
        }
        Ok(raw)
    }

    /// How many chips the gateware was built for: bits 20 to 23 of the
    /// three-wire word.
    pub fn supported_chips<T: Transport>(&self, t: &mut T) -> (r: Result<u8, Error>)
        ensures
            final(t).mem() == old(t).mem(),
            final(t).writes() == old(t).writes(),
            r matches Ok(v) ==> {
                &&& old(t).mem().dom().contains(controller_name())
                &&& old(t).mem()[controller_name()].len() >= 4
                &&& v == (be32_val(
                    old(t).mem()[controller_name()][0],
                    old(t).mem()[controller_name()][1],
                    old(t).mem()[controller_name()][2],
                    old(t).mem()[controller_name()][3],
                ) / 0x10_0000) % 16
            },
    {
        let w = match self.read_wire(t) {
            Ok(v) => v,
            Err(e) => {
                return Err(e);
            },
        };
        Ok(((w / 0x10_0000) % 16) as u8)
    }

    /// The controller revision: bits 16 and 17 of the three-wire word.
    pub fn revision<T: Transport>(&self, t: &mut T) -> (r: Result<u8, Error>)
        ensures
            final(t).mem() == old(t).mem(),
            final(t).writes() == old(t).writes(),
            r matches Ok(v) ==> {
                &&& old(t).mem().dom().contains(controller_name())
                &&& old(t).mem()[controller_name()].len() >= 4
                &&& v == (be32_val(
                    old(t).mem()[controller_name()][0],
                    old(t).mem()[controller_name()][1],
                    old(t).mem()[controller_name()][2],
                    old(t).mem()[controller_name()][3],
                ) / 0x1_0000) % 4
            },
    {
        let w = match self.read_wire(t) {
            Ok(v) => v,
            Err(e) => {
                return Err(e);
            },
        };
        Ok(((w / 0x1_0000) % 4) as u8)
    }

    /// Whether the serial lines are locked: line-lock state 3 means every
    /// line locked; state 1 suffices only on gateware driving four chips
    /// or fewer; states 0 and 2 mean unlocked.
    pub fn locked<T: Transport>(&self, t: &mut T) -> (r: Result<bool, Error>)
        ensures
            final(t).mem() == old(t).mem(),
            final(t).writes() == old(t).writes(),
            r matches Ok(b) ==> {
                let w = be32_val(
                    old(t).mem()[controller_name()][0],
                    old(t).mem()[controller_name()][1],
                    old(t).mem()[controller_name()][2],
                    old(t).mem()[controller_name()][3],
                );
                let ll = (w / 0x100_0000) % 4;
                let chips = (w / 0x10_0000) % 16;
                &&& old(t).mem().dom().contains(controller_name())
                &&& old(t).mem()[controller_name()].len() >= 4
                &&& b == (ll == 3 || (ll == 1 && chips <= 4))
            },
    {
        let w = match self.read_wire(t) {
            Ok(v) => v,
            Err(e) => {
                return Err(e);
            },
        };
        let ll = (w / 0x100_0000) % 4;
        let chips = (w / 0x10_0000) % 16;
        Ok(ll == 3 || (ll == 1 && chips <= 4))
    }

    /// Puts one three-wire word on the wire.
    fn put_wire<T: Transport>(&self, t: &mut T, word: u32) -> (r: Result<(), Error>)
        ensures
            r matches Err(e) ==> e is Transport,
            final(t).mem().dom() == old(t).mem().dom(),
            r matches Ok(()) ==> {
                &&& old(t).mem().dom().contains(controller_name())
                &&& 4 <= old(t).mem()[controller_name()].len()
                &&& final(t).mem() == old(t).mem().insert(
                    controller_name(),
                    crate::transport::splice(
                        old(t).mem()[controller_name()],
                        0,
                        be32_bytes(word),
                    ),
                )
                &&& final(t).writes() == old(t).writes().push(wire_event(word))
            },
            r is Err ==> final(t).writes() == old(t).writes() || final(t).writes() == old(
                t,
            ).writes().push(wire_event(word)),
    {
        let name = controller_name_bytes();
        match write_value(t, &name, 0, &word) {
            Ok(()) => Ok(()),
            Err(e) => Err(Error::Transport(e)),
        }
    }

    /// Clocks one bit out to the selected chips: the bit with the clock
    /// low, then with the clock high.
    fn send_3wire_bit<T: Transport>(&self, t: &mut T, b: bool) -> (r: Result<(), Error>)
        ensures
            final(t).mem().dom() == old(t).mem().dom(),
            r matches Ok(()) ==> final(t).writes() == old(t).writes() + bit_events(
                self.cs.spec_mask(),
                b,
            ),
            r is Err ==> crate::transport::trace_extends_prefix(
                old(t).writes(),
                final(t).writes(),
                bit_events(self.cs.spec_mask(), b),
            ),
    {
        let mask = self.cs.mask();
        let low: u32 = mask as u32 + if b {
            0x100
        } else {
            0
        };
        assert(low == wire_word(self.cs.spec_mask(), false, b));
        match self.put_wire(t, low) {
            Ok(()) => {},
            Err(e) => {
                proof {
                    let ev = bit_events(self.cs.spec_mask(), b);
                    if t.writes() == old(t).writes() {
                        assert(t.writes() =~= old(t).writes() + ev.take(0));
                    } else {
                        assert(t.writes() =~= old(t).writes() + ev.take(1));
                    }
                }
                return Err(e);
            },
        }
        let high: u32 = low + 0x200;
        assert(high == wire_word(self.cs.spec_mask(), true, b));
        match self.put_wire(t, high) {
            Ok(()) => {},
            Err(e) => {
                proof {
                    let ev = bit_events(self.cs.spec_mask(), b);
                    if t.writes() == old(t).writes().push(wire_event(low)) {
                        assert(t.writes() =~= old(t).writes() + ev.take(1));
                    } else {
                        assert(t.writes() =~= old(t).writes() + ev.take(2));
                    }
                }
                return Err(e);
            },
        }
        proof {
            assert(t.writes() =~= old(t).writes() + bit_events(self.cs.spec_mask(), b));
        }
        Ok(())
    }

    /// Writes `val` to chip register `addr` over the three-wire interface:
    /// an idle word, the eight address bits then the sixteen value bits
    /// each clocked out most significant first, and an idle word again.
    #[verifier::rlimit(100)]
    pub fn send_reg_raw<T: Transport>(&self, t: &mut T, addr: u8, val: u16) -> (r: Result<
        (),
        Error,
    >)
        ensures
            final(t).mem().dom() == old(t).mem().dom(),
            r matches Ok(()) ==> final(t).writes() == old(t).writes() + three_wire_events(
                self.cs.spec_mask(),
                addr,
                val,
            ),
            r is Err ==> crate::transport::trace_extends_prefix(
                old(t).writes(),
                final(t).writes(),
                three_wire_events(self.cs.spec_mask(), addr, val),
            ),
    {
        proof {
            vstd::arithmetic::power2::lemma2_to64();
        }
        let mask = self.cs.mask();
        let idle: u32 = mask as u32 + 0x200;
        assert(idle == idle_word(self.cs.spec_mask()));
        let ghost tw = three_wire_events(self.cs.spec_mask(), addr, val);
        match self.put_wire(t, idle) {
            Ok(()) => {},
            Err(e) => {
                proof {
                    if t.writes() == old(t).writes() {
                        assert(t.writes() =~= old(t).writes() + tw.take(0));
                    } else {
                        assert(tw.take(1) =~= seq![wire_event(idle_word(self.cs.spec_mask()))]);
                        assert(t.writes() =~= old(t).writes() + tw.take(1));
                    }
                }
                return Err(e);
            },
        }
        let ghost base = old(t).writes() + seq![wire_event(idle_word(self.cs.spec_mask()))];
        assert(t.writes() =~= base);
        let mut m: u32 = 128;
        let mut k: u32 = 8;
        while k > 0
            invariant
                0 <= k <= 8,
                m == vstd::arithmetic::power2::pow2((k - 1) as nat) || k == 0,
                base == old(t).writes() + seq![wire_event(idle_word(self.cs.spec_mask()))],
                t.mem().dom() == old(t).mem().dom(),
                t.writes() + bits_events(self.cs.spec_mask(), addr as int, k - 1) == base
                    + bits_events(self.cs.spec_mask(), addr as int, 7),
            decreases k,
        {
            proof {
                vstd::arithmetic::power2::lemma_pow2_pos((k - 1) as nat);
            }
            let b = (addr as u32 / m) % 2 == 1;
            assert(b == nth_bit(addr as int, (k - 1) as nat));
            let ghost before = t.writes();
            match self.send_3wire_bit(t, b) {
                Ok(()) => {},
                Err(e) => {
                    proof {
                        lemma_addr_run_prefix(
                            old(t).writes(),
                            before,
                            t.writes(),
                            self.cs.spec_mask(),
                            addr,
                            val,
                            k as int,
                        );
                    }
                    return Err(e);
                },
            }
            proof {
                assert(bits_events(self.cs.spec_mask(), addr as int, k - 1) == bit_events(
                    self.cs.spec_mask(),
                    nth_bit(addr as int, (k - 1) as nat),
                ) + bits_events(self.cs.spec_mask(), addr as int, k - 2));
                assert((before + bit_events(self.cs.spec_mask(), b)) + bits_events(
                    self.cs.spec_mask(),
                    addr as int,
                    k - 2,
                ) =~= before + bits_events(self.cs.spec_mask(), addr as int, k - 1));
            }
            if k >= 2 {
                m = m / 2;
                proof {
                    vstd::arithmetic::power2::lemma_pow2_unfold((k - 1) as nat);
                }
            }
            k = k - 1;
        }
        proof {
            assert(bits_events(self.cs.spec_mask(), addr as int, -1) =~= Seq::<
                WriteEvent,
            >::empty());
            assert(t.writes() + Seq::<WriteEvent>::empty() =~= t.writes());
        }
        let ghost base2 = base + bits_events(self.cs.spec_mask(), addr as int, 7);
        assert(t.writes() =~= base2);
        let mut m2: u32 = 0x8000;
        let mut k2: u32 = 16;
        while k2 > 0
            invariant
                0 <= k2 <= 16,
                m2 == vstd::arithmetic::power2::pow2((k2 - 1) as nat) || k2 == 0,
                base2 == (old(t).writes() + seq![wire_event(idle_word(self.cs.spec_mask()))])
                    + bits_events(self.cs.spec_mask(), addr as int, 7),
                t.mem().dom() == old(t).mem().dom(),
                t.writes() + bits_events(self.cs.spec_mask(), val as int, k2 - 1) == base2
                    + bits_events(self.cs.spec_mask(), val as int, 15),
            decreases k2,
        {
            proof {
                vstd::arithmetic::power2::lemma_pow2_pos((k2 - 1) as nat);
            }
            let b = (val as u32 / m2) % 2 == 1;
            assert(b == nth_bit(val as int, (k2 - 1) as nat));
            let ghost before = t.writes();
            match self.send_3wire_bit(t, b) {
                Ok(()) => {},
                Err(e) => {
                    proof {
                        lemma_val_run_prefix(
                            old(t).writes(),
                            before,
                            t.writes(),
                            self.cs.spec_mask(),
                            addr,
                            val,
                            k2 as int,
                        );
                    }
                    return Err(e);
                },
            }
            proof {
                assert(bits_events(self.cs.spec_mask(), val as int, k2 - 1) == bit_events(
                    self.cs.spec_mask(),
                    nth_bit(val as int, (k2 - 1) as nat),
                ) + bits_events(self.cs.spec_mask(), val as int, k2 - 2));
                assert((before + bit_events(self.cs.spec_mask(), b)) + bits_events(
                    self.cs.spec_mask(),
                    val as int,
                    k2 - 2,
                ) =~= before + bits_events(self.cs.spec_mask(), val as int, k2 - 1));
            }
            if k2 >= 2 {
                m2 = m2 / 2;
                proof {
                    vstd::arithmetic::power2::lemma_pow2_unfold((k2 - 1) as nat);
                }
            }
            k2 = k2 - 1;
        }
        proof {
            assert(bits_events(self.cs.spec_mask(), val as int, -1) =~= Seq::<WriteEvent>::empty());
            assert(t.writes() + Seq::<WriteEvent>::empty() =~= t.writes());
        }
        let ghost base3 = base2 + bits_events(self.cs.spec_mask(), val as int, 15);
        assert(t.writes() =~= base3);
        match self.put_wire(t, idle) {
            Ok(()) => {},
            Err(e) => {
                proof {
                    let cs = self.cs.spec_mask();
                    let a1 = seq![wire_event(idle_word(cs))];
                    let full_a = bits_events(cs, addr as int, 7);
                    let full_v = bits_events(cs, val as int, 15);
                    lemma_bits_events_len(cs, addr as int, 7);
                    lemma_bits_events_len(cs, val as int, 15);
                    assert(tw == ((a1 + full_a) + full_v) + a1);
                    if t.writes() == base3 {
                        assert(tw.take(49) =~= (a1 + full_a) + full_v);
                        assert(t.writes() =~= old(t).writes() + tw.take(49));
                    } else {
                        assert(tw.take(50) =~= tw);
                        assert(t.writes() =~= old(t).writes() + tw.take(50));
                    }
                }
                return Err(e);
            },
        }
        proof {
            assert(t.writes() =~= old(t).writes() + three_wire_events(
                self.cs.spec_mask(),
                addr,
                val,
            ));
        }
        Ok(())
    }
}


/// The write event that puts `word` on the fabric control register.
pub open spec fn ctrl_event(word: u32) -> WriteEvent {
    WriteEvent { device: controller_name(), offset: 4, data: be32_bytes(word) }
}

/// The fabric control word as it reads back right after the probe write.
pub open spec fn probe_ctrl_word(m: Map<Seq<u8>, Seq<u8>>) -> u32 {
    let w = crate::transport::splice(m[controller_name()], 4, be32_bytes(0x400_0000));
    be32_val(w[4], w[5], w[6], w[7])
}

/// Whether the gateware supports demultiplexing: the probe bit cannot be
/// set, so it reads back clear.
pub open spec fn probe_supported(m: Map<Seq<u8>, Seq<u8>>) -> bool {
    (probe_ctrl_word(m) / 0x400_0000) % 2 == 0
}

/// The memory after the probe write and the clearing write.
pub open spec fn probe_cleared_mem(m: Map<Seq<u8>, Seq<u8>>) -> Map<Seq<u8>, Seq<u8>> {
    m.insert(
        controller_name(),
        crate::transport::splice(
            crate::transport::splice(m[controller_name()], 4, be32_bytes(0x400_0000)),
            4,
            be32_bytes(0),
        ),
    )
}

/// The fabric control word as it reads right after the probe sequence: the
/// cleared word.
pub open spec fn cleared_ctrl_word(m: Map<Seq<u8>, Seq<u8>>) -> u32 {
    let w = probe_cleared_mem(m)[controller_name()];
    be32_val(w[4], w[5], w[6], w[7])
}

impl Adc16 {
    /// Puts one word on the fabric control register at offset 4.
    fn put_ctrl<T: Transport>(&self, t: &mut T, word: u32) -> (r: Result<(), Error>)
        ensures
            r matches Err(e) ==> e is Transport,
            final(t).mem().dom() == old(t).mem().dom(),
            r matches Ok(()) ==> {
                &&& old(t).mem().dom().contains(controller_name())
                &&& 8 <= old(t).mem()[controller_name()].len()
                &&& final(t).mem() == old(t).mem().insert(
                    controller_name(),
                    crate::transport::splice(
                        old(t).mem()[controller_name()],
                        4,
                        be32_bytes(word),
                    ),
                )
                &&& final(t).writes() == old(t).writes().push(ctrl_event(word))
            },
            r is Err ==> final(t).writes() == old(t).writes() || final(t).writes() == old(
                t,
            ).writes().push(ctrl_event(word)),
    {
        let name = controller_name_bytes();
        match write_value(t, &name, 4, &word) {
            Ok(()) => Ok(()),
            Err(e) => Err(Error::Transport(e)),
        }
    }

    /// Reads the fabric control word at offset 4.
    fn read_ctrl<T: Transport>(&self, t: &mut T) -> (r: Result<u32, Error>)
        ensures
            r matches Err(e) ==> e is Transport,
            final(t).mem() == old(t).mem(),
            final(t).writes() == old(t).writes(),
            r matches Ok(v) ==> {
                &&& old(t).mem().dom().contains(controller_name())
                &&& old(t).mem()[controller_name()].len() >= 8
                &&& v == be32_val(
                    old(t).mem()[controller_name()][4],
                    old(t).mem()[controller_name()][5],
                    old(t).mem()[controller_name()][6],
                    old(t).mem()[controller_name()][7],
                )
            },
    {
        let name = controller_name_bytes();
        let raw: u32 = match read_value(t, &name, 4) {
            Ok(v) => v,
            Err(e) => {
                return Err(Error::Transport(e));
            },
        };
        proof {
            let w = old(t).mem()[controller_name()];
            assert(w.subrange(4, 8)[0] == w[4] && w.subrange(4, 8)[1] == w[5] && w.subrange(
                4,
                8,
            )[2] == w[6] && w.subrange(4, 8)[3] == w[7]);
        }
        Ok(raw)
    }

    /// Resets the selected chips through their reset register.
    pub fn reset<T: Transport>(&self, t: &mut T) -> (r: Result<(), Error>)
        ensures
            final(t).mem().dom() == old(t).mem().dom(),
            r matches Ok(()) ==> final(t).writes() == old(t).writes() + three_wire_events(
                self.cs.spec_mask(),
                0x00,
                (Reset { reset: true }).spec_word(),
            ),
            r is Err ==> crate::transport::trace_extends_prefix(
                old(t).writes(),
                final(t).writes(),
                three_wire_events(
                    self.cs.spec_mask(),
                    0x00,
                    (Reset { reset: true }).spec_word(),
                ),
            ),
    {
        let word = (Reset { reset: true }).pack();
        self.send_reg_raw(t, 0x00, word)
    }

    /// Powers the selected chips down by setting the power-down flag.
    pub fn power_down<T: Transport>(&self, t: &mut T) -> (r: Result<(), Error>)
        ensures
            final(t).mem().dom() == old(t).mem().dom(),
            r matches Ok(()) ==> final(t).writes() == old(t).writes() + three_wire_events(
                self.cs.spec_mask(),
                0x0F,
                (SleepPd { pd: true, ..SleepPd {
                    sleep4: 0,
                    sleep2: 0,
                    sleep1: false,
                    sleep: false,
                    pd: false,
                    pd_pin_cfg: crate::hmcad1511::PdPinCfg::PowerDown,
                } }).spec_word(),
            ),
            r is Err ==> crate::transport::trace_extends_prefix(
                old(t).writes(),
                final(t).writes(),
                three_wire_events(
                    self.cs.spec_mask(),
                    0x0F,
                    (SleepPd { pd: true, ..SleepPd {
                        sleep4: 0,
                        sleep2: 0,
                        sleep1: false,
                        sleep: false,
                        pd: false,
                        pd_pin_cfg: crate::hmcad1511::PdPinCfg::PowerDown,
                    } }).spec_word(),
                ),
            ),
    {
        let mut reg = SleepPd::awake();
        reg.pd = true;
        let word = reg.pack();
        self.send_reg_raw(t, 0x0F, word)
    }

    /// Powers the selected chips up by clearing every sleep flag.
    pub fn power_up<T: Transport>(&self, t: &mut T) -> (r: Result<(), Error>)
        ensures
            final(t).mem().dom() == old(t).mem().dom(),
            r matches Ok(()) ==> final(t).writes() == old(t).writes() + three_wire_events(
                self.cs.spec_mask(),
                0x0F,
                (SleepPd {
                    sleep4: 0,
                    sleep2: 0,
                    sleep1: false,
                    sleep: false,
                    pd: false,
                    pd_pin_cfg: crate::hmcad1511::PdPinCfg::PowerDown,
                }).spec_word(),
            ),
            r is Err ==> crate::transport::trace_extends_prefix(
                old(t).writes(),
                final(t).writes(),
                three_wire_events(
                    self.cs.spec_mask(),
                    0x0F,
                    (SleepPd {
                        sleep4: 0,
                        sleep2: 0,
                        sleep1: false,
                        sleep: false,
                        pd: false,
                        pd_pin_cfg: crate::hmcad1511::PdPinCfg::PowerDown,
                    }).spec_word(),
                ),
            ),
    {
        let reg = SleepPd::awake();
        let word = reg.pack();
        self.send_reg_raw(t, 0x0F, word)
    }

    /// Powers every chip down, then powers the eight chips up one at a
    /// time, rotating the chip select through them and restoring it after.
    pub fn power_cycle<T: Transport>(&mut self, t: &mut T) -> (r: Result<(), Error>)
        ensures
            final(self).cs == old(self).cs,
            final(t).mem().dom() == old(t).mem().dom(),
            r matches Ok(()) ==> final(t).writes() == old(t).writes() + three_wire_events(
                old(self).cs.spec_mask(),
                0x0F,
                (SleepPd { pd: true, ..SleepPd {
                    sleep4: 0,
                    sleep2: 0,
                    sleep1: false,
                    sleep: false,
                    pd: false,
                    pd_pin_cfg: crate::hmcad1511::PdPinCfg::PowerDown,
                } }).spec_word(),
            ) + power_up_rotation(0),
    {
        let ghost cs0 = self.cs;
        match self.power_down(t) {
            Ok(()) => {},
            Err(e) => {
                return Err(e);
            },
        }
        let ghost base = t.writes();
        let old_cs = self.cs;
        let mut i: u8 = 0;
        while i < 8
            invariant
                0 <= i <= 8,
                old_cs == old(self).cs,
                t.mem().dom() == old(t).mem().dom(),
                t.writes() + power_up_rotation(i as int) == base + power_up_rotation(0),
            decreases 8 - i,
        {
            let cs = ChipSelect::by_number(i);
            self.cs = cs;
            let ghost before = t.writes();
            let reg = SleepPd::awake();
            let word = reg.pack();
            match self.send_reg_raw(t, 0x0F, word) {
                Ok(()) => {},
                Err(e) => {
                    self.cs = old_cs;
                    return Err(e);
                },
            }
            proof {
                assert(self.cs.spec_mask() == vstd::arithmetic::power2::pow2(i as nat));
                assert(power_up_rotation(i as int) == three_wire_events(
                    vstd::arithmetic::power2::pow2(i as nat) as u8,
                    0x0F,
                    (SleepPd {
                        sleep4: 0,
                        sleep2: 0,
                        sleep1: false,
                        sleep: false,
                        pd: false,
                        pd_pin_cfg: crate::hmcad1511::PdPinCfg::PowerDown,
                    }).spec_word(),
                ) + power_up_rotation(i + 1));
                assert((before + three_wire_events(
                    self.cs.spec_mask(),
                    0x0F,
                    (SleepPd {
                        sleep4: 0,
                        sleep2: 0,
                        sleep1: false,
                        sleep: false,
                        pd: false,
                        pd_pin_cfg: crate::hmcad1511::PdPinCfg::PowerDown,
                    }).spec_word(),
                )) + power_up_rotation(i + 1) =~= before + power_up_rotation(i as int));
            }
            i += 1;
        }
        self.cs = old_cs;
        proof {
            assert(power_up_rotation(8) =~= Seq::<WriteEvent>::empty());
            assert(t.writes() + Seq::<WriteEvent>::empty() =~= t.writes());
        }
        Ok(())
    }

    /// Selects a test pattern on the selected chips: both pattern
    /// registers are cleared first, then the one carrying the requested
    /// pattern is set.
    pub fn enable_pattern<T: Transport>(&self, t: &mut T, pat: TestPattern) -> (r: Result<
        (),
        Error,
    >)
        ensures
            final(t).mem().dom() == old(t).mem().dom(),
            r matches Ok(()) ==> final(t).writes() == old(t).writes() + three_wire_events(
                self.cs.spec_mask(),
                0x25,
                0,
            ) + three_wire_events(self.cs.spec_mask(), 0x45, 0) + pattern_events(
                self.cs.spec_mask(),
                pat,
            ),
            r is Err ==> crate::transport::trace_extends_prefix(
                old(t).writes(),
                final(t).writes(),
                (three_wire_events(self.cs.spec_mask(), 0x25, 0) + three_wire_events(
                    self.cs.spec_mask(),
                    0x45,
                    0,
                )) + pattern_events(self.cs.spec_mask(), pat),
            ),
    {
        let ghost ev_a = three_wire_events(self.cs.spec_mask(), 0x25, 0);
        let ghost ev_b = three_wire_events(self.cs.spec_mask(), 0x45, 0);
        let ghost ev_c = pattern_events(self.cs.spec_mask(), pat);
        let cleared = (PatternCtl { pattern: Pattern::Disabled }).pack();
        match self.send_reg_raw(t, 0x25, cleared) {
            Ok(()) => {},
            Err(e) => {
                proof {
                    crate::transport::lemma_prefix_extend(old(t).writes(), t.writes(), ev_a, ev_b);
                    crate::transport::lemma_prefix_extend(
                        old(t).writes(),
                        t.writes(),
                        ev_a + ev_b,
                        ev_c,
                    );
                }
                return Err(e);
            },
        }
        let ghost w1 = t.writes();
        let desk_clear = (DeskewSyncPattern { pat_deskew_sync: DeskewSyncMode::Disabled }).pack();
        match self.send_reg_raw(t, 0x45, desk_clear) {
            Ok(()) => {},
            Err(e) => {
                proof {
                    crate::transport::lemma_prefix_compose(
                        old(t).writes(),
                        w1,
                        t.writes(),
                        ev_a,
                        ev_b,
                    );
                    crate::transport::lemma_prefix_extend(
                        old(t).writes(),
                        t.writes(),
                        ev_a + ev_b,
                        ev_c,
                    );
                }
                return Err(e);
            },
        }
        let ghost base = t.writes();
        let r = match pat {
            TestPattern::Ramp => {
                let w = (PatternCtl { pattern: Pattern::Ramp }).pack();
                self.send_reg_raw(t, 0x25, w)
            },
            TestPattern::Deskew => {
                let w = (DeskewSyncPattern { pat_deskew_sync: DeskewSyncMode::Deskew }).pack();
                self.send_reg_raw(t, 0x45, w)
            },
            TestPattern::Sync => {
                let w = (DeskewSyncPattern { pat_deskew_sync: DeskewSyncMode::Sync }).pack();
                self.send_reg_raw(t, 0x45, w)
            },
            TestPattern::Custom1 => {
                let w = (PatternCtl { pattern: Pattern::SingleCustom }).pack();
                self.send_reg_raw(t, 0x25, w)
            },
            TestPattern::Custom2 => {
                let w = (PatternCtl { pattern: Pattern::SingleCustom }).pack();
                self.send_reg_raw(t, 0x25, w)
            },
            TestPattern::Dual => {
                let w = (PatternCtl { pattern: Pattern::DualCustom }).pack();
                self.send_reg_raw(t, 0x25, w)
            },
            TestPattern::Sampled => Ok(()),
        };
        proof {
            if r is Ok {
                assert(t.writes() =~= base + pattern_events(self.cs.spec_mask(), pat));
                assert(base =~= old(t).writes() + three_wire_events(self.cs.spec_mask(), 0x25, 0)
                    + three_wire_events(self.cs.spec_mask(), 0x45, 0));
                assert((old(t).writes() + three_wire_events(self.cs.spec_mask(), 0x25, 0)
                    + three_wire_events(self.cs.spec_mask(), 0x45, 0)) + pattern_events(
                    self.cs.spec_mask(),
                    pat,
                ) =~= t.writes());
            } else {
                assert(base =~= old(t).writes() + (ev_a + ev_b));
                crate::transport::lemma_prefix_compose(
                    old(t).writes(),
                    base,
                    t.writes(),
                    ev_a + ev_b,
                    ev_c,
                );
            }
        }
        r
    }

    /// Programs the first custom pattern word on the selected chips.
    pub fn custom_1<T: Transport>(&self, t: &mut T, bits: u8) -> (r: Result<(), Error>)
        ensures
            final(t).mem().dom() == old(t).mem().dom(),
            r matches Ok(()) ==> final(t).writes() == old(t).writes() + three_wire_events(
                self.cs.spec_mask(),
                0x26,
                (CustomPattern1 { bits_custom1: bits }).spec_word(),
            ),
            r is Err ==> crate::transport::trace_extends_prefix(
                old(t).writes(),
                final(t).writes(),
                three_wire_events(
                    self.cs.spec_mask(),
                    0x26,
                    (CustomPattern1 { bits_custom1: bits }).spec_word(),
                ),
            ),
    {
        let w = (CustomPattern1 { bits_custom1: bits }).pack();
        self.send_reg_raw(t, 0x26, w)
    }

    /// Programs the second custom pattern word on the selected chips.
    pub fn custom_2<T: Transport>(&self, t: &mut T, bits: u8) -> (r: Result<(), Error>)
        ensures
            final(t).mem().dom() == old(t).mem().dom(),
            r matches Ok(()) ==> final(t).writes() == old(t).writes() + three_wire_events(
                self.cs.spec_mask(),
                0x27,
                (CustomPattern2 { bits_custom2: bits }).spec_word(),
            ),
            r is Err ==> crate::transport::trace_extends_prefix(
                old(t).writes(),
                final(t).writes(),
                three_wire_events(
                    self.cs.spec_mask(),
                    0x27,
                    (CustomPattern2 { bits_custom2: bits }).spec_word(),
                ),
            ),
    {
        let w = (CustomPattern2 { bits_custom2: bits }).pack();
        self.send_reg_raw(t, 0x27, w)
    }

    /// Pulses the named bitslip bits in the fabric control word: rest,
    /// the slip mask, rest again.
    pub fn bitslip<T: Transport>(&self, t: &mut T, bitslips: u8) -> (r: Result<(), Error>)
        ensures
            final(t).mem().dom() == old(t).mem().dom(),
            r matches Ok(()) ==> final(t).writes() == old(t).writes().push(
                ctrl_event(0),
            ).push(ctrl_event((0x100 * bitslips) as u32)).push(ctrl_event(0)),
            r is Err ==> crate::transport::trace_extends_prefix(
                old(t).writes(),
                final(t).writes(),
                seq![
                    ctrl_event(0),
                    ctrl_event((0x100 * bitslips) as u32),
                    ctrl_event(0),
                ],
            ),
    {
        let ghost intended = seq![
            ctrl_event(0),
            ctrl_event(((0x100 * bitslips) as u32)),
            ctrl_event(0),
        ];
        let clear = AdcControl::clear();
        let w0 = clear.pack();
        match self.put_ctrl(t, w0) {
            Ok(()) => {},
            Err(e) => {
                proof {
                    if t.writes() == old(t).writes() {
                        assert(t.writes() =~= old(t).writes() + intended.take(0));
                    } else {
                        assert(t.writes() =~= old(t).writes() + intended.take(1));
                    }
                }
                return Err(e);
            },
        }
        let mut slip = AdcControl::clear();
        slip.bitslip = bitslips;
        let w1 = slip.pack();
        assert(w1 == (0x100 * bitslips) as u32);
        match self.put_ctrl(t, w1) {
            Ok(()) => {},
            Err(e) => {
                proof {
                    if t.writes() == old(t).writes().push(ctrl_event(0)) {
                        assert(t.writes() =~= old(t).writes() + intended.take(1));
                    } else {
                        assert(t.writes() =~= old(t).writes() + intended.take(2));
                    }
                }
                return Err(e);
            },
        }
        let ghost w_before = t.writes();
        let r = self.put_ctrl(t, w0);
        proof {
            if r is Err {
                if t.writes() == w_before {
                    assert(t.writes() =~= old(t).writes() + intended.take(2));
                } else {
                    assert(t.writes() =~= old(t).writes() + intended.take(3));
                }
            }
        }
        r
    }

    /// Pulses the snapshot request in the fabric control word: rest, the
    /// request, rest again.
    pub fn snap_req<T: Transport>(&self, t: &mut T) -> (r: Result<(), Error>)
        ensures
            final(t).mem().dom() == old(t).mem().dom(),
            r matches Ok(()) ==> final(t).writes() == old(t).writes().push(
                ctrl_event(0),
            ).push(ctrl_event(0x1_0000)).push(ctrl_event(0)),
            r is Err ==> crate::transport::trace_extends_prefix(
                old(t).writes(),
                final(t).writes(),
                seq![ctrl_event(0), ctrl_event(0x1_0000), ctrl_event(0)],
            ),
    {
        let ghost intended = seq![ctrl_event(0u32), ctrl_event(0x1_0000u32), ctrl_event(0u32)];
        let clear = AdcControl::clear();
        let w0 = clear.pack();
        match self.put_ctrl(t, w0) {
            Ok(()) => {},
            Err(e) => {
                proof {
                    if t.writes() == old(t).writes() {
                        assert(t.writes() =~= old(t).writes() + intended.take(0));
                    } else {
                        assert(t.writes() =~= old(t).writes() + intended.take(1));
                    }
                }
                return Err(e);
            },
        }
        let mut req = AdcControl::clear();
        req.snap_request = true;
        let w1 = req.pack();
        assert(w1 == 0x1_0000u32);
        match self.put_ctrl(t, w1) {
            Ok(()) => {},
            Err(e) => {
                proof {
                    if t.writes() == old(t).writes().push(ctrl_event(0)) {
                        assert(t.writes() =~= old(t).writes() + intended.take(1));
                    } else {
                        assert(t.writes() =~= old(t).writes() + intended.take(2));
                    }
                }
                return Err(e);
            },
        }
        let ghost w_before = t.writes();
        let r = self.put_ctrl(t, w0);
        proof {
            if r is Err {
                if t.writes() == w_before {
                    assert(t.writes() =~= old(t).writes() + intended.take(2));
                } else {
                    assert(t.writes() =~= old(t).writes() + intended.take(3));
                }
            }
        }
        r
    }

    /// Probes whether the gateware supports demultiplexing: sets the probe
    /// bit and reads it back — support means the bit cannot be set — then
    /// clears the control word, leaving the probe bit clear either way.
    ///
    /// Against the model every transport obeys, the probe bit reads back
    /// as written; real gateware with demultiplexing support refuses the
    /// bit, which is exactly what the read-back in the contract captures.
    pub fn supports_demux<T: Transport>(&self, t: &mut T) -> (r: Result<bool, Error>)
        ensures
            final(t).mem().dom() == old(t).mem().dom(),
            r matches Err(e) ==> e is Transport,
            r matches Ok(b) ==> {
                &&& old(t).mem().dom().contains(controller_name())
                &&& 8 <= old(t).mem()[controller_name()].len()
                &&& b == probe_supported(old(t).mem())
                &&& final(t).mem() == probe_cleared_mem(old(t).mem())
                &&& final(t).writes() == old(t).writes().push(ctrl_event(0x400_0000)).push(
                    ctrl_event(0),
                )
            },
    {
        let ghost m0 = old(t).mem();
        let mut probe = AdcControl::clear();
        probe.demux_write_enable = true;
        let w = probe.pack();
        assert(w == 0x400_0000u32);
        match self.put_ctrl(t, w) {
            Ok(()) => {},
            Err(e) => {
                return Err(e);
            },
        }
        proof {
            let spliced = crate::transport::splice(
                m0[controller_name()],
                4,
                be32_bytes(0x400_0000),
            );
            assert(t.mem() == m0.insert(controller_name(), spliced));
            assert(t.mem()[controller_name()] == spliced);
        }
        let read_back = match self.read_ctrl(t) {
            Ok(v) => v,
            Err(e) => {
                return Err(e);
            },
        };
        assert(read_back == probe_ctrl_word(m0));
        let cleared = AdcControl::clear();
        let w0 = cleared.pack();
        match self.put_ctrl(t, w0) {
            Ok(()) => {},
            Err(e) => {
                return Err(e);
            },
        }
        proof {
            assert(t.mem() =~= probe_cleared_mem(m0));
        }
        Ok((read_back / 0x400_0000) % 2 == 0)
    }

    /// The demultiplexing mode the fabric runs, or nothing on gateware
    /// without demultiplexing support: the probe sequence, then — when it
    /// showed support — a read of the control word, decoded to its mode.
    pub fn get_demux<T: Transport>(&self, t: &mut T) -> (r: Result<Option<DemuxMode>, Error>)
        ensures
            final(t).mem().dom() == old(t).mem().dom(),
            r matches Ok(opt) ==> {
                &&& old(t).mem().dom().contains(controller_name())
                &&& final(t).mem() == probe_cleared_mem(old(t).mem())
                &&& final(t).writes() == old(t).writes().push(ctrl_event(0x400_0000)).push(
                    ctrl_event(0),
                )
                &&& !probe_supported(old(t).mem()) ==> opt is None
                &&& probe_supported(old(t).mem()) ==> (AdcControl::of_word(
                    cleared_ctrl_word(old(t).mem()),
                ) matches Some(c) && opt == Some(c.demux_mode))
            },
            r matches Err(e) ==> ((e matches Error::Packing) ==> (probe_supported(old(t).mem())
                && AdcControl::of_word(cleared_ctrl_word(old(t).mem())) is None)),
    {
        let ghost m0 = old(t).mem();
        let supports = match self.supports_demux(t) {
            Ok(b) => b,
            Err(e) => {
                return Err(e);
            },
        };
        if !supports {
            return Ok(None);
        }
        let w = match self.read_ctrl(t) {
            Ok(v) => v,
            Err(e) => {
                return Err(e);
            },
        };
        assert(w == cleared_ctrl_word(m0));
        match AdcControl::unpack(w) {
            Some(c) => Ok(Some(c.demux_mode)),
            None => Err(Error::Packing),
        }
    }

    /// Sets the demultiplexing mode: the probe sequence, then — support
    /// shown — a read of the control word written back with only the mode
    /// changed; gateware without demultiplexing support refuses.
    pub fn set_demux<T: Transport>(&self, t: &mut T, mode: DemuxMode) -> (r: Result<(), Error>)
        ensures
            final(t).mem().dom() == old(t).mem().dom(),
            r matches Ok(()) ==> {
                &&& old(t).mem().dom().contains(controller_name())
                &&& 8 <= old(t).mem()[controller_name()].len()
                &&& probe_supported(old(t).mem())
                &&& (AdcControl::of_word(cleared_ctrl_word(old(t).mem())) matches Some(c) && {
                    let set_word = (AdcControl { demux_mode: mode, ..c }).spec_word();
                    &&& final(t).writes() == old(t).writes().push(ctrl_event(0x400_0000)).push(
                        ctrl_event(0),
                    ).push(ctrl_event(set_word))
                    &&& final(t).mem() == probe_cleared_mem(old(t).mem()).insert(
                        controller_name(),
                        crate::transport::splice(
                            probe_cleared_mem(old(t).mem())[controller_name()],
                            4,
                            be32_bytes(set_word),
                        ),
                    )
                })
            },
            r matches Err(e) ==> ((e matches Error::NoDemux) ==> !probe_supported(old(t).mem())),
            r matches Err(e) ==> ((e matches Error::Packing) ==> (probe_supported(old(t).mem())
                && AdcControl::of_word(cleared_ctrl_word(old(t).mem())) is None)),
    {
        let ghost m0 = old(t).mem();
        let supports = match self.supports_demux(t) {
            Ok(b) => b,
            Err(e) => {
                return Err(e);
            },
        };
        if !supports {
            return Err(Error::NoDemux);
        }
        let w = match self.read_ctrl(t) {
            Ok(v) => v,
            Err(e) => {
                return Err(e);
            },
        };
        assert(w == cleared_ctrl_word(m0));
        let mut c = match AdcControl::unpack(w) {
            Some(c) => c,
            None => {
                return Err(Error::Packing);
            },
        };
        c.demux_mode = mode;
        proof {
            assert(c.wf());
        }
        let w2 = c.pack();
        self.put_ctrl(t, w2)
    }

    /// Selects the channel count and clock settings for the chips: the
    /// channel register matching the mode with the divider at one, then
    /// the low-clock flag when the per-channel rate is under 240, 120 or
    /// 60 MHz for single, dual or quad mode.
    pub fn set_operating_mode<T: Transport>(&self, t: &mut T, mode: AdcMode, freq_mhz: u64) -> (r:
        Result<(), Error>)
        ensures
            final(t).mem().dom() == old(t).mem().dom(),
            r matches Ok(()) ==> final(t).writes() == old(t).writes() + three_wire_events(
                self.cs.spec_mask(),
                0x31,
                (ChanNumClkDiv {
                    channel_num: mode_channel_num(mode),
                    clk_divide: ClockDivide::Div1,
                }).spec_word(),
            ) + three_wire_events(
                self.cs.spec_mask(),
                0x53,
                (LvdsOutputControl {
                    low_clk_freq: low_clock(mode, freq_mhz as int),
                    lvds_shift: LvdsShift::Disabled,
                }).spec_word(),
            ),
            r is Err ==> crate::transport::trace_extends_prefix(
                old(t).writes(),
                final(t).writes(),
                three_wire_events(
                    self.cs.spec_mask(),
                    0x31,
                    (ChanNumClkDiv {
                        channel_num: mode_channel_num(mode),
                        clk_divide: ClockDivide::Div1,
                    }).spec_word(),
                ) + three_wire_events(
                    self.cs.spec_mask(),
                    0x53,
                    (LvdsOutputControl {
                        low_clk_freq: low_clock(mode, freq_mhz as int),
                        lvds_shift: LvdsShift::Disabled,
                    }).spec_word(),
                ),
            ),
    {
        let ghost ev_a = three_wire_events(
            self.cs.spec_mask(),
            0x31,
            (ChanNumClkDiv {
                channel_num: mode_channel_num(mode),
                clk_divide: ClockDivide::Div1,
            }).spec_word(),
        );
        let ghost ev_b = three_wire_events(
            self.cs.spec_mask(),
            0x53,
            (LvdsOutputControl {
                low_clk_freq: low_clock(mode, freq_mhz as int),
                lvds_shift: LvdsShift::Disabled,
            }).spec_word(),
        );
        let low_clk = match mode {
            AdcMode::Single => freq_mhz < 240,
            AdcMode::Dual => freq_mhz < 120,
            AdcMode::Quad => freq_mhz < 60,
        };
        let channel_num = match mode {
            AdcMode::Single => ChannelNum::Single,
            AdcMode::Dual => ChannelNum::Dual,
            AdcMode::Quad => ChannelNum::Quad,
        };
        let chan_word = (ChanNumClkDiv { channel_num, clk_divide: ClockDivide::Div1 }).pack();
        let ghost base = t.writes();
        match self.send_reg_raw(t, 0x31, chan_word) {
            Ok(()) => {},
            Err(e) => {
                proof {
                    crate::transport::lemma_prefix_extend(old(t).writes(), t.writes(), ev_a, ev_b);
                }
                return Err(e);
            },
        }
        let ghost w1 = t.writes();
        let lvds_word = (LvdsOutputControl { low_clk_freq: low_clk, lvds_shift: LvdsShift::Disabled }).pack();
        let r = self.send_reg_raw(t, 0x53, lvds_word);
        proof {
            if r is Err {
                crate::transport::lemma_prefix_compose(old(t).writes(), w1, t.writes(), ev_a, ev_b);
            }
        }
        proof {
            if r is Ok {
                assert((old(t).writes() + three_wire_events(
                    self.cs.spec_mask(),
                    0x31,
                    (ChanNumClkDiv {
                        channel_num: mode_channel_num(mode),
                        clk_divide: ClockDivide::Div1,
                    }).spec_word(),
                )) + three_wire_events(
                    self.cs.spec_mask(),
                    0x53,
                    (LvdsOutputControl {
                        low_clk_freq: low_clock(mode, freq_mhz as int),
                        lvds_shift: LvdsShift::Disabled,
                    }).spec_word(),
                ) =~= t.writes());
            }
        }
        r
    }

    /// Starts the chips into a clean state: reset, power down, set the
    /// operating mode, power up — each over the three-wire interface to
    /// the selected chips, in that order.
    #[verifier::rlimit(100)]
    pub fn init<T: Transport>(&mut self, t: &mut T, mode: AdcMode, freq_mhz: u64) -> (r: Result<
        (),
        Error,
    >)
        ensures
            final(self).cs == old(self).cs,
            final(t).mem().dom() == old(t).mem().dom(),
            r matches Ok(()) ==> final(t).writes() == old(t).writes() + init_events(
                old(self).cs.spec_mask(),
                mode,
                freq_mhz as int,
            ),
    {
        match self.reset(t) {
            Ok(()) => {},
            Err(e) => {
                return Err(e);
            },
        }
        let ghost w1 = t.writes();
        match self.power_down(t) {
            Ok(()) => {},
            Err(e) => {
                return Err(e);
            },
        }
        let ghost w2 = t.writes();
        match self.set_operating_mode(t, mode, freq_mhz) {
            Ok(()) => {},
            Err(e) => {
                return Err(e);
            },
        }
        let ghost w3 = t.writes();
        let r = self.power_up(t);
        proof {
            if r is Ok {
                assert(t.writes() =~= old(t).writes() + init_events(
                    self.cs.spec_mask(),
                    mode,
                    freq_mhz as int,
                ));
            }
        }
        r
    }

    /// Writes the crossbar registers so that a single input feeds all four
    /// converters, a pair feeds two each, or four feed one each.
    pub fn input_select<T: Transport>(&self, t: &mut T, inputs: ChannelInput) -> (r: Result<
        (),
        Error,
    >)
        ensures
            final(t).mem().dom() == old(t).mem().dom(),
            r matches Ok(()) ==> final(t).writes() == old(t).writes() + three_wire_events(
                self.cs.spec_mask(),
                0x3A,
                (InputSelect12 {
                    inp_sel_adc1: crossbar(inputs).0,
                    inp_sel_adc2: crossbar(inputs).1,
                }).spec_word(),
            ) + three_wire_events(
                self.cs.spec_mask(),
                0x3B,
                (InputSelect34 {
                    inp_sel_adc3: crossbar(inputs).2,
                    inp_sel_adc4: crossbar(inputs).3,
                }).spec_word(),
            ),
            r is Err ==> crate::transport::trace_extends_prefix(
                old(t).writes(),
                final(t).writes(),
                three_wire_events(
                    self.cs.spec_mask(),
                    0x3A,
                    (InputSelect12 {
                        inp_sel_adc1: crossbar(inputs).0,
                        inp_sel_adc2: crossbar(inputs).1,
                    }).spec_word(),
                ) + three_wire_events(
                    self.cs.spec_mask(),
                    0x3B,
                    (InputSelect34 {
                        inp_sel_adc3: crossbar(inputs).2,
                        inp_sel_adc4: crossbar(inputs).3,
                    }).spec_word(),
                ),
            ),
    {
        let ghost ev_a = three_wire_events(
            self.cs.spec_mask(),
            0x3A,
            (InputSelect12 {
                inp_sel_adc1: crossbar(inputs).0,
                inp_sel_adc2: crossbar(inputs).1,
            }).spec_word(),
        );
        let ghost ev_b = three_wire_events(
            self.cs.spec_mask(),
            0x3B,
            (InputSelect34 {
                inp_sel_adc3: crossbar(inputs).2,
                inp_sel_adc4: crossbar(inputs).3,
            }).spec_word(),
        );
        let (s1, s2, s3, s4) = match inputs {
            ChannelInput::Single(a) => (a, a, a, a),
            ChannelInput::Dual(a, b) => (a, a, b, b),
            ChannelInput::Quad(a, b, c, d) => (a, b, c, d),
        };
        let w12 = (InputSelect12 { inp_sel_adc1: s1, inp_sel_adc2: s2 }).pack();
        match self.send_reg_raw(t, 0x3A, w12) {
            Ok(()) => {},
            Err(e) => {
                proof {
                    crate::transport::lemma_prefix_extend(old(t).writes(), t.writes(), ev_a, ev_b);
                }
                return Err(e);
            },
        }
        let ghost w1 = t.writes();
        let w34 = (InputSelect34 { inp_sel_adc3: s3, inp_sel_adc4: s4 }).pack();
        let r = self.send_reg_raw(t, 0x3B, w34);
        proof {
            if r is Err {
                crate::transport::lemma_prefix_compose(old(t).writes(), w1, t.writes(), ev_a, ev_b);
            }
        }
        proof {
            if r is Ok {
                assert((old(t).writes() + three_wire_events(
                    self.cs.spec_mask(),
                    0x3A,
                    (InputSelect12 {
                        inp_sel_adc1: crossbar(inputs).0,
                        inp_sel_adc2: crossbar(inputs).1,
                    }).spec_word(),
                )) + three_wire_events(
                    self.cs.spec_mask(),
                    0x3B,
                    (InputSelect34 {
                        inp_sel_adc3: crossbar(inputs).2,
                        inp_sel_adc4: crossbar(inputs).3,
                    }).spec_word(),
                ) =~= t.writes());
            }
        }
        r
    }

    /// Switches the internal LVDS terminations off on the selected chips.
    pub fn disable_termination<T: Transport>(&self, t: &mut T) -> (r: Result<(), Error>)
        ensures
            final(t).mem().dom() == old(t).mem().dom(),
            r matches Ok(()) ==> final(t).writes() == old(t).writes() + three_wire_events(
                self.cs.spec_mask(),
                0x11,
                (LvdsTerminations {
                    en_lvds_term: false,
                    term_lclk: LvdsTermination::Disabled,
                    term_frame: LvdsTermination::Disabled,
                    term_dat: LvdsTermination::Disabled,
                }).spec_word(),
            ),
            r is Err ==> crate::transport::trace_extends_prefix(
                old(t).writes(),
                final(t).writes(),
                three_wire_events(
                    self.cs.spec_mask(),
                    0x11,
                    (LvdsTerminations {
                        en_lvds_term: false,
                        term_lclk: LvdsTermination::Disabled,
                        term_frame: LvdsTermination::Disabled,
                        term_dat: LvdsTermination::Disabled,
                    }).spec_word(),
                ),
            ),
    {
        let reg = LvdsTerminations {
            en_lvds_term: false,
            term_lclk: LvdsTermination::Disabled,
            term_frame: LvdsTermination::Disabled,
            term_dat: LvdsTermination::Disabled,
        };
        let w = reg.pack();
        self.send_reg_raw(t, 0x11, w)
    }

    /// Sets the three LVDS terminations on the selected chips, enabling
    /// the internal termination.
    pub fn set_terminations<T: Transport>(
        &self,
        t: &mut T,
        lclk: LvdsTermination,
        frame: LvdsTermination,
        data: LvdsTermination,
    ) -> (r: Result<(), Error>)
        ensures
            final(t).mem().dom() == old(t).mem().dom(),
            r matches Ok(()) ==> final(t).writes() == old(t).writes() + three_wire_events(
                self.cs.spec_mask(),
                0x11,
                (LvdsTerminations {
                    en_lvds_term: true,
                    term_lclk: lclk,
                    term_frame: frame,
                    term_dat: data,
                }).spec_word(),
            ),
            r is Err ==> crate::transport::trace_extends_prefix(
                old(t).writes(),
                final(t).writes(),
                three_wire_events(
                    self.cs.spec_mask(),
                    0x11,
                    (LvdsTerminations {
                        en_lvds_term: true,
                        term_lclk: lclk,
                        term_frame: frame,
                        term_dat: data,
                    }).spec_word(),
                ),
            ),
    {
        let reg = LvdsTerminations {
            en_lvds_term: true,
            term_lclk: lclk,
            term_frame: frame,
            term_dat: data,
        };
        let w = reg.pack();
        self.send_reg_raw(t, 0x11, w)
    }

    /// Sets the three LVDS drive strengths on the selected chips.
    pub fn set_drive_strength<T: Transport>(
        &self,
        t: &mut T,
        lclk: LvdsDriveStrength,
        frame: LvdsDriveStrength,
        data: LvdsDriveStrength,
    ) -> (r: Result<(), Error>)
        ensures
            final(t).mem().dom() == old(t).mem().dom(),
            r matches Ok(()) ==> final(t).writes() == old(t).writes() + three_wire_events(
                self.cs.spec_mask(),
                0x12,
                (LvdsDrives { ilvds_lclk: lclk, ilvds_frame: frame, ilvds_dat: data }).spec_word(),
            ),
            r is Err ==> crate::transport::trace_extends_prefix(
                old(t).writes(),
                final(t).writes(),
                three_wire_events(
                    self.cs.spec_mask(),
                    0x12,
                    (LvdsDrives { ilvds_lclk: lclk, ilvds_frame: frame, ilvds_dat: data }).spec_word(),
                ),
            ),
    {
        let reg = LvdsDrives { ilvds_lclk: lclk, ilvds_frame: frame, ilvds_dat: data };
        let w = reg.pack();
        self.send_reg_raw(t, 0x12, w)
    }
}

/// The whole three-wire program `init` runs on the selected chips: the
/// reset, the power down, the channel and clock registers, the power up.
pub open spec fn init_events(cs_mask: u8, mode: AdcMode, freq_mhz: int) -> Seq<WriteEvent> {
    three_wire_events(cs_mask, 0x00, (Reset { reset: true }).spec_word()) + three_wire_events(
        cs_mask,
        0x0F,
        (SleepPd {
            sleep4: 0,
            sleep2: 0,
            sleep1: false,
            sleep: false,
            pd: true,
            pd_pin_cfg: crate::hmcad1511::PdPinCfg::PowerDown,
        }).spec_word(),
    ) + three_wire_events(
        cs_mask,
        0x31,
        (ChanNumClkDiv { channel_num: mode_channel_num(mode), clk_divide: ClockDivide::Div1 }).spec_word(),
    ) + three_wire_events(
        cs_mask,
        0x53,
        (LvdsOutputControl {
            low_clk_freq: low_clock(mode, freq_mhz),
            lvds_shift: LvdsShift::Disabled,
        }).spec_word(),
    ) + three_wire_events(
        cs_mask,
        0x0F,
        (SleepPd {
            sleep4: 0,
            sleep2: 0,
            sleep1: false,
            sleep: false,
            pd: false,
            pd_pin_cfg: crate::hmcad1511::PdPinCfg::PowerDown,
        }).spec_word(),
    )
}

/// The channel register code a bank mode asks for.
pub open spec fn mode_channel_num(mode: AdcMode) -> ChannelNum {
    match mode {
        AdcMode::Single => ChannelNum::Single,
        AdcMode::Dual => ChannelNum::Dual,
        AdcMode::Quad => ChannelNum::Quad,
    }
}

/// Whether the low-clock flag is set: the per-channel rate sits under 240,
/// 120 or 60 MHz for single, dual or quad mode.
pub open spec fn low_clock(mode: AdcMode, freq_mhz: int) -> bool {
    match mode {
        AdcMode::Single => freq_mhz < 240,
        AdcMode::Dual => freq_mhz < 120,
        AdcMode::Quad => freq_mhz < 60,
    }
}

/// The four crossbar selections a channel-input choice stands for.
pub open spec fn crossbar(inputs: ChannelInput) -> (
    InputSelect,
    InputSelect,
    InputSelect,
    InputSelect,
) {
    match inputs {
        ChannelInput::Single(a) => (a, a, a, a),
        ChannelInput::Dual(a, b) => (a, a, b, b),
        ChannelInput::Quad(a, b, c, d) => (a, b, c, d),
    }
}

/// The pattern-register write one test-pattern choice emits after the two
/// clearing writes.
pub open spec fn pattern_events(cs_mask: u8, pat: TestPattern) -> Seq<WriteEvent> {
    match pat {
        TestPattern::Ramp => three_wire_events(
            cs_mask,
            0x25,
            (PatternCtl { pattern: Pattern::Ramp }).spec_word(),
        ),
        TestPattern::Deskew => three_wire_events(
            cs_mask,
            0x45,
            (DeskewSyncPattern { pat_deskew_sync: DeskewSyncMode::Deskew }).spec_word(),
        ),
        TestPattern::Sync => three_wire_events(
            cs_mask,
            0x45,
            (DeskewSyncPattern { pat_deskew_sync: DeskewSyncMode::Sync }).spec_word(),
        ),
        TestPattern::Custom1 => three_wire_events(
            cs_mask,
            0x25,
            (PatternCtl { pattern: Pattern::SingleCustom }).spec_word(),
        ),
        TestPattern::Custom2 => three_wire_events(
            cs_mask,
            0x25,
            (PatternCtl { pattern: Pattern::SingleCustom }).spec_word(),
        ),
        TestPattern::Dual => three_wire_events(
            cs_mask,
            0x25,
            (PatternCtl { pattern: Pattern::DualCustom }).spec_word(),
        ),
        TestPattern::Sampled => Seq::<WriteEvent>::empty(),
    }
}

/// The power-up writes of the chip rotation from chip `i` on: each chip
/// alone on the select, its sleep register cleared.
pub open spec fn power_up_rotation(i: int) -> Seq<WriteEvent>
    decreases 8 - i,
{
    if i < 0 || i >= 8 {
        Seq::<WriteEvent>::empty()
    } else {
        three_wire_events(
            vstd::arithmetic::power2::pow2(i as nat) as u8,
            0x0F,
            (SleepPd {
                sleep4: 0,
                sleep2: 0,
                sleep1: false,
                sleep: false,
                pd: false,
                pd_pin_cfg: crate::hmcad1511::PdPinCfg::PowerDown,
            }).spec_word(),
        ) + power_up_rotation(i + 1)
    }
}

/// A delay-tap strobe register at controller offset 0x8: one four-bit
/// strobe nibble per chip, chip A in the lowest nibble.
#[derive(Debug, Copy, Clone, PartialEq, Eq, Structural)]
pub struct AdcDelayAStrobe {
    pub a: u8,
    pub b: u8,
    pub c: u8,
    pub d: u8,
    pub e: u8,
    pub f: u8,
    pub g: u8,
    pub h: u8,
}

impl AdcDelayAStrobe {
    /// The controller offset this register lives at.
    pub open spec fn spec_addr() -> u16 {
        0x8
    }

    /// The nibbles fit their four-bit fields.
    pub open spec fn wf(self) -> bool {
        self.a < 16 && self.b < 16 && self.c < 16 && self.d < 16 && self.e < 16 && self.f < 16
            && self.g < 16 && self.h < 16
    }

    /// The packed register word.
    pub open spec fn spec_word(self) -> u32 {
        (self.a % 16 + 0x10 * (self.b % 16) + 0x100 * (self.c % 16) + 0x1000 * (self.d % 16)
            + 0x1_0000 * (self.e % 16) + 0x10_0000 * (self.f % 16) + 0x100_0000 * (self.g % 16)
            + 0x1000_0000 * (self.h % 16)) as u32
    }

    /// The nibbles a register word carries.
    pub open spec fn of_word(w: u32) -> AdcDelayAStrobe {
        AdcDelayAStrobe {
            a: (w % 16) as u8,
            b: ((w / 0x10) % 16) as u8,
            c: ((w / 0x100) % 16) as u8,
            d: ((w / 0x1000) % 16) as u8,
            e: ((w / 0x1_0000) % 16) as u8,
            f: ((w / 0x10_0000) % 16) as u8,
            g: ((w / 0x100_0000) % 16) as u8,
            h: ((w / 0x1000_0000) % 16) as u8,
        }
    }

    /// Unpacking a packed strobe word yields the nibbles packed into it,
    /// for nibbles that fit their fields.
    #[verifier::rlimit(50)]
    pub proof fn lemma_round_trip(s: AdcDelayAStrobe)
        requires
            s.wf(),
        ensures
            AdcDelayAStrobe::of_word(s.spec_word()) == s,
    {
        let a = s.a as u32;
        let b = s.b as u32;
        let c = s.c as u32;
        let d = s.d as u32;
        let e = s.e as u32;
        let f = s.f as u32;
        let g = s.g as u32;
        let h = s.h as u32;
        let w = s.spec_word();
        assert(w == a + 0x10 * b + 0x100 * c + 0x1000 * d + 0x1_0000 * e + 0x10_0000 * f
            + 0x100_0000 * g + 0x1000_0000 * h);
        assert(w % 16 == a && (w / 0x10) % 16 == b && (w / 0x100) % 16 == c && (w / 0x1000) % 16
            == d && (w / 0x1_0000) % 16 == e && (w / 0x10_0000) % 16 == f && (w / 0x100_0000) % 16
            == g && (w / 0x1000_0000) % 16 == h) by (bit_vector)
            requires
                a < 16 && b < 16 && c < 16 && d < 16 && e < 16 && f < 16 && g < 16 && h < 16,
                w == a + 0x10 * b + 0x100 * c + 0x1000 * d + 0x1_0000 * e + 0x10_0000 * f
                    + 0x100_0000 * g + 0x1000_0000 * h,
        ;
    }

    /// Packs the nibbles into the register word.
    #[verifier::rlimit(60)]
    pub fn pack(&self) -> (r: u32)
        requires
            self.wf(),
        ensures
            r == self.spec_word(),
    {
        self.a as u32 + 0x10 * (self.b as u32) + 0x100 * (self.c as u32) + 0x1000 * (
        self.d as u32) + 0x1_0000 * (self.e as u32) + 0x10_0000 * (self.f as u32) + 0x100_0000 * (
        self.g as u32) + 0x1000_0000 * (self.h as u32)
    }
}

/// A delay-tap strobe register at controller offset 0xC: one four-bit
/// strobe nibble per chip, chip A in the lowest nibble.
#[derive(Debug, Copy, Clone, PartialEq, Eq, Structural)]
pub struct AdcDelayBStrobe {
    pub a: u8,
    pub b: u8,
    pub c: u8,
    pub d: u8,
    pub e: u8,
    pub f: u8,
    pub g: u8,
    pub h: u8,
}

impl AdcDelayBStrobe {
    /// The controller offset this register lives at.
    pub open spec fn spec_addr() -> u16 {
        0xC
    }

    /// The nibbles fit their four-bit fields.
    pub open spec fn wf(self) -> bool {
        self.a < 16 && self.b < 16 && self.c < 16 && self.d < 16 && self.e < 16 && self.f < 16
            && self.g < 16 && self.h < 16
    }

    /// The packed register word.
    pub open spec fn spec_word(self) -> u32 {
        (self.a % 16 + 0x10 * (self.b % 16) + 0x100 * (self.c % 16) + 0x1000 * (self.d % 16)
            + 0x1_0000 * (self.e % 16) + 0x10_0000 * (self.f % 16) + 0x100_0000 * (self.g % 16)
            + 0x1000_0000 * (self.h % 16)) as u32
    }

    /// The nibbles a register word carries.
    pub open spec fn of_word(w: u32) -> AdcDelayBStrobe {
        AdcDelayBStrobe {
            a: (w % 16) as u8,
            b: ((w / 0x10) % 16) as u8,
            c: ((w / 0x100) % 16) as u8,
            d: ((w / 0x1000) % 16) as u8,
            e: ((w / 0x1_0000) % 16) as u8,
            f: ((w / 0x10_0000) % 16) as u8,
            g: ((w / 0x100_0000) % 16) as u8,
            h: ((w / 0x1000_0000) % 16) as u8,
        }
    }

    /// Unpacking a packed strobe word yields the nibbles packed into it,
    /// for nibbles that fit their fields.
    #[verifier::rlimit(50)]
    pub proof fn lemma_round_trip(s: AdcDelayBStrobe)
        requires
            s.wf(),
        ensures
            AdcDelayBStrobe::of_word(s.spec_word()) == s,
    {
        let a = s.a as u32;
        let b = s.b as u32;
        let c = s.c as u32;
        let d = s.d as u32;
        let e = s.e as u32;
        let f = s.f as u32;
        let g = s.g as u32;
        let h = s.h as u32;
        let w = s.spec_word();
        assert(w == a + 0x10 * b + 0x100 * c + 0x1000 * d + 0x1_0000 * e + 0x10_0000 * f
            + 0x100_0000 * g + 0x1000_0000 * h);
        assert(w % 16 == a && (w / 0x10) % 16 == b && (w / 0x100) % 16 == c && (w / 0x1000) % 16
            == d && (w / 0x1_0000) % 16 == e && (w / 0x10_0000) % 16 == f && (w / 0x100_0000) % 16
            == g && (w / 0x1000_0000) % 16 == h) by (bit_vector)
            requires
                a < 16 && b < 16 && c < 16 && d < 16 && e < 16 && f < 16 && g < 16 && h < 16,
                w == a + 0x10 * b + 0x100 * c + 0x1000 * d + 0x1_0000 * e + 0x10_0000 * f
                    + 0x100_0000 * g + 0x1000_0000 * h,
        ;
    }

    /// Packs the nibbles into the register word.
    #[verifier::rlimit(60)]
    pub fn pack(&self) -> (r: u32)
        requires
            self.wf(),
        ensures
            r == self.spec_word(),
    {
        self.a as u32 + 0x10 * (self.b as u32) + 0x100 * (self.c as u32) + 0x1000 * (
        self.d as u32) + 0x1_0000 * (self.e as u32) + 0x10_0000 * (self.f as u32) + 0x100_0000 * (
        self.g as u32) + 0x1000_0000 * (self.h as u32)
    }
}

} // verus!
