//! The snapshot block: a capture engine behind three sibling registers —
//! `<name>_ctrl`, `<name>_status`, `<name>_bram` — and, on blocks built
//! with offset support, `<name>_trig_offset`.

use vstd::prelude::*;

use crate::encoding::{append_bytes, be32_bytes, be32_val, clone_bytes, parse_decimal};
use crate::transport::{read_value, splice, write_value, Transport, WriteEvent};

verus! {

/// Errors of the snapshot operations.
#[derive(Debug)]
pub enum Error {
    /// The transport failed.
    Transport(crate::transport::Error),
    /// The sample-count text in the design's metadata is not a number.
    BadSampleN,
    /// The offset flag in the design's metadata is neither `on` nor `off`.
    BadOffset,
    /// An offset was set on a block built without offset support.
    NoOffsets,
}

/// The control register: four flag bits, lowest first.
#[derive(Debug, Copy, Clone, PartialEq, Eq, Structural)]
pub struct Control {
    /// Arms the block for the next trigger (bit 0).
    pub arm: bool,
    /// Forces a trigger (bit 1).
    pub trig_override: bool,
    /// Forces write enable (bit 2).
    pub write_enable_override: bool,
    /// Captures circularly (bit 3).
    pub circular_capture: bool,
}

/// One for a set flag, zero otherwise.
pub open spec fn bit(b: bool) -> u32 {
    if b {
        1u32
    } else {
        0u32
    }
}

impl Control {
    /// The packed register word.
    pub open spec fn spec_word(self) -> u32 {
        (bit(self.arm) + 2 * bit(self.trig_override) + 4 * bit(self.write_enable_override) + 8
            * bit(self.circular_capture)) as u32
    }

    /// The flags a register word carries.
    pub open spec fn of_word(w: u32) -> Control {
        Control {
            arm: w % 2 == 1,
            trig_override: (w / 2) % 2 == 1,
            write_enable_override: (w / 4) % 2 == 1,
            circular_capture: (w / 8) % 2 == 1,
        }
    }

    /// Unpacking a packed control word yields the flags packed into it.
    pub proof fn lemma_round_trip(s: Control)
        ensures
            Control::of_word(s.spec_word()) == s,
    {
    }

    /// Packs the flags into the register word.
    pub fn pack(&self) -> (r: u32)
        ensures
            r == self.spec_word(),
    {
        let mut w: u32 = 0;
        if self.arm {
            w = w + 1;
        }
        if self.trig_override {
            w = w + 2;
        }
        if self.write_enable_override {
            w = w + 4;
        }
        if self.circular_capture {
            w = w + 8;
        }
        w
    }

    /// Unpacks a register word into its flags.
    pub fn unpack(w: u32) -> (r: Control)
        ensures
            r == Control::of_word(w),
    {
        Control {
            arm: w % 2 == 1,
            trig_override: (w / 2) % 2 == 1,
            write_enable_override: (w / 4) % 2 == 1,
            circular_capture: (w / 8) % 2 == 1,
        }
    }

    /// All flags clear.
    pub fn clear() -> (r: Control)
        ensures
            r == (Control {
                arm: false,
                trig_override: false,
                write_enable_override: false,
                circular_capture: false,
            }),
    {
        Control {
            arm: false,
            trig_override: false,
            write_enable_override: false,
            circular_capture: false,
        }
    }
}

/// The status register: the capture address in the low 31 bits, the done
/// flag at the top.
#[derive(Debug, Copy, Clone, PartialEq, Eq, Structural)]
pub struct Status {
    /// The address the capture reached (bits 0 to 30).
    pub addr: u32,
    /// Whether the capture finished (bit 31).
    pub done: bool,
}

impl Status {
    /// Whether the address fits its 31 bits.
    pub open spec fn wf(self) -> bool {
        self.addr < 0x8000_0000
    }

    /// The packed register word.
    pub open spec fn spec_word(self) -> u32 {
        (self.addr % 0x8000_0000 + 0x8000_0000 * bit(self.done)) as u32
    }

    /// The fields a register word carries.
    pub open spec fn of_word(w: u32) -> Status {
        Status { addr: (w % 0x8000_0000) as u32, done: w / 0x8000_0000 == 1 }
    }

    /// Unpacking a packed status word yields the fields packed into it,
    /// for every address that fits its 31 bits.
    pub proof fn lemma_round_trip(s: Status)
        requires
            s.wf(),
        ensures
            Status::of_word(s.spec_word()) == s,
    {
    }

    /// Unpacks a register word into its fields.
    pub fn unpack(w: u32) -> (r: Status)
        ensures
            r == Status::of_word(w),
            r.wf(),
    {
        Status { addr: w % 0x8000_0000, done: w / 0x8000_0000 == 1 }
    }
}

/// The suffix of the control register, `_ctrl`.
pub open spec fn ctrl_suffix() -> Seq<u8> {
    seq![0x5Fu8, 0x63, 0x74, 0x72, 0x6C]
}

/// The suffix of the status register, `_status`.
pub open spec fn status_suffix() -> Seq<u8> {
    seq![0x5Fu8, 0x73, 0x74, 0x61, 0x74, 0x75, 0x73]
}

/// The suffix of the capture memory, `_bram`.
pub open spec fn bram_suffix() -> Seq<u8> {
    seq![0x5Fu8, 0x62, 0x72, 0x61, 0x6D]
}

/// The suffix of the trigger offset register, `_trig_offset`.
pub open spec fn trig_offset_suffix() -> Seq<u8> {
    seq![0x5Fu8, 0x74, 0x72, 0x69, 0x67, 0x5F, 0x6F, 0x66, 0x66, 0x73, 0x65, 0x74]
}

/// Joins a block name with a sibling-register suffix.
pub fn name_with(name: &Vec<u8>, suffix: &Vec<u8>) -> (r: Vec<u8>)
    ensures
        r@ == name@ + suffix@,
{
    let mut out = clone_bytes(name);
    append_bytes(&mut out, suffix);
    out
}

fn ctrl_name(name: &Vec<u8>) -> (r: Vec<u8>)
    ensures
        r@ == name@ + ctrl_suffix(),
{
    let s = vec![0x5Fu8, 0x63, 0x74, 0x72, 0x6C];
    assert(s@ =~= ctrl_suffix());
    name_with(name, &s)
}

fn status_name(name: &Vec<u8>) -> (r: Vec<u8>)
    ensures
        r@ == name@ + status_suffix(),
{
    let s = vec![0x5Fu8, 0x73, 0x74, 0x61, 0x74, 0x75, 0x73];
    assert(s@ =~= status_suffix());
    name_with(name, &s)
}

fn bram_name(name: &Vec<u8>) -> (r: Vec<u8>)
    ensures
        r@ == name@ + bram_suffix(),
{
    let s = vec![0x5Fu8, 0x62, 0x72, 0x61, 0x6D];
    assert(s@ =~= bram_suffix());
    name_with(name, &s)
}

fn trig_offset_name(name: &Vec<u8>) -> (r: Vec<u8>)
    ensures
        r@ == name@ + trig_offset_suffix(),
{
    let s = vec![0x5Fu8, 0x74, 0x72, 0x69, 0x67, 0x5F, 0x6F, 0x66, 0x66, 0x73, 0x65, 0x74];
    assert(s@ =~= trig_offset_suffix());
    name_with(name, &s)
}

/// Whether a sample-count text spells a decimal exponent of at most 31:
/// the capture length must fit the machine's byte counts.
pub open spec fn nsamples_text_valid(s: Seq<u8>) -> bool {
    &&& s.len() > 0
    &&& forall|i: int| 0 <= i < s.len() ==> crate::encoding::is_dec_digit(#[trigger] s[i])
    &&& crate::encoding::dec_seq_val(s) <= 31
}

/// The `on` text of the offset flag.
pub open spec fn on_text() -> Seq<u8> {
    seq![0x6Fu8, 0x6E]
}

/// The `off` text of the offset flag.
pub open spec fn off_text() -> Seq<u8> {
    seq![0x6Fu8, 0x66, 0x66]
}

/// A snapshot block: its name, whether it was built with trigger-offset
/// support, and the capture length as a power of two.
#[derive(Debug)]
pub struct Snapshot {
    /// The name of the block.
    pub name: Vec<u8>,
    /// Whether `<name>_trig_offset` exists.
    pub has_offset: bool,
    /// The capture is two to this many bytes long.
    pub samples_n: u32,
}

impl Snapshot {
    /// Builds a snapshot handle from its parts.
    pub fn new(name: Vec<u8>, has_offset: bool, samples_n: u32) -> (r: Snapshot)
        requires
            samples_n <= 31,
        ensures
            r.name@ == name@,
            r.has_offset == has_offset,
            r.samples_n == samples_n,
    {
        Snapshot { name, has_offset, samples_n }
    }

    /// Builds a snapshot from the design's metadata: the sample count
    /// exponent from `nsamples`, the offset flag from `offset`.
    pub fn from_fpg(name: Vec<u8>, nsamples: &Vec<u8>, offset: &Vec<u8>) -> (r: Result<
        Snapshot,
        Error,
    >)
        ensures
            r is Ok <==> (nsamples_text_valid(nsamples@) && (offset@ == on_text() || offset@
                == off_text())),
            r matches Ok(s) ==> {
                &&& s.name@ == name@
                &&& s.samples_n == crate::encoding::dec_seq_val(nsamples@)
                &&& s.samples_n <= 31
                &&& (s.has_offset <==> offset@ == on_text())
            },
            r matches Err(e) ==> ((e is BadSampleN) <==> !nsamples_text_valid(nsamples@)),
            r matches Err(e) ==> ((e is BadOffset) <==> (nsamples_text_valid(nsamples@) && !(
            offset@ == on_text() || offset@ == off_text()))),
    {
        let n = match parse_decimal(nsamples) {
            Some(v) => v,
            None => {
                return Err(Error::BadSampleN);
            },
        };
        if n > 31 {
            return Err(Error::BadSampleN);
        }
        let on = vec![0x6Fu8, 0x6E];
        assert(on@ =~= on_text());
        let off = vec![0x6Fu8, 0x66, 0x66];
        assert(off@ =~= off_text());
        let has_offset = if crate::encoding::bytes_eq(offset, &on) {
            true
        } else if crate::encoding::bytes_eq(offset, &off) {
            false
        } else {
            return Err(Error::BadOffset);
        };
        Ok(Snapshot { name, has_offset, samples_n: n as u32 })
    }

    /// Arms the block: writes a cleared control word, then one with only
    /// the arm flag set, so the next trigger starts a capture.
    pub fn arm<T: Transport>(&self, t: &mut T) -> (r: Result<(), Error>)
        ensures
            final(t).mem().dom() == old(t).mem().dom(),
            r matches Ok(()) ==> final(t).writes() == old(t).writes().push(
                WriteEvent {
                    device: self.name@ + ctrl_suffix(),
                    offset: 0,
                    data: be32_bytes(0),
                },
            ).push(
                WriteEvent {
                    device: self.name@ + ctrl_suffix(),
                    offset: 0,
                    data: be32_bytes(1),
                },
            ),
    {
        let ctrl = ctrl_name(&self.name);
        let cleared = Control::clear();
        let w0 = cleared.pack();
        match write_value(t, &ctrl, 0, &w0) {
            Ok(()) => {},
            Err(e) => {
                return Err(Error::Transport(e));
            },
        }
        let mut armed = Control::clear();
        armed.arm = true;
        let w1 = armed.pack();
        match write_value(t, &ctrl, 0, &w1) {
            Ok(()) => {},
            Err(e) => {
                return Err(Error::Transport(e));
            },
        }
        Ok(())
    }

    /// Forces a trigger: reads the control word, sets the trigger-override
    /// flag, and writes it back with every other flag preserved.
    pub fn trigger<T: Transport>(&self, t: &mut T) -> (r: Result<(), Error>)
        ensures
            final(t).mem().dom() == old(t).mem().dom(),
            r matches Ok(()) ==> {
                let window = old(t).mem()[self.name@ + ctrl_suffix()];
                let read = Control::of_word(be32_val(window[0], window[1], window[2], window[3]));
                let written = Control { trig_override: true, ..read };
                &&& old(t).mem().dom().contains(self.name@ + ctrl_suffix())
                &&& window.len() >= 4
                &&& final(t).writes() == old(t).writes().push(
                    WriteEvent {
                        device: self.name@ + ctrl_suffix(),
                        offset: 0,
                        data: be32_bytes(written.spec_word()),
                    },
                )
            },
    {
        let ctrl = ctrl_name(&self.name);
        let raw: u32 = match read_value(t, &ctrl, 0) {
            Ok(v) => v,
            Err(e) => {
                return Err(Error::Transport(e));
            },
        };
        proof {
            let w = old(t).mem()[self.name@ + ctrl_suffix()];
            assert(w.subrange(0, 4)[0] == w[0] && w.subrange(0, 4)[1] == w[1] && w.subrange(
                0,
                4,
            )[2] == w[2] && w.subrange(0, 4)[3] == w[3]);
        }
        let mut c = Control::unpack(raw);
        c.trig_override = true;
        let w1 = c.pack();
        match write_value(t, &ctrl, 0, &w1) {
            Ok(()) => Ok(()),
            Err(e) => Err(Error::Transport(e)),
        }
    }

    /// Reads the captured bytes: looks at the status register (the capture
    /// machinery requires the access; the value carries no decision here),
    /// then reads two to `samples_n` bytes out of the capture memory.
    pub fn read<T: Transport>(&self, t: &mut T) -> (r: Result<Vec<u8>, Error>)
        requires
            self.samples_n <= 31,
        ensures
            final(t).mem() == old(t).mem(),
            final(t).writes() == old(t).writes(),
            r matches Ok(v) ==> {
                &&& old(t).mem().dom().contains(self.name@ + bram_suffix())
                &&& v@.len() == vstd::arithmetic::power2::pow2(self.samples_n as nat)
                &&& v@ == old(t).mem()[self.name@ + bram_suffix()].subrange(
                    0,
                    vstd::arithmetic::power2::pow2(self.samples_n as nat) as int,
                )
            },
    {
        let status = status_name(&self.name);
        let _status_word: u32 = match read_value(t, &status, 0) {
            Ok(v) => v,
            Err(e) => {
                return Err(Error::Transport(e));
            },
        };
        let mut count: u64 = 1;
        let mut i: u32 = 0;
        proof {
            vstd::arithmetic::power2::lemma2_to64();
        }
        while i < self.samples_n
            invariant
                0 <= i <= self.samples_n <= 31,
                count == vstd::arithmetic::power2::pow2(i as nat),
                count <= 0x8000_0000,
            decreases self.samples_n - i,
        {
            proof {
                vstd::arithmetic::power2::lemma_pow2_unfold((i + 1) as nat);
                vstd::arithmetic::power2::lemma2_to64();
                if i + 1 < 32 {
                    vstd::arithmetic::power2::lemma_pow2_strictly_increases((i + 1) as nat, 32);
                }
            }
            count = count * 2;
            i += 1;
        }
        proof {
            vstd::arithmetic::power2::lemma2_to64();
            if (self.samples_n as nat) < 32 {
                vstd::arithmetic::power2::lemma_pow2_strictly_increases(self.samples_n as nat, 32);
            }
        }
        let bram = bram_name(&self.name);
        match t.read_n_bytes(&bram, 0, count as usize) {
            Ok(v) => Ok(v),
            Err(e) => Err(Error::Transport(e)),
        }
    }

    /// Sets the capture trigger offset; a block built without offset
    /// support fails `NoOffsets`, exactly.
    pub fn set_offset<T: Transport>(&self, t: &mut T, offset: u32) -> (r: Result<(), Error>)
        ensures
            final(t).mem().dom() == old(t).mem().dom(),
            r matches Err(e) ==> (e matches Error::NoOffsets <==> !self.has_offset),
            !self.has_offset ==> r is Err && final(t).mem() == old(t).mem(),
            r matches Ok(()) ==> {
                &&& self.has_offset
                &&& old(t).mem().dom().contains(self.name@ + trig_offset_suffix())
                &&& final(t).mem() == old(t).mem().insert(
                    self.name@ + trig_offset_suffix(),
                    splice(
                        old(t).mem()[self.name@ + trig_offset_suffix()],
                        0,
                        be32_bytes(offset),
                    ),
                )
            },
    {
        if !self.has_offset {
            return Err(Error::NoOffsets);
        }
        let reg = trig_offset_name(&self.name);
        match write_value(t, &reg, 0, &offset) {
            Ok(()) => Ok(()),
            Err(e) => Err(Error::Transport(e)),
        }
    }
}

} // verus!
