//! Software registers: one 32-bit word shared between the gateware and the
//! host. The design declares a width of up to 32 bits and a direction; the
//! host always moves whole words, rejecting writes that overflow the
//! declared width. Fixed-point values travel as their raw big-endian bit
//! patterns; the fractional bit count only names their scaling.

use vstd::prelude::*;

use crate::encoding::{be32_bytes, be32_val, parse_decimal};
use crate::transport::{read_value, splice, write_value, Transport};
use vstd::arithmetic::power2::pow2;

verus! {

/// Errors of the software-register operations.
#[derive(Debug)]
pub enum Error {
    /// The transport failed.
    Transport(crate::transport::Error),
    /// A write to a register the design only lets the host read.
    ReadOnly,
    /// The direction text in the design's metadata names no direction.
    BadDirection,
    /// The width text in the design's metadata is not a width.
    BadBitwidth,
    /// The value does not fit the register's declared width.
    Overflow,
}

/// The IO direction of a register.
#[derive(Debug, Copy, Clone, PartialEq, Eq, Structural)]
pub enum Direction {
    /// The host can only read registers of this kind.
    ToProcessor,
    /// The host can read and write registers of this kind.
    FromProcessor,
}

/// The direction text `To\_Processor`.
pub open spec fn to_processor_text() -> Seq<u8> {
    seq![
        0x54u8, 0x6F, 0x5C, 0x5F, 0x50, 0x72, 0x6F, 0x63, 0x65, 0x73, 0x73, 0x6F,
        0x72,
    ]
}

/// The direction text `From\_Processor`.
pub open spec fn from_processor_text() -> Seq<u8> {
    seq![
        0x46u8, 0x72, 0x6F, 0x6D, 0x5C, 0x5F, 0x50, 0x72, 0x6F, 0x63, 0x65, 0x73, 0x73, 0x6F,
        0x72,
    ]
}

/// Reads a direction out of the design's metadata text.
pub fn parse_direction(io_dir: &Vec<u8>) -> (r: Result<Direction, Error>)
    ensures
        r matches Ok(d) ==> (d == Direction::ToProcessor <==> io_dir@ == to_processor_text()) && (d
            == Direction::FromProcessor <==> io_dir@ == from_processor_text()),
        r is Ok <==> (io_dir@ == to_processor_text() || io_dir@ == from_processor_text()),
        r matches Err(e) ==> e is BadDirection,
{
    let to_p = vec![
        0x54u8, 0x6F, 0x5C, 0x5F, 0x50, 0x72, 0x6F, 0x63, 0x65, 0x73, 0x73, 0x6F,
        0x72,
    ];
    assert(to_p@ =~= to_processor_text());
    let from_p = vec![
        0x46u8, 0x72, 0x6F, 0x6D, 0x5C, 0x5F, 0x50, 0x72, 0x6F, 0x63, 0x65, 0x73, 0x73, 0x6F,
        0x72,
    ];
    assert(from_p@ =~= from_processor_text());
    if crate::encoding::bytes_eq(io_dir, &to_p) {
        Ok(Direction::ToProcessor)
    } else if crate::encoding::bytes_eq(io_dir, &from_p) {
        Ok(Direction::FromProcessor)
    } else {
        Err(Error::BadDirection)
    }
}

/// Whether the texts in a register's metadata name a direction.
pub open spec fn direction_text_valid(s: Seq<u8>) -> bool {
    s == to_processor_text() || s == from_processor_text()
}

/// Whether a width text spells a decimal width of 1 to 32 bits.
pub open spec fn width_text_valid(s: Seq<u8>) -> bool {
    &&& s.len() > 0
    &&& forall|i: int| 0 <= i < s.len() ==> crate::encoding::is_dec_digit(#[trigger] s[i])
    &&& 1 <= crate::encoding::dec_seq_val(s) <= 32
}

/// The magnitude of a register word read as an integer: two's-complement
/// for a signed register, plain for an unsigned one.
pub open spec fn word_magnitude(signed: bool, raw: u32) -> int {
    if signed && raw >= 0x8000_0000 {
        0x1_0000_0000 - raw
    } else {
        raw as int
    }
}

/// A fixed-point software register: its name, direction, declared width,
/// signedness, and fractional bit count. Values are raw 32-bit patterns.
#[derive(Debug)]
pub struct FixedSoftwareRegister {
    /// The name of the register.
    pub name: Vec<u8>,
    /// IO direction of this register.
    pub direction: Direction,
    /// Number of bits the design carries, 1 to 32.
    pub width: u32,
    /// Whether the value is two's-complement signed.
    pub signed: bool,
    /// How many of the bits are fractional.
    pub frac_bits: u32,
}

/// Computes a small power of two.
fn pow2_exec(e: u32) -> (r: u64)
    requires
        e <= 32,
    ensures
        r == pow2(e as nat),
{
    let mut r: u64 = 1;
    let mut i: u32 = 0;
    proof {
        vstd::arithmetic::power2::lemma2_to64();
    }
    while i < e
        invariant
            0 <= i <= e <= 32,
            r == pow2(i as nat),
            r <= 0x1_0000_0000,
        decreases e - i,
    {
        proof {
            vstd::arithmetic::power2::lemma_pow2_unfold((i + 1) as nat);
            vstd::arithmetic::power2::lemma2_to64();
            if i + 1 < 32 {
                vstd::arithmetic::power2::lemma_pow2_strictly_increases((i + 1) as nat, 32);
            }
        }
        r = r * 2;
        i += 1;
    }
    r
}

impl FixedSoftwareRegister {
    /// Builds a register handle from its parts.
    pub fn new(name: Vec<u8>, direction: Direction, width: u32, signed: bool, frac_bits: u32) -> (r:
        FixedSoftwareRegister)
        requires
            1 <= width <= 32,
        ensures
            r.name@ == name@,
            r.direction == direction,
            r.width == width,
            r.signed == signed,
            r.frac_bits == frac_bits,
    {
        FixedSoftwareRegister { name, direction, width, signed, frac_bits }
    }

    /// Builds a register from the design's metadata texts: the direction
    /// from `io_dir`, the width from `bitwidths`; sign and binary point
    /// come from the kind the binder read.
    pub fn from_fpg(
        name: Vec<u8>,
        io_dir: &Vec<u8>,
        bitwidths: &Vec<u8>,
        signed: bool,
        frac_bits: u32,
    ) -> (r: Result<FixedSoftwareRegister, Error>)
        ensures
            r is Ok <==> (direction_text_valid(io_dir@) && width_text_valid(bitwidths@)),
            r matches Ok(reg) ==> {
                &&& reg.name@ == name@
                &&& (io_dir@ == to_processor_text() ==> reg.direction == Direction::ToProcessor)
                &&& (io_dir@ == from_processor_text() ==> reg.direction
                    == Direction::FromProcessor)
                &&& 1 <= reg.width <= 32
                &&& reg.width == crate::encoding::dec_seq_val(bitwidths@)
                &&& reg.signed == signed
                &&& reg.frac_bits == frac_bits
            },
            r matches Err(e) ==> ((e is BadDirection) <==> !direction_text_valid(io_dir@)),
            r matches Err(e) ==> ((e is BadBitwidth) <==> (direction_text_valid(io_dir@)
                && !width_text_valid(bitwidths@))),
    {
        let direction = match parse_direction(io_dir) {
            Ok(d) => d,
            Err(e) => {
                return Err(e);
            },
        };
        let width = match parse_decimal(bitwidths) {
            Some(v) => v,
            None => {
                return Err(Error::BadBitwidth);
            },
        };
        if width < 1 || width > 32 {
            return Err(Error::BadBitwidth);
        }
        Ok(FixedSoftwareRegister { name, direction, width: width as u32, signed, frac_bits })
    }

    /// Reads the register's raw 32-bit pattern.
    pub fn read<T: Transport>(&self, t: &mut T) -> (r: Result<u32, Error>)
        ensures
            final(t).mem() == old(t).mem(),
            final(t).writes() == old(t).writes(),
            r matches Ok(v) ==> {
                &&& old(t).mem().dom().contains(self.name@)
                &&& old(t).mem()[self.name@].len() >= 4
                &&& v == be32_val(
                    old(t).mem()[self.name@][0],
                    old(t).mem()[self.name@][1],
                    old(t).mem()[self.name@][2],
                    old(t).mem()[self.name@][3],
                )
            },
    {
        let raw: u32 = match read_value(t, &self.name, 0) {
            Ok(v) => v,
            Err(e) => {
                return Err(Error::Transport(e));
            },
        };
        proof {
            let w = old(t).mem()[self.name@];
            assert(w.subrange(0, 4)[0] == w[0] && w.subrange(0, 4)[1] == w[1] && w.subrange(
                0,
                4,
            )[2] == w[2] && w.subrange(0, 4)[3] == w[3]);
        }
        Ok(raw)
    }

    /// Writes a raw 32-bit pattern to the register.
    ///
    /// A register the host may not write fails `ReadOnly`; a value whose
    /// integer magnitude exceeds two to the declared width fails
    /// `Overflow`; exactly otherwise the word goes out big-endian.
    pub fn write<T: Transport>(&self, t: &mut T, raw: u32) -> (r: Result<(), Error>)
        requires
            self.width <= 32,
        ensures
            final(t).mem().dom() == old(t).mem().dom(),
            r matches Err(e) ==> (e matches Error::ReadOnly <==> self.direction
                == Direction::ToProcessor),
            r matches Err(e) ==> (e matches Error::Overflow <==> (self.direction
                == Direction::FromProcessor && word_magnitude(self.signed, raw) > pow2(
                self.width as nat,
            ))),
            (self.direction == Direction::ToProcessor || word_magnitude(self.signed, raw) > pow2(
                self.width as nat,
            )) ==> r is Err && final(t).mem() == old(t).mem(),
            r matches Ok(()) ==> {
                &&& old(t).mem().dom().contains(self.name@)
                &&& old(t).mem()[self.name@].len() >= 4
                &&& final(t).mem() == old(t).mem().insert(
                    self.name@,
                    splice(old(t).mem()[self.name@], 0, be32_bytes(raw)),
                )
            },
    {
        if matches!(self.direction, Direction::ToProcessor) {
            return Err(Error::ReadOnly);
        }
        let threshold = pow2_exec(self.width);
        let magnitude: u64 = if self.signed && raw >= 0x8000_0000 {
            0x1_0000_0000u64 - raw as u64
        } else {
            raw as u64
        };
        if magnitude > threshold {
            return Err(Error::Overflow);
        }
        match write_value(t, &self.name, 0, &raw) {
            Ok(()) => Ok(()),
            Err(e) => Err(Error::Transport(e)),
        }
    }
}

/// What a fixed register's read returns right after its write went through:
/// the very pattern written — the raw bits already carry the fixed-point
/// quantization, so equality is exact.
pub proof fn lemma_swreg_write_read(mem: Map<Seq<u8>, Seq<u8>>, name: Seq<u8>, raw: u32)
    requires
        mem.dom().contains(name),
        mem[name].len() >= 4,
    ensures
        ({
            let written = splice(mem[name], 0, be32_bytes(raw));
            be32_val(written[0], written[1], written[2], written[3]) == raw
        }),
{
    crate::transport::lemma_splice(mem[name], 0, be32_bytes(raw));
    let written = splice(mem[name], 0, be32_bytes(raw));
    assert(written[0] == be32_bytes(raw)[0] && written[1] == be32_bytes(raw)[1] && written[2]
        == be32_bytes(raw)[2] && written[3] == be32_bytes(raw)[3]);
    crate::encoding::lemma_be32_round_trip(raw);
}

/// A boolean software register: the word 1 carries true, 0 false.
#[derive(Debug)]
pub struct BooleanSoftwareRegister {
    /// The name of the register.
    pub name: Vec<u8>,
    /// IO direction of this register.
    pub direction: Direction,
}

impl BooleanSoftwareRegister {
    /// Builds a register handle from its parts.
    pub fn new(name: Vec<u8>, direction: Direction) -> (r: BooleanSoftwareRegister)
        ensures
            r.name@ == name@,
            r.direction == direction,
    {
        BooleanSoftwareRegister { name, direction }
    }

    /// Builds a register from the design's metadata direction text.
    pub fn from_fpg(name: Vec<u8>, io_dir: &Vec<u8>) -> (r: Result<BooleanSoftwareRegister, Error>)
        ensures
            r matches Ok(reg) ==> {
                &&& reg.name@ == name@
                &&& (io_dir@ == to_processor_text() ==> reg.direction == Direction::ToProcessor)
                &&& (io_dir@ == from_processor_text() ==> reg.direction
                    == Direction::FromProcessor)
            },
            r is Err <==> !(io_dir@ == to_processor_text() || io_dir@ == from_processor_text()),
            r matches Err(e) ==> e is BadDirection,
    {
        let direction = match parse_direction(io_dir) {
            Ok(d) => d,
            Err(e) => {
                return Err(e);
            },
        };
        Ok(BooleanSoftwareRegister { name, direction })
    }

    /// Reads the register as a boolean: exactly the word 1 is true.
    pub fn read<T: Transport>(&self, t: &mut T) -> (r: Result<bool, Error>)
        ensures
            final(t).mem() == old(t).mem(),
            final(t).writes() == old(t).writes(),
            r matches Ok(b) ==> {
                &&& old(t).mem().dom().contains(self.name@)
                &&& old(t).mem()[self.name@].len() >= 4
                &&& b == (be32_val(
                    old(t).mem()[self.name@][0],
                    old(t).mem()[self.name@][1],
                    old(t).mem()[self.name@][2],
                    old(t).mem()[self.name@][3],
                ) == 1)
            },
    {
        let raw: u32 = match read_value(t, &self.name, 0) {
            Ok(v) => v,
            Err(e) => {
                return Err(Error::Transport(e));
            },
        };
        proof {
            let w = old(t).mem()[self.name@];
            assert(w.subrange(0, 4)[0] == w[0] && w.subrange(0, 4)[1] == w[1] && w.subrange(
                0,
                4,
            )[2] == w[2] && w.subrange(0, 4)[3] == w[3]);
        }
        Ok(raw == 1)
    }

    /// Writes a boolean to the register, as the word 1 or 0.
    pub fn write<T: Transport>(&self, t: &mut T, val: bool) -> (r: Result<(), Error>)
        ensures
            final(t).mem().dom() == old(t).mem().dom(),
            r matches Err(e) ==> (e matches Error::ReadOnly <==> self.direction
                == Direction::ToProcessor),
            self.direction == Direction::ToProcessor ==> r is Err && final(t).mem() == old(
                t,
            ).mem(),
            r matches Ok(()) ==> {
                &&& old(t).mem().dom().contains(self.name@)
                &&& old(t).mem()[self.name@].len() >= 4
                &&& final(t).mem() == old(t).mem().insert(
                    self.name@,
                    splice(
                        old(t).mem()[self.name@],
                        0,
                        be32_bytes(
                            if val {
                                1u32
                            } else {
                                0u32
                            },
                        ),
                    ),
                )
            },
    {
        if matches!(self.direction, Direction::ToProcessor) {
            return Err(Error::ReadOnly);
        }
        let word: u32 = if val {
            1
        } else {
            0
        };
        match write_value(t, &self.name, 0, &word) {
            Ok(()) => Ok(()),
            Err(e) => Err(Error::Transport(e)),
        }
    }
}

/// What a boolean register's read returns right after its write went
/// through: the boolean written.
pub proof fn lemma_boolreg_write_read(mem: Map<Seq<u8>, Seq<u8>>, name: Seq<u8>, val: bool)
    requires
        mem.dom().contains(name),
        mem[name].len() >= 4,
    ensures
        ({
            let word: u32 = if val {
                1u32
            } else {
                0u32
            };
            let written = splice(mem[name], 0, be32_bytes(word));
            (be32_val(written[0], written[1], written[2], written[3]) == 1) == val
        }),
{
    let word: u32 = if val {
        1u32
    } else {
        0u32
    };
    lemma_swreg_write_read(mem, name, word);
}

} // verus!
