//! Block RAM: a window of `size` words, each `word_bytes` wide, behind one
//! named register. Word accesses are bounds-checked; whole-window transfers
//! must carry exactly the window's bytes.

use vstd::prelude::*;

use crate::encoding::parse_decimal;
use crate::transport::{splice, Transport};

verus! {

/// Whether an address-width text spells a decimal width a block RAM can
/// have: at most 32 bits (wider widths do not address real block RAM, and
/// shifting one past the machine word is no size at all).
pub open spec fn addr_width_text_valid(s: Seq<u8>) -> bool {
    &&& s.len() > 0
    &&& forall|i: int| 0 <= i < s.len() ==> crate::encoding::is_dec_digit(#[trigger] s[i])
    &&& crate::encoding::dec_seq_val(s) <= 32
}

/// Errors of the BRAM operations.
#[derive(Debug)]
pub enum Error {
    /// The transport failed.
    Transport(crate::transport::Error),
    /// A word address at or past the BRAM's size.
    OutOfBounds,
    /// Data whose size does not fit the target window.
    BadSize,
    /// The address-width text in the design's metadata is not a width.
    BadAddrWidth,
}

/// A BRAM handle: its register name, its size in words, and its word width
/// in bytes.
#[derive(Debug)]
pub struct Bram {
    /// The name of the register.
    pub name: Vec<u8>,
    /// Size of the BRAM in words.
    pub size: usize,
    /// Width of one word, in bytes.
    pub word_bytes: usize,
}

impl Bram {
    /// Builds a BRAM handle from its parts.
    pub fn new(name: Vec<u8>, size: usize, word_bytes: usize) -> (r: Bram)
        ensures
            r.name@ == name@,
            r.size == size,
            r.word_bytes == word_bytes,
    {
        Bram { name, size, word_bytes }
    }

    /// Builds a BRAM from the design's metadata: the size is two to the
    /// declared address width. Exactly the widths up to 32 bits — those a
    /// real block RAM can have, and whose sizes this machine can hold —
    /// are accepted.
    pub fn from_fpg(name: Vec<u8>, addr_width: &Vec<u8>, word_bytes: usize) -> (r: Result<
        Bram,
        Error,
    >)
        ensures
            r is Ok <==> (addr_width_text_valid(addr_width@) && vstd::arithmetic::power2::pow2(
                crate::encoding::dec_seq_val(addr_width@) as nat,
            ) <= usize::MAX),
            r matches Ok(b) ==> {
                &&& b.name@ == name@
                &&& crate::encoding::dec_seq_val(addr_width@) <= 32
                &&& b.size == vstd::arithmetic::power2::pow2(
                    crate::encoding::dec_seq_val(addr_width@) as nat,
                )
                &&& b.word_bytes == word_bytes
            },
            r matches Err(e) ==> e is BadAddrWidth,
    {
        let width = match parse_decimal(addr_width) {
            Some(v) => v,
            None => {
                return Err(Error::BadAddrWidth);
            },
        };
        if width > 32 {
            return Err(Error::BadAddrWidth);
        }
        let mut size: u64 = 1;
        let mut i: u64 = 0;
        proof {
            vstd::arithmetic::power2::lemma2_to64();
        }
        while i < width
            invariant
                0 <= i <= width <= 32,
                size == vstd::arithmetic::power2::pow2(i as nat),
                size <= 0x1_0000_0000,
            decreases width - i,
        {
            proof {
                vstd::arithmetic::power2::lemma_pow2_unfold((i + 1) as nat);
                vstd::arithmetic::power2::lemma2_to64();
                if i + 1 < 32 {
                    vstd::arithmetic::power2::lemma_pow2_strictly_increases((i + 1) as nat, 32);
                }
            }
            size = size * 2;
            i += 1;
        }
        if size > usize::MAX as u64 {
            return Err(Error::BadAddrWidth);
        }
        Ok(Bram { name, size: size as usize, word_bytes })
    }

    /// Reads the word at `addr`. An address at or past the size — the size
    /// itself included — fails `OutOfBounds`, exactly.
    pub fn read_addr<T: Transport>(&self, t: &mut T, addr: usize) -> (r: Result<Vec<u8>, Error>)
        ensures
            final(t).mem() == old(t).mem(),
            final(t).writes() == old(t).writes(),
            r matches Err(e) ==> (e matches Error::OutOfBounds <==> addr >= self.size),
            addr >= self.size ==> r is Err,
            r matches Ok(v) ==> {
                &&& addr < self.size
                &&& old(t).mem().dom().contains(self.name@)
                &&& addr + self.word_bytes <= old(t).mem()[self.name@].len()
                &&& v@ == old(t).mem()[self.name@].subrange(
                    addr as int,
                    addr + self.word_bytes,
                )
            },
    {
        if addr >= self.size {
            return Err(Error::OutOfBounds);
        }
        match t.read_n_bytes(&self.name, addr, self.word_bytes) {
            Ok(v) => Ok(v),
            Err(e) => Err(Error::Transport(e)),
        }
    }

    /// Writes the word at `addr`, bounds-checked like the read, and only a
    /// word of exactly the BRAM's word width.
    pub fn write_addr<T: Transport>(&self, t: &mut T, addr: usize, val: &Vec<u8>) -> (r: Result<
        (),
        Error,
    >)
        ensures
            final(t).mem().dom() == old(t).mem().dom(),
            r matches Err(e) ==> (e matches Error::OutOfBounds <==> addr >= self.size),
            r matches Err(e) ==> (e matches Error::BadSize <==> (addr < self.size && val@.len()
                != self.word_bytes)),
            (addr >= self.size || val@.len() != self.word_bytes) ==> r is Err && final(t).mem()
                == old(t).mem(),
            r matches Ok(()) ==> {
                &&& addr < self.size
                &&& val@.len() == self.word_bytes
                &&& old(t).mem().dom().contains(self.name@)
                &&& addr + self.word_bytes <= old(t).mem()[self.name@].len()
                &&& final(t).mem() == old(t).mem().insert(
                    self.name@,
                    splice(old(t).mem()[self.name@], addr as int, val@),
                )
            },
    {
        if addr >= self.size {
            return Err(Error::OutOfBounds);
        }
        if val.len() != self.word_bytes {
            return Err(Error::BadSize);
        }
        match t.write_bytes(&self.name, addr, val) {
            Ok(()) => Ok(()),
            Err(e) => Err(Error::Transport(e)),
        }
    }

    /// Reads the whole BRAM: `size * word_bytes` bytes from offset zero.
    pub fn read<T: Transport>(&self, t: &mut T) -> (r: Result<Vec<u8>, Error>)
        requires
            self.size * self.word_bytes <= usize::MAX,
        ensures
            final(t).mem() == old(t).mem(),
            final(t).writes() == old(t).writes(),
            r matches Ok(v) ==> {
                &&& old(t).mem().dom().contains(self.name@)
                &&& self.size * self.word_bytes <= old(t).mem()[self.name@].len()
                &&& v@ == old(t).mem()[self.name@].subrange(
                    0,
                    (self.size * self.word_bytes) as int,
                )
            },
    {
        let total = self.size * self.word_bytes;
        match t.read_n_bytes(&self.name, 0, total) {
            Ok(v) => Ok(v),
            Err(e) => Err(Error::Transport(e)),
        }
    }

    /// Writes the whole BRAM. Data of any other size than the window's
    /// fails `BadSize`, exactly.
    pub fn write<T: Transport>(&self, t: &mut T, data: &Vec<u8>) -> (r: Result<(), Error>)
        requires
            self.size * self.word_bytes <= usize::MAX,
        ensures
            final(t).mem().dom() == old(t).mem().dom(),
            r matches Err(e) ==> (e matches Error::BadSize <==> data@.len() != self.size
                * self.word_bytes),
            data@.len() != self.size * self.word_bytes ==> r is Err && final(t).mem() == old(
                t,
            ).mem(),
            r matches Ok(()) ==> {
                &&& data@.len() == self.size * self.word_bytes
                &&& old(t).mem().dom().contains(self.name@)
                &&& data@.len() <= old(t).mem()[self.name@].len()
                &&& final(t).mem() == old(t).mem().insert(
                    self.name@,
                    splice(old(t).mem()[self.name@], 0, data@),
                )
            },
    {
        let total = self.size * self.word_bytes;
        if data.len() != total {
            return Err(Error::BadSize);
        }
        match t.write_bytes(&self.name, 0, data) {
            Ok(()) => Ok(()),
            Err(e) => Err(Error::Transport(e)),
        }
    }
}

} // verus!
