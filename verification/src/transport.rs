//! The transport abstraction every peripheral drives: named device windows
//! of bytes that can be read and written, a device directory, and a
//! liveness probe. A transport's behaviour is specified against a model
//! mapping each device name to its bytes, plus the sequence of writes it
//! has performed — the trace the bit-banged peripherals are specified over.

use vstd::prelude::*;

use crate::encoding::{be16_bytes, be16_val, be32_bytes, be32_val, be64_bytes, be64_val, u16_from_be, u16_to_be, u32_from_be, u32_to_be, u64_from_be, u64_to_be};

verus! {

/// A register window on the board: its byte address and byte length.
#[derive(Debug, Copy, Clone, PartialEq, Eq, Hash, Structural)]
pub struct Register {
    /// The offset in FPGA memory of this register.
    pub addr: usize,
    /// The number of bytes stored at this location.
    pub length: usize,
}

/// The device directory: register names with their windows.
pub type RegisterMap = Vec<(Vec<u8>, Register)>;

/// Errors surfaced by transports and the peripherals above them.
#[derive(Debug)]
pub enum Error {
    /// The requested name is not in the transport's register map.
    DeviceNotFound(Vec<u8>),
    /// The requested window falls outside the device's bytes.
    OutOfBounds,
    /// A typed decode or encode of a byte window failed.
    Packing,
    /// The TFTP layer failed.
    Tftp(crate::tftp::Error),
    /// The server returned fewer bytes than the operation needs.
    Incomplete,
    /// The device directory blob did not decode.
    Csl(crate::csl::Error),
    /// Text read off the board is not valid UTF-8.
    Utf8,
    /// The flash scan found no metadata terminator within its budget.
    MissingMetadata,
    /// The operation asks for what this transport cannot do, such as a
    /// write not aligned to whole words.
    NotSupported,
}

/// A device's bytes with `data` written at `offset`.
pub open spec fn splice(base: Seq<u8>, offset: int, data: Seq<u8>) -> Seq<u8> {
    base.take(offset) + data + base.skip(offset + data.len())
}

/// Splicing within bounds keeps the length and changes exactly the window.
pub proof fn lemma_splice(base: Seq<u8>, offset: int, data: Seq<u8>)
    requires
        0 <= offset,
        offset + data.len() <= base.len(),
    ensures
        splice(base, offset, data).len() == base.len(),
        forall|j: int|
            0 <= j < base.len() && !(offset <= j < offset + data.len()) ==> #[trigger] splice(
                base,
                offset,
                data,
            )[j] == base[j],
        forall|j: int|
            0 <= j < data.len() ==> #[trigger] splice(base, offset, data)[offset + j] == data[j],
{
}

/// A written window reads back as what was written: the write/read round
/// trip every peripheral's paired operations rest on.
pub proof fn lemma_write_read_window(base: Seq<u8>, offset: int, data: Seq<u8>)
    requires
        0 <= offset,
        offset + data.len() <= base.len(),
    ensures
        splice(base, offset, data).subrange(offset, offset + data.len()) == data,
{
    lemma_splice(base, offset, data);
    assert(splice(base, offset, data).subrange(offset, offset + data.len()) =~= data);
}

/// Whether the new trace extends the old one with a front part of the
/// intended write sequence: how far a multi-write operation got before it
/// stopped.
pub open spec fn trace_extends_prefix(
    w_old: Seq<WriteEvent>,
    w_new: Seq<WriteEvent>,
    intended: Seq<WriteEvent>,
) -> bool {
    exists|n: int| 0 <= n <= intended.len() && w_new == w_old + intended.take(n)
}

/// A sequence equal to a concatenation is cut back to its own front part.
pub proof fn lemma_concat_prefix(x: Seq<WriteEvent>, rest: Seq<WriteEvent>, full: Seq<WriteEvent>)
    requires
        x + rest == full,
    ensures
        x == full.take(x.len() as int),
{
    assert(x =~= full.take(x.len() as int)) by {
        assert(forall|j: int| 0 <= j < x.len() ==> full[j] == (x + rest)[j] && (#[trigger] x[j])
            == (x + rest)[j]);
    };
}

/// Taking into the second part of a concatenation takes the first whole.
pub proof fn lemma_take_concat(a: Seq<WriteEvent>, b: Seq<WriteEvent>, n: int)
    requires
        0 <= n <= b.len(),
    ensures
        (a + b).take(a.len() + n) == a + b.take(n),
{
    assert((a + b).take(a.len() + n) =~= a + b.take(n));
}

/// Taking no further than the first part of a concatenation ignores the
/// second.
pub proof fn lemma_take_short(a: Seq<WriteEvent>, b: Seq<WriteEvent>, n: int)
    requires
        0 <= n <= a.len(),
    ensures
        (a + b).take(n) == a.take(n),
{
    assert((a + b).take(n) =~= a.take(n));
}

/// A trace that equals a base plus a whole sequence, minus a tail of it,
/// is the base plus that sequence's front part.
pub proof fn lemma_concat_prefix_of(
    w: Seq<WriteEvent>,
    rem: Seq<WriteEvent>,
    base: Seq<WriteEvent>,
    full: Seq<WriteEvent>,
)
    requires
        w + rem == base + full,
        rem.len() <= full.len(),
    ensures
        w == base + full.take(w.len() - base.len()),
        0 <= w.len() - base.len() <= full.len(),
{
    assert((w + rem).len() == w.len() + rem.len());
    assert((base + full).len() == base.len() + full.len());
    assert((w + rem).len() == (base + full).len());
    assert(w =~= base + full.take(w.len() - base.len())) by {
        assert(forall|j: int| 0 <= j < w.len() ==> (#[trigger] w[j]) == (w + rem)[j]);
        assert(forall|j: int|
            0 <= j < base.len() + full.len() ==> ((#[trigger] (base + full)[j]) == if j
                < base.len() {
                base[j]
            } else {
                full[j - base.len()]
            }));
    };
}

/// A front part of the first part is a front part of the whole.
pub proof fn lemma_prefix_extend(
    w0: Seq<WriteEvent>,
    w1: Seq<WriteEvent>,
    a: Seq<WriteEvent>,
    b: Seq<WriteEvent>,
)
    requires
        trace_extends_prefix(w0, w1, a),
    ensures
        trace_extends_prefix(w0, w1, a + b),
{
    let n = choose|n: int| 0 <= n <= a.len() && w1 == w0 + a.take(n);
    lemma_take_short(a, b, n);
}

/// A finished first part followed by a front part of the second is a front
/// part of the whole.
pub proof fn lemma_prefix_compose(
    w0: Seq<WriteEvent>,
    w1: Seq<WriteEvent>,
    w2: Seq<WriteEvent>,
    a: Seq<WriteEvent>,
    b: Seq<WriteEvent>,
)
    requires
        w1 == w0 + a,
        trace_extends_prefix(w1, w2, b),
    ensures
        trace_extends_prefix(w0, w2, a + b),
{
    let n = choose|n: int| 0 <= n <= b.len() && w2 == w1 + b.take(n);
    lemma_take_concat(a, b, n);
    assert(w2 =~= w0 + (a + b).take(a.len() + n));
}

/// One write a transport performed: the device, the byte offset, the bytes.
pub struct WriteEvent {
    pub device: Seq<u8>,
    pub offset: int,
    pub data: Seq<u8>,
}

/// The interface to one board. `mem` is the model: each device's bytes
/// under its name. `writes` is the trace of writes performed, which the
/// bit-banged protocols are specified over. A read can always fail (the
/// peer may be gone); what the contracts pin down is what any answer that
/// does arrive must be.
pub trait Transport: Sized {
    /// The bytes of each device, by name.
    spec fn mem(&self) -> Map<Seq<u8>, Seq<u8>>;

    /// Every write performed so far, in order.
    spec fn writes(&self) -> Seq<WriteEvent>;

    /// Whether the board is running a user program.
    fn is_running(&mut self) -> (r: Result<bool, Error>)
        ensures
            final(self).mem() == old(self).mem(),
            final(self).writes() == old(self).writes(),
    ;

    /// Reads `n` bytes of `device` starting at byte `offset`.
    fn read_n_bytes(&mut self, device: &Vec<u8>, offset: usize, n: usize) -> (r: Result<
        Vec<u8>,
        Error,
    >)
        ensures
            final(self).mem() == old(self).mem(),
            final(self).writes() == old(self).writes(),
            r matches Ok(b) ==> {
                &&& old(self).mem().dom().contains(device@)
                &&& offset + n <= old(self).mem()[device@].len()
                &&& b@ == old(self).mem()[device@].subrange(offset as int, offset + n)
            },
    ;

    /// Writes `data` to `device` starting at byte `offset`.
    fn write_bytes(&mut self, device: &Vec<u8>, offset: usize, data: &Vec<u8>) -> (r: Result<
        (),
        Error,
    >)
        ensures
            final(self).mem().dom() == old(self).mem().dom(),
            r matches Ok(()) ==> {
                &&& old(self).mem().dom().contains(device@)
                &&& offset + data@.len() <= old(self).mem()[device@].len()
                &&& final(self).mem() == old(self).mem().insert(
                    device@,
                    splice(old(self).mem()[device@], offset as int, data@),
                )
                &&& final(self).writes() == old(self).writes().push(
                    WriteEvent { device: device@, offset: offset as int, data: data@ },
                )
            },
            r is Err ==> final(self).writes() == old(self).writes() || final(self).writes()
                == old(self).writes().push(
                WriteEvent { device: device@, offset: offset as int, data: data@ },
            ),
    ;

    /// Lists the devices the running gateware serves.
    fn listdev(&mut self) -> (r: Result<RegisterMap, Error>)
        ensures
            final(self).mem() == old(self).mem(),
            final(self).writes() == old(self).writes(),
            r matches Ok(m) ==> forall|i: int|
                0 <= i < m@.len() ==> old(self).mem().dom().contains(#[trigger] m@[i].0@) && m@[
                    i
                ].1.length == old(self).mem()[m@[i].0@].len(),
    ;
}

/// Values that serialize to a fixed run of bytes for transport.
pub trait Serialize: Sized {
    /// The bytes this value serializes to.
    spec fn serial(&self) -> Seq<u8>;

    /// How many bytes values of this type occupy.
    spec fn byte_size() -> nat;

    /// The byte width of this type's encoding.
    fn size_of() -> (r: usize)
        ensures
            r == Self::byte_size(),
    ;

    /// Serializes the value.
    fn serialize(&self) -> (r: Vec<u8>)
        ensures
            r@ == self.serial(),
            r@.len() == Self::byte_size(),
    ;
}

/// Values that deserialize from a fixed run of transported bytes.
pub trait Deserialize: Sized {
    /// What a byte run decodes to, when it decodes.
    spec fn parsed(chunk: Seq<u8>) -> Option<Self>;

    /// How many bytes values of this type occupy.
    spec fn byte_size() -> nat;

    /// The byte width of this type's encoding.
    fn size_of() -> (r: usize)
        ensures
            r == Self::byte_size(),
    ;

    /// Deserializes a value from exactly one byte run.
    fn deserialize(chunk: &Vec<u8>) -> (r: Result<Self, Error>)
        ensures
            r matches Ok(v) ==> Self::parsed(chunk@) == Some(v),
            r is Err ==> Self::parsed(chunk@) is None,
    ;
}

impl Serialize for u8 {
    open spec fn serial(&self) -> Seq<u8> {
        seq![*self]
    }

    open spec fn byte_size() -> nat {
        1
    }

    fn size_of() -> usize {
        1
    }

    fn serialize(&self) -> (r: Vec<u8>) {
        let mut v: Vec<u8> = Vec::new();
        v.push(*self);
        assert(v@ =~= seq![*self]);
        v
    }
}

impl Deserialize for u8 {
    open spec fn parsed(chunk: Seq<u8>) -> Option<u8> {
        if chunk.len() == 1 {
            Some(chunk[0])
        } else {
            None
        }
    }

    open spec fn byte_size() -> nat {
        1
    }

    fn size_of() -> usize {
        1
    }

    fn deserialize(chunk: &Vec<u8>) -> (r: Result<u8, Error>) {
        if chunk.len() == 1 {
            Ok(chunk[0])
        } else {
            Err(Error::Packing)
        }
    }
}

impl Serialize for u16 {
    open spec fn serial(&self) -> Seq<u8> {
        be16_bytes(*self)
    }

    open spec fn byte_size() -> nat {
        2
    }

    fn size_of() -> usize {
        2
    }

    fn serialize(&self) -> (r: Vec<u8>) {
        let b = u16_to_be(*self);
        let mut v: Vec<u8> = Vec::new();
        v.push(b[0]);
        v.push(b[1]);
        assert(v@ =~= be16_bytes(*self));
        v
    }
}

impl Deserialize for u16 {
    open spec fn parsed(chunk: Seq<u8>) -> Option<u16> {
        if chunk.len() == 2 {
            Some(be16_val(chunk[0], chunk[1]))
        } else {
            None
        }
    }

    open spec fn byte_size() -> nat {
        2
    }

    fn size_of() -> usize {
        2
    }

    fn deserialize(chunk: &Vec<u8>) -> (r: Result<u16, Error>) {
        if chunk.len() == 2 {
            Ok(u16_from_be(chunk[0], chunk[1]))
        } else {
            Err(Error::Packing)
        }
    }
}

impl Serialize for u32 {
    open spec fn serial(&self) -> Seq<u8> {
        be32_bytes(*self)
    }

    open spec fn byte_size() -> nat {
        4
    }

    fn size_of() -> usize {
        4
    }

    fn serialize(&self) -> (r: Vec<u8>) {
        let b = u32_to_be(*self);
        let mut v: Vec<u8> = Vec::new();
        v.push(b[0]);
        v.push(b[1]);
        v.push(b[2]);
        v.push(b[3]);
        assert(v@ =~= be32_bytes(*self));
        v
    }
}

impl Deserialize for u32 {
    open spec fn parsed(chunk: Seq<u8>) -> Option<u32> {
        if chunk.len() == 4 {
            Some(be32_val(chunk[0], chunk[1], chunk[2], chunk[3]))
        } else {
            None
        }
    }

    open spec fn byte_size() -> nat {
        4
    }

    fn size_of() -> usize {
        4
    }

    fn deserialize(chunk: &Vec<u8>) -> (r: Result<u32, Error>) {
        if chunk.len() == 4 {
            Ok(u32_from_be(chunk[0], chunk[1], chunk[2], chunk[3]))
        } else {
            Err(Error::Packing)
        }
    }
}


impl Serialize for u64 {
    open spec fn serial(&self) -> Seq<u8> {
        be64_bytes(*self)
    }

    open spec fn byte_size() -> nat {
        8
    }

    fn size_of() -> usize {
        8
    }

    fn serialize(&self) -> (r: Vec<u8>) {
        let b = u64_to_be(*self);
        let v = vec![b[0], b[1], b[2], b[3], b[4], b[5], b[6], b[7]];
        assert(v@ =~= be64_bytes(*self));
        v
    }
}

impl Deserialize for u64 {
    open spec fn parsed(chunk: Seq<u8>) -> Option<u64> {
        if chunk.len() == 8 {
            Some(be64_val(chunk))
        } else {
            None
        }
    }

    open spec fn byte_size() -> nat {
        8
    }

    fn size_of() -> usize {
        8
    }

    fn deserialize(chunk: &Vec<u8>) -> (r: Result<u64, Error>) {
        if chunk.len() == 8 {
            let arr = [
                chunk[0], chunk[1], chunk[2], chunk[3], chunk[4], chunk[5], chunk[6],
                chunk[7],
            ];
            assert(arr@ =~= chunk@);
            Ok(u64_from_be(&arr))
        } else {
            Err(Error::Packing)
        }
    }
}

impl Serialize for i8 {
    open spec fn serial(&self) -> Seq<u8> {
        seq![*self as u8]
    }

    open spec fn byte_size() -> nat {
        1
    }

    fn size_of() -> usize {
        1
    }

    fn serialize(&self) -> (r: Vec<u8>) {
        let v = vec![#[verifier::truncate] (*self as u8)];
        assert(v@ =~= seq![*self as u8]);
        v
    }
}

impl Deserialize for i8 {
    open spec fn parsed(chunk: Seq<u8>) -> Option<i8> {
        if chunk.len() == 1 {
            Some(chunk[0] as i8)
        } else {
            None
        }
    }

    open spec fn byte_size() -> nat {
        1
    }

    fn size_of() -> usize {
        1
    }

    fn deserialize(chunk: &Vec<u8>) -> (r: Result<i8, Error>) {
        if chunk.len() == 1 {
            Ok(#[verifier::truncate] (chunk[0] as i8))
        } else {
            Err(Error::Packing)
        }
    }
}

impl Serialize for i16 {
    open spec fn serial(&self) -> Seq<u8> {
        be16_bytes(*self as u16)
    }

    open spec fn byte_size() -> nat {
        2
    }

    fn size_of() -> usize {
        2
    }

    fn serialize(&self) -> (r: Vec<u8>) {
        let b = u16_to_be(#[verifier::truncate] (*self as u16));
        let v = vec![b[0], b[1]];
        assert(v@ =~= be16_bytes(*self as u16));
        v
    }
}

impl Deserialize for i16 {
    open spec fn parsed(chunk: Seq<u8>) -> Option<i16> {
        if chunk.len() == 2 {
            Some(be16_val(chunk[0], chunk[1]) as i16)
        } else {
            None
        }
    }

    open spec fn byte_size() -> nat {
        2
    }

    fn size_of() -> usize {
        2
    }

    fn deserialize(chunk: &Vec<u8>) -> (r: Result<i16, Error>) {
        if chunk.len() == 2 {
            Ok(#[verifier::truncate] (u16_from_be(chunk[0], chunk[1]) as i16))
        } else {
            Err(Error::Packing)
        }
    }
}

impl Serialize for i32 {
    open spec fn serial(&self) -> Seq<u8> {
        be32_bytes(*self as u32)
    }

    open spec fn byte_size() -> nat {
        4
    }

    fn size_of() -> usize {
        4
    }

    fn serialize(&self) -> (r: Vec<u8>) {
        let b = u32_to_be(#[verifier::truncate] (*self as u32));
        let v = vec![b[0], b[1], b[2], b[3]];
        assert(v@ =~= be32_bytes(*self as u32));
        v
    }
}

impl Deserialize for i32 {
    open spec fn parsed(chunk: Seq<u8>) -> Option<i32> {
        if chunk.len() == 4 {
            Some(be32_val(chunk[0], chunk[1], chunk[2], chunk[3]) as i32)
        } else {
            None
        }
    }

    open spec fn byte_size() -> nat {
        4
    }

    fn size_of() -> usize {
        4
    }

    fn deserialize(chunk: &Vec<u8>) -> (r: Result<i32, Error>) {
        if chunk.len() == 4 {
            Ok(
                #[verifier::truncate]
                (u32_from_be(chunk[0], chunk[1], chunk[2], chunk[3]) as i32),
            )
        } else {
            Err(Error::Packing)
        }
    }
}

impl Serialize for i64 {
    open spec fn serial(&self) -> Seq<u8> {
        be64_bytes(*self as u64)
    }

    open spec fn byte_size() -> nat {
        8
    }

    fn size_of() -> usize {
        8
    }

    fn serialize(&self) -> (r: Vec<u8>) {
        let b = u64_to_be(#[verifier::truncate] (*self as u64));
        let v = vec![b[0], b[1], b[2], b[3], b[4], b[5], b[6], b[7]];
        assert(v@ =~= be64_bytes(*self as u64));
        v
    }
}

impl Deserialize for i64 {
    open spec fn parsed(chunk: Seq<u8>) -> Option<i64> {
        if chunk.len() == 8 {
            Some(be64_val(chunk) as i64)
        } else {
            None
        }
    }

    open spec fn byte_size() -> nat {
        8
    }

    fn size_of() -> usize {
        8
    }

    fn deserialize(chunk: &Vec<u8>) -> (r: Result<i64, Error>) {
        if chunk.len() == 8 {
            let arr = [
                chunk[0], chunk[1], chunk[2], chunk[3], chunk[4], chunk[5], chunk[6],
                chunk[7],
            ];
            assert(arr@ =~= chunk@);
            Ok(#[verifier::truncate] (u64_from_be(&arr) as i64))
        } else {
            Err(Error::Packing)
        }
    }
}

/// The round trip every transported value makes: deserializing what a
/// value serializes to yields the value back.
pub proof fn lemma_u32_serde_round_trip(x: u32)
    ensures
        <u32 as Deserialize>::parsed(x.serial()) == Some(x),
{
    assert(be32_bytes(x).len() == 4);
}

/// Types that carry their own offset within the containing device.
pub trait Address {
    /// The offset, as the type's layout fixes it.
    spec fn spec_addr() -> u16;

    /// The offset at which values of this type live.
    fn addr() -> (r: u16)
        ensures
            r == Self::spec_addr(),
    ;
}

/// Reads a typed value from `device` at byte `offset`.
pub fn read_value<T: Transport, V: Deserialize>(t: &mut T, device: &Vec<u8>, offset: usize) -> (r:
    Result<V, Error>)
    ensures
        final(t).mem() == old(t).mem(),
        final(t).writes() == old(t).writes(),
        r matches Ok(v) ==> {
            &&& old(t).mem().dom().contains(device@)
            &&& offset + V::byte_size() <= old(t).mem()[device@].len()
            &&& V::parsed(
                old(t).mem()[device@].subrange(offset as int, offset + V::byte_size()),
            ) == Some(v)
        },
{
    let n = V::size_of();
    let chunk = match t.read_n_bytes(device, offset, n) {
        Ok(b) => b,
        Err(e) => {
            return Err(e);
        },
    };
    V::deserialize(&chunk)
}

/// Writes a typed value to `device` at byte `offset`.
pub fn write_value<T: Transport, V: Serialize>(
    t: &mut T,
    device: &Vec<u8>,
    offset: usize,
    value: &V,
) -> (r: Result<(), Error>)
    ensures
        final(t).mem().dom() == old(t).mem().dom(),
        r matches Ok(()) ==> {
            &&& old(t).mem().dom().contains(device@)
            &&& offset + V::byte_size() <= old(t).mem()[device@].len()
            &&& final(t).mem() == old(t).mem().insert(
                device@,
                splice(old(t).mem()[device@], offset as int, value.serial()),
            )
            &&& final(t).writes() == old(t).writes().push(
                WriteEvent { device: device@, offset: offset as int, data: value.serial() },
            )
        },
        r is Err ==> final(t).writes() == old(t).writes() || final(t).writes() == old(
            t,
        ).writes().push(
            WriteEvent { device: device@, offset: offset as int, data: value.serial() },
        ),
{
    let data = value.serialize();
    t.write_bytes(device, offset, &data)
}

/// Reads a typed value from `device` at the type's own offset.
pub fn read_addr<T: Transport, V: Deserialize + Address>(t: &mut T, device: &Vec<u8>) -> (r: Result<
    V,
    Error,
>)
    ensures
        final(t).mem() == old(t).mem(),
        final(t).writes() == old(t).writes(),
        r matches Ok(v) ==> {
            &&& old(t).mem().dom().contains(device@)
            &&& V::spec_addr() + V::byte_size() <= old(t).mem()[device@].len()
            &&& V::parsed(
                old(t).mem()[device@].subrange(
                    V::spec_addr() as int,
                    V::spec_addr() + V::byte_size(),
                ),
            ) == Some(v)
        },
{
    let offset = V::addr() as usize;
    read_value(t, device, offset)
}

/// Writes a typed value to `device` at the type's own offset.
pub fn write_addr<T: Transport, V: Serialize + Address>(t: &mut T, device: &Vec<u8>, value: &V) -> (
    r: Result<(), Error>)
    ensures
        final(t).mem().dom() == old(t).mem().dom(),
        r matches Ok(()) ==> {
            &&& old(t).mem().dom().contains(device@)
            &&& V::spec_addr() + V::byte_size() <= old(t).mem()[device@].len()
            &&& final(t).mem() == old(t).mem().insert(
                device@,
                splice(old(t).mem()[device@], V::spec_addr() as int, value.serial()),
            )
            &&& final(t).writes() == old(t).writes().push(
                WriteEvent { device: device@, offset: V::spec_addr() as int, data: value.serial() },
            )
        },
{
    let offset = V::addr() as usize;
    write_value(t, device, offset, value)
}

} // verus!
