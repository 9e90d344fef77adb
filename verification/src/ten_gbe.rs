//! The 10-gigabit Ethernet core: one large register whose fields live at
//! fixed offsets. Multi-byte fields travel big-endian; flag words are
//! packed least-significant-bit first. The ARP table starts at 0x1000 with
//! eight bytes per entry, indexed by the last octet of the IP.

use vstd::prelude::*;

use crate::encoding::{be16_bytes, be16_val, be32_bytes, be32_val};
use crate::snapshot::bit;
use crate::transport::{splice, Transport, WriteEvent};

verus! {

/// Errors of the Ethernet-core operations.
#[derive(Debug)]
pub enum Error {
    /// The transport failed.
    Transport(crate::transport::Error),
    /// A register word did not decode to its typed fields.
    Packing,
}

/// The speed family a core reports.
#[derive(Debug, Copy, Clone, PartialEq, Eq, Structural)]
pub enum EthernetType {
    OneGbE,
    TenGbE,
    TwentyFiveGbE,
    FortyGbE,
    HundredGbE,
}

/// The code a core-type field carries.
pub open spec fn ethernet_type_code(t: EthernetType) -> u32 {
    match t {
        EthernetType::OneGbE => 1u32,
        EthernetType::TenGbE => 2u32,
        EthernetType::TwentyFiveGbE => 3u32,
        EthernetType::FortyGbE => 4u32,
        EthernetType::HundredGbE => 5u32,
    }
}

/// The core type a code names, if it names one.
pub open spec fn ethernet_type_of(c: u32) -> Option<EthernetType> {
    if c == 1 {
        Some(EthernetType::OneGbE)
    } else if c == 2 {
        Some(EthernetType::TenGbE)
    } else if c == 3 {
        Some(EthernetType::TwentyFiveGbE)
    } else if c == 4 {
        Some(EthernetType::FortyGbE)
    } else if c == 5 {
        Some(EthernetType::HundredGbE)
    } else {
        None
    }
}

/// The core-identification word at offset 0x0: the core type in the low
/// byte, the revision in the next, the CPU receive flag at bit 16 and the
/// CPU transmit flag at bit 24.
#[derive(Debug, Copy, Clone, PartialEq, Eq, Structural)]
pub struct CoreType {
    pub cpu_tx_enable: bool,
    pub cpu_rx_enable: bool,
    pub revision: u8,
    pub core_type: EthernetType,
}

impl CoreType {
    /// The packed register word.
    pub open spec fn spec_word(self) -> u32 {
        (ethernet_type_code(self.core_type) + 0x100 * self.revision + 0x1_0000 * bit(
            self.cpu_rx_enable,
        ) + 0x100_0000 * bit(self.cpu_tx_enable)) as u32
    }

    /// The fields a register word carries, when the type code is known.
    pub open spec fn of_word(w: u32) -> Option<CoreType> {
        match ethernet_type_of(w % 0x100) {
            None => None,
            Some(core_type) => Some(
                CoreType {
                    cpu_tx_enable: (w / 0x100_0000) % 2 == 1,
                    cpu_rx_enable: (w / 0x1_0000) % 2 == 1,
                    revision: ((w / 0x100) % 0x100) as u8,
                    core_type,
                },
            ),
        }
    }

    /// Unpacking a packed core-identification word yields its fields.
    pub proof fn lemma_round_trip(s: CoreType)
        ensures
            CoreType::of_word(s.spec_word()) == Some(s),
    {
    }

    /// Unpacks a register word.
    pub fn unpack(w: u32) -> (r: Option<CoreType>)
        ensures
            r == CoreType::of_word(w),
    {
        let code = w % 0x100;
        let core_type = if code == 1 {
            EthernetType::OneGbE
        } else if code == 2 {
            EthernetType::TenGbE
        } else if code == 3 {
            EthernetType::TwentyFiveGbE
        } else if code == 4 {
            EthernetType::FortyGbE
        } else if code == 5 {
            EthernetType::HundredGbE
        } else {
            return None;
        };
        Some(
            CoreType {
                cpu_tx_enable: (w / 0x100_0000) % 2 == 1,
                cpu_rx_enable: (w / 0x1_0000) % 2 == 1,
                revision: ((w / 0x100) % 0x100) as u8,
                core_type,
            },
        )
    }
}

/// The transmit and receive buffer sizes at offset 0x4, two big-endian
/// 16-bit words.
#[derive(Debug, Copy, Clone, PartialEq, Eq, Structural)]
pub struct BufferSizes {
    pub tx_buf_max: u16,
    pub rx_buf_max: u16,
}

impl BufferSizes {
    /// The four transported bytes.
    pub open spec fn serial(self) -> Seq<u8> {
        be16_bytes(self.tx_buf_max) + be16_bytes(self.rx_buf_max)
    }

    /// The fields four transported bytes carry.
    pub open spec fn of_bytes(b: Seq<u8>) -> BufferSizes {
        BufferSizes { tx_buf_max: be16_val(b[0], b[1]), rx_buf_max: be16_val(b[2], b[3]) }
    }

    /// Unpacking packed buffer sizes yields the sizes packed.
    pub proof fn lemma_round_trip(s: BufferSizes)
        ensures
            BufferSizes::of_bytes(s.serial()) == s,
    {
        assert(s.serial()[0] == be16_bytes(s.tx_buf_max)[0]);
        assert(s.serial()[1] == be16_bytes(s.tx_buf_max)[1]);
        assert(s.serial()[2] == be16_bytes(s.rx_buf_max)[0]);
        assert(s.serial()[3] == be16_bytes(s.rx_buf_max)[1]);
    }
}

/// The transmit and receive word lengths at offset 0x8, two big-endian
/// 16-bit words.
#[derive(Debug, Copy, Clone, PartialEq, Eq, Structural)]
pub struct WordLengths {
    pub tx_word_size: u16,
    pub rx_word_size: u16,
}

impl WordLengths {
    /// The four transported bytes.
    pub open spec fn serial(self) -> Seq<u8> {
        be16_bytes(self.tx_word_size) + be16_bytes(self.rx_word_size)
    }

    /// The fields four transported bytes carry.
    pub open spec fn of_bytes(b: Seq<u8>) -> WordLengths {
        WordLengths { tx_word_size: be16_val(b[0], b[1]), rx_word_size: be16_val(b[2], b[3]) }
    }

    /// Unpacking packed word lengths yields the lengths packed.
    pub proof fn lemma_round_trip(s: WordLengths)
        ensures
            WordLengths::of_bytes(s.serial()) == s,
    {
        assert(s.serial()[0] == be16_bytes(s.tx_word_size)[0]);
        assert(s.serial()[1] == be16_bytes(s.tx_word_size)[1]);
        assert(s.serial()[2] == be16_bytes(s.rx_word_size)[0]);
        assert(s.serial()[3] == be16_bytes(s.rx_word_size)[1]);
    }
}

/// The buffer occupancy at offset 0x28, two big-endian 16-bit words.
#[derive(Debug, Copy, Clone, PartialEq, Eq, Structural)]
pub struct BytesAvailable {
    pub tx_size: u16,
    pub rx_size: u16,
}

impl BytesAvailable {
    /// The four transported bytes.
    pub open spec fn serial(self) -> Seq<u8> {
        be16_bytes(self.tx_size) + be16_bytes(self.rx_size)
    }

    /// The fields four transported bytes carry.
    pub open spec fn of_bytes(b: Seq<u8>) -> BytesAvailable {
        BytesAvailable { tx_size: be16_val(b[0], b[1]), rx_size: be16_val(b[2], b[3]) }
    }

    /// Unpacking a packed occupancy yields the occupancy packed.
    pub proof fn lemma_round_trip(s: BytesAvailable)
        ensures
            BytesAvailable::of_bytes(s.serial()) == s,
    {
        assert(s.serial()[0] == be16_bytes(s.tx_size)[0]);
        assert(s.serial()[1] == be16_bytes(s.tx_size)[1]);
        assert(s.serial()[2] == be16_bytes(s.rx_size)[0]);
        assert(s.serial()[3] == be16_bytes(s.rx_size)[1]);
    }
}

/// The flag word at offset 0x2C: software reset at bit 4, promiscuous mode
/// at bit 2, fabric enable at bit 0.
#[derive(Debug, Copy, Clone, PartialEq, Eq, Structural)]
pub struct PromiscRstEn {
    pub soft_rst: bool,
    pub promisc: bool,
    pub enable: bool,
}

impl PromiscRstEn {
    /// The packed register word.
    pub open spec fn spec_word(self) -> u32 {
        (bit(self.enable) + 4 * bit(self.promisc) + 16 * bit(self.soft_rst)) as u32
    }

    /// The flags a register word carries.
    pub open spec fn of_word(w: u32) -> PromiscRstEn {
        PromiscRstEn {
            soft_rst: (w / 16) % 2 == 1,
            promisc: (w / 4) % 2 == 1,
            enable: w % 2 == 1,
        }
    }

    /// Unpacking a packed flag word yields the flags packed into it.
    pub proof fn lemma_round_trip(s: PromiscRstEn)
        ensures
            PromiscRstEn::of_word(s.spec_word()) == s,
    {
    }

    /// Packs the flags into the register word.
    pub fn pack(&self) -> (r: u32)
        ensures
            r == self.spec_word(),
    {
        let mut w: u32 = 0;
        if self.enable {
            w = w + 1;
        }
        if self.promisc {
            w = w + 4;
        }
        if self.soft_rst {
            w = w + 16;
        }
        w
    }

    /// Unpacks a register word into its flags.
    pub fn unpack(w: u32) -> (r: PromiscRstEn)
        ensures
            r == PromiscRstEn::of_word(w),
    {
        PromiscRstEn {
            soft_rst: (w / 16) % 2 == 1,
            promisc: (w / 4) % 2 == 1,
            enable: w % 2 == 1,
        }
    }
}

/// The port word at offset 0x30: the port mask, then the port, both
/// big-endian 16-bit.
#[derive(Debug, Copy, Clone, PartialEq, Eq, Structural)]
pub struct Port {
    pub port_mask: u16,
    pub port: u16,
}

impl Port {
    /// The four transported bytes.
    pub open spec fn serial(self) -> Seq<u8> {
        be16_bytes(self.port_mask) + be16_bytes(self.port)
    }

    /// The fields four transported bytes carry.
    pub open spec fn of_bytes(b: Seq<u8>) -> Port {
        Port { port_mask: be16_val(b[0], b[1]), port: be16_val(b[2], b[3]) }
    }

    /// Unpacking a packed port word yields the fields packed into it.
    pub proof fn lemma_round_trip(s: Port)
        ensures
            Port::of_bytes(s.serial()) == s,
    {
        assert(s.serial()[0] == be16_bytes(s.port_mask)[0]);
        assert(s.serial()[1] == be16_bytes(s.port_mask)[1]);
        assert(s.serial()[2] == be16_bytes(s.port)[0]);
        assert(s.serial()[3] == be16_bytes(s.port)[1]);
    }

    /// Packs the fields into the four transported bytes.
    pub fn pack(&self) -> (r: Vec<u8>)
        ensures
            r@ == self.serial(),
    {
        let m = crate::encoding::u16_to_be(self.port_mask);
        let p = crate::encoding::u16_to_be(self.port);
        let v = vec![m[0], m[1], p[0], p[1]];
        assert(v@ =~= self.serial());
        v
    }
}

/// The status word at offset 0x34, eight bytes: link state at the lowest
/// bit of the last byte.
#[derive(Debug, Copy, Clone, PartialEq, Eq, Structural)]
pub struct Status {
    pub link_up: bool,
}

impl Status {
    /// The eight transported bytes.
    pub open spec fn serial(self) -> Seq<u8> {
        seq![0u8, 0u8, 0u8, 0u8, 0u8, 0u8, 0u8, (bit(self.link_up)) as u8]
    }

    /// The field eight transported bytes carry.
    pub open spec fn of_bytes(b: Seq<u8>) -> Status {
        Status { link_up: b[7] % 2 == 1 }
    }

    /// Unpacking a packed status yields the status packed.
    pub proof fn lemma_round_trip(s: Status)
        ensures
            Status::of_bytes(s.serial()) == s,
    {
    }
}

/// A MAC address as it sits in its eight-byte slot: two zero bytes, then
/// the six address bytes.
#[derive(Debug, Copy, Clone)]
pub struct MacAddress(pub [u8; 6]);

impl MacAddress {
    /// The eight transported bytes.
    pub open spec fn serial(self) -> Seq<u8> {
        seq![0u8, 0u8] + self.0@
    }

    /// The address eight transported bytes carry.
    pub open spec fn of_bytes(b: Seq<u8>) -> Seq<u8> {
        b.subrange(2, 8)
    }

    /// Unpacking a packed MAC slot yields the address packed into it.
    pub proof fn lemma_round_trip(s: MacAddress)
        ensures
            MacAddress::of_bytes(s.serial()) == s.0@,
    {
        assert(MacAddress::of_bytes(s.serial()) =~= s.0@);
    }

    /// Packs the address into its slot.
    pub fn pack(&self) -> (r: Vec<u8>)
        ensures
            r@ == self.serial(),
    {
        let v = vec![0u8, 0u8, self.0[0], self.0[1], self.0[2], self.0[3], self.0[4], self.0[5]];
        assert(v@ =~= self.serial());
        v
    }
}

/// The core's field offsets.
pub open spec fn ip_offset() -> int {
    0x14
}

/// The Ethernet core handle: the device's name.
#[derive(Debug)]
pub struct TenGbE {
    /// The name of the core's register.
    pub name: Vec<u8>,
}

impl TenGbE {
    /// Builds a core handle; the design's metadata carries nothing more.
    pub fn from_fpg(name: Vec<u8>) -> (r: TenGbE)
        ensures
            r.name@ == name@,
    {
        TenGbE { name }
    }

    /// Reads four bytes at a fixed offset.
    fn read4<T: Transport>(&self, t: &mut T, offset: usize) -> (r: Result<[u8; 4], Error>)
        ensures
            final(t).mem() == old(t).mem(),
            final(t).writes() == old(t).writes(),
            r matches Ok(v) ==> {
                &&& old(t).mem().dom().contains(self.name@)
                &&& offset + 4 <= old(t).mem()[self.name@].len()
                &&& v@ == old(t).mem()[self.name@].subrange(offset as int, offset + 4)
            },
    {
        let got = match t.read_n_bytes(&self.name, offset, 4) {
            Ok(v) => v,
            Err(e) => {
                return Err(Error::Transport(e));
            },
        };
        if got.len() != 4 {
            return Err(Error::Packing);
        }
        let arr = [got[0], got[1], got[2], got[3]];
        assert(arr@ =~= got@);
        Ok(arr)
    }

    /// Writes four bytes at a fixed offset.
    fn write4<T: Transport>(&self, t: &mut T, offset: usize, data: Vec<u8>) -> (r: Result<
        (),
        Error,
    >)
        requires
            data@.len() == 4,
        ensures
            final(t).mem().dom() == old(t).mem().dom(),
            r matches Ok(()) ==> {
                &&& old(t).mem().dom().contains(self.name@)
                &&& offset + 4 <= old(t).mem()[self.name@].len()
                &&& final(t).mem() == old(t).mem().insert(
                    self.name@,
                    splice(old(t).mem()[self.name@], offset as int, data@),
                )
                &&& final(t).writes() == old(t).writes().push(
                    WriteEvent { device: self.name@, offset: offset as int, data: data@ },
                )
            },
    {
        match t.write_bytes(&self.name, offset, &data) {
            Ok(()) => Ok(()),
            Err(e) => Err(Error::Transport(e)),
        }
    }

    /// Reads the core's IPv4 address, as its four octets.
    pub fn get_ip<T: Transport>(&self, t: &mut T) -> (r: Result<[u8; 4], Error>)
        ensures
            final(t).mem() == old(t).mem(),
            final(t).writes() == old(t).writes(),
            r matches Ok(v) ==> old(t).mem().dom().contains(self.name@) && v@ == old(
                t,
            ).mem()[self.name@].subrange(0x14, 0x18),
    {
        self.read4(t, 0x14)
    }

    /// Sets the core's IPv4 address from its four octets.
    pub fn set_ip<T: Transport>(&self, t: &mut T, addr: [u8; 4]) -> (r: Result<(), Error>)
        ensures
            final(t).mem().dom() == old(t).mem().dom(),
            r matches Ok(()) ==> old(t).mem().dom().contains(self.name@) && final(t).mem() == old(
                t,
            ).mem().insert(self.name@, splice(old(t).mem()[self.name@], 0x14, addr@)),
    {
        let v = vec![addr[0], addr[1], addr[2], addr[3]];
        assert(v@ =~= addr@);
        self.write4(t, 0x14, v)
    }

    /// Reads the gateway address, as its four octets.
    pub fn get_gateway<T: Transport>(&self, t: &mut T) -> (r: Result<[u8; 4], Error>)
        ensures
            final(t).mem() == old(t).mem(),
            final(t).writes() == old(t).writes(),
            r matches Ok(v) ==> old(t).mem().dom().contains(self.name@) && v@ == old(
                t,
            ).mem()[self.name@].subrange(0x18, 0x1C),
    {
        self.read4(t, 0x18)
    }

    /// Sets the gateway address from its four octets.
    pub fn set_gateway<T: Transport>(&self, t: &mut T, addr: [u8; 4]) -> (r: Result<(), Error>)
        ensures
            final(t).mem().dom() == old(t).mem().dom(),
            r matches Ok(()) ==> old(t).mem().dom().contains(self.name@) && final(t).mem() == old(
                t,
            ).mem().insert(self.name@, splice(old(t).mem()[self.name@], 0x18, addr@)),
    {
        let v = vec![addr[0], addr[1], addr[2], addr[3]];
        assert(v@ =~= addr@);
        self.write4(t, 0x18, v)
    }

    /// Reads the subnet mask, as its four octets.
    pub fn get_netmask<T: Transport>(&self, t: &mut T) -> (r: Result<[u8; 4], Error>)
        ensures
            final(t).mem() == old(t).mem(),
            final(t).writes() == old(t).writes(),
            r matches Ok(v) ==> old(t).mem().dom().contains(self.name@) && v@ == old(
                t,
            ).mem()[self.name@].subrange(0x1C, 0x20),
    {
        self.read4(t, 0x1C)
    }

    /// Sets the subnet mask from its four octets.
    pub fn set_netmask<T: Transport>(&self, t: &mut T, addr: [u8; 4]) -> (r: Result<(), Error>)
        ensures
            final(t).mem().dom() == old(t).mem().dom(),
            r matches Ok(()) ==> old(t).mem().dom().contains(self.name@) && final(t).mem() == old(
                t,
            ).mem().insert(self.name@, splice(old(t).mem()[self.name@], 0x1C, addr@)),
    {
        let v = vec![addr[0], addr[1], addr[2], addr[3]];
        assert(v@ =~= addr@);
        self.write4(t, 0x1C, v)
    }

    /// Reads the fabric port from the port word.
    pub fn get_port<T: Transport>(&self, t: &mut T) -> (r: Result<u16, Error>)
        ensures
            final(t).mem() == old(t).mem(),
            final(t).writes() == old(t).writes(),
            r matches Ok(p) ==> {
                &&& old(t).mem().dom().contains(self.name@)
                &&& 0x34 <= old(t).mem()[self.name@].len()
                &&& p == Port::of_bytes(old(t).mem()[self.name@].subrange(0x30, 0x34)).port
            },
    {
        let b = match self.read4(t, 0x30) {
            Ok(v) => v,
            Err(e) => {
                return Err(e);
            },
        };
        Ok(crate::encoding::u16_from_be(b[2], b[3]))
    }

    /// Sets the fabric port, masking every bit of it in.
    pub fn set_port<T: Transport>(&self, t: &mut T, port: u16) -> (r: Result<(), Error>)
        ensures
            final(t).mem().dom() == old(t).mem().dom(),
            r matches Ok(()) ==> old(t).mem().dom().contains(self.name@) && final(t).mem() == old(
                t,
            ).mem().insert(
                self.name@,
                splice(
                    old(t).mem()[self.name@],
                    0x30,
                    Port { port_mask: 0xFF, port }.serial(),
                ),
            ),
    {
        let p = Port { port_mask: 0xFF, port };
        let v = p.pack();
        self.write4(t, 0x30, v)
    }

    /// Reads the MAC address out of its slot.
    pub fn get_mac<T: Transport>(&self, t: &mut T) -> (r: Result<Vec<u8>, Error>)
        ensures
            final(t).mem() == old(t).mem(),
            final(t).writes() == old(t).writes(),
            r matches Ok(v) ==> {
                &&& old(t).mem().dom().contains(self.name@)
                &&& 0x14 <= old(t).mem()[self.name@].len()
                &&& v@ == MacAddress::of_bytes(old(t).mem()[self.name@].subrange(0xC, 0x14))
            },
    {
        let got = match t.read_n_bytes(&self.name, 0xC, 8) {
            Ok(v) => v,
            Err(e) => {
                return Err(Error::Transport(e));
            },
        };
        let mac = crate::encoding::subvec(&got, 2, 8);
        proof {
            assert(mac@ =~= MacAddress::of_bytes(old(t).mem()[self.name@].subrange(0xC, 0x14)));
        }
        Ok(mac)
    }

    /// Writes the MAC address into its slot.
    pub fn set_mac<T: Transport>(&self, t: &mut T, mac: &[u8; 6]) -> (r: Result<(), Error>)
        ensures
            final(t).mem().dom() == old(t).mem().dom(),
            r matches Ok(()) ==> old(t).mem().dom().contains(self.name@) && final(t).mem() == old(
                t,
            ).mem().insert(
                self.name@,
                splice(old(t).mem()[self.name@], 0xC, MacAddress(*mac).serial()),
            ),
    {
        let m = MacAddress(*mac);
        let v = m.pack();
        match t.write_bytes(&self.name, 0xC, &v) {
            Ok(()) => Ok(()),
            Err(e) => Err(Error::Transport(e)),
        }
    }

    /// Enables or disables the core fabric, clearing the reset and
    /// promiscuous flags.
    pub fn set_enable<T: Transport>(&self, t: &mut T, enabled: bool) -> (r: Result<(), Error>)
        ensures
            final(t).mem().dom() == old(t).mem().dom(),
            r matches Ok(()) ==> old(t).mem().dom().contains(self.name@) && final(t).mem() == old(
                t,
            ).mem().insert(
                self.name@,
                splice(
                    old(t).mem()[self.name@],
                    0x2C,
                    be32_bytes(
                        PromiscRstEn { soft_rst: false, promisc: false, enable: enabled }.spec_word(),
                    ),
                ),
            ),
    {
        let flags = PromiscRstEn { soft_rst: false, promisc: false, enable: enabled };
        let w = flags.pack();
        let b = crate::encoding::u32_to_be(w);
        let v = vec![b[0], b[1], b[2], b[3]];
        assert(v@ =~= be32_bytes(flags.spec_word()));
        self.write4(t, 0x2C, v)
    }

    /// Toggles the core's software reset: writes the current flags with
    /// the reset bit clear, then set, then clear again.
    pub fn toggle_reset<T: Transport>(&self, t: &mut T) -> (r: Result<(), Error>)
        ensures
            final(t).mem().dom() == old(t).mem().dom(),
            r matches Ok(()) ==> {
                let window = old(t).mem()[self.name@].subrange(0x2C, 0x30);
                let read = PromiscRstEn::of_word(
                    be32_val(window[0], window[1], window[2], window[3]),
                );
                let low = PromiscRstEn { soft_rst: false, ..read };
                let high = PromiscRstEn { soft_rst: true, ..read };
                &&& old(t).mem().dom().contains(self.name@)
                &&& 0x30 <= old(t).mem()[self.name@].len()
                &&& final(t).writes() == old(t).writes().push(
                    WriteEvent {
                        device: self.name@,
                        offset: 0x2C,
                        data: be32_bytes(low.spec_word()),
                    },
                ).push(
                    WriteEvent {
                        device: self.name@,
                        offset: 0x2C,
                        data: be32_bytes(high.spec_word()),
                    },
                ).push(
                    WriteEvent {
                        device: self.name@,
                        offset: 0x2C,
                        data: be32_bytes(low.spec_word()),
                    },
                )
            },
    {
        let b = match self.read4(t, 0x2C) {
            Ok(v) => v,
            Err(e) => {
                return Err(e);
            },
        };
        let word = crate::encoding::u32_from_be(b[0], b[1], b[2], b[3]);
        let read = PromiscRstEn::unpack(word);
        let low = PromiscRstEn { soft_rst: false, promisc: read.promisc, enable: read.enable };
        let high = PromiscRstEn { soft_rst: true, promisc: read.promisc, enable: read.enable };
        let wl = crate::encoding::u32_to_be(low.pack());
        let wh = crate::encoding::u32_to_be(high.pack());
        let v1 = vec![wl[0], wl[1], wl[2], wl[3]];
        assert(v1@ =~= be32_bytes(low.spec_word()));
        match self.write4(t, 0x2C, v1) {
            Ok(()) => {},
            Err(e) => {
                return Err(e);
            },
        }
        let v2 = vec![wh[0], wh[1], wh[2], wh[3]];
        assert(v2@ =~= be32_bytes(high.spec_word()));
        match self.write4(t, 0x2C, v2) {
            Ok(()) => {},
            Err(e) => {
                return Err(e);
            },
        }
        let v3 = vec![wl[0], wl[1], wl[2], wl[3]];
        assert(v3@ =~= be32_bytes(low.spec_word()));
        self.write4(t, 0x2C, v3)
    }

    /// Writes one ARP table entry: the MAC slot for the host whose IP ends
    /// in `ip`'s last octet, eight bytes each from 0x1000 on.
    pub fn set_single_arp_entry<T: Transport>(&self, t: &mut T, ip: &[u8; 4], mac: &[u8; 6]) -> (r:
        Result<(), Error>)
        ensures
            final(t).mem().dom() == old(t).mem().dom(),
            r matches Ok(()) ==> old(t).mem().dom().contains(self.name@) && final(t).mem() == old(
                t,
            ).mem().insert(
                self.name@,
                splice(
                    old(t).mem()[self.name@],
                    0x1000 + 8 * (ip[3] as int),
                    MacAddress(*mac).serial(),
                ),
            ),
    {
        let offset: usize = 0x1000 + 8 * (ip[3] as usize);
        let m = MacAddress(*mac);
        let v = m.pack();
        match t.write_bytes(&self.name, offset, &v) {
            Ok(()) => Ok(()),
            Err(e) => Err(Error::Transport(e)),
        }
    }
}

} // verus!
