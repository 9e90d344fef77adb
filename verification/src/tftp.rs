//! The TFTP (RFC 1350) packet vocabulary spoken by TAPCP boards: packing a
//! packet into UDP payload bytes and parsing the bytes that come back. The
//! servers in this ecosystem do not negotiate options, so data blocks are
//! always 512 bytes or fewer.

use vstd::prelude::*;

use crate::encoding::{
    append_bytes, be16_bytes, be16_val, clone_bytes, find_nul, first_nul, is_utf8, subvec,
    u16_from_be, u16_to_be, utf8_check,
};

verus! {

/// The largest data payload a single DATA packet carries.
pub const MAX_DATA: usize = 512;

/// TFTP transfer modes.
#[derive(Debug, Copy, Clone, PartialEq, Eq, Structural)]
pub enum Mode {
    NetASCII,
    Octet,
}

/// The ASCII spelling of a transfer mode, lowercase.
pub open spec fn mode_text(m: Mode) -> Seq<u8> {
    match m {
        Mode::NetASCII => seq![0x6eu8, 0x65, 0x74, 0x61, 0x73, 0x63, 0x69, 0x69],
        Mode::Octet => seq![0x6fu8, 0x63, 0x74, 0x65, 0x74],
    }
}

/// Writes the lowercase spelling of a transfer mode.
pub fn mode_bytes(m: Mode) -> (r: Vec<u8>)
    ensures
        r@ == mode_text(m),
{
    let mut out: Vec<u8> = Vec::new();
    match m {
        Mode::NetASCII => {
            out.push(0x6e);
            out.push(0x65);
            out.push(0x74);
            out.push(0x61);
            out.push(0x73);
            out.push(0x63);
            out.push(0x69);
            out.push(0x69);
        },
        Mode::Octet => {
            out.push(0x6f);
            out.push(0x63);
            out.push(0x74);
            out.push(0x65);
            out.push(0x74);
        },
    }
    assert(out@ =~= mode_text(m));
    out
}

/// A byte with any ASCII uppercase letter folded to lowercase.
pub open spec fn ascii_lower(c: u8) -> u8 {
    if 0x41 <= c <= 0x5A {
        (c + 0x20) as u8
    } else {
        c
    }
}

/// A byte string with ASCII uppercase letters folded to lowercase.
pub open spec fn ascii_lower_seq(s: Seq<u8>) -> Seq<u8> {
    s.map_values(|c: u8| ascii_lower(c))
}

/// Reads a transfer mode name, ignoring ASCII case, as the mode field of a
/// request packet is read.
pub fn mode_from_bytes(s: &Vec<u8>) -> (r: Result<Mode, Error>)
    ensures
        r matches Ok(m) ==> ascii_lower_seq(s@) == mode_text(m),
        r matches Err(e) ==> e matches Error::BadMode(b) && b@ == s@,
        r is Ok <==> (ascii_lower_seq(s@) == mode_text(Mode::NetASCII) || ascii_lower_seq(s@)
            == mode_text(Mode::Octet)),
{
    let mut lowered: Vec<u8> = Vec::new();
    let mut i: usize = 0;
    while i < s.len()
        invariant
            0 <= i <= s@.len(),
            lowered@ == ascii_lower_seq(s@).take(i as int),
        decreases s@.len() - i,
    {
        let c = s[i];
        let lc = if 0x41 <= c && c <= 0x5A {
            c + 0x20
        } else {
            c
        };
        assert(lc == ascii_lower(s@[i as int]));
        lowered.push(lc);
        assert(lowered@ =~= ascii_lower_seq(s@).take(i + 1));
        i += 1;
    }
    assert(lowered@ =~= ascii_lower_seq(s@));
    let netascii = mode_bytes(Mode::NetASCII);
    let octet = mode_bytes(Mode::Octet);
    if crate::encoding::bytes_eq(&lowered, &netascii) {
        Ok(Mode::NetASCII)
    } else if crate::encoding::bytes_eq(&lowered, &octet) {
        Ok(Mode::Octet)
    } else {
        Err(Error::BadMode(clone_bytes(s)))
    }
}

/// The error codes a TFTP ERROR packet may carry.
#[derive(Debug, Copy, Clone, PartialEq, Eq, Structural)]
pub enum ErrorCode {
    NotDefined,
    NotFound,
    AccessViolation,
    Full,
    IllegalOp,
    UnknownID,
    FileExists,
    NoUser,
}

/// The on-wire number of an error code.
pub open spec fn error_code_num(c: ErrorCode) -> u16 {
    match c {
        ErrorCode::NotDefined => 0,
        ErrorCode::NotFound => 1,
        ErrorCode::AccessViolation => 2,
        ErrorCode::Full => 3,
        ErrorCode::IllegalOp => 4,
        ErrorCode::UnknownID => 5,
        ErrorCode::FileExists => 6,
        ErrorCode::NoUser => 7,
    }
}

/// The error code named by an on-wire number, if the number is known.
pub open spec fn error_code_of(v: u16) -> Option<ErrorCode> {
    if v == 0 {
        Some(ErrorCode::NotDefined)
    } else if v == 1 {
        Some(ErrorCode::NotFound)
    } else if v == 2 {
        Some(ErrorCode::AccessViolation)
    } else if v == 3 {
        Some(ErrorCode::Full)
    } else if v == 4 {
        Some(ErrorCode::IllegalOp)
    } else if v == 5 {
        Some(ErrorCode::UnknownID)
    } else if v == 6 {
        Some(ErrorCode::FileExists)
    } else if v == 7 {
        Some(ErrorCode::NoUser)
    } else {
        None
    }
}

pub fn error_code_to_u16(c: ErrorCode) -> (r: u16)
    ensures
        r == error_code_num(c),
{
    match c {
        ErrorCode::NotDefined => 0,
        ErrorCode::NotFound => 1,
        ErrorCode::AccessViolation => 2,
        ErrorCode::Full => 3,
        ErrorCode::IllegalOp => 4,
        ErrorCode::UnknownID => 5,
        ErrorCode::FileExists => 6,
        ErrorCode::NoUser => 7,
    }
}

pub fn error_code_from_u16(v: u16) -> (r: Option<ErrorCode>)
    ensures
        r == error_code_of(v),
{
    if v == 0 {
        Some(ErrorCode::NotDefined)
    } else if v == 1 {
        Some(ErrorCode::NotFound)
    } else if v == 2 {
        Some(ErrorCode::AccessViolation)
    } else if v == 3 {
        Some(ErrorCode::Full)
    } else if v == 4 {
        Some(ErrorCode::IllegalOp)
    } else if v == 5 {
        Some(ErrorCode::UnknownID)
    } else if v == 6 {
        Some(ErrorCode::FileExists)
    } else if v == 7 {
        Some(ErrorCode::NoUser)
    } else {
        None
    }
}

/// Errors from TFTP interactions.
#[derive(Debug)]
pub enum Error {
    /// The server answered with an ERROR packet: code and message.
    ErrorResponse(ErrorCode, Vec<u8>),
    /// A mode string that names no mode.
    BadMode(Vec<u8>),
    /// Not enough bytes in the payload.
    Incomplete,
    /// The opcode field names no packet kind.
    BadOpcode,
    /// The error-code field names no known error.
    BadErrorCode,
    /// A block number other than the expected one, where that is fatal.
    BadBlock(u16),
    /// A text field that is not valid UTF-8.
    BadString,
    /// The retry budget ran out.
    Timeout,
}

/// Spec-level mirror of [`Error`], over byte sequences.
pub enum ErrorModel {
    ErrorResponse(ErrorCode, Seq<u8>),
    BadMode(Seq<u8>),
    Incomplete,
    BadOpcode,
    BadErrorCode,
    BadBlock(u16),
    BadString,
    Timeout,
}

impl View for Error {
    type V = ErrorModel;

    open spec fn view(&self) -> ErrorModel {
        match self {
            Error::ErrorResponse(c, m) => ErrorModel::ErrorResponse(*c, m@),
            Error::BadMode(b) => ErrorModel::BadMode(b@),
            Error::Incomplete => ErrorModel::Incomplete,
            Error::BadOpcode => ErrorModel::BadOpcode,
            Error::BadErrorCode => ErrorModel::BadErrorCode,
            Error::BadBlock(b) => ErrorModel::BadBlock(*b),
            Error::BadString => ErrorModel::BadString,
            Error::Timeout => ErrorModel::Timeout,
        }
    }
}

/// One TFTP packet.
#[derive(Debug)]
pub enum Payload {
    Read { filename: Vec<u8>, mode: Mode },
    Write { filename: Vec<u8>, mode: Mode },
    Data { block: u16, data: Vec<u8> },
    Ack { block: u16 },
    Error { error_code: ErrorCode, error_msg: Vec<u8> },
}

/// Spec-level mirror of [`Payload`], over byte sequences.
pub enum PacketModel {
    Read { filename: Seq<u8>, mode: Mode },
    Write { filename: Seq<u8>, mode: Mode },
    Data { block: u16, data: Seq<u8> },
    Ack { block: u16 },
    Error { error_code: ErrorCode, error_msg: Seq<u8> },
}

impl View for Payload {
    type V = PacketModel;

    open spec fn view(&self) -> PacketModel {
        match self {
            Payload::Read { filename, mode } => PacketModel::Read {
                filename: filename@,
                mode: *mode,
            },
            Payload::Write { filename, mode } => PacketModel::Write {
                filename: filename@,
                mode: *mode,
            },
            Payload::Data { block, data } => PacketModel::Data { block: *block, data: data@ },
            Payload::Ack { block } => PacketModel::Ack { block: *block },
            Payload::Error { error_code, error_msg } => PacketModel::Error {
                error_code: *error_code,
                error_msg: error_msg@,
            },
        }
    }
}

/// The UDP payload bytes of a packet: a two-byte big-endian opcode followed
/// by the packet's fields, with text fields NUL-terminated.
pub open spec fn packet_bytes(p: PacketModel) -> Seq<u8> {
    match p {
        PacketModel::Read { filename, mode } => seq![0u8, 1u8] + filename + seq![0u8] + mode_text(
            mode,
        ) + seq![0u8],
        PacketModel::Write { filename, mode } => seq![0u8, 2u8] + filename + seq![0u8] + mode_text(
            mode,
        ) + seq![0u8],
        PacketModel::Data { block, data } => seq![0u8, 3u8] + be16_bytes(block) + data,
        PacketModel::Ack { block } => seq![0u8, 4u8] + be16_bytes(block),
        PacketModel::Error { error_code, error_msg } => seq![0u8, 5u8] + be16_bytes(
            error_code_num(error_code),
        ) + error_msg + seq![0u8],
    }
}

/// What parsing a UDP payload yields: the packet, or the exact error the
/// parser reports for these bytes.
pub open spec fn parse_packet(b: Seq<u8>) -> Result<PacketModel, ErrorModel> {
    if b.len() < 4 {
        Err(ErrorModel::Incomplete)
    } else {
        let op = be16_val(b[0], b[1]);
        let rest = b.skip(2);
        if op == 1 || op == 2 {
            match first_nul(rest) {
                None => Err(ErrorModel::Incomplete),
                Some(i) => {
                    let filename = rest.take(i);
                    if !is_utf8(filename) {
                        Err(ErrorModel::BadString)
                    } else {
                        let rest2 = rest.skip(i + 1);
                        match first_nul(rest2) {
                            None => Err(ErrorModel::Incomplete),
                            Some(j) => {
                                let modeb = rest2.take(j);
                                if !is_utf8(modeb) {
                                    Err(ErrorModel::BadString)
                                } else if ascii_lower_seq(modeb) == mode_text(Mode::NetASCII) {
                                    if op == 1 {
                                        Ok(PacketModel::Read { filename, mode: Mode::NetASCII })
                                    } else {
                                        Ok(PacketModel::Write { filename, mode: Mode::NetASCII })
                                    }
                                } else if ascii_lower_seq(modeb) == mode_text(Mode::Octet) {
                                    if op == 1 {
                                        Ok(PacketModel::Read { filename, mode: Mode::Octet })
                                    } else {
                                        Ok(PacketModel::Write { filename, mode: Mode::Octet })
                                    }
                                } else {
                                    Err(ErrorModel::BadMode(modeb))
                                }
                            },
                        }
                    }
                },
            }
        } else if op == 3 {
            Ok(PacketModel::Data { block: be16_val(rest[0], rest[1]), data: rest.skip(2) })
        } else if op == 4 {
            Ok(PacketModel::Ack { block: be16_val(rest[0], rest[1]) })
        } else if op == 5 {
            match error_code_of(be16_val(rest[0], rest[1])) {
                None => Err(ErrorModel::BadErrorCode),
                Some(code) => {
                    let rest2 = rest.skip(2);
                    match first_nul(rest2) {
                        None => Err(ErrorModel::Incomplete),
                        Some(i) => {
                            let msg = rest2.take(i);
                            if !is_utf8(msg) {
                                Err(ErrorModel::BadString)
                            } else {
                                Ok(PacketModel::Error { error_code: code, error_msg: msg })
                            }
                        },
                    }
                },
            }
        } else {
            Err(ErrorModel::BadOpcode)
        }
    }
}

/// Whether a packet's text fields can travel: NUL-free UTF-8, as the
/// NUL-terminated wire format requires.
pub open spec fn packet_wf(p: PacketModel) -> bool {
    match p {
        PacketModel::Read { filename, mode } => is_utf8(filename) && first_nul(filename) is None,
        PacketModel::Write { filename, mode } => is_utf8(filename) && first_nul(filename) is None,
        PacketModel::Data { block, data } => true,
        PacketModel::Ack { block } => true,
        PacketModel::Error { error_code, error_msg } => is_utf8(error_msg) && first_nul(
            error_msg,
        ) is None,
    }
}

/// The packet round trip: every well-formed packet parses back, field for
/// field, from its own packed bytes.
pub proof fn lemma_packet_round_trip(p: PacketModel)
    requires
        packet_wf(p),
    ensures
        parse_packet(packet_bytes(p)) == Ok::<PacketModel, ErrorModel>(p),
{
    let b = packet_bytes(p);
    match p {
        PacketModel::Read { filename, mode } => {
            lemma_request_round_trip(b, filename, mode, 1);
        },
        PacketModel::Write { filename, mode } => {
            lemma_request_round_trip(b, filename, mode, 2);
        },
        PacketModel::Data { block, data } => {
            assert(b == seq![0u8, 3u8] + be16_bytes(block) + data);
            assert(b.len() >= 4);
            assert(b[0] == 0 && b[1] == 3);
            assert(be16_val(b[0], b[1]) == 3);
            let rest = b.skip(2);
            assert(rest[0] == b[2] && rest[1] == b[3]);
            assert(b[2] == be16_bytes(block)[0] && b[3] == be16_bytes(block)[1]);
            assert(be16_val(rest[0], rest[1]) == block);
            assert(rest.skip(2) =~= data);
        },
        PacketModel::Ack { block } => {
            assert(b == seq![0u8, 4u8] + be16_bytes(block));
            assert(b.len() == 4);
            assert(b[0] == 0 && b[1] == 4);
            assert(be16_val(b[0], b[1]) == 4);
            let rest = b.skip(2);
            assert(rest[0] == b[2] && rest[1] == b[3]);
            assert(b[2] == be16_bytes(block)[0] && b[3] == be16_bytes(block)[1]);
            assert(be16_val(rest[0], rest[1]) == block);
        },
        PacketModel::Error { error_code, error_msg } => {
            assert(b == seq![0u8, 5u8] + be16_bytes(error_code_num(error_code)) + error_msg
                + seq![0u8]);
            assert(b.len() >= 4);
            assert(b[0] == 0 && b[1] == 5);
            assert(be16_val(b[0], b[1]) == 5);
            let rest = b.skip(2);
            assert(rest[0] == b[2] && rest[1] == b[3]);
            assert(b[2] == be16_bytes(error_code_num(error_code))[0] && b[3] == be16_bytes(
                error_code_num(error_code),
            )[1]);
            assert(be16_val(rest[0], rest[1]) == error_code_num(error_code));
            assert(error_code_of(error_code_num(error_code)) == Some(error_code));
            let rest2 = rest.skip(2);
            assert(rest2 =~= error_msg + seq![0u8]);
            crate::encoding::lemma_no_nul(error_msg);
            assert(forall|j: int| 0 <= j < error_msg.len() ==> rest2[j] == error_msg[j]);
            assert(rest2[error_msg.len() as int] == 0);
            crate::encoding::lemma_first_nul_found(rest2, error_msg.len() as int);
            assert(rest2.take(error_msg.len() as int) =~= error_msg);
        },
    }
}

/// The request halves of the packet round trip.
proof fn lemma_request_round_trip(b: Seq<u8>, filename: Seq<u8>, mode: Mode, op: u16)
    requires
        op == 1 || op == 2,
        is_utf8(filename),
        first_nul(filename) is None,
        b == seq![0u8, op as u8] + filename + seq![0u8] + mode_text(mode) + seq![0u8],
    ensures
        op == 1 ==> parse_packet(b) == Ok::<PacketModel, ErrorModel>(
            PacketModel::Read { filename, mode },
        ),
        op == 2 ==> parse_packet(b) == Ok::<PacketModel, ErrorModel>(
            PacketModel::Write { filename, mode },
        ),
{
    assert(b.len() >= 4);
    assert(b[0] == 0 && b[1] == op as u8);
    assert(be16_val(b[0], b[1]) == op);
    let rest = b.skip(2);
    assert(rest =~= filename + seq![0u8] + mode_text(mode) + seq![0u8]);
    crate::encoding::lemma_no_nul(filename);
    assert(forall|j: int| 0 <= j < filename.len() ==> rest[j] == filename[j]);
    assert(rest[filename.len() as int] == 0);
    crate::encoding::lemma_first_nul_found(rest, filename.len() as int);
    assert(rest.take(filename.len() as int) =~= filename);
    let rest2 = rest.skip(filename.len() as int + 1);
    assert(rest2 =~= mode_text(mode) + seq![0u8]);
    let mt = mode_text(mode);
    assert(forall|j: int| 0 <= j < mt.len() ==> mt[j] != 0 && mt[j] < 0x80 && !(0x41 <= mt[j]
        <= 0x5A));
    assert(forall|j: int| 0 <= j < mt.len() ==> rest2[j] == mt[j]);
    assert(rest2[mt.len() as int] == 0);
    crate::encoding::lemma_first_nul_found(rest2, mt.len() as int);
    assert(rest2.take(mt.len() as int) =~= mt);
    crate::encoding::lemma_ascii_utf8(mt);
    assert(ascii_lower_seq(mt) =~= mt);
    assert(mode_text(Mode::NetASCII) != mode_text(Mode::Octet)) by {
        assert(mode_text(Mode::NetASCII).len() != mode_text(Mode::Octet).len());
    };
}

impl Payload {
    /// Builds the UDP payload bytes for this packet.
    pub fn pack(&self) -> (r: Vec<u8>)
        ensures
            r@ == packet_bytes(self@),
    {
        let mut bytes: Vec<u8> = Vec::new();
        match self {
            Payload::Read { filename, mode } => {
                bytes.push(0);
                bytes.push(1);
                append_bytes(&mut bytes, filename);
                bytes.push(0);
                let mb = mode_bytes(*mode);
                append_bytes(&mut bytes, &mb);
                bytes.push(0);
                assert(bytes@ =~= packet_bytes(self@));
            },
            Payload::Write { filename, mode } => {
                bytes.push(0);
                bytes.push(2);
                append_bytes(&mut bytes, filename);
                bytes.push(0);
                let mb = mode_bytes(*mode);
                append_bytes(&mut bytes, &mb);
                bytes.push(0);
                assert(bytes@ =~= packet_bytes(self@));
            },
            Payload::Data { block, data } => {
                bytes.push(0);
                bytes.push(3);
                let bb = u16_to_be(*block);
                bytes.push(bb[0]);
                bytes.push(bb[1]);
                append_bytes(&mut bytes, data);
                assert(bytes@ =~= packet_bytes(self@));
            },
            Payload::Ack { block } => {
                bytes.push(0);
                bytes.push(4);
                let bb = u16_to_be(*block);
                bytes.push(bb[0]);
                bytes.push(bb[1]);
                assert(bytes@ =~= packet_bytes(self@));
            },
            Payload::Error { error_code, error_msg } => {
                bytes.push(0);
                bytes.push(5);
                let cb = u16_to_be(error_code_to_u16(*error_code));
                bytes.push(cb[0]);
                bytes.push(cb[1]);
                append_bytes(&mut bytes, error_msg);
                bytes.push(0);
                assert(bytes@ =~= packet_bytes(self@));
            },
        }
        bytes
    }

    /// Parses the UDP payload bytes of one packet.
    ///
    /// Succeeds and fails exactly as [`parse_packet`] describes.
    pub fn unpack(bytes: &Vec<u8>) -> (r: Result<Payload, Error>)
        ensures
            r matches Ok(p) ==> parse_packet(bytes@) == Ok::<PacketModel, ErrorModel>(p@),
            r matches Err(e) ==> parse_packet(bytes@) == Err::<PacketModel, ErrorModel>(e@),
    {
        if bytes.len() < 4 {
            return Err(Error::Incomplete);
        }
        let op = u16_from_be(bytes[0], bytes[1]);
        let ghost rest = bytes@.skip(2);
        assert(rest[0] == bytes@[2] && rest[1] == bytes@[3]);
        if op == 1 || op == 2 {
            let nul1 = match find_nul(bytes, 2) {
                Some(i) => i,
                None => {
                    return Err(Error::Incomplete);
                },
            };
            let filename = subvec(bytes, 2, nul1);
            assert(filename@ =~= rest.take(nul1 - 2));
            if !utf8_check(&filename) {
                return Err(Error::BadString);
            }
            let ghost rest2 = rest.skip(nul1 - 2 + 1);
            assert(rest2 =~= bytes@.skip(nul1 + 1));
            let nul2 = match find_nul(bytes, nul1 + 1) {
                Some(j) => j,
                None => {
                    return Err(Error::Incomplete);
                },
            };
            let modeb = subvec(bytes, nul1 + 1, nul2);
            assert(modeb@ =~= rest2.take(nul2 - (nul1 + 1)));
            if !utf8_check(&modeb) {
                return Err(Error::BadString);
            }
            let mode = match mode_from_bytes(&modeb) {
                Ok(m) => m,
                Err(e) => {
                    return Err(e);
                },
            };
            if op == 1 {
                Ok(Payload::Read { filename, mode })
            } else {
                Ok(Payload::Write { filename, mode })
            }
        } else if op == 3 {
            let block = u16_from_be(bytes[2], bytes[3]);
            let data = subvec(bytes, 4, bytes.len());
            assert(data@ =~= rest.skip(2));
            Ok(Payload::Data { block, data })
        } else if op == 4 {
            let block = u16_from_be(bytes[2], bytes[3]);
            Ok(Payload::Ack { block })
        } else if op == 5 {
            let raw_code = u16_from_be(bytes[2], bytes[3]);
            let code = match error_code_from_u16(raw_code) {
                Some(c) => c,
                None => {
                    return Err(Error::BadErrorCode);
                },
            };
            let ghost rest2 = rest.skip(2);
            assert(rest2 =~= bytes@.skip(4));
            let nul1 = match find_nul(bytes, 4) {
                Some(i) => i,
                None => {
                    return Err(Error::Incomplete);
                },
            };
            let msg = subvec(bytes, 4, nul1);
            assert(msg@ =~= rest2.take(nul1 - 4));
            if !utf8_check(&msg) {
                return Err(Error::BadString);
            }
            Ok(Payload::Error { error_code: code, error_msg: msg })
        } else {
            Err(Error::BadOpcode)
        }
    }
}

} // verus!
