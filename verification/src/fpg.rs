//! Parser for the gateware descriptor file: a line-oriented ASCII header
//! (shebang, upload marker, register lines, metadata lines, a quit marker)
//! followed by the raw — possibly gzip-compressed — bitstream. The parse is
//! over bytes; fields are separated by runs of spaces or tabs.

use vstd::prelude::*;

use crate::encoding::{
    hex_seq_val, is_hex_digit, is_utf8, subvec, utf8_check, ParseError,
};

verus! {

/// Whether a byte is an ASCII space or tab: a field separator.
pub open spec fn is_space_b(c: u8) -> bool {
    c == 0x20 || c == 0x09
}

/// Whether a byte starts a line ending.
pub open spec fn is_line_b(c: u8) -> bool {
    c == 0x0A || c == 0x0D
}

/// Whether the bytes at `pos` begin with `tag`.
pub open spec fn tag_at(b: Seq<u8>, pos: int, tag: Seq<u8>) -> bool {
    0 <= pos && pos + tag.len() <= b.len() && b.subrange(pos, pos + tag.len()) == tag
}

/// The length of the run of bytes satisfying `pred` that starts at `pos`.
pub open spec fn run_len(b: Seq<u8>, pos: int, pred: spec_fn(u8) -> bool) -> int
    decreases b.len() - pos,
{
    if pos < 0 || pos >= b.len() || !pred(b[pos]) {
        0
    } else {
        1 + run_len(b, pos + 1, pred)
    }
}

/// The run is within bounds, all its bytes satisfy `pred`, and it is maximal.
pub proof fn lemma_run_len(b: Seq<u8>, pos: int, pred: spec_fn(u8) -> bool)
    requires
        0 <= pos <= b.len(),
    ensures
        0 <= run_len(b, pos, pred),
        pos + run_len(b, pos, pred) <= b.len(),
        forall|j: int| pos <= j < pos + run_len(b, pos, pred) ==> pred(#[trigger] b[j]),
        pos + run_len(b, pos, pred) < b.len() ==> !pred(b[pos + run_len(b, pos, pred)]),
    decreases b.len() - pos,
{
    if pos < b.len() && pred(b[pos]) {
        lemma_run_len(b, pos + 1, pred);
    }
}

/// Proves the value of `run_len` from a witness.
proof fn lemma_run_len_val(b: Seq<u8>, pos: int, pred: spec_fn(u8) -> bool, k: int)
    requires
        0 <= pos,
        pos + k <= b.len(),
        0 <= k,
        forall|j: int| pos <= j < pos + k ==> pred(#[trigger] b[j]),
        pos + k < b.len() ==> !pred(b[pos + k]),
    ensures
        run_len(b, pos, pred) == k,
    decreases k,
{
    if k > 0 {
        lemma_run_len_val(b, pos + 1, pred, k - 1);
    }
}

/// The length of a line ending at `pos`: LF or CRLF.
pub open spec fn line_end_at(b: Seq<u8>, pos: int) -> Option<int> {
    if 0 <= pos < b.len() && b[pos] == 0x0A {
        Some(1int)
    } else if 0 <= pos && pos + 1 < b.len() && b[pos] == 0x0D && b[pos + 1] == 0x0A {
        Some(2int)
    } else {
        None
    }
}

/// Checks whether the bytes at `pos` begin with `tag`.
pub fn check_tag(b: &Vec<u8>, pos: usize, tag: &Vec<u8>) -> (r: bool)
    requires
        pos <= b@.len(),
    ensures
        r == tag_at(b@, pos as int, tag@),
{
    if b.len() - pos < tag.len() {
        return false;
    }
    let mut i: usize = 0;
    while i < tag.len()
        invariant
            0 <= i <= tag@.len(),
            pos + tag@.len() <= b@.len(),
            b@.len() <= usize::MAX,
            forall|j: int| 0 <= j < i ==> b@[pos + j] == tag@[j],
        decreases tag@.len() - i,
    {
        if b[pos + i] != tag[i] {
            assert(b@.subrange(pos as int, pos + tag@.len())[i as int] != tag@[i as int]);
            return false;
        }
        i += 1;
    }
    assert(b@.subrange(pos as int, pos + tag@.len()) =~= tag@);
    true
}

/// Counts the separator bytes (space or tab) at `pos`.
pub fn space_run(b: &Vec<u8>, pos: usize) -> (r: usize)
    requires
        pos <= b@.len(),
    ensures
        r == run_len(b@, pos as int, |c: u8| is_space_b(c)),
        pos + r <= b@.len(),
{
    let mut i: usize = pos;
    while i < b.len() && (b[i] == 0x20 || b[i] == 0x09)
        invariant
            pos <= i <= b@.len(),
            forall|j: int| pos <= j < i ==> is_space_b(#[trigger] b@[j]),
        decreases b@.len() - i,
    {
        i += 1;
    }
    proof {
        lemma_run_len_val(b@, pos as int, |c: u8| is_space_b(c), i - pos);
    }
    i - pos
}

/// Counts the non-separator bytes at `pos`: the extent of a field.
pub fn nonspace_run(b: &Vec<u8>, pos: usize) -> (r: usize)
    requires
        pos <= b@.len(),
    ensures
        r == run_len(b@, pos as int, |c: u8| !is_space_b(c)),
        pos + r <= b@.len(),
{
    let mut i: usize = pos;
    while i < b.len() && b[i] != 0x20 && b[i] != 0x09
        invariant
            pos <= i <= b@.len(),
            forall|j: int| pos <= j < i ==> !is_space_b(#[trigger] b@[j]),
        decreases b@.len() - i,
    {
        i += 1;
    }
    proof {
        lemma_run_len_val(b@, pos as int, |c: u8| !is_space_b(c), i - pos);
    }
    i - pos
}

/// Counts the bytes at `pos` up to a line ending: the extent of a free-form
/// value.
pub fn nonline_run(b: &Vec<u8>, pos: usize) -> (r: usize)
    requires
        pos <= b@.len(),
    ensures
        r == run_len(b@, pos as int, |c: u8| !is_line_b(c)),
        pos + r <= b@.len(),
{
    let mut i: usize = pos;
    while i < b.len() && b[i] != 0x0A && b[i] != 0x0D
        invariant
            pos <= i <= b@.len(),
            forall|j: int| pos <= j < i ==> !is_line_b(#[trigger] b@[j]),
        decreases b@.len() - i,
    {
        i += 1;
    }
    proof {
        lemma_run_len_val(b@, pos as int, |c: u8| !is_line_b(c), i - pos);
    }
    i - pos
}

/// Counts the hexadecimal digits at `pos`.
pub fn hex_run(b: &Vec<u8>, pos: usize) -> (r: usize)
    requires
        pos <= b@.len(),
    ensures
        r == run_len(b@, pos as int, |c: u8| is_hex_digit(c)),
        pos + r <= b@.len(),
{
    let mut i: usize = pos;
    while i < b.len() && ((0x30 <= b[i] && b[i] <= 0x39) || (0x41 <= b[i] && b[i] <= 0x46) || (0x61
        <= b[i] && b[i] <= 0x66))
        invariant
            pos <= i <= b@.len(),
            forall|j: int| pos <= j < i ==> is_hex_digit(#[trigger] b@[j]),
        decreases b@.len() - i,
    {
        i += 1;
    }
    proof {
        lemma_run_len_val(b@, pos as int, |c: u8| is_hex_digit(c), i - pos);
    }
    i - pos
}

/// Reads a line ending at `pos`, yielding its length.
pub fn read_line_end(b: &Vec<u8>, pos: usize) -> (r: Option<usize>)
    requires
        pos <= b@.len(),
    ensures
        r matches Some(k) ==> line_end_at(b@, pos as int) == Some(k as int) && pos + k <= b@.len(),
        r is None ==> line_end_at(b@, pos as int) is None,
{
    if pos < b.len() && b[pos] == 0x0A {
        Some(1)
    } else if pos < b.len() && b[pos] == 0x0D && b.len() - pos > 1 && b[pos + 1] == 0x0A {
        Some(2)
    } else {
        None
    }
}

/// The shebang line's text: `#!/bin/kcpfpg`.
pub open spec fn shebang_text() -> Seq<u8> {
    seq![0x23u8, 0x21, 0x2F, 0x62, 0x69, 0x6E, 0x2F, 0x6B, 0x63, 0x70, 0x66, 0x70, 0x67]
}

/// The upload marker's text: `?uploadbin`.
pub open spec fn uploadbin_text() -> Seq<u8> {
    seq![0x3Fu8, 0x75, 0x70, 0x6C, 0x6F, 0x61, 0x64, 0x62, 0x69, 0x6E]
}

/// The register keyword: `?register`.
pub open spec fn register_text() -> Seq<u8> {
    seq![0x3Fu8, 0x72, 0x65, 0x67, 0x69, 0x73, 0x74, 0x65, 0x72]
}

/// The metadata keyword: `?meta`.
pub open spec fn meta_text() -> Seq<u8> {
    seq![0x3Fu8, 0x6D, 0x65, 0x74, 0x61]
}

/// The quit marker: `?quit`.
pub open spec fn quit_text() -> Seq<u8> {
    seq![0x3Fu8, 0x71, 0x75, 0x69, 0x74]
}

/// The hexadecimal prefix: `0x`.
pub open spec fn hex_prefix_text() -> Seq<u8> {
    seq![0x30u8, 0x78]
}

fn shebang_tag() -> (r: Vec<u8>)
    ensures
        r@ == shebang_text(),
{
    let v = vec![0x23u8, 0x21, 0x2F, 0x62, 0x69, 0x6E, 0x2F, 0x6B, 0x63, 0x70, 0x66, 0x70, 0x67];
    assert(v@ =~= shebang_text());
    v
}

fn uploadbin_tag() -> (r: Vec<u8>)
    ensures
        r@ == uploadbin_text(),
{
    let v = vec![0x3Fu8, 0x75, 0x70, 0x6C, 0x6F, 0x61, 0x64, 0x62, 0x69, 0x6E];
    assert(v@ =~= uploadbin_text());
    v
}

fn register_tag() -> (r: Vec<u8>)
    ensures
        r@ == register_text(),
{
    let v = vec![0x3Fu8, 0x72, 0x65, 0x67, 0x69, 0x73, 0x74, 0x65, 0x72];
    assert(v@ =~= register_text());
    v
}

fn meta_tag() -> (r: Vec<u8>)
    ensures
        r@ == meta_text(),
{
    let v = vec![0x3Fu8, 0x6D, 0x65, 0x74, 0x61];
    assert(v@ =~= meta_text());
    v
}

fn quit_tag() -> (r: Vec<u8>)
    ensures
        r@ == quit_text(),
{
    let v = vec![0x3Fu8, 0x71, 0x75, 0x69, 0x74];
    assert(v@ =~= quit_text());
    v
}

fn hex_prefix_tag() -> (r: Vec<u8>)
    ensures
        r@ == hex_prefix_text(),
{
    let v = vec![0x30u8, 0x78];
    assert(v@ =~= hex_prefix_text());
    v
}

/// A hexadecimal field at `pos`: the `0x` prefix, then a non-empty digit run
/// whose value fits 32 bits. Yields the value and the position after it.
pub open spec fn parse_hex_at(b: Seq<u8>, pos: int) -> Option<(u32, int)> {
    if !tag_at(b, pos, hex_prefix_text()) {
        None
    } else {
        let p = pos + 2;
        let hr = run_len(b, p, |c: u8| is_hex_digit(c));
        if hr == 0 {
            None
        } else if hex_seq_val(b.subrange(p, p + hr)) > u32::MAX {
            None
        } else {
            Some((hex_seq_val(b.subrange(p, p + hr)) as u32, p + hr))
        }
    }
}

/// Reads a hexadecimal field at `pos`.
fn read_hex_at(b: &Vec<u8>, pos: usize) -> (r: Option<(u32, usize)>)
    requires
        pos <= b@.len(),
    ensures
        r matches Some(v) ==> parse_hex_at(b@, pos as int) == Some((v.0, v.1 as int)) && pos < v.1
            <= b@.len(),
        r is None ==> parse_hex_at(b@, pos as int) is None,
{
    let ghost n = b@.len();
    proof { assert(n == b.len()); }
    let pre = hex_prefix_tag();
    if !check_tag(b, pos, &pre) {
        return None;
    }
    let p = pos + 2;
    let hr = hex_run(b, p);
    if hr == 0 {
        return None;
    }
    let digits = subvec(b, p, p + hr);
    proof {
        lemma_run_len(b@, p as int, |c: u8| is_hex_digit(c));
    }
    match crate::encoding::from_hex(&digits) {
        Ok(v) => Some((v, p + hr)),
        Err(_) => {
            assert(hex_seq_val(b@.subrange(p as int, p + hr as int)) > u32::MAX);
            None
        },
    }
}

/// A register line parsed out of the header: name, address, size.
pub struct RegLine {
    pub name: Seq<u8>,
    pub addr: u32,
    pub size: u32,
}

/// A metadata line parsed out of the header: device (with `/` rewritten to
/// `_`), kind, key, value.
pub struct MetaLine {
    pub device: Seq<u8>,
    pub kind: Seq<u8>,
    pub key: Seq<u8>,
    pub value: Seq<u8>,
}

/// A device name with every `/` rewritten to `_`, as register names spell
/// nesting.
pub open spec fn slashes_to_underscores(s: Seq<u8>) -> Seq<u8> {
    s.map_values(
        |c: u8|
            if c == 0x2F {
                0x5Fu8
            } else {
                c
            },
    )
}

/// Rewrites `/` to `_` in a name.
pub fn rewrite_slashes(s: &Vec<u8>) -> (r: Vec<u8>)
    ensures
        r@ == slashes_to_underscores(s@),
{
    let mut out: Vec<u8> = Vec::new();
    let mut i: usize = 0;
    while i < s.len()
        invariant
            0 <= i <= s@.len(),
            out@ == slashes_to_underscores(s@).take(i as int),
        decreases s@.len() - i,
    {
        let c = s[i];
        if c == 0x2F {
            out.push(0x5F);
        } else {
            out.push(c);
        }
        assert(out@ =~= slashes_to_underscores(s@).take(i + 1));
        i += 1;
    }
    assert(out@ =~= slashes_to_underscores(s@));
    out
}

/// A whitespace-separated field at `pos` after at least one separator:
/// yields the field's bytes and the position after it, or nothing if the
/// separator run is empty or the field is not valid UTF-8.
pub open spec fn parse_field_at(b: Seq<u8>, pos: int) -> Option<(Seq<u8>, int)> {
    let sp = run_len(b, pos, |c: u8| is_space_b(c));
    if sp == 0 {
        None
    } else {
        let fs = pos + sp;
        let fl = run_len(b, fs, |c: u8| !is_space_b(c));
        let field = b.subrange(fs, fs + fl);
        if is_utf8(field) {
            Some((field, fs + fl))
        } else {
            None
        }
    }
}

/// Reads a whitespace-separated field at `pos`.
fn read_field_at(b: &Vec<u8>, pos: usize) -> (r: Option<(Vec<u8>, usize)>)
    requires
        pos <= b@.len(),
    ensures
        r matches Some(v) ==> parse_field_at(b@, pos as int) == Some((v.0@, v.1 as int)) && pos
            < v.1 <= b@.len(),
        r is None ==> parse_field_at(b@, pos as int) is None,
{
    let ghost n = b@.len();
    proof { assert(n == b.len()); }
    let sp = space_run(b, pos);
    if sp == 0 {
        return None;
    }
    let fs = pos + sp;
    let fl = nonspace_run(b, fs);
    let field = subvec(b, fs, fs + fl);
    if utf8_check(&field) {
        Some((field, fs + fl))
    } else {
        None
    }
}

/// A register line at `pos`: the keyword, then name, `0x` address and `0x`
/// size fields, then a line ending. Yields the line and the position after
/// its terminator.
pub open spec fn parse_register_at(b: Seq<u8>, pos: int) -> Option<(RegLine, int)> {
    if !tag_at(b, pos, register_text()) {
        None
    } else {
        match parse_field_at(b, pos + 9) {
            None => None,
            Some((name, p1)) => {
                let sp1 = run_len(b, p1, |c: u8| is_space_b(c));
                if sp1 == 0 {
                    None
                } else {
                    match parse_hex_at(b, p1 + sp1) {
                        None => None,
                        Some((addr, p2)) => {
                            let sp2 = run_len(b, p2, |c: u8| is_space_b(c));
                            if sp2 == 0 {
                                None
                            } else {
                                match parse_hex_at(b, p2 + sp2) {
                                    None => None,
                                    Some((size, p3)) => match line_end_at(b, p3) {
                                        None => None,
                                        Some(le) => Some(
                                            (RegLine { name, addr, size }, p3 + le),
                                        ),
                                    },
                                }
                            }
                        },
                    }
                }
            },
        }
    }
}

/// Reads a register line at `pos`.
pub fn read_register_at(b: &Vec<u8>, pos: usize) -> (r: Option<(Vec<u8>, u32, u32, usize)>)
    requires
        pos <= b@.len(),
    ensures
        r matches Some(v) ==> parse_register_at(b@, pos as int) == Some(
            (RegLine { name: v.0@, addr: v.1, size: v.2 }, v.3 as int),
        ) && pos < v.3 <= b@.len(),
        r is None ==> parse_register_at(b@, pos as int) is None,
{
    let ghost n = b@.len();
    proof { assert(n == b.len()); }
    let tag = register_tag();
    if !check_tag(b, pos, &tag) {
        return None;
    }
    let (name, p1) = match read_field_at(b, pos + 9) {
        Some(v) => v,
        None => {
            return None;
        },
    };
    let sp1 = space_run(b, p1);
    if sp1 == 0 {
        return None;
    }
    let (addr, p2) = match read_hex_at(b, p1 + sp1) {
        Some(v) => v,
        None => {
            return None;
        },
    };
    let sp2 = space_run(b, p2);
    if sp2 == 0 {
        return None;
    }
    let (size, p3) = match read_hex_at(b, p2 + sp2) {
        Some(v) => v,
        None => {
            return None;
        },
    };
    let le = match read_line_end(b, p3) {
        Some(v) => v,
        None => {
            return None;
        },
    };
    Some((name, addr, size, p3 + le))
}

/// A metadata line at `pos`: the keyword, then device, kind and key fields,
/// then a free-form value extending to the line ending. The device name has
/// its `/` separators rewritten to `_`.
pub open spec fn parse_meta_at(b: Seq<u8>, pos: int) -> Option<(MetaLine, int)> {
    if !tag_at(b, pos, meta_text()) {
        None
    } else {
        match parse_field_at(b, pos + 5) {
            None => None,
            Some((device, p1)) => match parse_field_at(b, p1) {
                None => None,
                Some((kind, p2)) => match parse_field_at(b, p2) {
                    None => None,
                    Some((key, p3)) => {
                        let sp = run_len(b, p3, |c: u8| is_space_b(c));
                        if sp == 0 {
                            None
                        } else {
                            let vs = p3 + sp;
                            let vl = run_len(b, vs, |c: u8| !is_line_b(c));
                            let value = b.subrange(vs, vs + vl);
                            if !is_utf8(value) {
                                None
                            } else {
                                match line_end_at(b, vs + vl) {
                                    None => None,
                                    Some(le) => Some(
                                        (
                                            MetaLine {
                                                device: slashes_to_underscores(device),
                                                kind,
                                                key,
                                                value,
                                            },
                                            vs + vl + le,
                                        ),
                                    ),
                                }
                            }
                        }
                    },
                },
            },
        }
    }
}

/// Reads a metadata line at `pos`.
pub fn read_meta_at(b: &Vec<u8>, pos: usize) -> (r: Option<(Vec<u8>, Vec<u8>, Vec<u8>, Vec<u8>, usize)>)
    requires
        pos <= b@.len(),
    ensures
        r matches Some(v) ==> parse_meta_at(b@, pos as int) == Some(
            (MetaLine { device: v.0@, kind: v.1@, key: v.2@, value: v.3@ }, v.4 as int),
        ) && pos < v.4 <= b@.len(),
        r is None ==> parse_meta_at(b@, pos as int) is None,
{
    let ghost n = b@.len();
    proof { assert(n == b.len()); }
    let tag = meta_tag();
    if !check_tag(b, pos, &tag) {
        return None;
    }
    let (device, p1) = match read_field_at(b, pos + 5) {
        Some(v) => v,
        None => {
            return None;
        },
    };
    let (kind, p2) = match read_field_at(b, p1) {
        Some(v) => v,
        None => {
            return None;
        },
    };
    let (key, p3) = match read_field_at(b, p2) {
        Some(v) => v,
        None => {
            return None;
        },
    };
    let sp = space_run(b, p3);
    if sp == 0 {
        return None;
    }
    let vs = p3 + sp;
    let vl = nonline_run(b, vs);
    let value = subvec(b, vs, vs + vl);
    if !utf8_check(&value) {
        return None;
    }
    let le = match read_line_end(b, vs + vl) {
        Some(v) => v,
        None => {
            return None;
        },
    };
    let dev = rewrite_slashes(&device);
    Some((dev, kind, key, value, vs + vl + le))
}

/// The register lines' view of an exec register list.
pub open spec fn regs_view(s: Seq<(Vec<u8>, u32, u32)>) -> Seq<RegLine> {
    s.map_values(|r: (Vec<u8>, u32, u32)| RegLine { name: r.0@, addr: r.1, size: r.2 })
}

/// The metadata lines' view of an exec metadata list.
pub open spec fn metas_view(s: Seq<(Vec<u8>, Vec<u8>, Vec<u8>, Vec<u8>)>) -> Seq<MetaLine> {
    s.map_values(
        |m: (Vec<u8>, Vec<u8>, Vec<u8>, Vec<u8>)| MetaLine {
            device: m.0@,
            kind: m.1@,
            key: m.2@,
            value: m.3@,
        },
    )
}

/// All register lines from `pos` on, and the position where they stop.
pub open spec fn parse_registers(b: Seq<u8>, pos: int) -> (Seq<RegLine>, int)
    decreases b.len() - pos,
{
    match parse_register_at(b, pos) {
        None => (seq![], pos),
        Some((line, p2)) => if pos < p2 <= b.len() {
            let rec = parse_registers(b, p2);
            (seq![line] + rec.0, rec.1)
        } else {
            (seq![], pos)
        },
    }
}

/// All metadata lines from `pos` on, and the position where they stop.
pub open spec fn parse_metas(b: Seq<u8>, pos: int) -> (Seq<MetaLine>, int)
    decreases b.len() - pos,
{
    match parse_meta_at(b, pos) {
        None => (seq![], pos),
        Some((line, p2)) => if pos < p2 <= b.len() {
            let rec = parse_metas(b, p2);
            (seq![line] + rec.0, rec.1)
        } else {
            (seq![], pos)
        },
    }
}

/// Reads all register lines from `pos` on.
fn read_registers(b: &Vec<u8>, pos: usize) -> (r: (Vec<(Vec<u8>, u32, u32)>, usize))
    requires
        pos <= b@.len(),
    ensures
        parse_registers(b@, pos as int) == (regs_view(r.0@), r.1 as int),
        pos <= r.1 <= b@.len(),
{
    let mut acc: Vec<(Vec<u8>, u32, u32)> = Vec::new();
    let mut cur: usize = pos;
    assert(regs_view(acc@) =~= Seq::<RegLine>::empty());
    loop
        invariant
            pos <= cur <= b@.len(),
            parse_registers(b@, pos as int).0 == regs_view(acc@) + parse_registers(
                b@,
                cur as int,
            ).0,
            parse_registers(b@, pos as int).1 == parse_registers(b@, cur as int).1,
        decreases b@.len() - cur,
    {
        match read_register_at(b, cur) {
            None => {
                assert(parse_registers(b@, cur as int) == (Seq::<RegLine>::empty(), cur as int));
                assert(regs_view(acc@) + Seq::<RegLine>::empty() =~= regs_view(acc@));
                return (acc, cur);
            },
            Some((name, addr, size, p2)) => {
                let ghost line = RegLine { name: name@, addr, size };
                let ghost before = regs_view(acc@);
                proof {
                    let rec = parse_registers(b@, p2 as int);
                    assert(parse_registers(b@, cur as int) == (seq![line] + rec.0, rec.1));
                }
                acc.push((name, addr, size));
                assert(regs_view(acc@) =~= before + seq![line]);
                proof {
                    assert((before + seq![line]) + parse_registers(b@, p2 as int).0 =~= before + (
                    seq![line] + parse_registers(b@, p2 as int).0));
                }
                cur = p2;
            },
        }
    }
}

/// Reads all metadata lines from `pos` on.
fn read_metas(b: &Vec<u8>, pos: usize) -> (r: (Vec<(Vec<u8>, Vec<u8>, Vec<u8>, Vec<u8>)>, usize))
    requires
        pos <= b@.len(),
    ensures
        parse_metas(b@, pos as int) == (metas_view(r.0@), r.1 as int),
        pos <= r.1 <= b@.len(),
{
    let mut acc: Vec<(Vec<u8>, Vec<u8>, Vec<u8>, Vec<u8>)> = Vec::new();
    let mut cur: usize = pos;
    assert(metas_view(acc@) =~= Seq::<MetaLine>::empty());
    loop
        invariant
            pos <= cur <= b@.len(),
            parse_metas(b@, pos as int).0 == metas_view(acc@) + parse_metas(b@, cur as int).0,
            parse_metas(b@, pos as int).1 == parse_metas(b@, cur as int).1,
        decreases b@.len() - cur,
    {
        match read_meta_at(b, cur) {
            None => {
                assert(parse_metas(b@, cur as int) == (Seq::<MetaLine>::empty(), cur as int));
                assert(metas_view(acc@) + Seq::<MetaLine>::empty() =~= metas_view(acc@));
                return (acc, cur);
            },
            Some((device, kind, key, value, p2)) => {
                let ghost line = MetaLine { device: device@, kind: kind@, key: key@, value: value@ };
                let ghost before = metas_view(acc@);
                proof {
                    let rec = parse_metas(b@, p2 as int);
                    assert(parse_metas(b@, cur as int) == (seq![line] + rec.0, rec.1));
                }
                acc.push((device, kind, key, value));
                assert(metas_view(acc@) =~= before + seq![line]);
                proof {
                    assert((before + seq![line]) + parse_metas(b@, p2 as int).0 =~= before + (
                    seq![line] + parse_metas(b@, p2 as int).0));
                }
                cur = p2;
            },
        }
    }
}

/// A register on the FPGA bus: its 32-bit address and its size in bytes.
#[derive(Debug, Clone, Copy, PartialEq, Eq, Structural)]
pub struct Register {
    pub addr: u32,
    pub size: u32,
}

/// The register type under the name the descriptor modules share.
pub type FpgRegister = Register;

/// A device named by the descriptor: its kind, the register adopted from
/// the register table if one matches its name, and its metadata entries.
#[derive(Debug)]
pub struct Device {
    pub kind: Vec<u8>,
    pub register: Option<Register>,
    pub metadata: Vec<(Vec<u8>, Vec<u8>)>,
}

/// Spec-level mirror of [`Device`].
#[verifier::ext_equal]
pub struct DeviceModel {
    pub kind: Seq<u8>,
    pub register: Option<Register>,
    pub metadata: Seq<(Seq<u8>, Seq<u8>)>,
}

impl View for Device {
    type V = DeviceModel;

    open spec fn view(&self) -> DeviceModel {
        DeviceModel {
            kind: self.kind@,
            register: self.register,
            metadata: crate::csl::pairs_view(self.metadata@),
        }
    }
}

/// The device-list view of an exec device list.
pub open spec fn devices_view(s: Seq<(Vec<u8>, Device)>) -> Seq<(Seq<u8>, DeviceModel)> {
    s.map_values(|d: (Vec<u8>, Device)| (d.0@, d.1@))
}

/// The register a device of this name adopts: the last register line with
/// that exact name, if any.
pub open spec fn reg_lookup(regs: Seq<RegLine>, name: Seq<u8>) -> Option<Register>
    decreases regs.len(),
{
    if regs.len() == 0 {
        None
    } else if regs.last().name == name {
        Some(Register { addr: regs.last().addr, size: regs.last().size })
    } else {
        reg_lookup(regs.drop_last(), name)
    }
}

/// The first position of `name` among the device entries, if present.
pub open spec fn device_index(devs: Seq<(Seq<u8>, DeviceModel)>, name: Seq<u8>) -> Option<int>
    decreases devs.len(),
{
    if devs.len() == 0 {
        None
    } else if devs[0].0 == name {
        Some(0int)
    } else {
        match device_index(devs.skip(1), name) {
            None => None,
            Some(i) => Some(i + 1),
        }
    }
}

/// The first position of `key` among metadata entries, if present.
pub open spec fn meta_index(md: Seq<(Seq<u8>, Seq<u8>)>, key: Seq<u8>) -> Option<int>
    decreases md.len(),
{
    if md.len() == 0 {
        None
    } else if md[0].0 == key {
        Some(0int)
    } else {
        match meta_index(md.skip(1), key) {
            None => None,
            Some(i) => Some(i + 1),
        }
    }
}

/// Metadata insertion: a fresh key is appended; a repeated key replaces its
/// earlier value in place.
pub open spec fn meta_insert(md: Seq<(Seq<u8>, Seq<u8>)>, key: Seq<u8>, value: Seq<u8>) -> Seq<
    (Seq<u8>, Seq<u8>),
> {
    match meta_index(md, key) {
        Some(i) => md.update(i, (key, value)),
        None => md.push((key, value)),
    }
}

/// Folds the metadata lines into a device list: the first sighting of a
/// device name creates its entry — adopting a matching register — and every
/// later sighting adds to that entry's metadata.
pub open spec fn build_devices_rec(
    metas: Seq<MetaLine>,
    i: int,
    regs: Seq<RegLine>,
    acc: Seq<(Seq<u8>, DeviceModel)>,
) -> Seq<(Seq<u8>, DeviceModel)>
    decreases metas.len() - i,
{
    if i < 0 || i >= metas.len() {
        acc
    } else {
        let m = metas[i];
        let acc2 = match device_index(acc, m.device) {
            Some(di) => acc.update(
                di,
                (
                    m.device,
                    DeviceModel {
                        kind: acc[di].1.kind,
                        register: acc[di].1.register,
                        metadata: meta_insert(acc[di].1.metadata, m.key, m.value),
                    },
                ),
            ),
            None => acc.push(
                (
                    m.device,
                    DeviceModel {
                        kind: m.kind,
                        register: reg_lookup(regs, m.device),
                        metadata: seq![(m.key, m.value)],
                    },
                ),
            ),
        };
        build_devices_rec(metas, i + 1, regs, acc2)
    }
}

/// The device list a descriptor's lines yield.
pub open spec fn build_devices(metas: Seq<MetaLine>, regs: Seq<RegLine>) -> Seq<
    (Seq<u8>, DeviceModel),
> {
    build_devices_rec(metas, 0, regs, seq![])
}

proof fn lemma_device_index(devs: Seq<(Seq<u8>, DeviceModel)>, name: Seq<u8>)
    ensures
        device_index(devs, name) matches Some(i) ==> 0 <= i < devs.len() && devs[i].0 == name
            && forall|j: int| 0 <= j < i ==> devs[j].0 != name,
        device_index(devs, name) is None ==> forall|j: int|
            0 <= j < devs.len() ==> devs[j].0 != name,
    decreases devs.len(),
{
    if devs.len() > 0 && devs[0].0 != name {
        let t = devs.skip(1);
        lemma_device_index(t, name);
        assert(forall|j: int| 1 <= j < devs.len() ==> devs[j] == #[trigger] t[j - 1]);
        match device_index(t, name) {
            None => {
                assert forall|j: int| 0 <= j < devs.len() implies devs[j].0 != name by {
                    if j >= 1 {
                        assert(devs[j] == t[j - 1]);
                    }
                };
            },
            Some(i) => {
                assert(devs[i + 1] == t[i]);
                assert forall|j: int| 0 <= j < i + 1 implies devs[j].0 != name by {
                    if j >= 1 {
                        assert(devs[j] == t[j - 1]);
                    }
                };
            },
        }
    }
}

proof fn lemma_device_index_val(devs: Seq<(Seq<u8>, DeviceModel)>, name: Seq<u8>, k: int)
    requires
        0 <= k <= devs.len(),
        forall|j: int| 0 <= j < k ==> #[trigger] devs[j].0 != name,
        k < devs.len() ==> devs[k].0 == name,
    ensures
        k < devs.len() ==> device_index(devs, name) == Some(k),
        k == devs.len() ==> device_index(devs, name) is None,
    decreases devs.len(),
{
    if devs.len() > 0 && devs[0].0 != name {
        let t = devs.skip(1);
        assert(forall|j: int| 0 <= j < t.len() ==> #[trigger] t[j] == devs[j + 1]);
        lemma_device_index_val(t, name, k - 1);
    }
}

proof fn lemma_meta_index_val(md: Seq<(Seq<u8>, Seq<u8>)>, key: Seq<u8>, k: int)
    requires
        0 <= k <= md.len(),
        forall|j: int| 0 <= j < k ==> #[trigger] md[j].0 != key,
        k < md.len() ==> md[k].0 == key,
    ensures
        k < md.len() ==> meta_index(md, key) == Some(k),
        k == md.len() ==> meta_index(md, key) is None,
    decreases md.len(),
{
    if md.len() > 0 && md[0].0 != key {
        let t = md.skip(1);
        assert(forall|j: int| 0 <= j < t.len() ==> #[trigger] t[j] == md[j + 1]);
        lemma_meta_index_val(t, key, k - 1);
    }
}

/// Finds the first entry with this device name.
fn find_device(devs: &Vec<(Vec<u8>, Device)>, name: &Vec<u8>) -> (r: Option<usize>)
    ensures
        r matches Some(i) ==> i < devs@.len() && device_index(devices_view(devs@), name@) == Some(
            i as int,
        ),
        r is None ==> device_index(devices_view(devs@), name@) is None,
{
    let mut i: usize = 0;
    while i < devs.len()
        invariant
            0 <= i <= devs@.len(),
            forall|j: int| 0 <= j < i ==> #[trigger] devices_view(devs@)[j].0 != name@,
        decreases devs@.len() - i,
    {
        if crate::encoding::bytes_eq(&devs[i].0, name) {
            proof {
                lemma_device_index_val(devices_view(devs@), name@, i as int);
            }
            return Some(i);
        }
        i += 1;
    }
    proof {
        lemma_device_index_val(devices_view(devs@), name@, i as int);
    }
    None
}

/// Adds one metadata pair under the insertion rule of [`meta_insert`].
fn meta_insert_exec(md: &mut Vec<(Vec<u8>, Vec<u8>)>, key: Vec<u8>, value: Vec<u8>)
    ensures
        crate::csl::pairs_view(final(md)@) == meta_insert(
            crate::csl::pairs_view(old(md)@),
            key@,
            value@,
        ),
{
    let ghost md0 = crate::csl::pairs_view(md@);
    let mut i: usize = 0;
    while i < md.len()
        invariant
            0 <= i <= md@.len(),
            md0 == crate::csl::pairs_view(md@),
            md0 == crate::csl::pairs_view(old(md)@),
            forall|j: int| 0 <= j < i ==> #[trigger] md0[j].0 != key@,
        decreases md@.len() - i,
    {
        if crate::encoding::bytes_eq(&md[i].0, &key) {
            proof {
                assert(md0[i as int] == (md@[i as int].0@, md@[i as int].1@));
                lemma_meta_index_val(md0, key@, i as int);
            }
            let _replaced = md.remove(i);
            md.insert(i, (key, value));
            assert(crate::csl::pairs_view(md@) =~= md0.update(i as int, (key@, value@)));
            assert(meta_insert(md0, key@, value@) == md0.update(i as int, (key@, value@)));
            return ;
        }
        assert(md0[i as int] == (md@[i as int].0@, md@[i as int].1@));
        i += 1;
    }
    proof {
        lemma_meta_index_val(md0, key@, i as int);
    }
    md.push((key, value));
    assert(crate::csl::pairs_view(md@) =~= md0.push((key@, value@)));
}

/// Looks up the register a device of this name adopts.
fn reg_lookup_exec(regs: &Vec<(Vec<u8>, u32, u32)>, name: &Vec<u8>) -> (r: Option<Register>)
    ensures
        r == reg_lookup(regs_view(regs@), name@),
{
    let ghost rv = regs_view(regs@);
    let mut i: usize = regs.len();
    assert(rv.take(i as int) =~= rv);
    while i > 0
        invariant
            0 <= i <= regs@.len(),
            rv == regs_view(regs@),
            reg_lookup(rv, name@) == reg_lookup(rv.take(i as int), name@),
        decreases i,
    {
        i -= 1;
        proof {
            assert(rv.take(i + 1).drop_last() =~= rv.take(i as int));
            assert(rv.take(i + 1).last() == rv[i as int]);
        }
        assert(rv[i as int] == RegLine { name: regs@[i as int].0@, addr: regs@[i as int].1, size: regs@[i as int].2 });
        if crate::encoding::bytes_eq(&regs[i].0, name) {
            assert(rv[i as int].name == name@);
            return Some(
                Register { addr: regs[i].1, size: regs[i].2 },
            );
        }
        assert(rv[i as int].name != name@);
    }
    assert(rv.take(0) =~= Seq::<RegLine>::empty());
    None
}

/// Builds the device list from the parsed lines.
fn build_devices_exec(
    metas: &Vec<(Vec<u8>, Vec<u8>, Vec<u8>, Vec<u8>)>,
    regs: &Vec<(Vec<u8>, u32, u32)>,
) -> (r: Vec<(Vec<u8>, Device)>)
    ensures
        devices_view(r@) == build_devices(metas_view(metas@), regs_view(regs@)),
{
    let ghost mv = metas_view(metas@);
    let ghost rv = regs_view(regs@);
    let mut devs: Vec<(Vec<u8>, Device)> = Vec::new();
    let mut i: usize = 0;
    assert(devices_view(devs@) =~= Seq::<(Seq<u8>, DeviceModel)>::empty());
    while i < metas.len()
        invariant
            0 <= i <= metas@.len(),
            mv == metas_view(metas@),
            rv == regs_view(regs@),
            build_devices(mv, rv) == build_devices_rec(mv, i as int, rv, devices_view(devs@)),
        decreases metas@.len() - i,
    {
        let ghost acc = devices_view(devs@);
        let ghost m = mv[i as int];
        proof {
            assert(m == MetaLine {
                device: metas@[i as int].0@,
                kind: metas@[i as int].1@,
                key: metas@[i as int].2@,
                value: metas@[i as int].3@,
            });
        }
        let name = crate::encoding::clone_bytes(&metas[i].0);
        let key = crate::encoding::clone_bytes(&metas[i].2);
        let value = crate::encoding::clone_bytes(&metas[i].3);
        match find_device(&devs, &name) {
            Some(di) => {
                proof {
                    lemma_device_index(acc, name@);
                }
                let mut entry = devs.remove(di);
                meta_insert_exec(&mut entry.1.metadata, key, value);
                devs.insert(di, entry);
                assert(devices_view(devs@) =~~= acc.update(
                    di as int,
                    (
                        m.device,
                        DeviceModel {
                            kind: acc[di as int].1.kind,
                            register: acc[di as int].1.register,
                            metadata: meta_insert(acc[di as int].1.metadata, m.key, m.value),
                        },
                    ),
                )) by {
                    assert(acc[di as int].0 == m.device);
                };
            },
            None => {
                let kind = crate::encoding::clone_bytes(&metas[i].1);
                let register = reg_lookup_exec(regs, &name);
                let mut metadata: Vec<(Vec<u8>, Vec<u8>)> = Vec::new();
                metadata.push((key, value));
                assert(crate::csl::pairs_view(metadata@) =~= seq![(m.key, m.value)]);
                devs.push((name, Device { kind, register, metadata }));
                assert(devices_view(devs@) =~~= acc.push(
                    (
                        m.device,
                        DeviceModel {
                            kind: m.kind,
                            register: reg_lookup(rv, m.device),
                            metadata: seq![(m.key, m.value)],
                        },
                    ),
                ));
            },
        }
        i += 1;
    }
    devs
}

/// The parsed descriptor: its devices and the raw bitstream bytes that
/// follow the header.
#[verifier::ext_equal]
pub struct FpgModel {
    pub devices: Seq<(Seq<u8>, DeviceModel)>,
    pub bitstream: Seq<u8>,
}

/// What parsing a whole descriptor yields: shebang line, upload marker,
/// register lines, metadata lines, quit marker, then the bitstream.
pub open spec fn parse_fpg(b: Seq<u8>) -> Option<FpgModel> {
    if !tag_at(b, 0, shebang_text()) {
        None
    } else {
        match line_end_at(b, 13) {
            None => None,
            Some(le1) => {
                let p1 = 13 + le1;
                if !tag_at(b, p1, uploadbin_text()) {
                    None
                } else {
                    match line_end_at(b, p1 + 10) {
                        None => None,
                        Some(le2) => {
                            let rr = parse_registers(b, p1 + 10 + le2);
                            let rm = parse_metas(b, rr.1);
                            if !tag_at(b, rm.1, quit_text()) {
                                None
                            } else {
                                match line_end_at(b, rm.1 + 5) {
                                    None => None,
                                    Some(le3) => Some(
                                        FpgModel {
                                            devices: build_devices(rm.0, rr.0),
                                            bitstream: b.skip(rm.1 + 5 + le3),
                                        },
                                    ),
                                }
                            }
                        },
                    }
                }
            },
        }
    }
}

/// Parses a whole descriptor into its device list and bitstream bytes.
///
/// Succeeds and fails exactly as [`parse_fpg`] describes.
pub fn fpg_file(input: &Vec<u8>) -> (r: Option<(Vec<(Vec<u8>, Device)>, Vec<u8>)>)
    ensures
        r matches Some(v) ==> parse_fpg(input@) == Some(
            FpgModel { devices: devices_view(v.0@), bitstream: v.1@ },
        ),
        r is None ==> parse_fpg(input@) is None,
{
    let ghost n = input@.len();
    proof {
        assert(n == input.len());
    }
    let sb = shebang_tag();
    if !check_tag(input, 0, &sb) {
        return None;
    }
    let le1 = match read_line_end(input, 13) {
        Some(v) => v,
        None => {
            return None;
        },
    };
    let p1 = 13 + le1;
    let ub = uploadbin_tag();
    if !check_tag(input, p1, &ub) {
        return None;
    }
    let le2 = match read_line_end(input, p1 + 10) {
        Some(v) => v,
        None => {
            return None;
        },
    };
    let (regs, p3) = read_registers(input, p1 + 10 + le2);
    let (metas, p4) = read_metas(input, p3);
    let qt = quit_tag();
    if !check_tag(input, p4, &qt) {
        return None;
    }
    let le3 = match read_line_end(input, p4 + 5) {
        Some(v) => v,
        None => {
            return None;
        },
    };
    let devices = build_devices_exec(&metas, &regs);
    let bitstream = subvec(input, p4 + 5 + le3, input.len());
    assert(bitstream@ =~= input@.skip(p4 + 5 + le3 as int));
    Some((devices, bitstream))
}

/// The MD5 digest of a byte string, as the reference implementation of the
/// algorithm computes it: 16 bytes.
pub uninterp spec fn md5_of(data: Seq<u8>) -> Seq<u8>;

/// Relies on md5::compute: the digest is a function of the input bytes
/// alone, and is 16 bytes long.
#[verifier::external_body]
fn md5_digest(data: &Vec<u8>) -> (r: Vec<u8>)
    ensures
        r@ == md5_of(data@),
        r@.len() == 16,
{
    md5::compute(data.as_slice()).0.to_vec()
}

/// What a gzip stream inflates to: a function of the compressed bytes
/// alone.
pub uninterp spec fn gzip_inflate(data: Seq<u8>) -> Seq<u8>;

/// Relies on flate2's GzDecoder (read_to_end): inflation is deterministic
/// in the compressed bytes; malformed input is reported as an error.
#[verifier::external_body]
fn gunzip(data: &Vec<u8>) -> (r: Result<Vec<u8>, Error>)
    ensures
        r matches Ok(v) ==> v@ == gzip_inflate(data@),
        r matches Err(e) ==> e == Error::Inflate,
{
    let mut z = flate2::bufread::GzDecoder::new(data.as_slice());
    let mut out = Vec::new();
    match std::io::Read::read_to_end(&mut z, &mut out) {
        Ok(_) => Ok(out),
        Err(_) => Err(Error::Inflate),
    }
}

/// Errors from reading a descriptor.
#[derive(Debug, Clone, Copy, PartialEq, Eq, Structural)]
pub enum Error {
    /// The header did not match the grammar.
    ParseMatch,
    /// The bitstream carried the gzip magic but did not inflate.
    Inflate,
}

/// A parsed descriptor: the device list, the (decompressed) bitstream, the
/// MD5 of the file as stored, and the file's name.
#[derive(Debug)]
pub struct File {
    pub devices: Vec<(Vec<u8>, Device)>,
    pub bitstream: Vec<u8>,
    pub md5: Vec<u8>,
    pub filename: Vec<u8>,
}

/// Whether bytes begin with the gzip magic.
pub open spec fn gzip_magic_at(b: Seq<u8>) -> bool {
    b.len() >= 3 && b[0] == 0x1F && b[1] == 0x8B && b[2] == 0x08
}

/// Reads a descriptor out of the bytes of an `.fpg` file: parses the
/// header, fingerprints the raw bytes with MD5, and inflates the bitstream
/// when it carries the gzip magic.
pub fn read_fpg_bytes(contents: &Vec<u8>, filename: Vec<u8>) -> (r: Result<File, Error>)
    ensures
        r matches Ok(f) ==> parse_fpg(contents@) matches Some(m) && {
            &&& devices_view(f.devices@) == m.devices
            &&& f.md5@ == md5_of(contents@)
            &&& f.md5@.len() == 16
            &&& gzip_magic_at(m.bitstream) ==> f.bitstream@ == gzip_inflate(m.bitstream)
            &&& !gzip_magic_at(m.bitstream) ==> f.bitstream@ == m.bitstream
            &&& f.filename@ == filename@
        },
        (r matches Err(e) && e == Error::ParseMatch) <==> parse_fpg(contents@) is None,
        r matches Err(e) && e == Error::Inflate ==> (parse_fpg(contents@) matches Some(m)
            && gzip_magic_at(m.bitstream)),
{
    let md5 = md5_digest(contents);
    let (devices, bitstream) = match fpg_file(contents) {
        Some(v) => v,
        None => {
            return Err(Error::ParseMatch);
        },
    };
    let bitstream = if bitstream.len() >= 3 && bitstream[0] == 0x1F && bitstream[1] == 0x8B
        && bitstream[2] == 0x08 {
        match gunzip(&bitstream) {
            Ok(v) => v,
            Err(e) => {
                return Err(e);
            },
        }
    } else {
        bitstream
    };
    Ok(File { devices, bitstream, md5, filename })
}

/// The digest spelled in lowercase hexadecimal, each byte printed with
/// `{:x}`: one digit for a byte below 16, two otherwise.
pub open spec fn md5_hex(d: Seq<u8>) -> Seq<u8>
    decreases d.len(),
{
    if d.len() == 0 {
        Seq::<u8>::empty()
    } else {
        crate::encoding::hex_repr(d[0] as int) + md5_hex(d.skip(1))
    }
}

impl File {
    /// The stored fingerprint as hexadecimal text, as it is kept in the
    /// board's flash metadata.
    pub fn md5_string(&self) -> (r: Vec<u8>)
        ensures
            r@ == md5_hex(self.md5@),
    {
        md5_hex_bytes(&self.md5)
    }
}

/// Spells a digest in lowercase hexadecimal, byte by byte.
pub fn md5_hex_bytes(d: &Vec<u8>) -> (r: Vec<u8>)
    ensures
        r@ == md5_hex(d@),
{
    let mut out: Vec<u8> = Vec::new();
    let mut i: usize = 0;
    assert(d@.skip(0) =~= d@);
    assert(out@ + md5_hex(d@) =~= md5_hex(d@));
    while i < d.len()
        invariant
            0 <= i <= d@.len(),
            md5_hex(d@) == out@ + md5_hex(d@.skip(i as int)),
        decreases d@.len() - i,
    {
        let ghost before = out@;
        let digits = crate::encoding::to_hex_bytes(d[i] as u64);
        crate::encoding::append_bytes(&mut out, &digits);
        proof {
            let tail = d@.skip(i as int);
            assert(tail[0] == d@[i as int]);
            assert(md5_hex(tail) == crate::encoding::hex_repr(d@[i as int] as int) + md5_hex(
                tail.skip(1),
            ));
            assert(tail.skip(1) =~= d@.skip(i + 1));
            assert(before + (crate::encoding::hex_repr(d@[i as int] as int) + md5_hex(
                d@.skip(i + 1),
            )) =~= (before + crate::encoding::hex_repr(d@[i as int] as int)) + md5_hex(
                d@.skip(i + 1),
            ));
        }
        i += 1;
    }
    assert(md5_hex(d@.skip(i as int)) =~= Seq::<u8>::empty());
    assert(out@ + Seq::<u8>::empty() =~= out@);
    out
}

/// Whether the register table carries pairwise-distinct addresses, as a
/// well-formed descriptor's table does.
pub open spec fn reg_addrs_distinct(regs: Seq<RegLine>) -> bool {
    forall|i: int, j: int|
        0 <= i < j < regs.len() ==> #[trigger] regs[i].addr != #[trigger] regs[j].addr
}

/// What a register lookup hands back is one of the table's lines, under the
/// name that was looked up.
proof fn lemma_reg_lookup_witness(regs: Seq<RegLine>, name: Seq<u8>)
    requires
        reg_lookup(regs, name) is Some,
    ensures
        exists|k: int|
            0 <= k < regs.len() && (#[trigger] regs[k]).name == name && Some(
                Register { addr: regs[k].addr, size: regs[k].size },
            ) == reg_lookup(regs, name),
    decreases regs.len(),
{
    if regs.last().name == name {
        assert(regs[regs.len() - 1].name == name);
    } else {
        lemma_reg_lookup_witness(regs.drop_last(), name);
        let k = choose|k: int|
            0 <= k < regs.drop_last().len() && (#[trigger] regs.drop_last()[k]).name == name
                && Some(
                Register { addr: regs.drop_last()[k].addr, size: regs.drop_last()[k].size },
            ) == reg_lookup(regs.drop_last(), name);
        assert(regs[k] == regs.drop_last()[k]);
    }
}

/// The shape every device list built by the fold has: device names are
/// pairwise distinct, and each attached register is the lookup of its own
/// device's name.
spec fn devices_well_formed(devs: Seq<(Seq<u8>, DeviceModel)>, regs: Seq<RegLine>) -> bool {
    &&& forall|i: int, j: int| 0 <= i < j < devs.len() ==> (#[trigger] devs[i]).0 != (
    #[trigger] devs[j]).0
    &&& forall|i: int|
        0 <= i < devs.len() ==> (#[trigger] devs[i]).1.register is Some ==> reg_lookup(
            regs,
            devs[i].0,
        ) == devs[i].1.register
}

proof fn lemma_build_devices_well_formed(
    metas: Seq<MetaLine>,
    i: int,
    regs: Seq<RegLine>,
    acc: Seq<(Seq<u8>, DeviceModel)>,
)
    requires
        devices_well_formed(acc, regs),
    ensures
        devices_well_formed(build_devices_rec(metas, i, regs, acc), regs),
    decreases metas.len() - i,
{
    if 0 <= i < metas.len() {
        let m = metas[i];
        match device_index(acc, m.device) {
            Some(di) => {
                lemma_device_index(acc, m.device);
                let acc2 = acc.update(
                    di,
                    (
                        m.device,
                        DeviceModel {
                            kind: acc[di].1.kind,
                            register: acc[di].1.register,
                            metadata: meta_insert(acc[di].1.metadata, m.key, m.value),
                        },
                    ),
                );
                assert(acc2[di].0 == acc[di].0);
                assert(forall|j: int| 0 <= j < acc2.len() && j != di ==> acc2[j] == acc[j]);
                assert(devices_well_formed(acc2, regs));
                lemma_build_devices_well_formed(metas, i + 1, regs, acc2);
            },
            None => {
                lemma_device_index(acc, m.device);
                let acc2 = acc.push(
                    (
                        m.device,
                        DeviceModel {
                            kind: m.kind,
                            register: reg_lookup(regs, m.device),
                            metadata: seq![(m.key, m.value)],
                        },
                    ),
                );
                assert(forall|j: int| 0 <= j < acc.len() ==> acc2[j] == acc[j]);
                assert(acc2[acc.len() as int].0 == m.device);
                assert(devices_well_formed(acc2, regs));
                lemma_build_devices_well_formed(metas, i + 1, regs, acc2);
            },
        }
    }
}

/// Register addresses are unique across a parsed descriptor's devices:
/// whenever the descriptor's register table carries pairwise-distinct
/// addresses, no two devices built from its lines hold registers with the
/// same address. (A table with two names at one address defeats this, which
/// is why the table's own distinctness is assumed.)
pub proof fn lemma_device_register_addrs_unique(metas: Seq<MetaLine>, regs: Seq<RegLine>)
    requires
        reg_addrs_distinct(regs),
    ensures
        forall|i: int, j: int|
            0 <= i < j < build_devices(metas, regs).len() && (#[trigger] build_devices(
                metas,
                regs,
            )[i]).1.register is Some && (#[trigger] build_devices(metas, regs)[j]).1.register
                is Some ==> build_devices(metas, regs)[i].1.register->0.addr != build_devices(
                metas,
                regs,
            )[j].1.register->0.addr,
{
    let devs = build_devices(metas, regs);
    assert(devices_well_formed(seq![], regs));
    lemma_build_devices_well_formed(metas, 0, regs, seq![]);
    assert forall|i: int, j: int|
        0 <= i < j < devs.len() && (#[trigger] devs[i]).1.register is Some && (
        #[trigger] devs[j]).1.register is Some implies devs[i].1.register->0.addr
        != devs[j].1.register->0.addr by {
        assert(reg_lookup(regs, devs[i].0) == devs[i].1.register);
        assert(reg_lookup(regs, devs[j].0) == devs[j].1.register);
        lemma_reg_lookup_witness(regs, devs[i].0);
        lemma_reg_lookup_witness(regs, devs[j].0);
        let ki = choose|k: int|
            0 <= k < regs.len() && (#[trigger] regs[k]).name == devs[i].0 && Some(
                Register { addr: regs[k].addr, size: regs[k].size },
            ) == reg_lookup(regs, devs[i].0);
        let kj = choose|k: int|
            0 <= k < regs.len() && (#[trigger] regs[k]).name == devs[j].0 && Some(
                Register { addr: regs[k].addr, size: regs[k].size },
            ) == reg_lookup(regs, devs[j].0);
        assert(devs[i].0 != devs[j].0);
        assert(ki != kj);
        assert(regs[ki].addr != regs[kj].addr);
    };
}

} // verus!
