//! The compact sorted list ("CSL") codec. The board's device directory is
//! served in this form: a shared payload length, then `(key, payload)`
//! entries in which each key names how many leading bytes it shares with its
//! predecessor and spells only its own tail.

use vstd::prelude::*;

use crate::encoding::{append_bytes, clone_bytes, is_utf8, subvec, utf8_check};

verus! {

/// Errors from reading a CSL blob.
#[derive(Debug, Clone, Copy, PartialEq, Eq, Structural)]
pub enum Error {
    /// Truncated or malformed input.
    Parse,
    /// A decoded key is not valid UTF-8.
    Utf8,
}

/// The byte-sequence view of a list of `(key, payload)` pairs.
pub open spec fn pairs_view(s: Seq<(Vec<u8>, Vec<u8>)>) -> Seq<(Seq<u8>, Seq<u8>)> {
    s.map_values(|pr: (Vec<u8>, Vec<u8>)| (pr.0@, pr.1@))
}

/// Decodes the entries that follow the first one. `ptr` is the next unread
/// position, `p` the shared payload length, `prev` the key decoded last, and
/// `acc` the entries decoded so far.
pub open spec fn csl_rest(
    b: Seq<u8>,
    ptr: int,
    p: int,
    prev: Seq<u8>,
    acc: Seq<(Seq<u8>, Seq<u8>)>,
) -> Result<Seq<(Seq<u8>, Seq<u8>)>, Error>
    decreases b.len() - ptr,
{
    if ptr < 0 || p < 0 || ptr + 2 > b.len() {
        Err(Error::Parse)
    } else {
        let h = b[ptr] as int;
        let t = b[ptr + 1] as int;
        if h == 0 && t == 0 {
            Ok(acc)
        } else if h > prev.len() {
            Err(Error::Parse)
        } else if ptr + 2 + t > b.len() {
            Err(Error::Parse)
        } else {
            let key = prev.take(h) + b.subrange(ptr + 2, ptr + 2 + t);
            if !is_utf8(key) {
                Err(Error::Utf8)
            } else if ptr + 2 + t + p > b.len() {
                Err(Error::Parse)
            } else {
                let pl = b.subrange(ptr + 2 + t, ptr + 2 + t + p);
                csl_rest(b, ptr + 2 + t + p, p, key, acc.push((key, pl)))
            }
        }
    }
}

/// What decoding a CSL blob yields: the entries in order of appearance, or
/// the exact error reported for these bytes.
pub open spec fn csl_decode(b: Seq<u8>) -> Result<Seq<(Seq<u8>, Seq<u8>)>, Error> {
    if b.len() < 2 {
        Err(Error::Parse)
    } else {
        let p = b[0] as int;
        let k0 = b[1] as int;
        if 2 + k0 > b.len() {
            Err(Error::Parse)
        } else {
            let key0 = b.subrange(2, 2 + k0);
            if !is_utf8(key0) {
                Err(Error::Utf8)
            } else if 2 + k0 + p > b.len() {
                Err(Error::Parse)
            } else {
                let pl0 = b.subrange(2 + k0, 2 + k0 + p);
                csl_rest(b, 2 + k0 + p, p, key0, seq![(key0, pl0)])
            }
        }
    }
}

/// Reads a CSL blob into its `(key, payload)` entries.
///
/// Succeeds and fails exactly as [`csl_decode`] describes.
pub fn from_bytes(bytes: &Vec<u8>) -> (r: Result<Vec<(Vec<u8>, Vec<u8>)>, Error>)
    ensures
        r matches Ok(v) ==> csl_decode(bytes@) == Ok::<_, Error>(pairs_view(v@)),
        r matches Err(e) ==> csl_decode(bytes@) == Err::<Seq<(Seq<u8>, Seq<u8>)>, _>(e),
{
    let n = bytes.len();
    if n < 2 {
        return Err(Error::Parse);
    }
    let p = bytes[0] as usize;
    let k0 = bytes[1] as usize;
    if n - 2 < k0 {
        return Err(Error::Parse);
    }
    let key0 = subvec(bytes, 2, 2 + k0);
    if !utf8_check(&key0) {
        return Err(Error::Utf8);
    }
    if n - (2 + k0) < p {
        return Err(Error::Parse);
    }
    let pl0 = subvec(bytes, 2 + k0, 2 + k0 + p);
    let mut acc: Vec<(Vec<u8>, Vec<u8>)> = Vec::new();
    let mut prev = clone_bytes(&key0);
    acc.push((key0, pl0));
    let mut ptr: usize = 2 + k0 + p;
    assert(pairs_view(acc@) =~= seq![(bytes@.subrange(2, 2 + k0 as int), bytes@.subrange(
        2 + k0 as int, 2 + k0 + p as int))]);
    loop
        invariant
            ptr <= n,
            n == bytes@.len(),
            p <= 255,
            csl_decode(bytes@) == csl_rest(bytes@, ptr as int, p as int, prev@, pairs_view(acc@)),
        decreases n - ptr,
    {
        if n - ptr < 2 {
            return Err(Error::Parse);
        }
        let h = bytes[ptr] as usize;
        let t = bytes[ptr + 1] as usize;
        if h == 0 && t == 0 {
            return Ok(acc);
        }
        if h > prev.len() {
            return Err(Error::Parse);
        }
        if n - (ptr + 2) < t {
            return Err(Error::Parse);
        }
        let tail = subvec(bytes, ptr + 2, ptr + 2 + t);
        let mut key = subvec(&prev, 0, h);
        append_bytes(&mut key, &tail);
        assert(key@ =~= prev@.take(h as int) + bytes@.subrange(ptr + 2, ptr + 2 + t));
        if !utf8_check(&key) {
            return Err(Error::Utf8);
        }
        if n - (ptr + 2 + t) < p {
            return Err(Error::Parse);
        }
        let pl = subvec(bytes, ptr + 2 + t, ptr + 2 + t + p);
        let ghost old_pairs = pairs_view(acc@);
        prev = clone_bytes(&key);
        acc.push((key, pl));
        assert(pairs_view(acc@) =~= old_pairs.push((prev@, bytes@.subrange(
            ptr + 2 + t as int, ptr + 2 + t + p as int))));
        ptr = ptr + 2 + t + p;
    }
}


/// The number of leading bytes two sequences share.
pub open spec fn common_prefix_len(a: Seq<u8>, b: Seq<u8>) -> int
    decreases a.len(),
{
    if a.len() == 0 || b.len() == 0 || a[0] != b[0] {
        0
    } else {
        1 + common_prefix_len(a.skip(1), b.skip(1))
    }
}

proof fn lemma_common_prefix_len(a: Seq<u8>, b: Seq<u8>)
    ensures
        0 <= common_prefix_len(a, b) <= a.len(),
        common_prefix_len(a, b) <= b.len(),
        a.take(common_prefix_len(a, b)) == b.take(common_prefix_len(a, b)),
    decreases a.len(),
{
    let c = common_prefix_len(a, b);
    if a.len() == 0 || b.len() == 0 || a[0] != b[0] {
        assert(a.take(0) =~= b.take(0));
    } else {
        lemma_common_prefix_len(a.skip(1), b.skip(1));
        let c1 = common_prefix_len(a.skip(1), b.skip(1));
        assert forall|j: int| 0 <= j < c implies a[j] == b[j] by {
            if j > 0 {
                assert(a.skip(1).take(c1)[j - 1] == b.skip(1).take(c1)[j - 1]);
                assert(a.skip(1)[j - 1] == a[j]);
                assert(b.skip(1)[j - 1] == b[j]);
            }
        };
        assert(a.take(c) =~= b.take(c));
    }
}

/// Proves the value of `common_prefix_len` from a witness.
proof fn lemma_common_prefix_val(a: Seq<u8>, b: Seq<u8>, c: int)
    requires
        0 <= c <= a.len(),
        c <= b.len(),
        forall|j: int| 0 <= j < c ==> a[j] == b[j],
        c < a.len() && c < b.len() ==> a[c] != b[c],
        c == a.len() || c == b.len() || a[c] != b[c],
    ensures
        common_prefix_len(a, b) == c,
    decreases a.len(),
{
    if a.len() == 0 || b.len() == 0 || a[0] != b[0] {
    } else {
        assert(forall|j: int|
            0 <= j < c - 1 ==> a.skip(1)[j] == a[j + 1] && b.skip(1)[j] == b[j + 1]);
        assert(c - 1 < a.skip(1).len() && c - 1 < b.skip(1).len() ==> a.skip(1)[c - 1] != b.skip(
            1,
        )[c - 1]);
        lemma_common_prefix_val(a.skip(1), b.skip(1), c - 1);
    }
}

/// Computes the length of the shared leading run of two byte vectors.
pub fn common_prefix(a: &Vec<u8>, b: &Vec<u8>) -> (r: usize)
    ensures
        r == common_prefix_len(a@, b@),
{
    let mut i: usize = 0;
    loop
        invariant
            0 <= i <= a@.len(),
            i <= b@.len(),
            forall|j: int| 0 <= j < i ==> a@[j] == b@[j],
        decreases a@.len() - i,
    {
        if i < a.len() && i < b.len() && a[i] == b[i] {
            i += 1;
        } else {
            proof {
                lemma_common_prefix_val(a@, b@, i as int);
            }
            return i;
        }
    }
}

/// The encoded form of one shared-prefix entry, given the key before it.
pub open spec fn csl_entry_bytes(prev: Seq<u8>, key: Seq<u8>, pl: Seq<u8>) -> Seq<u8> {
    let h = common_prefix_len(prev, key);
    seq![h as u8, (key.len() - h) as u8] + key.skip(h) + pl
}

/// The encoded entries from index `i` on, ending with the terminator.
pub open spec fn csl_tail_bytes(l: Seq<(Seq<u8>, Seq<u8>)>, i: int) -> Seq<u8>
    decreases l.len() - i,
{
    if i < 1 || i >= l.len() {
        seq![0u8, 0u8]
    } else {
        csl_entry_bytes(l[i - 1].0, l[i].0, l[i].1) + csl_tail_bytes(l, i + 1)
    }
}

/// The whole encoded blob of a list of entries.
pub open spec fn csl_encoding(l: Seq<(Seq<u8>, Seq<u8>)>) -> Seq<u8> {
    seq![l[0].1.len() as u8, l[0].0.len() as u8] + l[0].0 + l[0].1 + csl_tail_bytes(l, 1)
}

/// What the format's one-byte length fields force on a list for it to have
/// an encoding: at least one entry, payloads of one shared length up to 255,
/// keys of up to 255 UTF-8 bytes, and no empty key after the first.
pub open spec fn csl_encodable(l: Seq<(Seq<u8>, Seq<u8>)>) -> bool {
    &&& l.len() >= 1
    &&& l[0].1.len() <= 255
    &&& forall|i: int| 0 <= i < l.len() ==> #[trigger] l[i].1.len() == l[0].1.len()
    &&& forall|i: int| 0 <= i < l.len() ==> #[trigger] l[i].0.len() <= 255
    &&& forall|i: int| 1 <= i < l.len() ==> #[trigger] l[i].0.len() >= 1
    &&& forall|i: int| 0 <= i < l.len() ==> is_utf8(#[trigger] l[i].0)
}

/// Encodes a list of `(key, payload)` entries as a CSL blob, sharing each
/// key's common prefix with its predecessor.
pub fn to_bytes(entries: &Vec<(Vec<u8>, Vec<u8>)>) -> (r: Vec<u8>)
    requires
        csl_encodable(pairs_view(entries@)),
    ensures
        r@ == csl_encoding(pairs_view(entries@)),
{
    let ghost l = pairs_view(entries@);
    assert(forall|i: int| 0 <= i < l.len() ==> l[i] == (entries@[i].0@, entries@[i].1@));
    let mut out: Vec<u8> = Vec::new();
    let p = entries[0].1.len();
    out.push(p as u8);
    out.push(entries[0].0.len() as u8);
    append_bytes(&mut out, &entries[0].0);
    append_bytes(&mut out, &entries[0].1);
    assert(out@ =~= seq![l[0].1.len() as u8, l[0].0.len() as u8] + l[0].0 + l[0].1);
    let mut i: usize = 1;
    while i < entries.len()
        invariant
            1 <= i <= entries@.len(),
            l == pairs_view(entries@),
            csl_encodable(l),
            csl_encoding(l) == out@ + csl_tail_bytes(l, i as int),
        decreases entries@.len() - i,
    {
        let ghost out_before = out@;
        let h = common_prefix(&entries[i - 1].0, &entries[i].0);
        let key_len = entries[i].0.len();
        assert(h <= key_len) by {
            lemma_common_prefix_len(entries@[i - 1].0@, entries@[i as int].0@);
        };
        out.push(h as u8);
        out.push((key_len - h) as u8);
        let tail = subvec(&entries[i].0, h, key_len);
        append_bytes(&mut out, &tail);
        append_bytes(&mut out, &entries[i].1);
        proof {
            assert(tail@ =~= l[i as int].0.skip(h as int));
            assert(out@ =~= out_before + csl_entry_bytes(l[i - 1].0, l[i as int].0, l[i as int].1));
            assert(csl_tail_bytes(l, i as int) == csl_entry_bytes(
                l[i - 1].0,
                l[i as int].0,
                l[i as int].1,
            ) + csl_tail_bytes(l, i + 1));
            assert(out_before + (csl_entry_bytes(l[i - 1].0, l[i as int].0, l[i as int].1)
                + csl_tail_bytes(l, i + 1)) =~= (out_before + csl_entry_bytes(
                l[i - 1].0,
                l[i as int].0,
                l[i as int].1,
            )) + csl_tail_bytes(l, i + 1));
        }
        i += 1;
    }
    out.push(0);
    out.push(0);
    proof {
        assert(csl_tail_bytes(l, i as int) == seq![0u8, 0u8]);
        assert(out@ =~= csl_encoding(l));
    }
    out
}

/// Decoding walks the encoded tail back to the full list.
proof fn lemma_csl_rest_of_encoding(b: Seq<u8>, l: Seq<(Seq<u8>, Seq<u8>)>, i: int, ptr: int)
    requires
        csl_encodable(l),
        1 <= i <= l.len(),
        0 <= ptr <= b.len(),
        b.skip(ptr) == csl_tail_bytes(l, i),
    ensures
        csl_rest(b, ptr, l[0].1.len() as int, l[i - 1].0, l.take(i)) == Ok::<_, Error>(l),
    decreases l.len() - i,
{
    let p = l[0].1.len() as int;
    let suffix = b.skip(ptr);
    assert(forall|j: int| 0 <= j < suffix.len() ==> suffix[j] == b[ptr + j]);
    if i == l.len() {
        assert(suffix =~= seq![0u8, 0u8]);
        assert(b.len() - ptr == 2);
        assert(b[ptr] == 0 && b[ptr + 1] == 0);
        assert(l.take(i) =~= l);
    } else {
        let prev = l[i - 1].0;
        let key = l[i].0;
        let pl = l[i].1;
        let h = common_prefix_len(prev, key);
        lemma_common_prefix_len(prev, key);
        let t = key.len() - h;
        let entry = csl_entry_bytes(prev, key, pl);
        let hdr = seq![h as u8, (t) as u8];
        assert(entry == hdr + key.skip(h) + pl);
        assert(entry.len() == 2 + t + p);
        assert(suffix == entry + csl_tail_bytes(l, i + 1));
        assert(forall|j: int| 0 <= j < entry.len() ==> #[trigger] suffix[j] == entry[j]);
        assert(suffix[0] == b[ptr] && suffix[1] == b[ptr + 1]);
        assert(entry[0] == ((hdr + key.skip(h)) + pl)[0] && entry[1] == ((hdr + key.skip(h))
            + pl)[1]);
        assert(entry[0] == h as u8 && entry[1] == t as u8);
        assert(b[ptr] == h as u8 && b[ptr + 1] == t as u8);
        assert(key.len() >= 1);
        assert(!(h == 0 && t == 0));
        assert(h <= prev.len());
        assert(ptr + 2 + t + p <= b.len());
        let dec_tail = b.subrange(ptr + 2, ptr + 2 + t);
        assert forall|j: int| 0 <= j < t implies dec_tail[j] == key.skip(h)[j] by {
            assert(dec_tail[j] == b[ptr + 2 + j]);
            assert(suffix[2 + j] == b[ptr + 2 + j]);
            assert(suffix[2 + j] == entry[2 + j]);
            assert(entry[2 + j] == ((hdr + key.skip(h)) + pl)[2 + j]);
            assert(entry[2 + j] == key.skip(h)[j]);
        };
        assert(dec_tail =~= key.skip(h));
        let dec_key = prev.take(h) + dec_tail;
        assert(dec_key =~= key) by {
            assert(prev.take(h) == key.take(h));
            assert(key.take(h) + key.skip(h) =~= key);
        };
        assert(is_utf8(dec_key));
        let dec_pl = b.subrange(ptr + 2 + t, ptr + 2 + t + p);
        assert forall|j: int| 0 <= j < p implies dec_pl[j] == pl[j] by {
            assert(dec_pl[j] == b[ptr + 2 + t + j]);
            assert(suffix[2 + t + j] == b[ptr + 2 + t + j]);
            assert(suffix[2 + t + j] == entry[2 + t + j]);
            assert(entry[2 + t + j] == ((hdr + key.skip(h)) + pl)[2 + t + j]);
            assert(entry[2 + t + j] == pl[j]);
        };
        assert(dec_pl =~= pl);
        assert(l.take(i).push((dec_key, dec_pl)) =~= l.take(i + 1));
        let tail2 = csl_tail_bytes(l, i + 1);
        assert forall|j: int| 0 <= j < tail2.len() implies b.skip(ptr + 2 + t + p)[j] == tail2[j]
            by {
            assert(b.skip(ptr + 2 + t + p)[j] == b[ptr + 2 + t + p + j]);
            assert(suffix[entry.len() + j] == b[ptr + entry.len() + j]);
            assert(suffix[entry.len() + j] == (entry + tail2)[entry.len() + j]);
            assert((entry + tail2)[entry.len() + j] == tail2[j]);
        };
        assert(b.skip(ptr + 2 + t + p) =~= tail2);
        lemma_csl_rest_of_encoding(b, l, i + 1, ptr + 2 + t + p);
        assert(csl_rest(b, ptr, p, prev, l.take(i)) == csl_rest(
            b,
            ptr + 2 + t + p,
            p,
            dec_key,
            l.take(i).push((dec_key, dec_pl)),
        ));
    }
}

/// Re-encoding round trip: any list the one-byte length fields can carry
/// decodes back, entry for entry, from its own encoding.
pub proof fn lemma_csl_round_trip(l: Seq<(Seq<u8>, Seq<u8>)>)
    requires
        csl_encodable(l),
    ensures
        csl_decode(csl_encoding(l)) == Ok::<_, Error>(l),
{
    let b = csl_encoding(l);
    let p = l[0].1.len() as int;
    let k0 = l[0].0.len() as int;
    let head = seq![l[0].1.len() as u8, l[0].0.len() as u8] + l[0].0 + l[0].1;
    assert(b == head + csl_tail_bytes(l, 1));
    assert(head.len() == 2 + k0 + p);
    assert(forall|j: int| 0 <= j < head.len() ==> b[j] == head[j]);
    assert(b.len() >= 2 + k0 + p + 2);
    assert(b[0] == p as u8 && b[1] == k0 as u8);
    let key0 = b.subrange(2, 2 + k0);
    assert(key0 =~= l[0].0) by {
        assert(forall|j: int| 0 <= j < k0 ==> key0[j] == b[2 + j] && head[2 + j] == l[0].0[j]);
    };
    let pl0 = b.subrange(2 + k0, 2 + k0 + p);
    assert(pl0 =~= l[0].1) by {
        assert(forall|j: int|
            0 <= j < p ==> pl0[j] == b[2 + k0 + j] && head[2 + k0 + j] == l[0].1[j]);
    };
    assert(is_utf8(key0));
    assert(b.skip(2 + k0 + p) =~= csl_tail_bytes(l, 1)) by {
        assert(forall|j: int|
            0 <= j < csl_tail_bytes(l, 1).len() ==> #[trigger] b.skip(2 + k0 + p)[j] == b[2 + k0
                + p + j]);
    };
    lemma_csl_rest_of_encoding(b, l, 1, 2 + k0 + p);
    assert(seq![(key0, pl0)] =~= l.take(1));
}

/// Every list a blob decodes to is within the length fields' reach, except
/// possibly for keys grown past 255 bytes by prefix sharing.
proof fn lemma_csl_rest_props(
    b: Seq<u8>,
    ptr: int,
    p: int,
    prev: Seq<u8>,
    acc: Seq<(Seq<u8>, Seq<u8>)>,
    l: Seq<(Seq<u8>, Seq<u8>)>,
)
    requires
        csl_rest(b, ptr, p, prev, acc) == Ok::<_, Error>(l),
        acc.len() >= 1,
        p <= 255,
        acc[0].1.len() == p,
        forall|i: int| 0 <= i < acc.len() ==> #[trigger] acc[i].1.len() == p,
        forall|i: int| 1 <= i < acc.len() ==> #[trigger] acc[i].0.len() >= 1,
        forall|i: int| 0 <= i < acc.len() ==> is_utf8(#[trigger] acc[i].0),
    ensures
        l.len() >= acc.len(),
        l[0].1.len() == p,
        forall|i: int| 0 <= i < l.len() ==> #[trigger] l[i].1.len() == p,
        forall|i: int| 1 <= i < l.len() ==> #[trigger] l[i].0.len() >= 1,
        forall|i: int| 0 <= i < l.len() ==> is_utf8(#[trigger] l[i].0),
    decreases b.len() - ptr,
{
    let h = b[ptr] as int;
    let t = b[ptr + 1] as int;
    if h == 0 && t == 0 {
    } else {
        let key = prev.take(h) + b.subrange(ptr + 2, ptr + 2 + t);
        let pl = b.subrange(ptr + 2 + t, ptr + 2 + t + p);
        assert(key.len() == h + t >= 1);
        assert(pl.len() == p);
        let acc2 = acc.push((key, pl));
        assert forall|i: int| 0 <= i < acc2.len() implies #[trigger] acc2[i].1.len() == p by {
            if i < acc.len() {
                assert(acc[i].1.len() == p);
                assert(acc2[i] == acc[i]);
            } else {
                assert(acc2[i] == (key, pl));
            }
        };
        assert forall|i: int| 1 <= i < acc2.len() implies #[trigger] acc2[i].0.len() >= 1 by {
            if i < acc.len() {
                assert(acc[i].0.len() >= 1);
                assert(acc2[i] == acc[i]);
            } else {
                assert(acc2[i] == (key, pl));
            }
        };
        assert forall|i: int| 0 <= i < acc2.len() implies is_utf8(#[trigger] acc2[i].0) by {
            if i < acc.len() {
                assert(is_utf8(acc[i].0));
                assert(acc2[i] == acc[i]);
            } else {
                assert(acc2[i] == (key, pl));
            }
        };
        lemma_csl_rest_props(b, ptr + 2 + t + p, p, key, acc2, l);
    }
}

/// The property the device directory relies on: whenever a CSL blob decodes
/// to a list whose keys all fit the one-byte length fields, re-encoding that
/// list with prefix sharing yields a blob that decodes back to the very same
/// list. (The blob itself need not be byte-identical.)
pub proof fn lemma_csl_reencode(b: Seq<u8>, l: Seq<(Seq<u8>, Seq<u8>)>)
    requires
        csl_decode(b) == Ok::<_, Error>(l),
        forall|i: int| 0 <= i < l.len() ==> #[trigger] l[i].0.len() <= 255,
    ensures
        csl_encodable(l),
        csl_decode(csl_encoding(l)) == Ok::<_, Error>(l),
{
    let p = b[0] as int;
    let k0 = b[1] as int;
    let key0 = b.subrange(2, 2 + k0);
    let pl0 = b.subrange(2 + k0, 2 + k0 + p);
    lemma_csl_rest_props(b, 2 + k0 + p, p, key0, seq![(key0, pl0)], l);
    lemma_csl_round_trip(l);
}

} // verus!
