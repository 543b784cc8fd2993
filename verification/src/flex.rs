//! Structural checks and field extraction on encoded keyed-map payloads.
//!
//! The encoding itself belongs to the payload library; the core only asks
//! whether a payload is a well-formed keyed map and what its named fields
//! hold.  Each answer is a function of the payload bytes alone, named here
//! so contracts can speak of it exactly.
//!
//! The payload library bounds-checks its root and map headers, but indexing
//! into a map trusts the key-vector length and string lengths it read from
//! the buffer, and a crafted payload can make those reads run past the end
//! of the buffer.  Inbound payloads are arbitrary bytes, so before any map
//! is indexed the verified `flex_map_in_bounds` check below recomputes the
//! header arithmetic with checked operations and confirms that the key and
//! value vectors lie inside the buffer; string and blob reads, whose
//! claimed lengths enter an unchecked address addition, are additionally
//! guarded by comparing that length against the buffer.  A payload that
//! fails a check is treated as structurally invalid, never indexed.

use vstd::prelude::*;

verus! {

/// Whether the buffer's root is a well-formed keyed map.
pub uninterp spec fn flex_root_is_map(b: Seq<u8>) -> bool;

/// The flexbuffer encoding of one boolean at the root: the value byte,
/// then the packed type byte of an inline byte-wide bool, then the root
/// width byte.
pub open spec fn flex_singleton_bool(v: bool) -> Seq<u8> {
    seq![(if v { 1u8 } else { 0u8 }), 104u8, 1u8]
}

/// The `uid` string of a new-receiver payload, if the payload is a keyed
/// map carrying one.
pub uninterp spec fn new_receiver_uid(b: Seq<u8>) -> Option<Seq<char>>;

/// The string a payload's root holds, if its root is a string.
pub uninterp spec fn flex_root_str(b: Seq<u8>) -> Option<Seq<char>>;

/// The `uid` string and `data` bytes of a transmitted-datum payload, if the
/// payload is a keyed map carrying both.
pub uninterp spec fn pulse_data_fields(b: Seq<u8>) -> Option<(Seq<char>, Seq<u8>)>;

/// The little-endian unsigned integer held in `width` bytes at `addr`.
pub open spec fn le_bytes(b: Seq<u8>, addr: int, width: int) -> int
    decreases width,
{
    if width <= 0 {
        0
    } else {
        b[addr] + 256 * le_bytes(b, addr + 1, width - 1)
    }
}

pub open spec fn pow256(w: int) -> int
    decreases w,
{
    if w <= 0 {
        1
    } else {
        256 * pow256(w - 1)
    }
}

proof fn lemma_le_bytes_range(b: Seq<u8>, addr: int, width: int)
    requires
        0 <= width,
    ensures
        0 <= le_bytes(b, addr, width) < pow256(width),
    decreases width,
{
    if width > 0 {
        lemma_le_bytes_range(b, addr + 1, width - 1);
    }
}

proof fn lemma_pow256_pos(w: int)
    ensures
        pow256(w) >= 1,
    decreases w,
{
    if w > 0 {
        lemma_pow256_pos(w - 1);
    }
}

proof fn lemma_pow256_mono(a: int, c: int)
    requires
        0 <= a <= c,
    ensures
        pow256(a) <= pow256(c),
    decreases c,
{
    if a < c {
        lemma_pow256_mono(a, c - 1);
        lemma_pow256_pos(c - 1);
    }
}

proof fn lemma_pow256_concrete()
    ensures
        pow256(7) == 0x100000000000000,
        pow256(8) == 0x10000000000000000,
{
    assert(pow256(0) == 1);
    assert(pow256(1) == 256);
    assert(pow256(2) == 0x10000);
    assert(pow256(3) == 0x1000000);
    assert(pow256(4) == 0x100000000);
    assert(pow256(5) == 0x10000000000);
    assert(pow256(6) == 0x1000000000000);
    assert(pow256(7) == 0x100000000000000);
    assert(pow256(8) == 0x10000000000000000);
}

/// Read the little-endian value of `width` bytes at `addr`.
fn read_le_bytes(data: &Vec<u8>, addr: usize, width: usize) -> (r: u64)
    requires
        addr + width <= data@.len(),
        width <= 8,
    ensures
        r as int == le_bytes(data@, addr as int, width as int),
{
    let n: usize = data.len();
    let mut r: u64 = 0;
    let mut j: usize = width;
    while j > 0
        invariant
            j <= width,
            width <= 8,
            n == data@.len(),
            addr + width <= n,
            r as int == le_bytes(data@, addr + j, width - j),
            (r as int) < pow256(width - j),
        decreases j,
    {
        j = j - 1;
        proof {
            lemma_pow256_mono(width - j - 1, 7);
            lemma_pow256_concrete();
        }
        r = r * 256 + (data[addr + j] as u64);
    }
    r
}

/// Whether `n` is a valid flexbuffer width in bytes.
pub open spec fn valid_nbytes(n: int) -> bool {
    n == 1 || n == 2 || n == 4 || n == 8
}

/// Bytes per width code (the low two bits of a packed type byte).
pub open spec fn nbytes_of_code(c: int) -> int {
    if c == 0 {
        1
    } else if c == 1 {
        2
    } else if c == 2 {
        4
    } else {
        8
    }
}

/// Mirrors the payload library's root and map header arithmetic: true
/// unless the bytes parse as a map whose key-offset vector, value vector or
/// type vector would reach past the end of the buffer.  Every case in which
/// the library itself refuses the header with a checked error is `true`
/// here: only a header it would accept and then index out of bounds is
/// rejected.
pub open spec fn flex_map_vectors_bounded(b: Seq<u8>) -> bool {
    let n = b.len() as int;
    if n < 3 {
        true
    } else {
        let rw = b[n - 1] as int;
        let t = b[n - 2] as int / 4;
        let wb = nbytes_of_code(b[n - 2] as int % 4);
        if !valid_nbytes(rw) || t != 9 || n - 2 - rw < 0 {
            true
        } else {
            let root_addr = n - 2 - rw;
            let off = le_bytes(b, root_addr, rw);
            if off > root_addr {
                true
            } else {
                let m = root_addr - off;
                if 3 * wb >= m {
                    true
                } else {
                    let kw = le_bytes(b, m - 2 * wb, wb);
                    let koa = m - 3 * wb;
                    let koff = le_bytes(b, koa, wb);
                    if !valid_nbytes(kw) || koff > koa {
                        true
                    } else {
                        let ka = koa - koff;
                        let length = le_bytes(b, m - wb, wb);
                        length <= (n - ka) / kw && length <= (n - m) / (wb + 1)
                    }
                }
            }
        }
    }
}

/// The verified pre-check run on every inbound payload before its map is
/// indexed.
pub fn flex_map_in_bounds(data: &Vec<u8>) -> (r: bool)
    ensures
        r == flex_map_vectors_bounded(data@),
{
    let n: usize = data.len();
    if n < 3 {
        return true;
    }
    let rw: usize = data[n - 1] as usize;
    let tb: u8 = data[n - 2];
    let t: u8 = tb / 4;
    let wcode: u8 = tb % 4;
    let wb: usize = if wcode == 0 {
        1
    } else if wcode == 1 {
        2
    } else if wcode == 2 {
        4
    } else {
        8
    };
    if !(rw == 1 || rw == 2 || rw == 4 || rw == 8) || t != 9 || n - 2 < rw {
        return true;
    }
    let root_addr: usize = n - 2 - rw;
    let off: u64 = read_le_bytes(data, root_addr, rw);
    if off > root_addr as u64 {
        return true;
    }
    let m: usize = root_addr - (off as usize);
    if 3 * wb >= m {
        return true;
    }
    let kw_raw: u64 = read_le_bytes(data, m - 2 * wb, wb);
    let koa: usize = m - 3 * wb;
    let koff: u64 = read_le_bytes(data, koa, wb);
    if !(kw_raw == 1 || kw_raw == 2 || kw_raw == 4 || kw_raw == 8) || koff > koa as u64 {
        return true;
    }
    let kw: usize = kw_raw as usize;
    let ka: usize = koa - (koff as usize);
    let length: u64 = read_le_bytes(data, m - wb, wb);
    length <= ((n - ka) as u64) / (kw as u64) && length <= ((n - m) as u64) / ((wb + 1) as u64)
}

/// Relies on flexbuffers::Reader::get_root and Reader::get_map: whether the
/// buffer's root is a well-formed keyed map.  Both bounds-check every read.
#[verifier::external_body]
pub(crate) fn flex_check_map(data: &Vec<u8>) -> (r: bool)
    ensures
        r == flex_root_is_map(data@),
{
    flexbuffers::Reader::get_root(data.as_slice()).and_then(|f| f.get_map()).is_ok()
}

/// Relies on flexbuffers::Builder::build_singleton: one inline bool is
/// stored as its value byte followed by the packed type byte and the root
/// width byte.
#[verifier::external_body]
pub(crate) fn flex_encode_bool(value: bool) -> (r: Vec<u8>)
    ensures
        r@ == flex_singleton_bool(value),
{
    let mut b = flexbuffers::Builder::default();
    b.build_singleton(value);
    b.take_buffer()
}

/// Relies on flexbuffers map reading (Reader::get_root, get_map,
/// MapReader::index, Reader::get_str): the `uid` field of the payload.
/// `index` trusts the key-vector length read from the buffer, so the
/// caller must have established `flex_map_vectors_bounded`; `get_str`
/// trusts the string's claimed length, so it is guarded against the
/// buffer's size here.
#[verifier::external_body]
pub(crate) fn flex_new_receiver_uid(data: &Vec<u8>) -> (r: Option<String>)
    requires
        flex_map_vectors_bounded(data@),
    ensures
        match r {
            Some(s) => new_receiver_uid(data@) == Some(s@),
            None => new_receiver_uid(data@) is None,
        },
{
    let map = match flexbuffers::Reader::get_root(data.as_slice()).and_then(|r| r.get_map()) {
        Ok(m) => m,
        Err(_) => return None,
    };
    let uid = match map.index("uid") {
        Ok(v) => v,
        Err(_) => return None,
    };
    if uid.length() > data.len() {
        return None;
    }
    match uid.get_str() {
        Ok(s) => Some(s.to_string()),
        Err(_) => None,
    }
}

/// Relies on flexbuffers::Reader::get_root and Reader::get_str: the string
/// the payload's root holds.  `get_str` trusts the string's claimed length,
/// so it is guarded against the buffer's size here.
#[verifier::external_body]
pub(crate) fn flex_get_root_str(data: &Vec<u8>) -> (r: Option<String>)
    ensures
        match r {
            Some(s) => flex_root_str(data@) == Some(s@),
            None => flex_root_str(data@) is None,
        },
{
    let root = match flexbuffers::Reader::get_root(data.as_slice()) {
        Ok(v) => v,
        Err(_) => return None,
    };
    if root.length() > data.len() {
        return None;
    }
    match root.get_str() {
        Ok(s) => Some(s.to_string()),
        Err(_) => None,
    }
}

/// Relies on flexbuffers map reading (Reader::get_root, get_map,
/// MapReader::index, Reader::get_str, Reader::get_blob): the `uid` and
/// `data` fields of the payload.  As above, `index` requires the verified
/// bounds check, and both the string and the blob are guarded: each
/// computes `address + length` unchecked before its bounds-checked slice,
/// so a lying length slot must be refused first.
#[verifier::external_body]
pub(crate) fn flex_pulse_fields(data: &Vec<u8>) -> (r: Option<(String, Vec<u8>)>)
    requires
        flex_map_vectors_bounded(data@),
    ensures
        match r {
            Some(p) => pulse_data_fields(data@) == Some((p.0@, p.1@)),
            None => pulse_data_fields(data@) is None,
        },
{
    let map = match flexbuffers::Reader::get_root(data.as_slice()).and_then(|r| r.get_map()) {
        Ok(m) => m,
        Err(_) => return None,
    };
    let (uid, blob) = match (map.index("uid"), map.index("data")) {
        (Ok(u), Ok(d)) => (u, d),
        _ => return None,
    };
    if uid.length() > data.len() || blob.length() > data.len() {
        return None;
    }
    match (uid.get_str(), blob.get_blob()) {
        (Ok(s), Ok(b)) => Some((s.to_string(), b.0.to_vec())),
        _ => None,
    }
}

} // verus!
