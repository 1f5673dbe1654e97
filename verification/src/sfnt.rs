//! A bounds-check of a font file's naming table, run before the bytes are
//! handed to the font engine.
//!
//! While parsing a face, the font engine decodes the first full-name record
//! (name ID 4) with a Unicode encoding as UTF-16BE, with unchecked reads:
//! a payload of odd length or with an unpaired or misordered surrogate
//! makes that decoder read past its slice or underflow.  `name_storage_safe`
//! walks the font's table directory exactly as the engine's parser selects
//! it — the last `name` entry of the face picked by collection index 0,
//! records visited in order until one fails to parse or to slice — and
//! accepts the bytes only when the record that would be decoded, if any,
//! is a well-formed UTF-16BE sequence.  Everything here is verified; the
//! result stands in the contracts of the parsing boundary.

use vstd::prelude::*;

verus! {

/// The big-endian 16-bit integer at `i`, or 0 where `i` leaves the data.
pub open spec fn spec_be16(b: Seq<u8>, i: int) -> u16 {
    if 0 <= i && i + 2 <= b.len() {
        ((b[i] * 256 + b[i + 1]) as u16)
    } else {
        0
    }
}

/// The big-endian 32-bit integer at `i`, or 0 where `i` leaves the data.
pub open spec fn spec_be32(b: Seq<u8>, i: int) -> u32 {
    if 0 <= i && i + 4 <= b.len() {
        ((b[i] * 0x1000000 + b[i + 1] * 0x10000 + b[i + 2] * 0x100 + b[i + 3]) as u32)
    } else {
        0
    }
}

/// The big-endian 16-bit integer at `i`.
fn be16(b: &Vec<u8>, i: usize) -> (r: u16)
    requires
        i + 2 <= b@.len(),
    ensures
        r == spec_be16(b@, i as int),
{
    let nb = b.len();
    (b[i] as u16) * 256 + (b[i + 1] as u16)
}

/// The big-endian 32-bit integer at `i`.
fn be32(b: &Vec<u8>, i: usize) -> (r: u32)
    requires
        i + 4 <= b@.len(),
    ensures
        r == spec_be32(b@, i as int),
{
    let nb = b.len();
    (b[i] as u32) * 0x1000000 + (b[i + 1] as u32) * 0x10000 + (b[i + 2] as u32) * 0x100 + (b[i
        + 3] as u32)
}

/// Whether the UTF-16BE payload `b[start .. start + len]`, read from unit
/// offset `j`, decodes without out-of-bounds reads or underflow: units
/// pair up, a high surrogate (0xD800..=0xDBFF) is always followed in the
/// same payload by a low surrogate (0xDC00..=0xDFFF), and no unit at pair
/// position is a lone low surrogate.
pub open spec fn spec_utf16_safe_from(b: Seq<u8>, start: int, len: int, j: int) -> bool
    decreases len - j,
{
    if j >= len {
        true
    } else if j + 2 > len {
        false
    } else {
        let a = spec_be16(b, start + j);
        if a < 0xD800 || a > 0xDFFF {
            spec_utf16_safe_from(b, start, len, j + 2)
        } else if a > 0xDBFF {
            false
        } else if j + 4 > len {
            false
        } else {
            let pair = spec_be16(b, start + j + 2);
            if 0xDC00 <= pair <= 0xDFFF {
                spec_utf16_safe_from(b, start, len, j + 4)
            } else {
                false
            }
        }
    }
}

/// The offset and length of the `name` entry that wins the face's table
/// directory at `dir`: entries are visited in order, a later `name` entry
/// replaces an earlier one, and an entry whose end would not fit `usize`
/// is skipped.  The first component says whether any entry won.
pub open spec fn spec_last_name_entry(
    b: Seq<u8>,
    dir: int,
    nt: int,
    i: int,
    found: bool,
    off: int,
    len: int,
) -> (bool, int, int)
    decreases nt - i,
{
    if i >= nt {
        (found, off, len)
    } else {
        let rec = dir + 12 + 16 * i;
        if spec_be32(b, rec) == 0x6E616D65 {
            let o = spec_be32(b, rec + 8) as int;
            let l = spec_be32(b, rec + 12) as int;
            if o + l > usize::MAX {
                spec_last_name_entry(b, dir, nt, i + 1, found, off, len)
            } else {
                spec_last_name_entry(b, dir, nt, i + 1, true, o, l)
            }
        } else {
            spec_last_name_entry(b, dir, nt, i + 1, found, off, len)
        }
    }
}

/// Whether a record of the naming table carries a Unicode encoding: the
/// Unicode platform, or the Windows platform with the symbol or BMP
/// encoding.
pub open spec fn spec_is_unicode(platform: u16, encoding: u16) -> bool {
    platform == 0 || (platform == 3 && (encoding == 0 || encoding == 1))
}

/// Whether the naming-table records from `i` on are safe to hand to the
/// engine: visiting them in order, a record that does not parse (platform
/// over 4) or whose payload leaves the storage area stops the walk before
/// anything is decoded; the first full-name Unicode record before that
/// point must have a safe UTF-16BE payload.
pub open spec fn spec_records_safe_from(
    b: Seq<u8>,
    t0: int,
    rec_start: int,
    count: int,
    storage_start: int,
    storage_len: int,
    i: int,
) -> bool
    decreases count - i,
{
    if i >= count {
        true
    } else {
        let r = t0 + rec_start + 12 * i;
        let platform = spec_be16(b, r);
        if platform > 4 {
            true
        } else {
            let encoding = spec_be16(b, r + 2);
            let name_id = spec_be16(b, r + 6);
            let p_len = spec_be16(b, r + 8) as int;
            let p_off = spec_be16(b, r + 10) as int;
            if p_off + p_len > storage_len {
                true
            } else if name_id == 4 && spec_is_unicode(platform, encoding) {
                spec_utf16_safe_from(b, t0 + storage_start + p_off, p_len, 0)
            } else {
                spec_records_safe_from(b, t0, rec_start, count, storage_start, storage_len, i + 1)
            }
        }
    }
}

/// Whether the naming table `b[t0 .. t0 + len]` is safe to hand to the
/// engine.  A header the engine's parser rejects (short data, unknown
/// version, overflowing language-tag count, records or storage start past
/// the end) means the table yields no names at all, which is safe.
pub open spec fn spec_name_table_safe(b: Seq<u8>, t0: int, len: int) -> bool {
    if len < 6 {
        true
    } else {
        let version = spec_be16(b, t0);
        let count = spec_be16(b, t0 + 2) as int;
        let storage_off = spec_be16(b, t0 + 4) as int;
        if version != 0 && version != 1 {
            true
        } else if version == 1 && len < 8 {
            true
        } else if version == 1 && spec_be16(b, t0 + 6) > 16383 {
            true
        } else {
            let rec_start = if version == 0 {
                6
            } else {
                8 + 4 * (spec_be16(b, t0 + 6) as int)
            };
            if rec_start + 12 * count > len {
                true
            } else {
                let rec_end = rec_start + 12 * count;
                let storage_start = if storage_off > rec_end {
                    storage_off
                } else {
                    rec_end
                };
                if storage_start > len {
                    true
                } else {
                    spec_records_safe_from(
                        b,
                        t0,
                        rec_start,
                        count,
                        storage_start,
                        len - storage_start,
                        0,
                    )
                }
            }
        }
    }
}

/// Whether the face whose table directory starts at `dir` is safe to hand
/// to the engine: a directory the parser rejects yields no face, and a
/// missing or out-of-bounds `name` entry yields no names; otherwise the
/// winning `name` entry's table must be safe.
pub open spec fn spec_face_safe(b: Seq<u8>, dir: int) -> bool {
    let n = b.len() as int;
    if dir + 6 > n {
        true
    } else {
        let nt = spec_be16(b, dir + 4) as int;
        if dir + 12 + 16 * nt > n {
            true
        } else {
            let entry = spec_last_name_entry(b, dir, nt, 0, false, 0, 0);
            if !entry.0 {
                true
            } else if entry.1 + entry.2 > n {
                true
            } else {
                spec_name_table_safe(b, entry.1, entry.2)
            }
        }
    }
}

/// Whether `b` is safe to hand to the font engine's parser: either the
/// parser rejects the bytes before reaching any name record (bad magic,
/// short or malformed collection header), or the face it selects — the
/// face at offset 0, or the first face of a collection — found a safe
/// naming table.
pub open spec fn spec_name_storage_safe(b: Seq<u8>) -> bool {
    let n = b.len() as int;
    if n < 4 {
        true
    } else {
        let magic = spec_be32(b, 0);
        if magic == 0x74746366 {
            if n < 12 {
                true
            } else {
                let faces = spec_be32(b, 8) as int;
                if faces == 0 || 12 + 4 * faces > n {
                    true
                } else {
                    let dir = spec_be32(b, 12) as int;
                    if dir < 12 + 4 * faces || dir + 4 > n {
                        true
                    } else {
                        let fm = spec_be32(b, dir);
                        if fm == 0x00010000 || fm == 0x74727565 || fm == 0x4F54544F {
                            spec_face_safe(b, dir)
                        } else {
                            true
                        }
                    }
                }
            }
        } else if magic == 0x00010000 || magic == 0x74727565 || magic == 0x4F54544F {
            spec_face_safe(b, 0)
        } else {
            true
        }
    }
}

/// Whether the UTF-16BE payload `b[start .. start + len]` decodes safely.
#[verifier::loop_isolation(false)]
fn utf16_payload_safe(b: &Vec<u8>, start: usize, len: usize) -> (r: bool)
    requires
        start + len <= b@.len(),
    ensures
        r == spec_utf16_safe_from(b@, start as int, len as int, 0),
{
    let nb = b.len();
    let mut j: usize = 0;
    while j < len
        invariant
            j <= len,
            spec_utf16_safe_from(b@, start as int, len as int, j as int) == spec_utf16_safe_from(
                b@,
                start as int,
                len as int,
                0,
            ),
        decreases len - j,
    {
        if len - j < 2 {
            return false;
        }
        let a = be16(b, start + j);
        if a < 0xD800 || a > 0xDFFF {
            j = j + 2;
        } else if a > 0xDBFF {
            return false;
        } else if len - j < 4 {
            return false;
        } else {
            let pair = be16(b, start + j + 2);
            if 0xDC00 <= pair && pair <= 0xDFFF {
                j = j + 4;
            } else {
                return false;
            }
        }
    }
    true
}

/// Whether the naming table `b[t0 .. t0 + len]` is safe to hand to the
/// engine.
#[verifier::loop_isolation(false)]
fn name_table_safe_at(b: &Vec<u8>, t0: usize, len: usize) -> (r: bool)
    requires
        t0 + len <= b@.len(),
    ensures
        r == spec_name_table_safe(b@, t0 as int, len as int),
{
    let nb = b.len();
    if len < 6 {
        return true;
    }
    let version = be16(b, t0);
    let count = be16(b, t0 + 2);
    let storage_off = be16(b, t0 + 4);
    if version != 0 && version != 1 {
        return true;
    }
    if version == 1 && len < 8 {
        return true;
    }
    let rec_start: usize = if version == 0 {
        6
    } else {
        let ltc = be16(b, t0 + 6);
        if ltc > 16383 {
            return true;
        }
        8 + 4 * (ltc as usize)
    };
    if rec_start as u64 + 12 * (count as u64) > len as u64 {
        return true;
    }
    let rec_end: usize = rec_start + 12 * (count as usize);
    let storage_start: usize = if storage_off as usize > rec_end {
        storage_off as usize
    } else {
        rec_end
    };
    if storage_start > len {
        return true;
    }
    let storage_len: usize = len - storage_start;
    let mut i: usize = 0;
    while i < count as usize
        invariant
            i <= count as usize,
            spec_records_safe_from(
                b@,
                t0 as int,
                rec_start as int,
                count as int,
                storage_start as int,
                storage_len as int,
                i as int,
            ) == spec_records_safe_from(
                b@,
                t0 as int,
                rec_start as int,
                count as int,
                storage_start as int,
                storage_len as int,
                0,
            ),
        decreases count as int - i,
    {
        let r0 = t0 + rec_start + 12 * i;
        let platform = be16(b, r0);
        if platform > 4 {
            return true;
        }
        let encoding = be16(b, r0 + 2);
        let name_id = be16(b, r0 + 6);
        let p_len = be16(b, r0 + 8);
        let p_off = be16(b, r0 + 10);
        if p_off as usize + p_len as usize > storage_len {
            return true;
        }
        if name_id == 4 && (platform == 0 || (platform == 3 && (encoding == 0 || encoding == 1))) {
            return utf16_payload_safe(b, t0 + storage_start + p_off as usize, p_len as usize);
        }
        i = i + 1;
    }
    true
}

/// Whether the face whose table directory starts at `dir` is safe to hand
/// to the engine.
#[verifier::loop_isolation(false)]
fn face_safe(b: &Vec<u8>, dir: usize) -> (r: bool)
    requires
        dir <= b@.len(),
    ensures
        r == spec_face_safe(b@, dir as int),
{
    let n = b.len();
    if n < 6 || dir > n - 6 {
        return true;
    }
    let nt = be16(b, dir + 4);
    if n - dir < 12 || 16 * (nt as u64) > ((n - dir - 12) as u64) {
        return true;
    }
    let mut found = false;
    let mut name_off: usize = 0;
    let mut name_len: usize = 0;
    let mut i: usize = 0;
    while i < nt as usize
        invariant
            i <= nt as usize,
            n == b@.len(),
            dir + 12 + 16 * (nt as int) <= n,
            name_off <= u32::MAX,
            name_len <= u32::MAX,
            spec_last_name_entry(
                b@,
                dir as int,
                nt as int,
                i as int,
                found,
                name_off as int,
                name_len as int,
            ) == spec_last_name_entry(b@, dir as int, nt as int, 0, false, 0, 0),
        decreases nt as int - i,
    {
        let rec = dir + 12 + 16 * i;
        if be32(b, rec) == 0x6E616D65 {
            let o = be32(b, rec + 8);
            let l = be32(b, rec + 12);
            match (o as usize).checked_add(l as usize) {
                Some(_) => {
                    found = true;
                    name_off = o as usize;
                    name_len = l as usize;
                },
                None => {},
            }
        }
        i = i + 1;
    }
    if !found {
        return true;
    }
    if name_off as u64 + name_len as u64 > n as u64 {
        return true;
    }
    name_table_safe_at(b, name_off, name_len)
}

/// Whether `bytes` is safe to hand to the font engine's parser: the one
/// name record the engine would decode, if any, is well-formed UTF-16BE.
/// The library rejects bytes that fail this check as malformed font data.
pub fn name_storage_safe(bytes: &Vec<u8>) -> (r: bool)
    ensures
        r == spec_name_storage_safe(bytes@),
{
    let n = bytes.len();
    if n < 4 {
        return true;
    }
    let magic = be32(bytes, 0);
    if magic == 0x74746366 {
        if n < 12 {
            return true;
        }
        let faces = be32(bytes, 8);
        if faces == 0 {
            return true;
        }
        if 12u64 + 4u64 * (faces as u64) > n as u64 {
            return true;
        }
        let dir32 = be32(bytes, 12);
        if (dir32 as u64) < 12u64 + 4u64 * (faces as u64) {
            return true;
        }
        if dir32 as u64 + 4u64 > n as u64 {
            return true;
        }
        let dir = dir32 as usize;
        let fm = be32(bytes, dir);
        if fm == 0x00010000 || fm == 0x74727565 || fm == 0x4F54544F {
            face_safe(bytes, dir)
        } else {
            true
        }
    } else if magic == 0x00010000 || magic == 0x74727565 || magic == 0x4F54544F {
        face_safe(bytes, 0)
    } else {
        true
    }
}

} // verus!
