//! Fixed-width integers and NUL-terminated strings read from byte buffers.
//!
//! Every reader takes the whole buffer and an absolute position and returns
//! `None` when the value does not fit in the buffer.
use vstd::prelude::*;

verus! {

/// Little-endian value of two bytes, lowest byte first.
pub open spec fn le2(b0: u8, b1: u8) -> int {
    b0 + 256 * b1
}

/// Little-endian value of four bytes, lowest byte first.
pub open spec fn le4(b0: u8, b1: u8, b2: u8, b3: u8) -> int {
    le2(b0, b1) + 65536 * le2(b2, b3)
}

/// Little-endian value of eight bytes, lowest byte first.
pub open spec fn le8(b0: u8, b1: u8, b2: u8, b3: u8, b4: u8, b5: u8, b6: u8, b7: u8) -> int {
    le4(b0, b1, b2, b3) + 4294967296 * le4(b4, b5, b6, b7)
}

/// `n` bytes starting at `pos` lie inside `buf`.
pub open spec fn fits(buf: Seq<u8>, pos: int, n: int) -> bool {
    0 <= pos && pos + n <= buf.len()
}

pub open spec fn spec_u16_at(buf: Seq<u8>, pos: int, big: bool) -> u16 {
    if big {
        le2(buf[pos + 1], buf[pos]) as u16
    } else {
        le2(buf[pos], buf[pos + 1]) as u16
    }
}

pub open spec fn spec_u32_at(buf: Seq<u8>, pos: int, big: bool) -> u32 {
    if big {
        le4(buf[pos + 3], buf[pos + 2], buf[pos + 1], buf[pos]) as u32
    } else {
        le4(buf[pos], buf[pos + 1], buf[pos + 2], buf[pos + 3]) as u32
    }
}

pub open spec fn spec_u64_at(buf: Seq<u8>, pos: int, big: bool) -> u64 {
    if big {
        le8(
            buf[pos + 7],
            buf[pos + 6],
            buf[pos + 5],
            buf[pos + 4],
            buf[pos + 3],
            buf[pos + 2],
            buf[pos + 1],
            buf[pos],
        ) as u64
    } else {
        le8(
            buf[pos],
            buf[pos + 1],
            buf[pos + 2],
            buf[pos + 3],
            buf[pos + 4],
            buf[pos + 5],
            buf[pos + 6],
            buf[pos + 7],
        ) as u64
    }
}

/// Two's complement reading of a 16-bit pattern.
pub open spec fn signed16(u: u16) -> i16 {
    if u < 0x8000 {
        u as i16
    } else {
        (u - 0x10000) as i16
    }
}

/// Two's complement reading of a 32-bit pattern.
pub open spec fn signed32(u: u32) -> i32 {
    if u < 0x8000_0000 {
        u as i32
    } else {
        (u - 0x1_0000_0000) as i32
    }
}

/// Two's complement reading of a 64-bit pattern.
pub open spec fn signed64(u: u64) -> i64 {
    if u < 0x8000_0000_0000_0000 {
        u as i64
    } else {
        (u - 0x1_0000_0000_0000_0000) as i64
    }
}

pub open spec fn opt_u8(buf: Seq<u8>, pos: int) -> Option<u8> {
    if fits(buf, pos, 1) {
        Some(buf[pos])
    } else {
        None
    }
}

pub open spec fn opt_u16(buf: Seq<u8>, pos: int, big: bool) -> Option<u16> {
    if fits(buf, pos, 2) {
        Some(spec_u16_at(buf, pos, big))
    } else {
        None
    }
}

pub open spec fn opt_u32(buf: Seq<u8>, pos: int, big: bool) -> Option<u32> {
    if fits(buf, pos, 4) {
        Some(spec_u32_at(buf, pos, big))
    } else {
        None
    }
}

pub open spec fn opt_u64(buf: Seq<u8>, pos: int, big: bool) -> Option<u64> {
    if fits(buf, pos, 8) {
        Some(spec_u64_at(buf, pos, big))
    } else {
        None
    }
}

pub open spec fn opt_i16(buf: Seq<u8>, pos: int, big: bool) -> Option<i16> {
    if fits(buf, pos, 2) {
        Some(signed16(spec_u16_at(buf, pos, big)))
    } else {
        None
    }
}

pub open spec fn opt_i32(buf: Seq<u8>, pos: int, big: bool) -> Option<i32> {
    if fits(buf, pos, 4) {
        Some(signed32(spec_u32_at(buf, pos, big)))
    } else {
        None
    }
}

pub open spec fn opt_i64(buf: Seq<u8>, pos: int, big: bool) -> Option<i64> {
    if fits(buf, pos, 8) {
        Some(signed64(spec_u64_at(buf, pos, big)))
    } else {
        None
    }
}

/// Whether `n` bytes from `pos` fit in a buffer of length `len`, computed without overflow.
pub fn has_bytes(len: usize, pos: usize, n: usize) -> (r: bool)
    ensures
        r == (pos + n <= len),
{
    pos <= len && len - pos >= n
}

pub fn read_u8(buf: &[u8], pos: usize) -> (r: Option<u8>)
    ensures
        r == opt_u8(buf@, pos as int),
{
    if pos < buf.len() {
        Some(buf[pos])
    } else {
        None
    }
}

pub fn read_u16(buf: &[u8], pos: usize, big: bool) -> (r: Option<u16>)
    ensures
        r == opt_u16(buf@, pos as int, big),
{
    if !has_bytes(buf.len(), pos, 2) {
        return None;
    }
    let (b0, b1) = if big {
        (buf[pos + 1], buf[pos])
    } else {
        (buf[pos], buf[pos + 1])
    };
    Some((b0 as u16) + (b1 as u16) * 256)
}

pub fn read_u32(buf: &[u8], pos: usize, big: bool) -> (r: Option<u32>)
    ensures
        r == opt_u32(buf@, pos as int, big),
{
    if !has_bytes(buf.len(), pos, 4) {
        return None;
    }
    let (b0, b1, b2, b3) = if big {
        (buf[pos + 3], buf[pos + 2], buf[pos + 1], buf[pos])
    } else {
        (buf[pos], buf[pos + 1], buf[pos + 2], buf[pos + 3])
    };
    Some((b0 as u32) + (b1 as u32) * 256 + (b2 as u32) * 65536 + (b3 as u32) * 16777216)
}

pub fn read_u64(buf: &[u8], pos: usize, big: bool) -> (r: Option<u64>)
    ensures
        r == opt_u64(buf@, pos as int, big),
{
    if !has_bytes(buf.len(), pos, 8) {
        return None;
    }
    let lo = if big {
        read_u32(buf, pos + 4, true)
    } else {
        read_u32(buf, pos, false)
    };
    let hi = if big {
        read_u32(buf, pos, true)
    } else {
        read_u32(buf, pos + 4, false)
    };
    let lo = lo.unwrap();
    let hi = hi.unwrap();
    Some((lo as u64) + (hi as u64) * 4294967296)
}

pub fn to_signed16(u: u16) -> (r: i16)
    ensures
        r == signed16(u),
{
    if u < 0x8000 {
        u as i16
    } else {
        ((u - 0x8000) as i16) - 0x4000 - 0x4000
    }
}

pub fn to_signed32(u: u32) -> (r: i32)
    ensures
        r == signed32(u),
{
    if u < 0x8000_0000 {
        u as i32
    } else {
        ((u - 0x8000_0000) as i32) - 0x4000_0000 - 0x4000_0000
    }
}

pub fn to_signed64(u: u64) -> (r: i64)
    ensures
        r == signed64(u),
{
    if u < 0x8000_0000_0000_0000 {
        u as i64
    } else {
        ((u - 0x8000_0000_0000_0000) as i64) - 0x4000_0000_0000_0000 - 0x4000_0000_0000_0000
    }
}

pub fn read_i16(buf: &[u8], pos: usize, big: bool) -> (r: Option<i16>)
    ensures
        r == opt_i16(buf@, pos as int, big),
{
    match read_u16(buf, pos, big) {
        Some(u) => Some(to_signed16(u)),
        None => None,
    }
}

pub fn read_i32(buf: &[u8], pos: usize, big: bool) -> (r: Option<i32>)
    ensures
        r == opt_i32(buf@, pos as int, big),
{
    match read_u32(buf, pos, big) {
        Some(u) => Some(to_signed32(u)),
        None => None,
    }
}

pub fn read_i64(buf: &[u8], pos: usize, big: bool) -> (r: Option<i64>)
    ensures
        r == opt_i64(buf@, pos as int, big),
{
    match read_u64(buf, pos, big) {
        Some(u) => Some(to_signed64(u)),
        None => None,
    }
}

/// Index of the first NUL byte at or after `pos`, if there is one.
pub open spec fn nul_index(buf: Seq<u8>, pos: int) -> Option<int>
    decreases buf.len() - pos,
{
    if pos < 0 || pos >= buf.len() {
        None
    } else if buf[pos] == 0 {
        Some(pos)
    } else {
        nul_index(buf, pos + 1)
    }
}

/// The bytes of a NUL-terminated string at `pos` and the position after its terminator.
pub open spec fn spec_null_string(buf: Seq<u8>, pos: int) -> Option<(Seq<u8>, int)> {
    match nul_index(buf, pos) {
        Some(j) => Some((buf.subrange(pos, j), j + 1)),
        None => None,
    }
}

pub proof fn lemma_nul_index_bounds(buf: Seq<u8>, pos: int)
    ensures
        nul_index(buf, pos) matches Some(j) ==> pos <= j < buf.len() && buf[j] == 0,
    decreases buf.len() - pos,
{
    if 0 <= pos < buf.len() && buf[pos] != 0 {
        lemma_nul_index_bounds(buf, pos + 1);
    }
}

/// Copy of `buf[from..to]`.
pub fn copy_range(buf: &[u8], from: usize, to: usize) -> (r: Vec<u8>)
    requires
        from <= to <= buf@.len(),
    ensures
        r@ == buf@.subrange(from as int, to as int),
{
    let mut out: Vec<u8> = Vec::new();
    let mut i = from;
    while i < to
        invariant
            from <= i <= to <= buf@.len(),
            out@ == buf@.subrange(from as int, i as int),
        decreases to - i,
    {
        out.push(buf[i]);
        i = i + 1;
    }
    out
}

/// Element-by-element copy of a vector of plain values.
pub fn copy_vec<T: Copy>(v: &Vec<T>) -> (r: Vec<T>)
    ensures
        r@ == v@,
{
    let mut out: Vec<T> = Vec::new();
    let mut i: usize = 0;
    while i < v.len()
        invariant
            i <= v@.len(),
            out@ == v@.subrange(0, i as int),
        decreases v.len() - i,
    {
        out.push(v[i]);
        i = i + 1;
    }
    assert(v@.subrange(0, v@.len() as int) =~= v@);
    out
}

/// Reads a NUL-terminated string: its bytes (without the terminator) and the next position.
pub fn read_null_string(buf: &[u8], pos: usize) -> (r: Option<(Vec<u8>, usize)>)
    ensures
        match spec_null_string(buf@, pos as int) {
            Some((s, next)) => r matches Some((v, n)) && v@ == s && n == next,
            None => r is None,
        },
{
    let mut i = pos;
    while i < buf.len()
        invariant
            pos <= i,
            nul_index(buf@, pos as int) == nul_index(buf@, i as int),
            forall|k: int| pos <= k < i ==> buf@[k] != 0,
        decreases buf.len() - i,
    {
        if buf[i] == 0 {
            proof {
                lemma_nul_index_bounds(buf@, pos as int);
            }
            let bytes = copy_range(buf, pos, i);
            return Some((bytes, i + 1));
        }
        i = i + 1;
    }
    None
}

/// Position rounded up to the next multiple of `align` (which must be positive).
pub open spec fn align_up(pos: int, align: int) -> int {
    if pos % align == 0 {
        pos
    } else {
        pos + (align - pos % align)
    }
}

pub fn align_up_exec(pos: usize, align: usize) -> (r: Option<usize>)
    requires
        align > 0,
    ensures
        match r {
            Some(v) => v == align_up(pos as int, align as int),
            None => align_up(pos as int, align as int) > usize::MAX,
        },
{
    let rem = pos % align;
    if rem == 0 {
        Some(pos)
    } else {
        pos.checked_add(align - rem)
    }
}

} // verus!
