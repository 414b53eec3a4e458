//! Big-endian integers in byte sequences.
use vstd::prelude::*;

verus! {

/// The big-endian 16-bit value that starts at `p`.
pub open spec fn be_u16_at(s: Seq<u8>, p: int) -> int {
    s[p] as int * 256 + s[p + 1] as int
}

/// The big-endian 32-bit value that starts at `p`.
pub open spec fn be_u32_at(s: Seq<u8>, p: int) -> int {
    s[p] as int * 16777216 + s[p + 1] as int * 65536 + s[p + 2] as int * 256 + s[p + 3] as int
}

/// The two bytes of `x`, most significant first.
pub open spec fn u16_bytes(x: u16) -> Seq<u8> {
    seq![(x / 256) as u8, (x % 256) as u8]
}

/// The four bytes of `x`, most significant first.
pub open spec fn u32_bytes(x: u32) -> Seq<u8> {
    seq![(x / 16777216) as u8, ((x / 65536) % 256) as u8, ((x / 256) % 256) as u8, (x % 256) as u8]
}

/// Reading back what `u16_bytes` wrote gives the value again.
pub proof fn lemma_u16_bytes_read(s: Seq<u8>, p: int, x: u16)
    requires
        0 <= p,
        p + 2 <= s.len(),
        s.subrange(p, p + 2) == u16_bytes(x),
    ensures
        be_u16_at(s, p) == x as int,
{
    assert(s[p] == s.subrange(p, p + 2)[0]);
    assert(s[p + 1] == s.subrange(p, p + 2)[1]);
}

/// Reading back what `u32_bytes` wrote gives the value again.
pub proof fn lemma_u32_bytes_read(s: Seq<u8>, p: int, x: u32)
    requires
        0 <= p,
        p + 4 <= s.len(),
        s.subrange(p, p + 4) == u32_bytes(x),
    ensures
        be_u32_at(s, p) == x as int,
{
    assert(s[p] == s.subrange(p, p + 4)[0]);
    assert(s[p + 1] == s.subrange(p, p + 4)[1]);
    assert(s[p + 2] == s.subrange(p, p + 4)[2]);
    assert(s[p + 3] == s.subrange(p, p + 4)[3]);
}

/// The 16-bit value at `pos`, or `None` where fewer than two bytes remain.
pub fn read_u16_be(data: &[u8], pos: usize) -> (r: Option<u16>)
    ensures
        r is Some <==> pos as int + 2 <= data@.len(),
        r matches Some(v) ==> v as int == be_u16_at(data@, pos as int),
{
    if pos > data.len() || data.len() - pos < 2 {
        return None;
    }
    let hi = data[pos] as u16;
    let lo = data[pos + 1] as u16;
    Some(hi * 256 + lo)
}

/// The 32-bit value at `pos`, or `None` where fewer than four bytes remain.
pub fn read_u32_be(data: &[u8], pos: usize) -> (r: Option<u32>)
    ensures
        r is Some <==> pos as int + 4 <= data@.len(),
        r matches Some(v) ==> v as int == be_u32_at(data@, pos as int),
{
    if pos > data.len() || data.len() - pos < 4 {
        return None;
    }
    let b0 = data[pos] as u32;
    let b1 = data[pos + 1] as u32;
    let b2 = data[pos + 2] as u32;
    let b3 = data[pos + 3] as u32;
    Some(b0 * 16777216 + b1 * 65536 + b2 * 256 + b3)
}

/// Appends the two bytes of `x`, most significant first.
pub fn push_u16_be(out: &mut Vec<u8>, x: u16)
    ensures
        final(out)@ == old(out)@ + u16_bytes(x),
{
    out.push((x / 256) as u8);
    out.push((x % 256) as u8);
    assert(out@ =~= old(out)@ + u16_bytes(x));
}

/// Appends the four bytes of `x`, most significant first.
pub fn push_u32_be(out: &mut Vec<u8>, x: u32)
    ensures
        final(out)@ == old(out)@ + u32_bytes(x),
{
    out.push((x / 16777216) as u8);
    out.push(((x / 65536) % 256) as u8);
    out.push(((x / 256) % 256) as u8);
    out.push((x % 256) as u8);
    assert(out@ =~= old(out)@ + u32_bytes(x));
}

} // verus!
