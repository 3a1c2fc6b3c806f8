//! Fixed-width integers on the wire: little-endian, least significant byte
//! first. The layout has to agree with the peripheral's firmware.

use vstd::prelude::*;

verus! {

/// The two bytes that carry `x`.
pub open spec fn u16_le(x: u16) -> Seq<u8> {
    seq![(x % 256) as u8, (x / 256) as u8]
}

/// The four bytes that carry `x`.
pub open spec fn u32_le(x: u32) -> Seq<u8> {
    seq![
        (x % 256) as u8,
        (x / 256 % 256) as u8,
        (x / 65536 % 256) as u8,
        (x / 16777216) as u8,
    ]
}

/// The 16-bit integer carried by `data[at]` and `data[at + 1]`.
pub open spec fn u16_at(data: Seq<u8>, at: int) -> u16
    recommends
        0 <= at,
        at + 2 <= data.len(),
{
    (data[at] as int + 256 * (data[at + 1] as int)) as u16
}

/// The 32-bit integer carried by the four bytes of `data` from `at` on.
pub open spec fn u32_at(data: Seq<u8>, at: int) -> u32
    recommends
        0 <= at,
        at + 4 <= data.len(),
{
    (data[at] as int + 256 * (data[at + 1] as int) + 65536 * (data[at + 2] as int) + 16777216 * (
    data[at + 3] as int)) as u32
}

/// Reading back what `u16_le` wrote gives the integer again, whatever
/// surrounds it.
pub proof fn lemma_u16_round_trip(x: u16, before: Seq<u8>, after: Seq<u8>)
    ensures
        u16_le(x).len() == 2,
        u16_at(before + u16_le(x) + after, before.len() as int) == x,
{
    let s = before + u16_le(x) + after;
    let at = before.len() as int;
    assert(s[at] == u16_le(x)[0]);
    assert(s[at + 1] == u16_le(x)[1]);
}

/// The four digits of `x` to the base 256 make up `x`.
proof fn lemma_u32_digits(x: u32)
    ensures
        x % 256 + 256 * (x / 256 % 256) + 65536 * (x / 65536 % 256) + 16777216 * (x / 16777216)
            == x,
        x / 16777216 < 256,
{
    let a = x / 256;
    let b = a / 256;
    let c = b / 256;
    assert(x == 256 * a + x % 256);
    assert(a == 256 * b + a % 256);
    assert(b == 256 * c + b % 256);
    assert(x / 65536 == b);
    assert(x / 16777216 == c);
}

/// Reading back what `u32_le` wrote gives the integer again, whatever
/// surrounds it.
pub proof fn lemma_u32_round_trip(x: u32, before: Seq<u8>, after: Seq<u8>)
    ensures
        u32_le(x).len() == 4,
        u32_at(before + u32_le(x) + after, before.len() as int) == x,
{
    let s = before + u32_le(x) + after;
    let at = before.len() as int;
    lemma_u32_digits(x);
    assert(s[at] == (x % 256) as u8);
    assert(s[at + 1] == (x / 256 % 256) as u8);
    assert(s[at + 2] == (x / 65536 % 256) as u8);
    assert(s[at + 3] == (x / 16777216) as u8);
}

/// Appends the encoding of `x` to `out`.
pub fn put_u16(out: &mut Vec<u8>, x: u16)
    ensures
        final(out)@ == old(out)@ + u16_le(x),
{
    out.push((x % 256) as u8);
    out.push((x / 256) as u8);
    assert(out@ =~= old(out)@ + u16_le(x));
}

/// Appends the encoding of `x` to `out`.
pub fn put_u32(out: &mut Vec<u8>, x: u32)
    ensures
        final(out)@ == old(out)@ + u32_le(x),
{
    out.push((x % 256) as u8);
    out.push((x / 256 % 256) as u8);
    out.push((x / 65536 % 256) as u8);
    out.push((x / 16777216) as u8);
    assert(out@ =~= old(out)@ + u32_le(x));
}

/// Reads the 16-bit integer that starts at `at`.
pub fn get_u16(data: &[u8], at: usize) -> (x: u16)
    requires
        at + 2 <= data@.len(),
    ensures
        x == u16_at(data@, at as int),
{
    data[at] as u16 + 256 * (data[at + 1] as u16)
}

/// Reads the 32-bit integer that starts at `at`.
pub fn get_u32(data: &[u8], at: usize) -> (x: u32)
    requires
        at + 4 <= data@.len(),
    ensures
        x == u32_at(data@, at as int),
{
    data[at] as u32 + 256 * (data[at + 1] as u32) + 65536 * (data[at + 2] as u32) + 16777216 * (
    data[at + 3] as u32)
}

/// Appends `data` to `out`.
pub fn put_bytes(out: &mut Vec<u8>, data: &[u8])
    ensures
        final(out)@ == old(out)@ + data@,
{
    let mut i: usize = 0;
    while i < data.len()
        invariant
            i <= data@.len(),
            out@ == old(out)@ + data@.subrange(0, i as int),
        decreases data@.len() - i,
    {
        out.push(data[i]);
        i = i + 1;
        assert(out@ =~= old(out)@ + data@.subrange(0, i as int));
    }
    assert(data@.subrange(0, i as int) =~= data@);
}

/// Appends the bytes of `data` from `from` up to `to` to `out`.
pub fn put_range(out: &mut Vec<u8>, data: &[u8], from: usize, to: usize)
    requires
        from <= to <= data@.len(),
    ensures
        final(out)@ == old(out)@ + data@.subrange(from as int, to as int),
{
    let mut i: usize = from;
    while i < to
        invariant
            from <= i <= to <= data@.len(),
            out@ == old(out)@ + data@.subrange(from as int, i as int),
        decreases to - i,
    {
        out.push(data[i]);
        i = i + 1;
        assert(out@ =~= old(out)@ + data@.subrange(from as int, i as int));
    }
}

} // verus!
