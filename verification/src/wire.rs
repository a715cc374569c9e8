//! Small pieces of the wire format that every message shares: big-endian
//! 16-bit numbers, the marker, and copies of byte ranges.

use crate::error::BgpError;
use vstd::prelude::*;

verus! {

/// The two octets of `x`, most significant first.
pub open spec fn be16(x: u16) -> Seq<u8> {
    seq![(x / 256) as u8, (x % 256) as u8]
}

/// The number whose two octets are `hi`, `lo`.
pub open spec fn be16_value(hi: u8, lo: u8) -> u16 {
    (hi * 256 + lo) as u16
}

/// The number written at `at` and `at + 1` of `bytes`.
pub open spec fn be16_at(bytes: Seq<u8>, at: int) -> u16 {
    be16_value(bytes[at], bytes[at + 1])
}

/// Sixteen octets of all ones.
pub open spec fn marker() -> Seq<u8> {
    Seq::new(16, |i: int| 0xffu8)
}

/// What was read, with the value that was read taken by its view.
pub open spec fn view_of<T: View>(read: Result<T, BgpError>) -> Result<T::V, BgpError> {
    match read {
        Ok(value) => Ok(value@),
        Err(e) => Err(e),
    }
}

/// Reading what `be16` wrote gives the number back, and writing what was read
/// gives the octets back.
pub proof fn lemma_be16_round_trip(x: u16, hi: u8, lo: u8)
    ensures
        be16_value(be16(x)[0], be16(x)[1]) == x,
        be16(be16_value(hi, lo)) == seq![hi, lo],
{
    assert(be16(be16_value(hi, lo)) =~= seq![hi, lo]);
}

/// Appends the two octets of `x`.
pub fn push_be16(bytes: &mut Vec<u8>, x: u16)
    ensures
        final(bytes)@ == old(bytes)@ + be16(x),
{
    bytes.push((x / 256) as u8);
    bytes.push((x % 256) as u8);
    assert(bytes@ =~= old(bytes)@ + be16(x));
}

/// Reads the 16-bit number at `at`.
pub fn read_be16(raw: &Vec<u8>, at: usize) -> (x: u16)
    requires
        at + 2 <= raw.len(),
    ensures
        x == be16_at(raw@, at as int),
{
    let hi: u16 = raw[at] as u16;
    let lo: u16 = raw[at + 1] as u16;
    hi * 256 + lo
}

/// Appends sixteen octets of all ones.
pub fn push_marker(bytes: &mut Vec<u8>)
    ensures
        final(bytes)@ == old(bytes)@ + marker(),
{
    let mut i: usize = 0;
    while i < 16
        invariant
            i <= 16,
            bytes@ == old(bytes)@ + Seq::new(i as nat, |j: int| 0xffu8),
        decreases 16 - i,
    {
        bytes.push(0xff);
        i = i + 1;
        assert(bytes@ =~= old(bytes)@ + Seq::new(i as nat, |j: int| 0xffu8));
    }
}

/// Appends a copy of `more`.
pub fn push_all(bytes: &mut Vec<u8>, more: &Vec<u8>)
    ensures
        final(bytes)@ == old(bytes)@ + more@,
{
    let mut i: usize = 0;
    while i < more.len()
        invariant
            i <= more.len(),
            bytes@ == old(bytes)@ + more@.take(i as int),
        decreases more.len() - i,
    {
        bytes.push(more[i]);
        i = i + 1;
        assert(bytes@ =~= old(bytes)@ + more@.take(i as int));
    }
    assert(more@.take(more.len() as int) =~= more@);
}

/// A copy of the bytes from `start` up to `end`.
pub fn copy_range(raw: &Vec<u8>, start: usize, end: usize) -> (part: Vec<u8>)
    requires
        start <= end <= raw.len(),
    ensures
        part@ == raw@.subrange(start as int, end as int),
{
    let mut part: Vec<u8> = Vec::new();
    let mut i: usize = start;
    while i < end
        invariant
            start <= i <= end <= raw.len(),
            part@ == raw@.subrange(start as int, i as int),
        decreases end - i,
    {
        part.push(raw[i]);
        i = i + 1;
        assert(part@ =~= raw@.subrange(start as int, i as int));
    }
    part
}

} // verus!
