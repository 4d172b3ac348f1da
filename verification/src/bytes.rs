//! Numbers as bytes, low byte first.

use vstd::prelude::*;

verus! {

pub open spec fn le16(x: u16) -> Seq<u8> {
    seq![(x % 256) as u8, (x / 256) as u8]
}

pub open spec fn le32(x: u32) -> Seq<u8> {
    seq![
        (x % 256) as u8,
        (x / 256 % 256) as u8,
        (x / 65536 % 256) as u8,
        (x / 16777216) as u8,
    ]
}

pub open spec fn u16_at(b: Seq<u8>, i: int) -> u16 {
    (b[i] + 256 * b[i + 1]) as u16
}

pub open spec fn u32_at(b: Seq<u8>, i: int) -> u32 {
    (b[i] + 256 * b[i + 1] + 65536 * b[i + 2] + 16777216 * b[i + 3]) as u32
}

/// A number is read back from its bytes.
pub proof fn law_numbers_read_back(b: Seq<u8>, i: int, x: u16, y: u32)
    ensures
        b[i] == le16(x)[0] && b[i + 1] == le16(x)[1] ==> u16_at(b, i) == x,
        b[i] == le32(y)[0] && b[i + 1] == le32(y)[1] && b[i + 2] == le32(y)[2] && b[i + 3] == le32(
            y,
        )[3] ==> u32_at(b, i) == y,
{
}

pub fn push_u16(out: &mut Vec<u8>, x: u16)
    ensures
        final(out)@ == old(out)@ + le16(x),
{
    out.push((x % 256) as u8);
    out.push((x / 256) as u8);
    proof {
        assert(out@ =~= old(out)@ + le16(x));
    }
}

pub fn push_u32(out: &mut Vec<u8>, x: u32)
    ensures
        final(out)@ == old(out)@ + le32(x),
{
    out.push((x % 256) as u8);
    out.push((x / 256 % 256) as u8);
    out.push((x / 65536 % 256) as u8);
    out.push((x / 16777216) as u8);
    proof {
        assert(out@ =~= old(out)@ + le32(x));
    }
}

pub fn read_u16(b: &[u8], i: usize) -> (x: u16)
    requires
        i + 2 <= b@.len(),
    ensures
        x == u16_at(b@, i as int),
{
    b[i] as u16 + 256 * (b[i + 1] as u16)
}

pub fn read_u32(b: &[u8], i: usize) -> (x: u32)
    requires
        i + 4 <= b@.len(),
    ensures
        x == u32_at(b@, i as int),
{
    b[i] as u32 + 256 * (b[i + 1] as u32) + 65536 * (b[i + 2] as u32) + 16777216 * (b[i + 3] as u32)
}

/// Whether the bytes are the same.
pub fn same(a: &[u8], b: &[u8]) -> (r: bool)
    ensures
        r == (a@ == b@),
{
    if a.len() != b.len() {
        return false;
    }
    let mut i: usize = 0;
    while i < a.len()
        invariant
            i <= a@.len() == b@.len(),
            forall|k: int| 0 <= k < i ==> a@[k] == b@[k],
        decreases a@.len() - i,
    {
        if a[i] != b[i] {
            return false;
        }
        i = i + 1;
    }
    proof {
        assert(a@ =~= b@);
    }
    true
}

/// A copy of the bytes.
pub fn copied(src: &[u8]) -> (v: Vec<u8>)
    ensures
        v@ == src@,
{
    let mut v: Vec<u8> = Vec::new();
    push_all(&mut v, src);
    proof {
        assert(v@ =~= src@);
    }
    v
}

/// Append bytes.
pub fn push_all(out: &mut Vec<u8>, more: &[u8])
    ensures
        final(out)@ == old(out)@ + more@,
{
    let mut i: usize = 0;
    while i < more.len()
        invariant
            i <= more@.len(),
            out@ =~= old(out)@ + more@.take(i as int),
        decreases more@.len() - i,
    {
        out.push(more[i]);
        i = i + 1;
    }
    proof {
        assert(more@.take(i as int) =~= more@);
    }
}

} // verus!
