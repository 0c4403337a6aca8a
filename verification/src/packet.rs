//! Bounded view of a packet buffer.
//!
//! Every read and every write of a header field goes through this module.
//! An access is made only after its whole extent has been shown to lie
//! inside the buffer; otherwise the caller gets `OutOfBounds` and the buffer
//! is left as it was.

use vstd::prelude::*;

verus! {

/// An access would have reached past the end of the packet buffer.
#[derive(Clone, Copy, Debug, PartialEq, Eq, Structural)]
pub struct OutOfBounds;

/// Whether `len` bytes starting at `offset` lie inside a buffer of
/// `buf_len` bytes.
pub open spec fn in_bounds(buf_len: nat, offset: nat, len: nat) -> bool {
    offset + len <= buf_len
}

/// The 16-bit number that two bytes spell in network byte order.
pub open spec fn be16(hi: u8, lo: u8) -> u16 {
    (hi as u16 * 256 + lo as u16) as u16
}

/// The 32-bit number that four bytes spell in network byte order.
pub open spec fn be32(b0: u8, b1: u8, b2: u8, b3: u8) -> u32 {
    (b0 as u32 * 0x100_0000 + b1 as u32 * 0x1_0000 + b2 as u32 * 0x100 + b3 as u32) as u32
}

/// The byte of `v` that goes on the wire at position `i`, counted from the
/// most significant one.
pub open spec fn be_byte(v: u32, i: nat) -> u8 {
    if i == 0 {
        (v / 0x100_0000) as u8
    } else if i == 1 {
        ((v / 0x1_0000) % 256) as u8
    } else if i == 2 {
        ((v / 0x100) % 256) as u8
    } else {
        (v % 256) as u8
    }
}

/// The 16-bit field at `offset`, read in network byte order.
pub open spec fn field16(buf: Seq<u8>, offset: int) -> u16
    recommends
        0 <= offset,
        offset + 2 <= buf.len(),
{
    be16(buf[offset], buf[offset + 1])
}

/// The 32-bit field at `offset`, read in network byte order.
pub open spec fn field32(buf: Seq<u8>, offset: int) -> u32
    recommends
        0 <= offset,
        offset + 4 <= buf.len(),
{
    be32(buf[offset], buf[offset + 1], buf[offset + 2], buf[offset + 3])
}

/// `buf` with the 16-bit field at `offset` set to `v` in network byte order.
pub open spec fn with_field16(buf: Seq<u8>, offset: int, v: u16) -> Seq<u8>
    recommends
        0 <= offset,
        offset + 2 <= buf.len(),
{
    buf.update(offset, (v / 256) as u8).update(offset + 1, (v % 256) as u8)
}

/// `buf` with the 32-bit field at `offset` set to `v` in network byte order.
pub open spec fn with_field32(buf: Seq<u8>, offset: int, v: u32) -> Seq<u8>
    recommends
        0 <= offset,
        offset + 4 <= buf.len(),
{
    buf.update(offset, be_byte(v, 0)).update(offset + 1, be_byte(v, 1)).update(
        offset + 2,
        be_byte(v, 2),
    ).update(offset + 3, be_byte(v, 3))
}

/// Writing a 16-bit field and reading it back gives what was written; the
/// write keeps the length and touches no byte outside the field.
pub proof fn lemma_with_field16(buf: Seq<u8>, offset: int, v: u16)
    requires
        0 <= offset,
        offset + 2 <= buf.len(),
    ensures
        with_field16(buf, offset, v).len() == buf.len(),
        field16(with_field16(buf, offset, v), offset) == v,
        forall|i: int|
            0 <= i < buf.len() && !(offset <= i < offset + 2) ==> with_field16(buf, offset, v)[i]
                == buf[i],
{
    let out = with_field16(buf, offset, v);
    assert(out[offset] == v / 256);
    assert(out[offset + 1] == v % 256);
}

/// Writing a 32-bit field and reading it back gives what was written; the
/// write keeps the length and touches no byte outside the field.
pub proof fn lemma_with_field32(buf: Seq<u8>, offset: int, v: u32)
    requires
        0 <= offset,
        offset + 4 <= buf.len(),
    ensures
        with_field32(buf, offset, v).len() == buf.len(),
        field32(with_field32(buf, offset, v), offset) == v,
        forall|i: int|
            0 <= i < buf.len() && !(offset <= i < offset + 4) ==> with_field32(buf, offset, v)[i]
                == buf[i],
{
    let out = with_field32(buf, offset, v);
    let b0 = out[offset];
    let b1 = out[offset + 1];
    let b2 = out[offset + 2];
    let b3 = out[offset + 3];
    assert(b0 == v / 0x100_0000);
    assert(b1 == (v / 0x1_0000) % 256);
    assert(b2 == (v / 0x100) % 256);
    assert(b3 == v % 256);
    assert(v == b0 * 0x100_0000 + b1 * 0x1_0000 + b2 * 0x100 + b3);
}

/// Checks that `len` bytes at `offset` lie inside `buf`.
pub fn check_bounds(buf: &Vec<u8>, offset: usize, len: usize) -> (r: Result<(), OutOfBounds>)
    ensures
        r.is_ok() <==> in_bounds(buf@.len(), offset as nat, len as nat),
        r.is_ok() ==> offset + len <= usize::MAX,
{
    if offset > buf.len() || len > buf.len() - offset {
        Err(OutOfBounds)
    } else {
        Ok(())
    }
}

/// Reads the byte at `offset`.
pub fn read_u8(buf: &Vec<u8>, offset: usize) -> (r: Result<u8, OutOfBounds>)
    ensures
        in_bounds(buf@.len(), offset as nat, 1) ==> r == Ok::<u8, OutOfBounds>(buf@[offset as int]),
        !in_bounds(buf@.len(), offset as nat, 1) ==> r.is_err(),
{
    match check_bounds(buf, offset, 1) {
        Ok(()) => Ok(buf[offset]),
        Err(e) => Err(e),
    }
}

/// Reads the 16-bit field at `offset` and converts it to host order.
pub fn read_u16(buf: &Vec<u8>, offset: usize) -> (r: Result<u16, OutOfBounds>)
    ensures
        in_bounds(buf@.len(), offset as nat, 2) ==> r == Ok::<u16, OutOfBounds>(
            field16(buf@, offset as int),
        ),
        !in_bounds(buf@.len(), offset as nat, 2) ==> r.is_err(),
{
    match check_bounds(buf, offset, 2) {
        Ok(()) => {
            let hi: u16 = buf[offset] as u16;
            let lo: u16 = buf[offset + 1] as u16;
            Ok(hi * 256 + lo)
        },
        Err(e) => Err(e),
    }
}

/// Reads the 32-bit field at `offset` and converts it to host order.
pub fn read_u32(buf: &Vec<u8>, offset: usize) -> (r: Result<u32, OutOfBounds>)
    ensures
        in_bounds(buf@.len(), offset as nat, 4) ==> r == Ok::<u32, OutOfBounds>(
            field32(buf@, offset as int),
        ),
        !in_bounds(buf@.len(), offset as nat, 4) ==> r.is_err(),
{
    match check_bounds(buf, offset, 4) {
        Ok(()) => {
            let b0: u32 = buf[offset] as u32;
            let b1: u32 = buf[offset + 1] as u32;
            let b2: u32 = buf[offset + 2] as u32;
            let b3: u32 = buf[offset + 3] as u32;
            Ok(b0 * 0x100_0000 + b1 * 0x1_0000 + b2 * 0x100 + b3)
        },
        Err(e) => Err(e),
    }
}

/// Writes `v` to the 16-bit field at `offset` in network byte order.
///
/// The bounds are checked again here, whatever the caller has checked
/// before; out of bounds, nothing is written.
pub fn write_u16(buf: &mut Vec<u8>, offset: usize, v: u16) -> (r: Result<(), OutOfBounds>)
    ensures
        r.is_ok() <==> in_bounds(old(buf)@.len(), offset as nat, 2),
        r.is_ok() ==> final(buf)@ == with_field16(old(buf)@, offset as int, v),
        r.is_err() ==> final(buf)@ == old(buf)@,
{
    match check_bounds(buf, offset, 2) {
        Ok(()) => {
            buf.set(offset, (v / 256) as u8);
            buf.set(offset + 1, (v % 256) as u8);
            Ok(())
        },
        Err(e) => Err(e),
    }
}

/// Writes `v` to the 32-bit field at `offset` in network byte order.
///
/// The bounds are checked again here, whatever the caller has checked
/// before; out of bounds, nothing is written.
pub fn write_u32(buf: &mut Vec<u8>, offset: usize, v: u32) -> (r: Result<(), OutOfBounds>)
    ensures
        r.is_ok() <==> in_bounds(old(buf)@.len(), offset as nat, 4),
        r.is_ok() ==> final(buf)@ == with_field32(old(buf)@, offset as int, v),
        r.is_err() ==> final(buf)@ == old(buf)@,
{
    match check_bounds(buf, offset, 4) {
        Ok(()) => {
            buf.set(offset, (v / 0x100_0000) as u8);
            buf.set(offset + 1, ((v / 0x1_0000) % 256) as u8);
            buf.set(offset + 2, ((v / 0x100) % 256) as u8);
            buf.set(offset + 3, (v % 256) as u8);
            Ok(())
        },
        Err(e) => Err(e),
    }
}

} // verus!
