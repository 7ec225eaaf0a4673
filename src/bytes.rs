use vstd::prelude::*;
use vstd::utf8::{decode_utf8, valid_utf8};

use crate::error::Error;

verus! {

/// The unsigned little-endian integer held by `d[p]`, `d[p + 1]`.
pub open spec fn le16(d: Seq<u8>, p: int) -> int {
    d[p] as int + 256 * d[p + 1] as int
}

/// The unsigned little-endian integer held by `d[p]` .. `d[p + 3]`.
pub open spec fn le32(d: Seq<u8>, p: int) -> int {
    le16(d, p) + 65536 * le16(d, p + 2)
}

/// Whether `n` bytes starting at `p` lie inside `d`.
pub open spec fn fits(d: Seq<u8>, p: int, n: int) -> bool {
    0 <= p && p + n <= d.len()
}

/// Reads the byte at `pos`, if there is one.
pub fn u8_at(data: &[u8], pos: u64) -> (r: Option<u8>)
    ensures
        r == (if fits(data@, pos as int, 1) {
            Some(data@[pos as int])
        } else {
            None::<u8>
        }),
{
    if pos < data.len() as u64 {
        Some(data[pos as usize])
    } else {
        None
    }
}

/// Reads a little-endian `u16` at `pos`, if the buffer holds one there.
pub fn u16_at(data: &[u8], pos: u64) -> (r: Option<u16>)
    ensures
        r == (if fits(data@, pos as int, 2) {
            Some(le16(data@, pos as int) as u16)
        } else {
            None::<u16>
        }),
        r is Some ==> r->0 as int == le16(data@, pos as int),
{
    let len = data.len() as u64;
    if pos <= len && len - pos >= 2 {
        let p = pos as usize;
        let v = data[p] as u16 + 256 * (data[p + 1] as u16);
        Some(v)
    } else {
        None
    }
}

/// Reads a little-endian `u32` at `pos`, if the buffer holds one there.
pub fn u32_at(data: &[u8], pos: u64) -> (r: Option<u32>)
    ensures
        r == (if fits(data@, pos as int, 4) {
            Some(le32(data@, pos as int) as u32)
        } else {
            None::<u32>
        }),
        r is Some ==> r->0 as int == le32(data@, pos as int),
{
    let len = data.len() as u64;
    if pos <= len && len - pos >= 4 {
        let p = pos as usize;
        let lo = data[p] as u32 + 256 * (data[p + 1] as u32);
        let hi = data[p + 2] as u32 + 256 * (data[p + 3] as u32);
        Some(lo + 65536 * hi)
    } else {
        None
    }
}

/// Relies on `String::from_utf8`: it succeeds exactly on valid UTF-8, and
/// then holds the text those bytes encode.
#[verifier::external_body]
pub(crate) fn utf8_text(b: Vec<u8>) -> (r: Option<String>)
    ensures
        r is Some <==> valid_utf8(b@),
        r is Some ==> r->0@ == decode_utf8(b@),
{
    String::from_utf8(b).ok()
}

/// A read position over a borrowed byte buffer.
pub struct ByteCursor<'a> {
    pub data: &'a [u8],
    pub pos: u64,
}

impl<'a> ByteCursor<'a> {
    pub fn new(data: &'a [u8]) -> (r: ByteCursor<'a>)
        ensures
            r.data@ == data@,
            r.pos == 0,
    {
        ByteCursor { data, pos: 0 }
    }

    pub fn position(&self) -> (r: u64)
        ensures
            r == self.pos,
    {
        self.pos
    }

    pub fn set_position(&mut self, pos: u64)
        ensures
            final(self).data == old(self).data,
            final(self).pos == pos,
    {
        self.pos = pos;
    }

    pub fn get_ref(&self) -> (r: &'a [u8])
        ensures
            r == self.data,
    {
        self.data
    }

    /// Reads one byte and moves past it; on a short read nothing moves.
    pub fn read_u8(&mut self) -> (r: Result<u8, Error>)
        ensures
            final(self).data == old(self).data,
            fits(old(self).data@, old(self).pos as int, 1) ==> r == Ok::<u8, Error>(
                old(self).data@[old(self).pos as int],
            ) && final(self).pos == old(self).pos + 1,
            !fits(old(self).data@, old(self).pos as int, 1) ==> r == Err::<u8, Error>(
                Error::UnexpectedEndOfData,
            ) && final(self).pos == old(self).pos,
    {
        let len = self.data.len();
        match u8_at(self.data, self.pos) {
            Some(v) => {
                assert(self.data@.len() == len);
                self.pos = self.pos + 1;
                Ok(v)
            },
            None => Err(Error::UnexpectedEndOfData),
        }
    }

    /// Reads a little-endian `u16` and moves past it; on a short read nothing moves.
    pub fn read_u16(&mut self) -> (r: Result<u16, Error>)
        ensures
            final(self).data == old(self).data,
            fits(old(self).data@, old(self).pos as int, 2) ==> r is Ok && r->Ok_0 as int == le16(
                old(self).data@,
                old(self).pos as int,
            ) && final(self).pos == old(self).pos + 2,
            !fits(old(self).data@, old(self).pos as int, 2) ==> r == Err::<u16, Error>(
                Error::UnexpectedEndOfData,
            ) && final(self).pos == old(self).pos,
    {
        let len = self.data.len();
        match u16_at(self.data, self.pos) {
            Some(v) => {
                assert(self.data@.len() == len);
                self.pos = self.pos + 2;
                Ok(v)
            },
            None => Err(Error::UnexpectedEndOfData),
        }
    }

    /// Reads a little-endian `u32` and moves past it; on a short read nothing moves.
    pub fn read_u32(&mut self) -> (r: Result<u32, Error>)
        ensures
            final(self).data == old(self).data,
            fits(old(self).data@, old(self).pos as int, 4) ==> r is Ok && r->Ok_0 as int == le32(
                old(self).data@,
                old(self).pos as int,
            ) && final(self).pos == old(self).pos + 4,
            !fits(old(self).data@, old(self).pos as int, 4) ==> r == Err::<u32, Error>(
                Error::UnexpectedEndOfData,
            ) && final(self).pos == old(self).pos,
    {
        let len = self.data.len();
        match u32_at(self.data, self.pos) {
            Some(v) => {
                assert(self.data@.len() == len);
                self.pos = self.pos + 4;
                Ok(v)
            },
            None => Err(Error::UnexpectedEndOfData),
        }
    }
}

} // verus!
