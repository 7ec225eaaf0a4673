use std::collections::HashMap;
use std::rc::Rc;

use vstd::prelude::*;
use vstd::utf8::{decode_utf8, valid_utf8};

use crate::bytes::{fits, le32, u32_at, u8_at, utf8_text, ByteCursor};
use crate::chunk_header::ChunkHeader;
use crate::error::Error;

verus! {

broadcast use vstd::std_specs::hash::group_hash_axioms;

/// The `u32` field at chunk-relative `rel` of the chunk at `off`, or 0 when
/// the buffer ends before it.
pub open spec fn count_field(d: Seq<u8>, off: int, rel: int) -> u32 {
    if fits(d, off + rel, 4) {
        le32(d, off + rel) as u32
    } else {
        0
    }
}

/// Whether the string base and the first `idx + 1` string offsets can be read.
pub open spec fn position_ok(d: Seq<u8>, off: int, idx: int) -> bool {
    fits(d, off + 20, 4) && fits(d, off + 28, 4 * (idx + 1))
}

/// Where string `idx` starts: the chunk start, plus the strings' base, plus
/// the string's own offset.
pub open spec fn string_position(d: Seq<u8>, off: int, idx: int) -> int {
    off + le32(d, off + 20) + le32(d, off + 28 + 4 * idx)
}

/// Whether the length prefix at `pos` and the body it announces lie in `d`.
pub open spec fn body_ok(d: Seq<u8>, pos: int) -> bool {
    &&& fits(d, pos, 2)
    &&& if d[pos] == d[pos + 1] {
        fits(d, pos + 2, d[pos] as int)
    } else {
        fits(d, pos + 2, 2 * (256 * d[pos + 1] + d[pos]))
    }
}

/// The text bytes of the string at `pos`: with two equal length bytes, that
/// many bytes follow; otherwise the length bytes give a count of two-byte
/// units, of which the first byte of each is kept.
pub open spec fn string_bytes(d: Seq<u8>, pos: int) -> Seq<u8> {
    if d[pos] == d[pos + 1] {
        d.subrange(pos + 2, pos + 2 + d[pos])
    } else {
        Seq::new((256 * d[pos + 1] + d[pos]) as nat, |k: int| d[pos + 2 + 2 * k])
    }
}

/// The error looking up string `idx` of the pool at `off` fails with, or
/// `None` when it succeeds. An index equal to the count is let through to
/// the lookup.
pub open spec fn string_error(d: Seq<u8>, off: int, idx: int) -> Option<Error> {
    if idx > count_field(d, off, 8) {
        Some(Error::IndexOutOfBounds)
    } else if !position_ok(d, off, idx) || !body_ok(d, string_position(d, off, idx)) {
        Some(Error::UnexpectedEndOfData)
    } else if !valid_utf8(string_bytes(d, string_position(d, off, idx))) {
        Some(Error::Decode)
    } else {
        None
    }
}

/// The text of string `idx` of the pool at `off`.
pub open spec fn string_text(d: Seq<u8>, off: int, idx: int) -> Seq<char> {
    decode_utf8(string_bytes(d, string_position(d, off, idx)))
}

/// Relies on `Rc::clone`: the new handle points to the same value.
#[verifier::external_body]
fn share(s: &Rc<String>) -> (r: Rc<String>)
    ensures
        r == *s,
{
    Rc::clone(s)
}

/// The text that stands for a string that cannot be decoded.
pub open spec fn unknown_text() -> Seq<char> {
    seq!['<', 'U', 'N', 'K', 'O', 'W', 'N', '>']
}

pub struct StringTableDecoder;

impl StringTableDecoder {
    /// A string pool over the cursor's buffer.
    pub fn decode<'a>(cursor: &ByteCursor<'a>, header: &ChunkHeader) -> (r: StringTableWrapper<'a>)
        ensures
            r.raw_data == cursor.data,
            r.header == *header,
    {
        StringTableWrapper::new(cursor.get_ref(), *header)
    }
}

/// A string pool read straight from the buffer; each lookup decodes anew.
pub struct StringTableWrapper<'a> {
    pub raw_data: &'a [u8],
    pub header: ChunkHeader,
}

impl<'a> StringTableWrapper<'a> {
    pub open spec fn spec_error(&self, idx: int) -> Option<Error> {
        string_error(self.raw_data@, self.header.offset as int, idx)
    }

    pub open spec fn spec_text(&self, idx: int) -> Seq<char> {
        string_text(self.raw_data@, self.header.offset as int, idx)
    }

    pub open spec fn spec_strings_len(&self) -> u32 {
        count_field(self.raw_data@, self.header.offset as int, 8)
    }

    pub fn new(raw_data: &'a [u8], header: ChunkHeader) -> (r: Self)
        ensures
            r.raw_data == raw_data,
            r.header == header,
    {
        StringTableWrapper { raw_data, header }
    }

    fn field(&self, rel: u64) -> (r: u32)
        ensures
            r == count_field(self.raw_data@, self.header.offset as int, rel as int),
    {
        match self.header.offset.checked_add(rel) {
            Some(pos) => match u32_at(self.raw_data, pos) {
                Some(v) => v,
                None => 0,
            },
            None => {
                assert(self.raw_data@.len() == self.raw_data.len());
                0
            },
        }
    }

    /// The number of strings, or 0 when the field cannot be read.
    pub fn get_strings_len(&self) -> (r: u32)
        ensures
            r == self.spec_strings_len(),
    {
        self.field(8)
    }

    /// The number of styles, or 0 when the field cannot be read.
    pub fn get_styles_len(&self) -> (r: u32)
        ensures
            r == count_field(self.raw_data@, self.header.offset as int, 12),
    {
        self.field(12)
    }

    /// Decodes string `idx`.
    pub fn get_string(&self, idx: u32) -> (r: Result<String, Error>)
        ensures
            r is Err <==> self.spec_error(idx as int) is Some,
            r is Err ==> r->Err_0 == self.spec_error(idx as int)->0,
            r is Ok ==> r->Ok_0@ == self.spec_text(idx as int),
    {
        let amount = self.get_strings_len();
        if idx > amount {
            return Err(Error::IndexOutOfBounds);
        }
        let position = self.get_string_position(idx)?;
        assert(self.raw_data@.len() == self.raw_data.len());
        self.parse_string(position)
    }

    /// Where string `idx` starts. A position beyond `u64` comes back as
    /// `u64::MAX`, where no string body fits either.
    pub fn get_string_position(&self, idx: u32) -> (r: Result<u64, Error>)
        ensures
            r is Ok <==> position_ok(self.raw_data@, self.header.offset as int, idx as int),
            r is Err ==> r->Err_0 == Error::UnexpectedEndOfData,
            r is Ok ==> r->Ok_0 == (if string_position(
                self.raw_data@,
                self.header.offset as int,
                idx as int,
            ) <= u64::MAX {
                string_position(self.raw_data@, self.header.offset as int, idx as int)
            } else {
                u64::MAX as int
            }),
    {
        let d = self.raw_data;
        let len = d.len();
        assert(d@.len() == len);
        let off = self.header.offset;
        let base_pos = match off.checked_add(20) {
            Some(p) => p,
            None => return Err(Error::UnexpectedEndOfData),
        };
        let base = match u32_at(d, base_pos) {
            Some(v) => v,
            None => return Err(Error::UnexpectedEndOfData),
        };
        let last_pos = match off.checked_add(28 + 4 * (idx as u64)) {
            Some(p) => p,
            None => return Err(Error::UnexpectedEndOfData),
        };
        let current = match u32_at(d, last_pos) {
            Some(v) => v,
            None => return Err(Error::UnexpectedEndOfData),
        };
        match off.checked_add(base as u64) {
            Some(start) => match start.checked_add(current as u64) {
                Some(pos) => Ok(pos),
                None => Ok(u64::MAX),
            },
            None => Ok(u64::MAX),
        }
    }

    /// Decodes the length-prefixed string at `pos`.
    pub fn parse_string(&self, pos: u64) -> (r: Result<String, Error>)
        ensures
            r is Err <==> !body_ok(self.raw_data@, pos as int) || !valid_utf8(
                string_bytes(self.raw_data@, pos as int),
            ),
            r is Err ==> r->Err_0 == (if !body_ok(self.raw_data@, pos as int) {
                Error::UnexpectedEndOfData
            } else {
                Error::Decode
            }),
            r is Ok ==> r->Ok_0@ == decode_utf8(string_bytes(self.raw_data@, pos as int)),
    {
        let d = self.raw_data;
        let len = d.len();
        assert(d@.len() == len);
        let size1 = match u8_at(d, pos) {
            Some(b) => b,
            None => return Err(Error::UnexpectedEndOfData),
        };
        let size2 = match u8_at(d, pos + 1) {
            Some(b) => b,
            None => return Err(Error::UnexpectedEndOfData),
        };
        let start = pos + 2;
        let mut raw: Vec<u8> = Vec::new();
        if size1 == size2 {
            let n = size1 as u64;
            if start > len as u64 || (len as u64) - start < n {
                return Err(Error::UnexpectedEndOfData);
            }
            let mut k: u64 = 0;
            while k < n
                invariant
                    d@.len() == len,
                    start + n <= len,
                    k <= n,
                    raw@ =~= d@.subrange(start as int, start + k),
                decreases n - k,
            {
                raw.push(d[(start + k) as usize]);
                k = k + 1;
            }
        } else {
            let n = 256 * (size2 as u64) + (size1 as u64);
            if start > len as u64 || (len as u64) - start < 2 * n {
                return Err(Error::UnexpectedEndOfData);
            }
            let mut k: u64 = 0;
            while k < n
                invariant
                    d@.len() == len,
                    start + 2 * n <= len,
                    k <= n,
                    raw@.len() == k,
                    forall|j: int| 0 <= j < k ==> #[trigger] raw@[j] == d@[start + 2 * j],
                decreases n - k,
            {
                raw.push(d[(start + 2 * k) as usize]);
                k = k + 1;
            }
        }
        assert(raw@ =~= string_bytes(d@, pos as int));
        match utf8_text(raw) {
            Some(s) => Ok(s),
            None => Err(Error::Decode),
        }
    }
}

/// A string pool that keeps each string it has decoded, shared, for later
/// requests.
pub struct StringTable<'a> {
    pub wrapper: StringTableWrapper<'a>,
    pub cache: HashMap<u32, Rc<String>>,
    /// How many lookups had to decode, saturating at `u64::MAX`.
    pub decodes: u64,
}

impl<'a> StringTable<'a> {
    /// Every cached string is the one its index decodes to.
    pub open spec fn wf(&self) -> bool {
        forall|k: u32|
            #[trigger] self.cache@.contains_key(k) ==> self.wrapper.spec_error(k as int) is None
                && self.cache@[k]@ == self.wrapper.spec_text(k as int)
    }

    /// What a cached lookup of `idx` from `pre` to `post` returning `r` does:
    /// a cached string comes back as it is; a decoded one is cached.
    pub open spec fn get_post(
        pre: StringTable<'a>,
        post: StringTable<'a>,
        idx: u32,
        r: Result<Rc<String>, Error>,
    ) -> bool {
        &&& post.wrapper == pre.wrapper
        &&& r is Err <==> pre.wrapper.spec_error(idx as int) is Some
        &&& r is Err ==> r->Err_0 == pre.wrapper.spec_error(idx as int)->0 && post.cache@
            == pre.cache@ && post.decodes == pre.decodes
        &&& r is Ok ==> r->Ok_0@ == pre.wrapper.spec_text(idx as int)
        &&& (r is Ok && pre.cache@.contains_key(idx)) ==> r->Ok_0 == pre.cache@[idx]
            && post.cache@ == pre.cache@ && post.decodes == pre.decodes
        &&& (r is Ok && !pre.cache@.contains_key(idx)) ==> post.cache@ == pre.cache@.insert(
            idx,
            r->Ok_0,
        ) && post.decodes == (if pre.decodes < u64::MAX {
            pre.decodes + 1
        } else {
            pre.decodes as int
        })
    }

    pub fn new(wrapper: StringTableWrapper<'a>) -> (r: Self)
        ensures
            r.wrapper == wrapper,
            r.cache@ == Map::<u32, Rc<String>>::empty(),
            r.decodes == 0,
            r.wf(),
    {
        StringTable { wrapper, cache: HashMap::new(), decodes: 0 }
    }

    pub fn get_strings_len(&self) -> (r: u32)
        ensures
            r == self.wrapper.spec_strings_len(),
    {
        self.wrapper.get_strings_len()
    }

    pub fn get_styles_len(&self) -> (r: u32)
        ensures
            r == count_field(self.wrapper.raw_data@, self.wrapper.header.offset as int, 12),
    {
        self.wrapper.get_styles_len()
    }

    /// How many lookups have decoded a string rather than reused one.
    pub fn decode_count(&self) -> (r: u64)
        ensures
            r == self.decodes,
    {
        self.decodes
    }

    /// String `idx`, decoded on the first request and shared afterwards.
    pub fn get_string(&mut self, idx: u32) -> (r: Result<Rc<String>, Error>)
        requires
            old(self).wf(),
        ensures
            final(self).wf(),
            Self::get_post(*old(self), *final(self), idx, r),
    {
        if idx > self.get_strings_len() {
            return Err(Error::IndexOutOfBounds);
        }
        match self.cache.get(&idx) {
            Some(s) => {
                return Ok(share(s));
            },
            None => {},
        }
        let string = self.wrapper.get_string(idx)?;
        let rc_string = Rc::new(string);
        self.cache.insert(idx, share(&rc_string));
        if self.decodes < u64::MAX {
            self.decodes = self.decodes + 1;
        }
        Ok(rc_string)
    }

    /// Every string of the pool in index order, with `<UNKOWN>` in place of
    /// one that cannot be decoded.
    pub fn listing(&self) -> (r: Vec<String>)
        ensures
            r@.len() == self.wrapper.spec_strings_len(),
            forall|i: int|
                0 <= i < r@.len() ==> #[trigger] r@[i]@ == (if self.wrapper.spec_error(i) is None {
                    self.wrapper.spec_text(i)
                } else {
                    unknown_text()
                }),
    {
        let amount = self.get_strings_len();
        let mut out: Vec<String> = Vec::new();
        let mut i: u32 = 0;
        while i < amount
            invariant
                amount == self.wrapper.spec_strings_len(),
                i <= amount,
                out@.len() == i,
                forall|k: int|
                    0 <= k < i ==> #[trigger] out@[k]@ == (if self.wrapper.spec_error(k) is None {
                        self.wrapper.spec_text(k)
                    } else {
                        unknown_text()
                    }),
            decreases amount - i,
        {
            let text = match self.get_uncached_string(i) {
                Ok(s) => (*s).clone(),
                Err(_) => {
                    proof {
                        reveal_strlit("<UNKOWN>");
                    }
                    let t = "<UNKOWN>".to_owned();
                    assert(t@ =~= unknown_text());
                    t
                },
            };
            out.push(text);
            i = i + 1;
        }
        out
    }

    /// String `idx`, decoded anew and not cached.
    pub fn get_uncached_string(&self, idx: u32) -> (r: Result<Rc<String>, Error>)
        ensures
            r is Err <==> self.wrapper.spec_error(idx as int) is Some,
            r is Err ==> r->Err_0 == self.wrapper.spec_error(idx as int)->0,
            r is Ok ==> r->Ok_0@ == self.wrapper.spec_text(idx as int),
    {
        let string = self.wrapper.get_string(idx)?;
        Ok(Rc::new(string))
    }
}

/// Asking the cached pool twice for one string gives the same result both
/// times, and the second request neither decodes nor changes the cache.
pub proof fn lemma_get_string_twice<'a>(
    t0: StringTable<'a>,
    t1: StringTable<'a>,
    t2: StringTable<'a>,
    idx: u32,
    r1: Result<Rc<String>, Error>,
    r2: Result<Rc<String>, Error>,
)
    requires
        StringTable::get_post(t0, t1, idx, r1),
        StringTable::get_post(t1, t2, idx, r2),
    ensures
        r2 == r1,
        t2.cache@ == t1.cache@,
        t2.decodes == t1.decodes,
{
    if r1 is Ok {
        if !t0.cache@.contains_key(idx) {
            assert(t1.cache@.contains_key(idx));
        }
    }
}

/// Lookups below or at the count never fail for the index, lookups past it
/// always do, and a lookup at or below the count of a pool whose offsets and
/// text are sound succeeds.
pub proof fn lemma_index_bound(w: StringTableWrapper, idx: u32)
    ensures
        idx > w.spec_strings_len() ==> w.spec_error(idx as int) == Some(Error::IndexOutOfBounds),
        idx <= w.spec_strings_len() ==> w.spec_error(idx as int) != Some(Error::IndexOutOfBounds),
        ({
            let d = w.raw_data@;
            let off = w.header.offset as int;
            idx <= w.spec_strings_len() && position_ok(d, off, idx as int) && body_ok(
                d,
                string_position(d, off, idx as int),
            ) && valid_utf8(string_bytes(d, string_position(d, off, idx as int)))
        }) ==> w.spec_error(idx as int) is None,
{
}

} // verus!
