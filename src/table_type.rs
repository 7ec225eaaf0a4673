use vstd::prelude::*;

use crate::bytes::{fits, le16, le32, ByteCursor};
use crate::chunk_header::ChunkHeader;
use crate::config::{config_error, ResourceConfiguration};
use crate::error::Error;

verus! {

/// The offset-table value, and the complex value count, that mark a slot
/// with no entry.
pub const NO_ENTRY: u32 = 0xFFFF_FFFF;

/// Flag bit of an entry header that marks a complex entry.
pub const MASK_COMPLEX: u16 = 0x0001;

/// One scalar resource value.
#[derive(Debug, Clone, Copy, PartialEq, Eq, Structural)]
pub struct SimpleEntry {
    pub key_index: u32,
    pub size: u16,
    pub value_type: u8,
    pub value_data: u32,
}

/// A decoded entry: one scalar value, or a bag of scalar values that share a
/// parent.
#[derive(Debug)]
pub enum Entry {
    Simple(SimpleEntry),
    Complex { key_index: u32, parent_entry_id: u32, entries: Vec<SimpleEntry> },
}

/// What an [`Entry`] holds, with its values as a sequence.
pub enum EntryView {
    Simple(SimpleEntry),
    Complex { key_index: u32, parent_entry_id: u32, entries: Seq<SimpleEntry> },
}

impl View for Entry {
    type V = EntryView;

    open spec fn view(&self) -> EntryView {
        match self {
            Entry::Simple(s) => EntryView::Simple(*s),
            Entry::Complex { key_index, parent_entry_id, entries } => EntryView::Complex {
                key_index: *key_index,
                parent_entry_id: *parent_entry_id,
                entries: entries@,
            },
        }
    }
}

impl Entry {
    pub fn new_simple(key_index: u32, size: u16, value_type: u8, value_data: u32) -> (r: Self)
        ensures
            r@ == EntryView::Simple(SimpleEntry { key_index, size, value_type, value_data }),
    {
        Entry::Simple(SimpleEntry { key_index, size, value_type, value_data })
    }

    pub fn new_complex(key_index: u32, parent_entry_id: u32, entries: Vec<SimpleEntry>) -> (r:
        Self)
        ensures
            r@ == (EntryView::Complex { key_index, parent_entry_id, entries: entries@ }),
    {
        Entry::Complex { key_index, parent_entry_id, entries }
    }
}

/// The fixed head of every entry.
#[derive(Debug, Clone, Copy, PartialEq, Eq, Structural)]
pub struct EntryHeader {
    pub header_size: u16,
    pub flags: u16,
    pub key_index: u32,
}

impl EntryHeader {
    pub fn new(header_size: u16, flags: u16, key_index: u32) -> (r: Self)
        ensures
            r == (EntryHeader { header_size, flags, key_index }),
    {
        EntryHeader { header_size, flags, key_index }
    }

    pub fn is_complex(&self) -> (r: bool)
        ensures
            r == (self.flags % 2 == 1),
    {
        let flags = self.flags;
        assert((flags & 1u16) > 0 <==> flags % 2 == 1) by (bit_vector);
        (self.flags & MASK_COMPLEX) > 0
    }

    pub fn get_key_index(&self) -> (r: u32)
        ensures
            r == self.key_index,
    {
        self.key_index
    }
}

/// The scalar value whose 8 bytes start at `p`, filed under `key`.
pub open spec fn simple_at(d: Seq<u8>, p: int, key: u32) -> SimpleEntry {
    SimpleEntry {
        key_index: key,
        size: le16(d, p) as u16,
        value_type: d[p + 3],
        value_data: le32(d, p + 4) as u32,
    }
}

pub open spec fn is_complex_at(d: Seq<u8>, q: int) -> bool {
    le16(d, q + 2) % 2 == 1
}

pub open spec fn key_at(d: Seq<u8>, q: int) -> u32 {
    le32(d, q + 4) as u32
}

pub open spec fn value_count_at(d: Seq<u8>, q: int) -> int {
    le32(d, q + 12)
}

/// Whether the buffer holds every byte the entry at `q` needs.
pub open spec fn entry_ok(d: Seq<u8>, q: int) -> bool {
    &&& fits(d, q, 16)
    &&& (!is_complex_at(d, q) || value_count_at(d, q) == NO_ENTRY || fits(
        d,
        q + 16,
        12 * value_count_at(d, q),
    ))
}

/// Whether the entry at `q` yields a value: all but a complex entry whose
/// count is the no-entry mark.
pub open spec fn entry_present(d: Seq<u8>, q: int) -> bool {
    !is_complex_at(d, q) || value_count_at(d, q) != NO_ENTRY
}

/// The entry at `q`. Every value of a complex entry carries the entry's own
/// key; the identifier stored before each value is skipped.
pub open spec fn entry_view_at(d: Seq<u8>, q: int) -> EntryView {
    if is_complex_at(d, q) {
        EntryView::Complex {
            key_index: key_at(d, q),
            parent_entry_id: le32(d, q + 8) as u32,
            entries: Seq::new(
                value_count_at(d, q) as nat,
                |j: int| simple_at(d, q + 16 + 12 * j + 4, key_at(d, q)),
            ),
        }
    } else {
        EntryView::Simple(simple_at(d, q + 8, key_at(d, q)))
    }
}

pub open spec fn slot_offset(d: Seq<u8>, base: int, i: int) -> int {
    le32(d, base + 4 * i)
}

/// Whether the first `n` slots of the offset table at `base`, and the entries
/// they point to, can be read.
pub open spec fn table_ok(d: Seq<u8>, base: int, n: nat) -> bool
    decreases n,
{
    if n == 0 {
        true
    } else {
        let i = n - 1;
        &&& table_ok(d, base, (n - 1) as nat)
        &&& fits(d, base + 4 * i, 4)
        &&& (slot_offset(d, base, i) == NO_ENTRY || entry_ok(d, base + slot_offset(d, base, i)))
    }
}

/// The entries the first `n` slots of the offset table at `base` yield, in
/// slot order; empty slots and absent complex entries yield nothing.
pub open spec fn table_entries(d: Seq<u8>, base: int, n: nat) -> Seq<EntryView>
    decreases n,
{
    if n == 0 {
        Seq::empty()
    } else {
        let i = n - 1;
        let prev = table_entries(d, base, (n - 1) as nat);
        let q = base + slot_offset(d, base, i);
        if slot_offset(d, base, i) != NO_ENTRY && entry_present(d, q) {
            prev.push(entry_view_at(d, q))
        } else {
            prev
        }
    }
}

/// Decoded entries as views.
pub open spec fn views(entries: Seq<Entry>) -> Seq<EntryView> {
    entries.map_values(|e: Entry| e@)
}

/// A decoded resource-type chunk.
#[derive(Debug)]
pub struct TableType {
    pub id: u8,
    pub configuration: ResourceConfiguration,
    pub entries: Vec<Entry>,
}

impl TableType {
    /// The chunk body at `p` of `d`, with its offset table at `base`.
    pub open spec fn decoded_from(&self, d: Seq<u8>, p: int, base: int) -> bool {
        &&& self.id == d[p]
        &&& self.configuration.decoded_from(d, p + 12)
        &&& views(self.entries@) == table_entries(d, base, le32(d, p + 4) as nat)
    }
}

/// The error decoding a resource-type chunk body at `p` fails with, given the
/// chunk's data offset `base`, or `None` when it succeeds.
pub open spec fn table_error(d: Seq<u8>, p: int, base: int) -> Option<Error> {
    if !fits(d, p, 12) {
        Some(Error::UnexpectedEndOfData)
    } else if config_error(d, p + 12) is Some {
        config_error(d, p + 12)
    } else if !table_ok(d, base, le32(d, p + 4) as nat) {
        Some(Error::UnexpectedEndOfData)
    } else {
        None
    }
}

pub struct TableTypeDecoder;

impl TableTypeDecoder {
    /// Decodes the resource-type chunk whose body starts at the cursor. On
    /// success the cursor stands after the offset table; on failure it has
    /// not moved.
    pub fn decode(cursor: &mut ByteCursor, header: &ChunkHeader) -> (r: Result<TableType, Error>)
        requires
            header.wf(),
        ensures
            final(cursor).data == old(cursor).data,
            r is Err <==> table_error(
                old(cursor).data@,
                old(cursor).pos as int,
                header.spec_data_offset(),
            ) is Some,
            r is Err ==> r->Err_0 == table_error(
                old(cursor).data@,
                old(cursor).pos as int,
                header.spec_data_offset(),
            )->0 && final(cursor).pos == old(cursor).pos,
            r is Ok ==> r->Ok_0.decoded_from(
                old(cursor).data@,
                old(cursor).pos as int,
                header.spec_data_offset(),
            ) && final(cursor).pos == header.spec_data_offset() + 4 * le32(
                old(cursor).data@,
                old(cursor).pos as int + 4,
            ),
    {
        let mut c = ByteCursor { data: cursor.data, pos: cursor.pos };
        let id = c.read_u8()?;
        c.read_u8()?;  // padding
        c.read_u16()?;  // padding
        let count = c.read_u32()?;
        let _start = c.read_u32()?;

        let configuration = ResourceConfiguration::from_cursor(&mut c)?;

        c.set_position(header.get_data_offset());
        let entries = Self::decode_entries(&mut c, count)?;

        cursor.pos = c.pos;
        Ok(TableType { id, configuration, entries })
    }

    /// Decodes the entry offset table at the cursor and the entries it
    /// points to, each at the table's start plus its offset. On success the
    /// cursor stands after the table.
    pub fn decode_entries(cursor: &mut ByteCursor, count: u32) -> (r: Result<Vec<Entry>, Error>)
        ensures
            final(cursor).data == old(cursor).data,
            r is Ok <==> table_ok(old(cursor).data@, old(cursor).pos as int, count as nat),
            r is Err ==> r->Err_0 == Error::UnexpectedEndOfData,
            r is Ok ==> views(r->Ok_0@) == table_entries(
                old(cursor).data@,
                old(cursor).pos as int,
                count as nat,
            ) && final(cursor).pos == old(cursor).pos + 4 * count,
    {
        let ghost d = cursor.data@;
        let base = cursor.pos;
        let mut entries: Vec<Entry> = Vec::new();
        let mut i: u32 = 0;
        while i < count
            invariant
                cursor.data == old(cursor).data,
                d == cursor.data@,
                base == old(cursor).pos,
                i <= count,
                cursor.pos == base + 4 * i,
                table_ok(d, base as int, i as nat),
                views(entries@) == table_entries(d, base as int, i as nat),
            decreases count - i,
        {
            let offset = match cursor.read_u32() {
                Ok(v) => v,
                Err(e) => {
                    proof {
                        if table_ok(d, base as int, count as nat) {
                            lemma_table_ok_prefix(d, base as int, (i + 1) as nat, count as nat);
                        }
                    }
                    return Err(e);
                },
            };
            let prev_pos = cursor.pos;
            if offset != NO_ENTRY {
                match Self::decode_entry(cursor.data, base, offset) {
                    Ok(Some(e)) => {
                        entries.push(e);
                        proof {
                            assert(views(entries@) =~= table_entries(d, base as int, (i + 1) as nat));
                        }
                    },
                    Ok(None) => {},
                    Err(e) => {
                        proof {
                            if table_ok(d, base as int, count as nat) {
                                lemma_table_ok_prefix(d, base as int, (i + 1) as nat, count as nat);
                            }
                        }
                        return Err(e);
                    },
                }
            }
            cursor.set_position(prev_pos);
            i = i + 1;
        }
        Ok(entries)
    }

    /// Decodes the entry at `base + offset`: `None` for a complex entry that
    /// holds no values.
    pub fn decode_entry(data: &[u8], base: u64, offset: u32) -> (r: Result<Option<Entry>, Error>)
        ensures
            r is Ok <==> entry_ok(data@, base + offset),
            r is Err ==> r->Err_0 == Error::UnexpectedEndOfData,
            r is Ok ==> (r->Ok_0 is Some <==> entry_present(data@, base + offset)),
            r matches Ok(Some(e)) ==> e@ == entry_view_at(data@, base + offset),
    {
        let len = data.len();
        assert(data@.len() == len);
        let q = match base.checked_add(offset as u64) {
            Some(q) => q,
            None => return Err(Error::UnexpectedEndOfData),
        };
        let mut c = ByteCursor { data, pos: q };
        let header_size = c.read_u16()?;
        let flags = c.read_u16()?;
        let key_index = c.read_u32()?;
        let header = EntryHeader::new(header_size, flags, key_index);
        if header.is_complex() {
            Self::decode_complex_entry(&mut c, &header)
        } else {
            Self::decode_simple_entry(&mut c, &header)
        }
    }

    /// Decodes the value of a simple entry at the cursor. On success the
    /// cursor stands after its 8 bytes; on failure it has not moved.
    pub fn decode_simple_entry(cursor: &mut ByteCursor, header: &EntryHeader) -> (r: Result<
        Option<Entry>,
        Error,
    >)
        ensures
            final(cursor).data == old(cursor).data,
            r is Ok <==> fits(old(cursor).data@, old(cursor).pos as int, 8),
            r is Err ==> r->Err_0 == Error::UnexpectedEndOfData && final(cursor).pos == old(
                cursor,
            ).pos,
            r is Ok ==> final(cursor).pos == old(cursor).pos + 8,
            r matches Ok(v) ==> v matches Some(e) && e@ == EntryView::Simple(
                simple_at(old(cursor).data@, old(cursor).pos as int, header.key_index),
            ),
    {
        let mut c = ByteCursor { data: cursor.data, pos: cursor.pos };
        let size = c.read_u16()?;
        c.read_u8()?;  // padding
        let value_type = c.read_u8()?;
        let value_data = c.read_u32()?;
        cursor.pos = c.pos;
        Ok(Some(Entry::new_simple(header.get_key_index(), size, value_type, value_data)))
    }

    /// Decodes the rest of a complex entry at the cursor: `None` when its
    /// value count is the no-entry mark. On success the cursor stands after
    /// the parent and count, and 12 bytes per value; on failure it has not
    /// moved.
    pub fn decode_complex_entry(cursor: &mut ByteCursor, header: &EntryHeader) -> (r: Result<
        Option<Entry>,
        Error,
    >)
        ensures
            final(cursor).data == old(cursor).data,
            ({
                let d = old(cursor).data@;
                let p = old(cursor).pos as int;
                let n = le32(d, p + 4);
                &&& r is Ok <==> fits(d, p, 8) && (n == NO_ENTRY || fits(d, p + 8, 12 * n))
                &&& r is Err ==> r->Err_0 == Error::UnexpectedEndOfData && final(cursor).pos
                    == old(cursor).pos
                &&& r matches Ok(None) ==> final(cursor).pos == p + 8
                &&& r matches Ok(Some(_)) ==> final(cursor).pos == p + 8 + 12 * n
                &&& r is Ok ==> (r->Ok_0 is Some <==> n != NO_ENTRY)
                &&& r matches Ok(Some(e)) ==> e@ == (EntryView::Complex {
                    key_index: header.key_index,
                    parent_entry_id: le32(d, p) as u32,
                    entries: Seq::new(
                        n as nat,
                        |j: int| simple_at(d, p + 8 + 12 * j + 4, header.key_index),
                    ),
                })
            }),
    {
        let ghost d = cursor.data@;
        let ghost p = cursor.pos as int;
        let mut c = ByteCursor { data: cursor.data, pos: cursor.pos };
        let parent_entry_id = c.read_u32()?;
        let value_count = c.read_u32()?;
        if value_count == NO_ENTRY {
            cursor.pos = c.pos;
            return Ok(None);
        }
        let mut entries: Vec<SimpleEntry> = Vec::new();
        let mut j: u32 = 0;
        while j < value_count
            invariant
                c.data == old(cursor).data,
                *cursor == *old(cursor),
                d == c.data@,
                j <= value_count,
                value_count as int == le32(d, p + 4),
                value_count != NO_ENTRY,
                p == old(cursor).pos,
                parent_entry_id as int == le32(d, p),
                c.pos == p + 8 + 12 * j,
                p + 8 + 12 * j <= d.len(),
                entries@.len() == j,
                forall|k: int|
                    0 <= k < j ==> #[trigger] entries@[k] == simple_at(
                        d,
                        p + 8 + 12 * k + 4,
                        header.key_index,
                    ),
            decreases value_count - j,
        {
            let len = c.data.len() as u64;
            if c.pos > len || len - c.pos < 12 {
                assert(!fits(d, p + 8, 12 * value_count));
                return Err(Error::UnexpectedEndOfData);
            }
            let _val_id = c.read_u32()?;
            let size = c.read_u16()?;
            c.read_u8()?;  // padding
            let value_type = c.read_u8()?;
            let value_data = c.read_u32()?;
            entries.push(
                SimpleEntry { key_index: header.get_key_index(), size, value_type, value_data },
            );
            j = j + 1;
        }
        let ghost expected = Seq::new(
            value_count as nat,
            |j: int| simple_at(d, p + 8 + 12 * j + 4, header.key_index),
        );
        assert(entries@ =~= expected);
        cursor.pos = c.pos;
        Ok(Some(Entry::new_complex(header.get_key_index(), parent_entry_id, entries)))
    }
}

/// A complex entry whose value count is the no-entry mark yields nothing,
/// and does not stop the slots after it from being decoded.
pub proof fn lemma_absent_complex_skipped(d: Seq<u8>, base: int, i: nat)
    requires
        0 <= base,
        fits(d, base + 4 * i, 4),
        slot_offset(d, base, i as int) != NO_ENTRY,
        fits(d, base + slot_offset(d, base, i as int), 16),
        is_complex_at(d, base + slot_offset(d, base, i as int)),
        value_count_at(d, base + slot_offset(d, base, i as int)) == NO_ENTRY,
    ensures
        table_entries(d, base, i + 1) == table_entries(d, base, i),
        table_ok(d, base, i + 1) == table_ok(d, base, i),
{
}

/// Every value of every complex entry of a decoded table carries that
/// entry's key, whatever identifier the value was stored with.
pub proof fn lemma_complex_values_share_key(d: Seq<u8>, base: int, n: nat, k: int)
    requires
        0 <= k < table_entries(d, base, n).len(),
    ensures
        table_entries(d, base, n)[k] matches EntryView::Complex { key_index, entries, .. }
            ==> forall|j: int| 0 <= j < entries.len() ==> #[trigger] entries[j].key_index == key_index,
    decreases n,
{
    if n > 0 {
        let prev = table_entries(d, base, (n - 1) as nat);
        if k < prev.len() {
            lemma_complex_values_share_key(d, base, (n - 1) as nat, k);
        }
    }
}

/// Decoding the same bytes twice gives the same table.
pub proof fn lemma_decode_deterministic(d: Seq<u8>, p: int, base: int, t1: TableType, t2: TableType)
    requires
        t1.decoded_from(d, p, base),
        t2.decoded_from(d, p, base),
    ensures
        t1.id == t2.id,
        t1.configuration.same_as(&t2.configuration),
        views(t1.entries@) == views(t2.entries@),
{
}

proof fn lemma_table_ok_prefix(d: Seq<u8>, base: int, m: nat, n: nat)
    requires
        m <= n,
        table_ok(d, base, n),
    ensures
        table_ok(d, base, m),
    decreases n,
{
    if m < n {
        lemma_table_ok_prefix(d, base, m, (n - 1) as nat);
    }
}

} // verus!
