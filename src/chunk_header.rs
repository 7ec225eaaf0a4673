use vstd::prelude::*;

verus! {

/// Where a chunk sits in the source buffer: its start, the length of its
/// header and its total length, with its type code.
#[derive(Debug, Clone, Copy, PartialEq, Eq, Structural)]
pub struct ChunkHeader {
    pub offset: u64,
    pub header_size: u16,
    pub chunk_size: u32,
    pub chunk_type: u16,
}

impl ChunkHeader {
    /// The header lies inside the chunk, and the chunk's end is addressable.
    pub open spec fn wf(&self) -> bool {
        self.header_size <= self.chunk_size && self.offset + self.chunk_size <= u64::MAX
    }

    pub open spec fn spec_data_offset(&self) -> int {
        self.offset + self.header_size
    }

    pub open spec fn spec_chunk_end(&self) -> int {
        self.offset + self.chunk_size
    }

    pub fn new(offset: u64, header_size: u16, chunk_size: u32, chunk_type: u16) -> (r: Self)
        requires
            header_size <= chunk_size,
            offset + chunk_size <= u64::MAX,
        ensures
            r == (ChunkHeader { offset, header_size, chunk_size, chunk_type }),
            r.wf(),
    {
        ChunkHeader { offset, header_size, chunk_size, chunk_type }
    }

    pub fn get_offset(&self) -> (r: u64)
        ensures
            r == self.offset,
    {
        self.offset
    }

    pub fn get_data_offset(&self) -> (r: u64)
        requires
            self.offset + self.header_size <= u64::MAX,
        ensures
            r == self.spec_data_offset(),
            self.wf() ==> self.offset <= r <= self.spec_chunk_end(),
    {
        self.offset + self.header_size as u64
    }

    pub fn get_chunk_end(&self) -> (r: u64)
        requires
            self.offset + self.chunk_size <= u64::MAX,
        ensures
            r == self.spec_chunk_end(),
    {
        self.offset + self.chunk_size as u64
    }

    /// The position of `absolute` counted from the chunk's start, or 0 for a
    /// position before it.
    pub fn relative(&self, absolute: u64) -> (r: u64)
        ensures
            r == (if absolute < self.offset {
                0
            } else {
                absolute - self.offset
            }),
    {
        if self.offset > absolute {
            0
        } else {
            absolute - self.offset
        }
    }

    /// The buffer position of a position counted from the chunk's start.
    pub fn absolute(&self, relative: u64) -> (r: u64)
        requires
            self.offset + relative <= u64::MAX,
        ensures
            r == self.offset + relative,
    {
        self.offset + relative
    }
}

} // verus!
