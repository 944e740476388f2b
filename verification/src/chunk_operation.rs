use vstd::prelude::*;
use crate::chunk_range::ChunkRange;

verus! {

/// Progress bookkeeping for one chunk: how many bytes of its total have been
/// downloaded.
pub struct ChunkOperation {
    downloaded_size: u64,
    total_size: u64,
}

impl ChunkOperation {
    pub closed spec fn spec_downloaded_size(self) -> u64 {
        self.downloaded_size
    }

    pub closed spec fn spec_total_size(self) -> u64 {
        self.total_size
    }

    /// The bookkeeping for `chunk_range`: total is the range's span, the
    /// downloaded part is how far its position has moved.
    pub fn with_chunk(chunk_range: &ChunkRange) -> (r: ChunkOperation)
        requires
            chunk_range.start <= chunk_range.position,
            chunk_range.start > 0 || chunk_range.end < u64::MAX,
        ensures
            r.spec_total_size() == chunk_range.spec_chunk_length(),
            r.spec_downloaded_size() == chunk_range.spec_length(),
    {
        ChunkOperation {
            total_size: chunk_range.chunk_length(),
            downloaded_size: chunk_range.length(),
        }
    }

    pub fn set_downloaded_size(&mut self, size: u64)
        ensures
            final(self).spec_downloaded_size() == size,
            final(self).spec_total_size() == old(self).spec_total_size(),
    {
        self.downloaded_size = size;
    }

    pub fn set_total_size(&mut self, size: u64)
        ensures
            final(self).spec_total_size() == size,
            final(self).spec_downloaded_size() == old(self).spec_downloaded_size(),
    {
        self.total_size = size;
    }

    pub fn get_downloaded_size(&mut self) -> (r: u64)
        ensures
            r == old(self).spec_downloaded_size(),
            *final(self) == *old(self),
    {
        self.downloaded_size
    }

    pub fn get_total_size(&mut self) -> (r: u64)
        ensures
            r == old(self).spec_total_size(),
            *final(self) == *old(self),
    {
        self.total_size
    }
}

impl Default for ChunkOperation {
    fn default() -> (r: Self)
        ensures
            r.spec_downloaded_size() == 0,
            r.spec_total_size() == 0,
    {
        ChunkOperation { downloaded_size: 0, total_size: 0 }
    }
}

} // verus!
