use vstd::prelude::*;
use crate::chunk_range::ChunkRange;
use crate::error::DownloadError;

verus! {

/// Validation found resumable data (possibly already complete).
pub const VALIDATE_OK: u8 = 0;

/// The range is empty; nothing to resume.
pub const VALIDATE_NO_END: u8 = 1;

/// The on-disk file is longer than the range: delete it and redownload.
pub const VALIDATE_LENGTH_OVERRUN: u8 = 2;

/// No file on disk; fresh download needed.
pub const VALIDATE_NO_FILE: u8 = 3;

/// One contiguous byte range of the remote object.  A file-backed chunk
/// appends to the file at `file_path` (the write itself is I/O, done by the
/// caller; the chunk keeps the byte bookkeeping).  A memory-backed chunk owns
/// its buffer in `bytes`.
pub struct Chunk {
    pub file_path: Option<String>,
    pub bytes: Option<Vec<u8>>,
    pub chunk_range: ChunkRange,
    pub range_download: bool,
    pub download_in_memory: bool,
    pub valid: bool,
}

impl Default for Chunk {
    fn default() -> (r: Self)
        ensures
            r.file_path is None,
            r.bytes is None,
            r.chunk_range == (ChunkRange { start: 0, end: 0, position: 0 }),
            r.range_download == false,
            r.download_in_memory == false,
            r.valid == false,
    {
        Self {
            file_path: Option::None,
            bytes: Option::None,
            chunk_range: ChunkRange { start: 0, end: 0, position: 0 },
            range_download: false,
            download_in_memory: false,
            valid: false,
        }
    }
}

/// The outcome of checking a chunk against the length of its on-disk file
/// (`disk_length` is `None` when no file exists).
pub open spec fn spec_validate_code(range: ChunkRange, disk_length: Option<u64>) -> u8 {
    if range.end == 0 {
        VALIDATE_NO_END
    } else {
        match disk_length {
            Option::None => VALIDATE_NO_FILE,
            Option::Some(len) => if len > range.spec_chunk_length() {
                VALIDATE_LENGTH_OVERRUN
            } else {
                VALIDATE_OK
            },
        }
    }
}

impl Chunk {
    pub fn from_file(file_path: String, chunk_range: ChunkRange, range_download: bool) -> (r:
        Self)
        ensures
            r.file_path matches Some(p) && p == file_path,
            r.bytes is None,
            r.chunk_range == chunk_range,
            r.range_download == range_download,
            r.download_in_memory == false,
            r.valid == false,
    {
        Self {
            file_path: Option::Some(file_path),
            bytes: Option::None,
            chunk_range,
            range_download,
            download_in_memory: false,
            valid: false,
        }
    }

    pub fn from_memory(chunk_range: ChunkRange) -> (r: Self)
        ensures
            r.file_path is None,
            r.bytes is None,
            r.chunk_range == chunk_range,
            r.range_download == false,
            r.download_in_memory == true,
            r.valid == false,
    {
        Self {
            file_path: Option::None,
            bytes: Option::None,
            chunk_range,
            range_download: false,
            download_in_memory: true,
            valid: false,
        }
    }

    /// Bytes received so far: how far the position has moved from the start.
    pub fn get_downloaded_size(&self) -> (r: u64)
        requires
            self.chunk_range.start <= self.chunk_range.position,
        ensures
            r == self.chunk_range.spec_length(),
    {
        self.chunk_range.length()
    }

    /// Prepares the backing store.  A memory-backed chunk allocates its
    /// buffer; a file-backed chunk leaves the file to the caller.
    pub fn setup(&mut self) -> (r: Result<(), DownloadError>)
        ensures
            r is Ok,
            final(self).download_in_memory ==> (final(self).bytes matches Some(b) && b@ =~= Seq::<u8>::empty()),
            !final(self).download_in_memory ==> final(self).bytes == old(self).bytes,
            final(self).file_path == old(self).file_path,
            final(self).chunk_range == old(self).chunk_range,
            final(self).range_download == old(self).range_download,
            final(self).download_in_memory == old(self).download_in_memory,
            final(self).valid == old(self).valid,
    {
        if self.download_in_memory {
            self.bytes = Option::Some(Vec::new());
        }
        Ok(())
    }

    /// Hands out the payload of a memory-backed chunk.
    pub fn bytes(self) -> (r: Option<Vec<u8>>)
        requires
            self.download_in_memory ==> self.bytes is Some,
        ensures
            self.download_in_memory ==> r == self.bytes,
            !self.download_in_memory ==> r is None,
    {
        if self.download_in_memory {
            Option::Some(self.bytes.unwrap())
        } else {
            Option::None
        }
    }

    /// Records `buffer` as received: a memory-backed chunk appends it to its
    /// buffer, and the position advances by its length.  (A file-backed
    /// chunk's caller has already appended the same bytes to the file.)
    pub fn received_bytes(&mut self, buffer: &Vec<u8>) -> (r: Result<(), DownloadError>)
        requires
            old(self).chunk_range.position + buffer@.len() <= u64::MAX,
            old(self).download_in_memory ==> old(self).bytes is Some,
        ensures
            r is Ok,
            final(self).chunk_range == (ChunkRange {
                position: (old(self).chunk_range.position + buffer@.len()) as u64,
                ..old(self).chunk_range
            }),
            old(self).download_in_memory ==> (final(self).bytes matches Some(b) && b@ == old(self).bytes->0@ + buffer@),
            !old(self).download_in_memory ==> final(self).bytes == old(self).bytes,
            final(self).file_path == old(self).file_path,
            final(self).range_download == old(self).range_download,
            final(self).download_in_memory == old(self).download_in_memory,
            final(self).valid == old(self).valid,
    {
        if self.download_in_memory {
            let buf = match &mut self.bytes {
                Option::Some(buf) => buf,
                Option::None => {
                    proof {
                        assert(false);
                    }
                    return Ok(());
                },
            };
            let mut i: usize = 0;
            while i < buffer.len()
                invariant
                    0 <= i <= buffer@.len(),
                    buf@ == old(self).bytes->0@ + buffer@.take(i as int),
                decreases buffer@.len() - i,
            {
                buf.push(buffer[i]);
                proof {
                    assert(buf@ =~= old(self).bytes->0@ + buffer@.take(i as int + 1));
                }
                i = i + 1;
            }
            proof {
                assert(buffer@.take(buffer@.len() as int) =~= buffer@);
            }
        }
        let new_position = self.chunk_range.position + (buffer.len() as u64);
        self.chunk_range.set_position(new_position);
        Ok(())
    }

    /// Decides what existing on-disk data means for this chunk, given the
    /// length of its file (`None` when the file does not exist).  On
    /// `VALIDATE_OK` the position resumes at `start + disk_length` and the
    /// chunk is valid exactly when that already reaches the end; every other
    /// code leaves the range unchanged and the chunk invalid.
    pub fn validate(&mut self, disk_length: Option<u64>) -> (r: u8)
        requires
            old(self).chunk_range.end < u64::MAX,
            old(self).chunk_range.start <= old(self).chunk_range.end,
        ensures
            r == spec_validate_code(old(self).chunk_range, disk_length),
            r == VALIDATE_OK ==> {
                &&& final(self).chunk_range == (ChunkRange {
                    position: (old(self).chunk_range.start + disk_length->0) as u64,
                    ..old(self).chunk_range
                })
                &&& final(self).valid == final(self).chunk_range.spec_eof()
            },
            r != VALIDATE_OK ==> final(self).chunk_range == old(self).chunk_range && final(self).valid == false,
            final(self).file_path == old(self).file_path,
            final(self).bytes == old(self).bytes,
            final(self).range_download == old(self).range_download,
            final(self).download_in_memory == old(self).download_in_memory,
    {
        if self.chunk_range.end == 0 {
            self.valid = false;
            return VALIDATE_NO_END;
        }
        match disk_length {
            Option::Some(len) => {
                if len > self.chunk_range.chunk_length() {
                    self.valid = false;
                    VALIDATE_LENGTH_OVERRUN
                } else {
                    let new_position = self.chunk_range.start + len;
                    self.chunk_range.set_position(new_position);
                    self.valid = self.chunk_range.eof();
                    VALIDATE_OK
                }
            },
            Option::None => {
                self.valid = false;
                VALIDATE_NO_FILE
            },
        }
    }
}

} // verus!
