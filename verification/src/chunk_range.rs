use vstd::prelude::*;

verus! {

/// One contiguous byte range `[start, end]` of the remote object, together
/// with the moving download `position`.  A well-formed range keeps
/// `start <= position <= end + 1`; `position == end + 1` means the range has
/// been fully received.
#[derive(Clone, Copy, PartialEq, Eq, Structural, Debug)]
pub struct ChunkRange {
    pub start: u64,
    pub end: u64,
    pub position: u64,
}

impl Default for ChunkRange {
    fn default() -> (r: Self)
        ensures
            r == (ChunkRange { start: 0, end: 0, position: 0 }),
    {
        ChunkRange { start: 0, end: 0, position: 0 }
    }
}

impl ChunkRange {
    /// `start <= position <= end + 1`.
    pub open spec fn wf(self) -> bool {
        self.start <= self.position <= self.end + 1
    }

    /// Number of bytes the range covers: `end - start + 1` when `end > start`,
    /// else zero.
    pub open spec fn spec_chunk_length(self) -> int {
        if self.end <= self.start {
            0
        } else {
            self.end - self.start + 1
        }
    }

    /// Number of bytes received so far: `position - start`.
    pub open spec fn spec_length(self) -> int {
        self.position - self.start
    }

    /// The range is fully received.
    pub open spec fn spec_eof(self) -> bool {
        self.position == self.end + 1
    }

    pub fn from_start_end(start: u64, end: u64) -> (r: ChunkRange)
        ensures
            r == (ChunkRange { start, end, position: start }),
    {
        ChunkRange { start, end, position: start }
    }

    pub fn chunk_length(&self) -> (r: u64)
        requires
            self.start > 0 || self.end < u64::MAX,
        ensures
            r == self.spec_chunk_length(),
    {
        if self.end <= self.start {
            0u64
        } else {
            self.end - self.start + 1
        }
    }

    pub fn length(&self) -> (r: u64)
        requires
            self.start <= self.position,
        ensures
            r == self.spec_length(),
    {
        self.position - self.start
    }

    pub fn set_position(&mut self, position: u64)
        ensures
            *final(self) == (ChunkRange { position, ..*old(self) }),
    {
        self.position = position;
    }

    pub fn eof(&self) -> (r: bool)
        ensures
            r == self.spec_eof(),
    {
        if self.end == u64::MAX {
            false
        } else {
            self.position == self.end + 1
        }
    }
}

/// `total / size`, rounded up.
pub open spec fn spec_div_ceil(total: int, size: int) -> int {
    total / size + if total % size == 0 {
        0int
    } else {
        1int
    }
}

/// The partition of `total` bytes into `count` ranges of `size` bytes each,
/// the last taking the remainder: range `i` is `[i*size, (i+1)*size - 1]` for
/// `i < count - 1` and `[(count-1)*size, total - 1]` for the last.  A single
/// range covers `[0, max(0, total - 1)]`.  Every range starts at its
/// `position == start`.
pub open spec fn spec_partition(total: u64, count: u64, size: u64) -> Seq<ChunkRange> {
    if count <= 1 {
        seq![
            ChunkRange {
                start: 0,
                end: if total > 0 {
                    (total - 1) as u64
                } else {
                    0
                },
                position: 0,
            },
        ]
    } else {
        Seq::new(
            count as nat,
            |i: int|
                ChunkRange {
                    start: (i * size) as u64,
                    end: if i < count - 1 {
                        (i * size + size - 1) as u64
                    } else {
                        (total - 1) as u64
                    },
                    position: (i * size) as u64,
                },
        )
    }
}

/// Sum of `spec_chunk_length` over the first `k` ranges of `s`.
pub open spec fn sum_lengths_prefix(s: Seq<ChunkRange>, k: int) -> int
    decreases k,
{
    if k <= 0 {
        0
    } else {
        sum_lengths_prefix(s, k - 1) + s[k - 1].spec_chunk_length()
    }
}

/// Sum of `spec_chunk_length` over all ranges of `s`.
pub open spec fn sum_chunk_lengths(s: Seq<ChunkRange>) -> int {
    sum_lengths_prefix(s, s.len() as int)
}

impl ChunkRange {
    pub fn from_chunk_count(total_size: u64, chunk_count: u64, chunk_size: u64) -> (r: Vec<
        ChunkRange,
    >)
        requires
            chunk_count >= 1,
            chunk_count > 1 ==> chunk_size >= 1 && chunk_count == spec_div_ceil(
                total_size as int,
                chunk_size as int,
            ),
        ensures
            r@ == spec_partition(total_size, chunk_count, chunk_size),
            r@.len() == chunk_count,
    {
        let mut chunk_ranges: Vec<ChunkRange> = Vec::with_capacity(chunk_count as usize);
        if chunk_count == 1 {
            let mut end_position: u64 = 0;
            if total_size > 0 {
                end_position = total_size - 1;
            }
            chunk_ranges.push(ChunkRange::from_start_end(0, end_position));
            proof {
                assert(chunk_ranges@ =~= spec_partition(total_size, chunk_count, chunk_size));
            }
            return chunk_ranges;
        }
        proof {
            lemma_partition_bounds(total_size as int, chunk_count as int, chunk_size as int);
        }
        let ghost spec_r = spec_partition(total_size, chunk_count, chunk_size);
        let mut index: u64 = 0;
        while index < chunk_count
            invariant
                index <= chunk_count,
                chunk_count > 1,
                chunk_size >= 1,
                chunk_count == spec_div_ceil(total_size as int, chunk_size as int),
                (chunk_count - 1) * chunk_size <= total_size - 1,
                spec_r == spec_partition(total_size, chunk_count, chunk_size),
                chunk_ranges@.len() == index,
                forall|j: int| 0 <= j < index ==> chunk_ranges@[j] == spec_r[j],
            decreases chunk_count - index,
        {
            proof {
                assert((index * chunk_size) <= (chunk_count - 1) * chunk_size && (index + 1)
                    * chunk_size == index * chunk_size + chunk_size) by (nonlinear_arith)
                    requires
                        0 <= index <= chunk_count - 1,
                        chunk_size >= 1,
                ;
            }
            let start_position: u64 = index * chunk_size;
            let end_position: u64;
            if index == chunk_count - 1 {
                end_position = total_size - 1;
            } else {
                proof {
                    assert((index + 1) * chunk_size <= (chunk_count - 1) * chunk_size)
                        by (nonlinear_arith)
                        requires
                            0 <= index + 1 <= chunk_count - 1,
                            chunk_size >= 1,
                    ;
                }
                end_position = start_position + chunk_size - 1;
            }
            chunk_ranges.push(ChunkRange::from_start_end(start_position, end_position));
            index = index + 1;
        }
        proof {
            assert(chunk_ranges@ =~= spec_r);
        }
        chunk_ranges
    }
}

/// Sum of `spec_length` (bytes received) over the first `k` ranges of `s`.
pub open spec fn sum_downloaded_prefix(s: Seq<ChunkRange>, k: int) -> int
    decreases k,
{
    if k <= 0 {
        0
    } else {
        sum_downloaded_prefix(s, k - 1) + s[k - 1].spec_length()
    }
}

/// Sum of `spec_length` (bytes received) over all ranges of `s`.
pub open spec fn sum_downloaded(s: Seq<ChunkRange>) -> int {
    sum_downloaded_prefix(s, s.len() as int)
}

proof fn lemma_sum_downloaded_update_prefix(
    s1: Seq<ChunkRange>,
    s2: Seq<ChunkRange>,
    i: int,
    n: int,
    k: int,
)
    requires
        s1.len() == s2.len(),
        0 <= i < s1.len(),
        0 <= k <= s1.len(),
        s2[i].start == s1[i].start,
        s2[i].position == s1[i].position + n,
        forall|j: int| 0 <= j < s1.len() && j != i ==> s2[j] == s1[j],
    ensures
        sum_downloaded_prefix(s2, k) == sum_downloaded_prefix(s1, k) + if i < k {
            n
        } else {
            0
        },
    decreases k,
{
    if k > 0 {
        lemma_sum_downloaded_update_prefix(s1, s2, i, n, k - 1);
    }
}

/// Receiving `n` bytes on one chunk raises the downloaded sum by exactly
/// `n`: a shared counter that adds the length of each received fragment
/// stays equal to the sum of `position - start` over the chunks.
pub proof fn lemma_sum_downloaded_update(s1: Seq<ChunkRange>, s2: Seq<ChunkRange>, i: int, n: int)
    requires
        s1.len() == s2.len(),
        0 <= i < s1.len(),
        s2[i].start == s1[i].start,
        s2[i].position == s1[i].position + n,
        forall|j: int| 0 <= j < s1.len() && j != i ==> s2[j] == s1[j],
    ensures
        sum_downloaded(s2) == sum_downloaded(s1) + n,
{
    lemma_sum_downloaded_update_prefix(s1, s2, i, n, s1.len() as int);
}

proof fn lemma_eof_sum_equals_lengths_prefix(s: Seq<ChunkRange>, p: Seq<ChunkRange>, k: int)
    requires
        s.len() == p.len(),
        0 <= k <= s.len(),
        forall|i: int|
            0 <= i < s.len() ==> ((#[trigger] s[i]).start == p[i].start && s[i].end == p[i].end
                && s[i].spec_eof() && p[i].end > p[i].start),
    ensures
        sum_downloaded_prefix(s, k) == sum_lengths_prefix(p, k),
    decreases k,
{
    if k > 0 {
        lemma_eof_sum_equals_lengths_prefix(s, p, k - 1);
        assert(s[k - 1].start == p[k - 1].start);
    }
}

/// For a partition produced under the same conditions as
/// `lemma_partition_sums_to_total` with `total > 0`, no range collapses:
/// every range ends strictly after it starts.
pub proof fn lemma_partition_nondegenerate(total_size: u64, chunk_count: u64, chunk_size: u64)
    requires
        chunk_count >= 1,
        total_size > 0,
        chunk_count == 1 ==> total_size != 1,
        chunk_count > 1 ==> chunk_size >= 2 && chunk_count == spec_div_ceil(
            total_size as int,
            chunk_size as int,
        ) && total_size % chunk_size != 1,
    ensures
        forall|i: int|
            0 <= i < chunk_count ==> (#[trigger] spec_partition(
                total_size,
                chunk_count,
                chunk_size,
            )[i]).end > spec_partition(total_size, chunk_count, chunk_size)[i].start,
{
    let p = spec_partition(total_size, chunk_count, chunk_size);
    if chunk_count == 1 {
        assert(p[0].start == 0 && p[0].end == total_size - 1);
    } else {
        lemma_partition_bounds(total_size as int, chunk_count as int, chunk_size as int);
        let q = total_size as int / chunk_size as int;
        let r = total_size as int % chunk_size as int;
        vstd::arithmetic::div_mod::lemma_fundamental_div_mod(
            total_size as int,
            chunk_size as int,
        );
        assert(q * chunk_size == chunk_size * q) by (nonlinear_arith);
        if r == 0 {
            assert((chunk_count - 1) * chunk_size == (q - 1) * chunk_size);
            assert((q - 1) * chunk_size == q * chunk_size - chunk_size) by (nonlinear_arith);
        } else {
            assert((chunk_count - 1) * chunk_size == q * chunk_size);
            assert(r >= 2);
        }
        assert((chunk_count - 1) * chunk_size <= total_size - 2);
        assert forall|i: int| 0 <= i < chunk_count implies (#[trigger] p[i]).end > p[i].start by {
            assert(i * chunk_size >= 0) by (nonlinear_arith)
                requires
                    i >= 0,
                    chunk_size >= 2,
            ;
            assert(i * chunk_size <= (chunk_count - 1) * chunk_size) by (nonlinear_arith)
                requires
                    0 <= i <= chunk_count - 1,
                    chunk_size >= 2,
            ;
            if i < chunk_count - 1 {
                assert((i + 1) * chunk_size <= (chunk_count - 1) * chunk_size && (i + 1)
                    * chunk_size == i * chunk_size + chunk_size) by (nonlinear_arith)
                    requires
                        0 <= i + 1 <= chunk_count - 1,
                        chunk_size >= 2,
                ;
                assert(p[i].start == i * chunk_size);
                assert(p[i].end == i * chunk_size + chunk_size - 1);
            } else {
                assert(p[i].start == (chunk_count - 1) * chunk_size);
                assert(p[i].end == total_size - 1);
            }
        }
    }
}

/// When every range of a partition has been fully received (`eof`), the
/// downloaded bytes sum to exactly the total size: the merged object has the
/// remote length.
pub proof fn lemma_complete_partition_downloads_total(
    s: Seq<ChunkRange>,
    total_size: u64,
    chunk_count: u64,
    chunk_size: u64,
)
    requires
        chunk_count >= 1,
        total_size > 0,
        chunk_count == 1 ==> total_size != 1,
        chunk_count > 1 ==> chunk_size >= 2 && chunk_count == spec_div_ceil(
            total_size as int,
            chunk_size as int,
        ) && total_size % chunk_size != 1,
        s.len() == chunk_count,
        forall|i: int|
            0 <= i < s.len() ==> ((#[trigger] s[i]).start == spec_partition(
                total_size,
                chunk_count,
                chunk_size,
            )[i].start && s[i].end == spec_partition(total_size, chunk_count, chunk_size)[i].end
                && s[i].spec_eof()),
    ensures
        sum_downloaded(s) == total_size,
{
    let p = spec_partition(total_size, chunk_count, chunk_size);
    lemma_partition_nondegenerate(total_size, chunk_count, chunk_size);
    assert forall|i: int|
        0 <= i < s.len() implies ((#[trigger] s[i]).start == p[i].start && s[i].end == p[i].end
        && s[i].spec_eof() && p[i].end > p[i].start) by {
        assert(s[i].start == p[i].start && s[i].end == p[i].end && s[i].spec_eof());
        assert(p[i].end > p[i].start);
    }
    lemma_eof_sum_equals_lengths_prefix(s, p, s.len() as int);
    lemma_partition_sums_to_total(total_size, chunk_count, chunk_size);
}

/// Sum of the values of a sequence of resume offsets.
pub open spec fn sum_offsets(dl: Seq<u64>) -> int
    decreases dl.len(),
{
    if dl.len() == 0 {
        0
    } else {
        sum_offsets(dl.drop_last()) + dl.last()
    }
}

proof fn lemma_resume_counts_disk_bytes_prefix(s: Seq<ChunkRange>, dl: Seq<u64>, k: int)
    requires
        s.len() == dl.len(),
        0 <= k <= s.len(),
        forall|i: int| 0 <= i < s.len() ==> #[trigger] s[i].position == s[i].start + dl[i],
    ensures
        sum_downloaded_prefix(s, k) == sum_offsets(dl.take(k)),
    decreases k,
{
    if k > 0 {
        lemma_resume_counts_disk_bytes_prefix(s, dl, k - 1);
        assert(dl.take(k).drop_last() =~= dl.take(k - 1));
        assert(s[k - 1].position == s[k - 1].start + dl[k - 1]);
    }
}

/// Resuming every chunk at its file's length starts the downloaded sum at
/// exactly the bytes already on disk, so a completed resume transfers no
/// more than `total - bytes_on_disk`.
pub proof fn lemma_resume_counts_disk_bytes(s: Seq<ChunkRange>, dl: Seq<u64>)
    requires
        s.len() == dl.len(),
        forall|i: int| 0 <= i < s.len() ==> #[trigger] s[i].position == s[i].start + dl[i],
    ensures
        sum_downloaded(s) == sum_offsets(dl),
{
    lemma_resume_counts_disk_bytes_prefix(s, dl, s.len() as int);
    assert(dl.take(dl.len() as int) =~= dl);
}

/// A resumed job transfers only the missing bytes: between resuming (every
/// position at its file's length) and completion (every range fully
/// received), the downloaded sum grows by exactly
/// `total_size - bytes_already_on_disk`.
pub proof fn lemma_resume_transfer_bound(
    initial: Seq<ChunkRange>,
    finished: Seq<ChunkRange>,
    disk_offsets: Seq<u64>,
    total_size: u64,
    chunk_count: u64,
    chunk_size: u64,
)
    requires
        chunk_count >= 1,
        total_size > 0,
        chunk_count == 1 ==> total_size != 1,
        chunk_count > 1 ==> chunk_size >= 2 && chunk_count == spec_div_ceil(
            total_size as int,
            chunk_size as int,
        ) && total_size % chunk_size != 1,
        initial.len() == chunk_count,
        disk_offsets.len() == chunk_count,
        forall|i: int|
            0 <= i < initial.len() ==> (#[trigger] initial[i]).position == initial[i].start
                + disk_offsets[i],
        finished.len() == chunk_count,
        forall|i: int|
            0 <= i < finished.len() ==> ((#[trigger] finished[i]).start == spec_partition(
                total_size,
                chunk_count,
                chunk_size,
            )[i].start && finished[i].end == spec_partition(
                total_size,
                chunk_count,
                chunk_size,
            )[i].end && finished[i].spec_eof()),
    ensures
        sum_downloaded(finished) - sum_downloaded(initial) == total_size - sum_offsets(
            disk_offsets,
        ),
{
    lemma_resume_counts_disk_bytes(initial, disk_offsets);
    lemma_complete_partition_downloads_total(finished, total_size, chunk_count, chunk_size);
}

/// For a partition of `count >= 2` ranges, every range start lies inside the
/// object: `(count - 1) * size <= total - 1`.
pub proof fn lemma_partition_bounds(total: int, count: int, size: int)
    requires
        size >= 1,
        count >= 2,
        count == spec_div_ceil(total, size),
    ensures
        (count - 1) * size <= total - 1,
        total >= 2,
{
    let q = total / size;
    let r = total % size;
    vstd::arithmetic::div_mod::lemma_fundamental_div_mod(total, size);
    if r == 0 {
        assert((count - 1) * size == (q - 1) * size);
        assert((q - 1) * size == q * size - size) by (nonlinear_arith);
        assert(q * size == total);
    } else {
        assert((count - 1) * size == q * size);
        assert(q * size == total - r);
    }
    assert((count - 1) * size >= 1) by (nonlinear_arith)
        requires
            count >= 2,
            size >= 1,
    ;
}

/// Sum over a prefix of the regular (non-final) ranges of a partition:
/// each contributes exactly `size` bytes.
proof fn lemma_regular_prefix_sum(total: u64, count: u64, size: u64, k: int)
    requires
        size >= 2,
        count >= 2,
        count == spec_div_ceil(total as int, size as int),
        0 <= k <= count - 1,
    ensures
        sum_lengths_prefix(spec_partition(total, count, size), k) == k * size,
    decreases k,
{
    let p = spec_partition(total, count, size);
    lemma_partition_bounds(total as int, count as int, size as int);
    if k == 0 {
        assert(0 * size == 0) by (nonlinear_arith);
    } else {
        lemma_regular_prefix_sum(total, count, size, k - 1);
        assert(k * size <= (count - 1) * size) by (nonlinear_arith)
            requires
                1 <= k <= count - 1,
                size >= 2,
        ;
        assert((k - 1) * size + size == k * size) by (nonlinear_arith);
        assert((k - 1) * size >= 0) by (nonlinear_arith)
            requires
                1 <= k,
                size >= 2,
        ;
        // the element's start and end fit in u64, so the casts are exact
        assert(k * size - 1 <= total - 2);
        assert(p[k - 1].start == (k - 1) * size);
        assert(p[k - 1].end == (k - 1) * size + size - 1);
        assert(p[k - 1].spec_chunk_length() == size);
    }
}

/// The partition of §4.2 covers the object exactly: the chunk lengths sum to
/// `total_size`.  The degenerate inputs on which a range collapses to a
/// zero-length `[s, s]` pair are excluded: a single range needs
/// `total_size != 1`, a multi-range partition needs `chunk_size >= 2` and a
/// final range of at least two bytes (`total_size % chunk_size != 1`).
pub proof fn lemma_partition_sums_to_total(total_size: u64, chunk_count: u64, chunk_size: u64)
    requires
        chunk_count >= 1,
        chunk_count == 1 ==> total_size != 1,
        chunk_count > 1 ==> chunk_size >= 2 && chunk_count == spec_div_ceil(
            total_size as int,
            chunk_size as int,
        ) && total_size % chunk_size != 1,
    ensures
        sum_chunk_lengths(spec_partition(total_size, chunk_count, chunk_size)) == total_size,
{
    let p = spec_partition(total_size, chunk_count, chunk_size);
    if chunk_count == 1 {
        assert(sum_lengths_prefix(p, 0) == 0);
        assert(sum_lengths_prefix(p, 1) == p[0].spec_chunk_length());
        if total_size == 0 {
            assert(p[0].spec_chunk_length() == 0);
        } else {
            assert(p[0].end == total_size - 1 && p[0].start == 0);
        }
    } else {
        lemma_partition_bounds(total_size as int, chunk_count as int, chunk_size as int);
        lemma_regular_prefix_sum(total_size, chunk_count, chunk_size, chunk_count as int - 1);
        let q = total_size as int / chunk_size as int;
        let r = total_size as int % chunk_size as int;
        vstd::arithmetic::div_mod::lemma_fundamental_div_mod(
            total_size as int,
            chunk_size as int,
        );
        let last = p[chunk_count as int - 1];
        assert(q * chunk_size == chunk_size * q) by (nonlinear_arith);
        if r == 0 {
            assert((chunk_count - 1) * chunk_size == (q - 1) * chunk_size);
            assert((q - 1) * chunk_size == q * chunk_size - chunk_size) by (nonlinear_arith);
            assert((chunk_count - 1) * chunk_size == total_size - chunk_size);
        } else {
            assert((chunk_count - 1) * chunk_size == q * chunk_size);
            assert((chunk_count - 1) * chunk_size == total_size - r);
            assert(r >= 2);
        }
        // the final range holds at least two bytes, so its length is exact
        assert((chunk_count - 1) * chunk_size <= total_size - 2);
        assert(last.start == (chunk_count - 1) * chunk_size);
        assert(last.end == total_size - 1);
        assert(last.spec_chunk_length() == total_size - (chunk_count - 1) * chunk_size);
        assert(sum_chunk_lengths(p) == sum_lengths_prefix(p, chunk_count as int - 1)
            + last.spec_chunk_length());
    }
}

} // verus!
