use vstd::prelude::*;
use crate::chunk::Chunk;
use crate::chunk::VALIDATE_LENGTH_OVERRUN;
use crate::chunk::VALIDATE_OK;
use crate::chunk::spec_validate_code;
use crate::chunk_range::ChunkRange;
use crate::chunk_range::spec_div_ceil;
use crate::chunk_range::spec_partition;
use crate::chunk_range::sum_downloaded;
use crate::decimal::spec_dec;
use crate::decimal::u64_to_dec_str;
use crate::download_configuration::DownloadConfiguration;
use crate::remote_file::RemoteFile;

verus! {

/// How many chunks a job splits into: `max(1, ceil(total / chunk_size))` when
/// ranged, chunked, range-capable and not in memory; otherwise one.
pub open spec fn spec_chunk_count(config: DownloadConfiguration, remote_file: RemoteFile) -> int {
    if config.range_download && remote_file.support_range_download && config.chunk_download
        && !config.download_in_memory {
        let n = spec_div_ceil(remote_file.total_length as int, config.chunk_size as int);
        if n < 1 {
            1
        } else {
            n
        }
    } else {
        1
    }
}

/// The version that decides whether on-disk partial data may be resumed: the
/// caller-supplied version when non-zero, else the remote `Last-Modified`
/// time.
pub open spec fn spec_effective_version(
    config: DownloadConfiguration,
    remote_file: RemoteFile,
) -> i64 {
    if config.remote_version != 0 {
        config.remote_version
    } else {
        remote_file.last_modified_time
    }
}

/// On-disk data is stale when no local version was recorded or it differs
/// from the effective remote version.
pub open spec fn spec_stale(
    config: DownloadConfiguration,
    remote_file: RemoteFile,
    local_version: i64,
) -> bool {
    local_version == 0 || local_version != spec_effective_version(config, remote_file)
}

/// Where chunk `i` of `count` lives on disk: the temp file for a single
/// chunk, `<path>.chunk<i>` otherwise.
pub open spec fn spec_chunk_path(config: DownloadConfiguration, count: int, i: int) -> Seq<char> {
    if count == 1 {
        config.temp_path->0@
    } else {
        config.path->0@ + ".chunk"@ + spec_dec(i)
    }
}

/// The range chunk `i` resumes with: unchanged unless existing on-disk data
/// may be kept, in which case the position advances to the file's length.
pub open spec fn spec_resumed_range(
    range: ChunkRange,
    disk_length: Option<u64>,
    stale: bool,
    in_memory: bool,
) -> ChunkRange {
    if !in_memory && !stale && spec_validate_code(range, disk_length) == VALIDATE_OK {
        ChunkRange { position: (range.start + disk_length->0) as u64, ..range }
    } else {
        range
    }
}

/// A chunk is valid (needs no task) exactly when resumable on-disk data
/// already covers its whole range.
pub open spec fn spec_chunk_valid(
    range: ChunkRange,
    disk_length: Option<u64>,
    stale: bool,
    in_memory: bool,
) -> bool {
    &&& !in_memory
    &&& !stale
    &&& spec_validate_code(range, disk_length) == VALIDATE_OK
    &&& spec_resumed_range(range, disk_length, stale, in_memory).spec_eof()
}

/// An existing chunk file must be deleted when the versions do not match or
/// it is longer than the chunk.
pub open spec fn spec_delete_existing(
    range: ChunkRange,
    disk_length: Option<u64>,
    stale: bool,
    in_memory: bool,
) -> bool {
    !in_memory && (stale || spec_validate_code(range, disk_length) == VALIDATE_LENGTH_OVERRUN)
}

/// One chunk's reconciliation outcome: the chunk, resumed where possible,
/// and whether its existing file must be deleted before downloading.
pub struct ChunkPlan {
    pub chunk: Chunk,
    pub delete_existing: bool,
}

/// The number of chunks this job splits into.
pub fn chunk_count(config: &DownloadConfiguration, remote_file: &RemoteFile) -> (r: u64)
    requires
        config.chunk_size > 0,
    ensures
        r == spec_chunk_count(*config, *remote_file),
        r >= 1,
{
    if config.range_download && remote_file.support_range_download && config.chunk_download
        && !config.download_in_memory {
        let q = remote_file.total_length / config.chunk_size;
        let rem = remote_file.total_length % config.chunk_size;
        if rem != 0 {
            proof {
                vstd::arithmetic::div_mod::lemma_fundamental_div_mod(
                    remote_file.total_length as int,
                    config.chunk_size as int,
                );
                assert(q * config.chunk_size == config.chunk_size * q) by (nonlinear_arith);
                assert(2 * q <= q * config.chunk_size) by (nonlinear_arith)
                    requires
                        q >= 0,
                        config.chunk_size >= 2,
                ;
            }
            let n = q + 1;
            if n < 1 {
                1
            } else {
                n
            }
        } else {
            if q < 1 {
                1
            } else {
                q
            }
        }
    } else {
        1
    }
}

/// The on-disk path of chunk `i` of `count`.
pub fn chunk_file_path(config: &DownloadConfiguration, count: u64, i: u64) -> (r: String)
    requires
        config.path is Some,
        config.temp_path is Some,
    ensures
        r@ == spec_chunk_path(*config, count as int, i as int),
{
    if count == 1 {
        let mut s = String::new();
        s.append(config.get_file_temp_path());
        proof {
            assert(s@ =~= config.temp_path->0@);
        }
        s
    } else {
        let mut s = String::new();
        s.append(config.get_file_path());
        s.append(".chunk");
        let index = u64_to_dec_str(i);
        s.append(index.as_str());
        proof {
            assert(s@ =~= config.path->0@ + ".chunk"@ + spec_dec(i as int));
        }
        s
    }
}

/// Plans the chunks of a job, reconciling the partition with what is on
/// disk.  `disk_lengths[i]` is the length of chunk `i`'s existing file
/// (`None` when it does not exist); the caller stats the paths of
/// `chunk_file_path` beforehand and afterwards deletes every file whose plan
/// says so, then records the effective version, which is returned alongside.
pub fn validate(
    config: &DownloadConfiguration,
    remote_file: &RemoteFile,
    local_version: i64,
    disk_lengths: &Vec<Option<u64>>,
) -> (r: (Vec<ChunkPlan>, i64))
    requires
        config.chunk_size > 0,
        remote_file.total_length < u64::MAX,
        !config.download_in_memory ==> config.path is Some && config.temp_path is Some,
        disk_lengths@.len() == spec_chunk_count(*config, *remote_file),
    ensures
        r.1 == spec_effective_version(*config, *remote_file),
        r.0@.len() == spec_chunk_count(*config, *remote_file),
        forall|i: int|
            0 <= i < r.0@.len() ==> (#[trigger] r.0@[i]).chunk.chunk_range.wf(),
        forall|i: int|
            0 <= i < r.0@.len() ==> {
                let plan = #[trigger] r.0@[i];
                let count = spec_chunk_count(*config, *remote_file);
                let range0 = spec_partition(
                    remote_file.total_length,
                    count as u64,
                    config.chunk_size,
                )[i];
                let stale = spec_stale(*config, *remote_file, local_version);
                let in_memory = config.download_in_memory;
                let disk_length = disk_lengths@[i];
                &&& plan.chunk.chunk_range == spec_resumed_range(
                    range0,
                    disk_length,
                    stale,
                    in_memory,
                )
                &&& plan.chunk.valid == spec_chunk_valid(range0, disk_length, stale, in_memory)
                &&& plan.delete_existing == spec_delete_existing(
                    range0,
                    disk_length,
                    stale,
                    in_memory,
                )
                &&& plan.chunk.download_in_memory == in_memory
                &&& plan.chunk.range_download == (!in_memory && config.range_download
                    && remote_file.support_range_download)
                &&& (in_memory ==> plan.chunk.file_path is None)
                &&& (!in_memory ==> (plan.chunk.file_path matches Some(p) && p@
                    == spec_chunk_path(*config, count, i)))
                &&& plan.chunk.bytes is None
            },
{
    let count = chunk_count(config, remote_file);
    let remote_version = if config.remote_version != 0 {
        config.remote_version
    } else {
        remote_file.last_modified_time
    };
    let stale = local_version == 0 || local_version != remote_version;
    let chunk_ranges = ChunkRange::from_chunk_count(
        remote_file.total_length,
        count,
        config.chunk_size,
    );
    let ghost spec_ranges = spec_partition(remote_file.total_length, count, config.chunk_size);
    proof {
        lemma_partition_in_object(remote_file.total_length, count, config.chunk_size);
    }
    let mut plans: Vec<ChunkPlan> = Vec::with_capacity(count as usize);
    let mut i: usize = 0;
    while i < chunk_ranges.len()
        invariant
            chunk_ranges@ == spec_ranges,
            spec_ranges == spec_partition(remote_file.total_length, count, config.chunk_size),
            chunk_ranges@.len() == count,
            count == spec_chunk_count(*config, *remote_file),
            remote_file.total_length < u64::MAX,
            disk_lengths@.len() == count,
            config.chunk_size > 0,
            !config.download_in_memory ==> config.path is Some && config.temp_path is Some,
            remote_version == spec_effective_version(*config, *remote_file),
            stale == spec_stale(*config, *remote_file, local_version),
            forall|j: int|
                0 <= j < count ==> (#[trigger] spec_ranges[j]).start <= spec_ranges[j].end
                    && spec_ranges[j].end < u64::MAX && spec_ranges[j].position
                    == spec_ranges[j].start,
            0 <= i <= count,
            plans@.len() == i,
            forall|j: int|
                0 <= j < i ==> (#[trigger] plans@[j]).chunk.chunk_range.wf(),
            forall|j: int|
                0 <= j < i ==> {
                    let plan = #[trigger] plans@[j];
                    let range0 = spec_ranges[j];
                    let in_memory = config.download_in_memory;
                    let disk_length = disk_lengths@[j];
                    &&& plan.chunk.chunk_range == spec_resumed_range(
                        range0,
                        disk_length,
                        stale,
                        in_memory,
                    )
                    &&& plan.chunk.valid == spec_chunk_valid(
                        range0,
                        disk_length,
                        stale,
                        in_memory,
                    )
                    &&& plan.delete_existing == spec_delete_existing(
                        range0,
                        disk_length,
                        stale,
                        in_memory,
                    )
                    &&& plan.chunk.download_in_memory == in_memory
                    &&& plan.chunk.range_download == (!in_memory && config.range_download
                        && remote_file.support_range_download)
                    &&& (in_memory ==> plan.chunk.file_path is None)
                    &&& (!in_memory ==> (plan.chunk.file_path matches Some(p) && p@
                        == spec_chunk_path(*config, count as int, j)))
                    &&& plan.chunk.bytes is None
                },
        decreases chunk_ranges@.len() - i,
    {
        let range = chunk_ranges[i];
        let disk_length = disk_lengths[i];
        if config.download_in_memory {
            let chunk = Chunk::from_memory(range);
            plans.push(ChunkPlan { chunk, delete_existing: false });
        } else {
            let path = chunk_file_path(config, count, i as u64);
            let mut chunk = Chunk::from_file(
                path,
                range,
                config.range_download && remote_file.support_range_download,
            );
            let delete_existing: bool;
            if stale {
                delete_existing = true;
            } else {
                let code = chunk.validate(disk_length);
                delete_existing = code == VALIDATE_LENGTH_OVERRUN;
            }
            plans.push(ChunkPlan { chunk, delete_existing });
        }
        i = i + 1;
    }
    (plans, remote_version)
}

/// Every range of a partition for a total below `u64::MAX` lies inside the
/// object: `start <= end < u64::MAX`, with the position at the start.
proof fn lemma_partition_in_object(total: u64, count: u64, size: u64)
    requires
        count >= 1,
        total < u64::MAX,
        count > 1 ==> size >= 1 && count == spec_div_ceil(total as int, size as int),
    ensures
        forall|j: int|
            0 <= j < count ==> (#[trigger] spec_partition(total, count, size)[j]).start
                <= spec_partition(total, count, size)[j].end && spec_partition(
                total,
                count,
                size,
            )[j].end < u64::MAX && spec_partition(total, count, size)[j].position == spec_partition(
                total,
                count,
                size,
            )[j].start,
{
    let p = spec_partition(total, count, size);
    if count == 1 {
        assert(p[0].start == 0 && p[0].position == 0);
    } else {
        crate::chunk_range::lemma_partition_bounds(total as int, count as int, size as int);
        assert forall|j: int|
            0 <= j < count implies (#[trigger] p[j]).start <= p[j].end && p[j].end < u64::MAX
            && p[j].position == p[j].start by {
            assert(j * size >= 0) by (nonlinear_arith)
                requires
                    j >= 0,
                    size >= 1,
            ;
            assert(j * size <= (count - 1) * size) by (nonlinear_arith)
                requires
                    0 <= j <= count - 1,
                    size >= 1,
            ;
            if j < count - 1 {
                assert((j + 1) * size <= (count - 1) * size && (j + 1) * size == j * size + size)
                    by (nonlinear_arith)
                    requires
                        0 <= j + 1 <= count - 1,
                        size >= 1,
                ;
                assert(p[j].start == j * size);
                assert(p[j].end == j * size + size - 1);
            } else {
                assert(p[j].start == (count - 1) * size);
                assert(p[j].end == total - 1);
            }
        }
    }
}

/// A finished download planned again under the matching version re-fetches
/// nothing: when every chunk file already holds its chunk's full length and
/// the recorded version matches, every planned chunk is valid, no file is
/// deleted, and no task is spawned.
pub proof fn lemma_full_files_resume_as_complete(
    total_size: u64,
    chunk_count_: u64,
    chunk_size: u64,
    disk_lengths: Seq<Option<u64>>,
)
    requires
        chunk_count_ >= 1,
        total_size > 0,
        total_size < u64::MAX,
        chunk_count_ == 1 ==> total_size != 1,
        chunk_count_ > 1 ==> chunk_size >= 2 && chunk_count_ == spec_div_ceil(
            total_size as int,
            chunk_size as int,
        ) && total_size % chunk_size != 1,
        disk_lengths.len() == chunk_count_,
        forall|i: int|
            0 <= i < chunk_count_ ==> (#[trigger] disk_lengths[i] matches Some(len) && len
                == spec_partition(total_size, chunk_count_, chunk_size)[i].spec_chunk_length()),
    ensures
        forall|i: int|
            0 <= i < chunk_count_ ==> #[trigger] spec_chunk_valid(
                spec_partition(total_size, chunk_count_, chunk_size)[i],
                disk_lengths[i],
                false,
                false,
            ),
        forall|i: int|
            0 <= i < chunk_count_ ==> !#[trigger] spec_delete_existing(
                spec_partition(total_size, chunk_count_, chunk_size)[i],
                disk_lengths[i],
                false,
                false,
            ),
{
    let p = spec_partition(total_size, chunk_count_, chunk_size);
    crate::chunk_range::lemma_partition_nondegenerate(total_size, chunk_count_, chunk_size);
    lemma_partition_in_object(total_size, chunk_count_, chunk_size);
    assert forall|i: int| 0 <= i < chunk_count_ implies #[trigger] spec_chunk_valid(
        p[i],
        disk_lengths[i],
        false,
        false,
    ) && !spec_delete_existing(p[i], disk_lengths[i], false, false) by {
        assert(p[i].end > p[i].start);
        assert(p[i].start <= p[i].end && p[i].end < u64::MAX);
        assert(disk_lengths[i] matches Some(len) && len == p[i].spec_chunk_length());
        assert(spec_validate_code(p[i], disk_lengths[i]) == VALIDATE_OK);
        let resumed = spec_resumed_range(p[i], disk_lengths[i], false, false);
        assert(resumed.position == p[i].start + p[i].spec_chunk_length());
        assert(resumed.spec_eof());
    }
}

/// The downloaded-size counter's starting value: the bytes the resumed
/// chunks already hold, saturating at `u64::MAX`.
pub fn initial_downloaded_size(plans: &Vec<ChunkPlan>) -> (r: u64)
    requires
        forall|i: int|
            0 <= i < plans@.len() ==> (#[trigger] plans@[i]).chunk.chunk_range.start
                <= plans@[i].chunk.chunk_range.position,
    ensures
        ({
            let total = sum_downloaded(
                plans@.map_values(|plan: ChunkPlan| plan.chunk.chunk_range),
            );
            r == if total <= u64::MAX {
                total
            } else {
                u64::MAX as int
            }
        }),
{
    let ghost ranges = plans@.map_values(|plan: ChunkPlan| plan.chunk.chunk_range);
    let mut sum: u64 = 0;
    let mut i: usize = 0;
    let mut saturated = false;
    while i < plans.len()
        invariant
            0 <= i <= plans@.len(),
            ranges == plans@.map_values(|plan: ChunkPlan| plan.chunk.chunk_range),
            forall|j: int|
                0 <= j < plans@.len() ==> (#[trigger] plans@[j]).chunk.chunk_range.start
                    <= plans@[j].chunk.chunk_range.position,
            !saturated ==> sum == crate::chunk_range::sum_downloaded_prefix(ranges, i as int),
            saturated ==> sum == u64::MAX && crate::chunk_range::sum_downloaded_prefix(
                ranges,
                i as int,
            ) > u64::MAX,
            crate::chunk_range::sum_downloaded_prefix(ranges, i as int) >= sum,
        decreases plans@.len() - i,
    {
        let length = plans[i].chunk.get_downloaded_size();
        proof {
            lemma_sum_downloaded_prefix_step(ranges, i as int);
        }
        if sum > u64::MAX - length {
            saturated = true;
            sum = u64::MAX;
        } else if !saturated {
            sum = sum + length;
        }
        i = i + 1;
    }
    sum
}

proof fn lemma_sum_downloaded_prefix_step(s: Seq<ChunkRange>, i: int)
    requires
        0 <= i < s.len(),
    ensures
        crate::chunk_range::sum_downloaded_prefix(s, i + 1)
            == crate::chunk_range::sum_downloaded_prefix(s, i) + s[i].spec_length(),
{
}

/// What remains to do after every chunk task finished: nothing in memory
/// mode; with one chunk the temp file is already in place; with several the
/// chunk files are concatenated in index order into the temp file and then
/// deleted.  The `.metadata` sidecar goes away in every on-disk case.
pub struct PostPlan {
    pub merge_chunks: bool,
    pub delete_metadata: bool,
}

pub fn on_download_post(config: &DownloadConfiguration, chunk_length: usize) -> (r: PostPlan)
    ensures
        r.merge_chunks == (!config.download_in_memory && chunk_length > 1),
        r.delete_metadata == !config.download_in_memory,
{
    if config.download_in_memory {
        PostPlan { merge_chunks: false, delete_metadata: false }
    } else {
        PostPlan { merge_chunks: chunk_length > 1, delete_metadata: true }
    }
}

/// The concatenation of a sequence of buffers, in order.
pub open spec fn spec_concat_buffers(buffers: Seq<Seq<u8>>) -> Seq<u8>
    decreases buffers.len(),
{
    if buffers.len() == 0 {
        Seq::empty()
    } else {
        spec_concat_buffers(buffers.drop_last()) + buffers.last()
    }
}

/// Merges chunk payloads in index order: the result is exactly the buffers
/// laid end to end.  This is the byte-level model of the caller's on-disk
/// merge, which copies `chunk0 .. chunkN-1` sequentially into the temp file
/// by the same order.
pub fn merge_chunk_buffers(buffers: &Vec<Vec<u8>>) -> (r: Vec<u8>)
    ensures
        r@ == spec_concat_buffers(buffers@.map_values(|b: Vec<u8>| b@)),
{
    let ghost views = buffers@.map_values(|b: Vec<u8>| b@);
    let mut merged: Vec<u8> = Vec::new();
    let mut i: usize = 0;
    while i < buffers.len()
        invariant
            0 <= i <= buffers@.len(),
            views == buffers@.map_values(|b: Vec<u8>| b@),
            merged@ == spec_concat_buffers(views.take(i as int)),
        decreases buffers@.len() - i,
    {
        let buffer = &buffers[i];
        let mut j: usize = 0;
        while j < buffer.len()
            invariant
                0 <= j <= buffer@.len(),
                buffer == &buffers[i as int],
                0 <= i < buffers@.len(),
                views == buffers@.map_values(|b: Vec<u8>| b@),
                merged@ == spec_concat_buffers(views.take(i as int)) + buffer@.take(j as int),
            decreases buffer@.len() - j,
        {
            merged.push(buffer[j]);
            proof {
                assert(merged@ =~= spec_concat_buffers(views.take(i as int)) + buffer@.take(
                    j as int + 1,
                ));
            }
            j = j + 1;
        }
        proof {
            assert(views.take(i as int + 1).drop_last() =~= views.take(i as int));
            assert(buffer@.take(buffer@.len() as int) =~= buffer@);
            assert(views.take(i as int + 1).last() == buffer@);
            assert(merged@ =~= spec_concat_buffers(views.take(i as int + 1)));
        }
        i = i + 1;
    }
    proof {
        assert(views.take(views.len() as int) =~= views);
    }
    merged
}

} // verus!
