//! A download task and the chunks that cover it.
//!
//! The chunks of a task tile the byte range `[0, total_size)`: the first
//! starts at 0, each next one starts right after its predecessor ends, the
//! last ends at `total_size - 1`, and every chunk but the last is exactly
//! `chunk_size` bytes long.

use crate::paths::{part_file, part_file_path};
use vstd::prelude::*;

verus! {

/// One contiguous byte range of the resource, with the file that backs it.
#[derive(Debug)]
pub struct Chunk {
    /// Position of the chunk in the plan, from 0.
    pub index: usize,
    /// First byte of the range.
    pub start: u64,
    /// Last byte of the range (inclusive).
    pub end: u64,
    /// Bytes already fetched for this chunk.
    pub downloaded: u64,
    /// Part file that receives the chunk's bytes.
    pub path: String,
}

impl Clone for Chunk {
    fn clone(&self) -> (r: Self)
        ensures
            r == *self,
    {
        Chunk {
            index: self.index,
            start: self.start,
            end: self.end,
            downloaded: self.downloaded,
            path: self.path.clone(),
        }
    }
}

impl Chunk {
    /// Number of bytes in the chunk's range.
    pub open spec fn spec_len(&self) -> int {
        self.end - self.start + 1
    }
}

/// One file to fetch in full.
#[derive(Debug)]
pub struct DownloadTask {
    /// Where the resource is fetched from.
    pub url: String,
    /// Where the finished file is written.
    pub output: String,
    /// Size of the resource in bytes; 0 when not yet known.
    pub total_size: u64,
    /// Target size of a chunk in bytes.
    pub chunk_size: u64,
    /// Number of chunks, for callers that record it; the plan does not read it.
    pub num_chunks: usize,
}

impl Clone for DownloadTask {
    fn clone(&self) -> (r: Self)
        ensures
            r == *self,
    {
        DownloadTask {
            url: self.url.clone(),
            output: self.output.clone(),
            total_size: self.total_size,
            chunk_size: self.chunk_size,
            num_chunks: self.num_chunks,
        }
    }
}

/// Number of chunks that cover `total` bytes in chunks of `size` bytes: none
/// when either is 0, else `total / size` rounded up.
pub open spec fn chunk_count(total: nat, size: nat) -> nat {
    if total == 0 || size == 0 {
        0
    } else {
        ((total + size - 1) / size as int) as nat
    }
}

/// First byte of chunk `i`.
pub open spec fn chunk_start(size: nat, i: nat) -> nat {
    i * size
}

/// Last byte of chunk `i`: `chunk_size` bytes after its start, or the last
/// byte of the resource if that comes first.
pub open spec fn chunk_end(total: nat, size: nat, i: nat) -> int {
    if (i + 1) * size >= total {
        total - 1
    } else {
        (i + 1) * size - 1
    }
}

/// Whether `chunks` tile `[0, total)`: they start at 0, end at `total - 1`,
/// none is empty, and each starts right after the one before it ends.
pub open spec fn tiles(chunks: Seq<Chunk>, total: nat) -> bool {
    &&& chunks.len() > 0
    &&& chunks[0].start == 0
    &&& chunks.last().end + 1 == total
    &&& forall|i: int| 0 <= i < chunks.len() ==> (#[trigger] chunks[i]).start <= chunks[i].end
    &&& forall|i: int|
        #![trigger chunks[i]]
        0 <= i < chunks.len() - 1 ==> chunks[i].end + 1 == chunks[i + 1].start
}

/// Whether every chunk but the last is exactly `size` bytes long, and the
/// last no longer than that.
pub open spec fn full_but_last(chunks: Seq<Chunk>, size: nat) -> bool {
    &&& forall|i: int| 0 <= i < chunks.len() - 1 ==> (#[trigger] chunks[i]).spec_len() == size
    &&& chunks.len() > 0 ==> 1 <= chunks.last().spec_len() <= size
}

impl DownloadTask {
    /// Number of chunks in the task's plan.
    pub open spec fn chunk_count(&self) -> nat {
        chunk_count(self.total_size as nat, self.chunk_size as nat)
    }

    /// Whether `chunk` is the chunk that the plan holds at position `i`.
    pub open spec fn plans(&self, chunk: Chunk, i: int) -> bool {
        &&& chunk.index == i
        &&& chunk.start == chunk_start(self.chunk_size as nat, i as nat)
        &&& chunk.end == chunk_end(self.total_size as nat, self.chunk_size as nat, i as nat)
        &&& chunk.downloaded == 0
        &&& chunk.path@ == part_file(self.output@, i as nat)
    }

    /// Whether `chunks` is the task's plan, chunk for chunk.
    pub open spec fn is_plan(&self, chunks: Seq<Chunk>) -> bool {
        &&& chunks.len() == self.chunk_count()
        &&& forall|i: int| 0 <= i < chunks.len() ==> self.plans(#[trigger] chunks[i], i)
    }

    /// Whether the plan has few enough chunks for a `Vec` to hold them.
    pub fn plan_fits(&self) -> (r: bool)
        ensures
            r == (self.chunk_count() <= usize::MAX),
    {
        if self.total_size == 0 || self.chunk_size == 0 {
            true
        } else {
            let count: u64 = (self.total_size - 1) / self.chunk_size + 1;
            proof {
                lemma_count_by_division(self.total_size as nat, self.chunk_size as nat);
            }
            count <= usize::MAX as u64
        }
    }

    /// Plans the chunks of the task, in order.
    ///
    /// No chunk is planned when `total_size` or `chunk_size` is 0. Otherwise
    /// the chunks tile `[0, total_size)` in steps of `chunk_size`, the last
    /// one ending at `total_size - 1`, and each is backed by its own part
    /// file, named after the output path and the chunk's index.
    pub fn create_chunks(&self) -> (chunks: Vec<Chunk>)
        requires
            self.chunk_count() <= usize::MAX,
        ensures
            self.is_plan(chunks@),
            self.total_size == 0 || self.chunk_size == 0 ==> chunks@.len() == 0,
            self.total_size > 0 && self.chunk_size > 0 ==> tiles(chunks@, self.total_size as nat)
                && full_but_last(chunks@, self.chunk_size as nat),
    {
        if self.total_size == 0 || self.chunk_size == 0 {
            return Vec::new();
        }
        let total = self.total_size;
        let size = self.chunk_size;
        proof {
            lemma_count_by_division(total as nat, size as nat);
        }
        let estimated: usize = ((total - 1) / size + 1) as usize;
        let mut chunks: Vec<Chunk> = Vec::with_capacity(estimated);
        let mut start: u64 = 0;
        let mut i: usize = 0;
        while start < total
            invariant
                total == self.total_size,
                size == self.chunk_size,
                total > 0,
                size > 0,
                self.chunk_count() <= usize::MAX,
                chunks@.len() == i,
                start <= total,
                start < total ==> start == i * size,
                start == total ==> i == self.chunk_count(),
                forall|k: int| 0 <= k < i ==> self.plans(#[trigger] chunks@[k], k),
            decreases total - start,
        {
            proof {
                lemma_chunk_in_plan(total as nat, size as nat, i as nat);
                lemma_next_start(total as nat, size as nat, i as nat);
            }
            let remaining = total - start;
            let end = if remaining <= size {
                total - 1
            } else {
                start + (size - 1)
            };
            let path = part_file_path(self.output.as_str(), i);
            chunks.push(Chunk { index: i, start, end, downloaded: 0, path });
            i += 1;
            start = end + 1;
        }
        proof {
            lemma_plan_tiles(*self, chunks@);
        }
        chunks
    }
}

/// The chunk count is one more than the number of whole chunks before the
/// last byte.
pub proof fn lemma_count_by_division(total: nat, size: nat)
    requires
        total > 0,
        size > 0,
    ensures
        chunk_count(total, size) == (total - 1) / size as int + 1,
{
    vstd::arithmetic::div_mod::lemma_div_plus_one((total - 1) as int, size as int);
}

/// Chunk `i` belongs to the plan exactly when it starts inside the resource.
pub proof fn lemma_chunk_in_plan(total: nat, size: nat, i: nat)
    requires
        total > 0,
        size > 0,
    ensures
        i * size < total <==> i < chunk_count(total, size),
{
    lemma_count_by_division(total, size);
    let q = (total - 1) / size as int;
    vstd::arithmetic::div_mod::lemma_fundamental_div_mod((total - 1) as int, size as int);
    let r = (total - 1) % size as int;
    assert(total - 1 == size * q + r);
    assert(0 <= r < size);
    if i <= q {
        assert(i * size <= q * size) by (nonlinear_arith)
            requires
                i <= q,
                size > 0,
        ;
        assert(size * q == q * size) by (nonlinear_arith);
    } else {
        assert(i * size >= (q + 1) * size) by (nonlinear_arith)
            requires
                i >= q + 1,
                size > 0,
        ;
        assert((q + 1) * size == size * q + size) by (nonlinear_arith);
    }
}

/// The byte after the end of chunk `i` is the start of chunk `i + 1`, or the
/// end of the resource, in which case `i` is the last chunk.
proof fn lemma_next_start(total: nat, size: nat, i: nat)
    requires
        total > 0,
        size > 0,
        i * size < total,
    ensures
        (i + 1) * size == i * size + size,
        (i + 1) * size >= total ==> i + 1 == chunk_count(total, size),
{
    assert((i + 1) * size == i * size + size) by (nonlinear_arith);
    lemma_chunk_in_plan(total, size, i);
    lemma_chunk_in_plan(total, size, i + 1);
}

/// A plan for a resource that is not empty tiles it, in full chunks but for
/// the last.
pub proof fn lemma_plan_tiles(task: DownloadTask, chunks: Seq<Chunk>)
    requires
        task.total_size > 0,
        task.chunk_size > 0,
        task.is_plan(chunks),
    ensures
        tiles(chunks, task.total_size as nat),
        full_but_last(chunks, task.chunk_size as nat),
{
    let total = task.total_size as nat;
    let size = task.chunk_size as nat;
    let n = chunks.len();
    lemma_chunk_in_plan(total, size, 0);
    assert(0 * size == 0) by (nonlinear_arith);
    assert(n > 0);
    assert(task.plans(chunks[0], 0));
    assert forall|i: int| 0 <= i < n implies (#[trigger] chunks[i]).start <= chunks[i].end
        && chunks[i].spec_len() <= size && (i < n - 1 ==> chunks[i].end + 1 == chunks[i
        + 1].start && chunks[i].spec_len() == size) && (i == n - 1 ==> chunks[i].end + 1
        == total) by {
        assert(task.plans(chunks[i], i));
        lemma_chunk_in_plan(total, size, i as nat);
        lemma_next_start(total, size, i as nat);
        lemma_chunk_in_plan(total, size, (i + 1) as nat);
        if i < n - 1 {
            assert(task.plans(chunks[i + 1], i + 1));
        }
    }
    assert(chunks.last() == chunks[n - 1]);
}

/// Chunks that tile a range do not overlap: an earlier chunk ends before a
/// later one starts.
pub proof fn lemma_tiles_disjoint(chunks: Seq<Chunk>, total: nat, i: int, j: int)
    requires
        tiles(chunks, total),
        0 <= i < j < chunks.len(),
    ensures
        chunks[i].end < chunks[j].start,
    decreases j - i,
{
    if j == i + 1 {
        assert(chunks[i].end + 1 == chunks[i + 1].start);
    } else {
        lemma_tiles_disjoint(chunks, total, i, j - 1);
        assert(chunks[j - 1].start <= chunks[j - 1].end);
        assert(chunks[j - 1].end + 1 == chunks[j - 1 + 1].start);
    }
}

} // verus!
