//! Split of the agent range into contiguous chunks, one per parallel task.

use vstd::prelude::*;

verus! {

/// The agents `start..end`, handed to one task.
#[derive(Clone, Copy, Debug, PartialEq, Eq, Structural)]
pub struct Chunk {
    pub start: usize,
    pub end: usize,
}

/// Agents per chunk for `count` agents and `workers` tasks: the whole
/// quotient, and one where the quotient is zero or there is no worker.
pub open spec fn chunk_len_of(count: int, workers: int) -> int {
    if workers <= 0 || count / workers == 0 {
        1
    } else {
        count / workers
    }
}

/// Number of chunks of `len` agents that cover `count` agents.
pub open spec fn chunk_count(count: int, len: int) -> int
    recommends
        len > 0,
{
    (count + len - 1) / len
}

/// The `k`-th chunk of `count` agents cut into chunks of `len`.
pub open spec fn chunk_at(count: int, len: int, k: int) -> Chunk {
    Chunk {
        start: (k * len) as usize,
        end: (if (k + 1) * len <= count {
            (k + 1) * len
        } else {
            count
        }) as usize,
    }
}

/// The chunks of `count` agents for `workers` tasks, in order.
pub open spec fn chunks_of(count: int, workers: int) -> Seq<Chunk> {
    let len = chunk_len_of(count, workers);
    Seq::new(chunk_count(count, len) as nat, |k: int| chunk_at(count, len, k))
}

/// `rayon::current_num_threads`: the size of the thread pool that the
/// calling thread would hand work to. It depends on the machine and on how
/// the pool was set up, so nothing is stated of it.
#[verifier::external_body]
fn pool_size() -> (workers: usize) {
    rayon::current_num_threads()
}

/// Length of the chunks into which `count` agents are cut for `workers`
/// tasks. Never zero.
pub fn chunk_len(count: usize, workers: usize) -> (len: usize)
    ensures
        len == chunk_len_of(count as int, workers as int),
        len >= 1,
{
    if workers == 0 {
        1
    } else {
        let quotient: usize = count / workers;
        if quotient == 0 {
            1
        } else {
            quotient
        }
    }
}

proof fn lemma_chunk_count(count: int, len: int, k: int)
    requires
        len > 0,
        0 <= count,
        0 <= k,
        k * len >= count,
        k == 0 || (k - 1) * len < count,
    ensures
        k == chunk_count(count, len),
{
    assert(k == (count + len - 1) / len) by (nonlinear_arith)
        requires
            len > 0,
            0 <= count,
            0 <= k,
            k * len >= count,
            k == 0 || (k - 1) * len < count,
    ;
}

/// Cuts `0..count` into the chunks for `workers` tasks.
pub fn partition(count: usize, workers: usize) -> (chunks: Vec<Chunk>)
    ensures
        chunks@ == chunks_of(count as int, workers as int),
{
    let len: usize = chunk_len(count, workers);
    let mut chunks: Vec<Chunk> = Vec::new();
    let mut start: usize = 0;
    proof {
        assert(chunks.len() * len == 0) by (nonlinear_arith)
            requires
                chunks.len() == 0,
        ;
    }
    while start < count
        invariant
            len >= 1,
            start <= count,
            start == count || start == chunks.len() * len,
            chunks.len() * len >= start,
            chunks.len() == 0 || (chunks.len() - 1) * len < count,
            forall|k: int| 0 <= k < chunks.len() ==> chunks[k] == chunk_at(count as int, len as int, k),
        decreases count - start,
    {
        let ghost k = chunks.len() as int;
        let end: usize = if count - start > len {
            start + len
        } else {
            count
        };
        proof {
            assert((k + 1) * len == k * len + len) by (nonlinear_arith);
            assert(k * len == start);
            assert(Chunk { start, end } == chunk_at(count as int, len as int, k));
        }
        chunks.push(Chunk { start, end });
        start = end;
    }
    proof {
        lemma_chunk_count(count as int, len as int, chunks.len() as int);
        assert(chunks@ =~= chunks_of(count as int, workers as int));
    }
    chunks
}

/// Cuts `0..count` into chunks for the tasks of the current thread pool.
/// Whatever the pool's size, the outcome is the partition for that size.
pub fn partition_for_pool(count: usize) -> (chunks: Vec<Chunk>)
    ensures
        exists|workers: int| 0 <= workers && chunks@ == #[trigger] chunks_of(count as int, workers),
{
    let workers: usize = pool_size();
    let chunks = partition(count, workers);
    assert(chunks@ == chunks_of(count as int, workers as int));
    chunks
}

/// The chunks tile the agent range: each is non-empty and no longer than
/// the chunk length, the first starts at zero, each starts where the one
/// before it ends, and the last ends at `count`.
pub proof fn lemma_chunks_tile(count: int, workers: int, k: int)
    requires
        0 <= count <= usize::MAX,
        0 <= k < chunks_of(count, workers).len(),
    ensures
        chunks_of(count, workers)[k].start < chunks_of(count, workers)[k].end,
        chunks_of(count, workers)[k].end - chunks_of(count, workers)[k].start <= chunk_len_of(
            count,
            workers,
        ),
        k == 0 ==> chunks_of(count, workers)[k].start == 0,
        k > 0 ==> chunks_of(count, workers)[k].start == chunks_of(count, workers)[k - 1].end,
        k == chunks_of(count, workers).len() - 1 ==> chunks_of(count, workers)[k].end == count,
{
    let len = chunk_len_of(count, workers);
    let n = chunk_count(count, len);
    assert(0 <= k * len && k * len < count && (k + 1) * len == k * len + len && (k == n - 1 ==> (k
        + 1) * len >= count)) by (nonlinear_arith)
        requires
            len >= 1,
            0 <= count,
            0 <= k < n,
            n == (count + len - 1) / len,
    ;
    if k > 0 {
        assert((k - 1) * len + len == k * len) by (nonlinear_arith);
    }
}

/// Every agent lies in exactly one chunk.
pub proof fn lemma_agent_in_one_chunk(count: int, workers: int, i: int)
    requires
        0 <= i < count <= usize::MAX,
    ensures
        ({
            let chunks = chunks_of(count, workers);
            let own = i / chunk_len_of(count, workers);
            &&& 0 <= own < chunks.len()
            &&& chunks[own].start <= i < chunks[own].end
            &&& forall|k: int|
                0 <= k < chunks.len() && (#[trigger] chunks[k]).start <= i < chunks[k].end ==> k
                    == own
        }),
{
    let len = chunk_len_of(count, workers);
    let n = chunk_count(count, len);
    let own = i / len;
    assert(0 <= own < n && own * len <= i < (own + 1) * len) by (nonlinear_arith)
        requires
            len >= 1,
            0 <= i < count,
            own == i / len,
            n == (count + len - 1) / len,
    ;
    let chunks = chunks_of(count, workers);
    assert forall|k: int|
        0 <= k < chunks.len() && (#[trigger] chunks[k]).start <= i < chunks[k].end implies k
        == own by {
        lemma_chunks_tile(count, workers, k);
        assert(k * len <= i < (k + 1) * len ==> k == i / len) by (nonlinear_arith)
            requires
                len >= 1,
                0 <= i,
        ;
        assert(0 <= k * len && k * len < count) by (nonlinear_arith)
            requires
                len >= 1,
                0 <= count,
                0 <= k < n,
                n == (count + len - 1) / len,
        ;
    }
}

} // verus!
