use vstd::prelude::*;
use vstd::arithmetic::div_mod::lemma_fundamental_div_mod;

verus! {

/// One contiguous sub-range of a manifest's segment index, assigned to
/// one worker. `worker_index` is the chunk's position in the partition
/// and restores global order at reassembly time; it says nothing about
/// the order in which workers finish.
#[derive(Debug, PartialEq, Eq)]
pub struct Chunk {
    pub worker_index: usize,
    pub urls: Vec<String>,
}

/// The mathematical value of a [`Chunk`].
pub struct ChunkView {
    pub worker_index: int,
    pub urls: Seq<String>,
}

impl View for Chunk {
    type V = ChunkView;

    open spec fn view(&self) -> ChunkView {
        ChunkView { worker_index: self.worker_index as int, urls: self.urls@ }
    }
}

/// The values of a sequence of chunks.
pub open spec fn chunk_views(chunks: Seq<Chunk>) -> Seq<ChunkView> {
    chunks.map_values(|c: Chunk| c@)
}

/// The segment URLs of `chunks`, concatenated in ascending
/// `worker_index` order (which for a valid partition is the order the
/// chunks stand in).
pub open spec fn concat_chunks(chunks: Seq<ChunkView>) -> Seq<String> {
    chunks.map_values(|c: ChunkView| c.urls).flatten()
}

/// The size of every chunk but possibly the last: the ceiling of
/// `len / workers`.
pub open spec fn ceil_div(len: int, workers: int) -> int
    recommends
        1 <= workers,
{
    (len + workers - 1) / workers
}

/// What the chunk planner owes: `chunks` partitions `urls` into at most
/// `workers` contiguous, order-preserving, non-empty pieces, numbered
/// from zero, every piece but the last of length exactly
/// `ceil_div(urls.len(), workers)` and the last no longer than that.
pub open spec fn valid_partition(chunks: Seq<ChunkView>, urls: Seq<String>, workers: int) -> bool {
    let size = ceil_div(urls.len() as int, workers);
    &&& concat_chunks(chunks) == urls
    &&& chunks.len() <= workers
    &&& (chunks.len() == 0 <==> urls.len() == 0)
    &&& forall|i: int| 0 <= i < chunks.len() ==> #[trigger] chunks[i].worker_index == i
    &&& forall|i: int| 0 <= i < chunks.len() - 1 ==> #[trigger] chunks[i].urls.len() == size
    &&& chunks.len() > 0 ==> 0 < chunks.last().urls.len() <= size
}

/// `ceil_div` really is the ceiling: `workers` chunks of that size
/// cover the whole index, and the size never exceeds the index length.
proof fn lemma_ceil_div_bounds(len: int, workers: int)
    requires
        1 <= workers,
        0 <= len,
    ensures
        ceil_div(len, workers) * workers >= len,
        0 < len ==> 1 <= ceil_div(len, workers) <= len,
        len == 0 ==> ceil_div(len, workers) == 0,
{
    lemma_fundamental_div_mod(len + workers - 1, workers);
    let q = (len + workers - 1) / workers;
    let r = (len + workers - 1) % workers;
    assert(len + workers - 1 == workers * q + r);
    assert(0 <= r < workers);
    assert(q * workers == workers * q) by (nonlinear_arith);
    if 0 < len {
        assert(q >= 1) by (nonlinear_arith)
            requires
                workers * q + r == len + workers - 1,
                0 <= r < workers,
                1 <= workers,
                1 <= len,
        ;
        assert(q <= len) by (nonlinear_arith)
            requires
                workers * q + r == len + workers - 1,
                0 <= r < workers,
                1 <= workers,
                1 <= len,
        ;
    } else {
        assert(q == 0) by (nonlinear_arith)
            requires
                workers * q + r == workers - 1,
                0 <= r < workers,
                1 <= workers,
        ;
    }
}

/// The chunk size the planner uses for an index of length `len` and a
/// pool of `workers` workers.
pub fn chunk_size(len: usize, workers: usize) -> (size: usize)
    requires
        1 <= workers,
    ensures
        size == ceil_div(len as int, workers as int),
{
    proof {
        lemma_ceil_div_bounds(len as int, workers as int);
    }
    ((len as u128 + workers as u128 - 1) / (workers as u128)) as usize
}

/// Splits an ordered segment index into at most `workers` contiguous,
/// order-preserving chunks: every chunk but the last holds exactly
/// `ceil_div(len, workers)` URLs, the last holds the remainder, and an
/// empty index yields no chunks at all.
///
/// The concatenation of the chunks' URLs in `worker_index` order is the
/// input index exactly — no gaps, no duplicates, no reordering — and
/// identical input always yields the identical partition.
pub fn plan_chunks(urls: Vec<String>, workers: usize) -> (chunks: Vec<Chunk>)
    requires
        1 <= workers,
    ensures
        valid_partition(chunk_views(chunks@), urls@, workers as int),
{
    let ghost orig: Seq<String> = urls@;
    let len = urls.len();
    let mut chunks: Vec<Chunk> = Vec::new();
    if len == 0 {
        assert(concat_chunks(chunk_views(chunks@)) =~= orig);
        return chunks;
    }
    let size = chunk_size(len, workers);
    proof {
        lemma_ceil_div_bounds(len as int, workers as int);
    }
    let mut rest = urls;
    let mut i: usize = 0;
    while rest.len() > 0
        invariant
            1 <= workers,
            size == ceil_div(orig.len() as int, workers as int),
            1 <= size,
            orig.len() == len,
            1 <= len,
            chunks@.len() == i,
            i <= orig.len() - rest@.len(),
            concat_chunks(chunk_views(chunks@)) + rest@ =~= orig,
            forall|j: int| 0 <= j < i ==> #[trigger] chunks@[j]@.worker_index == j,
            rest@.len() > 0 ==> forall|j: int|
                0 <= j < i ==> #[trigger] chunks@[j]@.urls.len() == size,
            forall|j: int| 0 <= j < i - 1 ==> #[trigger] chunks@[j]@.urls.len() == size,
            i > 0 ==> 0 < chunks@.last()@.urls.len() <= size,
            rest@.len() > 0 ==> orig.len() - rest@.len() == i * size,
            orig.len() - rest@.len() <= i * size,
            i > 0 ==> orig.len() - rest@.len() > (i - 1) * size,
        decreases rest@.len(),
    {
        let take = if rest.len() < size {
            rest.len()
        } else {
            size
        };
        let ghost prev_rest: Seq<String> = rest@;
        let ghost prev_chunks: Seq<Chunk> = chunks@;
        let ghost consumed: int = orig.len() - prev_rest.len();
        let tail = rest.split_off(take);
        let piece = Chunk { worker_index: i, urls: rest };
        chunks.push(piece);
        rest = tail;
        i = i + 1;
        proof {
            broadcast use Seq::<_>::lemma_flatten_push;

            assert(chunk_views(chunks@) =~= chunk_views(prev_chunks).push(
                ChunkView { worker_index: i - 1, urls: prev_rest.subrange(0, take as int) },
            ));
            assert(chunk_views(chunks@).map_values(|c: ChunkView| c.urls) =~= chunk_views(
                prev_chunks,
            ).map_values(|c: ChunkView| c.urls).push(prev_rest.subrange(0, take as int)));
            assert(concat_chunks(chunk_views(chunks@)) + rest@ =~= orig);
            assert((i - 1) * size + size == i * size) by (nonlinear_arith);
            assert(consumed == (i - 1) * size);
            assert(orig.len() - rest@.len() == consumed + take);
        }
    }
    proof {
        // The partition has at most `workers` chunks: were there more,
        // the full chunks before the last would already cover the index.
        lemma_ceil_div_bounds(len as int, workers as int);
        assert(orig.len() > (i - 1) * size);
        if i > workers {
            assert((i - 1) * size >= workers as int * size) by (nonlinear_arith)
                requires
                    i - 1 >= workers as int,
                    size >= 1,
            ;
            assert(size * workers as int == workers as int * size) by (nonlinear_arith);
            assert(false);
        }
    }
    chunks
}

} // verus!
