use vstd::prelude::*;
use crate::chunks::{chunk_views, valid_partition, Chunk};
use crate::errors::VidsrcError;

verus! {

/// Whether an HTTP status code reports success.
pub open spec fn is_success(status: u16) -> bool {
    200 <= status < 300
}

/// The bytes one worker accumulated for its whole chunk, tagged with
/// the chunk's position in the partition.
#[derive(Debug, PartialEq, Eq)]
pub struct DownloadResult {
    pub worker_index: usize,
    pub bytes: Vec<u8>,
}

/// The mathematical value of a [`DownloadResult`].
pub struct DownloadResultView {
    pub worker_index: int,
    pub bytes: Seq<u8>,
}

impl View for DownloadResult {
    type V = DownloadResultView;

    open spec fn view(&self) -> DownloadResultView {
        DownloadResultView { worker_index: self.worker_index as int, bytes: self.bytes@ }
    }
}

/// The values of a sequence of download results.
pub open spec fn result_views(results: Seq<DownloadResult>) -> Seq<DownloadResultView> {
    results.map_values(|r: DownloadResult| r@)
}

/// Whether some result in `results` belongs to worker `w`.
pub open spec fn has_result_for(results: Seq<DownloadResultView>, w: int) -> bool {
    exists|j: int| 0 <= j < results.len() && #[trigger] results[j].worker_index == w
}

/// One terminal result per worker: exactly `count` results, every
/// `worker_index` in range, no index twice, and every index present.
pub open spec fn complete_results(results: Seq<DownloadResultView>, count: int) -> bool {
    &&& results.len() == count
    &&& forall|j: int|
        0 <= j < results.len() ==> 0 <= #[trigger] results[j].worker_index < count
    &&& forall|j1: int, j2: int|
        0 <= j1 < results.len() && 0 <= j2 < results.len() && #[trigger] results[j1].worker_index
            == #[trigger] results[j2].worker_index ==> j1 == j2
    &&& forall|w: int| 0 <= w < count ==> #[trigger] has_result_for(results, w)
}

/// The buffer of the (unique) result for worker `w`.
pub open spec fn bytes_for(results: Seq<DownloadResultView>, w: int) -> Seq<u8> {
    let j = choose|j: int| 0 <= j < results.len() && results[j].worker_index == w;
    results[j].bytes
}

/// The workers' buffers, arranged in ascending `worker_index` order —
/// not in the order the results arrived.
pub open spec fn arranged(results: Seq<DownloadResultView>) -> Seq<Seq<u8>> {
    Seq::new(results.len(), |w: int| bytes_for(results, w))
}

/// The final artifact's bytes: the buffers concatenated in ascending
/// `worker_index` order.
pub open spec fn assembled(results: Seq<DownloadResultView>) -> Seq<u8> {
    arranged(results).flatten()
}

/// Concatenates the workers' buffers in ascending `worker_index`
/// order, whatever order the results stand in — completion order is
/// irrelevant to the artifact.
pub fn reassemble(results: &Vec<DownloadResult>) -> (out: Vec<u8>)
    requires
        complete_results(result_views(results@), results@.len() as int),
    ensures
        out@ == assembled(result_views(results@)),
{
    let ghost views = result_views(results@);
    let n = results.len();
    let mut out: Vec<u8> = Vec::new();
    assert(out@ =~= arranged(views).subrange(0, 0).flatten());
    for w in 0..n
        invariant
            n == results@.len(),
            complete_results(result_views(results@), n as int),
            views == result_views(results@),
            out@ == arranged(views).subrange(0, w as int).flatten(),
    {
        let mut j: usize = 0;
        assert(has_result_for(views, w as int));
        while j < n && results[j].worker_index != w
            invariant
                n == results@.len(),
                views == result_views(results@),
                j <= n,
                forall|k: int| 0 <= k < j ==> #[trigger] views[k].worker_index != w,
                has_result_for(views, w as int),
            decreases n - j,
        {
            j = j + 1;
        }
        proof {
            let k = choose|k: int| 0 <= k < views.len() && views[k].worker_index == w;
            assert(views[k].worker_index == w);
        }
        assert(j < n && views[j as int].worker_index == w);
        assert(bytes_for(views, w as int) == views[j as int].bytes);
        let ghost prev_out = out@;
        let buf = &results[j].bytes;
        let len = buf.len();
        for k in 0..len
            invariant
                len == buf@.len(),
                out@ == prev_out + buf@.subrange(0, k as int),
        {
            out.push(buf[k]);
            assert(out@ =~= prev_out + buf@.subrange(0, k + 1));
        }
        proof {
            broadcast use Seq::<_>::lemma_flatten_push;

            assert(out@ =~= prev_out + views[j as int].bytes);
            assert(arranged(views).subrange(0, w + 1) =~= arranged(views).subrange(
                0,
                w as int,
            ).push(bytes_for(views, w as int)));
            assert(out@ =~= arranged(views).subrange(0, w + 1).flatten());
        }
    }
    assert(arranged(views).subrange(0, n as int) =~= arranged(views));
    out
}

/// Completion order does not matter: two complete result sets that
/// hold the same results — however they are ordered — assemble to the
/// same artifact bytes.
pub proof fn lemma_reassembly_order_independent(
    results1: Seq<DownloadResultView>,
    results2: Seq<DownloadResultView>,
    count: int,
)
    requires
        complete_results(results1, count),
        complete_results(results2, count),
        results1.to_multiset() == results2.to_multiset(),
    ensures
        assembled(results1) == assembled(results2),
{
    broadcast use vstd::seq_lib::group_to_multiset_ensures;

    assert forall|w: int| 0 <= w < count implies bytes_for(results1, w) == bytes_for(
        results2,
        w,
    ) by {
        assert(has_result_for(results1, w));
        assert(has_result_for(results2, w));
        let j1 = choose|j: int| 0 <= j < results1.len() && #[trigger] results1[j].worker_index == w;
        assert(0 <= j1 < results1.len() && results1[j1].worker_index == w);
        let e = results1[j1];
        assert(results1.contains(e));
        assert(results1.to_multiset().count(e) > 0);
        assert(results2.to_multiset().count(e) > 0);
        assert(results2.contains(e));
        let j = choose|j: int| 0 <= j < results2.len() && results2[j] == e;
        let j2 = choose|j: int| 0 <= j < results2.len() && results2[j].worker_index == w;
        assert(results2[j].worker_index == w);
        assert(j == j2);
    };
    assert(arranged(results1) =~= arranged(results2));
}

/// Which result stands first in `results`, once the leading `Ok`s are
/// passed: the error the whole download reports.
pub open spec fn first_error(results: Seq<Result<DownloadResult, VidsrcError>>) -> VidsrcError
    recommends
        exists|i: int| 0 <= i < results.len() && results[i] is Err,
    decreases results.len(),
{
    if results.len() == 0 {
        arbitrary()
    } else {
        match results[0] {
            Result::Err(e) => e,
            Result::Ok(_) => first_error(results.drop_first()),
        }
    }
}

/// Whether every chunk's download succeeded.
pub open spec fn all_ok(results: Seq<Result<DownloadResult, VidsrcError>>) -> bool {
    forall|i: int| 0 <= i < results.len() ==> #[trigger] results[i] is Ok
}

/// The successful results' values, in the order they stand.
pub open spec fn ok_views(results: Seq<Result<DownloadResult, VidsrcError>>) -> Seq<
    DownloadResultView,
> {
    results.map_values(
        |r: Result<DownloadResult, VidsrcError>|
            match r {
                Result::Ok(d) => d@,
                Result::Err(_) => arbitrary(),
            },
    )
}

/// Decides [`assemble_artifact`]'s precondition at run time: either
/// some chunk failed (the judgement is then the first error, whatever
/// the successful results look like), or the successful results form
/// one complete set, exactly one per worker.
#[verifier::loop_isolation(false)]
pub fn results_ready(results: &Vec<Result<DownloadResult, VidsrcError>>) -> (b: bool)
    ensures
        b == (all_ok(results@) ==> complete_results(ok_views(results@), results@.len() as int)),
{
    let ghost views = ok_views(results@);
    let n = results.len();
    let mut j: usize = 0;
    while j < n
        invariant
            forall|k: int| 0 <= k < j ==> #[trigger] results@[k] is Ok,
        decreases n - j,
    {
        if results[j].is_err() {
            return true;
        }
        j = j + 1;
    }
    assert(all_ok(results@));
    assert(forall|k: int|
        0 <= k < n ==> #[trigger] views[k].worker_index == (match results@[k] {
            Result::Ok(d) => d.worker_index as int,
            Result::Err(_) => arbitrary(),
        }));
    let mut j1: usize = 0;
    while j1 < n
        invariant
            forall|k: int|
                0 <= k < j1 ==> 0 <= #[trigger] views[k].worker_index < n as int,
            forall|k1: int, k2: int|
                0 <= k1 < j1 && 0 <= k2 < j1 && k1 != k2 ==> #[trigger] views[k1].worker_index
                    != #[trigger] views[k2].worker_index,
        decreases n - j1,
    {
        let w1 = match &results[j1] {
            Result::Ok(d) => d.worker_index,
            Result::Err(_) => {
                proof {
                    assert(false);
                }
                0
            },
        };
        proof {
            assert(w1 as int == views[j1 as int].worker_index);
        }
        if w1 >= n {
            assert(!complete_results(views, n as int));
            return false;
        }
        let mut j2: usize = 0;
        while j2 < j1
            invariant
                j1 < n,
                w1 == views[j1 as int].worker_index,
                forall|k: int|
                    0 <= k < j2 ==> #[trigger] views[k].worker_index != w1 as int,
            decreases j1 - j2,
        {
            let w2 = match &results[j2] {
                Result::Ok(d) => d.worker_index,
                Result::Err(_) => {
                    proof {
                        assert(false);
                    }
                    0
                },
            };
            if w2 == w1 {
                proof {
                    assert(w2 as int == views[j2 as int].worker_index);
                    assert(views[j1 as int].worker_index == views[j2 as int].worker_index);
                    assert(!complete_results(views, n as int));
                }
                return false;
            }
            j2 = j2 + 1;
        }
        j1 = j1 + 1;
    }
    let mut w: usize = 0;
    while w < n
        invariant
            forall|k: int| 0 <= k < w ==> #[trigger] has_result_for(views, k),
        decreases n - w,
    {
        let mut j3: usize = 0;
        let mut found = false;
        while j3 < n && !found
            invariant
                j3 <= n,
                found ==> has_result_for(views, w as int),
                !found ==> forall|k: int|
                    0 <= k < j3 ==> #[trigger] views[k].worker_index != w as int,
            decreases n - j3, (if found { 0int } else { 1int }),
        {
            let wj = match &results[j3] {
                Result::Ok(d) => d.worker_index,
                Result::Err(_) => {
                    proof {
                        assert(false);
                    }
                    0
                },
            };
            if wj == w {
                proof {
                    assert(views[j3 as int].worker_index == w as int);
                    assert(has_result_for(views, w as int));
                }
                found = true;
            } else {
                j3 = j3 + 1;
            }
        }
        if !found {
            assert(!has_result_for(views, w as int));
            return false;
        }
        w = w + 1;
    }
    assert(complete_results(views, n as int));
    true
}

/// Judges a manifest's whole download once every worker has reached a
/// terminal state: one failed chunk fails the whole manifest — no
/// retry, no partial artifact — and only an all-success set is
/// assembled, in `worker_index` order.
#[verifier::loop_isolation(false)]
pub fn assemble_artifact(results: Vec<Result<DownloadResult, VidsrcError>>) -> (out: Result<
    Vec<u8>,
    VidsrcError,
>)
    requires
        all_ok(results@) ==> complete_results(ok_views(results@), results@.len() as int),
    ensures
        out is Ok <==> all_ok(results@),
        out matches Ok(bytes) ==> bytes@ == assembled(ok_views(results@)),
        !all_ok(results@) ==> out == Err::<Vec<u8>, VidsrcError>(first_error(results@)),
{
    let ghost orig = results@;
    let mut remaining = results;
    let mut oks: Vec<DownloadResult> = Vec::new();
    while remaining.len() > 0
        invariant
            orig == oks@.map_values(
                |d: DownloadResult| Result::<DownloadResult, VidsrcError>::Ok(d),
            ) + remaining@,
            result_views(oks@) == ok_views(orig.subrange(0, oks@.len() as int)),
            forall|i: int| 0 <= i < oks@.len() ==> #[trigger] orig[i] is Ok,
        decreases remaining@.len(),
    {
        let ghost prev_oks = oks@;
        let ghost prev_remaining = remaining@;
        let next = remaining.remove(0);
        match next {
            Result::Ok(d) => {
                oks.push(d);
                proof {
                    assert(orig == prev_oks.map_values(
                        |d: DownloadResult| Result::<DownloadResult, VidsrcError>::Ok(d),
                    ) + prev_remaining);
                    assert(oks@.map_values(
                        |d: DownloadResult| Result::<DownloadResult, VidsrcError>::Ok(d),
                    ) + remaining@ =~= orig);
                    assert(result_views(oks@) =~= ok_views(orig.subrange(0, oks@.len() as int)));
                }
            },
            Result::Err(e) => {
                proof {
                    let i = prev_oks.len() as int;
                    assert(orig[i] == prev_remaining[0]);
                    assert(!(orig[i] is Ok));
                    lemma_first_error_at(orig, i, e);
                }
                return Result::Err(e);
            },
        }
    }
    proof {
        assert(orig =~= orig.subrange(0, oks@.len() as int));
        assert(all_ok(orig));
    }
    let bytes = reassemble(&oks);
    Result::Ok(bytes)
}

/// If everything before position `i` is a success and position `i`
/// carries `e`, then `e` is the first error of the sequence.
proof fn lemma_first_error_at(
    results: Seq<Result<DownloadResult, VidsrcError>>,
    i: int,
    e: VidsrcError,
)
    requires
        0 <= i < results.len(),
        results[i] == Result::<DownloadResult, VidsrcError>::Err(e),
        forall|k: int| 0 <= k < i ==> #[trigger] results[k] is Ok,
    ensures
        first_error(results) == e,
    decreases i,
{
    if i == 0 {
    } else {
        lemma_first_error_at(results.drop_first(), i - 1, e);
    }
}

/// One worker's walk through its chunk: which segment to fetch next,
/// and the bytes accumulated so far. The worker fetches its segments
/// strictly in chunk order and fails fast on the first non-success
/// status, without touching any other worker's chunk.
#[derive(Debug)]
pub struct ChunkWorker {
    pub worker_index: usize,
    pub urls: Vec<String>,
    pub fetched: usize,
    pub bytes: Vec<u8>,
}

impl ChunkWorker {
    /// A worker never claims more segments than its chunk holds.
    pub open spec fn wf(&self) -> bool {
        self.fetched <= self.urls@.len()
    }

    /// A fresh worker for one chunk: nothing fetched, nothing
    /// accumulated.
    pub fn start(chunk: Chunk) -> (worker: ChunkWorker)
        ensures
            worker.wf(),
            worker.worker_index == chunk.worker_index,
            worker.urls == chunk.urls,
            worker.fetched == 0,
            worker.bytes@ == Seq::<u8>::empty(),
    {
        ChunkWorker { worker_index: chunk.worker_index, urls: chunk.urls, fetched: 0, bytes: Vec::new() }
    }

    /// The next segment to fetch, strictly in chunk order; `None` once
    /// the chunk is exhausted.
    pub fn next_url(&self) -> (url: Option<&String>)
        requires
            self.wf(),
        ensures
            match url {
                Some(u) => self.fetched < self.urls@.len() && u == self.urls@[self.fetched as int],
                None => self.fetched == self.urls@.len(),
            },
    {
        if self.fetched < self.urls.len() {
            Some(&self.urls[self.fetched])
        } else {
            None
        }
    }

    /// Consumes one segment's response. A success status appends the
    /// body to the worker's buffer and advances to the next segment; a
    /// non-success status aborts the whole chunk at once with a
    /// status-carrying error, keeping nothing.
    pub fn on_segment(self, status: u16, body: &[u8]) -> (r: Result<ChunkWorker, VidsrcError>)
        requires
            self.wf(),
            self.fetched < self.urls@.len(),
        ensures
            match r {
                Ok(next) => is_success(status) && next.wf() && next.worker_index
                    == self.worker_index && next.urls == self.urls && next.fetched == self.fetched
                    + 1 && next.bytes@ == self.bytes@ + body@,
                Err(e) => !is_success(status) && e == (VidsrcError::ChunkDownload { status }),
            },
    {
        if status >= 200 && status < 300 {
            let chunk_len = self.urls.len();
            assert(self.fetched < chunk_len);
            let mut bytes = self.bytes;
            let ghost prev = bytes@;
            let n = body.len();
            for k in 0..n
                invariant
                    n == body@.len(),
                    bytes@ == prev + body@.subrange(0, k as int),
            {
                bytes.push(body[k]);
                proof {
                    assert(bytes@ =~= prev + body@.subrange(0, k + 1));
                }
            }
            proof {
                assert(bytes@ =~= prev + body@);
            }
            Ok(
                ChunkWorker {
                    worker_index: self.worker_index,
                    urls: self.urls,
                    fetched: self.fetched + 1,
                    bytes,
                },
            )
        } else {
            Err(VidsrcError::ChunkDownload { status })
        }
    }

    /// How far this worker has come: segments fetched, out of the
    /// chunk's length.
    pub fn progress(&self) -> (p: (usize, usize))
        ensures
            p.0 == self.fetched,
            p.1 == self.urls@.len(),
    {
        (self.fetched, self.urls.len())
    }

    /// Whether every segment of the chunk has been fetched.
    pub fn is_complete(&self) -> (b: bool)
        ensures
            b == (self.fetched == self.urls@.len()),
    {
        self.fetched == self.urls.len()
    }

    /// The worker's terminal result, once its chunk is exhausted.
    pub fn finish(self) -> (result: DownloadResult)
        requires
            self.fetched == self.urls@.len(),
        ensures
            result.worker_index == self.worker_index,
            result.bytes == self.bytes,
    {
        DownloadResult { worker_index: self.worker_index, bytes: self.bytes }
    }
}

/// What the pipeline decided to do for one manifest before any fetch
/// happens.
#[derive(Debug)]
pub enum ArtifactPlan {
    /// An artifact already exists at the destination: nothing is
    /// fetched and nothing is overwritten.
    Skip,
    /// No artifact exists yet: fetch exactly these chunks.
    Fetch(Vec<Chunk>),
}

/// Plans one manifest's download. An existing artifact at the
/// destination turns the whole manifest into a skip — the plan carries
/// no chunks, so not a single fetch is performed and the existing file
/// is never touched. Otherwise the index is partitioned for the worker
/// pool.
pub fn plan_artifact(already_exists: bool, index: Vec<String>, workers: usize) -> (plan:
    ArtifactPlan)
    requires
        1 <= workers,
    ensures
        already_exists <==> plan is Skip,
        plan matches ArtifactPlan::Fetch(chunks) ==> valid_partition(
            chunk_views(chunks@),
            index@,
            workers as int,
        ),
{
    if already_exists {
        ArtifactPlan::Skip
    } else {
        ArtifactPlan::Fetch(crate::chunks::plan_chunks(index, workers))
    }
}

} // verus!
