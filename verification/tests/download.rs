use vidpipe::chunks::{plan_chunks, Chunk};
use vidpipe::download::{
    assemble_artifact, plan_artifact, reassemble, results_ready, ArtifactPlan, ChunkWorker,
    DownloadResult,
};
use vidpipe::errors::VidsrcError;
use vidpipe::progress::percent_complete;

fn result(worker_index: usize, bytes: &[u8]) -> DownloadResult {
    DownloadResult { worker_index, bytes: bytes.to_vec() }
}

#[test]
fn reassembly_orders_by_worker_index_not_arrival() {
    let arrivals = vec![result(2, b"cc"), result(0, b"aa"), result(3, b"d"), result(1, b"bb")];
    let out = reassemble(&arrivals);
    assert_eq!(out, b"aabbccd".to_vec());
}

#[test]
fn every_completion_order_gives_the_same_bytes() {
    let parts: Vec<(usize, &[u8])> = vec![(0, b"one"), (1, b"two"), (2, b"three")];
    let expected = b"onetwothree".to_vec();
    let orders: Vec<[usize; 3]> = vec![
        [0, 1, 2],
        [0, 2, 1],
        [1, 0, 2],
        [1, 2, 0],
        [2, 0, 1],
        [2, 1, 0],
    ];
    for order in orders {
        let arrivals: Vec<DownloadResult> =
            order.iter().map(|&k| result(parts[k].0, parts[k].1)).collect();
        assert_eq!(reassemble(&arrivals), expected);
    }
}

#[test]
fn one_failed_chunk_fails_the_whole_manifest() {
    let results = vec![
        Ok(result(0, b"aa")),
        Err(VidsrcError::ChunkDownload { status: 503 }),
        Ok(result(2, b"cc")),
    ];
    let out = assemble_artifact(results);
    assert_eq!(out, Err(VidsrcError::ChunkDownload { status: 503 }));
}

#[test]
fn all_successful_chunks_assemble() {
    let results = vec![Ok(result(1, b"bb")), Ok(result(0, b"aa"))];
    let out = assemble_artifact(results);
    assert_eq!(out, Ok(b"aabb".to_vec()));
}

#[test]
fn seven_urls_four_workers_with_worker_two_failing() {
    // The concrete scenario: an index of 7 URLs over 4 workers chunks
    // as [2, 2, 2, 1]; worker 2's chunk fails while 0, 1 and 3
    // succeed, and the whole manifest reports the chunk error.
    let urls: Vec<String> =
        (0..7).map(|i| format!("https://cdn.example/part{i}.ts")).collect();
    let chunks = plan_chunks(urls, 4);
    let lens: Vec<usize> = chunks.iter().map(|c| c.urls.len()).collect();
    assert_eq!(lens, vec![2, 2, 2, 1]);

    let mut results: Vec<Result<DownloadResult, VidsrcError>> = Vec::new();
    for chunk in chunks {
        let worker_index = chunk.worker_index;
        if worker_index == 2 {
            results.push(Err(VidsrcError::ChunkDownload { status: 404 }));
        } else {
            let mut worker = ChunkWorker::start(chunk);
            while !worker.is_complete() {
                worker = worker.on_segment(200, b"x").expect("success status");
            }
            assert_eq!(worker.worker_index, worker_index);
            results.push(Ok(worker.finish()));
        }
    }
    let out = assemble_artifact(results);
    assert_eq!(out, Err(VidsrcError::ChunkDownload { status: 404 }));
}

#[test]
fn existing_artifact_skips_without_any_chunk() {
    let urls = vec!["https://cdn.example/a.ts".to_string()];
    match plan_artifact(true, urls, 4) {
        ArtifactPlan::Skip => {}
        ArtifactPlan::Fetch(_) => panic!("an existing artifact must be skipped"),
    }
}

#[test]
fn missing_artifact_is_fetched_in_chunks() {
    let urls: Vec<String> =
        (0..5).map(|i| format!("https://cdn.example/{i}.ts")).collect();
    match plan_artifact(false, urls.clone(), 4) {
        ArtifactPlan::Skip => panic!("a missing artifact must be fetched"),
        ArtifactPlan::Fetch(chunks) => {
            let rebuilt: Vec<String> =
                chunks.iter().flat_map(|c| c.urls.iter().cloned()).collect();
            assert_eq!(rebuilt, urls);
        }
    }
}

#[test]
fn worker_walks_its_chunk_in_order_and_accumulates() {
    let chunk = Chunk {
        worker_index: 0,
        urls: vec![
            "https://cdn.example/1.ts".to_string(),
            "https://cdn.example/2.ts".to_string(),
        ],
    };
    let worker = ChunkWorker::start(chunk);
    assert_eq!(worker.next_url().map(|u| u.as_str()), Some("https://cdn.example/1.ts"));
    assert_eq!(worker.progress(), (0, 2));
    let worker = worker.on_segment(200, b"first").expect("first segment");
    assert_eq!(worker.next_url().map(|u| u.as_str()), Some("https://cdn.example/2.ts"));
    assert_eq!(worker.progress(), (1, 2));
    assert_eq!(percent_complete(1, 2), 50);
    let worker = worker.on_segment(204, b"second").expect("second segment");
    assert!(worker.is_complete());
    assert_eq!(worker.next_url(), None);
    assert_eq!(percent_complete(2, 2), 100);
    let done = worker.finish();
    assert_eq!(done.worker_index, 0);
    assert_eq!(done.bytes, b"firstsecond".to_vec());
}

#[test]
fn worker_fails_fast_on_a_bad_status() {
    let chunk = Chunk {
        worker_index: 1,
        urls: vec![
            "https://cdn.example/1.ts".to_string(),
            "https://cdn.example/2.ts".to_string(),
        ],
    };
    let worker = ChunkWorker::start(chunk);
    let worker = worker.on_segment(200, b"good").expect("first segment");
    let err = worker.on_segment(500, b"ignored").expect_err("bad status aborts");
    assert_eq!(err, VidsrcError::ChunkDownload { status: 500 });
}

#[test]
fn percent_complete_rounds_down() {
    assert_eq!(percent_complete(1, 3), 33);
    assert_eq!(percent_complete(2, 3), 66);
    assert_eq!(percent_complete(3, 3), 100);
    assert_eq!(percent_complete(7, 9), 77);
}

#[test]
fn results_ready_accepts_complete_sets_and_any_failure() {
    let complete: Vec<Result<DownloadResult, VidsrcError>> =
        vec![Ok(result(1, b"b")), Ok(result(0, b"a"))];
    assert!(results_ready(&complete));

    let with_failure: Vec<Result<DownloadResult, VidsrcError>> =
        vec![Ok(result(0, b"a")), Err(VidsrcError::ChunkDownload { status: 500 })];
    assert!(results_ready(&with_failure));

    let duplicated: Vec<Result<DownloadResult, VidsrcError>> =
        vec![Ok(result(0, b"a")), Ok(result(0, b"b"))];
    assert!(!results_ready(&duplicated));

    let out_of_range: Vec<Result<DownloadResult, VidsrcError>> = vec![Ok(result(5, b"a"))];
    assert!(!results_ready(&out_of_range));
}
