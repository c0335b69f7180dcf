use vidpipe::chunks::{chunk_size, plan_chunks};

fn urls(n: usize) -> Vec<String> {
    (0..n).map(|i| format!("https://cdn.example/seg{i}.ts")).collect()
}

#[test]
fn seven_urls_over_four_workers_chunk_as_2_2_2_1() {
    let chunks = plan_chunks(urls(7), 4);
    let lens: Vec<usize> = chunks.iter().map(|c| c.urls.len()).collect();
    assert_eq!(lens, vec![2, 2, 2, 1]);
    let indices: Vec<usize> = chunks.iter().map(|c| c.worker_index).collect();
    assert_eq!(indices, vec![0, 1, 2, 3]);
}

#[test]
fn concatenation_in_worker_order_restores_the_index() {
    let original = urls(11);
    let chunks = plan_chunks(original.clone(), 4);
    let mut rebuilt: Vec<String> = Vec::new();
    for chunk in &chunks {
        rebuilt.extend(chunk.urls.iter().cloned());
    }
    assert_eq!(rebuilt, original);
}

#[test]
fn empty_index_yields_no_chunks() {
    let chunks = plan_chunks(Vec::new(), 4);
    assert!(chunks.is_empty());
}

#[test]
fn index_shorter_than_pool_uses_fewer_workers() {
    let chunks = plan_chunks(urls(3), 4);
    assert_eq!(chunks.len(), 3);
    for (i, chunk) in chunks.iter().enumerate() {
        assert_eq!(chunk.worker_index, i);
        assert_eq!(chunk.urls.len(), 1);
    }
}

#[test]
fn index_divisible_by_pool_fills_every_chunk() {
    let chunks = plan_chunks(urls(8), 4);
    let lens: Vec<usize> = chunks.iter().map(|c| c.urls.len()).collect();
    assert_eq!(lens, vec![2, 2, 2, 2]);
}

#[test]
fn single_worker_takes_the_whole_index() {
    let chunks = plan_chunks(urls(5), 1);
    assert_eq!(chunks.len(), 1);
    assert_eq!(chunks[0].urls.len(), 5);
}

#[test]
fn chunk_size_is_the_ceiling() {
    assert_eq!(chunk_size(7, 4), 2);
    assert_eq!(chunk_size(8, 4), 2);
    assert_eq!(chunk_size(9, 4), 3);
    assert_eq!(chunk_size(0, 4), 0);
    assert_eq!(chunk_size(1, 4), 1);
    assert_eq!(chunk_size(5, 1), 5);
}

#[test]
fn identical_input_yields_identical_partition() {
    let a = plan_chunks(urls(9), 4);
    let b = plan_chunks(urls(9), 4);
    let shape_a: Vec<(usize, Vec<String>)> =
        a.into_iter().map(|c| (c.worker_index, c.urls)).collect();
    let shape_b: Vec<(usize, Vec<String>)> =
        b.into_iter().map(|c| (c.worker_index, c.urls)).collect();
    assert_eq!(shape_a, shape_b);
}
