use frostflake::{Generator, GeneratorPoolOptions};

fn test_fn() -> u64 {
    1483228800000 + 123
}

#[test]
fn test_options_default() {
    let opts = GeneratorPoolOptions::default();
    assert_eq!(opts.bits, (42, 4, 6, 12));
    assert_eq!(opts.node, 0);
    assert_eq!(opts.base_ts, 1483228800000);
}

#[test]
fn test_options_set_base() {
    let opts = GeneratorPoolOptions::default().base_ts(123);
    assert_eq!(opts.base_ts, 123);
}

#[test]
fn test_options_set_node() {
    let opts = GeneratorPoolOptions::default().node(10);
    assert_eq!(opts.node, 10);
}

#[test]
fn test_options_set_time_fn() {
    let opts = GeneratorPoolOptions::default().time_fn(test_fn);
    assert_eq!(opts.time_fn.read(), 1483228800000 + 123);
}

#[test]
fn test_options_set_bits() {
    let opts = GeneratorPoolOptions::default().bits(41, 5, 6, 12);
    assert_eq!(opts.bits, (41, 5, 6, 12));
    assert!(opts.is_valid());
}

#[test]
fn test_generator_opts_merges_fields() {
    let opts = GeneratorPoolOptions::default().node(3);
    let gopts = opts.generator_opts();
    assert_eq!(gopts.bits, (42, 10, 12));
    assert_eq!(gopts.base_ts, 1483228800000);
    assert_eq!(gopts.node, 0);
}

#[test]
fn test_worker_opts_disjoint_nodes() {
    let opts = GeneratorPoolOptions::default().node(3);
    // Worker index sits above the six node bits: index << 6 | node.
    assert_eq!(opts.worker_opts(0).node, 3);
    assert_eq!(opts.worker_opts(1).node, (1 << 6) | 3);
    assert_eq!(opts.worker_opts(15).node, (15 << 6) | 3);
}

fn pool_time_fn() -> u64 {
    1483228800000 + 12345
}

#[test]
fn test_worker_extract_split() {
    // A worker's identifiers decode to its own pool index and the shared
    // node number.
    let opts = GeneratorPoolOptions::default().time_fn(pool_time_fn).node(3);

    let mut g = Generator::new(opts.worker_opts(1));

    let id = g.generate().unwrap();
    let (ts, pool_id, node, seq) = opts.extract(id);
    assert_eq!(ts, 12345);
    assert_eq!(pool_id, 1);
    assert_eq!(node, 3);
    assert_eq!(seq, 0);

    let id = g.generate().unwrap();
    let (ts, pool_id, node, seq) = opts.extract(id);
    assert_eq!(ts, 12345);
    assert_eq!(pool_id, 1);
    assert_eq!(node, 3);
    assert_eq!(seq, 1);
}

#[test]
fn test_workers_never_collide() {
    let opts = GeneratorPoolOptions::default().time_fn(pool_time_fn);
    let mut g0 = Generator::new(opts.worker_opts(0));
    let mut g1 = Generator::new(opts.worker_opts(1));
    let mut seen: Vec<u64> = Vec::new();
    for _ in 0..50 {
        seen.push(g0.generate().unwrap());
        seen.push(g1.generate().unwrap());
    }
    let mut sorted = seen.clone();
    sorted.sort();
    sorted.dedup();
    assert_eq!(sorted.len(), seen.len());
}
