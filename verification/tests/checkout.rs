use frostflake::{CheckoutPool, GeneratorPoolOptions};

fn fixed_clock() -> u64 {
    1483228800000 + 9
}

#[test]
fn test_checkout_capacity() {
    // A pool of size 2 grants exactly two borrows; the third must wait.
    let mut pool = CheckoutPool::new(2, GeneratorPoolOptions::default().time_fn(fixed_clock));
    assert_eq!(pool.available(), 2);

    let g1 = pool.try_get_generator();
    assert!(g1.is_some());
    let g2 = pool.try_get_generator();
    assert!(g2.is_some());
    assert_eq!(pool.available(), 0);
    assert!(pool.try_get_generator().is_none());

    // After a return, the next borrow proceeds immediately.
    pool.return_generator(g1.unwrap());
    assert_eq!(pool.available(), 1);
    assert!(pool.try_get_generator().is_some());
}

#[test]
fn test_checkout_fifo_order() {
    let mut pool = CheckoutPool::new(3, GeneratorPoolOptions::default().time_fn(fixed_clock));
    // Slots come out oldest-first: indices 0, 1, 2.
    let a = pool.try_get_generator().unwrap();
    let b = pool.try_get_generator().unwrap();
    assert_eq!(a.opts.node, 0);
    assert_eq!(b.opts.node, 1 << 6);
    // A returned slot goes to the back of the queue.
    pool.return_generator(a);
    let c = pool.try_get_generator().unwrap();
    let d = pool.try_get_generator().unwrap();
    assert_eq!(c.opts.node, 2 << 6);
    assert_eq!(d.opts.node, 0);
}

#[test]
fn test_checkout_generate_and_extract() {
    let opts = GeneratorPoolOptions::default().time_fn(fixed_clock).node(5);
    let mut pool = CheckoutPool::new(2, opts);

    let mut g0 = pool.try_get_generator().unwrap();
    let mut g1 = pool.try_get_generator().unwrap();
    let id0 = g0.generate().unwrap();
    let id1 = g1.generate().unwrap();
    assert_ne!(id0, id1);

    let (ts, pool_id, node, seq) = pool.extract(id0);
    assert_eq!((ts, pool_id, node, seq), (9, 0, 5, 0));
    let (ts, pool_id, node, seq) = pool.extract(id1);
    assert_eq!((ts, pool_id, node, seq), (9, 1, 5, 0));

    pool.return_generator(g0);
    pool.return_generator(g1);
    assert_eq!(pool.available(), 2);
}
