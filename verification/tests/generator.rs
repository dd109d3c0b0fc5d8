use frostflake::{bitmask, max, Error, Generator, GeneratorOptions};

fn my_time_fn() -> u64 {
    1483228800000 + 123
}

#[test]
fn test_basic() {
    let opts = GeneratorOptions::default().time_fn(my_time_fn);

    let mut g = Generator::new(opts);
    assert_eq!(g.generate().unwrap(), (123 << 22));
    assert_eq!(g.generate().unwrap(), (123 << 22) + 1);
    assert_eq!(g.generate().unwrap(), (123 << 22) + 2);
}

#[test]
fn test_extract() {
    let opts = GeneratorOptions::default().time_fn(my_time_fn).node(3);

    let mut g = Generator::new(opts);

    let id = g.generate().unwrap();
    let (ts, node, seq) = g.extract(id);
    assert_eq!(ts, 123);
    assert_eq!(node, 3);
    assert_eq!(seq, 0);

    let id = g.generate().unwrap();
    let (ts, node, seq) = g.extract(id);
    assert_eq!(ts, 123);
    assert_eq!(node, 3);
    assert_eq!(seq, 1);
}

#[test]
fn test_bitmask() {
    assert_eq!(bitmask(1), 0xFFFFFFFFFFFFFFFE);
    assert_eq!(bitmask(4), 0xFFFFFFFFFFFFFFF0);
    assert_eq!(bitmask(8), 0xFFFFFFFFFFFFFF00);
}

#[test]
fn test_max() {
    assert_eq!(max(1), 1);
    assert_eq!(max(2), 3);
    assert_eq!(max(8), 255);
}

#[test]
fn test_options_defaults() {
    let opts = GeneratorOptions::default();
    assert_eq!(opts.bits, (42, 10, 12));
    assert_eq!(opts.base_ts, 1483228800000);
    assert_eq!(opts.node, 0);
    assert!(opts.is_valid());
}

#[test]
fn test_clock_before_epoch() {
    let mut g = Generator::new(GeneratorOptions::default());
    // A reading exactly at the epoch offset is still before the first tick.
    assert_eq!(g.generate_at(1483228800000), Err(Error::ClockBeforeEpoch));
    assert_eq!(g.generate_at(42), Err(Error::ClockBeforeEpoch));
}

#[test]
fn test_clock_regression() {
    let mut g = Generator::new(GeneratorOptions::default());
    assert_eq!(g.generate_at(1483228800100).unwrap(), 100 << 22);
    assert_eq!(g.generate_at(1483228800050), Err(Error::ClockRegression));
    // The failed call left the state alone: the old tick still advances.
    assert_eq!(g.generate_at(1483228800100).unwrap(), (100 << 22) + 1);
}

#[test]
fn test_sequence_exhaustion() {
    // Two sequence bits: four identifiers per tick, the fifth faults.
    let opts = GeneratorOptions::default().bits(50, 12, 2);
    let mut g = Generator::new(opts);
    for seq in 0..4u64 {
        assert_eq!(g.generate_at(1483228800001).unwrap(), (1 << 14) + seq);
    }
    assert_eq!(g.generate_at(1483228800001), Err(Error::SequenceExhausted));
    // The next tick starts over at sequence zero.
    assert_eq!(g.generate_at(1483228800002).unwrap(), 2 << 14);
}

#[test]
fn test_monotonic_across_ticks() {
    let mut g = Generator::new(GeneratorOptions::default());
    let a = g.generate_at(1483228800001).unwrap();
    let b = g.generate_at(1483228800001).unwrap();
    let c = g.generate_at(1483228800777).unwrap();
    assert!(a < b);
    assert!(b < c);
}

#[test]
fn test_try_bits_faults() {
    let opts = GeneratorOptions::default();
    assert!(matches!(
        opts.try_bits(40, 10, 12),
        Err(Error::FieldWidthMismatch)
    ));
    let opts = GeneratorOptions::default();
    // The default epoch offset needs more than 20 timestamp bits.
    assert!(matches!(
        opts.try_bits(20, 32, 12),
        Err(Error::BaseExceedsWidth)
    ));
    let opts = GeneratorOptions::default().node(512);
    // Node 512 does not fit 9 node bits.
    assert!(matches!(
        opts.try_bits(43, 9, 12),
        Err(Error::NodeExceedsWidth)
    ));
    let opts = GeneratorOptions::default().try_bits(42, 10, 12).unwrap();
    assert_eq!(opts.bits, (42, 10, 12));
}

#[test]
fn test_try_base_ts_and_node() {
    let opts = GeneratorOptions::default();
    assert!(matches!(
        opts.try_base_ts(1 << 42),
        Err(Error::BaseExceedsWidth)
    ));
    let opts = GeneratorOptions::default().try_base_ts(123).unwrap();
    assert_eq!(opts.base_ts, 123);
    assert!(matches!(
        opts.clone().try_node(1024),
        Err(Error::NodeExceedsWidth)
    ));
    let opts = opts.try_node(1023).unwrap();
    assert_eq!(opts.node, 1023);
}

#[test]
fn test_default_clock() {
    // The system clock reads well past the 2017 epoch, so the default
    // configuration generates successfully and decodes to a positive tick.
    let mut g = Generator::new(GeneratorOptions::default());
    let id = g.generate().unwrap();
    let (ts, node, seq) = g.extract(id);
    assert!(ts > 0);
    assert_eq!(node, 0);
    assert_eq!(seq, 0);
}

// A clock in plain seconds, for the smaller-time-unit test.
fn secs() -> u64 {
    1483228800 + 7
}

#[test]
fn test_custom_seconds_clock() {
    // Smaller time unit: seconds, with a wider sequence field.
    let opts = GeneratorOptions::default()
        .base_ts(0)
        .bits(36, 10, 18)
        .base_ts(1483228800)
        .time_fn(secs);
    let mut g = Generator::new(opts);
    assert_eq!(g.generate().unwrap(), 7 << 28);
    let (ts, node, seq) = g.extract(7 << 28);
    assert_eq!((ts, node, seq), (7, 0, 0));
}
