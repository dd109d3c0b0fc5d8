use frostflake::pool::{job_queue, job_queue_handle, request_id, serve_one, Message};
use frostflake::{Error, Generator, GeneratorPoolOptions, SharedGenerator};
use frostflake::GeneratorOptions;

fn fixed_clock() -> u64 {
    1483228800000 + 123
}

#[test]
fn test_serve_one_replies_with_generated_id() {
    let opts = GeneratorPoolOptions::default().time_fn(fixed_clock);
    let mut worker = Generator::new(opts.worker_opts(0));

    let (job_tx, job_rx) = job_queue();
    let job_rx2 = job_queue_handle(&job_rx);

    let (reply_tx, reply_rx) = crossbeam::channel::unbounded();
    job_tx.send(Message::Job(reply_tx)).unwrap();

    // One round of the worker loop serves the queued job.
    assert!(serve_one(&mut worker, &job_rx2));
    assert_eq!(reply_rx.recv().unwrap().unwrap(), 123 << 22);

    // Once every sender is gone and the queue is drained, the round
    // reports that the loop should stop.
    drop(job_tx);
    drop(job_rx);
    assert!(!serve_one(&mut worker, &job_rx2));
}

#[test]
fn test_request_delivery_fault() {
    let (job_tx, job_rx) = job_queue();
    drop(job_rx);
    // No worker can ever take the job: a delivery fault, not an identifier.
    assert_eq!(request_id(&job_tx), Err(Error::DeliveryFailed));
}

#[test]
fn test_shared_generator() {
    let s = SharedGenerator::new(GeneratorOptions::default().time_fn(fixed_clock).node(3));
    assert_eq!(s.generate().unwrap(), (123 << 22) + (3 << 12));
    assert_eq!(s.generate().unwrap(), (123 << 22) + (3 << 12) + 1);
    let (ts, node, seq) = s.extract((123 << 22) + (3 << 12) + 1);
    assert_eq!((ts, node, seq), (123, 3, 1));
}
