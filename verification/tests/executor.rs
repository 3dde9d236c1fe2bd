//! Blocking work and profiles of it.

use leantoken::error::Error;
use leantoken::executor::{BlockingExecutor, WaitEnd};
use leantoken::json::value::JsonValue;
use leantoken::profile::{
    context_request, cpu_milliseconds, duration_micros, is_source_extension, max_option,
    normalize_response, ordered_arrays, parity_workload, percentile, percentiles,
    process_cpu_ticks, process_rss_bytes, request_cancelled, request_count, small_module_source,
    wave_size, workload_at, Percentiles, Scenario, ScenarioTally, Workload,
};

#[test]
fn queued_work_boundary_rejects_without_starting_more_work() {
    let mut executor = BlockingExecutor::new(2, 1, 30_000);
    executor.submit(false).expect("running task");
    executor.wait_for_execution(WaitEnd::Acquired).expect("a place");
    executor.start(false).expect("running result");
    executor.submit(false).expect("queued task");
    assert_eq!(executor.active_available_permits(), 0);

    assert!(matches!(executor.submit(false), Err(Error::RetrievalOverloaded)));
    assert_eq!(executor.running, 1);

    executor.finish();
    executor.wait_for_execution(WaitEnd::Acquired).expect("queued result");
    executor.start(false).expect("queued result");
    executor.finish();
    assert_eq!(executor.active_available_permits(), 2);
}

#[test]
fn queue_timeout_never_starts_the_operation() {
    let mut executor = BlockingExecutor::new(2, 1, 500);
    executor.submit(false).expect("running task");
    executor.wait_for_execution(WaitEnd::Acquired).expect("a place");
    executor.start(false).expect("running result");
    executor.submit(false).expect("queued task");

    assert!(matches!(
        executor.wait_for_execution(WaitEnd::TimedOut),
        Err(Error::RetrievalQueueTimeout)
    ));
    assert_eq!(executor.running, 1);
    assert_eq!(executor.active_available_permits(), 1);
}

#[test]
fn queued_cancellation_never_starts_the_operation() {
    let mut executor = BlockingExecutor::new(2, 1, 30_000);
    executor.submit(false).expect("running task");
    executor.wait_for_execution(WaitEnd::Acquired).expect("a place");
    executor.start(false).expect("running result");
    executor.submit(false).expect("queued task");

    assert!(matches!(
        executor.wait_for_execution(WaitEnd::Cancelled),
        Err(Error::Cancelled)
    ));
    assert_eq!(executor.running, 1);
    assert_eq!(executor.active_available_permits(), 1);
    executor.finish();
    assert_eq!(executor.active_available_permits(), 2);
}

#[test]
fn execution_never_exceeds_its_limit() {
    let mut executor = BlockingExecutor::new(6, 2, 30_000);
    for _ in 0..6 {
        executor.submit(false).expect("task");
    }
    let mut peak = 0;
    for _ in 0..6 {
        while executor.placed < executor.execution_capacity && executor.placed < executor.active {
            executor.wait_for_execution(WaitEnd::Acquired).expect("a place");
            executor.start(false).expect("result");
        }
        peak = peak.max(executor.running);
        executor.finish();
    }
    assert_eq!(peak, 2);
    assert_eq!(executor.active_available_permits(), 6);
}

#[test]
fn permits_return_after_success_error_and_panic() {
    let mut executor = BlockingExecutor::new(1, 1, 30_000);
    executor.submit(false).expect("success");
    executor.wait_for_execution(WaitEnd::Acquired).expect("success");
    executor.start(false).expect("success");
    executor.finish();
    assert_eq!(executor.active_available_permits(), 1);

    assert!(matches!(executor.submit(true), Err(Error::Cancelled)));
    assert_eq!(executor.active_available_permits(), 1);

    executor.submit(false).expect("admitted");
    executor.wait_for_execution(WaitEnd::Acquired).expect("a place");
    assert!(matches!(executor.start(true), Err(Error::Cancelled)));
    assert_eq!(executor.active_available_permits(), 1);

    let runtime = tokio::runtime::Builder::new_current_thread().build().expect("runtime");
    for panics in [false, true] {
        executor.submit(false).expect("admitted");
        executor.wait_for_execution(WaitEnd::Acquired).expect("a place");
        executor.start(false).expect("started");
        let work = move || -> Result<(), Error> {
            if panics {
                panic!("test panic");
            }
            Err(Error::Cancelled)
        };
        let ended = runtime.block_on(async { tokio::task::spawn_blocking(work).await });
        executor.finish();
        match ended {
            Ok(result) => assert!(!panics && matches!(result, Err(Error::Cancelled))),
            Err(error) => assert!(panics && error.is_panic()),
        }
        assert_eq!(executor.active_available_permits(), 1);
    }
}

#[test]
fn defaults_leave_room_to_queue() {
    let executor = BlockingExecutor::default();
    assert_eq!(executor.active_available_permits(), 16);
    assert_eq!(executor.execution_capacity, 8);
    assert_eq!(executor.queue_timeout_milliseconds, 500);
}

#[test]
fn percentiles_are_exact() {
    assert_eq!(
        percentiles(Vec::new()),
        Percentiles { samples: 0, p50: None, p95: None, max: None }
    );
    assert_eq!(
        percentiles(vec![5, 1, 4, 2, 3]),
        Percentiles { samples: 5, p50: Some(3), p95: Some(5), max: Some(5) }
    );
    assert_eq!(percentile(&vec![10, 20, 30, 40], 50), 30);
    assert_eq!(percentile(&vec![10], 95), 10);
}

#[test]
fn profiles_take_turns() {
    assert_eq!(workload_at(0), Workload::Files);
    assert_eq!(workload_at(11), Workload::Savings);
    assert!(parity_workload(Workload::Context));
    assert!(!parity_workload(Workload::Status));
    assert_eq!(request_count(1), 8);
    assert_eq!(request_count(32), 64);
    assert_eq!(wave_size(4, 8, 0, Scenario::ConcurrentIndexing), (4, 6));
    assert_eq!(wave_size(4, 8, 6, Scenario::ConcurrentIndexing), (2, 3));
    assert!(request_cancelled(Scenario::CancellationStorm, 3));
    assert!(!request_cancelled(Scenario::Mixed, 3));
    assert_eq!(max_option(Some(1), Some(2)), Some(2));
    assert_eq!(max_option(None, Some(2)), Some(2));
    assert_eq!(duration_micros(u128::MAX), u64::MAX);
    assert_eq!(cpu_milliseconds(Some(100), Some(150), "100"), Some(500));
    assert_eq!(cpu_milliseconds(Some(100), Some(150), "0"), None);
    assert_eq!(cpu_milliseconds(None, Some(150), "100"), None);
    assert_eq!(process_rss_bytes("Name:\tx\nVmRSS:\t  12 kB\n"), Some(12_288));
    assert_eq!(process_rss_bytes("Name:\tx\n"), None);
    assert_eq!(
        process_cpu_ticks("1 (a) b) S 1 2 3 4 5 6 7 8 9 10 40 2 0 0"),
        Some(42)
    );
    assert_eq!(process_cpu_ticks("no fields"), None);
    assert_eq!(
        context_request("cache").task,
        "Investigate cache handling, cancellation, and tests"
    );
}

fn number(n: u32) -> JsonValue {
    JsonValue::Number(n.to_string())
}

fn answer(generation: u32, order: [u32; 2], receipt: &str) -> JsonValue {
    JsonValue::Object(vec![
        ("entries".into(), JsonValue::Array(order.iter().map(|n| number(*n)).collect())),
        (
            "meta".into(),
            JsonValue::Object(vec![
                ("receipt_id".into(), JsonValue::Text(receipt.into())),
                ("repository_generation".into(), number(generation)),
                ("source_tokens".into(), number(3)),
            ]),
        ),
    ])
}

#[test]
fn outcomes_are_tallied() {
    let baseline = normalize_response(&answer(7, [1, 2], "one"));
    let mut tally = ScenarioTally::new();
    tally.record(Workload::Files, &Ok(answer(7, [1, 2], "two")), &baseline);
    assert_eq!((tally.succeeded, tally.parity_checked, tally.parity_mismatches), (1, 1, 0));
    tally.record(Workload::Files, &Ok(answer(8, [2, 1], "two")), &baseline);
    assert_eq!(tally.parity_mismatches, 1);
    assert_eq!(tally.order_mismatches, 1);
    assert_eq!(tally.generation_mismatches, 1);
    assert_eq!(tally.token_accounting_mismatches, 0);
    tally.record(Workload::Status, &Ok(JsonValue::Null), &baseline);
    assert_eq!((tally.succeeded, tally.parity_checked), (3, 2));
    tally.record(Workload::Read, &Err(Error::Cancelled), &baseline);
    tally.record(Workload::Read, &Err(Error::RetrievalOverloaded), &baseline);
    tally.record(Workload::Read, &Err(Error::RetrievalQueueTimeout), &baseline);
    tally.record(Workload::Read, &Err(Error::StaleCursor), &baseline);
    assert_eq!(
        (tally.cancelled, tally.rejected, tally.timed_out, tally.errors),
        (1, 1, 1, 1)
    );
    match ordered_arrays(&baseline) {
        JsonValue::Array(arrays) => assert_eq!(arrays.len(), 1),
        _ => panic!("expected arrays"),
    }
}

#[test]
fn the_generated_repository_is_the_same_every_time() {
    let source = small_module_source(7);
    assert!(source.starts_with(
        "pub fn needle_7() -> usize {\n    let value_0 = 0 + 7; // needle cancellation request\n"
    ));
    assert!(source.ends_with(
        "    let value_79 = 79 + 7; // needle cancellation request\n    value_79\n}\n"
    ));
    assert_eq!(source.lines().count(), 83);
    for extension in ["rs", "ts", "tsx", "js", "jsx", "py", "go", "java"] {
        assert!(is_source_extension(extension));
    }
    assert!(!is_source_extension("md") && !is_source_extension("RS"));
}
