use ci_queue::queue::distributed::operation::{Operation, Reply};
use ci_queue::queue::distributed::scripts::Script;
use ci_queue::queue::distributed::store::{lease_deadline, Store};
use ci_queue::queue::distributed::text::{same_text, to_decimal, to_seconds};
use ci_queue::queue::distributed::worker::Next;
use ci_queue::queue::distributed::{
    Base, MasterWait, Supervisor, Worker, DEFAULT_MASTER_WAIT_TIMEOUT, DEFAULT_REQUEUE_OFFSET,
    ERROR_REPORT_TTL, KEY_PREFIX, POLL_INTERVAL, RESERVE_RETRY_INTERVAL,
};
use ci_queue::{QueueConfig, Tolerance};

const T0: u64 = 1_700_000_000_000_000;
const SECOND: u64 = 1_000_000;

fn strings(items: &[&str]) -> Vec<String> {
    items.iter().map(|s| s.to_string()).collect()
}

fn config(max_requeues: usize, millionths: u64, timeout: usize) -> QueueConfig {
    QueueConfig { max_requeues, requeue_tolerance: Tolerance { millionths }, timeout }
}

fn worker(store: &mut Store, build: &str, id: &str, tests: &[&str], config: QueueConfig) -> Worker<String> {
    Worker::new(store, build.to_string(), Some(id.to_string()), strings(tests), config)
}

fn item(next: Next<String>) -> Option<String> {
    match next {
        Next::Item(test) => Some(test),
        Next::Retry => panic!("the worker was told to retry"),
        Next::Done => None,
    }
}

#[test]
fn test_key_generation() {
    let build_id = "test-build-123";
    let base = Base::new(build_id.to_string());

    assert_eq!(base.key(&["queue"]), "build:test-build-123:queue");
    assert_eq!(base.key(&["worker", "w1", "queue"]), "build:test-build-123:worker:w1:queue");
    assert_eq!(base.key(&[]), "build:test-build-123");
}

#[test]
fn test_scripts_load() {
    // Ensure all scripts are loaded correctly
    assert!(!Script::Reserve.content().is_empty());
    assert!(!Script::ReserveLost.content().is_empty());
    assert!(!Script::Acknowledge.content().is_empty());
    assert!(!Script::Requeue.content().is_empty());
    assert!(!Script::Release.content().is_empty());
    assert!(!Script::Heartbeat.content().is_empty());

    // Check that scripts contain expected Redis commands
    assert!(Script::Reserve.content().contains("rpop"));
    assert!(Script::ReserveLost.content().contains("zrangebyscore"));
    assert!(Script::Acknowledge.content().contains("zrem"));
    assert!(Script::Requeue.content().contains("linsert"));
}

#[test]
fn script_names() {
    assert_eq!(Script::Reserve.name(), "reserve");
    assert_eq!(Script::ReserveLost.name(), "reserve_lost");
    assert_eq!(Script::Acknowledge.name(), "acknowledge");
    assert_eq!(Script::Requeue.name(), "requeue");
    assert_eq!(Script::Release.name(), "release");
    assert_eq!(Script::Heartbeat.name(), "heartbeat");
    assert!(Script::Release.content().contains("rpush"));
    assert!(Script::Heartbeat.content().contains("zadd"));
}

#[test]
fn constants() {
    assert_eq!(KEY_PREFIX, "build");
    assert_eq!(DEFAULT_MASTER_WAIT_TIMEOUT, 10_000);
    assert_eq!(DEFAULT_REQUEUE_OFFSET, 42);
    assert_eq!(ERROR_REPORT_TTL, 28_800);
    assert_eq!(POLL_INTERVAL, 100);
    assert_eq!(RESERVE_RETRY_INTERVAL, 50);
}

#[test]
fn numbers_as_text() {
    assert_eq!(to_decimal(0), "0");
    assert_eq!(to_decimal(7), "7");
    assert_eq!(to_decimal(42), "42");
    assert_eq!(to_decimal(28_800), "28800");
    assert_eq!(to_decimal(1_234_567_890), "1234567890");
    assert_eq!(to_decimal(u64::MAX), "18446744073709551615");
    assert_eq!(to_seconds(0), "0.000000");
    assert_eq!(to_seconds(1), "0.000001");
    assert_eq!(to_seconds(1_500_000), "1.500000");
    assert_eq!(to_seconds(T0 + 123_456), "1700000000.123456");
    assert_eq!(to_seconds(59_999_999), "59.999999");
    assert!(same_text("abc", "abc"));
    assert!(!same_text("abc", "abd"));
    assert!(!same_text("abc", "ab"));
    assert!(same_text("", ""));
}

#[test]
fn deadlines() {
    assert_eq!(lease_deadline(T0, 60), T0 + 60 * SECOND);
    assert_eq!(lease_deadline(T0, 0), T0);
    assert_eq!(lease_deadline(0, 1), SECOND);
    assert_eq!(lease_deadline(u64::MAX - 5, 1), u64::MAX);
    assert_eq!(lease_deadline(5, usize::MAX), u64::MAX);
}

#[test]
fn operations_as_script_calls() {
    let base = Base::new("b1".to_string());

    let call = Operation::Reserve { deadline: T0 + 60 * SECOND }.call(&base, "w1");
    assert_eq!(call.script, Script::Reserve);
    assert_eq!(
        call.keys,
        strings(&[
            "build:b1:queue",
            "build:b1:running",
            "build:b1:processed",
            "build:b1:worker:w1:queue",
            "build:b1:owners",
        ])
    );
    assert_eq!(call.args, strings(&["1700000060.000000"]));

    let call = Operation::ReserveLost { now: T0 + 250_000, timeout: 60 }.call(&base, "w1");
    assert_eq!(call.script, Script::ReserveLost);
    assert_eq!(
        call.keys,
        strings(&[
            "build:b1:running",
            "build:b1:completed",
            "build:b1:worker:w1:queue",
            "build:b1:owners",
        ])
    );
    assert_eq!(call.args, strings(&["1700000000.250000", "60"]));

    let call = Operation::Acknowledge {
        item: "t1".to_string(),
        error: String::new(),
        ttl: ERROR_REPORT_TTL,
    }
    .call(&base, "w1");
    assert_eq!(call.script, Script::Acknowledge);
    assert_eq!(
        call.keys,
        strings(&[
            "build:b1:running",
            "build:b1:processed",
            "build:b1:owners",
            "build:b1:error-reports",
            "build:b1:worker:w1:queue",
        ])
    );
    assert_eq!(call.args, strings(&["t1", "", "28800"]));

    let call = Operation::Requeue {
        max_requeues: 2,
        global_max_requeues: 5,
        item: "t1".to_string(),
        offset: DEFAULT_REQUEUE_OFFSET,
    }
    .call(&base, "w1");
    assert_eq!(call.script, Script::Requeue);
    assert_eq!(
        call.keys,
        strings(&[
            "build:b1:processed",
            "build:b1:requeues-count",
            "build:b1:queue",
            "build:b1:running",
            "build:b1:worker:w1:queue",
            "build:b1:owners",
            "build:b1:error-reports",
        ])
    );
    assert_eq!(call.args, strings(&["2", "5", "t1", "42"]));

    let call = Operation::Release { item: "t1".to_string() }.call(&base, "w1");
    assert_eq!(call.script, Script::Release);
    assert_eq!(call.keys, strings(&["build:b1:running", "build:b1:queue", "build:b1:owners"]));
    assert_eq!(call.args, strings(&["t1"]));

    let call = Operation::Heartbeat { item: "t1".to_string(), deadline: T0 }.call(&base, "w1");
    assert_eq!(call.script, Script::Heartbeat);
    assert_eq!(
        call.keys,
        strings(&["build:b1:running", "build:b1:owners", "build:b1:worker:w1:queue"])
    );
    assert_eq!(call.args, strings(&["t1", "1700000000.000000"]));
}

#[test]
fn master_wait_decisions() {
    let mut base = Base::new("b".to_string());
    assert_eq!(base.master_wait_timeout, DEFAULT_MASTER_WAIT_TIMEOUT);
    assert!(!base.is_master);
    assert_eq!(base.total, None);
    assert!(matches!(base.master_wait(Some("ready".to_string()), 0), MasterWait::Ready));
    assert!(matches!(base.master_wait(Some("finished".to_string()), 20_000), MasterWait::Ready));
    assert!(matches!(base.master_wait(Some("setup".to_string()), 0), MasterWait::Retry));
    assert!(matches!(base.master_wait(None, 10_000), MasterWait::Retry));
    match base.master_wait(Some("setup".to_string()), 10_001) {
        MasterWait::Lost(error) => {
            assert_eq!(error.status, Some("setup".to_string()));
            assert_eq!(error.timeout, 10_000);
        }
        _ => panic!("the master should be lost"),
    }
    match base.master_wait(None, 10_001) {
        MasterWait::Lost(error) => assert_eq!(error.status, None),
        _ => panic!("the master should be lost"),
    }
    base.set_master_wait_timeout(50);
    assert!(matches!(base.master_wait(Some("stuck".to_string()), 50), MasterWait::Retry));
    assert!(matches!(base.master_wait(Some("stuck".to_string()), 51), MasterWait::Lost(_)));
    base.is_master = true;
    assert!(matches!(base.master_wait(Some("stuck".to_string()), 51), MasterWait::Ready));
    assert!(matches!(base.master_wait(None, u64::MAX), MasterWait::Ready));
    assert!(Base::is_open(&Some("ready".to_string())));
    assert!(Base::is_open(&Some("finished".to_string())));
    assert!(!Base::is_open(&Some("setup".to_string())));
    assert!(!Base::is_open(&None));
}

#[test]
fn length_and_progress() {
    assert_eq!(Base::pending(3, 4), 7);
    assert_eq!(Base::pending(0, 0), 0);
    assert_eq!(Base::pending(usize::MAX, 1), usize::MAX);
    let mut base = Base::new("b".to_string());
    assert_eq!(base.progress_at(0), 0);
    base.total = Some(10);
    assert_eq!(base.progress_at(10), 0);
    assert_eq!(base.progress_at(7), 3);
    assert_eq!(base.progress_at(0), 10);
    assert_eq!(base.progress_at(12), 0);
}

#[test]
fn election_and_population() {
    let mut store = Store::new();
    assert_eq!(store.master_status(), None);
    assert_eq!(store.total(), None);
    assert!(store.claim_master());
    assert_eq!(store.master_status(), Some("setup".to_string()));
    assert!(!store.claim_master());
    assert_eq!(store.master_status(), Some("setup".to_string()));
    store.publish(&strings(&["a", "b", "c"]));
    assert_eq!(store.master_status(), Some("ready".to_string()));
    assert_eq!(store.total(), Some(3));
    assert_eq!(store.queued(), strings(&["c", "b", "a"]));
    assert_eq!(store.queue_len(), 3);
    assert_eq!(store.running_len(), 0);
    assert!(!store.is_registered("w1"));
    store.register_worker("w1");
    assert!(store.is_registered("w1"));
    assert!(!store.claim_master());
    assert_eq!(store.master_status(), Some("ready".to_string()));
}

#[test]
fn reserve_takes_the_tail_and_leases_it() {
    let mut store = Store::new();
    store.publish(&strings(&["a", "b"]));
    assert_eq!(store.reserve("w1", T0 + 60 * SECOND), Some("a".to_string()));
    assert_eq!(store.queued(), strings(&["b"]));
    assert_eq!(store.owner_of("a"), Some("w1".to_string()));
    assert_eq!(store.deadline_of("a"), Some(T0 + 60 * SECOND));
    assert_eq!(store.owner_of("b"), None);
    assert_eq!(store.deadline_of("b"), None);
    assert_eq!(store.running_len(), 1);
    assert_eq!(store.reserve("w2", T0 + 61 * SECOND), Some("b".to_string()));
    assert_eq!(store.owner_of("b"), Some("w2".to_string()));
    assert_eq!(store.reserve("w1", T0 + 62 * SECOND), None);
    assert_eq!(store.running_len(), 2);
    assert_eq!(store.queue_len(), 0);
}

#[test]
fn reserve_skips_what_is_processed() {
    let mut store = Store::new();
    store.publish(&strings(&["a", "b"]));
    assert_eq!(store.reserve("w1", T0), Some("a".to_string()));
    assert!(store.acknowledge("w1", "a", "", ERROR_REPORT_TTL));
    assert!(store.is_processed("a"));
    // An item that was acknowledged and finds its way back into the queue is
    // dropped by the next reserve.
    let config = config(5, 5_000_000, 60);
    assert!(store.requeue(config.max_requeues, config.global_max_requeues(2), "a", 42));
    assert_eq!(store.queued(), strings(&["a", "b"]));
    assert_eq!(store.reserve("w1", T0), Some("b".to_string()));
    assert_eq!(store.reserve("w1", T0), None);
    assert_eq!(store.queue_len(), 0);
    assert_eq!(store.owner_of("a"), None);
}

#[test]
fn reserve_lost_takes_only_what_has_timed_out() {
    let mut store = Store::new();
    store.publish(&strings(&["a", "b", "c"]));
    assert_eq!(store.reserve("w1", T0 + 10 * SECOND), Some("a".to_string()));
    assert_eq!(store.reserve("w1", T0 + 5 * SECOND), Some("b".to_string()));
    assert_eq!(store.reserve_lost("w2", T0, 60), None);
    assert_eq!(store.reserve_lost("w2", T0 + 5 * SECOND - 1, 60), None);
    assert_eq!(store.owner_of("b"), Some("w1".to_string()));
    // The deadline itself counts as passed.
    assert_eq!(store.reserve_lost("w2", T0 + 5 * SECOND, 60), Some("b".to_string()));
    assert_eq!(store.owner_of("b"), Some("w2".to_string()));
    assert_eq!(store.deadline_of("b"), Some(T0 + 65 * SECOND));
    assert_eq!(store.reserve_lost("w2", T0 + 5 * SECOND, 60), None);
    // The item did not pass through the queue.
    assert_eq!(store.queued(), strings(&["c"]));
    assert_eq!(store.running_len(), 2);
    // Both are lost now: the one reserved first goes first.
    assert_eq!(store.reserve_lost("w3", T0 + 100 * SECOND, 1), Some("a".to_string()));
    assert_eq!(store.reserve_lost("w3", T0 + 100 * SECOND, 1), Some("b".to_string()));
    assert_eq!(store.reserve_lost("w3", T0 + 100 * SECOND, 1), None);
    assert_eq!(store.deadline_of("a"), Some(T0 + 101 * SECOND));
}

#[test]
fn reserve_lost_skips_what_is_completed() {
    let mut store = Store::new();
    store.publish(&strings(&["a", "b"]));
    assert_eq!(store.reserve("w1", T0), Some("a".to_string()));
    assert_eq!(store.reserve("w1", T0), Some("b".to_string()));
    store.complete("a");
    assert_eq!(store.reserve_lost("w2", T0 + SECOND, 60), Some("b".to_string()));
    assert_eq!(store.reserve_lost("w2", T0 + 2 * SECOND, 60), None);
    assert_eq!(store.owner_of("a"), Some("w1".to_string()));
}

#[test]
fn acknowledge_is_for_the_owner_and_once() {
    let mut store = Store::new();
    store.publish(&strings(&["a"]));
    assert!(!store.acknowledge("w1", "a", "", ERROR_REPORT_TTL));
    assert_eq!(store.reserve("w1", T0), Some("a".to_string()));
    assert!(!store.acknowledge("w2", "a", "", ERROR_REPORT_TTL));
    assert!(!store.is_processed("a"));
    assert_eq!(store.owner_of("a"), Some("w1".to_string()));
    assert!(store.acknowledge("w1", "a", "", ERROR_REPORT_TTL));
    assert!(store.is_processed("a"));
    assert_eq!(store.owner_of("a"), None);
    assert_eq!(store.running_len(), 0);
    assert_eq!(store.error_report("a"), None);
    assert!(!store.acknowledge("w1", "a", "", ERROR_REPORT_TTL));
    assert!(!store.acknowledge("w2", "a", "", ERROR_REPORT_TTL));
}

#[test]
fn acknowledge_keeps_a_non_empty_error() {
    let mut store = Store::new();
    store.publish(&strings(&["a", "b"]));
    assert_eq!(store.reserve("w1", T0), Some("a".to_string()));
    assert_eq!(store.reserve("w1", T0), Some("b".to_string()));
    assert!(store.acknowledge("w1", "a", "boom", ERROR_REPORT_TTL));
    assert!(store.acknowledge("w1", "b", "", ERROR_REPORT_TTL));
    assert_eq!(store.error_report("a"), Some("boom".to_string()));
    assert_eq!(store.error_report("b"), None);
}

#[test]
fn requeue_goes_in_offset_items_from_the_tail() {
    let names: Vec<String> = (0..50).map(|i| format!("t{}", i)).collect();
    let mut store = Store::new();
    store.publish(&names);
    assert_eq!(store.reserve("w1", T0), Some("t0".to_string()));
    assert_eq!(store.queue_len(), 49);
    assert!(store.requeue(1, 1, "t0", DEFAULT_REQUEUE_OFFSET));
    let queued = store.queued();
    assert_eq!(queued.len(), 50);
    // 49 items waited: the item goes in at 49 - 42 = 7 from the head, and 42
    // items are handed out before it.
    assert_eq!(queued[7], "t0");
    assert_eq!(queued[6], "t43");
    assert_eq!(queued[8], "t42");
    assert_eq!(store.owner_of("t0"), None);
    assert_eq!(store.running_len(), 0);
    for i in 1..=42 {
        assert_eq!(store.reserve("w1", T0), Some(format!("t{}", i)));
    }
    assert_eq!(store.reserve("w1", T0), Some("t0".to_string()));
    assert_eq!(store.reserve("w1", T0), Some("t43".to_string()));
}

#[test]
fn requeue_goes_to_the_head_of_a_short_queue() {
    let mut store = Store::new();
    store.publish(&strings(&["a", "b", "c"]));
    assert_eq!(store.reserve("w1", T0), Some("a".to_string()));
    assert!(store.requeue(1, 1, "a", DEFAULT_REQUEUE_OFFSET));
    assert_eq!(store.queued(), strings(&["a", "c", "b"]));
    assert_eq!(store.requeue_count("a"), 1);
    assert_eq!(store.requeue_total(), 1);
    let mut store = Store::new();
    store.publish(&strings(&["a", "b", "c"]));
    assert_eq!(store.reserve("w1", T0), Some("a".to_string()));
    assert!(store.requeue(1, 1, "a", 1));
    assert_eq!(store.queued(), strings(&["c", "a", "b"]));
    let mut store = Store::new();
    store.publish(&strings(&["a", "b", "c"]));
    assert_eq!(store.reserve("w1", T0), Some("a".to_string()));
    assert!(store.requeue(1, 1, "a", 0));
    assert_eq!(store.queued(), strings(&["c", "b", "a"]));
}

#[test]
fn requeue_stops_at_each_cap() {
    let mut store = Store::new();
    store.publish(&strings(&["a", "b", "c"]));
    assert_eq!(store.reserve("w1", T0), Some("a".to_string()));
    assert!(!store.requeue(0, 5, "a", 42));
    assert!(!store.requeue(5, 0, "a", 42));
    assert_eq!(store.owner_of("a"), Some("w1".to_string()));
    assert_eq!(store.requeue_count("a"), 0);
    assert!(store.requeue(1, 2, "a", 42));
    assert_eq!(store.reserve("w1", T0), Some("b".to_string()));
    assert!(store.requeue(1, 2, "b", 42));
    assert_eq!(store.reserve("w1", T0), Some("c".to_string()));
    // The cap for all is reached.
    assert!(!store.requeue(1, 2, "c", 42));
    assert_eq!(store.owner_of("c"), Some("w1".to_string()));
    assert_eq!(store.requeue_total(), 2);
    // The cap for one item is reached.
    assert_eq!(store.reserve("w1", T0), Some("a".to_string()));
    assert!(!store.requeue(1, 10, "a", 42));
    assert_eq!(store.requeue_count("a"), 1);
    assert_eq!(store.requeue_count("b"), 1);
    assert_eq!(store.requeue_count("c"), 0);
}

#[test]
fn release_gives_an_item_back_to_the_tail() {
    let mut store = Store::new();
    store.publish(&strings(&["a", "b"]));
    assert!(!store.release("a"));
    assert_eq!(store.reserve("w1", T0), Some("a".to_string()));
    assert!(store.release("a"));
    assert_eq!(store.queued(), strings(&["b", "a"]));
    assert_eq!(store.owner_of("a"), None);
    assert_eq!(store.requeue_count("a"), 0);
    assert_eq!(store.requeue_total(), 0);
    assert!(!store.release("a"));
    assert_eq!(store.reserve("w2", T0), Some("a".to_string()));
}

#[test]
fn heartbeat_is_for_the_owner() {
    let mut store = Store::new();
    store.publish(&strings(&["a"]));
    assert!(!store.heartbeat("w1", "a", T0 + 90 * SECOND));
    assert_eq!(store.reserve("w1", T0 + 60 * SECOND), Some("a".to_string()));
    assert!(!store.heartbeat("w2", "a", T0 + 90 * SECOND));
    assert_eq!(store.deadline_of("a"), Some(T0 + 60 * SECOND));
    assert!(store.heartbeat("w1", "a", T0 + 90 * SECOND));
    assert_eq!(store.deadline_of("a"), Some(T0 + 90 * SECOND));
    assert_eq!(store.owner_of("a"), Some("w1".to_string()));
    assert_eq!(store.reserve_lost("w2", T0 + 61 * SECOND, 60), None);
}

#[test]
fn eval_answers_as_the_scripts_do() {
    let mut store = Store::new();
    store.publish(&strings(&["é1", "b"]));
    let reply = store.eval("w1", &Operation::Reserve { deadline: T0 });
    assert!(matches!(&reply, Reply::Bulk(data) if data.as_slice() == "é1".as_bytes()));
    let reply = store.eval("w2", &Operation::ReserveLost { now: T0 - 1, timeout: 60 });
    assert!(matches!(reply, Reply::Nil));
    let reply = store.eval("w2", &Operation::ReserveLost { now: T0, timeout: 60 });
    assert!(matches!(&reply, Reply::Bulk(data) if data.as_slice() == "é1".as_bytes()));
    let acknowledge =
        Operation::Acknowledge { item: "é1".to_string(), error: String::new(), ttl: 1 };
    assert!(matches!(store.eval("w1", &acknowledge), Reply::Int(0)));
    assert!(matches!(store.eval("w2", &acknowledge), Reply::Int(1)));
    let reply = store.eval("w1", &Operation::Reserve { deadline: T0 });
    assert!(matches!(&reply, Reply::Bulk(data) if data.as_slice() == b"b"));
    let heartbeat = Operation::Heartbeat { item: "b".to_string(), deadline: T0 + 1 };
    assert!(matches!(store.eval("w2", &heartbeat), Reply::Int(0)));
    assert!(matches!(store.eval("w1", &heartbeat), Reply::Int(1)));
    let requeue = Operation::Requeue {
        max_requeues: 1,
        global_max_requeues: 1,
        item: "b".to_string(),
        offset: 42,
    };
    assert!(matches!(store.eval("w1", &requeue), Reply::Int(1)));
    assert!(matches!(store.eval("w1", &requeue), Reply::Int(0)));
    let release = Operation::Release { item: "b".to_string() };
    assert!(matches!(store.eval("w1", &release), Reply::Int(0)));
    assert!(matches!(store.eval("w1", &Operation::Reserve { deadline: T0 }), Reply::Bulk(_)));
    assert!(matches!(store.eval("w1", &release), Reply::Int(1)));
    assert!(matches!(store.eval("w1", &Operation::Reserve { deadline: T0 }), Reply::Bulk(_)));
    assert!(matches!(store.eval("w1", &Operation::Reserve { deadline: T0 }), Reply::Nil));
}

#[test]
fn replies_are_decoded_as_utf8() {
    let mut store = Store::new();
    let worker = worker(&mut store, "b", "w1", &["é1", "b"], QueueConfig::default());
    assert_eq!(worker.reserved_item(&Reply::Bulk("é1".as_bytes().to_vec())), Some("é1".to_string()));
    assert_eq!(worker.reserved_item(&Reply::Bulk(b"b".to_vec())), Some("b".to_string()));
    assert_eq!(worker.reserved_item(&Reply::Bulk(vec![0xff, 0xfe])), None);
    assert_eq!(worker.reserved_item(&Reply::Bulk(vec![0xc3])), None);
    assert_eq!(worker.reserved_item(&Reply::Bulk(Vec::new())), None);
    assert_eq!(worker.reserved_item(&Reply::Nil), None);
    assert_eq!(worker.reserved_item(&Reply::Int(1)), None);
}

#[test]
fn a_worker_without_an_id_gets_a_random_one() {
    let first: Worker<String> =
        Worker::unstarted("b".to_string(), None, &strings(&["a"]), QueueConfig::default());
    let second: Worker<String> =
        Worker::unstarted("b".to_string(), None, &strings(&["a"]), QueueConfig::default());
    assert_eq!(first.worker_id().chars().count(), 36);
    assert_eq!(second.worker_id().chars().count(), 36);
    assert_ne!(first.worker_id(), second.worker_id());
    let named: Worker<String> = Worker::unstarted(
        "b".to_string(),
        Some("w1".to_string()),
        &strings(&["a"]),
        QueueConfig::default(),
    );
    assert_eq!(named.worker_id(), "w1");
    assert_eq!(named.base().build_id, "b");
    assert_eq!(named.base().total, Some(1));
    assert!(!named.is_master());
    assert!(!named.is_shutdown_required());
    assert_eq!(named.total(), 1);
}

#[test]
fn worker_operations() {
    let mut store = Store::new();
    let mut worker = worker(&mut store, "b", "w1", &["a", "b"], config(2, 500_000, 30));
    assert!(matches!(
        worker.reserve_lost_operation(T0),
        Operation::ReserveLost { now: T0, timeout: 30 }
    ));
    assert!(matches!(
        worker.reserve_operation(T0),
        Operation::Reserve { deadline } if deadline == T0 + 30 * SECOND
    ));
    let a = "a".to_string();
    match worker.requeue_operation(&a) {
        Some(Operation::Requeue { max_requeues, global_max_requeues, item, offset }) => {
            assert_eq!(max_requeues, 2);
            assert_eq!(global_max_requeues, 1);
            assert_eq!(item, "a");
            assert_eq!(offset, 42);
        }
        _ => panic!("a requeue should be asked for"),
    }
    match worker.acknowledge_operation(&a) {
        Err(error) => assert_eq!(error.message, "Test 'a' was not reserved by this worker"),
        Ok(_) => panic!("the item was not reserved"),
    }
    worker.keep(&a);
    assert!(worker.has_reserved(&a));
    match worker.acknowledge_operation(&a) {
        Ok(Operation::Acknowledge { item, error, ttl }) => {
            assert_eq!(item, "a");
            assert_eq!(error, "");
            assert_eq!(ttl, 28_800);
        }
        _ => panic!("an acknowledgement should be asked for"),
    }
    assert!(!worker.has_reserved(&a));
    assert!(Worker::<String>::acknowledged(&Reply::Int(1)));
    assert!(!Worker::<String>::acknowledged(&Reply::Int(0)));
    assert!(!Worker::<String>::acknowledged(&Reply::Int(2)));
    assert!(!Worker::<String>::acknowledged(&Reply::Nil));
    assert!(!Worker::<String>::acknowledged(&Reply::Bulk(b"1".to_vec())));
    worker.keep(&a);
    assert!(!worker.requeued(&a, &Reply::Int(0)));
    assert!(worker.has_reserved(&a));
    assert!(!worker.requeued(&a, &Reply::Nil));
    assert!(worker.requeued(&a, &Reply::Int(1)));
    assert!(!worker.has_reserved(&a));
    assert_eq!(Worker::<String>::encode_all(&strings(&["x", "y"])), strings(&["x", "y"]));

    let disabled = Worker::<String>::unstarted(
        "b".to_string(),
        Some("w2".to_string()),
        &strings(&["a"]),
        QueueConfig::default(),
    );
    assert!(disabled.requeue_operation(&a).is_none());
}

#[test]
fn test_single_worker_processes_all_tests() {
    let tests = strings(&["test::module1::test_a", "test::module1::test_b", "test::module2::test_c"]);
    let mut store = Store::new();

    let mut worker = Worker::new(
        &mut store,
        "single".to_string(),
        Some("worker-1".to_string()),
        tests.clone(),
        QueueConfig::default(),
    );

    assert!(worker.is_master());
    assert_eq!(worker.total(), 3);

    let mut processed = Vec::new();
    while let Some(test) = item(worker.next(&mut store, T0)) {
        processed.push(test.clone());
        assert!(worker.acknowledge(&mut store, &test));
    }

    assert_eq!(processed.len(), 3);
    assert_eq!(processed, tests);

    let progress = worker.progress(&store);
    assert_eq!(progress, 3);

    let remaining = worker.len(&store);
    assert_eq!(remaining, 0);
    assert!(worker.is_empty(&store));
    assert!(matches!(worker.next(&mut store, T0), Next::Done));
}

#[test]
fn single_worker_three_items() {
    let mut store = Store::new();
    let mut worker = worker(&mut store, "b", "w1", &["a", "b", "c"], QueueConfig::default());
    assert!(store.is_registered("w1"));
    assert_eq!(store.total(), Some(3));
    let mut last_progress = worker.progress(&store);
    let mut last_len = worker.len(&store);
    assert_eq!((last_progress, last_len), (0, 3));
    for expected in ["a", "b", "c"] {
        let test = item(worker.next(&mut store, T0)).unwrap();
        assert_eq!(test, expected);
        assert_eq!(worker.len(&store), last_len);
        assert!(worker.acknowledge(&mut store, &test));
        assert!(worker.progress(&store) > last_progress);
        assert!(worker.len(&store) < last_len);
        last_progress = worker.progress(&store);
        last_len = worker.len(&store);
    }
    assert_eq!(worker.progress(&store), 3);
    assert_eq!(worker.len(&store), 0);
    assert!(matches!(worker.next(&mut store, T0), Next::Done));
    for name in ["a", "b", "c"] {
        assert!(store.is_processed(name));
    }
}

#[test]
fn test_multiple_workers_share_queue() {
    let tests = strings(&["test1", "test2", "test3", "test4", "test5", "test6"]);
    let mut store = Store::new();

    let mut worker1 = Worker::new(
        &mut store,
        "shared".to_string(),
        Some("worker-1".to_string()),
        tests.clone(),
        QueueConfig::default(),
    );

    let mut worker2 = Worker::new(
        &mut store,
        "shared".to_string(),
        Some("worker-2".to_string()),
        tests.clone(),
        QueueConfig::default(),
    );

    assert!(worker1.is_master() != worker2.is_master());
    assert_eq!(store.queue_len(), 6);

    let mut all_processed = Vec::new();

    for _ in 0..3 {
        if let Some(test) = item(worker1.next(&mut store, T0)) {
            all_processed.push(test.clone());
            assert!(worker1.acknowledge(&mut store, &test));
        }

        if let Some(test) = item(worker2.next(&mut store, T0)) {
            all_processed.push(test.clone());
            assert!(worker2.acknowledge(&mut store, &test));
        }
    }

    assert_eq!(all_processed.len(), 6);

    let unique_tests: std::collections::HashSet<_> = all_processed.iter().collect();
    assert_eq!(unique_tests.len(), 6);
    for test in &tests {
        assert!(unique_tests.contains(test));
        assert!(store.is_processed(test));
    }
    assert!(worker1.is_empty(&store));
}

#[test]
fn test_worker_requeue_failed_test() {
    let tests = strings(&["test1", "test2"]);
    let mut store = Store::new();

    let mut worker = Worker::new(
        &mut store,
        "requeue".to_string(),
        Some("worker-1".to_string()),
        tests.clone(),
        config(2, 1_000_000, 60),
    );

    let test1 = item(worker.next(&mut store, T0)).expect("Should get test1");
    assert_eq!(test1, "test1");

    assert!(worker.requeue(&mut store, &test1));

    let test2 = item(worker.next(&mut store, T0)).expect("Should get test2");
    assert_eq!(test2, "test2");
    assert!(worker.acknowledge(&mut store, &test2));

    let requeued_test = item(worker.next(&mut store, T0)).expect("Should get requeued test1");
    assert_eq!(requeued_test, "test1");
    assert!(worker.acknowledge(&mut store, &requeued_test));

    assert_eq!(item(worker.next(&mut store, T0)), None);
}

#[test]
fn test_worker_timeout_and_recovery() {
    let tests = strings(&["test1", "test2"]);
    let config = config(2, 1_000_000, 1);
    let mut store = Store::new();

    let mut worker1 = Worker::new(
        &mut store,
        "recovery".to_string(),
        Some("worker-1".to_string()),
        tests.clone(),
        config,
    );

    let test1 = item(worker1.next(&mut store, T0)).expect("Should get test1");

    let later = T0 + 2 * SECOND;

    let mut worker2 = Worker::new(
        &mut store,
        "recovery".to_string(),
        Some("worker-2".to_string()),
        tests.clone(),
        config,
    );

    let recovered_test = item(worker2.next(&mut store, later));
    assert!(recovered_test.is_some());

    if let Some(test) = recovered_test {
        assert_eq!(test, test1);
        assert_eq!(store.owner_of("test1"), Some("worker-2".to_string()));
        assert_eq!(store.deadline_of("test1"), Some(later + SECOND));
        // The worker that lost the item can acknowledge it no longer.
        assert!(!worker1.acknowledge(&mut store, &test));
        assert!(!store.is_processed("test1"));
        assert!(worker2.acknowledge(&mut store, &test));
        assert!(store.is_processed("test1"));
    }
}

#[test]
fn nothing_is_recovered_before_the_timeout() {
    let mut store = Store::new();
    let mut worker1 = worker(&mut store, "b", "w1", &["test1", "test2"], config(0, 0, 60));
    let mut worker2 = worker(&mut store, "b", "w2", &["test1", "test2"], config(0, 0, 60));
    assert_eq!(item(worker1.next(&mut store, T0)), Some("test1".to_string()));
    assert_eq!(item(worker2.next(&mut store, T0 + 59 * SECOND)), Some("test2".to_string()));
    // Items are still to do, and none can be reserved.
    assert!(matches!(worker2.next(&mut store, T0 + 60 * SECOND - 1), Next::Retry));
    assert_eq!(store.owner_of("test1"), Some("w1".to_string()));
    assert_eq!(item(worker2.next(&mut store, T0 + 60 * SECOND)), Some("test1".to_string()));
    assert_eq!(store.owner_of("test1"), Some("w2".to_string()));
}

#[test]
fn test_worker_shutdown() {
    let tests = strings(&["test1", "test2", "test3"]);
    let mut store = Store::new();

    let mut worker = Worker::new(
        &mut store,
        "shutdown".to_string(),
        Some("worker-1".to_string()),
        tests.clone(),
        QueueConfig::default(),
    );

    let test1 = item(worker.next(&mut store, T0)).expect("Should get test1");
    assert!(worker.acknowledge(&mut store, &test1));

    worker.shutdown();
    assert!(worker.is_shutdown_required());

    assert_eq!(item(worker.next(&mut store, T0)), None);
    assert_eq!(store.queue_len(), 2);
}

#[test]
fn shutdown_leaves_the_item_in_flight_to_the_consumer() {
    let mut store = Store::new();
    let mut worker = worker(&mut store, "b", "w1", &["a", "b"], QueueConfig::default());
    let a = item(worker.next(&mut store, T0)).unwrap();
    worker.shutdown();
    assert!(matches!(worker.next(&mut store, T0), Next::Done));
    assert!(worker.has_reserved(&a));
    assert!(worker.acknowledge(&mut store, &a));
    assert_eq!(worker.len(&store), 1);
}

#[test]
fn test_max_requeues_limit() {
    // Use 2 tests so that with tolerance 1.0, we get global_max = 2
    // This allows us to test that per-test limit (max_requeues=2) is enforced
    let tests = strings(&["test1", "test2"]);
    let mut store = Store::new();

    let mut worker = Worker::new(
        &mut store,
        "limit".to_string(),
        Some("worker-1".to_string()),
        tests.clone(),
        config(2, 1_000_000, 60), // With 2 tests, global_max = ceil(1.0 * 2) = 2
    );

    // Get test1 first
    let test1 = item(worker.next(&mut store, T0)).expect("Should get test1");
    assert_eq!(test1, "test1");

    // First requeue of test1 should succeed
    assert!(worker.requeue(&mut store, &test1), "First requeue of test1 should succeed");
    assert_eq!(store.requeue_count("test1"), 1);

    // Get test2
    let test2 = item(worker.next(&mut store, T0)).expect("Should get test2");
    assert_eq!(test2, "test2");
    // Just acknowledge test2 to move on
    assert!(worker.acknowledge(&mut store, &test2));

    // Get test1 again (it was requeued)
    let test1_again = item(worker.next(&mut store, T0)).expect("Should get test1 again");
    assert_eq!(test1_again, "test1");

    // Second requeue of test1 should succeed (still under max_requeues=2)
    assert!(worker.requeue(&mut store, &test1_again), "Second requeue of test1 should succeed");
    assert_eq!(store.requeue_count("test1"), 2);

    // Get test1 for the third time
    let test1_third = item(worker.next(&mut store, T0)).expect("Should get test1 for third time");
    assert_eq!(test1_third, "test1");

    // Third requeue attempt should fail (exceeds max_requeues=2)
    assert!(!worker.requeue(&mut store, &test1_third), "Third requeue should fail (exceeded max)");

    // Must acknowledge it now
    assert!(worker.acknowledge(&mut store, &test1_third));
    assert_eq!(item(worker.next(&mut store, T0)), None);
}

#[test]
fn global_tolerance_cap() {
    let mut store = Store::new();
    let mut worker = worker(&mut store, "b", "w1", &["t1", "t2"], config(10, 500_000, 60));
    assert_eq!(worker.config().global_max_requeues(worker.total()), 1);
    let t1 = item(worker.next(&mut store, T0)).unwrap();
    assert_eq!(t1, "t1");
    let len = worker.len(&store);
    assert!(worker.requeue(&mut store, &t1));
    assert_eq!(worker.len(&store), len);
    let t2 = item(worker.next(&mut store, T0)).unwrap();
    assert_eq!(t2, "t2");
    assert!(!worker.requeue(&mut store, &t2));
    assert_eq!(store.requeue_total(), 1);
    assert!(worker.has_reserved(&t2));
    assert!(worker.acknowledge(&mut store, &t2));
}

#[test]
fn zero_requeue_config_leaves_the_store_alone() {
    let mut store = Store::new();
    let mut worker = worker(&mut store, "b", "w1", &["x"], config(0, 0, 60));
    let x = item(worker.next(&mut store, T0)).unwrap();
    assert_eq!(x, "x");
    assert!(!worker.requeue(&mut store, &x));
    assert_eq!(store.owner_of("x"), Some("w1".to_string()));
    assert_eq!(store.requeue_total(), 0);
    assert_eq!(store.queue_len(), 0);
    assert!(worker.has_reserved(&x));
}

#[test]
fn test_lost_master_timeout() {
    let tests = strings(&["test1", "test2"]);
    let mut store = Store::new();

    // Create master worker
    let master = Worker::new(
        &mut store,
        "lost".to_string(),
        Some("master".to_string()),
        tests.clone(),
        QueueConfig::default(),
    );

    assert!(master.is_master());

    // Set master status to something other than "ready" or "finished"
    // This simulates a stuck or crashed master
    store.set_master_status("stuck");

    // Create another worker and expect it to timeout after the master wait timeout
    let mut worker = Worker::new(
        &mut store,
        "lost".to_string(),
        Some("worker-1".to_string()),
        tests.clone(),
        QueueConfig::default(),
    );
    worker.set_master_wait_timeout(50);
    assert_eq!(worker.base().master_wait_timeout, 50);

    // Expect the worker to timeout - it should not be able to get a test
    assert!(item(worker.next(&mut store, T0)).is_none());
    assert!(!worker.is_master());
    assert_eq!(store.master_status(), Some("stuck".to_string()));
    assert_eq!(store.queue_len(), 2);
    match worker.base().wait_for_master(&store) {
        Err(error) => {
            assert_eq!(error.status, Some("stuck".to_string()));
            assert_eq!(error.timeout, 50);
        }
        Ok(()) => panic!("the master should be lost"),
    }
}

#[test]
fn acknowledging_what_was_not_reserved_is_an_error() {
    let mut store = Store::new();
    let mut worker = worker(&mut store, "b", "w1", &["a", "b"], QueueConfig::default());
    let b = "b".to_string();
    match worker.acknowledge_test(&mut store, &b) {
        Err(error) => assert_eq!(error.message, "Test 'b' was not reserved by this worker"),
        Ok(_) => panic!("the item was not reserved"),
    }
    assert!(!worker.acknowledge(&mut store, &b));
    let a = item(worker.next(&mut store, T0)).unwrap();
    assert!(matches!(worker.acknowledge_test(&mut store, &a), Ok(true)));
    assert!(worker.acknowledge_test(&mut store, &a).is_err());
}

#[test]
fn master_status_only_moves_forward() {
    let mut store = Store::new();
    let rank = |status: Option<String>| match status.as_deref() {
        None => 0,
        Some("setup") => 1,
        Some("ready") => 2,
        Some("finished") => 3,
        Some(other) => panic!("unknown status {}", other),
    };
    let mut last = rank(store.master_status());
    let mut w1 = worker(&mut store, "b", "w1", &["a", "b"], config(1, 1_000_000, 60));
    assert!(rank(store.master_status()) >= last);
    last = rank(store.master_status());
    assert_eq!(last, 2);
    let mut w2 = worker(&mut store, "b", "w2", &["a", "b"], config(1, 1_000_000, 60));
    assert_eq!(rank(store.master_status()), last);
    let a = item(w1.next(&mut store, T0)).unwrap();
    assert!(w1.requeue(&mut store, &a));
    let b = item(w2.next(&mut store, T0)).unwrap();
    assert!(w2.acknowledge(&mut store, &b));
    assert_eq!(rank(store.master_status()), last);
    store.set_master_status("finished");
    let _w3 = worker(&mut store, "b", "w3", &["a", "b"], config(1, 1_000_000, 60));
    assert_eq!(rank(store.master_status()), 3);
}

#[test]
fn supervisor_watches_the_build() {
    let mut store = Store::new();
    let supervisor = Supervisor::new("b".to_string());
    assert_eq!(supervisor.base().build_id, "b");
    assert_eq!(supervisor.wait_for_workers(&store), Some(false));
    assert!(store.claim_master());
    assert_eq!(supervisor.wait_for_workers(&store), Some(false));
    store.publish(&strings(&["a", "b"]));
    assert_eq!(supervisor.wait_for_workers(&store), None);
    assert_eq!(supervisor.len(&store), 2);
    assert!(!supervisor.is_empty(&store));
    assert_eq!(supervisor.progress(&store), 0);
    assert_eq!(store.reserve("w1", T0), Some("a".to_string()));
    assert_eq!(supervisor.len(&store), 2);
    assert!(store.acknowledge("w1", "a", "", 1));
    assert_eq!(supervisor.len(&store), 1);
    assert_eq!(supervisor.wait_for_workers(&store), None);
    assert_eq!(store.reserve("w1", T0), Some("b".to_string()));
    assert!(store.acknowledge("w1", "b", "", 1));
    assert_eq!(supervisor.wait_for_workers(&store), Some(true));
    assert!(supervisor.is_empty(&store));
    // Reserving and acknowledging is none of the supervisor's business.
    assert_eq!(store.owner_of("a"), None);
    assert!(!store.is_registered("b"));
}

#[test]
fn every_item_is_acknowledged_once_whoever_takes_it() {
    let names: Vec<String> = (0..20).map(|i| format!("t{}", i)).collect();
    let items: Vec<&str> = names.iter().map(|s| s.as_str()).collect();
    let mut store = Store::new();
    let mut workers = vec![
        worker(&mut store, "b", "w0", &items, config(1, 250_000, 5)),
        worker(&mut store, "b", "w1", &items, config(1, 250_000, 5)),
        worker(&mut store, "b", "w2", &items, config(1, 250_000, 5)),
    ];
    assert_eq!(workers.iter().filter(|w| w.is_master()).count(), 1);
    let mut acknowledged: Vec<String> = Vec::new();
    let mut requeues = 0;
    let mut now = T0;
    let mut state: u64 = 0x2545_f491_4f6c_dd1d;
    let mut steps = 0;
    loop {
        steps += 1;
        assert!(steps < 10_000);
        state ^= state << 13;
        state ^= state >> 7;
        state ^= state << 17;
        let which = (state % 3) as usize;
        now += (state >> 8) % (2 * SECOND);
        let len_before = workers[which].len(&store);
        let progress_before = workers[which].progress(&store);
        match workers[which].next(&mut store, now) {
            Next::Done => break,
            Next::Retry => {}
            Next::Item(test) => match (state >> 32) % 4 {
                // The worker dies with the item: somebody recovers it later.
                0 => {}
                1 => {
                    if workers[which].requeue(&mut store, &test) {
                        requeues += 1;
                    } else {
                        assert!(workers[which].acknowledge(&mut store, &test));
                        acknowledged.push(test);
                    }
                }
                _ => {
                    assert!(workers[which].acknowledge(&mut store, &test));
                    acknowledged.push(test);
                }
            },
        }
        assert!(workers[which].len(&store) <= len_before);
        assert!(workers[which].progress(&store) >= progress_before);
        assert!(store.requeue_total() <= 5);
        for name in &names {
            assert!(store.requeue_count(name) <= 1);
        }
    }
    assert!(requeues <= 5);
    assert_eq!(acknowledged.len(), 20);
    let mut sorted = acknowledged.clone();
    sorted.sort();
    sorted.dedup();
    assert_eq!(sorted.len(), 20);
    for name in &names {
        assert!(store.is_processed(name));
    }
    assert_eq!(workers[0].progress(&store), 20);
}

#[test]
fn the_store_keeps_what_each_worker_reserved() {
    let mut store = Store::new();
    store.publish(&strings(&["a", "b", "c"]));
    assert_eq!(store.worker_queue("w1"), strings(&[]));
    assert_eq!(store.reserve("w1", T0), Some("a".to_string()));
    assert_eq!(store.reserve("w2", T0 + SECOND), Some("b".to_string()));
    assert_eq!(store.reserve("w1", T0 + 2 * SECOND), Some("c".to_string()));
    assert_eq!(store.reserve_lost("w2", T0, 60), Some("a".to_string()));
    assert_eq!(store.reserve_lost("w1", T0 - 1, 60), None);
    assert_eq!(store.worker_queue("w1"), strings(&["a", "c"]));
    assert_eq!(store.worker_queue("w2"), strings(&["b", "a"]));
    assert_eq!(store.worker_queue("w3"), strings(&[]));
}

#[test]
fn the_items_of_a_build_are_all_somewhere() {
    let names = ["a", "b", "c", "d", "e"];
    let mut store = Store::new();
    let mut worker = worker(&mut store, "b", "w1", &names, config(1, 1_000_000, 60));
    let count = |store: &Store| {
        store.queue_len() + store.running_len() + names.iter().filter(|n| store.is_processed(n)).count()
    };
    assert_eq!(count(&store), 5);
    let mut now = T0;
    while let Some(test) = item(worker.next(&mut store, now)) {
        assert_eq!(count(&store), 5);
        now += SECOND;
        if !worker.requeue(&mut store, &test) {
            assert!(worker.acknowledge(&mut store, &test));
        }
        assert_eq!(count(&store), 5);
    }
    assert_eq!(store.queue_len() + store.running_len(), 0);
    assert_eq!(store.requeue_total(), 5);
}
