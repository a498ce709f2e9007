use ci_queue::playwright::executor::RunOutcome;
use ci_queue::playwright::node_runner::{search_order, select_node_runner};
use ci_queue::playwright::{
    collect_tests, detect_node_runner, list_args, order_tests, string_to_seed, test_args, NodeRunner,
    NodeRunnerError, PlaywrightListOutput, PlaywrightSpec, PlaywrightSuite, PlaywrightTest, Tally,
};
use ci_queue::queue::distributed::store::Store;
use ci_queue::queue::distributed::worker::Next;
use ci_queue::queue::{TestIdentifier, TestRegistry};
use ci_queue::{Queue, QueueConfig, StaticQueue, Tolerance, Worker};

fn test(title: &str, file: &str, line: Option<u32>) -> PlaywrightTest {
    PlaywrightTest { title: title.to_string(), file: file.to_string(), line, column: Some(3) }
}

fn spec(title: &str, file: &str, line: Option<u32>) -> PlaywrightSpec {
    PlaywrightSpec {
        title: title.to_string(),
        file: file.to_string(),
        line,
        column: Some(3),
        tags: Vec::new(),
        ok: true,
    }
}

fn strings(items: &[&str]) -> Vec<String> {
    items.iter().map(|s| s.to_string()).collect()
}

#[test]
fn test_detect_node_runner() {
    let result = detect_node_runner();
    if result.is_ok() {
        let runner = result.unwrap();
        assert!(["pnpm", "yarn", "npm", "npx"].contains(&runner.command()));
    }
}

#[test]
fn node_runner_commands_and_args() {
    assert_eq!(NodeRunner::Pnpm.command(), "pnpm");
    assert_eq!(NodeRunner::Yarn.command(), "yarn");
    assert_eq!(NodeRunner::Npm.command(), "npm");
    assert_eq!(NodeRunner::Npx.command(), "npx");
    assert_eq!(NodeRunner::Pnpm.args(), strings(&["exec", "playwright"]));
    assert_eq!(NodeRunner::Yarn.args(), strings(&["playwright"]));
    assert_eq!(NodeRunner::Npm.args(), strings(&["exec", "--", "playwright"]));
    assert_eq!(NodeRunner::Npx.args(), strings(&["playwright"]));
    assert_eq!(
        search_order(),
        [NodeRunner::Pnpm, NodeRunner::Yarn, NodeRunner::Npm, NodeRunner::Npx]
    );
}

#[test]
fn the_first_installed_runner_is_selected() {
    assert_eq!(select_node_runner(&[true, true, true, true]), Ok(NodeRunner::Pnpm));
    assert_eq!(select_node_runner(&[false, true, false, true]), Ok(NodeRunner::Yarn));
    assert_eq!(select_node_runner(&[false, false, true, true]), Ok(NodeRunner::Npm));
    assert_eq!(select_node_runner(&[false, false, false, true]), Ok(NodeRunner::Npx));
    assert_eq!(
        select_node_runner(&[false, false, false, false]),
        Err(NodeRunnerError::NoPackageManagerFound)
    );
    assert_eq!(select_node_runner(&[]), Err(NodeRunnerError::NoPackageManagerFound));
    assert_eq!(select_node_runner(&[false, true]), Ok(NodeRunner::Yarn));
    assert_eq!(
        select_node_runner(&[false, false, false, false, true]),
        Err(NodeRunnerError::NoPackageManagerFound)
    );
}

#[test]
fn playwright_test_encoding() {
    assert_eq!(
        test("logs in", "tests/login.spec.ts", Some(12)).to_redis_value(),
        "tests/login.spec.ts:12:logs in"
    );
    assert_eq!(test("a:b", "f.ts", None).to_redis_value(), "f.ts:0:a:b");
    assert_eq!(test("", "", Some(0)).to_redis_value(), ":0:");
    assert_eq!(test("t", "f", Some(u32::MAX)).to_redis_value(), "f:4294967295:t");
}

#[test]
fn playwright_tests_are_decoded_through_the_registry() {
    let tests = vec![test("one", "a.ts", Some(1)), test("two", "a.ts", Some(9))];
    let registry = TestRegistry::new(&tests);
    assert_eq!(registry.get("a.ts:1:one"), Some(&tests[0]));
    assert_eq!(registry.get("a.ts:9:two"), Some(&tests[1]));
    assert_eq!(registry.get("a.ts:2:one"), None);
    assert_eq!(PlaywrightTest::from_redis_value("a.ts:9:two", &registry), Some(tests[1].clone()));
    assert_eq!(PlaywrightTest::from_redis_value("a.ts:3:two", &registry), None);
    assert_eq!(PlaywrightTest::from_redis_value("", &registry), None);
}

#[test]
fn the_later_of_two_items_with_one_encoding_stays() {
    let mut first = test("one", "a.ts", Some(1));
    first.column = Some(1);
    let mut second = test("one", "a.ts", Some(1));
    second.column = Some(2);
    let registry = TestRegistry::new(&[first, second.clone()]);
    assert_eq!(registry.get("a.ts:1:one"), Some(&second));
}

#[test]
fn strings_need_no_registry() {
    let registry: TestRegistry<String> = TestRegistry::new(&[]);
    assert_eq!(registry.get("x"), None);
    assert_eq!(String::from_redis_value("x", &registry), Some("x".to_string()));
    assert_eq!("x".to_string().to_redis_value(), "x");
    let registry = TestRegistry::new(&strings(&["a", "b"]));
    assert_eq!(registry.get("a"), Some(&"a".to_string()));
    assert_eq!(registry.get("c"), None);
}

#[test]
fn tests_are_collected_in_order() {
    let output = PlaywrightListOutput {
        suites: vec![
            PlaywrightSuite {
                title: "login".to_string(),
                file: "login.spec.ts".to_string(),
                line: 0,
                column: 0,
                specs: vec![
                    spec("logs in", "login.spec.ts", Some(3)),
                    spec("logs out", "login.spec.ts", Some(20)),
                ],
            },
            PlaywrightSuite {
                title: "empty".to_string(),
                file: "empty.spec.ts".to_string(),
                line: 0,
                column: 0,
                specs: Vec::new(),
            },
            PlaywrightSuite {
                title: "cart".to_string(),
                file: "cart.spec.ts".to_string(),
                line: 0,
                column: 0,
                specs: vec![spec("adds", "cart.spec.ts", None)],
            },
        ],
    };
    assert_eq!(
        collect_tests(&output),
        vec![
            test("logs in", "login.spec.ts", Some(3)),
            test("logs out", "login.spec.ts", Some(20)),
            test("adds", "cart.spec.ts", None),
        ]
    );
    assert_eq!(collect_tests(&PlaywrightListOutput { suites: Vec::new() }), Vec::new());
}

#[test]
fn commands_to_list_and_to_run() {
    assert_eq!(
        list_args(&NodeRunner::Pnpm),
        strings(&["exec", "playwright", "test", "--list", "--reporter=json"])
    );
    assert_eq!(
        list_args(&NodeRunner::Npm),
        strings(&["exec", "--", "playwright", "test", "--list", "--reporter=json"])
    );
    assert_eq!(
        test_args(&NodeRunner::Yarn, &test("logs in", "login.spec.ts", Some(3))),
        strings(&["playwright", "test", "login.spec.ts:3"])
    );
    assert_eq!(
        test_args(&NodeRunner::Npx, &test("adds", "cart.spec.ts", None)),
        strings(&["playwright", "test", "cart.spec.ts:0"])
    );
}

#[test]
fn seeds() {
    assert_eq!(string_to_seed(""), [0u8; 32]);
    let mut expected = [0u8; 32];
    expected[0] = b'a';
    expected[1] = b'b';
    expected[2] = b'c';
    assert_eq!(string_to_seed("abc"), expected);
    let long = "0123456789abcdefghijklmnopqrstuvwxyz";
    let seed = string_to_seed(long);
    assert_eq!(&seed[..], &long.as_bytes()[..32]);
    let mut expected = [0u8; 32];
    expected[0] = 0xc3;
    expected[1] = 0xa9;
    assert_eq!(string_to_seed("é"), expected);
}

#[test]
fn tally_counts_how_tests_end() {
    let mut tally = Tally::new();
    assert!(tally.is_success());
    let a = test("a", "f", Some(1));
    let b = test("b", "f", Some(2));
    let c = test("c", "f", Some(3));
    assert_eq!(tally.begin(), 1);
    assert!(!tally.record(&a, RunOutcome::Passed));
    assert_eq!(tally.begin(), 2);
    assert!(tally.record(&b, RunOutcome::Failed));
    tally.requeued(&b, true);
    assert!(tally.is_success());
    assert_eq!(tally.begin(), 3);
    assert!(tally.record(&b, RunOutcome::Failed));
    tally.requeued(&b, false);
    assert_eq!(tally.begin(), 4);
    assert!(!tally.record(&c, RunOutcome::Errored));
    assert_eq!(tally.test_count, 4);
    assert_eq!(tally.passed, 1);
    assert_eq!(tally.failed, vec![b, c]);
    assert!(!tally.is_success());
}

#[test]
fn playwright_tests_through_the_static_queue() {
    let tests = vec![test("one", "a.ts", Some(1)), test("two", "a.ts", Some(9))];
    let config = QueueConfig {
        max_requeues: 1,
        requeue_tolerance: Tolerance { millionths: 500_000 },
        timeout: 60,
    };
    let mut queue = StaticQueue::new(tests.clone(), config);
    let one = queue.next().unwrap();
    assert_eq!(one, tests[0]);
    assert!(queue.requeue(&one));
    assert_eq!(queue.requeues(&tests[0]), 1);
    assert_eq!(queue.next(), Some(tests[0].clone()));
    assert!(!queue.requeue(&one));
    assert_eq!(queue.next(), Some(tests[1].clone()));
    assert_eq!(queue.next(), None);
}

#[test]
fn playwright_tests_through_a_worker() {
    let tests = vec![test("one", "a.ts", Some(1)), test("two", "a.ts", Some(9))];
    let mut store = Store::new();
    let mut worker = Worker::new(
        &mut store,
        "b".to_string(),
        Some("w1".to_string()),
        tests.clone(),
        QueueConfig::default(),
    );
    assert_eq!(store.queued(), strings(&["a.ts:9:two", "a.ts:1:one"]));
    match worker.next(&mut store, 0) {
        Next::Item(got) => {
            assert_eq!(got, tests[0]);
            assert!(worker.acknowledge(&mut store, &got));
        }
        _ => panic!("an item should be handed out"),
    }
    // An item that the registry does not know is reserved and not handed out.
    store.publish(&strings(&["unknown"]));
    match worker.next(&mut store, 0) {
        Next::Item(got) => {
            assert_eq!(got, tests[1]);
            assert!(worker.acknowledge(&mut store, &got));
        }
        _ => panic!("an item should be handed out"),
    }
    assert!(matches!(worker.next(&mut store, 0), Next::Retry));
    assert_eq!(store.owner_of("unknown"), Some("w1".to_string()));
    assert!(!store.is_processed("unknown"));
    assert_eq!(worker.len(&store), 1);
    assert!(matches!(worker.next(&mut store, 0), Next::Retry));
}

#[test]
fn a_seed_decides_the_order() {
    let tests: Vec<PlaywrightTest> =
        (0..20).map(|i| test(&format!("t{}", i), "f.ts", Some(i))).collect();
    assert_eq!(order_tests(tests.clone(), None), tests);
    let shuffled = order_tests(tests.clone(), Some("42"));
    assert_ne!(shuffled, tests);
    let mut sorted = shuffled.clone();
    sorted.sort_by_key(|t| t.line);
    assert_eq!(sorted, tests);
    assert_eq!(order_tests(tests.clone(), Some("42")), shuffled);
    assert_eq!(order_tests(Vec::new(), Some("42")), Vec::new());
    let one = vec![test("only", "f.ts", None)];
    assert_eq!(order_tests(one.clone(), Some("42")), one);
}
