use goose_worker::client::GooseClient;
use goose_worker::tasks::{GooseError, GooseTask, GooseTaskSet};

fn task(name: &str, action: Option<usize>) -> GooseTask {
    GooseTask { name: name.to_string(), sequence_group: None, action }
}

fn three_task_set() -> GooseTaskSet {
    GooseTaskSet {
        name: "scenario".to_string(),
        tasks: vec![
            task("first", Some(0)),
            task("second", Some(1)),
            task("third", Some(2)),
        ],
        on_start_sequences: Vec::new(),
        on_stop_sequences: Vec::new(),
    }
}

fn select_next(client: &mut GooseClient, task_set: &GooseTaskSet) -> usize {
    assert!(client.can_schedule(task_set));
    let (task_index, _handle) = client.schedule_next(task_set).expect("task has an action");
    client.complete_task();
    task_index
}

fn sorted(mut v: Vec<usize>) -> Vec<usize> {
    v.sort();
    v
}

#[test]
fn bucket_coverage_floor() {
    // Buckets [[0, 0, 1], [2]]: 4 entries in all. Over n >= 4 iterations
    // every index is selected at least floor(n / 4) times its weight... at
    // least floor(n / total_entries) times.
    let task_set = three_task_set();
    let mut client =
        GooseClient::new(vec![vec![0, 0, 1], vec![2]], Vec::new(), Vec::new(), 0, 0);
    let n = 40;
    let mut counts = [0usize; 3];
    for _ in 0..n {
        counts[select_next(&mut client, &task_set)] += 1;
    }
    let floor = n / 4;
    assert!(counts[0] >= floor);
    assert!(counts[1] >= floor);
    assert!(counts[2] >= floor);
    assert_eq!(counts[0] + counts[1] + counts[2], n);
}

#[test]
fn pass_through_bucket_is_permutation() {
    // Each full pass through a bucket selects a permutation of its
    // contents: no duplicate, no omission.
    let task_set = three_task_set();
    let mut client =
        GooseClient::new(vec![vec![0, 0, 1], vec![2]], Vec::new(), Vec::new(), 0, 0);
    for _ in 0..25 {
        let first_pass: Vec<usize> =
            (0..3).map(|_| select_next(&mut client, &task_set)).collect();
        assert_eq!(sorted(first_pass), vec![0, 0, 1]);
        assert_eq!(select_next(&mut client, &task_set), 2);
    }
}

#[test]
fn wrap_around_returns_to_bucket_zero() {
    // After the last bucket is exhausted the next selection comes from
    // bucket 0 again, reshuffled but with the same contents.
    let task_set = three_task_set();
    let mut client = GooseClient::new(vec![vec![0, 1], vec![2]], Vec::new(), Vec::new(), 0, 0);
    for _ in 0..2 {
        select_next(&mut client, &task_set);
    }
    assert_eq!(client.weighted_bucket, 0);
    assert_eq!(select_next(&mut client, &task_set), 2);
    assert_eq!(client.weighted_bucket, 1);
    let from_bucket_zero =
        vec![select_next(&mut client, &task_set), select_next(&mut client, &task_set)];
    assert_eq!(client.weighted_bucket, 0);
    assert_eq!(sorted(from_bucket_zero), vec![0, 1]);
}

#[test]
fn wrap_around_reshuffles_bucket() {
    // The reshuffle on re-entry keeps the contents but re-randomizes the
    // order: over repeated wrap-arounds of a 10-entry bucket the order must
    // change at least once.
    let mut names: Vec<GooseTask> = Vec::new();
    for i in 0..10 {
        names.push(task(&format!("task{}", i), Some(i)));
    }
    let task_set = GooseTaskSet {
        name: "scenario".to_string(),
        tasks: names,
        on_start_sequences: Vec::new(),
        on_stop_sequences: Vec::new(),
    };
    let bucket: Vec<usize> = (0..10).collect();
    let mut client = GooseClient::new(vec![bucket.clone()], Vec::new(), Vec::new(), 0, 0);
    let mut previous: Vec<usize> = (0..10).map(|_| select_next(&mut client, &task_set)).collect();
    assert_eq!(previous, bucket); // the first pass runs the constructed order
    let mut changed = false;
    for _ in 0..20 {
        let pass: Vec<usize> = (0..10).map(|_| select_next(&mut client, &task_set)).collect();
        assert_eq!(sorted(pass.clone()), bucket);
        if pass != previous {
            changed = true;
        }
        previous = pass;
    }
    assert!(changed);
}

#[test]
fn cursor_stays_inside_bucket() {
    // The position never exceeds the current bucket's length, and it is
    // reset to 0 exactly when the bucket advances.
    let task_set = three_task_set();
    let mut client =
        GooseClient::new(vec![vec![0, 1], vec![2, 2, 2]], Vec::new(), Vec::new(), 0, 0);
    let mut last_bucket = client.weighted_bucket;
    for _ in 0..30 {
        assert!(client.can_schedule(&task_set));
        client.schedule_next(&task_set).expect("task has an action");
        let len = client.weighted_tasks[client.weighted_bucket].len();
        assert!(client.weighted_bucket_position < len);
        if client.weighted_bucket != last_bucket {
            assert_eq!(client.weighted_bucket_position, 0);
            last_bucket = client.weighted_bucket;
        }
        client.complete_task();
        assert!(client.weighted_bucket_position <= len);
    }
}

#[test]
fn empty_buckets_are_skipped() {
    // A bucket of length 0 is legal and skipped transparently.
    let task_set = three_task_set();
    let mut client = GooseClient::new(
        vec![Vec::new(), vec![2], Vec::new()],
        Vec::new(),
        Vec::new(),
        0,
        0,
    );
    for _ in 0..10 {
        assert_eq!(select_next(&mut client, &task_set), 2);
        assert_eq!(client.weighted_bucket, 1);
    }
}

#[test]
fn single_entry_set_runs_forever() {
    // A single bucket with a single entry degenerates to "run the same
    // task forever".
    let task_set = three_task_set();
    let mut client = GooseClient::new(vec![vec![1]], Vec::new(), Vec::new(), 0, 0);
    for _ in 0..10 {
        assert_eq!(select_next(&mut client, &task_set), 1);
    }
}

#[test]
fn schedule_sets_request_name() {
    let task_set = three_task_set();
    let mut client = GooseClient::new(vec![vec![2]], Vec::new(), Vec::new(), 0, 0);
    let (task_index, handle) = client.schedule_next(&task_set).expect("task has an action");
    assert_eq!(task_index, 2);
    assert_eq!(handle, 2);
    assert_eq!(client.request_name, "third");
}

#[test]
fn missing_action_is_fatal_error() {
    // A scheduled entry whose task has no action yields the fatal
    // configuration error, identifying the task set and the task.
    let task_set = GooseTaskSet {
        name: "scenario".to_string(),
        tasks: vec![task("first", Some(0)), task("broken", None)],
        on_start_sequences: Vec::new(),
        on_stop_sequences: Vec::new(),
    };
    let mut client = GooseClient::new(vec![vec![1]], Vec::new(), Vec::new(), 0, 0);
    let before = client.request_name.clone();
    match client.schedule_next(&task_set) {
        Ok(_) => panic!("a task without an action must not be scheduled"),
        Err(GooseError::MissingAction { task_set_name, task_name }) => {
            assert_eq!(task_set_name, "scenario");
            assert_eq!(task_name, "broken");
        }
    }
    assert_eq!(client.request_name, before);

    match task_set.resolve_action(1) {
        Ok(_) => panic!("resolving a task without an action must fail"),
        Err(GooseError::MissingAction { task_set_name, task_name }) => {
            assert_eq!(task_set_name, "scenario");
            assert_eq!(task_name, "broken");
        }
    }
    assert_eq!(task_set.resolve_action(0).ok(), Some(0));
}
