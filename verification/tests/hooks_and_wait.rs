use goose_worker::client::GooseClient;
use goose_worker::hooks::hook_execution_order;

#[test]
fn hook_groups_keep_their_declared_order() {
    // With on_start groups [[A, B], [C]] (indices [[0, 1], [2]]), task C
    // always runs after both A and B, whatever order A and B end up in.
    let groups = vec![vec![0, 1], vec![2]];
    for _ in 0..200 {
        let order = hook_execution_order(&groups);
        assert_eq!(order.len(), 3);
        let mut first_two = vec![order[0], order[1]];
        first_two.sort();
        assert_eq!(first_two, vec![0, 1]);
        assert_eq!(order[2], 2);
    }
}

#[test]
fn hook_groups_shuffle_within_a_group() {
    // Members of a multi-member group are shuffled: over repeated runs of
    // a 6-member group both some reordering and every member must appear.
    let groups = vec![vec![0, 1, 2, 3, 4, 5]];
    let mut changed = false;
    for _ in 0..50 {
        let order = hook_execution_order(&groups);
        let mut sorted = order.clone();
        sorted.sort();
        assert_eq!(sorted, vec![0, 1, 2, 3, 4, 5]);
        if order != vec![0, 1, 2, 3, 4, 5] {
            changed = true;
        }
    }
    assert!(changed);
}

#[test]
fn empty_and_single_groups_are_safe() {
    let order = hook_execution_order(&vec![Vec::new(), vec![4], Vec::new()]);
    assert_eq!(order, vec![4]);
    assert_eq!(hook_execution_order(&Vec::new()), Vec::<usize>::new());
}

#[test]
fn wait_times_stay_inside_the_half_open_range() {
    // For min_wait = 2, max_wait = 5, every sampled duration lies in
    // {2, 3, 4}: never 5, never below 2; over 10,000 samples each of the
    // three values also shows up.
    let client = GooseClient::new(vec![vec![0]], Vec::new(), Vec::new(), 2, 5);
    let mut seen = [false; 5];
    for _ in 0..10_000 {
        let seconds = client.wait_time().expect("waiting is enabled");
        assert!((2..5).contains(&seconds));
        seen[seconds] = true;
    }
    assert!(seen[2] && seen[3] && seen[4]);
}

#[test]
fn zero_min_wait_never_waits() {
    let client = GooseClient::new(vec![vec![0]], Vec::new(), Vec::new(), 0, 9);
    for _ in 0..100 {
        assert_eq!(client.wait_time(), None);
    }
}
