use goose_worker::client::{GooseClient, GooseClientMode, GooseRequest};
use goose_worker::commands::GooseClientCommand;

fn running_client() -> GooseClient {
    let mut client = GooseClient::new(vec![vec![0]], Vec::new(), Vec::new(), 0, 0);
    client.set_mode(GooseClientMode::Running);
    client
}

#[test]
fn new_client_starts_in_starting_mode() {
    let client = GooseClient::new(vec![vec![0, 1]], Vec::new(), Vec::new(), 2, 5);
    assert_eq!(client.mode, GooseClientMode::Starting);
    assert_eq!(client.weighted_bucket, 0);
    assert_eq!(client.weighted_bucket_position, 0);
    assert_eq!(client.min_wait, 2);
    assert_eq!(client.max_wait, 5);
    assert_eq!(client.request_name, "");
    assert!(client.requests.is_empty());
}

#[test]
fn modes_progress_forward_only() {
    // Snapshots report Starting, then Running, then Exiting, in that
    // order, with Exiting reported exactly once as the final snapshot.
    let mut client = GooseClient::new(vec![vec![0]], Vec::new(), Vec::new(), 0, 0);
    let mut reported = vec![client.snapshot().mode];
    client.set_mode(GooseClientMode::Running);
    reported.push(client.snapshot().mode);
    let (snapshot, keep_going) = client.handle_command(GooseClientCommand::EXIT);
    reported.push(snapshot.mode);
    assert!(!keep_going);
    assert_eq!(
        reported,
        vec![
            GooseClientMode::Starting,
            GooseClientMode::Running,
            GooseClientMode::Exiting,
        ]
    );
}

#[test]
fn sync_snapshots_then_clears_counters() {
    // A SYNC yields a snapshot carrying the prior counters, after which
    // the worker's local counters are empty; the mode is unchanged.
    let mut client = running_client();
    client.request_name = "first".to_string();
    client.record_request(true);
    client.record_request(true);
    client.record_request(false);
    assert_eq!(client.requests.len(), 1);

    let (snapshot, keep_going) = client.handle_command(GooseClientCommand::SYNC);
    assert!(keep_going);
    assert_eq!(snapshot.mode, GooseClientMode::Running);
    assert_eq!(snapshot.requests.len(), 1);
    assert_eq!(snapshot.requests[0].name, "first");
    assert_eq!(snapshot.requests[0].success_count, 2);
    assert_eq!(snapshot.requests[0].fail_count, 1);
    assert!(client.requests.is_empty());
    assert_eq!(client.mode, GooseClientMode::Running);
}

#[test]
fn exit_keeps_counters_intact() {
    // An EXIT yields a final snapshot with the counters intact and does
    // not clear the worker's own copy.
    let mut client = running_client();
    client.request_name = "first".to_string();
    client.record_request(true);

    let (snapshot, keep_going) = client.handle_command(GooseClientCommand::EXIT);
    assert!(!keep_going);
    assert_eq!(snapshot.mode, GooseClientMode::Exiting);
    assert_eq!(snapshot.requests.len(), 1);
    assert_eq!(snapshot.requests[0].success_count, 1);
    assert_eq!(client.requests.len(), 1);
    assert_eq!(client.mode, GooseClientMode::Exiting);
}

#[test]
fn snapshot_is_an_independent_copy() {
    let mut client = running_client();
    client.request_name = "first".to_string();
    client.record_request(true);
    let snapshot = client.snapshot();
    client.record_request(true);
    client.weighted_bucket_position = 7;
    assert_eq!(snapshot.requests[0].success_count, 1);
    assert_eq!(snapshot.weighted_bucket_position, 0);
    assert_eq!(client.requests[0].success_count, 2);
}

#[test]
fn record_request_appends_and_bumps() {
    let mut client = running_client();
    client.request_name = "alpha".to_string();
    client.record_request(true);
    client.request_name = "beta".to_string();
    client.record_request(false);
    client.request_name = "alpha".to_string();
    client.record_request(false);
    assert_eq!(client.requests.len(), 2);
    assert_eq!(client.requests[0].name, "alpha");
    assert_eq!(client.requests[0].success_count, 1);
    assert_eq!(client.requests[0].fail_count, 1);
    assert_eq!(client.requests[1].name, "beta");
    assert_eq!(client.requests[1].success_count, 0);
    assert_eq!(client.requests[1].fail_count, 1);
}

#[test]
fn record_request_saturates_at_maximum() {
    let mut client = running_client();
    client.request_name = "alpha".to_string();
    client.requests.push(GooseRequest {
        name: "alpha".to_string(),
        success_count: u64::MAX,
        fail_count: 0,
    });
    client.record_request(true);
    assert_eq!(client.requests[0].success_count, u64::MAX);
}
