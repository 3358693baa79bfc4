use aria2_sync::job::{JobStatus, LinkData, WireLink};
use aria2_sync::listener::{point_update, step, ListenerAction, ListenerEvent, ListenerState, Notice};
use aria2_sync::snapshot::Snapshot;
use aria2_sync::store::Store;

fn wire(gid: &str, status: &str, completed: &str) -> WireLink {
    WireLink {
        gid: gid.to_string(),
        status: status.to_string(),
        total_length: "1000".to_string(),
        completed_length: completed.to_string(),
        download_speed: "0".to_string(),
        upload_speed: "0".to_string(),
        connections: "0".to_string(),
        bittorrent: None,
        num_seeders: None,
        num_pieces: "1".to_string(),
        piece_length: "1000".to_string(),
        dir: "/d".to_string(),
        files: vec![],
    }
}

fn job(gid: &str, status: JobStatus, completed: u64) -> LinkData {
    LinkData {
        gid: gid.to_string(),
        status,
        total_length: 1000,
        completed_length: completed,
        download_speed: 0,
        upload_speed: 0,
        connections: 0,
        bittorrent: None,
        num_seeders: None,
        num_pieces: 1,
        piece_length: 1000,
        dir: "/d".to_string(),
        files: vec![],
    }
}

#[test]
fn the_listener_opens_the_stream_and_receives() {
    let (s, a) = step(ListenerState::Disconnected, ListenerEvent::Start);
    assert_eq!((s, a), (ListenerState::Subscribed, ListenerAction::Open));
    let (s, a) = step(s, ListenerEvent::Opened);
    assert_eq!((s, a), (ListenerState::Receiving, ListenerAction::Receive));
}

#[test]
fn a_job_notification_asks_for_one_status_query() {
    let (s, a) = step(
        ListenerState::Receiving,
        ListenerEvent::Notified(Notice::Job("abc".to_string())),
    );
    assert_eq!(s, ListenerState::Receiving);
    assert_eq!(a, ListenerAction::Fetch("abc".to_string()));
}

#[test]
fn other_notifications_are_passed_over() {
    let (s, a) = step(ListenerState::Receiving, ListenerEvent::Notified(Notice::Other));
    assert_eq!((s, a), (ListenerState::Receiving, ListenerAction::Receive));
}

#[test]
fn a_stream_failure_leads_to_backoff_and_a_new_subscription() {
    let (s, a) = step(ListenerState::Receiving, ListenerEvent::StreamFailed);
    assert_eq!((s, a), (ListenerState::Subscribed, ListenerAction::Backoff));
    let (s, a) = step(s, ListenerEvent::Waited);
    assert_eq!((s, a), (ListenerState::Subscribed, ListenerAction::Open));
    let (s, a) = step(s, ListenerEvent::StreamFailed);
    assert_eq!((s, a), (ListenerState::Subscribed, ListenerAction::Backoff));
    let (s, a) = step(s, ListenerEvent::Waited);
    assert_eq!((s, a), (ListenerState::Subscribed, ListenerAction::Open));
    let (s, a) = step(s, ListenerEvent::Opened);
    assert_eq!((s, a), (ListenerState::Receiving, ListenerAction::Receive));
}

#[test]
fn a_shutdown_stops_the_listener_in_every_state() {
    for state in [ListenerState::Disconnected, ListenerState::Subscribed, ListenerState::Receiving] {
        let (s, a) = step(state, ListenerEvent::Shutdown);
        assert_eq!((s, a), (ListenerState::Disconnected, ListenerAction::Stop));
    }
}

#[test]
fn an_event_that_does_not_belong_to_the_state_changes_nothing() {
    let (s, a) = step(ListenerState::Disconnected, ListenerEvent::Opened);
    assert_eq!((s, a), (ListenerState::Disconnected, ListenerAction::Nothing));
    let (s, a) = step(ListenerState::Disconnected, ListenerEvent::StreamFailed);
    assert_eq!((s, a), (ListenerState::Disconnected, ListenerAction::Nothing));
    let (s, a) = step(ListenerState::Disconnected, ListenerEvent::Waited);
    assert_eq!((s, a), (ListenerState::Disconnected, ListenerAction::Nothing));
    let (s, a) = step(
        ListenerState::Disconnected,
        ListenerEvent::Notified(Notice::Job("abc".to_string())),
    );
    assert_eq!((s, a), (ListenerState::Disconnected, ListenerAction::Nothing));
    let (s, a) = step(ListenerState::Subscribed, ListenerEvent::Start);
    assert_eq!((s, a), (ListenerState::Subscribed, ListenerAction::Nothing));
    let (s, a) = step(ListenerState::Subscribed, ListenerEvent::Notified(Notice::Other));
    assert_eq!((s, a), (ListenerState::Subscribed, ListenerAction::Nothing));
    let (s, a) = step(ListenerState::Receiving, ListenerEvent::Start);
    assert_eq!((s, a), (ListenerState::Receiving, ListenerAction::Nothing));
    let (s, a) = step(ListenerState::Receiving, ListenerEvent::Opened);
    assert_eq!((s, a), (ListenerState::Receiving, ListenerAction::Nothing));
    let (s, a) = step(ListenerState::Receiving, ListenerEvent::Waited);
    assert_eq!((s, a), (ListenerState::Receiving, ListenerAction::Nothing));
}

#[test]
fn notification_driven_transition() {
    let before = Snapshot::new()
        .with_record(job("abc", JobStatus::Active, 500))
        .with_record(job("other", JobStatus::Waiting, 0));
    let mut store = Store::new();
    store.propose(before.clone());

    let (state, action) = step(
        ListenerState::Receiving,
        ListenerEvent::Notified(Notice::Job("abc".to_string())),
    );
    assert_eq!(state, ListenerState::Receiving);
    let gid = match action {
        ListenerAction::Fetch(gid) => gid,
        other => panic!("unexpected action {:?}", other),
    };
    assert_eq!(gid, "abc");

    let answer = wire("abc", "complete", "1000");
    let after = point_update(&store.read(), &gid, Some(&answer));
    assert!(store.propose(after));

    let now = store.read();
    assert_eq!(now.len(), 2);
    let abc = now.get(&"abc".to_string()).unwrap();
    assert_eq!(abc.status, JobStatus::Complete);
    assert_eq!(abc.completed_length, 1000);
    assert_eq!(abc.total_length, 1000);
    assert!(abc.same(&job("abc", JobStatus::Complete, 1000)));
    assert!(now.get(&"other".to_string()).unwrap().same(&job("other", JobStatus::Waiting, 0)));
}

#[test]
fn a_failed_status_query_takes_the_job_out() {
    let before = Snapshot::new()
        .with_record(job("abc", JobStatus::Active, 500))
        .with_record(job("other", JobStatus::Waiting, 0));
    let after = point_update(&before, &"abc".to_string(), None);
    assert_eq!(after.len(), 1);
    assert!(!after.contains(&"abc".to_string()));
    assert!(after.get(&"other".to_string()).unwrap().same(&job("other", JobStatus::Waiting, 0)));
}

#[test]
fn a_malformed_answer_takes_the_job_out() {
    let before = Snapshot::new().with_record(job("abc", JobStatus::Active, 500));
    let after = point_update(&before, &"abc".to_string(), Some(&wire("abc", "complete", "all")));
    assert!(after.is_empty());
}

#[test]
fn an_answer_about_another_job_takes_the_job_out() {
    let before = Snapshot::new()
        .with_record(job("abc", JobStatus::Active, 500))
        .with_record(job("other", JobStatus::Waiting, 0));
    let after = point_update(&before, &"abc".to_string(), Some(&wire("other", "complete", "1000")));
    assert_eq!(after.len(), 1);
    assert!(after.get(&"other".to_string()).unwrap().same(&job("other", JobStatus::Waiting, 0)));
}

#[test]
fn a_status_answer_for_an_unknown_job_adds_it() {
    let after = point_update(&Snapshot::new(), &"new".to_string(), Some(&wire("new", "waiting", "0")));
    assert_eq!(after.len(), 1);
    assert!(after.get(&"new".to_string()).unwrap().same(&job("new", JobStatus::Waiting, 0)));
}
