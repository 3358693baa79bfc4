use aria2_sync::job::{JobStatus, LinkData};
use aria2_sync::snapshot::Snapshot;
use aria2_sync::store::{Broadcast, Store};

fn job(gid: &str, status: JobStatus, completed: u64) -> LinkData {
    LinkData {
        gid: gid.to_string(),
        status,
        total_length: 1000,
        completed_length: completed,
        download_speed: 0,
        upload_speed: 0,
        connections: 0,
        bittorrent: None,
        num_seeders: None,
        num_pieces: 1,
        piece_length: 1000,
        dir: "/d".to_string(),
        files: vec![],
    }
}

fn one(gid: &str, status: JobStatus, completed: u64) -> Snapshot {
    Snapshot::new().with_record(job(gid, status, completed))
}

#[test]
fn a_new_store_holds_the_empty_snapshot() {
    let store = Store::new();
    assert!(store.read().is_empty());
}

#[test]
fn propose_replaces_the_snapshot_where_it_differs() {
    let mut store = Store::new();
    assert!(store.propose(one("a", JobStatus::Active, 1)));
    assert!(store.read().same_as(&one("a", JobStatus::Active, 1)));
    assert!(store.propose(one("a", JobStatus::Active, 2)));
    assert!(store.read().same_as(&one("a", JobStatus::Active, 2)));
}

#[test]
fn proposing_the_same_snapshot_twice_publishes_once() {
    let mut store = Store::new();
    let h = store.subscribe();
    assert!(store.take(h).is_some());
    let first = store.propose(one("a", JobStatus::Active, 1));
    assert!(store.take(h).is_some());
    let second = store.propose(one("a", JobStatus::Active, 1));
    assert!(first);
    assert!(!second);
    assert!(store.take(h).is_none());
    assert!(store.read().same_as(&one("a", JobStatus::Active, 1)));
}

#[test]
fn proposing_the_empty_snapshot_to_a_new_store_publishes_nothing() {
    let mut store = Store::new();
    let h = store.subscribe();
    assert!(store.take(h).is_some());
    assert!(!store.propose(Snapshot::new()));
    assert!(store.take(h).is_none());
}

#[test]
fn a_read_gives_the_snapshot_proposed_last() {
    let mut store = Store::new();
    store.propose(one("x", JobStatus::Complete, 1000));
    assert_eq!(store.read().get(&"x".to_string()).unwrap().status, JobStatus::Complete);
    store.propose(Snapshot::new());
    assert!(!store.read().contains(&"x".to_string()));
    store.propose(one("y", JobStatus::Active, 1));
    assert!(!store.read().contains(&"x".to_string()));
    assert!(store.read().contains(&"y".to_string()));
}

#[test]
fn a_subscriber_first_receives_the_latest_snapshot() {
    let mut store = Store::new();
    store.propose(one("a", JobStatus::Active, 1));
    let h = store.subscribe();
    let got = store.take(h).unwrap();
    assert!(got.same_as(&one("a", JobStatus::Active, 1)));
    assert!(store.take(h).is_none());
}

#[test]
fn every_subscriber_receives_a_published_snapshot() {
    let mut store = Store::new();
    let h1 = store.subscribe();
    let h2 = store.subscribe();
    assert_ne!(h1, h2);
    store.take(h1);
    store.take(h2);
    store.propose(one("a", JobStatus::Active, 1));
    assert!(store.take(h1).unwrap().same_as(&one("a", JobStatus::Active, 1)));
    assert!(store.take(h1).is_none());
    assert!(store.take(h2).unwrap().same_as(&one("a", JobStatus::Active, 1)));
    assert!(store.take(h2).is_none());
}

#[test]
fn a_slow_subscriber_receives_the_latest_snapshot_only() {
    let mut store = Store::new();
    let h = store.subscribe();
    store.take(h);
    store.propose(one("a", JobStatus::Active, 1));
    store.propose(one("a", JobStatus::Active, 2));
    store.propose(one("a", JobStatus::Complete, 1000));
    assert!(store.take(h).unwrap().same_as(&one("a", JobStatus::Complete, 1000)));
    assert!(store.take(h).is_none());
}

#[test]
fn a_handle_that_was_given_up_receives_nothing_and_is_used_again() {
    let mut store = Store::new();
    let h1 = store.subscribe();
    let h2 = store.subscribe();
    assert_eq!((h1, h2), (0, 1));
    store.unsubscribe(h1);
    store.propose(one("a", JobStatus::Active, 1));
    assert!(store.take(h1).is_none());
    assert!(store.take(h2).is_some());
    let h3 = store.subscribe();
    assert_eq!(h3, 0);
    assert!(store.take(h3).is_some());
    let h4 = store.subscribe();
    assert_eq!(h4, 2);
}

#[test]
fn a_handle_that_was_never_given_out_receives_nothing() {
    let mut store = Store::new();
    assert!(store.take(5).is_none());
    store.unsubscribe(5);
    assert_eq!(store.subscribe(), 0);
}

#[test]
fn broadcast_publishes_even_an_equal_snapshot() {
    let mut b = Broadcast::new(one("a", JobStatus::Active, 1));
    let h = b.subscribe();
    assert!(b.is_subscribed(h));
    assert!(!b.is_subscribed(h + 1));
    assert!(b.take(h).unwrap().same_as(&one("a", JobStatus::Active, 1)));
    assert!(b.take(h).is_none());
    b.publish(one("a", JobStatus::Active, 1));
    assert!(b.take(h).is_some());
    b.publish(one("b", JobStatus::Waiting, 0));
    assert!(b.latest().same_as(&one("b", JobStatus::Waiting, 0)));
    assert!(b.take(h).unwrap().same_as(&one("b", JobStatus::Waiting, 0)));
    b.unsubscribe(h);
    assert!(!b.is_subscribed(h));
    b.publish(Snapshot::new());
    assert!(b.take(h).is_none());
    assert!(!b.is_subscribed(h));
}
