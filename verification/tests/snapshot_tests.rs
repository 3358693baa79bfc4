use aria2_sync::job::{JobStatus, LinkData};
use aria2_sync::snapshot::Snapshot;

fn job(gid: &str, status: JobStatus, completed: u64) -> LinkData {
    LinkData {
        gid: gid.to_string(),
        status,
        total_length: 1000,
        completed_length: completed,
        download_speed: 0,
        upload_speed: 0,
        connections: 0,
        bittorrent: None,
        num_seeders: None,
        num_pieces: 1,
        piece_length: 1000,
        dir: "/d".to_string(),
        files: vec![],
    }
}

fn gids(s: &Snapshot) -> Vec<String> {
    s.records().into_iter().map(|l| l.gid).collect()
}

#[test]
fn new_snapshot_is_empty() {
    let s = Snapshot::new();
    assert!(s.is_empty());
    assert_eq!(s.len(), 0);
    assert!(s.records().is_empty());
    assert!(!s.contains(&"abc".to_string()));
    assert!(s.get(&"abc".to_string()).is_none());
}

#[test]
fn with_record_adds_a_new_job() {
    let s = Snapshot::new().with_record(job("a", JobStatus::Active, 1));
    assert_eq!(s.len(), 1);
    assert!(!s.is_empty());
    assert!(s.contains(&"a".to_string()));
    assert_eq!(s.get(&"a".to_string()).unwrap().completed_length, 1);
}

#[test]
fn with_record_replaces_a_known_job() {
    let s = Snapshot::new()
        .with_record(job("a", JobStatus::Active, 1))
        .with_record(job("b", JobStatus::Waiting, 2));
    let t = s.with_record(job("a", JobStatus::Complete, 1000));
    assert_eq!(t.len(), 2);
    assert_eq!(t.get(&"a".to_string()).unwrap().status, JobStatus::Complete);
    assert_eq!(t.get(&"a".to_string()).unwrap().completed_length, 1000);
    assert!(t.get(&"b".to_string()).unwrap().same(&job("b", JobStatus::Waiting, 2)));
}

#[test]
fn an_update_leaves_the_old_snapshot_as_it_was() {
    let s = Snapshot::new().with_record(job("a", JobStatus::Active, 1));
    let t = s.with_record(job("a", JobStatus::Complete, 1000));
    let u = s.without(&"a".to_string());
    assert_eq!(s.get(&"a".to_string()).unwrap().status, JobStatus::Active);
    assert_eq!(t.get(&"a".to_string()).unwrap().status, JobStatus::Complete);
    assert!(u.is_empty());
    assert_eq!(s.len(), 1);
}

#[test]
fn without_takes_one_job_out() {
    let s = Snapshot::new()
        .with_record(job("a", JobStatus::Active, 1))
        .with_record(job("b", JobStatus::Waiting, 2))
        .with_record(job("c", JobStatus::Paused, 3));
    let t = s.without(&"b".to_string());
    assert_eq!(t.len(), 2);
    assert!(t.contains(&"a".to_string()));
    assert!(!t.contains(&"b".to_string()));
    assert!(t.contains(&"c".to_string()));
    assert!(t.get(&"c".to_string()).unwrap().same(&job("c", JobStatus::Paused, 3)));
}

#[test]
fn without_an_unknown_job_changes_nothing() {
    let s = Snapshot::new().with_record(job("a", JobStatus::Active, 1));
    let t = s.without(&"zzz".to_string());
    assert!(t.same_as(&s));
    assert_eq!(t.len(), 1);
}

#[test]
fn from_records_keeps_the_last_record_of_each_job() {
    let list = vec![
        job("a", JobStatus::Active, 1),
        job("b", JobStatus::Waiting, 2),
        job("a", JobStatus::Paused, 3),
        job("c", JobStatus::Error, 4),
        job("a", JobStatus::Complete, 5),
    ];
    let s = Snapshot::from_records(&list);
    assert_eq!(s.len(), 3);
    assert!(s.get(&"a".to_string()).unwrap().same(&job("a", JobStatus::Complete, 5)));
    assert!(s.get(&"b".to_string()).unwrap().same(&job("b", JobStatus::Waiting, 2)));
    assert!(s.get(&"c".to_string()).unwrap().same(&job("c", JobStatus::Error, 4)));
}

#[test]
fn from_records_of_nothing_is_empty() {
    assert!(Snapshot::from_records(&vec![]).is_empty());
}

#[test]
fn records_list_each_job_once() {
    let list = vec![
        job("a", JobStatus::Active, 1),
        job("b", JobStatus::Waiting, 2),
        job("a", JobStatus::Paused, 3),
    ];
    let s = Snapshot::from_records(&list);
    let mut ids = gids(&s);
    ids.sort();
    assert_eq!(ids, vec!["a".to_string(), "b".to_string()]);
    assert!(Snapshot::from_records(&s.records()).same_as(&s));
}

#[test]
fn same_as_is_by_value_and_ignores_order() {
    let s = Snapshot::new()
        .with_record(job("a", JobStatus::Active, 1))
        .with_record(job("b", JobStatus::Waiting, 2));
    let t = Snapshot::new()
        .with_record(job("b", JobStatus::Waiting, 2))
        .with_record(job("a", JobStatus::Active, 1));
    assert!(s.same_as(&t));
    assert!(t.same_as(&s));
    assert!(s.same_as(&s.clone()));
}

#[test]
fn same_as_sees_a_changed_field_a_missing_job_and_another_job() {
    let s = Snapshot::new()
        .with_record(job("a", JobStatus::Active, 1))
        .with_record(job("b", JobStatus::Waiting, 2));
    let changed = s.with_record(job("b", JobStatus::Waiting, 3));
    assert!(!s.same_as(&changed));
    let fewer = s.without(&"b".to_string());
    assert!(!s.same_as(&fewer));
    assert!(!fewer.same_as(&s));
    let other = fewer.with_record(job("c", JobStatus::Waiting, 2));
    assert!(!s.same_as(&other));
    assert!(!Snapshot::new().same_as(&s));
    assert!(Snapshot::new().same_as(&Snapshot::new()));
}
