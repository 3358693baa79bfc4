use aria2_sync::upstream::{Queue, PAGE_COUNT, PAGE_OFFSET};

#[test]
fn each_queue_has_its_method() {
    assert_eq!(Queue::Active.method(), "tellActive");
    assert_eq!(Queue::Waiting.method(), "tellWaiting");
    assert_eq!(Queue::Stopped.method(), "tellStopped");
}

#[test]
fn the_active_queue_is_listed_whole() {
    assert!(Queue::Active.params().is_empty());
}

#[test]
fn the_other_queues_are_listed_by_page() {
    assert_eq!((PAGE_OFFSET, PAGE_COUNT), (0, 1000));
    for q in [Queue::Waiting, Queue::Stopped] {
        let p = q.params();
        assert_eq!(p, vec![serde_json::Value::from(0), serde_json::Value::from(1000)]);
        assert_eq!(p[0].as_i64(), Some(0));
        assert_eq!(p[1].as_i64(), Some(1000));
        assert!(p[1].is_number());
        assert_eq!(serde_json::to_string(&p).unwrap(), "[0,1000]");
    }
}
