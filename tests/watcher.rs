use rgdrive::registry::{Tracker, IN_DELETE_SELF, IN_MODIFY, IN_MOVE_SELF};
use rgdrive::watcher::{classify, EventKind, WatchEvent};

#[test]
fn masks_classify_by_exact_value() {
    assert!(matches!(classify(IN_MODIFY), EventKind::Modify));
    assert!(matches!(classify(IN_DELETE_SELF), EventKind::DeleteSelf));
    assert!(matches!(classify(IN_MOVE_SELF), EventKind::MoveSelf));
    assert!(matches!(classify(IN_MODIFY | IN_MOVE_SELF), EventKind::Other));
    assert!(matches!(classify(0x8000), EventKind::Other));
}

#[test]
fn modify_on_a_watch_triggers_one_update() {
    let mut t = Tracker::new("/nonexistent/tracked_files").unwrap();
    t.add_path("/tmp", "remote-1").unwrap();
    let wd = t.tracked_files()[0].wd.as_ref().unwrap().id();
    let updates = t.updates_for(&vec![WatchEvent { wd, mask: IN_MODIFY }]);
    assert_eq!(updates, vec![("/tmp".to_string(), "remote-1".to_string())]);
}

#[test]
fn unknown_watch_triggers_no_update() {
    let mut t = Tracker::new("/nonexistent/tracked_files").unwrap();
    t.add_path("/tmp", "remote-1").unwrap();
    let wd = t.tracked_files()[0].wd.as_ref().unwrap().id();
    let updates = t.updates_for(&vec![WatchEvent { wd: wd + 1000, mask: IN_MODIFY }]);
    assert!(updates.is_empty());
}

#[test]
fn delete_and_move_trigger_no_update() {
    let mut t = Tracker::new("/nonexistent/tracked_files").unwrap();
    t.add_path("/tmp", "remote-1").unwrap();
    let wd = t.tracked_files()[0].wd.as_ref().unwrap().id();
    let events = vec![WatchEvent { wd, mask: IN_DELETE_SELF }, WatchEvent { wd, mask: IN_MOVE_SELF }];
    assert!(t.updates_for(&events).is_empty());
    assert_eq!(t.tracked_files().len(), 1);
}

#[test]
fn a_batch_yields_updates_in_event_order() {
    let mut t = Tracker::new("/nonexistent/tracked_files").unwrap();
    t.add_path("/tmp", "a").unwrap();
    t.add_path("/", "b").unwrap();
    let w0 = t.tracked_files()[0].wd.as_ref().unwrap().id();
    let w1 = t.tracked_files()[1].wd.as_ref().unwrap().id();
    let events = vec![
        WatchEvent { wd: w1, mask: IN_MODIFY },
        WatchEvent { wd: w0, mask: IN_MODIFY },
        WatchEvent { wd: w1, mask: IN_MODIFY },
    ];
    assert_eq!(
        t.updates_for(&events),
        vec![
            ("/".to_string(), "b".to_string()),
            ("/tmp".to_string(), "a".to_string()),
            ("/".to_string(), "b".to_string()),
        ]
    );
}

#[test]
fn reading_with_nothing_queued_gives_no_events() {
    let mut t = Tracker::new("/nonexistent/tracked_files").unwrap();
    let mut buffer = vec![0u8; 4096];
    assert_eq!(t.read_events(&mut buffer).unwrap().len(), 0);
}
