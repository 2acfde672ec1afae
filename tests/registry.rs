use rgdrive::registry::{TrackedFile, Tracker};

fn pairs(t: &Tracker) -> Vec<(String, String)> {
    t.tracked_files().iter().map(|f| (f.path.clone(), f.drive_url.clone())).collect()
}

fn fresh() -> Tracker {
    Tracker::new("/nonexistent/tracked_files").unwrap()
}

#[test]
fn new_tracker_is_empty() {
    let t = fresh();
    assert!(t.tracked_files().is_empty());
    assert_eq!(t.storage_path(), "/nonexistent/tracked_files");
}

#[test]
fn adding_a_path_twice_keeps_one_entry() {
    let mut t = fresh();
    assert!(t.add_path("/tmp", "r1").is_ok());
    let wd = t.tracked_files()[0].wd.as_ref().unwrap().id();
    assert!(t.add_path("/tmp", "r1").is_ok());
    assert_eq!(t.tracked_files().len(), 1);
    assert_eq!(t.tracked_files()[0].wd.as_ref().unwrap().id(), wd);
    assert!(t.is_tracked("/tmp"));
}

#[test]
fn adding_a_tracked_path_with_another_id_changes_nothing() {
    let mut t = fresh();
    t.add_path("/tmp", "r1").unwrap();
    t.add_path("/tmp", "r2").unwrap();
    assert_eq!(pairs(&t), vec![("/tmp".to_string(), "r1".to_string())]);
}

#[test]
fn adding_a_missing_path_fails_and_adds_nothing() {
    let mut t = fresh();
    assert!(t.add_path("/no/such/file.txt", "r1").is_err());
    assert!(t.tracked_files().is_empty());
}

#[test]
fn removing_after_adding_leaves_no_entry() {
    let mut t = fresh();
    t.add_path("/tmp", "r1").unwrap();
    t.add_path("/", "r2").unwrap();
    assert!(t.remove_path("/tmp").is_ok());
    assert!(!t.is_tracked("/tmp"));
    assert_eq!(pairs(&t), vec![("/".to_string(), "r2".to_string())]);
}

#[test]
fn removing_an_untracked_path_is_no_error() {
    let mut t = fresh();
    t.add_path("/tmp", "r1").unwrap();
    assert!(t.remove_path("/elsewhere").is_ok());
    assert_eq!(t.tracked_files().len(), 1);
}

#[test]
fn stored_bytes_have_bincode_layout() {
    let mut t = fresh();
    t.add_path("/tmp", "r").unwrap();
    let b = t.to_bytes();
    let mut expected = Vec::new();
    expected.extend_from_slice(&1u64.to_le_bytes());
    expected.extend_from_slice(&1u64.to_le_bytes());
    expected.extend_from_slice(b"r");
    expected.extend_from_slice(&4u64.to_le_bytes());
    expected.extend_from_slice(b"/tmp");
    assert_eq!(b, expected);
}

#[test]
fn reloading_reproduces_pairs_over_three_cycles() {
    let mut t = fresh();
    let steps: [(&str, bool); 3] = [("/tmp", true), ("/", true), ("/tmp", false)];
    for (path, add) in steps {
        if add {
            t.add_path(path, &format!("id-{}", path)).unwrap();
        } else {
            t.remove_path(path).unwrap();
        }
        let b = t.to_bytes();
        let loaded = TrackedFile::from_bytes(&b);
        let got: Vec<(String, String)> =
            loaded.iter().map(|f| (f.path.clone(), f.drive_url.clone())).collect();
        assert_eq!(got, pairs(&t));
        assert!(loaded.iter().all(|f| f.wd.is_none()));
    }
    assert_eq!(pairs(&t), vec![("/".to_string(), "id-/".to_string())]);
}

#[test]
fn corrupt_or_missing_storage_loads_nothing() {
    assert!(TrackedFile::from_bytes(&[]).is_empty());
    assert!(TrackedFile::from_bytes(&[1, 2, 3]).is_empty());
    assert!(TrackedFile::from_bytes(&[5, 0, 0, 0, 0, 0, 0, 0]).is_empty());
}

#[test]
fn init_registers_watches_and_drops_failures() {
    let mut t = fresh();
    t.add_path("/tmp", "a").unwrap();
    t.add_path("/", "b").unwrap();
    let mut stored = TrackedFile::from_bytes(&t.to_bytes());
    stored.insert(1, TrackedFile { drive_url: "c".to_string(), path: "/no/such/file".to_string(), wd: None });
    let loaded = Tracker::init("/nonexistent/tracked_files", &stored).unwrap();
    assert_eq!(pairs(&loaded), vec![("/tmp".to_string(), "a".to_string()), ("/".to_string(), "b".to_string())]);
    assert!(loaded.tracked_files().iter().all(|f| f.wd.is_some()));
}

#[test]
fn init_skips_repeated_paths() {
    let stored = vec![
        TrackedFile { drive_url: "a".to_string(), path: "/tmp".to_string(), wd: None },
        TrackedFile { drive_url: "b".to_string(), path: "/tmp".to_string(), wd: None },
    ];
    let loaded = Tracker::init("/nonexistent/tracked_files", &stored).unwrap();
    assert_eq!(pairs(&loaded), vec![("/tmp".to_string(), "a".to_string())]);
}
