use rgdrive::daemon::{
    check_pull_destination, dispatch, finish_pull, finish_push_file, handle_request, handle_sync,
    handle_unsync, pull_destination_refusal, push_not_found, PushTally, Step,
};
use rgdrive::protocol::{DCommand, DResult};
use rgdrive::registry::Tracker;

fn fresh() -> Tracker {
    Tracker::new("/nonexistent/tracked_files").unwrap()
}

fn reply(step: Step) -> DResult {
    match step {
        Step::Reply(r) => r,
        other => panic!("expected a reply, got {:?}", other),
    }
}

#[test]
fn empty_payload_is_silent_and_does_nothing() {
    let mut t = fresh();
    t.add_path("/tmp", "a").unwrap();
    assert!(matches!(handle_request(&mut t, &[]), Step::Silent));
    assert_eq!(t.tracked_files().len(), 1);
}

#[test]
fn undecodable_payload_closes_the_connection() {
    let mut t = fresh();
    assert!(matches!(handle_request(&mut t, &[9, 9]), Step::Undecodable));
    assert!(matches!(handle_request(&mut t, &[42, 0, 0, 0]), Step::Undecodable));
}

#[test]
fn ping_is_answered_with_pong() {
    let mut t = fresh();
    let payload = DCommand::Message("ping".to_string()).to_bytes();
    let r = reply(handle_request(&mut t, &payload));
    assert!(r.is_success());
    assert_eq!(r.message(), "pong");
}

#[test]
fn other_messages_get_no_reply() {
    let mut t = fresh();
    assert!(matches!(dispatch(&mut t, DCommand::Message("hello".to_string())), Step::Silent));
    assert!(matches!(dispatch(&mut t, DCommand::Ack), Step::Silent));
    assert!(matches!(dispatch(&mut t, DCommand::Empty), Step::Silent));
}

#[test]
fn quit_replies_then_stops() {
    let mut t = fresh();
    match dispatch(&mut t, DCommand::Quit) {
        Step::ReplyAndQuit(r) => {
            assert!(r.is_success());
            assert_eq!(r.message(), "Daemon stopped.");
        }
        other => panic!("{:?}", other),
    }
}

#[test]
fn pull_and_push_go_to_the_shell() {
    let mut t = fresh();
    match dispatch(&mut t, DCommand::Pull("id".to_string(), "/d/f.txt".to_string(), true)) {
        Step::Pull(u, d, o) => {
            assert_eq!(u, "id");
            assert_eq!(d, "/d/f.txt");
            assert!(o);
        }
        other => panic!("{:?}", other),
    }
    match dispatch(&mut t, DCommand::Push("/d".to_string())) {
        Step::Push(p) => assert_eq!(p, "/d"),
        other => panic!("{:?}", other),
    }
}

#[test]
fn sync_command_tracks_the_path() {
    let mut t = fresh();
    let payload = DCommand::FSync("/tmp".to_string(), "remote".to_string()).to_bytes();
    let r = reply(handle_request(&mut t, &payload));
    assert!(r.is_success());
    assert_eq!(r.message(), "Manual sync added for /tmp -> remote");
    assert!(t.is_tracked("/tmp"));
}

#[test]
fn sync_of_a_missing_path_fails() {
    let mut t = fresh();
    let r = handle_sync(&mut t, "/no/such/file", "remote");
    assert!(!r.is_success());
    assert!(r.message().starts_with("Failed to add manual sync for /no/such/file -> remote: "));
    assert!(t.tracked_files().is_empty());
}

#[test]
fn unsync_command_stops_tracking() {
    let mut t = fresh();
    t.add_path("/tmp", "remote").unwrap();
    let r = reply(dispatch(&mut t, DCommand::FUnSync("/tmp".to_string())));
    assert!(r.is_success());
    assert_eq!(r.message(), "Removed sync for /tmp");
    assert!(t.tracked_files().is_empty());
    let r = handle_unsync(&mut t, "/tmp");
    assert!(r.is_success());
}

#[test]
fn pull_to_existing_file_needs_overwrite() {
    let r = pull_destination_refusal("/a/existing/file.txt", true, false, true, false).unwrap();
    assert!(!r.is_success());
    assert_eq!(
        r.message(),
        "Destination /a/existing/file.txt exists but no overwrite flag specified. Rerun with --overwrite to force destination path overwrite."
    );
    assert!(pull_destination_refusal("/a/existing/file.txt", true, false, true, true).is_none());
    assert!(check_pull_destination("/a/existing/file.txt", true, false, true).is_none());
    assert!(check_pull_destination("/a/existing/file.txt", true, false, false).is_some());
}

#[test]
fn pull_to_missing_directory_is_refused() {
    let r = check_pull_destination("/no/such/dir", false, false, false).unwrap();
    assert!(!r.is_success());
    assert_eq!(r.message(), "Destination /no/such/dir doesn't exist.");
    assert!(check_pull_destination("/no/such/dir", false, false, true).is_some());
}

#[test]
fn pull_to_new_file_or_existing_directory_proceeds() {
    assert!(check_pull_destination("/no/such/new.txt", false, false, false).is_none());
    assert!(check_pull_destination("/tmp", false, true, false).is_none());
    assert!(pull_destination_refusal("/x/dir", false, true, false, false).is_none());
}

#[test]
fn finished_pull_tracks_the_download() {
    let mut t = fresh();
    let r = finish_pull(&mut t, "remote-7", Ok("/tmp".to_string()));
    assert!(r.is_success());
    assert_eq!(r.message(), "Pulled remote-7 successfully.");
    assert!(t.is_tracked("/tmp"));
}

#[test]
fn failed_download_is_reported() {
    let mut t = fresh();
    let r = finish_pull(&mut t, "remote-7", Err("not found".to_string()));
    assert!(!r.is_success());
    assert_eq!(r.message(), "Error downloading remote-7: not found. See log for more information.");
    assert!(t.tracked_files().is_empty());
}

#[test]
fn download_that_cannot_be_watched_is_reported() {
    let mut t = fresh();
    let r = finish_pull(&mut t, "remote-7", Ok("/no/such/file".to_string()));
    assert!(!r.is_success());
    assert!(r.message().starts_with("Downloaded remote-7 to /no/such/file but could not sync it: "));
}

#[test]
fn push_of_missing_path_is_refused() {
    let r = push_not_found("/nope");
    assert!(!r.is_success());
    assert_eq!(r.message(), "Cannot push path: /nope does not exist.");
}

#[test]
fn push_of_single_file_reports_its_id() {
    let mut t = fresh();
    let r = finish_push_file(&mut t, "/tmp", Ok("id-9".to_string()));
    assert!(r.is_success());
    assert_eq!(r.message(), "Uploaded and synced /tmp -> id-9");
    assert!(t.is_tracked("/tmp"));
    let r = finish_push_file(&mut t, "/", Err("quota".to_string()));
    assert_eq!(r.message(), "Failed to upload /: quota");
    assert!(!t.is_tracked("/"));
}

#[test]
fn push_directory_with_one_failed_upload() {
    let mut t = fresh();
    let mut tally = PushTally::new();
    tally.record(&mut t, "/tmp", Ok("id-1".to_string()));
    tally.record(&mut t, "/tmp/../tmp/", Err("upload refused".to_string()));
    tally.record(&mut t, "/", Ok("id-2".to_string()));
    let r = tally.result();
    assert!(!r.is_success());
    assert_eq!(r.message(), "Directory upload status: 2 successes, 1 fails.");
    assert_eq!(t.tracked_files().len(), 2);
}

#[test]
fn push_directory_all_uploaded() {
    let mut t = fresh();
    let mut tally = PushTally::new();
    tally.record(&mut t, "/tmp", Ok("id-1".to_string()));
    let r = tally.result();
    assert!(r.is_success());
    assert_eq!(r.message(), "Directory upload status: 1 successes, 0 fails.");
}

#[test]
fn push_tally_counts_to_two_digits() {
    let mut t = fresh();
    let mut tally = PushTally::new();
    for _ in 0..12 {
        tally.record(&mut t, "/x", Err("e".to_string()));
    }
    assert_eq!(tally.result().message(), "Directory upload status: 0 successes, 12 fails.");
}
