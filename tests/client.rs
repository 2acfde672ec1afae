use rgdrive::client::{pull_request, pull_request_checked, push_request, sync_request, sync_request_checked, unsync_request};
use rgdrive::protocol::DCommand;

#[test]
fn push_request_needs_an_existing_path() {
    assert!(matches!(push_request("/a", true), Ok(DCommand::Push(p)) if p == "/a"));
    assert_eq!(push_request("/a", false).unwrap_err(), "/a doesn't exist. Please check your path and try again.");
}

#[test]
fn unsync_request_needs_an_existing_path() {
    assert!(matches!(unsync_request("/a", true), Ok(DCommand::FUnSync(p)) if p == "/a"));
    assert!(unsync_request("/a", false).is_err());
}

#[test]
fn sync_request_checks_path_then_url() {
    assert_eq!(sync_request("/a", true, "not a url").unwrap_err(), "Invalid url: not a url");
    assert!(sync_request("/a", false, "not a url").unwrap_err().starts_with("/a doesn't exist"));
    match sync_request("/a", true, "https://drive.example/file/1") {
        Ok(DCommand::FSync(p, u)) => {
            assert_eq!(p, "/a");
            assert_eq!(u, "https://drive.example/file/1");
        }
        other => panic!("{:?}", other),
    }
    assert!(sync_request_checked("/a", true, "x", true).is_ok());
}

#[test]
fn pull_request_checks_url_then_destination() {
    assert_eq!(pull_request("nope", "/tmp", false, true, false).unwrap_err(), "Invalid url: nope");
    assert!(pull_request("https://d/1", "/no/such/dir", false, false, false).unwrap_err().contains("doesn't exist"));
    assert!(pull_request("https://d/1", "/a/f.txt", true, false, false).unwrap_err().contains("overwrite"));
    match pull_request("https://d/1", "/a/f.txt", true, false, true) {
        Ok(DCommand::Pull(u, d, o)) => {
            assert_eq!(u, "https://d/1");
            assert_eq!(d, "/a/f.txt");
            assert!(o);
        }
        other => panic!("{:?}", other),
    }
    assert!(pull_request_checked("u", false, "/a", false, true, false, false).is_err());
    assert!(pull_request_checked("u", true, "/a", false, true, false, false).is_ok());
}
