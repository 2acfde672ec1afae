//! The client's checks before it sends a request: the local path must exist,
//! a remote identifier must be a URL, and a pull destination must pass the
//! same test that the daemon applies.
use vstd::prelude::*;
use crate::daemon::{has_extension, path_has_extension, pull_destination_refusal, pull_refusal};
use crate::protocol::{CommandView, DCommand, ResultView};

verus! {

/// Whether `url::Url::parse` accepts `s`.
pub uninterp spec fn parses_as_url(s: Seq<char>) -> bool;

/// Relies on `url::Url::parse`: whether `s` parses as an absolute URL.
#[verifier::external_body]
fn url_parses(s: &str) -> (r: bool)
    ensures
        r == parses_as_url(s@),
{
    url::Url::parse(s).is_ok()
}

/// The refusal of a request whose remote identifier is not a URL.
pub open spec fn invalid_url_message(u: Seq<char>) -> Seq<char> {
    "Invalid url: "@ + u
}

/// The refusal of a request for a local path that does not exist.
pub open spec fn missing_path_message(p: Seq<char>) -> Seq<char> {
    p + " doesn't exist. Please check your path and try again."@
}

/// The outcome of a client check: the command to send, or the message that refuses it.
pub open spec fn request_is(r: Result<DCommand, String>, c: Option<CommandView>, refusal: Seq<char>) -> bool {
    match c {
        Some(c) => r is Ok && r.unwrap()@ == c,
        None => r is Err && r.unwrap_err()@ == refusal,
    }
}

/// A message refusing a request, from its parts.
fn refusal_text(a: &str, b: &str) -> (r: String)
    ensures
        r@ == a@ + b@,
{
    let mut s = a.to_owned();
    s.append(b);
    s
}

/// The request to push `path`, refused where the path does not exist.
pub fn push_request(path: &str, exists: bool) -> (r: Result<DCommand, String>)
    ensures
        request_is(
            r,
            if exists {
                Some(CommandView::Push(path@))
            } else {
                None
            },
            missing_path_message(path@),
        ),
{
    if exists {
        Ok(DCommand::Push(path.to_owned()))
    } else {
        Err(refusal_text(path, " doesn't exist. Please check your path and try again."))
    }
}

/// The request to stop syncing `path`, refused where the path does not exist.
pub fn unsync_request(path: &str, exists: bool) -> (r: Result<DCommand, String>)
    ensures
        request_is(
            r,
            if exists {
                Some(CommandView::FUnSync(path@))
            } else {
                None
            },
            missing_path_message(path@),
        ),
{
    if exists {
        Ok(DCommand::FUnSync(path.to_owned()))
    } else {
        Err(refusal_text(path, " doesn't exist. Please check your path and try again."))
    }
}

/// The request to bind `path` to `url`, where `url_valid` says whether `url` is a URL: refused
/// where the path does not exist, then where the URL is not valid.
pub fn sync_request_checked(path: &str, exists: bool, url: &str, url_valid: bool) -> (r: Result<DCommand, String>)
    ensures
        !exists ==> request_is(r, None, missing_path_message(path@)),
        exists && !url_valid ==> request_is(r, None, invalid_url_message(url@)),
        exists && url_valid ==> request_is(r, Some(CommandView::FSync(path@, url@)), Seq::empty()),
{
    if !exists {
        Err(refusal_text(path, " doesn't exist. Please check your path and try again."))
    } else if !url_valid {
        Err(refusal_text("Invalid url: ", url))
    } else {
        Ok(DCommand::FSync(path.to_owned(), url.to_owned()))
    }
}

/// The request to bind `path` to `url`: refused where the path does not exist, then where
/// `url` does not parse as a URL.
pub fn sync_request(path: &str, exists: bool, url: &str) -> (r: Result<DCommand, String>)
    ensures
        !exists ==> request_is(r, None, missing_path_message(path@)),
        exists && !parses_as_url(url@) ==> request_is(r, None, invalid_url_message(url@)),
        exists && parses_as_url(url@) ==> request_is(
            r,
            Some(CommandView::FSync(path@, url@)),
            Seq::empty(),
        ),
{
    let url_valid = url_parses(url);
    sync_request_checked(path, exists, url, url_valid)
}

/// The request to pull `url` to `dest`, where `url_valid` says whether `url` is a URL and
/// `has_ext` whether `dest` has an extension: refused where the URL is not valid, then where
/// the destination is refused as the daemon would refuse it.
pub fn pull_request_checked(
    url: &str,
    url_valid: bool,
    dest: &str,
    is_file: bool,
    is_dir: bool,
    has_ext: bool,
    overwrite: bool,
) -> (r: Result<DCommand, String>)
    ensures
        !url_valid ==> request_is(r, None, invalid_url_message(url@)),
        url_valid ==> match pull_refusal(dest@, is_file, is_dir, has_ext, overwrite) {
            Some(ResultView::Failure(m)) => request_is(r, None, m),
            _ => request_is(r, Some(CommandView::Pull(url@, dest@, overwrite)), Seq::empty()),
        },
{
    if !url_valid {
        return Err(refusal_text("Invalid url: ", url));
    }
    match pull_destination_refusal(dest, is_file, is_dir, has_ext, overwrite) {
        Some(refusal) => {
            let m = refusal.message().clone();
            Err(m)
        },
        None => Ok(DCommand::Pull(url.to_owned(), dest.to_owned(), overwrite)),
    }
}

/// The request to pull `url` to `dest`, given whether `dest` is an existing file and whether it
/// is an existing directory: refused where `url` does not parse as a URL, then where the
/// destination is refused as the daemon would refuse it.
pub fn pull_request(url: &str, dest: &str, is_file: bool, is_dir: bool, overwrite: bool) -> (r: Result<DCommand, String>)
    ensures
        !parses_as_url(url@) ==> request_is(r, None, invalid_url_message(url@)),
        parses_as_url(url@) ==> match pull_refusal(dest@, is_file, is_dir, has_extension(dest@), overwrite) {
            Some(ResultView::Failure(m)) => request_is(r, None, m),
            _ => request_is(r, Some(CommandView::Pull(url@, dest@, overwrite)), Seq::empty()),
        },
{
    let url_valid = url_parses(url);
    let has_ext = path_has_extension(dest);
    pull_request_checked(url, url_valid, dest, is_file, is_dir, has_ext, overwrite)
}

} // verus!
