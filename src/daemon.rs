//! The command dispatcher's decisions.
//!
//! A connection carries one payload. `handle_request` decodes it and decides:
//! to stay silent, to reply, to reply and stop, or to hand a pull or a push to
//! the daemon shell, which owns the remote storage client. The shell reports
//! each remote outcome back to a function here, which updates the registry and
//! words the reply.
use vstd::prelude::*;
use crate::protocol::{command_expects_response, command_frame, frame_tag, CommandView, DCommand, DResult, ResultView};
use crate::registry::{all_released, has_path, release_attempts, watches_of, with_entry, without_path, Tracker, TrackedView};
use crate::text::{contains_text, decimal, decimal_text, has_substring};

verus! {

/// Whether `std::path::Path::extension` finds an extension in the path `p`.
pub uninterp spec fn has_extension(p: Seq<char>) -> bool;

/// Relies on `std::path::Path::extension`: whether the last component of `p` has an extension.
#[verifier::external_body]
pub(crate) fn path_has_extension(p: &str) -> (r: bool)
    ensures
        r == has_extension(p@),
{
    std::path::Path::new(p).extension().is_some()
}

/// What the daemon does next for a connection.
#[derive(Debug)]
pub enum Step {
    /// Send nothing back.
    Silent,
    /// Send the result back.
    Reply(DResult),
    /// Send the result back, then stop the daemon.
    ReplyAndQuit(DResult),
    /// Check the destination, then download: remote identifier, destination, overwrite flag.
    Pull(String, String, bool),
    /// Upload the path: a file, or every file under a directory.
    Push(String),
    /// The payload is no command: close the connection.
    Undecodable,
}

/// The reply to a ping.
pub open spec fn pong() -> Seq<char> {
    "pong"@
}

/// The reply to a request to stop.
pub open spec fn stopped_message() -> Seq<char> {
    "Daemon stopped."@
}

/// The reply to a manual sync that took effect.
pub open spec fn sync_added_message(p: Seq<char>, u: Seq<char>) -> Seq<char> {
    "Manual sync added for "@ + p + " -> "@ + u
}

/// The reply to a manual sync whose watch could not be registered, with the OS error `e`.
pub open spec fn sync_failed_message(p: Seq<char>, u: Seq<char>, e: Seq<char>) -> Seq<char> {
    "Failed to add manual sync for "@ + p + " -> "@ + u + ": "@ + e
}

/// The reply to an unsync.
pub open spec fn sync_removed_message(p: Seq<char>) -> Seq<char> {
    "Removed sync for "@ + p
}

/// The reply to an unsync where releasing a watch failed with `e`.
pub open spec fn unsync_failed_message(p: Seq<char>, e: Seq<char>) -> Seq<char> {
    "Error removing sync for "@ + p + ": "@ + e
}

/// The refusal of a pull onto an existing file without the overwrite flag.
pub open spec fn destination_exists_message(d: Seq<char>) -> Seq<char> {
    "Destination "@ + d
        + " exists but no overwrite flag specified. Rerun with --overwrite to force destination path overwrite."@
}

/// The refusal of a pull to a destination that is neither a file path nor a directory.
pub open spec fn destination_missing_message(d: Seq<char>) -> Seq<char> {
    "Destination "@ + d + " doesn't exist."@
}

/// The reply to a pull whose download is tracked.
pub open spec fn pulled_message(u: Seq<char>) -> Seq<char> {
    "Pulled "@ + u + " successfully."@
}

/// The reply to a pull whose download could not be watched, with the OS error `e`.
pub open spec fn pull_track_failed_message(p: Seq<char>, u: Seq<char>, e: Seq<char>) -> Seq<char> {
    "Downloaded "@ + u + " to "@ + p + " but could not sync it: "@ + e
}

/// The reply to a pull whose download failed with `e`.
pub open spec fn download_failed_message(u: Seq<char>, e: Seq<char>) -> Seq<char> {
    "Error downloading "@ + u + ": "@ + e + ". See log for more information."@
}

/// The reply to a push of a path that does not exist.
pub open spec fn push_missing_message(p: Seq<char>) -> Seq<char> {
    "Cannot push path: "@ + p + " does not exist."@
}

/// The reply to a push of one file, uploaded as `u` and tracked.
pub open spec fn pushed_message(p: Seq<char>, u: Seq<char>) -> Seq<char> {
    "Uploaded and synced "@ + p + " -> "@ + u
}

/// The reply to a push of one file that was uploaded but could not be watched.
pub open spec fn push_track_failed_message(p: Seq<char>, e: Seq<char>) -> Seq<char> {
    "Error uploading and syncing "@ + p + ": "@ + e
}

/// The reply to a push of one file whose upload failed with `e`.
pub open spec fn upload_failed_message(p: Seq<char>, e: Seq<char>) -> Seq<char> {
    "Failed to upload "@ + p + ": "@ + e
}

/// The summary of a directory push with `s` successes and `f` failures.
pub open spec fn push_summary_message(s: nat, f: nat) -> Seq<char> {
    "Directory upload status: "@ + decimal(s) + " successes, "@ + decimal(f) + " fails."@
}

/// The two strings one after the other.
fn cat2(a: &str, b: &str) -> (r: String)
    ensures
        r@ == a@ + b@,
{
    let mut s = a.to_owned();
    s.append(b);
    s
}

/// The three strings one after the other.
fn cat3(a: &str, b: &str, c: &str) -> (r: String)
    ensures
        r@ == a@ + b@ + c@,
{
    let mut s = cat2(a, b);
    s.append(c);
    s
}

/// The four strings one after the other.
fn cat4(a: &str, b: &str, c: &str, d: &str) -> (r: String)
    ensures
        r@ == a@ + b@ + c@ + d@,
{
    let mut s = cat3(a, b, c);
    s.append(d);
    s
}

/// The six strings one after the other.
fn cat6(a: &str, b: &str, c: &str, d: &str, e: &str, f: &str) -> (r: String)
    ensures
        r@ == a@ + b@ + c@ + d@ + e@ + f@,
{
    let mut s = cat4(a, b, c, d);
    s.append(e);
    s.append(f);
    s
}

/// What a manual sync of `p` to `u` may lead to, from registry `before` to `after`, with reply
/// `d`: success, with the entry added or already there; or failure to register a watch, with
/// the registry unchanged.
pub open spec fn sync_outcome(
    before: Seq<TrackedView>,
    after: Seq<TrackedView>,
    p: Seq<char>,
    u: Seq<char>,
    d: ResultView,
) -> bool {
    &&& has_path(before, p) ==> after == before && d == ResultView::Success(sync_added_message(p, u))
    &&& match d {
        ResultView::Success(m) => m == sync_added_message(p, u) && exists|h: i32|
            after == with_entry(before, p, u, h),
        ResultView::Failure(m) => after == before && !has_path(before, p) && exists|e: Seq<char>|
            m == sync_failed_message(p, u, e),
    }
}

/// What an unsync of `p` leads to: the path is no longer tracked, and the reply is a success
/// unless releasing one of its watches failed.
pub open spec fn unsync_outcome(
    before: Seq<TrackedView>,
    after: Seq<TrackedView>,
    p: Seq<char>,
    d: ResultView,
) -> bool {
    &&& after == without_path(before, p)
    &&& match d {
        ResultView::Success(m) => m == sync_removed_message(p),
        ResultView::Failure(m) => watches_of(before, p).len() > 0 && exists|e: Seq<char>|
            m == unsync_failed_message(p, e),
    }
    &&& watches_of(before, p).len() == 0 ==> d == ResultView::Success(sync_removed_message(p))
}

/// Binds `path` to `url` in the registry without transferring anything.
pub fn handle_sync(tracker: &mut Tracker, path: &str, url: &str) -> (r: DResult)
    requires
        old(tracker).wf(),
    ensures
        final(tracker).wf(),
        final(tracker).storage_path_spec() == old(tracker).storage_path_spec(),
        sync_outcome(old(tracker)@, final(tracker)@, path@, url@, r@),
{
    match tracker.add_path(path, url) {
        Ok(()) => DResult::Success(cat4("Manual sync added for ", path, " -> ", url)),
        Err(e) => {
            let m = cat6("Failed to add manual sync for ", path, " -> ", url, ": ", e.as_str());
            assert(m@ == sync_failed_message(path@, url@, e@));
            DResult::Failure(m)
        },
    }
}

/// Stops tracking `path`.
pub fn handle_unsync(tracker: &mut Tracker, path: &str) -> (r: DResult)
    requires
        old(tracker).wf(),
    ensures
        final(tracker).wf(),
        final(tracker).storage_path_spec() == old(tracker).storage_path_spec(),
        unsync_outcome(old(tracker)@, final(tracker)@, path@, r@),
        release_attempts(
            final(tracker).watch_log().subrange(
                old(tracker).watch_log().len() as int,
                final(tracker).watch_log().len() as int,
            ),
            watches_of(old(tracker)@, path@),
        ),
        r@ is Success <==> all_released(
            final(tracker).watch_log().subrange(
                old(tracker).watch_log().len() as int,
                final(tracker).watch_log().len() as int,
            ),
        ),
{
    match tracker.remove_path(path) {
        Ok(()) => DResult::Success(cat2("Removed sync for ", path)),
        Err(e) => {
            let m = cat4("Error removing sync for ", path, ": ", e.as_str());
            assert(m@ == unsync_failed_message(path@, e@));
            DResult::Failure(m)
        },
    }
}

/// The refusal that a pull to `dest` meets, if any, given what the file system says of it:
/// an existing file is replaced only with `overwrite`; a destination that is no file, has no
/// extension and is no directory is refused as missing.
pub open spec fn pull_refusal(dest: Seq<char>, is_file: bool, is_dir: bool, has_ext: bool, overwrite: bool) -> Option<ResultView> {
    if is_file {
        if overwrite {
            None
        } else {
            Some(ResultView::Failure(destination_exists_message(dest)))
        }
    } else if !has_ext && !is_dir {
        Some(ResultView::Failure(destination_missing_message(dest)))
    } else {
        None
    }
}

/// The refusal that a pull to `dest` meets, if any, where `has_ext` says whether `dest` has an
/// extension.
pub fn pull_destination_refusal(dest: &str, is_file: bool, is_dir: bool, has_ext: bool, overwrite: bool) -> (r: Option<DResult>)
    ensures
        match pull_refusal(dest@, is_file, is_dir, has_ext, overwrite) {
            None => r is None,
            Some(v) => r is Some && r.unwrap()@ == v,
        },
{
    if is_file {
        if overwrite {
            None
        } else {
            Some(DResult::Failure(cat3("Destination ", dest,
                " exists but no overwrite flag specified. Rerun with --overwrite to force destination path overwrite.")))
        }
    } else if !has_ext && !is_dir {
        Some(DResult::Failure(cat3("Destination ", dest, " doesn't exist.")))
    } else {
        None
    }
}

/// The refusal that a pull to `dest` meets, if any, given whether `dest` is an existing file
/// and whether it is an existing directory. `None` means the download may go ahead.
pub fn check_pull_destination(dest: &str, is_file: bool, is_dir: bool, overwrite: bool) -> (r: Option<DResult>)
    ensures
        match pull_refusal(dest@, is_file, is_dir, has_extension(dest@), overwrite) {
            None => r is None,
            Some(v) => r is Some && r.unwrap()@ == v,
        },
{
    let has_ext = path_has_extension(dest);
    pull_destination_refusal(dest, is_file, is_dir, has_ext, overwrite)
}

/// The reply to a pull of `url`, given the outcome of the download: the local path written, or
/// the client's error. A downloaded path is tracked as bound to `url`.
pub fn finish_pull(tracker: &mut Tracker, url: &str, downloaded: Result<String, String>) -> (r: DResult)
    requires
        old(tracker).wf(),
    ensures
        final(tracker).wf(),
        final(tracker).storage_path_spec() == old(tracker).storage_path_spec(),
        downloaded matches Err(e) ==> final(tracker)@ == old(tracker)@ && r@ == ResultView::Failure(
            download_failed_message(url@, e@),
        ),
        downloaded matches Ok(p) ==> match r@ {
            ResultView::Success(m) => m == pulled_message(url@) && exists|h: i32|
                final(tracker)@ == with_entry(old(tracker)@, p@, url@, h),
            ResultView::Failure(m) => final(tracker)@ == old(tracker)@ && !has_path(old(tracker)@, p@)
                && exists|e: Seq<char>| m == pull_track_failed_message(p@, url@, e),
        },
        downloaded matches Ok(p) && has_path(old(tracker)@, p@) ==> final(tracker)@ == old(tracker)@
            && r@ == ResultView::Success(pulled_message(url@)),
{
    match downloaded {
        Ok(p) => match tracker.add_path(p.as_str(), url) {
            Ok(()) => DResult::Success(cat3("Pulled ", url, " successfully.")),
            Err(e) => {
                let m = cat6("Downloaded ", url, " to ", p.as_str(), " but could not sync it: ", e.as_str());
                assert(m@ == pull_track_failed_message(p@, url@, e@));
                DResult::Failure(m)
            },
        },
        Err(e) => DResult::Failure(cat4("Error downloading ", url, ": ", e.as_str()).concat(". See log for more information.")),
    }
}

/// The reply to a push of a path that does not exist.
pub fn push_not_found(path: &str) -> (r: DResult)
    ensures
        r@ == ResultView::Failure(push_missing_message(path@)),
{
    DResult::Failure(cat3("Cannot push path: ", path, " does not exist."))
}

/// The reply to a push of the single file `path`, given the outcome of the upload: the remote
/// identifier, or the client's error. An uploaded file is tracked as bound to its identifier.
pub fn finish_push_file(tracker: &mut Tracker, path: &str, uploaded: Result<String, String>) -> (r: DResult)
    requires
        old(tracker).wf(),
    ensures
        final(tracker).wf(),
        final(tracker).storage_path_spec() == old(tracker).storage_path_spec(),
        uploaded matches Err(e) ==> final(tracker)@ == old(tracker)@ && r@ == ResultView::Failure(
            upload_failed_message(path@, e@),
        ),
        uploaded matches Ok(u) ==> match r@ {
            ResultView::Success(m) => m == pushed_message(path@, u@) && exists|h: i32|
                final(tracker)@ == with_entry(old(tracker)@, path@, u@, h),
            ResultView::Failure(m) => final(tracker)@ == old(tracker)@ && !has_path(old(tracker)@, path@)
                && exists|e: Seq<char>| m == push_track_failed_message(path@, e),
        },
{
    match uploaded {
        Ok(u) => match tracker.add_path(path, u.as_str()) {
            Ok(()) => DResult::Success(cat4("Uploaded and synced ", path, " -> ", u.as_str())),
            Err(e) => {
                let m = cat4("Error uploading and syncing ", path, ": ", e.as_str());
                assert(m@ == push_track_failed_message(path@, e@));
                DResult::Failure(m)
            },
        },
        Err(e) => DResult::Failure(cat4("Failed to upload ", path, ": ", e.as_str())),
    }
}

/// The running count of a directory push: files uploaded and tracked, and files that failed.
#[derive(Debug)]
pub struct PushTally {
    pub successes: u64,
    pub failures: u64,
}

impl PushTally {
    /// A tally with nothing counted.
    pub fn new() -> (r: PushTally)
        ensures
            r.successes == 0 && r.failures == 0,
    {
        PushTally { successes: 0, failures: 0 }
    }

    /// Counts the file `path` of a directory push, given the outcome of its upload: an uploaded
    /// file that the registry then tracks is a success, anything else a failure.
    pub fn record(&mut self, tracker: &mut Tracker, path: &str, uploaded: Result<String, String>)
        requires
            old(tracker).wf(),
            old(self).successes + old(self).failures < u64::MAX,
        ensures
            final(tracker).wf(),
            final(tracker).storage_path_spec() == old(tracker).storage_path_spec(),
            final(self).successes + final(self).failures == old(self).successes + old(self).failures + 1,
            uploaded is Err ==> final(self).failures == old(self).failures + 1 && final(tracker)@ == old(tracker)@,
            uploaded matches Ok(u) ==> if final(self).successes == old(self).successes + 1 {
                exists|h: i32| final(tracker)@ == with_entry(old(tracker)@, path@, u@, h)
            } else {
                final(self).failures == old(self).failures + 1 && final(tracker)@ == old(tracker)@
                    && !has_path(old(tracker)@, path@)
            },
            uploaded is Ok && has_path(old(tracker)@, path@) ==> final(self).successes == old(self).successes + 1
                && final(tracker)@ == old(tracker)@,
    {
        match uploaded {
            Ok(u) => match tracker.add_path(path, u.as_str()) {
                Ok(()) => {
                    self.successes = self.successes + 1;
                },
                Err(_) => {
                    self.failures = self.failures + 1;
                },
            },
            Err(_) => {
                self.failures = self.failures + 1;
            },
        }
    }

    /// The reply to the whole push: the counts, as a failure where any file failed.
    pub fn result(&self) -> (r: DResult)
        ensures
            self.failures > 0 ==> r@ == ResultView::Failure(
                push_summary_message(self.successes as nat, self.failures as nat),
            ),
            self.failures == 0 ==> r@ == ResultView::Success(
                push_summary_message(self.successes as nat, self.failures as nat),
            ),
    {
        let s = decimal_text(self.successes);
        let f = decimal_text(self.failures);
        let mut m = cat4("Directory upload status: ", s.as_str(), " successes, ", f.as_str());
        m.append(" fails.");
        assert(m@ =~= push_summary_message(self.successes as nat, self.failures as nat));
        if self.failures > 0 {
            DResult::Failure(m)
        } else {
            DResult::Success(m)
        }
    }
}

/// Whether `r` is the step for command `c` in registry `before`, now `after`: a ping is answered
/// with "pong" and other messages get no reply; the empty command and an acknowledgement get
/// none either; a request to stop is answered and stops the daemon; a pull or a push goes to
/// the shell unchanged; a sync or an unsync acts on the registry and replies. Only a sync or an
/// unsync changes the registry.
pub open spec fn dispatched(c: CommandView, r: Step, before: Seq<TrackedView>, after: Seq<TrackedView>) -> bool {
    match c {
        CommandView::Message(m) => after == before && if has_substring(m, "ping"@) {
            r matches Step::Reply(d) && d@ == ResultView::Success(pong())
        } else {
            r is Silent
        },
        CommandView::Empty => after == before && r is Silent,
        CommandView::Ack => after == before && r is Silent,
        CommandView::Quit => after == before && (r matches Step::ReplyAndQuit(d) && d@
            == ResultView::Success(stopped_message())),
        CommandView::Pull(u, p, o) => after == before && (r matches Step::Pull(u2, p2, o2) && u2@
            == u && p2@ == p && o2 == o),
        CommandView::Push(p) => after == before && (r matches Step::Push(p2) && p2@ == p),
        CommandView::FSync(p, u) => r matches Step::Reply(d) && sync_outcome(before, after, p, u, d@),
        CommandView::FUnSync(p) => r matches Step::Reply(d) && unsync_outcome(before, after, p, d@),
    }
}

/// Decides what to do with a decoded command, carrying out a sync or an unsync at once.
pub fn dispatch(tracker: &mut Tracker, cmd: DCommand) -> (r: Step)
    requires
        old(tracker).wf(),
    ensures
        final(tracker).wf(),
        final(tracker).storage_path_spec() == old(tracker).storage_path_spec(),
        dispatched(cmd@, r, old(tracker)@, final(tracker)@),
{
    match cmd {
        DCommand::Message(m) => {
            if contains_text(m.as_str(), "ping") {
                Step::Reply(DResult::ok("pong"))
            } else {
                Step::Silent
            }
        },
        DCommand::Empty => Step::Silent,
        DCommand::Ack => Step::Silent,
        DCommand::Quit => Step::ReplyAndQuit(DResult::ok("Daemon stopped.")),
        DCommand::Pull(u, p, o) => Step::Pull(u, p, o),
        DCommand::Push(p) => Step::Push(p),
        DCommand::FSync(p, u) => Step::Reply(handle_sync(tracker, p.as_str(), u.as_str())),
        DCommand::FUnSync(p) => Step::Reply(handle_unsync(tracker, p.as_str())),
    }
}

/// Decides what to do with the payload of one connection. An empty payload is the empty
/// command: nothing is done and nothing is sent. A payload that is no command's frame and does
/// not decode is `Undecodable`, with nothing done.
pub fn handle_request(tracker: &mut Tracker, payload: &[u8]) -> (r: Step)
    requires
        old(tracker).wf(),
    ensures
        final(tracker).wf(),
        final(tracker).storage_path_spec() == old(tracker).storage_path_spec(),
        payload@.len() == 0 ==> r is Silent && final(tracker)@ == old(tracker)@,
        forall|c: CommandView| #[trigger] command_frame(c) == payload@ ==> dispatched(
            c,
            r,
            old(tracker)@,
            final(tracker)@,
        ),
        0 < payload@.len() < 4 ==> r is Undecodable && final(tracker)@ == old(tracker)@,
        payload@.len() >= 4 && frame_tag(payload@) > 7 ==> r is Undecodable && final(tracker)@
            == old(tracker)@,
        r is Undecodable ==> final(tracker)@ == old(tracker)@,
{
    match DCommand::from_bytes(payload) {
        Some(cmd) => dispatch(tracker, cmd),
        None => Step::Undecodable,
    }
}

/// The daemon stays silent on exactly the commands that expect no response, so a client that
/// waits for a reply gets one and a client that sends and leaves is never answered.
pub proof fn lemma_reply_iff_expected(c: CommandView, r: Step, before: Seq<TrackedView>, after: Seq<TrackedView>)
    requires
        dispatched(c, r, before, after),
    ensures
        r is Silent <==> !command_expects_response(c),
        !(r is Undecodable),
{
}

} // verus!
