//! The registry of tracked paths: which local path is bound to which remote
//! identifier, and the live watch that reports changes to it.
//!
//! Watches come from an inotify instance that the registry owns. They do not
//! survive the process, so the durable form of the registry holds only the
//! (remote identifier, local path) pairs, and loading registers every watch
//! anew.
use vstd::prelude::*;
use inotify::{Inotify, WatchDescriptor, WatchMask};
use crate::codec::{bincode_pair_list, bincode_pair_list_decoded, decode_pair_list, encode_pair_list};
use crate::watcher::{classify, holders_of, updates_for_event, updates_for_events, EventKind, WatchEvent};

verus! {

/// inotify's instance, held opaque: the registry only passes it to the wrappers below.
#[verifier::external_type_specification]
#[verifier::external_body]
pub struct ExInotify(Inotify);

/// inotify's watch descriptor, held opaque: it is only handed back to release the watch.
#[verifier::external_type_specification]
#[verifier::external_body]
pub struct ExWatchDescriptor(WatchDescriptor);

/// inotify's bit for a modification of the watched file.
pub const IN_MODIFY: u32 = 0x0000_0002;

/// inotify's bit for the deletion of the watched file itself.
pub const IN_DELETE_SELF: u32 = 0x0000_0400;

/// inotify's bit for a move of the watched file itself.
pub const IN_MOVE_SELF: u32 = 0x0000_0800;

/// The events that every tracked path is watched for.
pub const WATCHED_EVENTS: u32 = IN_MODIFY | IN_DELETE_SELF | IN_MOVE_SELF;

/// A live watch: the descriptor that releases it, and the number that its events carry.
#[derive(Debug)]
pub struct WatchHandle {
    id: i32,
    descriptor: WatchDescriptor,
}

impl View for WatchHandle {
    type V = i32;

    closed spec fn view(&self) -> i32 {
        self.id
    }
}

impl WatchHandle {
    /// The number that the events of this watch carry.
    pub fn id(&self) -> (r: i32)
        ensures
            r == self@,
    {
        self.id
    }
}

/// Relies on `Inotify::init`: opens a fresh inotify instance, or reports the OS error.
#[verifier::external_body]
fn open_inotify() -> (r: Result<Inotify, String>) {
    Inotify::init().map_err(|e| e.to_string())
}

/// Relies on inotify's `Watches::add`: asks the kernel to watch `path` for the events in
/// `mask`, or reports the OS error. Whether it succeeds depends on the file system.
#[verifier::external_body]
fn register_watch(ino: &Inotify, path: &str, mask: u32) -> (r: Result<WatchHandle, String>) {
    ino.watches().add(path, WatchMask::from_bits_truncate(mask)).map(
        |wd| WatchHandle { id: wd.get_watch_descriptor_id(), descriptor: wd },
    ).map_err(|e| e.to_string())
}

/// Relies on inotify's `Watches::remove`: asks the kernel to drop the watch, or reports the
/// OS error.
#[verifier::external_body]
fn release_watch(ino: &Inotify, h: WatchHandle) -> (r: Result<(), String>) {
    ino.watches().remove(h.descriptor).map_err(|e| e.to_string())
}

/// Why no events were read.
enum ReadFailure {
    /// No event is queued (the OS's `WouldBlock`).
    NothingQueued,
    /// Any other OS error, as its text.
    Os(String),
}

/// Relies on `Inotify::read_events`: the events queued since the last read, read into `buffer`,
/// each as the number of its watch and its mask bits; or the OS error.
#[verifier::external_body]
fn read_watch_events(ino: &mut Inotify, buffer: &mut Vec<u8>) -> (r: Result<Vec<WatchEvent>, ReadFailure>) {
    ino.read_events(buffer.as_mut_slice()).map(
        |events| events.map(|e| WatchEvent { wd: e.wd.get_watch_descriptor_id(), mask: e.mask.bits() }).collect(),
    ).map_err(|e| match e.kind() {
        std::io::ErrorKind::WouldBlock => ReadFailure::NothingQueued,
        _ => ReadFailure::Os(e.to_string()),
    })
}

/// One tracked path: the remote identifier it is bound to and, while the daemon runs, its
/// watch.
#[derive(Debug)]
pub struct TrackedFile {
    pub drive_url: String,
    pub path: String,
    pub wd: Option<WatchHandle>,
}

/// What a `TrackedFile` says: its path, its remote identifier and the number of its watch.
pub struct TrackedView {
    pub path: Seq<char>,
    pub drive_url: Seq<char>,
    pub wd: Option<i32>,
}

impl View for TrackedFile {
    type V = TrackedView;

    open spec fn view(&self) -> TrackedView {
        TrackedView {
            path: self.path@,
            drive_url: self.drive_url@,
            wd: match self.wd {
                Some(h) => Some(h@),
                None => None,
            },
        }
    }
}

/// The views of a list of tracked files.
pub open spec fn files_view(v: Seq<TrackedFile>) -> Seq<TrackedView> {
    v.map_values(|f: TrackedFile| f@)
}

/// Whether some entry tracks `p`.
pub open spec fn has_path(s: Seq<TrackedView>, p: Seq<char>) -> bool {
    exists|i: int| 0 <= i < s.len() && #[trigger] s[i].path == p
}

/// No two entries track the same path.
pub open spec fn paths_unique(s: Seq<TrackedView>) -> bool {
    forall|i: int, j: int|
        0 <= i < s.len() && 0 <= j < s.len() && #[trigger] s[i].path == #[trigger] s[j].path
            ==> i == j
}

/// How many entries track `p`.
pub open spec fn count_path(s: Seq<TrackedView>, p: Seq<char>) -> nat
    decreases s.len(),
{
    if s.len() == 0 {
        0
    } else {
        count_path(s.drop_last(), p) + if s.last().path == p {
            1nat
        } else {
            0nat
        }
    }
}

/// The registry after adding `p` bound to `u` with watch `h`: unchanged where `p` is already
/// tracked, else with the new entry last.
pub open spec fn with_entry(s: Seq<TrackedView>, p: Seq<char>, u: Seq<char>, h: i32) -> Seq<
    TrackedView,
> {
    if has_path(s, p) {
        s
    } else {
        s.push(TrackedView { path: p, drive_url: u, wd: Some(h) })
    }
}

/// The registry without the entries that track `p`, the others kept in order.
pub open spec fn without_path(s: Seq<TrackedView>, p: Seq<char>) -> Seq<TrackedView>
    decreases s.len(),
{
    if s.len() == 0 {
        s
    } else if s.last().path == p {
        without_path(s.drop_last(), p)
    } else {
        without_path(s.drop_last(), p).push(s.last())
    }
}

/// The watches of the entries that track `p`, in order.
pub open spec fn watches_of(s: Seq<TrackedView>, p: Seq<char>) -> Seq<i32>
    decreases s.len(),
{
    if s.len() == 0 {
        Seq::empty()
    } else if s.last().path == p && s.last().wd is Some {
        watches_of(s.drop_last(), p).push(s.last().wd->Some_0)
    } else {
        watches_of(s.drop_last(), p)
    }
}

/// The durable form of the registry: each entry's (remote identifier, local path), in order.
pub open spec fn stored_pairs(s: Seq<TrackedView>) -> Seq<(Seq<char>, Seq<char>)> {
    s.map_values(|e: TrackedView| (e.drive_url, e.path))
}

/// The bytes of the registry file for the entries `s`.
pub open spec fn stored_bytes(s: Seq<TrackedView>) -> Seq<u8> {
    bincode_pair_list(stored_pairs(s))
}

impl TrackedFile {
    /// Reads the entries of a registry file, none of them watched: the pairs that bincode
    /// decodes from `b`, in order, or none where it decodes nothing. The bytes that the
    /// registry writes for any list of entries give back the same pairs.
    pub fn from_bytes(b: &[u8]) -> (r: Vec<TrackedFile>)
        ensures
            bincode_pair_list_decoded(b@) matches Some(v) ==> stored_pairs(files_view(r@)) == v,
            bincode_pair_list_decoded(b@) is None ==> r@.len() == 0,
            forall|v: Seq<(Seq<char>, Seq<char>)>| #[trigger] bincode_pair_list(v) == b@
                ==> stored_pairs(files_view(r@)) == v,
            forall|i: int| 0 <= i < r@.len() ==> (#[trigger] r@[i]).wd is None,
    {
        let pairs = match decode_pair_list(b) {
            Some(v) => v,
            None => Vec::new(),
        };
        let mut out: Vec<TrackedFile> = Vec::new();
        let mut i: usize = 0;
        while i < pairs.len()
            invariant
                i <= pairs@.len(),
                out@.len() == i,
                stored_pairs(files_view(out@)) == pairs.deep_view().subrange(0, i as int),
                forall|k: int| 0 <= k < out@.len() ==> (#[trigger] out@[k]).wd is None,
            decreases pairs@.len() - i,
        {
            let (u, p) = &pairs[i];
            assert(pairs.deep_view()[i as int] == (u@, p@));
            let ghost before = out@;
            out.push(TrackedFile { drive_url: u.clone(), path: p.clone(), wd: None });
            assert(files_view(out@) =~= files_view(before).push(out@[i as int]@));
            assert(stored_pairs(files_view(out@)) =~= pairs.deep_view().subrange(0, i + 1));
            i = i + 1;
        }
        assert(pairs.deep_view().subrange(0, i as int) =~= pairs.deep_view());
        out
    }
}

/// One call that the registry made on the watch subsystem, with its outcome.
pub enum WatchOp {
    /// Registration of a watch for a path: the number of the new watch, or `None` where it
    /// failed.
    Register(Seq<char>, Option<i32>),
    /// Release of a watch: whether it succeeded.
    Release(i32, bool),
}

/// The registry after a registration for the untracked path `p` bound to `u` had outcome `o`.
pub open spec fn register_step(s: Seq<TrackedView>, p: Seq<char>, u: Seq<char>, o: Option<i32>) -> Seq<TrackedView> {
    match o {
        Some(h) => s.push(TrackedView { path: p, drive_url: u, wd: Some(h) }),
        None => s,
    }
}

/// Loading the entries `stored` in order against the registrations in `log`: an entry whose
/// path is already loaded is skipped; any other takes the next registration of the log, which
/// must be for its path, and is kept with that watch where it succeeded. The result is the
/// entries, how many registrations were taken, and whether the log fits.
pub open spec fn replay(stored: Seq<TrackedView>, log: Seq<WatchOp>) -> (Seq<TrackedView>, int, bool)
    decreases stored.len(),
{
    if stored.len() == 0 {
        (Seq::empty(), 0, true)
    } else {
        let prev = replay(stored.drop_last(), log);
        let e = stored.last();
        if has_path(prev.0, e.path) {
            prev
        } else if 0 <= prev.1 < log.len() && log[prev.1] is Register && log[prev.1]->Register_0
            == e.path {
            (register_step(prev.0, e.path, e.drive_url, log[prev.1]->Register_1), prev.1 + 1, prev.2)
        } else {
            (prev.0, prev.1 + 1, false)
        }
    }
}

/// `ops` are releases of the watches `ids`, one each, in order.
pub open spec fn release_attempts(ops: Seq<WatchOp>, ids: Seq<i32>) -> bool {
    &&& ops.len() == ids.len()
    &&& forall|k: int| 0 <= k < ops.len() ==> (#[trigger] ops[k]) is Release && ops[k]->Release_0 == ids[k]
}

/// Every release in `ops` succeeded.
pub open spec fn all_released(ops: Seq<WatchOp>) -> bool {
    forall|k: int| 0 <= k < ops.len() ==> (#[trigger] ops[k]) matches WatchOp::Release(_, true)
}

/// A log that fits a list of entries still fits, with the same outcome, when it grows.
proof fn lemma_replay_extend(s: Seq<TrackedView>, log: Seq<WatchOp>, x: WatchOp)
    requires
        replay(s, log).2,
    ensures
        replay(s, log.push(x)) == replay(s, log),
        0 <= replay(s, log).1 <= log.len(),
    decreases s.len(),
{
    if s.len() > 0 {
        let d = s.drop_last();
        assert(replay(d, log).2);
        lemma_replay_extend(d, log, x);
        let prev = replay(d, log);
        if !has_path(prev.0, s.last().path) {
            assert(prev.1 < log.len());
            assert(log.push(x)[prev.1] == log[prev.1]);
        }
    }
}

/// The registry: the tracked paths, the inotify instance that watches them, and where the
/// durable form is kept.
/// A ghost log records every registration and release of a watch that the registry makes, with
/// its outcome; only the two methods that make those calls extend it.
pub struct Tracker {
    inotify: Inotify,
    tracked_files: Vec<TrackedFile>,
    tracked_files_path: String,
    log: Ghost<Seq<WatchOp>>,
}

impl View for Tracker {
    type V = Seq<TrackedView>;

    closed spec fn view(&self) -> Seq<TrackedView> {
        files_view(self.tracked_files@)
    }
}

/// Facts about removing a path: what is left tracks other paths only, every entry left comes
/// from the registry, and a registry without repeated paths keeps that property.
proof fn lemma_without_path(s: Seq<TrackedView>, p: Seq<char>)
    ensures
        forall|k: int| 0 <= k < without_path(s, p).len() ==> (#[trigger] without_path(s, p)[k]).path
            != p,
        forall|k: int|
            0 <= k < without_path(s, p).len() ==> exists|j: int|
                0 <= j < s.len() && s[j] == #[trigger] without_path(s, p)[k],
        paths_unique(s) ==> paths_unique(without_path(s, p)),
    decreases s.len(),
{
    if s.len() > 0 {
        let d = s.drop_last();
        lemma_without_path(d, p);
        assert(paths_unique(s) ==> paths_unique(d)) by {
            if paths_unique(s) {
                assert forall|i: int, j: int|
                    0 <= i < d.len() && 0 <= j < d.len() && #[trigger] d[i].path
                        == #[trigger] d[j].path implies i == j by {
                    assert(s[i] == d[i] && s[j] == d[j]);
                }
            }
        }
        let w = without_path(s, p);
        let wd = without_path(d, p);
        assert forall|k: int| 0 <= k < w.len() implies exists|j: int|
            0 <= j < s.len() && s[j] == #[trigger] w[k] by {
            if k < wd.len() {
                let j = choose|j: int| 0 <= j < d.len() && d[j] == wd[k];
                assert(s[j] == w[k]);
            } else {
                assert(s[s.len() - 1] == w[k]);
            }
        }
        if paths_unique(s) && s.last().path != p {
            assert forall|i: int, j: int|
                0 <= i < w.len() && 0 <= j < w.len() && #[trigger] w[i].path == #[trigger] w[j].path
                    implies i == j by {
                if i < wd.len() && j == wd.len() {
                    let a = choose|a: int| 0 <= a < d.len() && d[a] == wd[i];
                    assert(s[a].path == s[s.len() - 1].path);
                } else if j < wd.len() && i == wd.len() {
                    let a = choose|a: int| 0 <= a < d.len() && d[a] == wd[j];
                    assert(s[a].path == s[s.len() - 1].path);
                }
            }
        }
    }
}

/// Adding an untracked path keeps paths unique.
proof fn lemma_push_unique(s: Seq<TrackedView>, e: TrackedView)
    requires
        paths_unique(s),
        !has_path(s, e.path),
    ensures
        paths_unique(s.push(e)),
{
    let t = s.push(e);
    assert forall|i: int, j: int|
        0 <= i < t.len() && 0 <= j < t.len() && #[trigger] t[i].path == #[trigger] t[j].path
            implies i == j by {
        if i < s.len() && j == s.len() {
            assert(s[i].path == e.path);
        } else if j < s.len() && i == s.len() {
            assert(s[j].path == e.path);
        } else if i < s.len() && j < s.len() {
            assert(s[i] == t[i] && s[j] == t[j]);
        }
    }
}

impl Tracker {
    /// No path is tracked twice.
    pub open spec fn wf(&self) -> bool {
        paths_unique(self@)
    }

    /// Where the durable form of the registry is kept.
    pub closed spec fn storage_path_spec(&self) -> Seq<char> {
        self.tracked_files_path@
    }

    /// Where the durable form of the registry is kept.
    pub fn storage_path(&self) -> (r: &str)
        ensures
            r@ == self.storage_path_spec(),
    {
        self.tracked_files_path.as_str()
    }

    /// The tracked files, oldest first.
    pub fn tracked_files(&self) -> (r: &Vec<TrackedFile>)
        ensures
            files_view(r@) == self@,
    {
        &self.tracked_files
    }

    /// The position of the entry that tracks `p`, if any.
    fn position_of(&self, p: &String) -> (r: Option<usize>)
        ensures
            r matches Some(i) ==> i < self@.len() && self@[i as int].path == p@,
            r is None ==> !has_path(self@, p@),
    {
        let mut i: usize = 0;
        while i < self.tracked_files.len()
            invariant
                i <= self@.len(),
                self@.len() == self.tracked_files@.len(),
                forall|k: int| 0 <= k < i ==> self@[k].path != p@,
            decreases self@.len() - i,
        {
            if self.tracked_files[i].path == *p {
                return Some(i);
            }
            i = i + 1;
        }
        None
    }

    /// Whether `p` is tracked.
    pub fn is_tracked(&self, p: &str) -> (r: bool)
        ensures
            r == has_path(self@, p@),
    {
        let key = p.to_owned();
        match self.position_of(&key) {
            Some(_) => true,
            None => false,
        }
    }

    /// Every registration and release of a watch that this registry has made, in order, with
    /// its outcome.
    pub closed spec fn watch_log(&self) -> Seq<WatchOp> {
        self.log@
    }

    /// Registers a watch for `path`, recording the call and its outcome.
    fn register(&mut self, path: &str) -> (r: Result<WatchHandle, String>)
        ensures
            final(self)@ == old(self)@,
            final(self).storage_path_spec() == old(self).storage_path_spec(),
            final(self).watch_log() == old(self).watch_log().push(
                WatchOp::Register(
                    path@,
                    match r {
                        Ok(h) => Some(h@),
                        Err(_) => None,
                    },
                ),
            ),
    {
        let r = register_watch(&self.inotify, path, WATCHED_EVENTS);
        self.log = Ghost(
            self.log@.push(
                WatchOp::Register(
                    path@,
                    match &r {
                        Ok(h) => Some(h@),
                        Err(_) => None,
                    },
                ),
            ),
        );
        r
    }

    /// Releases the watch `h`, recording the call and its outcome.
    fn release(&mut self, h: WatchHandle) -> (r: Result<(), String>)
        ensures
            final(self)@ == old(self)@,
            final(self).storage_path_spec() == old(self).storage_path_spec(),
            final(self).watch_log() == old(self).watch_log().push(WatchOp::Release(h@, r is Ok)),
    {
        let ghost id = h@;
        let r = release_watch(&self.inotify, h);
        self.log = Ghost(self.log@.push(WatchOp::Release(id, r is Ok)));
        r
    }

    /// An empty registry, with no watch registered yet, whose durable form is kept at
    /// `tracked_files_path`; the error is the OS's where no inotify instance can be opened.
    pub fn new(tracked_files_path: &str) -> (r: Result<Tracker, String>)
        ensures
            r matches Ok(t) ==> t@ == Seq::<TrackedView>::empty() && t.wf()
                && t.storage_path_spec() == tracked_files_path@ && t.watch_log() == Seq::<
                WatchOp,
            >::empty(),
    {
        match open_inotify() {
            Ok(inotify) => {
                let t = Tracker {
                    inotify,
                    tracked_files: Vec::new(),
                    tracked_files_path: tracked_files_path.to_owned(),
                    log: Ghost(Seq::empty()),
                };
                assert(t@ =~= Seq::<TrackedView>::empty());
                Ok(t)
            },
            Err(e) => Err(e),
        }
    }

    /// A registry loaded from the entries of its durable form. Each entry is added in turn: one
    /// whose path is already loaded is skipped, every other has a watch registered for its path,
    /// and is kept, with that watch, exactly where the registration succeeded. The watch log of
    /// the result is those registrations, in order.
    pub fn init(tracked_files_path: &str, stored: &Vec<TrackedFile>) -> (r: Result<Tracker, String>)
        ensures
            r matches Ok(t) ==> {
                &&& t.wf()
                &&& t.storage_path_spec() == tracked_files_path@
                &&& replay(files_view(stored@), t.watch_log()) == (t@, t.watch_log().len() as int, true)
                &&& forall|i: int| 0 <= i < t@.len() ==> (#[trigger] t@[i]).wd is Some
            },
    {
        let mut t = match Tracker::new(tracked_files_path) {
            Ok(t) => t,
            Err(e) => {
                return Err(e);
            },
        };
        let ghost all = files_view(stored@);
        let mut n: usize = 0;
        while n < stored.len()
            invariant
                n <= stored@.len(),
                all == files_view(stored@),
                t.wf(),
                t.storage_path_spec() == tracked_files_path@,
                replay(all.subrange(0, n as int), t.watch_log()) == (t@, t.watch_log().len() as int, true),
                forall|i: int| 0 <= i < t@.len() ==> (#[trigger] t@[i]).wd is Some,
            decreases stored@.len() - n,
        {
            let f = &stored[n];
            let ghost before = t@;
            let ghost log0 = t.watch_log();
            assert(all.subrange(0, n + 1).drop_last() =~= all.subrange(0, n as int));
            assert(all.subrange(0, n + 1).last() == f@);
            let _ = t.add_path(f.path.as_str(), f.drive_url.as_str());
            proof {
                if !has_path(before, f.path@) {
                    let o = choose|o: Option<i32>|
                        t.watch_log() == log0.push(WatchOp::Register(f.path@, o)) && t@ == register_step(
                            before,
                            f.path@,
                            f.drive_url@,
                            o,
                        );
                    lemma_replay_extend(all.subrange(0, n as int), log0, WatchOp::Register(f.path@, o));
                    assert(t.watch_log()[log0.len() as int] == WatchOp::Register(f.path@, o));
                    assert forall|i: int| 0 <= i < t@.len() implies (#[trigger] t@[i]).wd is Some by {
                        if i < before.len() {
                            assert(t@[i] == before[i]);
                        }
                    }
                }
            }
            n = n + 1;
        }
        assert(all.subrange(0, n as int) =~= all);
        Ok(t)
    }

    /// Records the outcome of registering a watch for the untracked path `p`: with a watch, the
    /// entry (`p`, `u`, watch) is appended; with an error, nothing changes and the error is
    /// returned.
    pub fn track_registered(&mut self, p: String, u: String, registration: Result<WatchHandle, String>) -> (r: Result<(), String>)
        requires
            old(self).wf(),
            !has_path(old(self)@, p@),
        ensures
            final(self).wf(),
            final(self).storage_path_spec() == old(self).storage_path_spec(),
            final(self).watch_log() == old(self).watch_log(),
            registration matches Ok(h) ==> r is Ok && final(self)@ == with_entry(
                old(self)@,
                p@,
                u@,
                h@,
            ),
            registration matches Err(e) ==> r matches Err(m) && m@ == e@ && final(self)@ == old(
                self,
            )@,
    {
        match registration {
            Ok(h) => {
                let ghost hv = h@;
                let ghost before = self@;
                self.tracked_files.push(TrackedFile { drive_url: u, path: p, wd: Some(h) });
                proof {
                    assert(self@ =~= before.push(TrackedView { path: p@, drive_url: u@, wd: Some(hv) }));
                    lemma_push_unique(before, TrackedView { path: p@, drive_url: u@, wd: Some(hv) });
                }
                Ok(())
            },
            Err(e) => Err(e),
        }
    }

    /// Tracks `p` as bound to `u`. A path that is already tracked is left as it is and no watch
    /// is registered. Otherwise one watch, for modification, deletion and move of `p`, is
    /// registered: where that succeeds the entry is appended with it, else nothing changes and
    /// the OS error is returned.
    pub fn add_path(&mut self, p: &str, u: &str) -> (r: Result<(), String>)
        requires
            old(self).wf(),
        ensures
            final(self).wf(),
            final(self).storage_path_spec() == old(self).storage_path_spec(),
            has_path(old(self)@, p@) ==> r is Ok && final(self)@ == old(self)@ && final(self).watch_log()
                == old(self).watch_log(),
            !has_path(old(self)@, p@) ==> exists|o: Option<i32>|
                final(self).watch_log() == old(self).watch_log().push(WatchOp::Register(p@, o))
                    && final(self)@ == register_step(old(self)@, p@, u@, o) && (r is Ok <==> o is Some),
            r is Ok ==> exists|h: i32| final(self)@ == with_entry(old(self)@, p@, u@, h),
            r is Err ==> final(self)@ == old(self)@ && !has_path(old(self)@, p@),
    {
        let key = p.to_owned();
        if let Some(i) = self.position_of(&key) {
            assert(has_path(self@, p@)) by {
                assert(self@[i as int].path == p@);
            }
            assert(self@ == with_entry(self@, p@, u@, 0));
            return Ok(());
        }
        let registration = self.register(p);
        let ghost reg = registration;
        let ghost o = match reg {
            Ok(h) => Some(h@),
            Err(_) => None::<i32>,
        };
        let r = self.track_registered(key, u.to_owned(), registration);
        proof {
            if let Ok(h) = reg {
                assert(self@ == with_entry(old(self)@, p@, u@, h@));
                assert(self@ == register_step(old(self)@, p@, u@, o));
            }
            assert(self.watch_log() == old(self).watch_log().push(WatchOp::Register(p@, o)));
            assert(self@ == register_step(old(self)@, p@, u@, o));
            assert(r is Ok <==> o is Some);
            assert(self.watch_log() == old(self).watch_log().push(WatchOp::Register(p@, o))
                && self@ == register_step(old(self)@, p@, u@, o) && (r is Ok <==> o is Some));
        }
        r
    }

    /// Stops tracking `p`: every entry that tracks it is removed, the others kept in order, and
    /// the watch of each removed entry is released, in order. The result is `Ok` exactly where
    /// every release succeeded, else the error of the first that failed. A path that is not
    /// tracked is no error.
    pub fn remove_path(&mut self, p: &str) -> (r: Result<(), String>)
        requires
            old(self).wf(),
        ensures
            final(self).wf(),
            final(self).storage_path_spec() == old(self).storage_path_spec(),
            final(self)@ == without_path(old(self)@, p@),
            final(self).watch_log().len() >= old(self).watch_log().len(),
            final(self).watch_log().subrange(0, old(self).watch_log().len() as int) == old(
                self,
            ).watch_log(),
            release_attempts(
                final(self).watch_log().subrange(
                    old(self).watch_log().len() as int,
                    final(self).watch_log().len() as int,
                ),
                watches_of(old(self)@, p@),
            ),
            r is Ok <==> all_released(
                final(self).watch_log().subrange(
                    old(self).watch_log().len() as int,
                    final(self).watch_log().len() as int,
                ),
            ),
    {
        let key = p.to_owned();
        let n = self.tracked_files.len();
        let ghost orig = self.tracked_files@;
        let ghost all = self@;
        let ghost log0 = self.log@;
        let ghost mut tail: Seq<WatchOp> = Seq::empty();
        let mut rest: Vec<TrackedFile> = Vec::new();
        std::mem::swap(&mut rest, &mut self.tracked_files);
        let mut kept: Vec<TrackedFile> = Vec::new();
        let mut first_err: Option<String> = None;
        let mut k: usize = 0;
        assert(orig.subrange(0, 0) =~= Seq::<TrackedFile>::empty());
        assert(orig.subrange(0, orig.len() as int) =~= orig);
        while rest.len() > 0
            invariant
                key@ == p@,
                all == files_view(orig),
                orig.len() == n,
                k + rest@.len() == orig.len(),
                rest@ == orig.subrange(k as int, orig.len() as int),
                files_view(kept@) == without_path(files_view(orig.subrange(0, k as int)), p@),
                self.storage_path_spec() == old(self).storage_path_spec(),
                self.log@ == log0 + tail,
                release_attempts(tail, watches_of(files_view(orig.subrange(0, k as int)), p@)),
                (first_err is None) == all_released(tail),
            decreases rest@.len(),
        {
            let ghost prefix = files_view(orig.subrange(0, k as int));
            let ghost next = files_view(orig.subrange(0, k + 1));
            assert(next.drop_last() =~= prefix);
            assert(next.last() == orig[k as int]@);
            let ghost kept_before = kept@;
            let e = rest.remove(0);
            assert(e == orig[k as int]);
            if e.path == key {
                match e.wd {
                    Some(h) => {
                        let ghost id = h@;
                        let ghost tail0 = tail;
                        let outcome = self.release(h);
                        proof {
                            tail = tail0.push(WatchOp::Release(id, outcome is Ok));
                            assert(self.log@ =~= log0 + tail);
                            assert(watches_of(next, p@) == watches_of(prefix, p@).push(id));
                            assert forall|j: int| 0 <= j < tail.len() implies (#[trigger] tail[j]) is Release
                                && tail[j]->Release_0 == watches_of(next, p@)[j] by {
                                if j < tail0.len() {
                                    assert(tail[j] == tail0[j]);
                                }
                            }
                            if all_released(tail) {
                                assert forall|j: int| 0 <= j < tail0.len() implies (#[trigger] tail0[j]) matches WatchOp::Release(_, true) by {
                                    assert(tail[j] == tail0[j]);
                                }
                                assert(tail[tail0.len() as int] == WatchOp::Release(id, outcome is Ok));
                            }
                        }
                        match outcome {
                            Ok(()) => {},
                            Err(m) => {
                                if first_err.is_none() {
                                    first_err = Some(m);
                                }
                            },
                        }
                    },
                    None => {},
                }
            } else {
                kept.push(e);
                assert(files_view(kept@) =~= files_view(kept_before).push(orig[k as int]@));
            }
            assert(rest@ =~= orig.subrange(k + 1, orig.len() as int));
            k = k + 1;
        }
        assert(orig.subrange(0, k as int) =~= orig);
        self.tracked_files = kept;
        proof {
            lemma_without_path(all, p@);
            assert(self.log@.subrange(0, log0.len() as int) =~= log0);
            assert(self.log@.subrange(log0.len() as int, self.log@.len() as int) =~= tail);
        }
        match first_err {
            Some(m) => Err(m),
            None => Ok(()),
        }
    }

    /// The bytes of the registry file for the current entries.
    pub fn to_bytes(&self) -> (r: Vec<u8>)
        ensures
            r@ == stored_bytes(self@),
    {
        let mut pairs: Vec<(String, String)> = Vec::new();
        let mut i: usize = 0;
        while i < self.tracked_files.len()
            invariant
                i <= self@.len(),
                self@.len() == self.tracked_files@.len(),
                pairs@.len() == i,
                pairs.deep_view() == stored_pairs(self@).subrange(0, i as int),
            decreases self@.len() - i,
        {
            let f = &self.tracked_files[i];
            let ghost before = pairs.deep_view();
            pairs.push((f.drive_url.clone(), f.path.clone()));
            assert(pairs.deep_view() =~= stored_pairs(self@).subrange(0, i + 1)) by {
                assert(pairs.deep_view() =~= before.push((f.drive_url@, f.path@)));
            }
            i = i + 1;
        }
        assert(stored_pairs(self@).subrange(0, i as int) =~= stored_pairs(self@));
        encode_pair_list(&pairs).unwrap()
    }
}

/// An entry appended to a registry is counted once more for its path.
proof fn lemma_count_push(s: Seq<TrackedView>, e: TrackedView, p: Seq<char>)
    ensures
        count_path(s.push(e), p) == count_path(s, p) + if e.path == p {
            1nat
        } else {
            0nat
        },
{
    assert(s.push(e).drop_last() =~= s);
}

/// A registry in which no entry tracks `p` counts no entry for it.
proof fn lemma_count_absent(s: Seq<TrackedView>, p: Seq<char>)
    requires
        !has_path(s, p),
    ensures
        count_path(s, p) == 0,
    decreases s.len(),
{
    if s.len() > 0 {
        let d = s.drop_last();
        assert(!has_path(d, p)) by {
            if has_path(d, p) {
                let i = choose|i: int| 0 <= i < d.len() && #[trigger] d[i].path == p;
                assert(s[i].path == p);
            }
        }
        lemma_count_absent(d, p);
        assert(s[s.len() - 1].path != p);
    }
}

/// A registry in which no entry tracks `p` is unchanged by removing `p`, and has no watch for
/// it.
proof fn lemma_without_absent(s: Seq<TrackedView>, p: Seq<char>)
    requires
        !has_path(s, p),
    ensures
        without_path(s, p) == s,
        watches_of(s, p) == Seq::<i32>::empty(),
    decreases s.len(),
{
    if s.len() > 0 {
        let d = s.drop_last();
        assert(!has_path(d, p)) by {
            if has_path(d, p) {
                let i = choose|i: int| 0 <= i < d.len() && #[trigger] d[i].path == p;
                assert(s[i].path == p);
            }
        }
        lemma_without_absent(d, p);
        assert(s[s.len() - 1].path != p);
        assert(d.push(s.last()) =~= s);
    }
}

/// Adding a path twice is adding it once: the second addition leaves the registry as the first
/// made it, whatever watch it would have registered, and exactly one entry tracks the path.
pub proof fn lemma_add_idempotent(s: Seq<TrackedView>, p: Seq<char>, u: Seq<char>, h1: i32, h2: i32)
    requires
        paths_unique(s),
    ensures
        with_entry(with_entry(s, p, u, h1), p, u, h2) == with_entry(s, p, u, h1),
        count_path(with_entry(s, p, u, h1), p) == 1,
        paths_unique(with_entry(s, p, u, h1)),
{
    let e = TrackedView { path: p, drive_url: u, wd: Some(h1) };
    let t = with_entry(s, p, u, h1);
    if has_path(s, p) {
        let i = choose|i: int| 0 <= i < s.len() && #[trigger] s[i].path == p;
        lemma_count_unique(s, p, i);
    } else {
        assert(t[t.len() - 1].path == p);
        assert(has_path(t, p));
        lemma_count_push(s, e, p);
        lemma_count_absent(s, p);
        lemma_push_unique(s, e);
    }
}

/// In a registry without repeated paths, a tracked path is counted once.
proof fn lemma_count_unique(s: Seq<TrackedView>, p: Seq<char>, i: int)
    requires
        paths_unique(s),
        0 <= i < s.len(),
        s[i].path == p,
    ensures
        count_path(s, p) == 1,
    decreases s.len(),
{
    let d = s.drop_last();
    if i == s.len() - 1 {
        assert(!has_path(d, p)) by {
            if has_path(d, p) {
                let j = choose|j: int| 0 <= j < d.len() && #[trigger] d[j].path == p;
                assert(s[j].path == s[i].path);
            }
        }
        lemma_count_absent(d, p);
    } else {
        assert(paths_unique(d)) by {
            assert forall|a: int, b: int|
                0 <= a < d.len() && 0 <= b < d.len() && #[trigger] d[a].path == #[trigger] d[b].path
                    implies a == b by {
                assert(s[a] == d[a] && s[b] == d[b]);
            }
        }
        assert(d[i] == s[i]);
        lemma_count_unique(d, p, i);
        assert(s[s.len() - 1].path != p);
    }
}

/// Removing a path right after adding it leaves no entry for the path. Where the path was not
/// tracked before, the registry is back to what it was, and the one watch that the removal
/// releases is the watch that the addition registered.
pub proof fn lemma_remove_after_add(s: Seq<TrackedView>, p: Seq<char>, u: Seq<char>, h: i32)
    requires
        paths_unique(s),
    ensures
        !has_path(without_path(with_entry(s, p, u, h), p), p),
        !has_path(s, p) ==> without_path(with_entry(s, p, u, h), p) == s,
        !has_path(s, p) ==> watches_of(with_entry(s, p, u, h), p) == seq![h],
{
    let t = with_entry(s, p, u, h);
    lemma_without_path(t, p);
    let w = without_path(t, p);
    assert(!has_path(w, p)) by {
        if has_path(w, p) {
            let i = choose|i: int| 0 <= i < w.len() && #[trigger] w[i].path == p;
        }
    }
    if !has_path(s, p) {
        lemma_without_absent(s, p);
        assert(t.drop_last() =~= s);
        assert(t.last().path == p);
    }
}

impl Tracker {
    /// Reads the events queued for the registry's watches. `Ok` with no events where none is
    /// queued; the error is the OS's for any other failure. The entries do not change.
    pub fn read_events(&mut self, buffer: &mut Vec<u8>) -> (r: Result<Vec<WatchEvent>, String>)
        ensures
            final(self)@ == old(self)@,
            final(self).storage_path_spec() == old(self).storage_path_spec(),
            final(self).watch_log() == old(self).watch_log(),
    {
        match read_watch_events(&mut self.inotify, buffer) {
            Ok(events) => Ok(events),
            Err(ReadFailure::NothingQueued) => Ok(Vec::new()),
            Err(ReadFailure::Os(m)) => Err(m),
        }
    }

    /// The (local path, remote identifier) of each update that `events` call for, in the order
    /// of the events: for a modification, one per entry that holds the event's watch; for any
    /// other event, none.
    pub fn updates_for(&self, events: &Vec<WatchEvent>) -> (r: Vec<(String, String)>)
        ensures
            r.deep_view() == updates_for_events(self@, events@),
    {
        let mut out: Vec<(String, String)> = Vec::new();
        let mut n: usize = 0;
        while n < events.len()
            invariant
                n <= events@.len(),
                out.deep_view() == updates_for_events(self@, events@.subrange(0, n as int)),
            decreases events@.len() - n,
        {
            let e = &events[n];
            let ghost before = out.deep_view();
            if let EventKind::Modify = classify(e.mask) {
                let mut i: usize = 0;
                while i < self.tracked_files.len()
                    invariant
                        n < events@.len(),
                        e == events@[n as int],
                        i <= self@.len(),
                        self@.len() == self.tracked_files@.len(),
                        out.deep_view() == before + holders_of(self@.subrange(0, i as int), e.wd),
                    decreases self@.len() - i,
                {
                    let f = &self.tracked_files[i];
                    let ghost mid = out.deep_view();
                    assert(self@.subrange(0, i + 1).drop_last() =~= self@.subrange(0, i as int));
                    assert(self@.subrange(0, i + 1).last() == f@);
                    match &f.wd {
                        Some(h) => {
                            if h.id() == e.wd {
                                out.push((f.path.clone(), f.drive_url.clone()));
                                assert(out.deep_view() =~= mid.push((f.path@, f.drive_url@)));
                            }
                        },
                        None => {},
                    }
                    i = i + 1;
                }
                assert(self@.subrange(0, i as int) =~= self@);
                assert(out.deep_view() =~= before + updates_for_event(self@, *e));
            } else {
                assert(out.deep_view() =~= before + updates_for_event(self@, *e));
            }
            assert(events@.subrange(0, n + 1).drop_last() =~= events@.subrange(0, n as int));
            assert(events@.subrange(0, n + 1).last() == *e);
            n = n + 1;
        }
        assert(events@.subrange(0, n as int) =~= events@);
        out
    }
}

} // verus!
