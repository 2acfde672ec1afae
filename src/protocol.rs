//! The messages that pass between client and daemon, and their frames.
//!
//! A frame is a four-byte little-endian tag followed by the bincode encoding
//! of the tagged value's fields, which is how bincode lays out an enum. An
//! empty payload is not a frame: it stands for "no command".
use vstd::prelude::*;
use vstd::bytes::{
    lemma_auto_spec_u32_to_from_le_bytes,
    spec_u32_from_le_bytes,
    spec_u32_to_le_bytes,
    u32_from_le_bytes,
    u32_to_le_bytes,
};
use vstd::slice::slice_subrange;
use crate::codec::{
    bincode_pull_fields,
    bincode_text,
    bincode_text_pair,
    decode_pull_fields,
    decode_text,
    decode_text_pair,
    encode_pull_fields,
    encode_text,
    encode_text_pair,
};
use crate::text::{contains_text, has_substring};

verus! {

/// A frame: the tag's four little-endian bytes, then the fields.
pub open spec fn frame(tag: u32, fields: Seq<u8>) -> Seq<u8> {
    spec_u32_to_le_bytes(tag) + fields
}

/// The tag that a payload of at least four bytes starts with.
pub open spec fn frame_tag(b: Seq<u8>) -> u32 {
    spec_u32_from_le_bytes(b.subrange(0, 4))
}

/// The bytes of a frame after its tag.
pub open spec fn frame_fields(b: Seq<u8>) -> Seq<u8> {
    b.subrange(4, b.len() as int)
}

proof fn lemma_frame_parts(tag: u32, fields: Seq<u8>)
    ensures
        frame(tag, fields).len() >= 4,
        frame_tag(frame(tag, fields)) == tag,
        frame_fields(frame(tag, fields)) == fields,
{
    lemma_auto_spec_u32_to_from_le_bytes();
    let b = frame(tag, fields);
    assert(b.subrange(0, 4) == spec_u32_to_le_bytes(tag));
    assert(b.subrange(4, b.len() as int) == fields);
}

/// Appends `fields` to the frame head of `tag`.
fn build_frame(tag: u32, fields: Vec<u8>) -> (r: Vec<u8>)
    ensures
        r@ == frame(tag, fields@),
{
    let mut out = u32_to_le_bytes(tag);
    let mut rest = fields;
    out.append(&mut rest);
    out
}

/// The outcome that the daemon reports for a command.
#[derive(Debug)]
pub enum DResult {
    Success(String),
    Failure(String),
}

/// What a `DResult` says: success or failure, with its message.
pub enum ResultView {
    Success(Seq<char>),
    Failure(Seq<char>),
}

impl View for DResult {
    type V = ResultView;

    open spec fn view(&self) -> ResultView {
        match self {
            DResult::Success(m) => ResultView::Success(m@),
            DResult::Failure(m) => ResultView::Failure(m@),
        }
    }
}

/// The frame of a result.
pub open spec fn result_frame(v: ResultView) -> Seq<u8> {
    match v {
        ResultView::Success(m) => frame(0, bincode_text(m)),
        ResultView::Failure(m) => frame(1, bincode_text(m)),
    }
}

impl DResult {
    /// A failure carrying `m`.
    pub fn error(m: &str) -> (r: DResult)
        ensures
            r@ == ResultView::Failure(m@),
    {
        DResult::Failure(m.to_owned())
    }

    /// A success carrying `m`.
    pub fn ok(m: &str) -> (r: DResult)
        ensures
            r@ == ResultView::Success(m@),
    {
        DResult::Success(m.to_owned())
    }

    /// Whether this is a success.
    pub fn is_success(&self) -> (r: bool)
        ensures
            r == (self@ is Success),
    {
        match self {
            DResult::Success(_) => true,
            DResult::Failure(_) => false,
        }
    }

    /// The message, of either kind.
    pub fn message(&self) -> (r: &String)
        ensures
            self@ matches ResultView::Success(m) ==> r@ == m,
            self@ matches ResultView::Failure(m) ==> r@ == m,
    {
        match self {
            DResult::Success(m) => m,
            DResult::Failure(m) => m,
        }
    }

    /// The frame of this result.
    pub fn to_bytes(&self) -> (r: Vec<u8>)
        ensures
            r@ == result_frame(self@),
    {
        let (tag, m): (u32, &String) = match self {
            DResult::Success(m) => (0, m),
            DResult::Failure(m) => (1, m),
        };
        build_frame(tag, encode_text(m).unwrap())
    }

    /// Reads a result from its frame. The frame of any result gives that result back;
    /// a payload shorter than a tag, or with a tag of no result, gives `None`.
    pub fn from_bytes(b: &[u8]) -> (r: Option<DResult>)
        ensures
            forall|v: ResultView| #[trigger] result_frame(v) == b@ ==> (r is Some && r.unwrap()@
                == v),
            b@.len() < 4 ==> r is None,
            b@.len() >= 4 && frame_tag(b@) > 1 ==> r is None,
    {
        if b.len() < 4 {
            proof {
                assert forall|v: ResultView| #[trigger] result_frame(v) != b@ by {
                    match v {
                        ResultView::Success(m) => lemma_frame_parts(0, bincode_text(m)),
                        ResultView::Failure(m) => lemma_frame_parts(1, bincode_text(m)),
                    }
                }
            }
            return None;
        }
        let tag = u32_from_le_bytes(slice_subrange(b, 0, 4));
        let fields = slice_subrange(b, 4, b.len());
        assert(fields@ == frame_fields(b@));
        proof {
            assert forall|v: ResultView| #[trigger] result_frame(v) == b@ implies (match v {
                ResultView::Success(m) => tag == 0 && fields@ == bincode_text(m),
                ResultView::Failure(m) => tag == 1 && fields@ == bincode_text(m),
            }) by {
                match v {
                    ResultView::Success(m) => lemma_frame_parts(0, bincode_text(m)),
                    ResultView::Failure(m) => lemma_frame_parts(1, bincode_text(m)),
                }
            }
        }
        if tag == 0 {
            match decode_text(fields) {
                Some(m) => Some(DResult::Success(m)),
                None => None,
            }
        } else if tag == 1 {
            match decode_text(fields) {
                Some(m) => Some(DResult::Failure(m)),
                None => None,
            }
        } else {
            None
        }
    }
}

/// A request from the client to the daemon.
#[derive(Debug)]
pub enum DCommand {
    /// Download the remote object to the destination path; the flag allows replacing a file.
    Pull(String, String, bool),
    /// Upload a local file, or every file under a local directory, and track it.
    Push(String),
    /// Bind a local path to a remote identifier without transferring anything.
    FSync(String, String),
    /// Stop tracking a local path.
    FUnSync(String),
    /// No command: what an empty payload stands for.
    Empty,
    /// A free-form message; one that mentions "ping" asks for a reply.
    Message(String),
    /// An acknowledgement, which asks for nothing.
    Ack,
    /// Stop the daemon.
    Quit,
}

/// What a `DCommand` says, over character sequences.
pub enum CommandView {
    Pull(Seq<char>, Seq<char>, bool),
    Push(Seq<char>),
    FSync(Seq<char>, Seq<char>),
    FUnSync(Seq<char>),
    Empty,
    Message(Seq<char>),
    Ack,
    Quit,
}

impl View for DCommand {
    type V = CommandView;

    open spec fn view(&self) -> CommandView {
        match self {
            DCommand::Pull(u, p, o) => CommandView::Pull(u@, p@, *o),
            DCommand::Push(p) => CommandView::Push(p@),
            DCommand::FSync(p, u) => CommandView::FSync(p@, u@),
            DCommand::FUnSync(p) => CommandView::FUnSync(p@),
            DCommand::Empty => CommandView::Empty,
            DCommand::Message(m) => CommandView::Message(m@),
            DCommand::Ack => CommandView::Ack,
            DCommand::Quit => CommandView::Quit,
        }
    }
}

/// The tag of each kind of command.
pub open spec fn command_tag(c: CommandView) -> u32 {
    match c {
        CommandView::Pull(..) => 0,
        CommandView::Push(..) => 1,
        CommandView::FSync(..) => 2,
        CommandView::FUnSync(..) => 3,
        CommandView::Empty => 4,
        CommandView::Message(..) => 5,
        CommandView::Ack => 6,
        CommandView::Quit => 7,
    }
}

/// The encoded fields of a command.
pub open spec fn command_fields(c: CommandView) -> Seq<u8> {
    match c {
        CommandView::Pull(u, p, o) => bincode_pull_fields(u, p, o),
        CommandView::Push(p) => bincode_text(p),
        CommandView::FSync(p, u) => bincode_text_pair(p, u),
        CommandView::FUnSync(p) => bincode_text(p),
        CommandView::Message(m) => bincode_text(m),
        _ => Seq::empty(),
    }
}

/// The frame of a command.
pub open spec fn command_frame(c: CommandView) -> Seq<u8> {
    frame(command_tag(c), command_fields(c))
}

/// Whether the daemon answers a command: a message only when it mentions "ping", the empty
/// command and an acknowledgement never, every other command always.
pub open spec fn command_expects_response(c: CommandView) -> bool {
    match c {
        CommandView::Message(m) => has_substring(m, "ping"@),
        CommandView::Empty => false,
        CommandView::Ack => false,
        _ => true,
    }
}

impl DCommand {
    /// Whether the daemon sends a reply to this command.
    pub fn expects_response(&self) -> (r: bool)
        ensures
            r == command_expects_response(self@),
    {
        match self {
            DCommand::Message(m) => contains_text(m.as_str(), "ping"),
            DCommand::Empty => false,
            DCommand::Ack => false,
            _ => true,
        }
    }

    /// The frame of this command.
    pub fn to_bytes(&self) -> (r: Vec<u8>)
        ensures
            r@ == command_frame(self@),
    {
        let fields = match self {
            DCommand::Pull(u, p, o) => encode_pull_fields(u, p, *o).unwrap(),
            DCommand::Push(p) => encode_text(p).unwrap(),
            DCommand::FSync(p, u) => encode_text_pair(p, u).unwrap(),
            DCommand::FUnSync(p) => encode_text(p).unwrap(),
            DCommand::Message(m) => encode_text(m).unwrap(),
            _ => Vec::new(),
        };
        let tag: u32 = match self {
            DCommand::Pull(..) => 0,
            DCommand::Push(..) => 1,
            DCommand::FSync(..) => 2,
            DCommand::FUnSync(..) => 3,
            DCommand::Empty => 4,
            DCommand::Message(..) => 5,
            DCommand::Ack => 6,
            DCommand::Quit => 7,
        };
        build_frame(tag, fields)
    }

    /// Reads a command from a payload. An empty payload is the empty command; the frame of
    /// any command gives that command back; a payload shorter than a tag, or with a tag of no
    /// command, gives `None`. The three commands without fields ignore what follows the tag.
    pub fn from_bytes(b: &[u8]) -> (r: Option<DCommand>)
        ensures
            b@.len() == 0 ==> (r is Some && r.unwrap()@ == CommandView::Empty),
            forall|c: CommandView| #[trigger] command_frame(c) == b@ ==> (r is Some
                && r.unwrap()@ == c),
            0 < b@.len() < 4 ==> r is None,
            b@.len() >= 4 && frame_tag(b@) > 7 ==> r is None,
            b@.len() >= 4 && frame_tag(b@) == 4 ==> (r is Some && r.unwrap()@
                == CommandView::Empty),
            b@.len() >= 4 && frame_tag(b@) == 6 ==> (r is Some && r.unwrap()@
                == CommandView::Ack),
            b@.len() >= 4 && frame_tag(b@) == 7 ==> (r is Some && r.unwrap()@
                == CommandView::Quit),
    {
        if b.len() == 0 {
            proof {
                assert forall|c: CommandView| #[trigger] command_frame(c) != b@ by {
                    lemma_frame_parts(command_tag(c), command_fields(c));
                }
            }
            return Some(DCommand::Empty);
        }
        if b.len() < 4 {
            proof {
                assert forall|c: CommandView| #[trigger] command_frame(c) != b@ by {
                    lemma_frame_parts(command_tag(c), command_fields(c));
                }
            }
            return None;
        }
        let tag = u32_from_le_bytes(slice_subrange(b, 0, 4));
        let fields = slice_subrange(b, 4, b.len());
        assert(fields@ == frame_fields(b@));
        proof {
            assert forall|c: CommandView| #[trigger] command_frame(c) == b@ implies tag
                == command_tag(c) && fields@ == command_fields(c) by {
                lemma_frame_parts(command_tag(c), command_fields(c));
            }
        }
        if tag == 0 {
            match decode_pull_fields(fields) {
                Some((u, p, o)) => Some(DCommand::Pull(u, p, o)),
                None => None,
            }
        } else if tag == 1 {
            match decode_text(fields) {
                Some(p) => Some(DCommand::Push(p)),
                None => None,
            }
        } else if tag == 2 {
            match decode_text_pair(fields) {
                Some((p, u)) => Some(DCommand::FSync(p, u)),
                None => None,
            }
        } else if tag == 3 {
            match decode_text(fields) {
                Some(p) => Some(DCommand::FUnSync(p)),
                None => None,
            }
        } else if tag == 4 {
            Some(DCommand::Empty)
        } else if tag == 5 {
            match decode_text(fields) {
                Some(m) => Some(DCommand::Message(m)),
                None => None,
            }
        } else if tag == 6 {
            Some(DCommand::Ack)
        } else if tag == 7 {
            Some(DCommand::Quit)
        } else {
            None
        }
    }
}

/// The address of the daemon's local socket.
#[derive(Debug)]
pub struct DSocket {
    path: String,
}

impl View for DSocket {
    type V = Seq<char>;

    closed spec fn view(&self) -> Seq<char> {
        self.path@
    }
}

impl DSocket {
    /// A socket address at `p`.
    pub fn new(p: &str) -> (r: DSocket)
        ensures
            r@ == p@,
    {
        DSocket { path: p.to_owned() }
    }

    /// The path of the socket.
    pub fn path(&self) -> (r: &str)
        ensures
            r@ == self@,
    {
        self.path.as_str()
    }
}

} // verus!
