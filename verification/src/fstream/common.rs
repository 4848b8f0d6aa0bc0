//! Messages, decisions, entries and errors shared by both sides of a stream.
use vstd::prelude::*;
use tokio::sync::mpsc::{Receiver, Sender};
use tokio::sync::mpsc::error::SendError;
use tokio::task::JoinError;

verus! {

/// The sending end of a bounded queue. Nothing is known of a value of it.
#[verifier::external_type_specification]
#[verifier::external_body]
#[verifier::reject_recursive_types(T)]
pub struct ExSender<T>(Sender<T>);

/// The receiving end of a bounded queue. Nothing is known of a value of it.
#[verifier::external_type_specification]
#[verifier::external_body]
#[verifier::reject_recursive_types(T)]
pub struct ExReceiver<T>(Receiver<T>);

/// The error of a send on a queue whose receiving end is gone.
#[verifier::external_type_specification]
#[verifier::external_body]
#[verifier::reject_recursive_types(T)]
pub struct ExSendError<T>(SendError<T>);

/// The error of a task that panicked or was cancelled.
#[verifier::external_type_specification]
#[verifier::external_body]
pub struct ExJoinError(JoinError);

/// The error of a failed filesystem operation.
#[verifier::external_type_specification]
#[verifier::external_body]
pub struct ExIoError(std::io::Error);

/// The decision a receiver takes after it has seen a message.
#[derive(Debug, Copy, Clone, PartialEq, Eq, Structural)]
pub enum Action {
    /// Descend into the directory or file.
    Down,
    /// Move on to the next entry of the directory, or the next block of the file.
    Next,
    /// Abandon the rest of the directory or file.
    Skip,
}

/// The kind of a message that waits for its answer.
#[derive(Debug, Copy, Clone, PartialEq, Eq, Structural)]
pub enum Kind {
    /// The root of the stream.
    Root,
    /// A directory entry.
    Dir,
    /// A file entry.
    File,
    /// The end of a directory.
    End,
    /// A block of a file.
    Data,
    /// The end of a file.
    FileEnd,
}

/// The depth a side of the stream stands at once a message of kind `kind`,
/// sent at depth `d`, has been answered with `a`; `None` where the stream has
/// ended with it. A descent goes one level down; a skip, and each end, goes
/// one level up; anything else stays.
pub open spec fn moved(kind: Kind, d: int, a: Action) -> Option<int> {
    match kind {
        Kind::Root => if a == Action::Down {
            Some(d + 1)
        } else {
            None
        },
        Kind::Dir | Kind::File => match a {
            Action::Down => Some(d + 1),
            Action::Next => Some(d),
            Action::Skip => if d <= 1 {
                None
            } else {
                Some(d - 1)
            },
        },
        Kind::End => if d <= 1 {
            None
        } else {
            Some(d - 1)
        },
        Kind::Data => if a == Action::Skip {
            Some(d - 1)
        } else {
            Some(d)
        },
        Kind::FileEnd => Some(d - 1),
    }
}

/// The answer `a` to a message of kind `kind` opens a level.
pub open spec fn opens(kind: Kind, a: Action) -> bool {
    a == Action::Down && (kind == Kind::Root || kind == Kind::Dir || kind == Kind::File)
}

/// The answer `a` to a message of kind `kind` closes a level.
pub open spec fn closes(kind: Kind, a: Action) -> bool {
    match kind {
        Kind::Root => false,
        Kind::Dir | Kind::File | Kind::Data => a == Action::Skip,
        Kind::End | Kind::FileEnd => true,
    }
}

/// The depth after the messages of `trace`, each with its answer, from the
/// start of a stream; `None` once the stream has ended.
pub open spec fn depth_after(trace: Seq<(Kind, Action)>) -> Option<int>
    decreases trace.len(),
{
    if trace.len() == 0 {
        Some(0)
    } else {
        match depth_after(trace.drop_last()) {
            Some(d) => moved(trace.last().0, d, trace.last().1),
            None => None,
        }
    }
}

/// The number of answers in `trace` that open a level.
pub open spec fn opened(trace: Seq<(Kind, Action)>) -> int
    decreases trace.len(),
{
    if trace.len() == 0 {
        0
    } else {
        opened(trace.drop_last()) + if opens(trace.last().0, trace.last().1) {
            1int
        } else {
            0int
        }
    }
}

/// The number of answers in `trace` that close a level.
pub open spec fn closed(trace: Seq<(Kind, Action)>) -> int
    decreases trace.len(),
{
    if trace.len() == 0 {
        0
    } else {
        closed(trace.drop_last()) + if closes(trace.last().0, trace.last().1) {
            1int
        } else {
            0int
        }
    }
}

/// At any point of a stream that has not ended, the depth is the number of
/// levels opened and not closed again.
pub proof fn lemma_depth_is_open_levels(trace: Seq<(Kind, Action)>)
    requires
        depth_after(trace) is Some,
    ensures
        depth_after(trace) == Some(opened(trace) - closed(trace)),
    decreases trace.len(),
{
    if trace.len() > 0 {
        lemma_depth_is_open_levels(trace.drop_last());
    }
}

/// What a contract says of an entry: its name and whether it is a directory.
pub struct EntryView {
    pub name: Seq<char>,
    pub dir: bool,
}

/// A named object of a directory, with what tells a directory from a file.
#[derive(Debug, Clone)]
pub struct DirEntry {
    pub name: String,
    pub dir: bool,
}

impl View for DirEntry {
    type V = EntryView;

    open spec fn view(&self) -> EntryView {
        EntryView { name: self.name@, dir: self.dir }
    }
}

impl DirEntry {
    pub fn new(name: String, dir: bool) -> (r: DirEntry)
        ensures
            r@ == (EntryView { name: name@, dir }),
    {
        DirEntry { name, dir }
    }

    pub fn file_name(&self) -> (r: &String)
        ensures
            r@ == self@.name,
    {
        &self.name
    }

    pub fn is_dir(&self) -> (r: bool)
        ensures
            r == self@.dir,
    {
        self.dir
    }
}

/// What a contract says of a path: where the stream is rooted and the names
/// below the root, outermost first.
pub struct PathView {
    pub root: Seq<char>,
    pub names: Seq<Seq<char>>,
}

impl PathView {
    pub open spec fn push(self, name: Seq<char>) -> PathView {
        PathView { root: self.root, names: self.names.push(name) }
    }

    pub open spec fn pop(self) -> PathView {
        if self.names.len() == 0 {
            self
        } else {
            PathView { root: self.root, names: self.names.drop_last() }
        }
    }
}

/// The path from the root of a stream down to the entry at hand.
#[derive(Debug)]
pub struct Path {
    root: String,
    names: Vec<String>,
}

impl View for Path {
    type V = PathView;

    closed spec fn view(&self) -> PathView {
        PathView {
            root: self.root@,
            names: Seq::new(self.names@.len(), |i: int| self.names@[i]@),
        }
    }
}

impl Path {
    pub fn new(root: String) -> (r: Path)
        ensures
            r@ == (PathView { root: root@, names: Seq::empty() }),
    {
        let r = Path { root, names: Vec::new() };
        assert(r@.names =~= Seq::empty());
        r
    }

    pub fn root(&self) -> (r: &String)
        ensures
            r@ == self@.root,
    {
        &self.root
    }

    /// The number of names below the root.
    pub fn len(&self) -> (r: usize)
        ensures
            r == self@.names.len(),
    {
        self.names.len()
    }

    /// The name at position `i` below the root.
    pub fn name(&self, i: usize) -> (r: &String)
        requires
            i < self@.names.len(),
        ensures
            r@ == self@.names[i as int],
    {
        &self.names[i]
    }

    pub fn push(&mut self, name: String)
        ensures
            final(self)@ == old(self)@.push(name@),
    {
        self.names.push(name);
        assert(self@.names =~= old(self)@.names.push(name@));
    }

    /// Drops the last name. Says whether there was one.
    pub fn pop(&mut self) -> (r: bool)
        ensures
            r == (old(self)@.names.len() > 0),
            final(self)@ == old(self)@.pop(),
    {
        match self.names.pop() {
            Some(_) => {
                assert(self@.names =~= old(self)@.names.drop_last());
                true
            },
            None => false,
        }
    }

    pub fn clone(&self) -> (r: Path)
        ensures
            r@ == self@,
    {
        let mut names: Vec<String> = Vec::new();
        let mut i: usize = 0;
        while i < self.names.len()
            invariant
                i <= self.names.len(),
                names.len() == i,
                forall|j: int| 0 <= j < i ==> names@[j]@ == self.names@[j]@,
            decreases self.names.len() - i,
        {
            names.push(self.names[i].clone());
            i = i + 1;
        }
        let r = Path { root: self.root.clone(), names };
        assert(r@.names =~= self@.names);
        r
    }
}

/// What a contract says of a message.
pub enum MsgView {
    Root(Seq<char>),
    FileEntry(EntryView),
    DirEntry(EntryView),
    Data(Seq<u8>),
    End,
}

/// One item of what a stream carries.
#[derive(Debug)]
pub enum FsData {
    /// The root of the stream, with the full path to it.
    Root(String),
    /// A file: an entry that is no directory.
    FileEntry(DirEntry),
    /// A directory.
    DirEntry(DirEntry),
    /// A block of bytes of a file.
    Data(Vec<u8>),
    /// The end of a file or directory. What follows belongs to the parent
    /// directory, if there is one.
    End,
}

impl View for FsData {
    type V = MsgView;

    open spec fn view(&self) -> MsgView {
        match self {
            FsData::Root(p) => MsgView::Root(p@),
            FsData::FileEntry(e) => MsgView::FileEntry(e@),
            FsData::DirEntry(e) => MsgView::DirEntry(e@),
            FsData::Data(b) => MsgView::Data(b@),
            FsData::End => MsgView::End,
        }
    }
}

/// What is sent on the channel: an item, and the slot on which the receiver
/// answers it.
#[derive(Debug)]
pub struct FsMsg {
    pub data: FsData,
    pub reply: Sender<Action>,
}

/// A decision on its way back to the sender of a message.
#[derive(Debug)]
pub struct Reply {
    pub to: Sender<Action>,
    pub action: Action,
}

#[derive(Debug)]
#[allow(inconsistent_fields)]
pub enum Error {
    /// A directory where a file was asked for.
    ErrIsADirectory { entry: DirEntry },
    /// A file where a directory was asked for.
    ErrNotADirectory { entry: DirEntry },
    /// The peer went away before the stream was complete.
    ErrUnexpectedClosedChannel,
    ErrIO { source: std::io::Error },
    /// A send found the receiving end gone.
    ErrChanSend { item: String },
    /// A message of a kind that is not legal in the state it arrived in.
    ErrUnexpectedMessage,
    ErrTaskJoin { source: JoinError },
    /// A command was given an argument it cannot use.
    ErrUsage { msg: String },
}

/// The error of a send that found the receiving end gone. `item` says what
/// was being sent; the message that could not be sent is dropped.
pub fn send_failed<T>(failed: SendError<T>, item: String) -> (r: Error)
    ensures
        r == (Error::ErrChanSend { item }),
{
    Error::ErrChanSend { item }
}

/// What came out of a queue, or the error of a queue that closed too early.
pub fn recv<T>(received: Option<T>) -> (r: Result<T, Error>)
    ensures
        match received {
            Some(v) => r == Ok::<T, Error>(v),
            None => r == Err::<T, Error>(Error::ErrUnexpectedClosedChannel),
        },
{
    match received {
        Some(v) => Ok(v),
        None => Err(Error::ErrUnexpectedClosedChannel),
    }
}

} // verus!
