//! The sending side of a stream: what a producer may do next, by state.
//!
//! Each message carries a reply slot of its own, and the sender keeps the
//! other end of that slot alone. A receiver that goes away with a message
//! unanswered closes the slot, and the sender's wait for the answer ends.
use vstd::prelude::*;
use tokio::sync::mpsc::{Receiver, Sender};
use super::common::{moved, Action, DirEntry, Error, FsData, FsMsg, Kind, MsgView};
use super::level::{FileLevel, Level};

verus! {

/// The number of messages that a queue holds before a send has to wait: one,
/// so that a sender runs no further ahead of its receiver than one message.
pub const CAPACITY: usize = 1;

/// A bounded queue of `buffer` slots, by `tokio::sync::mpsc::channel`, which
/// does not return on a queue of no slots, nor on one of more slots than an
/// eighth of what a `usize` counts (the source has that limit as a shift by
/// three). Nothing is claimed of the two ends.
#[verifier::external_body]
pub(crate) fn channel<T>(buffer: usize) -> (r: (Sender<T>, Receiver<T>))
    requires
        0 < buffer <= usize::MAX / 8,
{
    tokio::sync::mpsc::channel(buffer)
}

/// A sender before the root has been offered.
#[derive(Debug)]
pub struct Root {
    c: Sender<FsMsg>,
}

/// A sender inside a directory, `depth` levels below the start of the stream.
#[derive(Debug)]
pub struct Dir {
    level: Level,
    c: Sender<FsMsg>,
}

/// A sender inside a file.
#[derive(Debug)]
pub struct File {
    level: FileLevel,
    c: Sender<FsMsg>,
}

/// The root is on its way; the answer decides whether a stream follows.
#[derive(Debug)]
pub struct RootReply {
    c: Sender<FsMsg>,
    slot: Receiver<Action>,
}

/// A directory entry is on its way.
#[derive(Debug)]
pub struct DirEntryReply {
    level: Level,
    c: Sender<FsMsg>,
    slot: Receiver<Action>,
}

/// A file entry is on its way.
#[derive(Debug)]
pub struct FileEntryReply {
    level: Level,
    c: Sender<FsMsg>,
    slot: Receiver<Action>,
}

/// The end of a directory is on its way.
#[derive(Debug)]
pub struct DirEndReply {
    level: Level,
    c: Sender<FsMsg>,
    slot: Receiver<Action>,
}

/// A block of a file is on its way.
#[derive(Debug)]
pub struct DataReply {
    level: FileLevel,
    c: Sender<FsMsg>,
    slot: Receiver<Action>,
}

/// The end of a file is on its way.
#[derive(Debug)]
pub struct FileEndReply {
    level: FileLevel,
    c: Sender<FsMsg>,
    slot: Receiver<Action>,
}

/// Where a sender stands after the answer to a directory entry.
#[derive(Debug)]
pub enum DirEntryAction {
    /// Inside the new directory.
    Down(Dir),
    /// Still in the same directory, at the next entry.
    Next(Dir),
    /// Back in the parent directory; the rest of this one is abandoned.
    Skip(Dir),
    /// The directory abandoned was the root: nothing more can be sent.
    End,
}

/// Where a sender stands after the answer to a file entry.
#[derive(Debug)]
pub enum FileEntryAction {
    /// Inside the file, ready to send its data.
    Down(File),
    /// Still in the same directory, at the next entry.
    Next(Dir),
    /// Back in the parent directory; the rest of this one is abandoned.
    Skip(Dir),
    /// The directory abandoned was the root: nothing more can be sent.
    End,
}

/// Where a sender stands after the answer to a block of data.
#[derive(Debug)]
pub enum FileAction {
    /// Still in the file, at the next block.
    Next(File),
    /// Back in the directory that holds the file.
    Skip(Dir),
}

/// The depth of the directory that is there, if one is.
pub open spec fn depth_of(dir: Option<Dir>) -> Option<int> {
    match dir {
        Some(d) => Some(d.depth() as int),
        None => None,
    }
}

impl DirEntryAction {
    /// The depth the sender stands at; `None` where nothing more can be sent.
    pub open spec fn depth(&self) -> Option<int> {
        match self {
            DirEntryAction::Down(d) | DirEntryAction::Next(d) | DirEntryAction::Skip(d) => Some(
                d.depth() as int,
            ),
            DirEntryAction::End => None,
        }
    }
}

impl FileEntryAction {
    /// The depth the sender stands at; `None` where nothing more can be sent.
    pub open spec fn depth(&self) -> Option<int> {
        match self {
            FileEntryAction::Down(f) => Some(f.depth() as int),
            FileEntryAction::Next(d) | FileEntryAction::Skip(d) => Some(d.depth() as int),
            FileEntryAction::End => None,
        }
    }
}

impl FileAction {
    /// The depth the sender stands at.
    pub open spec fn depth(&self) -> Option<int> {
        match self {
            FileAction::Next(f) => Some(f.depth() as int),
            FileAction::Skip(d) => Some(d.depth() as int),
        }
    }
}

pub fn new_root(c: Sender<FsMsg>) -> (r: Root)
    ensures
        r.link() == c,
{
    Root { c }
}

impl Root {
    pub closed spec fn link(&self) -> Sender<FsMsg> {
        self.c
    }

    /// Offers the root of the stream.
    pub fn dir(self, path: String) -> (r: (FsMsg, RootReply))
        ensures
            r.0.data@ == FsData::Root(path)@,
            r.1.link() == self.link(),
    {
        let (reply, slot) = channel::<Action>(CAPACITY);
        (FsMsg { data: FsData::Root(path), reply }, RootReply { c: self.c, slot })
    }
}

impl RootReply {
    pub closed spec fn link(&self) -> Sender<FsMsg> {
        self.c
    }

    /// The slot on which the answer to the message under way arrives.
    pub closed spec fn slot(&self) -> Receiver<Action> {
        self.slot
    }

    pub fn channel(&self) -> (r: &Sender<FsMsg>)
        ensures
            *r == self.link(),
    {
        &self.c
    }

    /// The slot on which the answer arrives, to receive from. What is done
    /// to it through the borrow is done to this state's slot; nothing else of
    /// the state changes.
    pub fn replies(&mut self) -> (r: &mut Receiver<Action>)
        ensures
            *r == old(self).slot(),
            final(self).slot() == *final(r),
            final(self).link() == old(self).link(),
    {
        &mut self.slot
    }

    /// The directory below the root if the receiver wants the stream, and
    /// nothing if it declined it.
    pub fn resolve(self, action: Action) -> (r: Option<Dir>)
        ensures
            action == Action::Down <==> r is Some,
            r matches Some(d) ==> d.depth() == 1 && d.link() == self.link(),
            depth_of(r) == moved(Kind::Root, 0, action),
    {
        match action {
            Action::Down => Some(Dir { level: Level::first(), c: self.c }),
            _ => None,
        }
    }
}

impl Dir {
    pub closed spec fn spec_depth(&self) -> i32 {
        self.level.n
    }

    pub closed spec fn link(&self) -> Sender<FsMsg> {
        self.c
    }

    /// How many directories are open, this one included.
    #[verifier::when_used_as_spec(spec_depth)]
    pub fn depth(&self) -> (r: i32)
        ensures
            r == self.depth(),
            r >= 1,
    {
        self.level.get()
    }

    fn is_dir(entry: &DirEntry) -> (r: bool)
        ensures
            r == entry@.dir,
    {
        entry.is_dir()
    }

    /// Offers a file of this directory. Its name should compare greater than
    /// that of the entry offered before it. A directory is refused.
    pub fn file(self, entry: DirEntry) -> (r: Result<(FsMsg, FileEntryReply), Error>)
        ensures
            entry@.dir <==> r is Err,
            r matches Err(e) ==> e == (Error::ErrIsADirectory { entry }),
            r matches Ok(s) ==> s.0.data@ == FsData::FileEntry(entry)@ && s.1.depth()
                == self.depth() && s.1.link() == self.link(),
    {
        if Self::is_dir(&entry) {
            return Err(Error::ErrIsADirectory { entry });
        }
        let (reply, slot) = channel::<Action>(CAPACITY);
        Ok((FsMsg { data: FsData::FileEntry(entry), reply }, FileEntryReply { level: self.level, c: self.c, slot }))
    }

    /// Offers a directory of this directory. Its name should compare greater
    /// than that of the entry offered before it. A file is refused.
    pub fn dir(self, entry: DirEntry) -> (r: Result<(FsMsg, DirEntryReply), Error>)
        ensures
            !entry@.dir <==> r is Err,
            r matches Err(e) ==> e == (Error::ErrNotADirectory { entry }),
            r matches Ok(s) ==> s.0.data@ == FsData::DirEntry(entry)@ && s.1.depth()
                == self.depth() && s.1.link() == self.link(),
    {
        if !Self::is_dir(&entry) {
            return Err(Error::ErrNotADirectory { entry });
        }
        let (reply, slot) = channel::<Action>(CAPACITY);
        Ok((FsMsg { data: FsData::DirEntry(entry), reply }, DirEntryReply { level: self.level, c: self.c, slot }))
    }

    /// Announces the end of this directory.
    pub fn end(self) -> (r: (FsMsg, DirEndReply))
        ensures
            r.0.data@ == MsgView::End,
            r.1.depth() == self.depth(),
            r.1.link() == self.link(),
    {
        let (reply, slot) = channel::<Action>(CAPACITY);
        (FsMsg { data: FsData::End, reply }, DirEndReply { level: self.level, c: self.c, slot })
    }
}

impl DirEntryReply {
    pub closed spec fn depth(&self) -> int {
        self.level.n as int
    }

    pub closed spec fn link(&self) -> Sender<FsMsg> {
        self.c
    }

    /// The slot on which the answer to the message under way arrives.
    pub closed spec fn slot(&self) -> Receiver<Action> {
        self.slot
    }

    pub fn channel(&self) -> (r: &Sender<FsMsg>)
        ensures
            *r == self.link(),
    {
        &self.c
    }

    /// The slot on which the answer arrives, to receive from. What is done
    /// to it through the borrow is done to this state's slot; nothing else of
    /// the state changes.
    pub fn replies(&mut self) -> (r: &mut Receiver<Action>)
        ensures
            *r == old(self).slot(),
            final(self).slot() == *final(r),
            final(self).depth() == old(self).depth(),
            final(self).link() == old(self).link(),
    {
        &mut self.slot
    }

    /// Whether another directory may be opened below this one.
    pub fn can_descend(&self) -> (r: bool)
        ensures
            r == (self.depth() < i32::MAX),
    {
        self.level.get() < i32::MAX
    }

    /// Where the sender stands once the receiver has decided on the
    /// directory offered.
    pub fn resolve(self, action: Action) -> (r: DirEntryAction)
        requires
            action == Action::Down ==> self.depth() < i32::MAX,
        ensures
            match action {
                Action::Down => r matches DirEntryAction::Down(d) && d.depth() == self.depth()
                    + 1 && d.link() == self.link(),
                Action::Next => r matches DirEntryAction::Next(d) && d.depth() == self.depth()
                    && d.link() == self.link(),
                Action::Skip => if self.depth() <= 1 {
                    r is End
                } else {
                    r matches DirEntryAction::Skip(d) && d.depth() == self.depth() - 1
                        && d.link() == self.link()
                },
            },
            r.depth() == moved(Kind::Dir, self.depth(), action),
    {
        match action {
            Action::Down => DirEntryAction::Down(Dir { level: self.level.down(), c: self.c }),
            Action::Skip => {
                if let Some(level) = self.level.up() {
                    DirEntryAction::Skip(Dir { level, c: self.c })
                } else {
                    DirEntryAction::End
                }
            },
            Action::Next => DirEntryAction::Next(Dir { level: self.level, c: self.c }),
        }
    }
}

impl FileEntryReply {
    pub closed spec fn depth(&self) -> int {
        self.level.n as int
    }

    pub closed spec fn link(&self) -> Sender<FsMsg> {
        self.c
    }

    /// The slot on which the answer to the message under way arrives.
    pub closed spec fn slot(&self) -> Receiver<Action> {
        self.slot
    }

    pub fn channel(&self) -> (r: &Sender<FsMsg>)
        ensures
            *r == self.link(),
    {
        &self.c
    }

    /// The slot on which the answer arrives, to receive from. What is done
    /// to it through the borrow is done to this state's slot; nothing else of
    /// the state changes.
    pub fn replies(&mut self) -> (r: &mut Receiver<Action>)
        ensures
            *r == old(self).slot(),
            final(self).slot() == *final(r),
            final(self).depth() == old(self).depth(),
            final(self).link() == old(self).link(),
    {
        &mut self.slot
    }

    /// Whether the file offered may be opened.
    pub fn can_descend(&self) -> (r: bool)
        ensures
            r == (self.depth() < i32::MAX),
    {
        self.level.get() < i32::MAX
    }

    /// Where the sender stands once the receiver has decided on the file
    /// offered.
    pub fn resolve(self, action: Action) -> (r: FileEntryAction)
        requires
            action == Action::Down ==> self.depth() < i32::MAX,
        ensures
            match action {
                Action::Down => r matches FileEntryAction::Down(f) && f.depth() == self.depth()
                    + 1 && f.link() == self.link(),
                Action::Next => r matches FileEntryAction::Next(d) && d.depth() == self.depth()
                    && d.link() == self.link(),
                Action::Skip => if self.depth() <= 1 {
                    r is End
                } else {
                    r matches FileEntryAction::Skip(d) && d.depth() == self.depth() - 1
                        && d.link() == self.link()
                },
            },
            r.depth() == moved(Kind::File, self.depth(), action),
    {
        match action {
            Action::Down => FileEntryAction::Down(
                File { level: self.level.open(), c: self.c },
            ),
            Action::Skip => {
                if let Some(level) = self.level.up() {
                    FileEntryAction::Skip(Dir { level, c: self.c })
                } else {
                    FileEntryAction::End
                }
            },
            Action::Next => FileEntryAction::Next(Dir { level: self.level, c: self.c }),
        }
    }
}

impl DirEndReply {
    pub closed spec fn depth(&self) -> int {
        self.level.n as int
    }

    pub closed spec fn link(&self) -> Sender<FsMsg> {
        self.c
    }

    /// The slot on which the answer to the message under way arrives.
    pub closed spec fn slot(&self) -> Receiver<Action> {
        self.slot
    }

    pub fn channel(&self) -> (r: &Sender<FsMsg>)
        ensures
            *r == self.link(),
    {
        &self.c
    }

    /// The slot on which the answer arrives, to receive from. What is done
    /// to it through the borrow is done to this state's slot; nothing else of
    /// the state changes.
    pub fn replies(&mut self) -> (r: &mut Receiver<Action>)
        ensures
            *r == old(self).slot(),
            final(self).slot() == *final(r),
            final(self).depth() == old(self).depth(),
            final(self).link() == old(self).link(),
    {
        &mut self.slot
    }

    /// The parent directory, or nothing if the directory that ended was the
    /// root. Which decision came back makes no difference.
    pub fn resolve(self, action: Action) -> (r: Option<Dir>)
        ensures
            self.depth() <= 1 <==> r is None,
            r matches Some(d) ==> d.depth() == self.depth() - 1 && d.link() == self.link(),
            depth_of(r) == moved(Kind::End, self.depth(), action),
    {
        match self.level.up() {
            Some(level) => Some(Dir { level, c: self.c }),
            None => None,
        }
    }
}

impl File {
    pub closed spec fn spec_depth(&self) -> i32 {
        self.level.n
    }

    pub closed spec fn link(&self) -> Sender<FsMsg> {
        self.c
    }

    /// How many levels are open, the file included: at least two, since a
    /// file lies in a directory.
    #[verifier::when_used_as_spec(spec_depth)]
    pub fn depth(&self) -> (r: i32)
        ensures
            r == self.depth(),
            r >= 2,
    {
        self.level.get()
    }

    /// Sends a block of the file.
    pub fn data(self, b: Vec<u8>) -> (r: (FsMsg, DataReply))
        ensures
            r.0.data@ == MsgView::Data(b@),
            r.1.depth() == self.depth(),
            r.1.link() == self.link(),
    {
        let (reply, slot) = channel::<Action>(CAPACITY);
        (FsMsg { data: FsData::Data(b), reply }, DataReply { level: self.level, c: self.c, slot })
    }

    /// Announces the end of the file.
    pub fn end(self) -> (r: (FsMsg, FileEndReply))
        ensures
            r.0.data@ == MsgView::End,
            r.1.depth() == self.depth(),
            r.1.link() == self.link(),
    {
        let (reply, slot) = channel::<Action>(CAPACITY);
        (FsMsg { data: FsData::End, reply }, FileEndReply { level: self.level, c: self.c, slot })
    }
}

impl DataReply {
    pub closed spec fn depth(&self) -> int {
        self.level.n as int
    }

    pub closed spec fn link(&self) -> Sender<FsMsg> {
        self.c
    }

    /// The slot on which the answer to the message under way arrives.
    pub closed spec fn slot(&self) -> Receiver<Action> {
        self.slot
    }

    pub fn channel(&self) -> (r: &Sender<FsMsg>)
        ensures
            *r == self.link(),
    {
        &self.c
    }

    /// The slot on which the answer arrives, to receive from. What is done
    /// to it through the borrow is done to this state's slot; nothing else of
    /// the state changes.
    pub fn replies(&mut self) -> (r: &mut Receiver<Action>)
        ensures
            *r == old(self).slot(),
            final(self).slot() == *final(r),
            final(self).depth() == old(self).depth(),
            final(self).link() == old(self).link(),
    {
        &mut self.slot
    }

    /// Where the sender stands once the receiver has decided on the block:
    /// still in the file, or, after a skip, in the directory that holds it.
    pub fn resolve(self, action: Action) -> (r: FileAction)
        ensures
            match action {
                Action::Down | Action::Next => r matches FileAction::Next(f) && f.depth()
                    == self.depth() && f.link() == self.link(),
                Action::Skip => r matches FileAction::Skip(d) && d.depth() == self.depth() - 1
                    && d.link() == self.link(),
            },
            r.depth() == moved(Kind::Data, self.depth(), action),
    {
        match action {
            Action::Down | Action::Next => FileAction::Next(
                File { level: self.level, c: self.c },
            ),
            Action::Skip => FileAction::Skip(Dir { level: self.level.close(), c: self.c }),
        }
    }
}

impl FileEndReply {
    pub closed spec fn depth(&self) -> int {
        self.level.n as int
    }

    pub closed spec fn link(&self) -> Sender<FsMsg> {
        self.c
    }

    /// The slot on which the answer to the message under way arrives.
    pub closed spec fn slot(&self) -> Receiver<Action> {
        self.slot
    }

    pub fn channel(&self) -> (r: &Sender<FsMsg>)
        ensures
            *r == self.link(),
    {
        &self.c
    }

    /// The slot on which the answer arrives, to receive from. What is done
    /// to it through the borrow is done to this state's slot; nothing else of
    /// the state changes.
    pub fn replies(&mut self) -> (r: &mut Receiver<Action>)
        ensures
            *r == old(self).slot(),
            final(self).slot() == *final(r),
            final(self).depth() == old(self).depth(),
            final(self).link() == old(self).link(),
    {
        &mut self.slot
    }

    /// The directory that holds the file. Which decision came back makes no
    /// difference.
    pub fn resolve(self, action: Action) -> (r: Dir)
        ensures
            r.depth() == self.depth() - 1,
            r.link() == self.link(),
            Some(r.depth() as int) == moved(Kind::FileEnd, self.depth(), action),
    {
        Dir { level: self.level.close(), c: self.c }
    }
}

} // verus!
