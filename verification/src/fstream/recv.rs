//! The receiving side of a stream: what a consumer may do next, by state.
use vstd::prelude::*;
use tokio::sync::mpsc::{Receiver, Sender};
use super::common::{moved, Action, DirEntry, Error, FsData, FsMsg, Kind, Reply};
use super::level::{FileLevel, Level};

verus! {

/// A receiver before the root has arrived.
#[derive(Debug)]
pub struct Root {
    c: Receiver<FsMsg>,
}

/// A receiver inside a directory, `depth` levels below the start of the stream.
#[derive(Debug)]
pub struct Dir {
    level: Level,
    c: Receiver<FsMsg>,
}

/// A receiver inside a file.
#[derive(Debug)]
pub struct File {
    level: FileLevel,
    c: Receiver<FsMsg>,
}

/// The decision that is open on a directory entry.
#[derive(Debug)]
pub struct DirEntryAction {
    level: Level,
    c: Receiver<FsMsg>,
    reply: Sender<Action>,
}

/// The decision that is open on a file entry.
#[derive(Debug)]
pub struct FileEntryAction {
    level: Level,
    c: Receiver<FsMsg>,
    reply: Sender<Action>,
}

/// What a directory yields next.
#[derive(Debug)]
pub enum Entry {
    File(DirEntry, FileEntryAction),
    Dir(DirEntry, DirEntryAction),
    /// The directory has ended. The answer is owed all the same; the parent
    /// directory follows, or nothing where the stream has ended.
    End(Reply, Option<Dir>),
}

/// What a file yields next.
#[derive(Debug)]
pub enum Data {
    /// A block of the file, the answer that asks for the next one, and the
    /// file to go on with.
    Bytes(Vec<u8>, Reply, File),
    /// The file has ended. The answer is owed all the same; the directory
    /// that holds the file follows.
    End(Reply, Dir),
}

/// The depth of the directory that is there, if one is.
pub open spec fn depth_of(dir: Option<Dir>) -> Option<int> {
    match dir {
        Some(d) => Some(d.depth() as int),
        None => None,
    }
}

pub fn new_root(c: Receiver<FsMsg>) -> (r: Root)
    ensures
        r.chan() == c,
{
    Root { c }
}

impl Root {
    pub closed spec fn chan(&self) -> Receiver<FsMsg> {
        self.c
    }

    /// The queue on which the messages arrive, to receive from. What is
    /// done to it through the borrow is done to this state's queue.
    pub fn channel(&mut self) -> (r: &mut Receiver<FsMsg>)
        ensures
            *r == old(self).chan(),
            final(self).chan() == *final(r),
    {
        &mut self.c
    }

    /// Takes the first message of the stream, which has to be the root, and
    /// accepts it.
    pub fn dir(self, msg: FsMsg) -> (r: Result<(String, Reply, Dir), Error>)
        ensures
            match msg.data {
                FsData::Root(path) => r matches Ok(s) && s.0 == path && s.1.action == Action::Down
                    && s.1.to == msg.reply && s.2.depth() == 1 && s.2.chan() == self.chan(),
                _ => r matches Err(e) && e == Error::ErrUnexpectedMessage,
            },
    {
        match msg.data {
            FsData::Root(path) => Ok(
                (
                    path,
                    Reply { to: msg.reply, action: Action::Down },
                    Dir { level: Level::first(), c: self.c },
                ),
            ),
            _ => Err(Error::ErrUnexpectedMessage),
        }
    }
}

impl Dir {
    pub closed spec fn spec_depth(&self) -> i32 {
        self.level.n
    }

    pub closed spec fn chan(&self) -> Receiver<FsMsg> {
        self.c
    }

    /// How many directories are open, this one included.
    #[verifier::when_used_as_spec(spec_depth)]
    pub fn depth(&self) -> (r: i32)
        ensures
            r == self.depth(),
            r >= 1,
    {
        self.level.get()
    }

    /// The queue on which the messages arrive, to receive from. What is
    /// done to it through the borrow is done to this state's queue; the depth
    /// stays.
    pub fn channel(&mut self) -> (r: &mut Receiver<FsMsg>)
        ensures
            *r == old(self).chan(),
            final(self).chan() == *final(r),
            final(self).depth() == old(self).depth(),
    {
        &mut self.c
    }

    /// Sorts the next message of this directory: an entry, on which a
    /// decision is then open, or the end. Any other message has no place here.
    pub fn entry(self, msg: FsMsg) -> (r: Result<Entry, Error>)
        ensures
            match msg.data {
                FsData::DirEntry(entry) => r matches Ok(Entry::Dir(e, a)) && e == entry
                    && a.depth() == self.depth() && a.chan() == self.chan() && a.reply_to()
                    == msg.reply,
                FsData::FileEntry(entry) => r matches Ok(Entry::File(e, a)) && e == entry
                    && a.depth() == self.depth() && a.chan() == self.chan() && a.reply_to()
                    == msg.reply,
                FsData::End => r matches Ok(Entry::End(reply, parent)) && reply.action
                    == Action::Next && reply.to == msg.reply && (self.depth() <= 1
                    <==> parent is None) && (parent matches Some(d) ==> d.depth() == self.depth()
                    - 1 && d.chan() == self.chan()) && depth_of(parent) == moved(
                    Kind::End,
                    self.depth() as int,
                    reply.action,
                ),
                _ => r matches Err(e) && e == Error::ErrUnexpectedMessage,
            },
    {
        match msg.data {
            FsData::DirEntry(entry) => Ok(
                Entry::Dir(entry, DirEntryAction { level: self.level, c: self.c, reply: msg.reply }),
            ),
            FsData::FileEntry(entry) => Ok(
                Entry::File(
                    entry,
                    FileEntryAction { level: self.level, c: self.c, reply: msg.reply },
                ),
            ),
            FsData::End => {
                let parent = match self.level.up() {
                    Some(level) => Some(Dir { level, c: self.c }),
                    None => None,
                };
                Ok(Entry::End(Reply { to: msg.reply, action: Action::Next }, parent))
            },
            _ => Err(Error::ErrUnexpectedMessage),
        }
    }
}

impl DirEntryAction {
    pub closed spec fn depth(&self) -> int {
        self.level.n as int
    }

    pub closed spec fn chan(&self) -> Receiver<FsMsg> {
        self.c
    }

    pub closed spec fn reply_to(&self) -> Sender<Action> {
        self.reply
    }

    /// Whether another directory may be opened below this one.
    pub fn can_descend(&self) -> (r: bool)
        ensures
            r == (self.depth() < i32::MAX),
    {
        self.level.get() < i32::MAX
    }

    /// Enters the directory.
    pub fn down(self) -> (r: (Reply, Dir))
        requires
            self.depth() < i32::MAX,
        ensures
            r.0.action == Action::Down,
            r.0.to == self.reply_to(),
            r.1.depth() == self.depth() + 1,
            r.1.chan() == self.chan(),
            Some(r.1.depth() as int) == moved(Kind::Dir, self.depth(), r.0.action),
    {
        (
            Reply { to: self.reply, action: Action::Down },
            Dir { level: self.level.down(), c: self.c },
        )
    }

    /// Passes the directory by.
    pub fn next(self) -> (r: (Reply, Dir))
        ensures
            r.0.action == Action::Next,
            r.0.to == self.reply_to(),
            r.1.depth() == self.depth(),
            r.1.chan() == self.chan(),
            Some(r.1.depth() as int) == moved(Kind::Dir, self.depth(), r.0.action),
    {
        (Reply { to: self.reply, action: Action::Next }, Dir { level: self.level, c: self.c })
    }

    /// Abandons the rest of the directory the entry lies in. The parent
    /// directory follows, or nothing where the root was abandoned.
    pub fn skip(self) -> (r: (Reply, Option<Dir>))
        ensures
            r.0.action == Action::Skip,
            r.0.to == self.reply_to(),
            self.depth() <= 1 <==> r.1 is None,
            r.1 matches Some(d) ==> d.depth() == self.depth() - 1 && d.chan() == self.chan(),
            depth_of(r.1) == moved(Kind::Dir, self.depth(), r.0.action),
    {
        let parent = match self.level.up() {
            Some(level) => Some(Dir { level, c: self.c }),
            None => None,
        };
        (Reply { to: self.reply, action: Action::Skip }, parent)
    }
}

impl FileEntryAction {
    pub closed spec fn depth(&self) -> int {
        self.level.n as int
    }

    pub closed spec fn chan(&self) -> Receiver<FsMsg> {
        self.c
    }

    pub closed spec fn reply_to(&self) -> Sender<Action> {
        self.reply
    }

    /// Whether the file may be opened.
    pub fn can_descend(&self) -> (r: bool)
        ensures
            r == (self.depth() < i32::MAX),
    {
        self.level.get() < i32::MAX
    }

    /// Opens the file, to read its data.
    pub fn down(self) -> (r: (Reply, File))
        requires
            self.depth() < i32::MAX,
        ensures
            r.0.action == Action::Down,
            r.0.to == self.reply_to(),
            r.1.depth() == self.depth() + 1,
            r.1.chan() == self.chan(),
            Some(r.1.depth() as int) == moved(Kind::File, self.depth(), r.0.action),
    {
        (
            Reply { to: self.reply, action: Action::Down },
            File { level: self.level.open(), c: self.c },
        )
    }

    /// Passes the file by.
    pub fn next(self) -> (r: (Reply, Dir))
        ensures
            r.0.action == Action::Next,
            r.0.to == self.reply_to(),
            r.1.depth() == self.depth(),
            r.1.chan() == self.chan(),
            Some(r.1.depth() as int) == moved(Kind::File, self.depth(), r.0.action),
    {
        (Reply { to: self.reply, action: Action::Next }, Dir { level: self.level, c: self.c })
    }

    /// Abandons the rest of the directory the file lies in. The parent
    /// directory follows, or nothing where the root was abandoned.
    pub fn skip(self) -> (r: (Reply, Option<Dir>))
        ensures
            r.0.action == Action::Skip,
            r.0.to == self.reply_to(),
            self.depth() <= 1 <==> r.1 is None,
            r.1 matches Some(d) ==> d.depth() == self.depth() - 1 && d.chan() == self.chan(),
            depth_of(r.1) == moved(Kind::File, self.depth(), r.0.action),
    {
        let parent = match self.level.up() {
            Some(level) => Some(Dir { level, c: self.c }),
            None => None,
        };
        (Reply { to: self.reply, action: Action::Skip }, parent)
    }
}

impl File {
    pub closed spec fn spec_depth(&self) -> i32 {
        self.level.n
    }

    pub closed spec fn chan(&self) -> Receiver<FsMsg> {
        self.c
    }

    /// How many levels are open, the file included: at least two, since a
    /// file lies in a directory.
    #[verifier::when_used_as_spec(spec_depth)]
    pub fn depth(&self) -> (r: i32)
        ensures
            r == self.depth(),
            r >= 2,
    {
        self.level.get()
    }

    /// The queue on which the messages arrive, to receive from. What is
    /// done to it through the borrow is done to this state's queue; the depth
    /// stays.
    pub fn channel(&mut self) -> (r: &mut Receiver<FsMsg>)
        ensures
            *r == old(self).chan(),
            final(self).chan() == *final(r),
            final(self).depth() == old(self).depth(),
    {
        &mut self.c
    }

    /// Sorts the next message of this file: a block, or the end. Any other
    /// message has no place here.
    pub fn data(self, msg: FsMsg) -> (r: Result<Data, Error>)
        ensures
            match msg.data {
                FsData::Data(block) => r matches Ok(Data::Bytes(b, reply, f)) && b == block
                    && reply.action == Action::Next && reply.to == msg.reply && f.depth()
                    == self.depth() && f.chan() == self.chan(),
                FsData::End => r matches Ok(Data::End(reply, d)) && reply.action == Action::Next
                    && reply.to == msg.reply && d.depth() == self.depth() - 1 && d.chan()
                    == self.chan(),
                _ => r matches Err(e) && e == Error::ErrUnexpectedMessage,
            },
    {
        match msg.data {
            FsData::Data(block) => Ok(
                Data::Bytes(
                    block,
                    Reply { to: msg.reply, action: Action::Next },
                    File { level: self.level, c: self.c },
                ),
            ),
            FsData::End => Ok(
                Data::End(
                    Reply { to: msg.reply, action: Action::Next },
                    Dir { level: self.level.close(), c: self.c },
                ),
            ),
            _ => Err(Error::ErrUnexpectedMessage),
        }
    }

    /// Abandons the rest of the file without a word to the sender: nothing is
    /// received and nothing is answered. The queue is given up with the
    /// state, so that the sender finds it closed at its next send; no state
    /// is left to receive with.
    pub fn skip(self) {
    }
}

} // verus!
