//! The producer: a depth-first walk of a directory tree, the entries of each
//! directory in the order of their names.
//!
//! The walk itself touches no filesystem. It says what it needs next (a
//! message answered, a directory listed, a block of a file read) and goes on
//! from what it is handed.
use vstd::prelude::*;
use tokio::sync::mpsc::{Receiver, Sender};
use crate::command::Command as Starts;
use crate::command::{CommandType, Task, Tasks, Type, Value};
use crate::fstream;
use crate::fstream::common::{
    Action,
    DirEntry,
    EntryView,
    FsMsg,
    Kind,
    MsgView,
    Path,
    PathView,
};
use crate::fstream::send::{
    DataReply,
    DirEndReply,
    DirEntryAction,
    DirEntryReply,
    FileAction,
    FileEndReply,
    FileEntryAction,
    FileEntryReply,
    RootReply,
};
use crate::order::{sort, sorted, views};

verus! {

/// The size of the blocks in which the contents of a file are sent.
pub const BLOCK_SIZE: usize = 8192;

#[derive(Debug)]
#[allow(inconsistent_fields)]
pub enum Error {
    /// The path to walk is no directory.
    ErrNotDirectory,
    ErrFstream { source: fstream::Error },
    ErrIO { source: std::io::Error },
}

/// What a walk knows besides the kind of step it is at: the path it has
/// reached, for each open directory the entries not yet offered, and the depth
/// of its sender.
pub struct WalkState {
    pub path: PathView,
    pub frames: Seq<Seq<EntryView>>,
    pub depth: int,
}

/// What a contract says of a step of the walk. A read is the first of its
/// file, or a later one.
pub enum WalkView {
    Send(MsgView, Kind, WalkState),
    List(WalkState),
    Read(WalkState, bool),
    Done,
}

impl WalkState {
    /// Both the path and the list of open directories are `below` levels
    /// short of the sender's depth.
    pub open spec fn level(self, below: int) -> bool {
        &&& self.frames.len() == self.depth - below
        &&& self.path.names.len() == self.depth - below
    }

    /// The state fits a message of kind `kind` that waits for its answer.
    pub open spec fn awaiting(self, kind: Kind) -> bool {
        match kind {
            Kind::Root => self.depth == 0 && self.level(0),
            Kind::Dir | Kind::File => self.depth >= 1 && self.level(0),
            Kind::End => self.depth >= 1 && self.level(1),
            Kind::Data | Kind::FileEnd => self.depth >= 2 && self.level(1),
        }
    }

    /// The state fits a directory that waits to be listed.
    pub open spec fn listing(self) -> bool {
        self.depth >= 1 && self.level(1)
    }

    /// The state fits a file that waits to be read.
    pub open spec fn reading(self) -> bool {
        self.depth >= 2 && self.level(1)
    }
}

impl WalkView {
    pub open spec fn wf(self) -> bool {
        match self {
            WalkView::Send(_, kind, s) => s.awaiting(kind),
            WalkView::List(s) => s.listing(),
            WalkView::Read(s, _) => s.reading(),
            WalkView::Done => true,
        }
    }
}

/// A walk that waits for the answer to a message of kind `kind` can take `a`
/// for it: a descent has to fit the counter of the depth.
pub open spec fn accepts(kind: Kind, s: WalkState, a: Action) -> bool {
    a == Action::Down && (kind == Kind::Dir || kind == Kind::File) ==> s.depth < i32::MAX
}

/// The step that follows in a directory at `depth` whose entries not yet
/// offered are the last of `frames`: the first of them is offered, or, where
/// none is left, the end of the directory is announced.
pub open spec fn advance(path: PathView, frames: Seq<Seq<EntryView>>, depth: int) -> WalkView {
    let top = frames.last();
    if top.len() > 0 {
        let e = top[0];
        let s = WalkState {
            path: path.push(e.name),
            frames: frames.drop_last().push(top.drop_first()),
            depth,
        };
        if e.dir {
            WalkView::Send(MsgView::DirEntry(e), Kind::Dir, s)
        } else {
            WalkView::Send(MsgView::FileEntry(e), Kind::File, s)
        }
    } else {
        WalkView::Send(
            MsgView::End,
            Kind::End,
            WalkState { path, frames: frames.drop_last(), depth },
        )
    }
}

/// The step that follows the answer `a` to a message of kind `kind`.
pub open spec fn answered(kind: Kind, s: WalkState, a: Action) -> WalkView {
    match kind {
        Kind::Root => if a == Action::Down {
            WalkView::List(WalkState { depth: 1, ..s })
        } else {
            WalkView::Done
        },
        Kind::Dir | Kind::File => match a {
            Action::Down => if kind == Kind::Dir {
                WalkView::List(WalkState { depth: s.depth + 1, ..s })
            } else {
                WalkView::Read(WalkState { depth: s.depth + 1, ..s }, true)
            },
            Action::Next => advance(s.path.pop(), s.frames, s.depth),
            Action::Skip => if s.depth <= 1 {
                WalkView::Done
            } else {
                advance(s.path.pop().pop(), s.frames.drop_last(), s.depth - 1)
            },
        },
        Kind::End => if s.depth <= 1 {
            WalkView::Done
        } else {
            advance(s.path.pop(), s.frames, s.depth - 1)
        },
        Kind::Data => if a == Action::Skip {
            advance(s.path.pop(), s.frames, s.depth - 1)
        } else {
            WalkView::Read(s, false)
        },
        Kind::FileEnd => advance(s.path.pop(), s.frames, s.depth - 1),
    }
}

/// The step that follows the listing of a directory.
pub open spec fn listed(s: WalkState, entries: Seq<EntryView>) -> WalkView {
    advance(s.path, s.frames.push(sorted(entries)), s.depth)
}

/// The step that follows a read of `n` bytes into `data`: the bytes read are
/// sent, or the end of the file is announced where nothing was read.
pub open spec fn read(s: WalkState, data: Seq<u8>, n: int) -> WalkView {
    if n == 0 {
        WalkView::Send(MsgView::End, Kind::FileEnd, s)
    } else if n <= data.len() {
        WalkView::Send(MsgView::Data(data.subrange(0, n)), Kind::Data, s)
    } else {
        WalkView::Send(MsgView::Data(data), Kind::Data, s)
    }
}

/// A skip abandons the directory that the entry lies in. Whatever that
/// directory still had to offer makes no difference to what follows: the walk
/// goes on with the next entry of the parent directory, or with the end of
/// the parent where none is left, one level up. A skip in the root
/// directory ends the walk.
pub proof fn lemma_skip_leaves_directory(kind: Kind, s: WalkState, other: Seq<EntryView>)
    requires
        kind == Kind::Dir || kind == Kind::File,
        s.awaiting(kind),
    ensures
        s.depth <= 1 ==> answered(kind, s, Action::Skip) == WalkView::Done,
        s.depth >= 2 ==> {
            let parent = s.frames[s.frames.len() - 2];
            let above = s.frames.drop_last().drop_last();
            let t = WalkState { frames: s.frames.drop_last().push(other), ..s };
            &&& answered(kind, t, Action::Skip) == answered(kind, s, Action::Skip)
            &&& answered(kind, s, Action::Skip) matches WalkView::Send(m, _, n)
            &&& n.depth == s.depth - 1
            &&& if parent.len() > 0 {
                &&& m == MsgView::DirEntry(parent[0]) || m == MsgView::FileEntry(parent[0])
                &&& n.frames == above.push(parent.drop_first())
            } else {
                &&& m == MsgView::End
                &&& n.frames == above
            }
        },
{
    if s.depth >= 2 {
        let t = WalkState { frames: s.frames.drop_last().push(other), ..s };
        assert(t.frames.drop_last() =~= s.frames.drop_last());
    }
}

/// The path a walk has reached and, for each open directory, the entries not
/// yet offered.
#[derive(Debug)]
struct Trail {
    path: Path,
    frames: Vec<Vec<DirEntry>>,
}

impl Trail {
    spec fn frames(&self) -> Seq<Seq<EntryView>> {
        Seq::new(self.frames@.len(), |i: int| views(self.frames@[i]@))
    }
}

#[derive(Debug)]
enum Sent {
    Root(RootReply),
    Dir(DirEntryReply),
    File(FileEntryReply),
    End(DirEndReply),
    Data(DataReply),
    FileEnd(FileEndReply),
}

impl Sent {
    spec fn kind(&self) -> Kind {
        match self {
            Sent::Root(_) => Kind::Root,
            Sent::Dir(_) => Kind::Dir,
            Sent::File(_) => Kind::File,
            Sent::End(_) => Kind::End,
            Sent::Data(_) => Kind::Data,
            Sent::FileEnd(_) => Kind::FileEnd,
        }
    }

    spec fn depth(&self) -> int {
        match self {
            Sent::Root(_) => 0,
            Sent::Dir(p) => p.depth(),
            Sent::File(p) => p.depth(),
            Sent::End(p) => p.depth(),
            Sent::Data(p) => p.depth(),
            Sent::FileEnd(p) => p.depth(),
        }
    }

    spec fn slot(&self) -> Receiver<Action> {
        match self {
            Sent::Root(p) => p.slot(),
            Sent::Dir(p) => p.slot(),
            Sent::File(p) => p.slot(),
            Sent::End(p) => p.slot(),
            Sent::Data(p) => p.slot(),
            Sent::FileEnd(p) => p.slot(),
        }
    }

    spec fn link(&self) -> Sender<FsMsg> {
        match self {
            Sent::Root(p) => p.link(),
            Sent::Dir(p) => p.link(),
            Sent::File(p) => p.link(),
            Sent::End(p) => p.link(),
            Sent::Data(p) => p.link(),
            Sent::FileEnd(p) => p.link(),
        }
    }
}

/// A walk that has a message under way and waits for its answer.
#[derive(Debug)]
pub struct Sending {
    trail: Trail,
    sent: Sent,
}

/// A walk that waits for the entries of the directory at its path.
#[derive(Debug)]
pub struct Listing {
    trail: Trail,
    dir: fstream::SendDir,
}

/// A walk that waits for the next block of the file at its path.
#[derive(Debug)]
pub struct Reading {
    trail: Trail,
    file: fstream::SendFile,
    first: bool,
}

/// What a walk needs next.
#[derive(Debug)]
pub enum Walk {
    /// The message is to be sent, and the answer handed to `answered`.
    Send(FsMsg, Sending),
    /// The directory at the path is to be listed, and its entries handed to
    /// `walk_dir`.
    List(Listing),
    /// The next block of the file at the path is to be read, and handed to
    /// `walk_file`.
    Read(Reading),
    /// Nothing: the walk is over.
    Done,
}

impl Sending {
    pub closed spec fn kind(&self) -> Kind {
        self.sent.kind()
    }

    pub closed spec fn state(&self) -> WalkState {
        WalkState { path: self.trail.path@, frames: self.trail.frames(), depth: self.sent.depth() }
    }

    pub closed spec fn link(&self) -> Sender<FsMsg> {
        self.sent.link()
    }

    /// The slot on which the answer to the message under way arrives.
    pub closed spec fn slot(&self) -> Receiver<Action> {
        self.sent.slot()
    }

    pub open spec fn wf(&self) -> bool {
        self.state().awaiting(self.kind())
    }

    pub fn path(&self) -> (r: &Path)
        ensures
            r@ == self.state().path,
    {
        &self.trail.path
    }

    /// The queue on which the message is to be sent.
    pub fn channel(&self) -> (r: &Sender<FsMsg>)
        ensures
            *r == self.link(),
    {
        match &self.sent {
            Sent::Root(p) => p.channel(),
            Sent::Dir(p) => p.channel(),
            Sent::File(p) => p.channel(),
            Sent::End(p) => p.channel(),
            Sent::Data(p) => p.channel(),
            Sent::FileEnd(p) => p.channel(),
        }
    }

    /// The slot on which the answer arrives, to receive from. What is done
    /// to it through the borrow is done to this walk's slot; nothing else of
    /// the walk changes.
    pub fn replies(&mut self) -> (r: &mut Receiver<Action>)
        ensures
            *r == old(self).slot(),
            final(self).slot() == *final(r),
            final(self).link() == old(self).link(),
            final(self).kind() == old(self).kind(),
            final(self).state() == old(self).state(),
    {
        match &mut self.sent {
            Sent::Root(p) => p.replies(),
            Sent::Dir(p) => p.replies(),
            Sent::File(p) => p.replies(),
            Sent::End(p) => p.replies(),
            Sent::Data(p) => p.replies(),
            Sent::FileEnd(p) => p.replies(),
        }
    }

    /// Whether the walk can take `action` for an answer: a descent has to
    /// fit the counter of the depth.
    pub fn accepts(&self, action: Action) -> (r: bool)
        ensures
            r == accepts(self.kind(), self.state(), action),
    {
        match action {
            Action::Down => match &self.sent {
                Sent::Dir(p) => p.can_descend(),
                Sent::File(p) => p.can_descend(),
                _ => true,
            },
            _ => true,
        }
    }
}

impl Listing {
    pub closed spec fn state(&self) -> WalkState {
        WalkState {
            path: self.trail.path@,
            frames: self.trail.frames(),
            depth: self.dir.depth() as int,
        }
    }

    pub closed spec fn link(&self) -> Sender<FsMsg> {
        self.dir.link()
    }

    pub open spec fn wf(&self) -> bool {
        self.state().listing()
    }

    /// The path of the directory to list.
    pub fn path(&self) -> (r: &Path)
        ensures
            r@ == self.state().path,
    {
        &self.trail.path
    }
}

impl Reading {
    pub closed spec fn state(&self) -> WalkState {
        WalkState {
            path: self.trail.path@,
            frames: self.trail.frames(),
            depth: self.file.depth() as int,
        }
    }

    pub closed spec fn link(&self) -> Sender<FsMsg> {
        self.file.link()
    }

    pub open spec fn wf(&self) -> bool {
        self.state().reading()
    }

    /// The path of the file to read.
    pub fn path(&self) -> (r: &Path)
        ensures
            r@ == self.state().path,
    {
        &self.trail.path
    }

    pub closed spec fn first(&self) -> bool {
        self.first
    }

    /// Whether nothing has been read of the file yet, so that it is to be
    /// opened; where something has, the read goes on where the last one ended.
    pub fn is_first(&self) -> (r: bool)
        ensures
            r == self.first(),
    {
        self.first
    }
}

impl View for Walk {
    type V = WalkView;

    open spec fn view(&self) -> WalkView {
        match self {
            Walk::Send(msg, s) => WalkView::Send(msg.data@, s.kind(), s.state()),
            Walk::List(l) => WalkView::List(l.state()),
            Walk::Read(r) => WalkView::Read(r.state(), r.first()),
            Walk::Done => WalkView::Done,
        }
    }
}

impl Walk {
    /// The walk still holds the channel ends `link`, where it holds any.
    pub open spec fn keeps(&self, link: Sender<FsMsg>) -> bool {
        match self {
            Walk::Send(_, s) => s.link() == link,
            Walk::List(l) => l.link() == link,
            Walk::Read(r) => r.link() == link,
            Walk::Done => true,
        }
    }
}

/// Each step that follows a well-formed one is well-formed.
pub proof fn lemma_advance_wf(path: PathView, frames: Seq<Seq<EntryView>>, depth: int)
    requires
        depth >= 1,
        frames.len() == depth,
        path.names.len() == depth - 1,
    ensures
        advance(path, frames, depth).wf(),
{
}

fn next_entry(trail: Trail, dir: fstream::SendDir) -> (r: Walk)
    requires
        trail.frames().len() > 0,
    ensures
        r@ == advance(trail.path@, trail.frames(), dir.depth() as int),
        r.keeps(dir.link()),
{
    let ghost before = trail.frames();
    let Trail { mut path, mut frames } = trail;
    let mut top = frames.pop().unwrap();
    assert(views(top@) == before.last());
    if top.len() > 0 {
        let ghost first = top@;
        let e = top.remove(0);
        frames.push(top);
        path.push(e.name.clone());
        let trail = Trail { path, frames };
        proof {
            assert(views(first.remove(0)) =~= views(first).drop_first());
            assert(trail.frames() =~= before.drop_last().push(before.last().drop_first()));
        }
        if e.dir {
            match dir.dir(e) {
                Ok((msg, p)) => Walk::Send(msg, Sending { trail, sent: Sent::Dir(p) }),
                Err(_) => vstd::pervasive::unreached(),
            }
        } else {
            match dir.file(e) {
                Ok((msg, p)) => Walk::Send(msg, Sending { trail, sent: Sent::File(p) }),
                Err(_) => vstd::pervasive::unreached(),
            }
        }
    } else {
        let trail = Trail { path, frames };
        proof {
            assert(trail.frames() =~= before.drop_last());
        }
        let (msg, p) = dir.end();
        Walk::Send(msg, Sending { trail, sent: Sent::End(p) })
    }
}

/// Starts a walk at `path`, which has to be a directory: the root is offered.
pub fn walk(path: String, is_dir: bool, root: fstream::SendRoot) -> (r: Result<Walk, Error>)
    ensures
        !is_dir <==> r is Err,
        r matches Err(e) ==> e == Error::ErrNotDirectory,
        r matches Ok(w) ==> w@ == WalkView::Send(
            MsgView::Root(path@),
            Kind::Root,
            WalkState {
                path: PathView { root: path@, names: Seq::empty() },
                frames: Seq::empty(),
                depth: 0,
            },
        ) && w.keeps(root.link()) && w@.wf(),
{
    if !is_dir {
        return Err(Error::ErrNotDirectory);
    }
    let (msg, p) = root.dir(path.clone());
    let trail = Trail { path: Path::new(path), frames: Vec::new() };
    assert(trail.frames() =~= Seq::empty());
    Ok(Walk::Send(msg, Sending { trail, sent: Sent::Root(p) }))
}

/// Takes the entries of the directory that was to be listed, in any order,
/// and offers the first of them by name, or announces the end of the
/// directory where it is empty.
pub fn walk_dir(listing: Listing, entries: Vec<DirEntry>) -> (r: Walk)
    requires
        listing.wf(),
    ensures
        r@ == listed(listing.state(), views(entries@)),
        r.keeps(listing.link()),
        r@.wf(),
{
    let ghost before = listing.trail.frames();
    let Listing { trail, dir } = listing;
    let Trail { path, mut frames } = trail;
    let ordered = sort(entries);
    frames.push(ordered);
    let trail = Trail { path, frames };
    proof {
        assert(trail.frames() =~= before.push(sorted(views(entries@))));
        lemma_advance_wf(trail.path@, trail.frames(), dir.depth() as int);
    }
    next_entry(trail, dir)
}

/// A buffer of the size of one block, to read into.
pub fn block_buffer() -> (r: Vec<u8>)
    ensures
        r@.len() == BLOCK_SIZE,
        forall|i: int| 0 <= i < r@.len() ==> r@[i] == 0,
{
    let r = vec![0u8; BLOCK_SIZE];
    r
}

/// Takes what a read of the file delivered: `n` bytes at the start of
/// `data`. They are sent as one block; where nothing was read the end of the
/// file is announced.
pub fn walk_file(reading: Reading, data: Vec<u8>, n: usize) -> (r: Walk)
    requires
        reading.wf(),
    ensures
        r@ == read(reading.state(), data@, n as int),
        r.keeps(reading.link()),
        r@.wf(),
{
    let Reading { trail, file, first: _ } = reading;
    if n == 0 {
        let (msg, p) = file.end();
        return Walk::Send(msg, Sending { trail, sent: Sent::FileEnd(p) });
    }
    let mut data = data;
    data.truncate(n);
    let (msg, p) = file.data(data);
    Walk::Send(msg, Sending { trail, sent: Sent::Data(p) })
}

impl Sending {
    /// Takes the answer to the message under way and goes on from it.
    pub fn answered(self, action: Action) -> (r: Walk)
        requires
            self.wf(),
            accepts(self.kind(), self.state(), action),
        ensures
            r@ == answered(self.kind(), self.state(), action),
            r.keeps(self.link()),
            r@.wf(),
    {
        let Sending { trail, sent } = self;
        let Trail { mut path, mut frames } = trail;
        let ghost before = trail.frames();
        match sent {
            Sent::Root(p) => match p.resolve(action) {
                Some(dir) => Walk::List(Listing { trail: Trail { path, frames }, dir }),
                None => Walk::Done,
            },
            Sent::Dir(p) => match p.resolve(action) {
                DirEntryAction::Down(dir) => Walk::List(
                    Listing { trail: Trail { path, frames }, dir },
                ),
                DirEntryAction::Next(dir) => {
                    path.pop();
                    let trail = Trail { path, frames };
                    proof {
                        lemma_advance_wf(trail.path@, trail.frames(), dir.depth() as int);
                    }
                    next_entry(trail, dir)
                },
                DirEntryAction::Skip(dir) => {
                    path.pop();
                    path.pop();
                    frames.pop();
                    let trail = Trail { path, frames };
                    proof {
                        assert(trail.frames() =~= before.drop_last());
                        lemma_advance_wf(trail.path@, trail.frames(), dir.depth() as int);
                    }
                    next_entry(trail, dir)
                },
                DirEntryAction::End => Walk::Done,
            },
            Sent::File(p) => match p.resolve(action) {
                FileEntryAction::Down(file) => Walk::Read(
                    Reading { trail: Trail { path, frames }, file, first: true },
                ),
                FileEntryAction::Next(dir) => {
                    path.pop();
                    let trail = Trail { path, frames };
                    proof {
                        lemma_advance_wf(trail.path@, trail.frames(), dir.depth() as int);
                    }
                    next_entry(trail, dir)
                },
                FileEntryAction::Skip(dir) => {
                    path.pop();
                    path.pop();
                    frames.pop();
                    let trail = Trail { path, frames };
                    proof {
                        assert(trail.frames() =~= before.drop_last());
                        lemma_advance_wf(trail.path@, trail.frames(), dir.depth() as int);
                    }
                    next_entry(trail, dir)
                },
                FileEntryAction::End => Walk::Done,
            },
            Sent::End(p) => match p.resolve(action) {
                Some(dir) => {
                    path.pop();
                    let trail = Trail { path, frames };
                    proof {
                        lemma_advance_wf(trail.path@, trail.frames(), dir.depth() as int);
                    }
                    next_entry(trail, dir)
                },
                None => Walk::Done,
            },
            Sent::Data(p) => match p.resolve(action) {
                FileAction::Next(file) => Walk::Read(
                    Reading { trail: Trail { path, frames }, file, first: false },
                ),
                FileAction::Skip(dir) => {
                    path.pop();
                    let trail = Trail { path, frames };
                    proof {
                        lemma_advance_wf(trail.path@, trail.frames(), dir.depth() as int);
                    }
                    next_entry(trail, dir)
                },
            },
            Sent::FileEnd(p) => {
                let dir = p.resolve(action);
                path.pop();
                let trail = Trail { path, frames };
                proof {
                    lemma_advance_wf(trail.path@, trail.frames(), dir.depth() as int);
                }
                next_entry(trail, dir)
            },
        }
    }
}

/// The command that walks a directory tree.
#[derive(Debug)]
pub struct Command(CommandType);

/// The command that walks a directory tree: it takes the path of the tree
/// and gives the stream of its contents.
pub fn new_command() -> (r: Command)
    ensures
        r.signature().is(seq![Type::String], None, Type::Fs),
{
    let mut args: Vec<Type> = Vec::new();
    args.push(Type::String);
    assert(args@ =~= seq![Type::String]);
    Command(CommandType::new(args, None, Type::Fs))
}

impl Command {
    #[verifier::type_invariant]
    spec fn inv(self) -> bool {
        self.0.is(seq![Type::String], None, Type::Fs)
    }
}

impl Starts for Command {
    closed spec fn signature(&self) -> CommandType {
        self.0
    }

    fn fs_type(&self) -> (r: &CommandType)
        ensures
            r.is(seq![Type::String], None, Type::Fs),
    {
        proof {
            use_type_invariant(self);
        }
        &self.0
    }

    /// Makes a new stream, asks for a walk of the tree at the path that is
    /// its argument to be run into it, and gives the receiving half.
    fn start(&self, tasks: &mut Tasks, flags: Vec<String>, args: Vec<Value>, rest: Vec<Value>) -> (r:
        Result<Value, fstream::Error>)
        ensures
            r matches Ok(Value::Fs(_)),
            final(tasks)@.len() == old(tasks)@.len() + 1,
            final(tasks)@.last() matches Task::Walk(path, _) && path == args@.last()->String_0,
    {
        proof {
            use_type_invariant(self);
            self.0.lemma_admits_one(Type::String, Type::Fs, args@);
        }
        let mut args = args;
        match args.pop() {
            Some(Value::String(path)) => {
                let (send, recv) = fstream::new();
                tasks.add(Task::Walk(path, send));
                Ok(Value::Fs(recv))
            },
            _ => vstd::pervasive::unreached(),
        }
    }
}

} // verus!
