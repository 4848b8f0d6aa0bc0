//! The transducer: reads one stream, offers downstream the entries that a
//! predicate keeps, and answers upstream as downstream decides.
use vstd::prelude::*;
use tokio::sync::mpsc::{Receiver, Sender};
use crate::command::Command as Starts;
use crate::command::{CommandType, Task, Tasks, Type, Value};
use crate::fstream;
use crate::fstream::common::{
    Action,
    DirEntry,
    EntryView,
    FsData,
    FsMsg,
    Kind,
    MsgView,
    Path,
    PathView,
    Reply,
};
use crate::fstream::recv;
use crate::fstream::send;

verus! {

#[derive(Debug)]
pub enum Error {
    ErrFstream { source: fstream::Error },
    /// The two sides of the transducer disagree on whether a directory has a
    /// parent: one stream ends where the other goes on.
    ErrMismatchedEnd,
}

/// What a contract says of a transducer: the path it has reached, the depth
/// of its receiving side (0 once that side has ended) and of its sending side.
pub struct FilterState {
    pub path: PathView,
    pub up: int,
    pub down: int,
}

/// What a contract says of a turn of the transducer. The first component of
/// each is the answer that is owed upstream, if one is.
pub enum TurnView {
    /// Waiting for the next message of a directory.
    Entries(Option<Action>, FilterState),
    /// Waiting for the next message of a file.
    Blocks(Option<Action>, FilterState),
    /// A message goes downstream and waits for its answer.
    Push(Option<Action>, MsgView, Kind, FilterState),
    /// The stream has ended.
    Done(Option<Action>),
    /// Upstream has been given up in the middle of a file, and nothing more
    /// can be passed on. Downstream is left in the directory that holds the
    /// file, at the depth given.
    Cut(int),
}

/// Why a turn fails.
pub enum Fault {
    /// A message of a kind that is not legal where it arrived.
    Unexpected,
    /// A directory that came announced as a file.
    IsADirectory(EntryView),
    /// A file that came announced as a directory.
    NotADirectory(EntryView),
    /// One side has a parent directory and the other has none.
    Mismatch,
}

/// The turn on the first message of the stream.
pub open spec fn started(m: MsgView) -> Result<TurnView, Fault> {
    match m {
        MsgView::Root(p) => Ok(
            TurnView::Push(
                Some(Action::Down),
                m,
                Kind::Root,
                FilterState { path: PathView { root: p, names: Seq::empty() }, up: 1, down: 0 },
            ),
        ),
        _ => Err(Fault::Unexpected),
    }
}

/// The turn on the message `m` inside a directory, where the predicate said
/// `kept` of the entry that `m` holds.
pub open spec fn pulled(s: FilterState, m: MsgView, kept: bool) -> Result<TurnView, Fault> {
    match m {
        MsgView::FileEntry(e) => if !kept {
            Ok(TurnView::Entries(Some(Action::Next), s))
        } else if e.dir {
            Err(Fault::IsADirectory(e))
        } else {
            Ok(
                TurnView::Push(
                    None,
                    m,
                    Kind::File,
                    FilterState { path: s.path.push(e.name), ..s },
                ),
            )
        },
        MsgView::DirEntry(e) => if !kept {
            Ok(TurnView::Entries(Some(Action::Next), s))
        } else if !e.dir {
            Err(Fault::NotADirectory(e))
        } else {
            Ok(
                TurnView::Push(
                    None,
                    m,
                    Kind::Dir,
                    FilterState { path: s.path.push(e.name), ..s },
                ),
            )
        },
        MsgView::End => Ok(
            TurnView::Push(
                Some(Action::Next),
                m,
                Kind::End,
                FilterState { up: if s.up <= 1 { 0 } else { s.up - 1 }, ..s },
            ),
        ),
        _ => Err(Fault::Unexpected),
    }
}

/// The turn on the message `m` inside a file.
pub open spec fn transferred(s: FilterState, m: MsgView) -> Result<TurnView, Fault> {
    match m {
        MsgView::Data(_) => Ok(TurnView::Push(Some(Action::Next), m, Kind::Data, s)),
        MsgView::End => Ok(
            TurnView::Push(
                Some(Action::Next),
                m,
                Kind::FileEnd,
                FilterState { up: s.up - 1, ..s },
            ),
        ),
        _ => Err(Fault::Unexpected),
    }
}

/// The turn on downstream's answer `a` to a skip of a directory: both sides
/// go up together, or end together.
pub open spec fn skipped(s: FilterState) -> Result<TurnView, Fault> {
    if s.down <= 1 && s.up <= 1 {
        Ok(TurnView::Done(Some(Action::Skip)))
    } else if s.down <= 1 || s.up <= 1 {
        Err(Fault::Mismatch)
    } else {
        Ok(
            TurnView::Entries(
                Some(Action::Skip),
                FilterState { path: s.path.pop().pop(), up: s.up - 1, down: s.down - 1 },
            ),
        )
    }
}

/// The turn on downstream's answer `a` to a message of kind `kind`.
pub open spec fn answered(kind: Kind, s: FilterState, a: Action) -> Result<TurnView, Fault> {
    match kind {
        Kind::Root => if a == Action::Down {
            Ok(TurnView::Entries(None, FilterState { down: 1, ..s }))
        } else {
            Ok(TurnView::Done(None))
        },
        Kind::Dir | Kind::File => match a {
            Action::Down => {
                let t = FilterState { up: s.up + 1, down: s.down + 1, ..s };
                if kind == Kind::Dir {
                    Ok(TurnView::Entries(Some(Action::Down), t))
                } else {
                    Ok(TurnView::Blocks(Some(Action::Down), t))
                }
            },
            Action::Next => Ok(
                TurnView::Entries(Some(Action::Next), FilterState { path: s.path.pop(), ..s }),
            ),
            Action::Skip => skipped(s),
        },
        Kind::End => if s.down <= 1 && s.up == 0 {
            Ok(TurnView::Done(None))
        } else if s.down <= 1 || s.up == 0 {
            Err(Fault::Mismatch)
        } else {
            Ok(
                TurnView::Entries(
                    None,
                    FilterState { path: s.path.pop(), up: s.up, down: s.down - 1 },
                ),
            )
        },
        Kind::Data => if a == Action::Skip {
            Ok(TurnView::Cut(s.down - 1))
        } else {
            Ok(TurnView::Blocks(None, s))
        },
        Kind::FileEnd => Ok(
            TurnView::Entries(None, FilterState { path: s.path.pop(), up: s.up, down: s.down - 1 }),
        ),
    }
}

/// A transducer that waits for downstream's answer to a message of kind
/// `kind` can take `a` for it: a descent has to fit the counters of the depth.
pub open spec fn accepts(kind: Kind, s: FilterState, a: Action) -> bool {
    a == Action::Down && (kind == Kind::Dir || kind == Kind::File) ==> s.up < i32::MAX
        && s.down < i32::MAX
}

/// What a contract says of an error: the fault it reports.
pub open spec fn fault(e: Error) -> Option<Fault> {
    match e {
        Error::ErrFstream { source: fstream::Error::ErrUnexpectedMessage } => Some(
            Fault::Unexpected,
        ),
        Error::ErrFstream { source: fstream::Error::ErrIsADirectory { entry } } => Some(
            Fault::IsADirectory(entry@),
        ),
        Error::ErrFstream { source: fstream::Error::ErrNotADirectory { entry } } => Some(
            Fault::NotADirectory(entry@),
        ),
        Error::ErrMismatchedEnd => Some(Fault::Mismatch),
        _ => None,
    }
}

/// A transducer inside a directory on both sides.
#[derive(Debug)]
pub struct InDir {
    path: Path,
    recv: recv::Dir,
    send: send::Dir,
}

/// A transducer inside a file on both sides.
#[derive(Debug)]
pub struct InFile {
    path: Path,
    recv: recv::File,
    send: send::File,
}

#[derive(Debug)]
enum Pushed {
    Root(recv::Dir, send::RootReply),
    Dir(recv::DirEntryAction, send::DirEntryReply),
    File(recv::FileEntryAction, send::FileEntryReply),
    End(Option<recv::Dir>, send::DirEndReply),
    Data(recv::File, send::DataReply),
    FileEnd(recv::Dir, send::FileEndReply),
}

/// A transducer with a message under way downstream.
#[derive(Debug)]
pub struct Pushing {
    path: Path,
    at: Pushed,
}

/// What the transducer needs next. An answer that comes with it is to be
/// sent upstream first.
#[derive(Debug)]
pub enum Turn {
    /// The next upstream message, for `filter_dir`.
    Entries(Option<Reply>, InDir),
    /// The next upstream message, for `transfer_file`.
    Blocks(Option<Reply>, InFile),
    /// The message is to be sent downstream, and the answer handed to
    /// `answered`.
    Push(Option<Reply>, FsMsg, Pushing),
    /// Nothing: the stream has ended.
    Done(Option<Reply>),
    /// Nothing: downstream has skipped the rest of a file, and upstream has
    /// been given up with it. What is left of the downstream side is handed
    /// out; nothing more will be sent on it.
    Cut(send::Dir),
}

pub open spec fn answer(r: Option<Reply>) -> Option<Action> {
    match r {
        Some(reply) => Some(reply.action),
        None => None,
    }
}

impl InDir {
    /// A transducer between the two directories, at `path`.
    pub fn new(path: Path, recv: recv::Dir, send: send::Dir) -> (r: InDir)
        ensures
            r.state() == (FilterState {
                path: path@,
                up: recv.depth() as int,
                down: send.depth() as int,
            }),
            r.chan() == recv.chan(),
            r.link() == send.link(),
    {
        InDir { path, recv, send }
    }

    pub closed spec fn state(&self) -> FilterState {
        FilterState {
            path: self.path@,
            up: self.recv.depth() as int,
            down: self.send.depth() as int,
        }
    }

    pub closed spec fn chan(&self) -> Receiver<FsMsg> {
        self.recv.chan()
    }

    pub closed spec fn link(&self) -> Sender<FsMsg> {
        self.send.link()
    }

    pub fn path(&self) -> (r: &Path)
        ensures
            r@ == self.state().path,
    {
        &self.path
    }

    /// The queue on which the next upstream message arrives, to receive
    /// from. What is done to it through the borrow is done to this
    /// transducer's queue; nothing else of the transducer changes.
    pub fn upstream(&mut self) -> (r: &mut Receiver<FsMsg>)
        ensures
            *r == old(self).chan(),
            final(self).chan() == *final(r),
            final(self).state() == old(self).state(),
            final(self).link() == old(self).link(),
    {
        self.recv.channel()
    }
}

impl InFile {
    pub closed spec fn state(&self) -> FilterState {
        FilterState {
            path: self.path@,
            up: self.recv.depth() as int,
            down: self.send.depth() as int,
        }
    }

    pub closed spec fn chan(&self) -> Receiver<FsMsg> {
        self.recv.chan()
    }

    pub closed spec fn link(&self) -> Sender<FsMsg> {
        self.send.link()
    }

    /// The queue on which the next upstream message arrives, to receive
    /// from. What is done to it through the borrow is done to this
    /// transducer's queue; nothing else of the transducer changes.
    pub fn upstream(&mut self) -> (r: &mut Receiver<FsMsg>)
        ensures
            *r == old(self).chan(),
            final(self).chan() == *final(r),
            final(self).state() == old(self).state(),
            final(self).link() == old(self).link(),
    {
        self.recv.channel()
    }
}

impl Pushed {
    spec fn kind(&self) -> Kind {
        match self {
            Pushed::Root(..) => Kind::Root,
            Pushed::Dir(..) => Kind::Dir,
            Pushed::File(..) => Kind::File,
            Pushed::End(..) => Kind::End,
            Pushed::Data(..) => Kind::Data,
            Pushed::FileEnd(..) => Kind::FileEnd,
        }
    }

    spec fn up(&self) -> int {
        match self {
            Pushed::Root(u, _) => u.depth() as int,
            Pushed::Dir(u, _) => u.depth(),
            Pushed::File(u, _) => u.depth(),
            Pushed::End(Some(u), _) => u.depth() as int,
            Pushed::End(None, _) => 0,
            Pushed::Data(u, _) => u.depth() as int,
            Pushed::FileEnd(u, _) => u.depth() as int,
        }
    }

    spec fn down(&self) -> int {
        match self {
            Pushed::Root(..) => 0,
            Pushed::Dir(_, d) => d.depth(),
            Pushed::File(_, d) => d.depth(),
            Pushed::End(_, d) => d.depth(),
            Pushed::Data(_, d) => d.depth(),
            Pushed::FileEnd(_, d) => d.depth(),
        }
    }

    spec fn chan(&self) -> Option<Receiver<FsMsg>> {
        match self {
            Pushed::Root(u, _) => Some(u.chan()),
            Pushed::Dir(u, _) => Some(u.chan()),
            Pushed::File(u, _) => Some(u.chan()),
            Pushed::End(Some(u), _) => Some(u.chan()),
            Pushed::End(None, _) => None,
            Pushed::Data(u, _) => Some(u.chan()),
            Pushed::FileEnd(u, _) => Some(u.chan()),
        }
    }

    spec fn slot(&self) -> Receiver<Action> {
        match self {
            Pushed::Root(_, d) => d.slot(),
            Pushed::Dir(_, d) => d.slot(),
            Pushed::File(_, d) => d.slot(),
            Pushed::End(_, d) => d.slot(),
            Pushed::Data(_, d) => d.slot(),
            Pushed::FileEnd(_, d) => d.slot(),
        }
    }

    spec fn link(&self) -> Sender<FsMsg> {
        match self {
            Pushed::Root(_, d) => d.link(),
            Pushed::Dir(_, d) => d.link(),
            Pushed::File(_, d) => d.link(),
            Pushed::End(_, d) => d.link(),
            Pushed::Data(_, d) => d.link(),
            Pushed::FileEnd(_, d) => d.link(),
        }
    }

    spec fn owed(&self) -> Option<Sender<Action>> {
        match self {
            Pushed::Dir(u, _) => Some(u.reply_to()),
            Pushed::File(u, _) => Some(u.reply_to()),
            _ => None,
        }
    }
}

impl Pushing {
    pub closed spec fn kind(&self) -> Kind {
        self.at.kind()
    }

    pub closed spec fn state(&self) -> FilterState {
        FilterState { path: self.path@, up: self.at.up(), down: self.at.down() }
    }

    /// The upstream queue, where the receiving side has not ended.
    pub closed spec fn chan(&self) -> Option<Receiver<FsMsg>> {
        self.at.chan()
    }

    pub closed spec fn link(&self) -> Sender<FsMsg> {
        self.at.link()
    }

    /// The slot on which downstream's answer arrives.
    pub closed spec fn slot(&self) -> Receiver<Action> {
        self.at.slot()
    }

    /// Where the answer goes that is owed upstream once downstream has
    /// decided: the slot of the entry that was passed on. Nothing is owed for
    /// a message that was answered when it arrived.
    pub closed spec fn owed(&self) -> Option<Sender<Action>> {
        self.at.owed()
    }

    /// The queue on which the message is to be sent.
    pub fn channel(&self) -> (r: &Sender<FsMsg>)
        ensures
            *r == self.link(),
    {
        match &self.at {
            Pushed::Root(_, d) => d.channel(),
            Pushed::Dir(_, d) => d.channel(),
            Pushed::File(_, d) => d.channel(),
            Pushed::End(_, d) => d.channel(),
            Pushed::Data(_, d) => d.channel(),
            Pushed::FileEnd(_, d) => d.channel(),
        }
    }

    /// The slot on which downstream's answer arrives, to receive from. What
    /// is done to it through the borrow is done to this transducer's slot;
    /// nothing else of the transducer changes.
    pub fn replies(&mut self) -> (r: &mut Receiver<Action>)
        ensures
            *r == old(self).slot(),
            final(self).slot() == *final(r),
            final(self).link() == old(self).link(),
            final(self).kind() == old(self).kind(),
            final(self).state() == old(self).state(),
            final(self).chan() == old(self).chan(),
            final(self).owed() == old(self).owed(),
    {
        match &mut self.at {
            Pushed::Root(_, d) => d.replies(),
            Pushed::Dir(_, d) => d.replies(),
            Pushed::File(_, d) => d.replies(),
            Pushed::End(_, d) => d.replies(),
            Pushed::Data(_, d) => d.replies(),
            Pushed::FileEnd(_, d) => d.replies(),
        }
    }

    /// Whether the transducer can take `action` for downstream's answer: a
    /// descent has to fit the counters of the depth.
    pub fn accepts(&self, action: Action) -> (r: bool)
        ensures
            r == accepts(self.kind(), self.state(), action),
    {
        match action {
            Action::Down => match &self.at {
                Pushed::Dir(u, d) => u.can_descend() && d.can_descend(),
                Pushed::File(u, d) => u.can_descend() && d.can_descend(),
                _ => true,
            },
            _ => true,
        }
    }
}

impl View for Turn {
    type V = TurnView;

    open spec fn view(&self) -> TurnView {
        match self {
            Turn::Entries(r, s) => TurnView::Entries(answer(*r), s.state()),
            Turn::Blocks(r, s) => TurnView::Blocks(answer(*r), s.state()),
            Turn::Push(r, m, s) => TurnView::Push(answer(*r), m.data@, s.kind(), s.state()),
            Turn::Done(r) => TurnView::Done(answer(*r)),
            Turn::Cut(d) => TurnView::Cut(d.depth() as int),
        }
    }
}

impl Turn {
    /// The answer that is owed upstream, if one is.
    pub open spec fn reply(&self) -> Option<Reply> {
        match self {
            Turn::Entries(r, _) => *r,
            Turn::Blocks(r, _) => *r,
            Turn::Push(r, _, _) => *r,
            Turn::Done(r) => *r,
            Turn::Cut(_) => None,
        }
    }

    /// The answer that is owed upstream goes to `to`.
    pub open spec fn replies_to(&self, to: Sender<Action>) -> bool {
        self.reply() matches Some(r) ==> r.to == to
    }

    /// The turn still holds the downstream channel ends `link`, where it
    /// holds any.
    pub open spec fn keeps(&self, link: Sender<FsMsg>) -> bool {
        match self {
            Turn::Entries(_, s) => s.link() == link,
            Turn::Blocks(_, s) => s.link() == link,
            Turn::Push(_, _, s) => s.link() == link,
            Turn::Done(_) => true,
            Turn::Cut(d) => d.link() == link,
        }
    }

    /// The turn still holds the upstream queue `c`, where it holds any.
    pub open spec fn reads(&self, c: Receiver<FsMsg>) -> bool {
        match self {
            Turn::Entries(_, s) => s.chan() == c,
            Turn::Blocks(_, s) => s.chan() == c,
            Turn::Push(_, _, s) => s.chan() matches Some(d) ==> d == c,
            Turn::Done(_) | Turn::Cut(_) => true,
        }
    }
}

/// The outcome `r` of a turn is what `want` says: the same turn, or an error
/// that reports the same fault.
pub open spec fn agrees(r: Result<Turn, Error>, want: Result<TurnView, Fault>) -> bool {
    match want {
        Ok(t) => r matches Ok(turn) && turn@ == t,
        Err(f) => r matches Err(e) && fault(e) == Some(f),
    }
}

/// Takes the first message of the upstream, which has to be its root,
/// accepts it and offers the same root downstream.
pub fn filter(recv_root: fstream::RecvRoot, send_root: fstream::SendRoot, msg: FsMsg) -> (r:
    Result<Turn, Error>)
    ensures
        agrees(r, started(msg.data@)),
        r matches Ok(turn) ==> turn.replies_to(msg.reply) && turn.keeps(send_root.link())
            && turn.reads(recv_root.chan()),
        r matches Ok(Turn::Push(_, _, p)) ==> p.owed() is None,
{
    match recv_root.dir(msg) {
        Ok((path, reply, recv_dir)) => {
            let (out, pending) = send_root.dir(path.clone());
            Ok(
                Turn::Push(
                    Some(reply),
                    out,
                    Pushing { path: Path::new(path), at: Pushed::Root(recv_dir, pending) },
                ),
            )
        },
        Err(source) => Err(Error::ErrFstream { source }),
    }
}

/// Takes the next upstream message inside a directory, and what the
/// predicate said of the entry it holds. An entry that is not kept is passed
/// by upstream and never shown downstream; one that is kept is offered
/// downstream; the end of the directory is passed on.
pub fn filter_entry(state: InDir, msg: FsMsg, kept: bool) -> (r: Result<Turn, Error>)
    ensures
        agrees(r, pulled(state.state(), msg.data@, kept)),
        r matches Ok(turn) ==> turn.replies_to(msg.reply) && turn.keeps(state.link())
            && turn.reads(state.chan()),
        r matches Ok(Turn::Push(_, _, p)) ==> p.owed() == if msg.data is End {
            None
        } else {
            Some(msg.reply)
        },
{
    let InDir { mut path, recv, send } = state;
    match recv.entry(msg) {
        Ok(recv::Entry::File(entry, up)) => {
            if !kept {
                let (reply, recv) = up.next();
                return Ok(Turn::Entries(Some(reply), InDir { path, recv, send }));
            }
            path.push(entry.name.clone());
            match send.file(entry) {
                Ok((out, pending)) => Ok(
                    Turn::Push(None, out, Pushing { path, at: Pushed::File(up, pending) }),
                ),
                Err(source) => Err(Error::ErrFstream { source }),
            }
        },
        Ok(recv::Entry::Dir(entry, up)) => {
            if !kept {
                let (reply, recv) = up.next();
                return Ok(Turn::Entries(Some(reply), InDir { path, recv, send }));
            }
            path.push(entry.name.clone());
            match send.dir(entry) {
                Ok((out, pending)) => Ok(
                    Turn::Push(None, out, Pushing { path, at: Pushed::Dir(up, pending) }),
                ),
                Err(source) => Err(Error::ErrFstream { source }),
            }
        },
        Ok(recv::Entry::End(reply, parent)) => {
            let (out, pending) = send.end();
            Ok(Turn::Push(Some(reply), out, Pushing { path, at: Pushed::End(parent, pending) }))
        },
        Err(source) => Err(Error::ErrFstream { source }),
    }
}

/// The predicate `keep` may say `kept` of the entry `e` at a path whose view
/// is `path`.
pub open spec fn says<F: Fn(&DirEntry, &Path) -> bool>(
    keep: &F,
    e: DirEntry,
    path: PathView,
    kept: bool,
) -> bool {
    exists|at: Path| at@ == path && call_ensures(*keep, (&e, &at), kept)
}

/// Takes the next upstream message inside a directory. Where it holds an
/// entry, the predicate is asked about the entry and its path, and the turn
/// is that of `filter_entry` on what it said.
pub fn filter_dir<F: Fn(&DirEntry, &Path) -> bool>(state: InDir, msg: FsMsg, keep: &F) -> (r:
    Result<Turn, Error>)
    requires
        forall|e: &DirEntry, p: &Path| call_requires(*keep, (e, p)),
    ensures
        exists|kept: bool|
            {
                &&& agrees(r, pulled(state.state(), msg.data@, kept))
                &&& match msg.data {
                    FsData::FileEntry(e) | FsData::DirEntry(e) => says(
                        keep,
                        e,
                        state.state().path.push(e@.name),
                        kept,
                    ),
                    _ => true,
                }
            },
        r matches Ok(turn) ==> turn.replies_to(msg.reply) && turn.keeps(state.link())
            && turn.reads(state.chan()),
        r matches Ok(Turn::Push(_, _, p)) ==> p.owed() == if msg.data is End {
            None
        } else {
            Some(msg.reply)
        },
{
    let kept = match &msg.data {
        FsData::FileEntry(e) | FsData::DirEntry(e) => {
            let mut at = state.path.clone();
            at.push(e.name.clone());
            let kept = keep(e, &at);
            assert(says(keep, *e, state.state().path.push(e@.name), kept));
            kept
        },
        _ => false,
    };
    filter_entry(state, msg, kept)
}

/// Takes the next upstream message inside a file and passes it on: a block,
/// or the end of the file.
pub fn transfer_file(state: InFile, msg: FsMsg) -> (r: Result<Turn, Error>)
    ensures
        agrees(r, transferred(state.state(), msg.data@)),
        r matches Ok(turn) ==> turn.replies_to(msg.reply) && turn.keeps(state.link())
            && turn.reads(state.chan()),
        r matches Ok(Turn::Push(_, _, p)) ==> p.owed() is None,
{
    let InFile { path, recv, send } = state;
    match recv.data(msg) {
        Ok(recv::Data::Bytes(data, reply, recv)) => {
            let (out, pending) = send.data(data);
            Ok(Turn::Push(Some(reply), out, Pushing { path, at: Pushed::Data(recv, pending) }))
        },
        Ok(recv::Data::End(reply, recv)) => {
            let (out, pending) = send.end();
            Ok(Turn::Push(Some(reply), out, Pushing { path, at: Pushed::FileEnd(recv, pending) }))
        },
        Err(source) => Err(Error::ErrFstream { source }),
    }
}

impl Pushing {
    /// Takes downstream's answer to the message under way: upstream is
    /// answered alike, and both sides move together. A skip of a block of a
    /// file is the one answer that is not passed on: upstream is given up.
    pub fn answered(self, action: Action) -> (r: Result<Turn, Error>)
        requires
            accepts(self.kind(), self.state(), action),
        ensures
            agrees(r, answered(self.kind(), self.state(), action)),
            r matches Ok(turn) ==> turn.keeps(self.link()) && (self.chan() matches Some(c)
                ==> turn.reads(c)) && (self.owed() matches Some(to) ==> turn.replies_to(to)),
    {
        let Pushing { mut path, at } = self;
        match at {
            Pushed::Root(recv, pending) => match pending.resolve(action) {
                Some(send) => Ok(Turn::Entries(None, InDir { path, recv, send })),
                None => Ok(Turn::Done(None)),
            },
            Pushed::Dir(up, pending) => match pending.resolve(action) {
                send::DirEntryAction::Down(send) => {
                    let (reply, recv) = up.down();
                    Ok(Turn::Entries(Some(reply), InDir { path, recv, send }))
                },
                send::DirEntryAction::Next(send) => {
                    let (reply, recv) = up.next();
                    path.pop();
                    Ok(Turn::Entries(Some(reply), InDir { path, recv, send }))
                },
                send::DirEntryAction::Skip(send) => match up.skip() {
                    (reply, Some(recv)) => {
                        path.pop();
                        path.pop();
                        Ok(Turn::Entries(Some(reply), InDir { path, recv, send }))
                    },
                    (_, None) => Err(Error::ErrMismatchedEnd),
                },
                send::DirEntryAction::End => match up.skip() {
                    (reply, None) => Ok(Turn::Done(Some(reply))),
                    (_, Some(_)) => Err(Error::ErrMismatchedEnd),
                },
            },
            Pushed::File(up, pending) => match pending.resolve(action) {
                send::FileEntryAction::Down(send) => {
                    let (reply, recv) = up.down();
                    Ok(Turn::Blocks(Some(reply), InFile { path, recv, send }))
                },
                send::FileEntryAction::Next(send) => {
                    let (reply, recv) = up.next();
                    path.pop();
                    Ok(Turn::Entries(Some(reply), InDir { path, recv, send }))
                },
                send::FileEntryAction::Skip(send) => match up.skip() {
                    (reply, Some(recv)) => {
                        path.pop();
                        path.pop();
                        Ok(Turn::Entries(Some(reply), InDir { path, recv, send }))
                    },
                    (_, None) => Err(Error::ErrMismatchedEnd),
                },
                send::FileEntryAction::End => match up.skip() {
                    (reply, None) => Ok(Turn::Done(Some(reply))),
                    (_, Some(_)) => Err(Error::ErrMismatchedEnd),
                },
            },
            Pushed::End(parent, pending) => match (parent, pending.resolve(action)) {
                (Some(recv), send) => {
                    // A directory that is there is at depth 1 or deeper.
                    let _depth = recv.depth();
                    match send {
                        Some(send) => {
                            path.pop();
                            Ok(Turn::Entries(None, InDir { path, recv, send }))
                        },
                        None => Err(Error::ErrMismatchedEnd),
                    }
                },
                (None, None) => Ok(Turn::Done(None)),
                (None, Some(_)) => Err(Error::ErrMismatchedEnd),
            },
            Pushed::Data(recv, pending) => match pending.resolve(action) {
                send::FileAction::Next(send) => Ok(Turn::Blocks(None, InFile { path, recv, send })),
                send::FileAction::Skip(send) => {
                    recv.skip();
                    Ok(Turn::Cut(send))
                },
            },
            Pushed::FileEnd(recv, pending) => {
                let send = pending.resolve(action);
                path.pop();
                Ok(Turn::Entries(None, InDir { path, recv, send }))
            },
        }
    }
}

/// The command that filters a stream.
#[derive(Debug)]
pub struct Command(CommandType);

/// The command that filters a stream: it takes a stream and a selector, and
/// gives the stream of what the selector keeps.
pub fn new_command() -> (r: Command)
    ensures
        r.signature().is(seq![Type::Fs, Type::Selector], None, Type::Fs),
{
    let mut args: Vec<Type> = Vec::new();
    args.push(Type::Fs);
    args.push(Type::Selector);
    assert(args@ =~= seq![Type::Fs, Type::Selector]);
    Command(CommandType::new(args, None, Type::Fs))
}

impl Command {
    #[verifier::type_invariant]
    spec fn inv(self) -> bool {
        self.0.is(seq![Type::Fs, Type::Selector], None, Type::Fs)
    }
}

impl Starts for Command {
    closed spec fn signature(&self) -> CommandType {
        self.0
    }

    fn fs_type(&self) -> (r: &CommandType)
        ensures
            r.is(seq![Type::Fs, Type::Selector], None, Type::Fs),
    {
        proof {
            use_type_invariant(self);
        }
        &self.0
    }

    /// Makes a new stream, asks for a transducer to be run from the stream
    /// that is its first argument into the new one, with the selector that
    /// is its second argument, and gives the receiving half of the new one.
    fn start(&self, tasks: &mut Tasks, flags: Vec<String>, args: Vec<Value>, rest: Vec<Value>) -> (r:
        Result<Value, fstream::Error>)
        ensures
            r matches Ok(Value::Fs(_)),
            final(tasks)@.len() == old(tasks)@.len() + 1,
            final(tasks)@.last() matches Task::Filter(from, _, keep) && from == args@[0]->Fs_0
                && keep == args@[1]->Selector_0,
    {
        proof {
            use_type_invariant(self);
            self.0.lemma_admits_two(Type::Fs, Type::Selector, Type::Fs, args@);
        }
        let mut args = args;
        let keep = args.pop();
        let from = args.pop();
        match (from, keep) {
            (Some(Value::Fs(from)), Some(Value::Selector(keep))) => {
                let (send, recv) = fstream::new();
                tasks.add(Task::Filter(from, send, keep));
                Ok(Value::Fs(recv))
            },
            _ => vstd::pervasive::unreached(),
        }
    }
}

} // verus!
