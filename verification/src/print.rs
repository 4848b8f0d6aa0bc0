//! The consumer: drains a stream, enters every directory, passes every file
//! by, and reports each entry with its path.
use vstd::prelude::*;
use tokio::sync::mpsc::Receiver;
use crate::command::Command as Starts;
use crate::command::{CommandType, Task, Tasks, Type, Value};
use crate::fstream;
use crate::fstream::common::{Action, FsMsg, MsgView, Path, PathView, Reply};
use crate::fstream::recv::Entry;

verus! {

#[derive(Debug)]
pub enum Error {
    ErrFstream { source: fstream::Error },
}

/// What a contract says of a report.
pub struct VisitView {
    pub dir: bool,
    pub path: PathView,
}

/// The report of one entry: whether it is a directory, and its path.
#[derive(Debug)]
pub struct Visit {
    pub dir: bool,
    pub path: Path,
}

impl View for Visit {
    type V = VisitView;

    open spec fn view(&self) -> VisitView {
        VisitView { dir: self.dir, path: self.path@ }
    }
}

/// What a contract says of a consumer inside a directory: the path of that
/// directory and the depth of its receiver.
pub struct PrintState {
    pub path: PathView,
    pub depth: int,
}

impl PrintState {
    /// The path has one name for each directory entered below the root.
    pub open spec fn wf(self) -> bool {
        self.depth >= 1 && self.path.names.len() == self.depth - 1
    }
}

/// What a contract says of one turn of the consumer: the report, if the
/// message was an entry, the answer, and the state to go on in, if the stream
/// has not ended.
pub struct PrintView {
    pub visit: Option<VisitView>,
    pub answer: Action,
    pub next: Option<PrintState>,
}

/// The turn a consumer in state `s` takes on the message `m`, where `m` is
/// legal inside a directory.
pub open spec fn printed(s: PrintState, m: MsgView) -> Option<PrintView> {
    match m {
        MsgView::FileEntry(e) => Some(
            PrintView {
                visit: Some(VisitView { dir: false, path: s.path.push(e.name) }),
                answer: Action::Next,
                next: Some(s),
            },
        ),
        MsgView::DirEntry(e) => Some(
            PrintView {
                visit: Some(VisitView { dir: true, path: s.path.push(e.name) }),
                answer: Action::Down,
                next: Some(PrintState { path: s.path.push(e.name), depth: s.depth + 1 }),
            },
        ),
        MsgView::End => Some(
            PrintView {
                visit: None,
                answer: Action::Next,
                next: if s.depth <= 1 {
                    None
                } else {
                    Some(PrintState { path: s.path.pop(), depth: s.depth - 1 })
                },
            },
        ),
        _ => None,
    }
}

/// A consumer inside a directory.
#[derive(Debug)]
pub struct Printer {
    path: Path,
    dir: fstream::RecvDir,
}

/// One turn of the consumer.
#[derive(Debug)]
pub struct Print {
    /// What to report, if the message was an entry.
    pub visit: Option<Visit>,
    /// The answer to send.
    pub reply: Reply,
    /// The consumer to hand the next message to; nothing once the stream has
    /// ended.
    pub next: Option<Printer>,
}

impl Printer {
    pub closed spec fn state(&self) -> PrintState {
        PrintState { path: self.path@, depth: self.dir.depth() as int }
    }

    pub closed spec fn chan(&self) -> Receiver<FsMsg> {
        self.dir.chan()
    }

    /// The queue on which the next message arrives, to receive from. What is
    /// done to it through the borrow is done to this consumer's queue; nothing
    /// else of the consumer changes.
    pub fn channel(&mut self) -> (r: &mut Receiver<FsMsg>)
        ensures
            *r == old(self).chan(),
            final(self).chan() == *final(r),
            final(self).state() == old(self).state(),
    {
        self.dir.channel()
    }

    /// Whether the consumer can enter another directory: the depth has to
    /// fit its counter.
    pub fn can_descend(&self) -> (r: bool)
        ensures
            r == (self.state().depth < i32::MAX),
    {
        self.dir.depth() < i32::MAX
    }
}

impl Print {
    /// What the turn amounts to, the channel ends left aside.
    pub open spec fn view(&self) -> PrintView {
        PrintView {
            visit: match self.visit {
                Some(v) => Some(v@),
                None => None,
            },
            answer: self.reply.action,
            next: match self.next {
                Some(p) => Some(p.state()),
                None => None,
            },
        }
    }
}

/// Takes the first message of a stream, which has to be its root, accepts it
/// and stands in the root directory.
pub fn print(root: fstream::RecvRoot, msg: FsMsg) -> (r: Result<(Reply, Printer), Error>)
    ensures
        match msg.data@ {
            MsgView::Root(path) => r matches Ok(s) && s.0.action == Action::Down && s.0.to
                == msg.reply && s.1.state() == (PrintState {
                path: PathView { root: path, names: Seq::empty() },
                depth: 1,
            }) && s.1.chan() == root.chan(),
            _ => r matches Err(e) && e == (Error::ErrFstream {
                source: fstream::Error::ErrUnexpectedMessage,
            }),
        },
{
    match root.dir(msg) {
        Ok((path, reply, dir)) => Ok((reply, Printer { path: Path::new(path), dir })),
        Err(source) => Err(Error::ErrFstream { source }),
    }
}

/// Takes the next message inside a directory: reports an entry, enters a
/// directory and passes a file by, and leaves the directory at its end.
pub fn print_dir(printer: Printer, msg: FsMsg) -> (r: Result<Print, Error>)
    requires
        msg.data is DirEntry ==> printer.state().depth < i32::MAX,
    ensures
        match printed(printer.state(), msg.data@) {
            Some(turn) => r matches Ok(p) && p@ == turn && p.reply.to == msg.reply && (
            p.next matches Some(n) ==> n.chan() == printer.chan()),
            None => r matches Err(e) && e == (Error::ErrFstream {
                source: fstream::Error::ErrUnexpectedMessage,
            }),
        },
{
    let Printer { mut path, dir } = printer;
    match dir.entry(msg) {
        Ok(Entry::File(entry, action)) => {
            let mut at = path.clone();
            at.push(entry.name);
            let (reply, dir) = action.next();
            Ok(
                Print {
                    visit: Some(Visit { dir: false, path: at }),
                    reply,
                    next: Some(Printer { path, dir }),
                },
            )
        },
        Ok(Entry::Dir(entry, action)) => {
            path.push(entry.name);
            let (reply, dir) = action.down();
            Ok(
                Print {
                    visit: Some(Visit { dir: true, path: path.clone() }),
                    reply,
                    next: Some(Printer { path, dir }),
                },
            )
        },
        Ok(Entry::End(reply, Some(dir))) => {
            path.pop();
            Ok(Print { visit: None, reply, next: Some(Printer { path, dir }) })
        },
        Ok(Entry::End(reply, None)) => Ok(Print { visit: None, reply, next: None }),
        Err(source) => Err(Error::ErrFstream { source }),
    }
}

/// The command that prints a stream.
#[derive(Debug)]
pub struct Command(CommandType);

/// The command that prints a stream: it takes the stream and gives nothing
/// back.
pub fn new_command() -> (r: Command)
    ensures
        r.signature().is(seq![Type::Fs], None, Type::Void),
{
    let mut args: Vec<Type> = Vec::new();
    args.push(Type::Fs);
    assert(args@ =~= seq![Type::Fs]);
    Command(CommandType::new(args, None, Type::Void))
}

impl Command {
    #[verifier::type_invariant]
    spec fn inv(self) -> bool {
        self.0.is(seq![Type::Fs], None, Type::Void)
    }
}

impl Starts for Command {
    closed spec fn signature(&self) -> CommandType {
        self.0
    }

    fn fs_type(&self) -> (r: &CommandType)
        ensures
            r.is(seq![Type::Fs], None, Type::Void),
    {
        proof {
            use_type_invariant(self);
        }
        &self.0
    }

    /// Asks for a consumer to be run on the stream that is its argument.
    fn start(&self, tasks: &mut Tasks, flags: Vec<String>, args: Vec<Value>, rest: Vec<Value>) -> (r:
        Result<Value, fstream::Error>)
        ensures
            r matches Ok(Value::Void),
            final(tasks)@ == old(tasks)@.push(Task::Print(args@.last()->Fs_0)),
    {
        proof {
            use_type_invariant(self);
            self.0.lemma_admits_one(Type::Fs, Type::Void, args@);
        }
        let mut args = args;
        match args.pop() {
            Some(Value::Fs(root)) => {
                tasks.add(Task::Print(root));
                Ok(Value::Void)
            },
            _ => vstd::pervasive::unreached(),
        }
    }
}

} // verus!
