//! What commands are made of: the types of the values they exchange, the
//! values themselves, and the tasks they ask to have run.
use vstd::prelude::*;
use tokio::task::JoinError;
use crate::filter;
use crate::fstream;
use crate::fstream::common::{DirEntry, EntryView, Path, PathView};
use crate::print;
use crate::vecs::reversed;
use crate::walk;

verus! {

/// The type of a value that commands exchange.
#[derive(Debug, PartialEq, Eq, Structural, Copy, Clone)]
pub enum Type {
    Void,
    Fs,
    Selector,
    String,
}

/// The signature of a command: its flags, the types of its arguments, the
/// type of any further arguments, and the type of its result.
#[derive(Debug)]
pub struct CommandType {
    pub flags: Vec<String>,
    pub args: Vec<Type>,
    pub var_args: Option<Type>,
    pub ret: Type,
}

impl CommandType {
    /// The type that the signature asks of the argument at position `i`:
    /// that of the `i`-th argument, or behind those the type of the further
    /// arguments, where it admits any.
    pub open spec fn expects(&self, i: int) -> Option<Type> {
        if 0 <= i < self.args@.len() {
            Some(self.args@[i])
        } else {
            self.var_args
        }
    }

    /// The values `args` are arguments that the signature admits.
    pub open spec fn admits(&self, args: Seq<Value>) -> bool {
        &&& args.len() >= self.args@.len()
        &&& forall|i: int| 0 <= i < args.len() ==> self.expects(i) == Some(#[trigger] args[i].kind())
    }

    /// The signature has no flags, and the given types of arguments, of
    /// further arguments and of the result.
    pub open spec fn is(&self, args: Seq<Type>, var_args: Option<Type>, ret: Type) -> bool {
        &&& self.flags@.len() == 0
        &&& self.args@ == args
        &&& self.var_args == var_args
        &&& self.ret == ret
    }

    /// Two signatures that ask the same of their arguments admit the same
    /// values.
    pub proof fn lemma_admits_alike(&self, other: &CommandType, args: Seq<Value>)
        requires
            self.args@ == other.args@,
            self.var_args == other.var_args,
        ensures
            self.admits(args) == other.admits(args),
    {
        assert forall|i: int| self.expects(i) == other.expects(i) by {}
        if self.admits(args) {
            assert forall|i: int| 0 <= i < args.len() implies other.expects(i) == Some(
                #[trigger] args[i].kind(),
            ) by {
                assert(self.expects(i) == Some(args[i].kind()));
            }
        }
        if other.admits(args) {
            assert forall|i: int| 0 <= i < args.len() implies self.expects(i) == Some(
                #[trigger] args[i].kind(),
            ) by {
                assert(other.expects(i) == Some(args[i].kind()));
            }
        }
    }

    /// A signature without flags.
    pub fn new(args: Vec<Type>, var_args: Option<Type>, ret: Type) -> (r: CommandType)
        ensures
            r.is(args@, var_args, ret),
    {
        CommandType { flags: Vec::new(), args, var_args, ret }
    }

    /// The values `args` are arguments that a signature of one argument
    /// admits: there is one of them.
    pub proof fn lemma_admits_one(&self, t: Type, ret: Type, args: Seq<Value>)
        requires
            self.is(seq![t], None, ret),
            self.admits(args),
        ensures
            args.len() == 1,
            args[0].kind() == t,
    {
        assert(self.expects(0) == Some(args[0].kind()));
        if args.len() > 1 {
            assert(self.expects(1) == Some(args[1].kind()));
        }
    }

    /// The values `args` are arguments that a signature of two arguments
    /// admits: there are two of them.
    pub proof fn lemma_admits_two(&self, t: Type, u: Type, ret: Type, args: Seq<Value>)
        requires
            self.is(seq![t, u], None, ret),
            self.admits(args),
        ensures
            args.len() == 2,
            args[0].kind() == t,
            args[1].kind() == u,
    {
        assert(self.expects(0) == Some(args[0].kind()));
        assert(self.expects(1) == Some(args[1].kind()));
        if args.len() > 2 {
            assert(self.expects(2) == Some(args[2].kind()));
        }
    }

    pub fn expected(&self, i: usize) -> (r: Option<Type>)
        ensures
            r == self.expects(i as int),
    {
        if i < self.args.len() {
            Some(self.args[i])
        } else {
            self.var_args
        }
    }
}

/// A predicate over an entry and its path.
#[derive(Debug)]
pub enum Selector {
    /// Holds of directories.
    IsDir,
    /// Holds where one of the selectors holds.
    Any(Vec<Selector>),
}

impl Selector {
    /// The selector holds of the entry `e` at `path`.
    pub open spec fn selects(&self, e: EntryView, path: PathView) -> bool
        decreases self,
    {
        match self {
            Selector::IsDir => e.dir,
            Selector::Any(v) => any_selects(v@, v@.len() as int, e, path),
        }
    }

    /// Applies the selector to an entry and its path.
    pub fn matches(&self, entry: &DirEntry, path: &Path) -> (r: bool)
        ensures
            r == self.selects(entry@, path@),
        decreases self,
    {
        match self {
            Selector::IsDir => entry.is_dir(),
            Selector::Any(v) => any_matches(v, v.len(), entry, path),
        }
    }
}

/// Applies the first `n` selectors of `v` to an entry and its path.
fn any_matches(v: &Vec<Selector>, n: usize, entry: &DirEntry, path: &Path) -> (r: bool)
    requires
        n <= v@.len(),
    ensures
        r == any_selects(v@, n as int, entry@, path@),
    decreases v@, n,
{
    if n == 0 {
        false
    } else {
        v[n - 1].matches(entry, path) || any_matches(v, n - 1, entry, path)
    }
}

/// One of the first `n` selectors of `v` holds of the entry `e` at `path`.
pub open spec fn any_selects(v: Seq<Selector>, n: int, e: EntryView, path: PathView) -> bool
    decreases v, n,
{
    if n <= 0 || n > v.len() {
        false
    } else {
        v[n - 1].selects(e, path) || any_selects(v, n - 1, e, path)
    }
}

/// A value that commands exchange.
#[derive(Debug)]
pub enum Value {
    Void,
    /// The receiving half of a stream.
    Fs(fstream::RecvRoot),
    String(String),
    Selector(Selector),
}

impl Value {
    /// The type of the value.
    pub open spec fn kind(&self) -> Type {
        match self {
            Value::Void => Type::Void,
            Value::Fs(_) => Type::Fs,
            Value::String(_) => Type::String,
            Value::Selector(_) => Type::Selector,
        }
    }

    pub fn fs_type(&self) -> (r: Type)
        ensures
            r == self.kind(),
    {
        match self {
            Value::Void => Type::Void,
            Value::Fs(_) => Type::Fs,
            Value::String(_) => Type::String,
            Value::Selector(_) => Type::Selector,
        }
    }

    /// The name of the type of the value.
    pub fn type_text(&self) -> (r: String)
        ensures
            r@ == type_text(self.kind()),
    {
        match self {
            Value::Void => String::from_str("Void"),
            Value::Fs(_) => String::from_str("Fs"),
            Value::String(_) => String::from_str("String"),
            Value::Selector(_) => String::from_str("Selector"),
        }
    }

    /// The stream that the value holds.
    pub fn as_fs(self) -> (r: Result<fstream::RecvRoot, fstream::Error>)
        requires
            self is Fs,
        ensures
            r == Ok::<fstream::RecvRoot, fstream::Error>(self->Fs_0),
    {
        match self {
            Value::Fs(root) => Ok(root),
            _ => vstd::pervasive::unreached(),
        }
    }

    /// The string that the value holds.
    pub fn as_string(self) -> (r: Result<String, fstream::Error>)
        requires
            self is String,
        ensures
            r == Ok::<String, fstream::Error>(self->String_0),
    {
        match self {
            Value::String(s) => Ok(s),
            _ => vstd::pervasive::unreached(),
        }
    }

    /// The selector that the value holds.
    pub fn as_selector(self) -> (r: Result<Selector, fstream::Error>)
        requires
            self is Selector,
        ensures
            r == Ok::<Selector, fstream::Error>(self->Selector_0),
    {
        match self {
            Value::Selector(s) => Ok(s),
            _ => vstd::pervasive::unreached(),
        }
    }
}

/// The name of a type.
pub open spec fn type_text(t: Type) -> Seq<char> {
    match t {
        Type::Void => "Void"@,
        Type::Fs => "Fs"@,
        Type::String => "String"@,
        Type::Selector => "Selector"@,
    }
}

/// A stage that a command asks to have run.
#[derive(Debug)]
pub enum Task {
    /// A walk of the tree at the path, into the stream.
    Walk(String, fstream::SendRoot),
    /// A transducer from the first stream into the second.
    Filter(fstream::RecvRoot, fstream::SendRoot, Selector),
    /// A consumer of the stream.
    Print(fstream::RecvRoot),
}

/// The stages that are to run side by side.
#[derive(Debug)]
pub struct Tasks {
    tasks: Vec<Task>,
}

#[derive(Debug)]
#[allow(inconsistent_fields)]
pub enum Error {
    ErrTaskJoin { source: JoinError },
    ErrFstream { source: fstream::Error },
    ErrPrint { source: print::Error },
    ErrWalk { source: walk::Error },
    ErrFilter { source: filter::Error },
    ErrParse { source: String },
    ErrCommandNotFound { name: String },
    ErrConvert { from: Type, to: Type },
    ErrTooFewArgs { name: String },
}

/// How a stage ended: with its own result, or with the error of a task that
/// did not run to its end.
pub type Outcome = Result<Result<(), fstream::Error>, JoinError>;

/// The failure of a stage, where it failed.
pub open spec fn failure(o: Outcome) -> Option<Error> {
    match o {
        Ok(Ok(())) => None,
        Ok(Err(source)) => Some(Error::ErrFstream { source }),
        Err(source) => Some(Error::ErrTaskJoin { source }),
    }
}

/// The failure of the first of the first `n` stages that failed.
pub open spec fn first_failure(outcomes: Seq<Outcome>, n: int) -> Option<Error>
    decreases n,
{
    if n <= 0 || n > outcomes.len() {
        None
    } else {
        match first_failure(outcomes, n - 1) {
            Some(e) => Some(e),
            None => failure(outcomes[n - 1]),
        }
    }
}

/// The result of one stage.
pub fn join1(outcome: Outcome) -> (r: Result<(), Error>)
    ensures
        match failure(outcome) {
            Some(e) => r == Err::<(), Error>(e),
            None => r is Ok,
        },
{
    match outcome {
        Ok(Ok(())) => Ok(()),
        Ok(Err(source)) => Err(Error::ErrFstream { source }),
        Err(source) => Err(Error::ErrTaskJoin { source }),
    }
}

impl Tasks {
    pub closed spec fn view(&self) -> Seq<Task> {
        self.tasks@
    }

    pub fn new() -> (r: Tasks)
        ensures
            r@ == Seq::<Task>::empty(),
    {
        Tasks { tasks: Vec::new() }
    }

    /// Adds a stage to those that are to run.
    pub fn add(&mut self, t: Task)
        ensures
            final(self)@ == old(self)@.push(t),
    {
        self.tasks.push(t);
    }

    /// Hands the stages out, to be run.
    pub fn take(self) -> (r: Vec<Task>)
        ensures
            r@ == self@,
    {
        self.tasks
    }

    /// The result of all the stages, from how each ended, in the order in
    /// which they ended: the first failure, or success where none failed.
    pub fn join(outcomes: Vec<Outcome>) -> (r: Result<(), Error>)
        ensures
            match first_failure(outcomes@, outcomes@.len() as int) {
                Some(e) => r == Err::<(), Error>(e),
                None => r is Ok,
            },
    {
        let ghost all = outcomes@;
        let mut rest = reversed(outcomes);
        let ghost mut done: int = 0;
        while rest.len() > 0
            invariant
                0 <= done,
                done + rest@.len() == all.len(),
                all == outcomes@,
                forall|j: int| 0 <= j < rest@.len() ==> rest@[j] == all[all.len() - 1 - j],
                first_failure(all, done) is None,
            decreases rest.len(),
        {
            let o = rest.pop().unwrap();
            assert(o == all[done]);
            match join1(o) {
                Ok(()) => {},
                Err(e) => {
                    proof {
                        assert(first_failure(all, done + 1) == Some(e));
                        lemma_first_failure_stays(all, done + 1, all.len() as int);
                    }
                    return Err(e);
                },
            }
            proof {
                done = done + 1;
            }
        }
        Ok(())
    }
}

/// A failure among the first `n` stages is the first failure of any more.
pub proof fn lemma_first_failure_stays(outcomes: Seq<Outcome>, n: int, m: int)
    requires
        0 <= n <= m <= outcomes.len(),
        first_failure(outcomes, n) is Some,
    ensures
        first_failure(outcomes, m) == first_failure(outcomes, n),
    decreases m - n,
{
    if n < m {
        lemma_first_failure_stays(outcomes, n + 1, m);
    }
}

/// What a pipeline can be built of.
pub trait Command {
    /// The signature of the command.
    spec fn signature(&self) -> CommandType;

    fn fs_type(&self) -> (r: &CommandType)
        ensures
            *r == self.signature(),
    ;

    /// Starts the command on its arguments. What it asks to have run is
    /// added to `tasks`; nothing is taken from them.
    fn start(&self, tasks: &mut Tasks, flags: Vec<String>, args: Vec<Value>, rest: Vec<Value>) -> (r:
        Result<Value, fstream::Error>)
        requires
            self.signature().admits(args@),
        ensures
            old(tasks)@.is_prefix_of(final(tasks)@),
            r matches Ok(v) ==> v.kind() == self.signature().ret,
    ;
}

} // verus!
