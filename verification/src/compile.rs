//! From an expression to a tree of typed commands: pipes are turned into
//! arguments, and a conversion is put in wherever a value has not the type
//! that is asked of it.
use vstd::prelude::*;
use crate::command::Command as Starts;
use crate::command::{CommandType, Error, Task, Tasks, Type, Value};
use crate::fstream;
use crate::filter;
use crate::print;
use crate::vecs::reversed;
use crate::walk;
use crate::parse::{ast, asts, lemma_asts_each, ASTNode, Ast, Command};

verus! {

/// The first `n` of the types `args` followed by the type `t` without end.
/// By `itertools::chain`, which yields what its first argument yields and
/// then what its second does; of the types chained so the first `n` are
/// taken.
#[verifier::external_body]
fn chained(args: &Vec<Type>, t: Type, n: usize) -> (r: Vec<Type>)
    ensures
        r@.len() == n,
        forall|i: int| 0 <= i < n && i < args@.len() ==> #[trigger] r@[i] == args@[i],
        forall|i: int| args@.len() <= i < n ==> #[trigger] r@[i] == t,
{
    itertools::chain(args.iter().cloned(), std::iter::repeat(t)).take(n).collect()
}

/// The types that the signature asks of `n` arguments, one for each, as far
/// as it asks: its own types, and behind them, where it admits further
/// arguments, their type as often as needed; where it admits none, no more
/// than it has of its own.
pub fn types_for(sig: &CommandType, n: usize) -> (r: Vec<Type>)
    ensures
        r@.len() == if sig.var_args is Some || n <= sig.args@.len() {
            n as int
        } else {
            sig.args@.len() as int
        },
        forall|i: int| 0 <= i < r@.len() ==> Some(#[trigger] r@[i]) == sig.expects(i),
{
    match sig.var_args {
        Some(t) => chained(&sig.args, t, n),
        None => {
            let mut r: Vec<Type> = Vec::new();
            let mut i: usize = 0;
            while i < n && i < sig.args.len()
                invariant
                    i <= n,
                    i <= sig.args@.len(),
                    r@.len() == i,
                    forall|j: int| 0 <= j < i ==> #[trigger] r@[j] == sig.args@[j],
                decreases sig.args@.len() - i,
            {
                r.push(sig.args[i]);
                i = i + 1;
            }
            r
        },
    }
}

/// An expression without pipes: what is left of a pipe has become the first
/// argument of the command to its right.
pub open spec fn depiped(node: Ast) -> Ast
    decreases node,
{
    match node {
        Ast::Word(_) => node,
        Ast::Command(name, args) => Ast::Command(name, depiped_all(args, args.len() as int)),
        Ast::Pipe(left, name, args) => Ast::Command(
            name,
            seq![depiped(*left)] + depiped_all(args, args.len() as int),
        ),
    }
}

/// The first `n` of a list of expressions, each without pipes.
pub open spec fn depiped_all(args: Seq<Ast>, n: int) -> Seq<Ast>
    decreases args, n,
{
    if n <= 0 || n > args.len() {
        Seq::empty()
    } else {
        depiped_all(args, n - 1).push(depiped(args[n - 1]))
    }
}

/// An expression holds no pipe.
pub open spec fn pipeless(node: Ast) -> bool
    decreases node,
{
    match node {
        Ast::Word(_) => true,
        Ast::Command(_, args) => pipeless_all(args, args.len() as int),
        Ast::Pipe(..) => false,
    }
}

/// None of the first `n` of a list of expressions holds a pipe.
pub open spec fn pipeless_all(args: Seq<Ast>, n: int) -> bool
    decreases args, n,
{
    if n <= 0 || n > args.len() {
        true
    } else {
        pipeless_all(args, n - 1) && pipeless(args[n - 1])
    }
}

/// The list without pipes holds, place by place, what each expression
/// becomes without pipes.
pub proof fn lemma_depiped_all(args: Seq<Ast>, n: int)
    requires
        0 <= n <= args.len(),
    ensures
        depiped_all(args, n).len() == n,
        forall|i: int| 0 <= i < n ==> #[trigger] depiped_all(args, n)[i] == depiped(args[i]),
    decreases n,
{
    if n > 0 {
        lemma_depiped_all(args, n - 1);
    }
}

/// The first `n` of the arguments, each without pipes.
fn depipe_args(args: &Vec<ASTNode>, n: usize) -> (r: Vec<ASTNode>)
    requires
        n <= args@.len(),
    ensures
        asts(r@, r@.len() as int) == depiped_all(asts(args@, args@.len() as int), n as int),
    decreases args@, n,
{
    if n == 0 {
        let r: Vec<ASTNode> = Vec::new();
        assert(asts(r@, 0) =~= Seq::<Ast>::empty());
        r
    } else {
        let mut r = depipe_args(args, n - 1);
        let node = depipe_ref(&args[n - 1]);
        proof {
            crate::parse::lemma_asts_push(r@, node);
            lemma_asts_each(args@, args@.len() as int);
        }
        r.push(node);
        r
    }
}

fn depipe_ref(node: &ASTNode) -> (r: ASTNode)
    ensures
        ast(r) == depiped(ast(*node)),
    decreases node,
{
    match node {
        ASTNode::Word(s) => ASTNode::Word(s.clone()),
        ASTNode::Command(c) => {
            let args = depipe_args(&c.args, c.args.len());
            proof {
                lemma_asts_each(c.args@, c.args@.len() as int);
            }
            ASTNode::Command(Command { name: c.name.clone(), args })
        },
        ASTNode::Pipe(left, c) => {
            let first = depipe_ref(left);
            let mut args = depipe_args(&c.args, c.args.len());
            proof {
                lemma_asts_each(c.args@, c.args@.len() as int);
                lemma_asts_insert_first(args@, first);
            }
            // What is left of the pipe becomes the first argument of the
            // command to its right.
            args.insert(0, first);
            ASTNode::Command(Command { name: c.name.clone(), args })
        },
    }
}

/// An expression put before a list puts its view before the views.
proof fn lemma_asts_insert_first(v: Seq<ASTNode>, node: ASTNode)
    ensures
        asts(v.insert(0, node), v.len() as int + 1) == seq![ast(node)] + asts(v, v.len() as int),
{
    let w = v.insert(0, node);
    lemma_asts_each(w, w.len() as int);
    lemma_asts_each(v, v.len() as int);
    assert(asts(w, w.len() as int) =~= seq![ast(node)] + asts(v, v.len() as int));
}

/// Turns each pipe into a command: what is left of the pipe becomes the
/// first argument of the command to its right. No pipe is left.
pub fn depipe(node: ASTNode) -> (r: ASTNode)
    ensures
        ast(r) == depiped(ast(node)),
        pipeless(ast(r)),
{
    let r = depipe_ref(&node);
    proof {
        lemma_depiped_pipeless(ast(node));
    }
    r
}

/// What has been rid of its pipes holds none.
pub proof fn lemma_depiped_pipeless(node: Ast)
    ensures
        pipeless(depiped(node)),
    decreases node, 1int,
{
    match node {
        Ast::Word(_) => {},
        Ast::Command(_, args) => {
            lemma_depiped_all(args, args.len() as int);
            lemma_depiped_all_pipeless(args, args.len() as int, args.len() as int);
        },
        Ast::Pipe(left, _, args) => {
            lemma_depiped_pipeless(*left);
            lemma_depiped_all_pipeless(args, args.len() as int, args.len() as int);
            let rest = depiped_all(args, args.len() as int);
            let all = seq![depiped(*left)] + rest;
            lemma_depiped_all(args, args.len() as int);
            lemma_pipeless_all(rest, rest.len() as int);
            assert forall|i: int| 0 <= i < all.len() implies pipeless(#[trigger] all[i]) by {
                if i > 0 {
                    assert(all[i] == rest[i - 1]);
                }
            }
            lemma_pipeless_from_each(all, all.len() as int);
        },
    }
}

/// None of the first `m` of a list rid of its pipes holds one.
proof fn lemma_depiped_all_pipeless(args: Seq<Ast>, n: int, m: int)
    requires
        0 <= m <= n <= args.len(),
    ensures
        pipeless_all(depiped_all(args, n), m),
    decreases args, 0int, m,
{
    if m > 0 {
        lemma_depiped_all_pipeless(args, n, m - 1);
        lemma_depiped_all(args, n);
        lemma_depiped_pipeless(args[m - 1]);
    }
}

/// Where none of the first `n` holds a pipe, each of them holds none.
proof fn lemma_pipeless_all(args: Seq<Ast>, n: int)
    requires
        0 <= n <= args.len(),
        pipeless_all(args, n),
    ensures
        forall|i: int| 0 <= i < n ==> pipeless(#[trigger] args[i]),
    decreases n,
{
    if n > 0 {
        lemma_pipeless_all(args, n - 1);
    }
}

/// Where each of the first `n` holds no pipe, none of them holds one.
proof fn lemma_pipeless_from_each(args: Seq<Ast>, n: int)
    requires
        0 <= n <= args.len(),
        forall|i: int| 0 <= i < n ==> pipeless(#[trigger] args[i]),
    ensures
        pipeless_all(args, n),
    decreases n,
{
    if n > 0 {
        lemma_pipeless_from_each(args, n - 1);
    }
}

/// A command that the registry knows.
#[derive(Debug, Copy, Clone, PartialEq, Eq, Structural)]
pub enum Builtin {
    Print,
    Walk,
    Filter,
}

/// The name under which a command is registered.
pub open spec fn name_of(b: Builtin) -> Seq<char> {
    match b {
        Builtin::Print => "print"@,
        Builtin::Walk => "walk"@,
        Builtin::Filter => "filter"@,
    }
}

/// The command that is registered under `name`, if one is.
pub open spec fn registered(name: Seq<char>) -> Option<Builtin> {
    if name == name_of(Builtin::Print) {
        Some(Builtin::Print)
    } else if name == name_of(Builtin::Walk) {
        Some(Builtin::Walk)
    } else if name == name_of(Builtin::Filter) {
        Some(Builtin::Filter)
    } else {
        None
    }
}

/// The type of what a registered command gives.
pub open spec fn gives(b: Builtin) -> Type {
    match b {
        Builtin::Print => Type::Void,
        Builtin::Walk => Type::Fs,
        Builtin::Filter => Type::Fs,
    }
}

/// The commands by their names.
#[derive(Debug)]
pub struct Commands {
    print: print::Command,
    walk: walk::Command,
    filter: filter::Command,
}

/// How far a type is from a plain value: a stream is made from a string, and
/// nothing from a stream.
pub open spec fn rank(t: Type) -> nat {
    match t {
        Type::Void => 2,
        Type::Fs => 1,
        _ => 0,
    }
}

/// The expression `node`, of type `from`, made into one of type `to`: left
/// as it is where the types are one; a string walked to give a stream; a
/// stream printed to give nothing. `None` where no such conversion leads from
/// the one type to the other.
pub open spec fn converted(node: Ast, from: Type, to: Type) -> Option<Ast>
    decreases rank(to),
{
    if from == to {
        Some(node)
    } else {
        match to {
            Type::Fs => match converted(node, from, Type::String) {
                Some(inner) => Some(Ast::Command("walk"@, seq![inner])),
                None => None,
            },
            Type::Void => match converted(node, from, Type::Fs) {
                Some(inner) => Some(Ast::Command("print"@, seq![inner])),
                None => None,
            },
            _ => None,
        }
    }
}

impl Commands {
    /// The signature under which the registry holds a command.
    pub closed spec fn signature_of(&self, b: Builtin) -> CommandType {
        match b {
            Builtin::Print => self.print.signature(),
            Builtin::Walk => self.walk.signature(),
            Builtin::Filter => self.filter.signature(),
        }
    }

    /// The registry of the three commands: `print`, which takes a stream and
    /// gives nothing; `walk`, which takes a string and gives a stream; and
    /// `filter`, which takes a stream and a selector and gives a stream.
    pub fn new() -> (r: Commands)
        ensures
            r.signature_of(Builtin::Print).is(seq![Type::Fs], None, Type::Void),
            r.signature_of(Builtin::Walk).is(seq![Type::String], None, Type::Fs),
            r.signature_of(Builtin::Filter).is(seq![Type::Fs, Type::Selector], None, Type::Fs),
    {
        Commands {
            print: print::new_command(),
            walk: walk::new_command(),
            filter: filter::new_command(),
        }
    }

    /// The command that is registered under `name`.
    pub fn get(&self, name: &String) -> (r: Result<Builtin, Error>)
        ensures
            match registered(name@) {
                Some(b) => r == Ok::<Builtin, Error>(b),
                None => r matches Err(Error::ErrCommandNotFound { name: n }) && n@ == name@,
            },
    {
        proof {
            reveal_strlit("print");
            reveal_strlit("walk");
            reveal_strlit("filter");
        }
        if *name == String::from_str("print") {
            Ok(Builtin::Print)
        } else if *name == String::from_str("walk") {
            Ok(Builtin::Walk)
        } else if *name == String::from_str("filter") {
            Ok(Builtin::Filter)
        } else {
            Err(Error::ErrCommandNotFound { name: name.clone() })
        }
    }

    /// The signature of a registered command.
    pub fn fs_type(&self, b: Builtin) -> (r: &CommandType)
        ensures
            *r == self.signature_of(b),
            r.ret == gives(b),
            match b {
                Builtin::Print => r.is(seq![Type::Fs], None, Type::Void),
                Builtin::Walk => r.is(seq![Type::String], None, Type::Fs),
                Builtin::Filter => r.is(seq![Type::Fs, Type::Selector], None, Type::Fs),
            },
    {
        match b {
            Builtin::Print => self.print.fs_type(),
            Builtin::Walk => self.walk.fs_type(),
            Builtin::Filter => self.filter.fs_type(),
        }
    }
}

/// A list of one expression.
fn one(node: ASTNode) -> (r: Vec<ASTNode>)
    ensures
        asts(r@, r@.len() as int) == seq![ast(node)],
{
    let mut r: Vec<ASTNode> = Vec::new();
    r.push(node);
    proof {
        lemma_asts_each(r@, 1);
        assert(asts(r@, r@.len() as int) =~= seq![ast(node)]);
    }
    r
}

impl Commands {
    /// The type of an expression that holds no pipe at its head: what its
    /// command gives, or a string for a word.
    pub open spec fn type_of(node: Ast) -> Option<Type> {
        match node {
            Ast::Command(name, _) => match registered(name) {
                Some(b) => Some(gives(b)),
                None => None,
            },
            Ast::Word(_) => Some(Type::String),
            Ast::Pipe(..) => None,
        }
    }

    /// Makes `node`, of type `ntype`, into an expression of type `to`, by
    /// walking a string and printing a stream as far as needed.
    pub fn convert1(&self, node: ASTNode, ntype: Type, to: Type) -> (r: Option<ASTNode>)
        ensures
            match converted(ast(node), ntype, to) {
                Some(want) => r matches Some(got) && ast(got) == want,
                None => r is None,
            },
        decreases rank(to),
    {
        if ntype == to {
            return Some(node);
        }
        match to {
            Type::Fs => match self.convert1(node, ntype, Type::String) {
                Some(inner) => Some(
                    ASTNode::Command(Command { name: String::from_str("walk"), args: one(inner) }),
                ),
                None => None,
            },
            Type::Void => match self.convert1(node, ntype, Type::Fs) {
                Some(inner) => Some(
                    ASTNode::Command(
                        Command { name: String::from_str("print"), args: one(inner) },
                    ),
                ),
                None => None,
            },
            _ => None,
        }
    }

    /// Makes `node` into an expression of type `to`. It fails where the
    /// command at its head is not registered, and where no conversion leads
    /// from its type to `to`.
    pub fn convert(&self, node: ASTNode, to: Type) -> (r: Result<ASTNode, Error>)
        requires
            !(ast(node) is Pipe),
        ensures
            match Self::type_of(ast(node)) {
                None => r matches Err(Error::ErrCommandNotFound { name }) && ast(node) matches Ast::Command(
                    n,
                    _,
                ) && name@ == n,
                Some(from) => match converted(ast(node), from, to) {
                    Some(want) => r matches Ok(got) && ast(got) == want,
                    None => r == Err::<ASTNode, Error>(Error::ErrConvert { from, to }),
                },
            },
    {
        let ntype = match &node {
            ASTNode::Command(c) => match self.get(&c.name) {
                Ok(b) => self.fs_type(b).ret,
                Err(e) => {
                    return Err(e);
                },
            },
            ASTNode::Word(_) => Type::String,
            ASTNode::Pipe(..) => vstd::pervasive::unreached(),
        };
        match self.convert1(node, ntype, to) {
            Some(node) => Ok(node),
            None => Err(Error::ErrConvert { from: ntype, to }),
        }
    }
}

/// The type that a command asks of its argument at position `i`.
pub open spec fn asked(b: Builtin, i: int) -> Option<Type> {
    match b {
        Builtin::Print => if i == 0 {
            Some(Type::Fs)
        } else {
            None
        },
        Builtin::Walk => if i == 0 {
            Some(Type::String)
        } else {
            None
        },
        Builtin::Filter => if i == 0 {
            Some(Type::Fs)
        } else if i == 1 {
            Some(Type::Selector)
        } else {
            None
        },
    }
}

/// The number of arguments that a command asks for.
pub open spec fn arity(b: Builtin) -> int {
    match b {
        Builtin::Print | Builtin::Walk => 1,
        Builtin::Filter => 2,
    }
}

/// The first argument among the first `n` that cannot be made into the type
/// asked of it, with the reason; `None` where each of them can.
pub open spec fn first_unfit(b: Builtin, args: Seq<Ast>, n: int) -> Option<Unfit>
    decreases n,
{
    if n <= 0 || n > args.len() {
        None
    } else {
        match first_unfit(b, args, n - 1) {
            Some(u) => Some(u),
            None => unfit(args[n - 1], asked(b, n - 1)),
        }
    }
}

/// Why an argument cannot be made into the type asked of it.
pub enum Unfit {
    /// The command at its head is not registered.
    NotFound(Seq<char>),
    /// No conversion leads from its type to the one asked.
    NoWay(Type, Type),
}

/// Why `arg` cannot be made into the type `to`; `None` where it can, and
/// where no type is asked.
pub open spec fn unfit(arg: Ast, to: Option<Type>) -> Option<Unfit> {
    match to {
        None => None,
        Some(to) => match Commands::type_of(arg) {
            None => match arg {
                Ast::Command(name, _) => Some(Unfit::NotFound(name)),
                _ => None,
            },
            Some(from) => if converted(arg, from, to) is Some {
                None
            } else {
                Some(Unfit::NoWay(from, to))
            },
        },
    }
}

/// Why a compilation fails.
pub enum Refusal {
    /// The source spells no pipeline.
    Parse,
    /// A command is not registered.
    NotFound(Seq<char>),
    /// A command has fewer arguments than it asks for.
    TooFewArgs(Seq<char>),
    /// No conversion leads from the one type to the other.
    NoWay(Type, Type),
}

/// The refusal that an unfit argument leads to.
pub open spec fn refusal(u: Unfit) -> Refusal {
    match u {
        Unfit::NotFound(n) => Refusal::NotFound(n),
        Unfit::NoWay(from, to) => Refusal::NoWay(from, to),
    }
}

/// The first `n` arguments, each made into the type that is asked of it.
pub open spec fn made(b: Builtin, args: Seq<Ast>, n: int) -> Seq<Ast>
    decreases n,
{
    if n <= 0 || n > args.len() {
        Seq::empty()
    } else {
        made(b, args, n - 1).push(
            converted(args[n - 1], Commands::type_of(args[n - 1])->0, asked(b, n - 1)->0)->0,
        )
    }
}

/// What the check makes of an expression without pipes.
pub open spec fn typechecked(node: Ast) -> Result<Ast, Refusal> {
    match node {
        Ast::Command(name, args) => match registered(name) {
            None => Err(Refusal::NotFound(name)),
            Some(b) => if args.len() < arity(b) {
                Err(Refusal::TooFewArgs(name))
            } else {
                match first_unfit(b, args, arity(b)) {
                    Some(u) => Err(refusal(u)),
                    None => Ok(Ast::Command(name, made(b, args, arity(b)))),
                }
            },
        },
        _ => Ok(node),
    }
}

/// What an expression without pipes at its head becomes as one of type `to`.
pub open spec fn convert_to(node: Ast, to: Type) -> Result<Ast, Refusal> {
    match Commands::type_of(node) {
        None => match node {
            Ast::Command(name, _) => Err(Refusal::NotFound(name)),
            _ => Err(Refusal::Parse),
        },
        Some(from) => match converted(node, from, to) {
            Some(want) => Ok(want),
            None => Err(Refusal::NoWay(from, to)),
        },
    }
}

/// What a source compiles to: the pipeline it spells, rid of its pipes,
/// checked at its head, and made into one that gives nothing.
pub open spec fn compiled(s: Seq<char>) -> Result<Ast, Refusal> {
    match crate::parse::parsed(s) {
        None => Err(Refusal::Parse),
        Some(node) => match typechecked(depiped(node)) {
            Err(e) => Err(e),
            Ok(checked) => convert_to(checked, Type::Void),
        },
    }
}

/// An error reports a refusal.
pub open spec fn refuses(e: Error, why: Refusal) -> bool {
    match why {
        Refusal::Parse => e is ErrParse,
        Refusal::NotFound(n) => e matches Error::ErrCommandNotFound { name } && name@ == n,
        Refusal::TooFewArgs(n) => e matches Error::ErrTooFewArgs { name } && name@ == n,
        Refusal::NoWay(from, to) => e == (Error::ErrConvert { from, to }),
    }
}

/// The outcome `r` is what `want` says: an expression with that view, or an
/// error that reports that refusal.
pub open spec fn accords(r: Result<ASTNode, Error>, want: Result<Ast, Refusal>) -> bool {
    match want {
        Ok(a) => r matches Ok(node) && ast(node) == a,
        Err(why) => r matches Err(e) && refuses(e, why),
    }
}

/// An expression can be checked: it has no pipe at its head, nor has any
/// argument of the command at its head.
pub open spec fn checkable(node: Ast) -> bool {
    match node {
        Ast::Word(_) => true,
        Ast::Pipe(..) => false,
        Ast::Command(_, args) => forall|i: int|
            0 <= i < args.len() ==> !(#[trigger] args[i] is Pipe),
    }
}

/// What holds no pipe can be checked.
pub proof fn lemma_pipeless_checkable(node: Ast)
    requires
        pipeless(node),
    ensures
        checkable(node),
{
    match node {
        Ast::Command(_, args) => {
            lemma_pipeless_all(args, args.len() as int);
        },
        _ => {},
    }
}

/// What a contract says of an error of the check: the failure it reports.
pub open spec fn reports(e: Error, u: Unfit) -> bool {
    match u {
        Unfit::NotFound(n) => e matches Error::ErrCommandNotFound { name } && name@ == n,
        Unfit::NoWay(from, to) => e == (Error::ErrConvert { from, to }),
    }
}

/// Checks the command at the head of an expression against its signature
/// and makes each of its arguments into the type asked of it, as far as the
/// signature asks: arguments beyond those it asks for are dropped. The
/// arguments are not themselves checked below their heads, where they may
/// hold what they will. A word is left as it is.
pub fn typecheck(node: ASTNode, cmds: &Commands) -> (r: Result<ASTNode, Error>)
    requires
        checkable(ast(node)),
    ensures
        accords(r, typechecked(ast(node))),
{
    match node {
        ASTNode::Word(s) => Ok(ASTNode::Word(s)),
        ASTNode::Pipe(..) => vstd::pervasive::unreached(),
        ASTNode::Command(c) => {
            let b = match cmds.get(&c.name) {
                Ok(b) => b,
                Err(e) => {
                    return Err(e);
                },
            };
            let ctype = cmds.fs_type(b);
            let Command { name, args } = c;
            let ghost given = asts(args@, args@.len() as int);
            proof {
                lemma_asts_each(args@, args@.len() as int);
            }
            if args.len() < ctype.args.len() {
                return Err(Error::ErrTooFewArgs { name });
            }
            let types = types_for(ctype, args.len());
            let n = types.len();
            assert(n == arity(b));
            let ghost src = args@;
            let mut rest = reversed(args);
            // What is beyond the arguments that are asked for is dropped: in
            // the reversed list the last arguments come first.
            let mut extra: usize = rest.len() - n;
            while extra > 0
                invariant
                    rest@.len() == n + extra,
                    rest@.len() <= src.len(),
                    forall|j: int| 0 <= j < rest@.len() ==> rest@[j] == src[rest@.len() - 1 - j],
                decreases extra,
            {
                let ghost before = rest@;
                rest.remove(0);
                assert(forall|j: int| 0 <= j < rest@.len() ==> rest@[j] == before[j + 1]);
                extra = extra - 1;
            }
            assert(forall|j: int| 0 <= j < n ==> rest@[j] == src[n - 1 - j]);
            let mut done: Vec<ASTNode> = Vec::new();
            let mut i: usize = 0;
            while i < n
                invariant
                    i <= n,
                    n == arity(b),
                    n <= src.len(),
                    ast(node) == Ast::Command(name@, given),
                    registered(name@) == Some(b),
                    given.len() == src.len(),
                    forall|j: int| 0 <= j < src.len() ==> given[j] == ast(#[trigger] src[j]),
                    forall|j: int| 0 <= j < given.len() ==> !(#[trigger] given[j] is Pipe),
                    rest@.len() == n - i,
                    forall|j: int| 0 <= j < rest@.len() ==> rest@[j] == src[n - 1 - j],
                    types@.len() == n,
                    forall|j: int| 0 <= j < n ==> Some(#[trigger] types@[j]) == asked(b, j),
                    first_unfit(b, given, i as int) is None,
                    done@.len() == i,
                    forall|j: int|
                        0 <= j < i ==> Some(ast(#[trigger] done@[j])) == converted(
                            given[j],
                            Commands::type_of(given[j])->0,
                            asked(b, j)->0,
                        ),
                decreases n - i,
            {
                let arg = rest.pop().unwrap();
                assert(arg == src[i as int]);
                assert(ast(arg) == given[i as int]);
                assert(!(given[i as int] is Pipe));
                match cmds.convert(arg, types[i]) {
                    Ok(node) => {
                        done.push(node);
                    },
                    Err(e) => {
                        proof {
                            let u = unfit(given[i as int], asked(b, i as int));
                            assert(first_unfit(b, given, i + 1) == u);
                            lemma_first_unfit_stays(b, given, i + 1, n as int);
                        }
                        return Err(e);
                    },
                }
                i = i + 1;
            }
            proof {
                lemma_asts_each(done@, done@.len() as int);
                lemma_made(b, given, n as int);
                assert(asts(done@, done@.len() as int) =~= made(
                    b,
                    given,
                    n as int,
                ));
            }
            Ok(ASTNode::Command(Command { name, args: done }))
        },
    }
}

/// An argument that is unfit among the first `n` is the first unfit among
/// any more.
pub proof fn lemma_first_unfit_stays(b: Builtin, args: Seq<Ast>, n: int, m: int)
    requires
        0 <= n <= m <= args.len(),
        first_unfit(b, args, n) is Some,
    ensures
        first_unfit(b, args, m) == first_unfit(b, args, n),
    decreases m - n,
{
    if n < m {
        lemma_first_unfit_stays(b, args, n + 1, m);
    }
}

/// The arguments made into their types are, place by place, each argument
/// made into its type.
pub proof fn lemma_made(b: Builtin, args: Seq<Ast>, n: int)
    requires
        0 <= n <= args.len(),
    ensures
        made(b, args, n).len() == n,
        forall|i: int|
            0 <= i < n ==> #[trigger] made(b, args, n)[i] == converted(
                args[i],
                Commands::type_of(args[i])->0,
                asked(b, i)->0,
            )->0,
    decreases n,
{
    if n > 0 {
        lemma_made(b, args, n - 1);
    }
}

/// Compiles a pipeline expression: reads it, turns its pipes into
/// arguments, checks the command at its head, and has what it gives printed
/// where it gives a stream or a path.
pub fn compile(expr: &str, cmds: &Commands) -> (r: Result<ASTNode, Error>)
    ensures
        accords(r, compiled(expr@)),
{
    let node = match crate::parse::parse(expr) {
        Ok(node) => node,
        Err(source) => {
            return Err(Error::ErrParse { source });
        },
    };
    let node = depipe(node);
    proof {
        lemma_pipeless_checkable(ast(node));
    }
    let node = match typecheck(node, cmds) {
        Ok(node) => node,
        Err(e) => {
            return Err(e);
        },
    };
    cmds.convert(node, Type::Void)
}

/// An expression can be started: each command in it is registered and has
/// as many arguments as it asks for, each of the type asked of it, all the
/// way down.
pub open spec fn startable(node: Ast) -> bool
    decreases node,
{
    match node {
        Ast::Word(_) => true,
        Ast::Pipe(..) => false,
        Ast::Command(name, args) => match registered(name) {
            None => false,
            Some(b) => args.len() == arity(b) && startable_all(b, args, args.len() as int),
        },
    }
}

/// The first `n` arguments of the command `b` can be started, and each is of
/// the type asked of it.
pub open spec fn startable_all(b: Builtin, args: Seq<Ast>, n: int) -> bool
    decreases args, n,
{
    if n <= 0 || n > args.len() {
        true
    } else {
        &&& startable_all(b, args, n - 1)
        &&& startable(args[n - 1])
        &&& asked(b, n - 1) is Some
        &&& Commands::type_of(args[n - 1]) == asked(b, n - 1)
    }
}

/// Says whether the first `n` arguments of the command `b` can be started.
fn can_start_all(args: &Vec<ASTNode>, n: usize, b: Builtin, cmds: &Commands) -> (r: bool)
    requires
        n <= args@.len(),
    ensures
        r == startable_all(b, asts(args@, args@.len() as int), n as int),
    decreases args@, n,
{
    proof {
        lemma_asts_each(args@, args@.len() as int);
    }
    if n == 0 {
        return true;
    }
    if !can_start_all(args, n - 1, b, cmds) {
        return false;
    }
    let arg = &args[n - 1];
    if !can_start(arg, cmds) {
        return false;
    }
    let has = match arg {
        ASTNode::Word(_) => Some(Type::String),
        ASTNode::Command(c) => match cmds.get(&c.name) {
            Ok(inner) => Some(cmds.fs_type(inner).ret),
            Err(_) => None,
        },
        ASTNode::Pipe(..) => None,
    };
    let asks = cmds.fs_type(b).expected(n - 1);
    match (has, asks) {
        (Some(x), Some(y)) => x == y,
        _ => false,
    }
}

/// Says whether an expression can be started.
pub fn can_start(node: &ASTNode, cmds: &Commands) -> (r: bool)
    ensures
        r == startable(ast(*node)),
    decreases node,
{
    match node {
        ASTNode::Word(_) => true,
        ASTNode::Pipe(..) => false,
        ASTNode::Command(c) => match cmds.get(&c.name) {
            Err(_) => false,
            Ok(b) => {
                proof {
                    lemma_asts_each(c.args@, c.args@.len() as int);
                }
                c.args.len() == cmds.fs_type(b).args.len() && can_start_all(
                    &c.args,
                    c.args.len(),
                    b,
                    cmds,
                )
            },
        },
    }
}

/// A stage that is to be run, as a contract sees it: its kind, and for a
/// walk the path it starts at.
pub enum Stage {
    Walk(Seq<char>),
    Filter,
    Print,
}

/// What a contract says of a task.
pub open spec fn stage(t: Task) -> Stage {
    match t {
        Task::Walk(path, _) => Stage::Walk(path@),
        Task::Filter(..) => Stage::Filter,
        Task::Print(_) => Stage::Print,
    }
}

/// What a contract says of the tasks that are to be run.
pub open spec fn stages_of(tasks: Seq<Task>) -> Seq<Stage> {
    tasks.map_values(|t: Task| stage(t))
}

/// The text of a word; of anything else, nothing.
pub open spec fn word(node: Ast) -> Seq<char> {
    match node {
        Ast::Word(s) => s,
        _ => Seq::empty(),
    }
}

/// The stages that starting an expression asks for, in the order in which
/// it asks for them: for a command those of its arguments, first to last, and
/// then its own. A walk starts at the path that is its argument.
pub open spec fn stages(node: Ast) -> Seq<Stage>
    decreases node,
{
    match node {
        Ast::Command(name, args) => stages_all(args, args.len() as int) + match registered(name) {
            Some(Builtin::Print) => seq![Stage::Print],
            Some(Builtin::Walk) => seq![Stage::Walk(word(args.last()))],
            Some(Builtin::Filter) => seq![Stage::Filter],
            None => Seq::empty(),
        },
        _ => Seq::empty(),
    }
}

/// The stages that starting the first `n` of a list of expressions asks for.
pub open spec fn stages_all(args: Seq<Ast>, n: int) -> Seq<Stage>
    decreases args, n,
{
    if n <= 0 || n > args.len() {
        Seq::empty()
    } else {
        stages_all(args, n - 1) + stages(args[n - 1])
    }
}

/// The type of what an expression gives when it is started.
pub open spec fn started_type(node: Ast) -> Type {
    match Commands::type_of(node) {
        Some(t) => t,
        None => Type::Void,
    }
}

/// The value `v` is what the expression `node` gives when it is started: a
/// word gives its own text, and a command a value of the type it gives.
pub open spec fn gives_value(node: Ast, v: Value) -> bool {
    &&& v.kind() == started_type(node)
    &&& node matches Ast::Word(s) ==> (v matches Value::String(t) && t@ == s)
}

/// One more task adds its stage.
proof fn lemma_stage_added(before: Seq<Task>, after: Seq<Task>)
    requires
        before.is_prefix_of(after),
        after.len() == before.len() + 1,
    ensures
        stages_of(after) == stages_of(before) + seq![stage(after.last())],
{
    assert(stages_of(after) =~= stages_of(before) + seq![stage(after.last())]) by {
        assert forall|i: int| 0 <= i < before.len() implies after[i] == before[i] by {}
    }
}

/// Starts the first `n` arguments of the command `b`, first to last.
fn start_args(args: &Vec<ASTNode>, n: usize, b: Builtin, cmds: &Commands, tasks: &mut Tasks) -> (r:
    Vec<Value>)
    requires
        n <= args@.len(),
        startable_all(b, asts(args@, args@.len() as int), n as int),
    ensures
        r@.len() == n,
        forall|i: int| 0 <= i < n ==> Some(#[trigger] r@[i].kind()) == asked(b, i),
        forall|i: int| 0 <= i < n ==> gives_value(ast(args@[i]), #[trigger] r@[i]),
        old(tasks)@.is_prefix_of(final(tasks)@),
        stages_of(final(tasks)@) == stages_of(old(tasks)@) + stages_all(
            asts(args@, args@.len() as int),
            n as int,
        ),
    decreases args@, n,
{
    proof {
        lemma_asts_each(args@, args@.len() as int);
    }
    if n == 0 {
        let r: Vec<Value> = Vec::new();
        assert(stages_of(tasks@) + Seq::<Stage>::empty() =~= stages_of(tasks@));
        return r;
    }
    let mut r = start_args(args, n - 1, b, cmds, tasks);
    let ghost mid = tasks@;
    let v = start_ref(&args[n - 1], cmds, tasks);
    r.push(v);
    proof {
        let all = asts(args@, args@.len() as int);
        assert(stages_of(tasks@) =~= stages_of(old(tasks)@) + (stages_all(all, n - 1) + stages(
            all[n - 1],
        )));
    }
    r
}

fn start_ref(node: &ASTNode, cmds: &Commands, tasks: &mut Tasks) -> (r: Value)
    requires
        startable(ast(*node)),
    ensures
        gives_value(ast(*node), r),
        old(tasks)@.is_prefix_of(final(tasks)@),
        stages_of(final(tasks)@) == stages_of(old(tasks)@) + stages(ast(*node)),
    decreases node,
{
    match node {
        ASTNode::Word(s) => {
            assert(stages_of(tasks@) + Seq::<Stage>::empty() =~= stages_of(tasks@));
            Value::String(s.clone())
        },
        ASTNode::Pipe(..) => vstd::pervasive::unreached(),
        ASTNode::Command(c) => {
            let b = match cmds.get(&c.name) {
                Ok(b) => b,
                Err(_) => vstd::pervasive::unreached(),
            };
            proof {
                lemma_asts_each(c.args@, c.args@.len() as int);
            }
            let ghost given = asts(c.args@, c.args@.len() as int);
            let sig = cmds.fs_type(b);
            let args = start_args(&c.args, c.args.len(), b, cmds, tasks);
            let ghost mid = tasks@;
            let ghost vals = args@;
            assert(sig.admits(args@)) by {
                assert forall|i: int| 0 <= i < args@.len() implies sig.expects(i) == Some(
                    #[trigger] args@[i].kind(),
                ) by {
                    assert(Some(args@[i].kind()) == asked(b, i));
                }
            }
            let started = match b {
                Builtin::Print => {
                    let own = cmds.print.fs_type();
                    proof {
                        sig.lemma_admits_alike(own, args@);
                    }
                    cmds.print.start(tasks, Vec::new(), args, Vec::new())
                },
                Builtin::Walk => {
                    let own = cmds.walk.fs_type();
                    proof {
                        sig.lemma_admits_alike(own, args@);
                        // The one argument of a walk is of the type of a
                        // string, so it is a word, and gave its own text.
                        assert(gives_value(ast(c.args@[0]), vals[0]));
                        assert(given[0] == ast(c.args@[0]));
                        assert(given.last() == given[0]);
                        assert(vals.last() == vals[0]);
                    }
                    cmds.walk.start(tasks, Vec::new(), args, Vec::new())
                },
                Builtin::Filter => {
                    let own = cmds.filter.fs_type();
                    proof {
                        sig.lemma_admits_alike(own, args@);
                    }
                    cmds.filter.start(tasks, Vec::new(), args, Vec::new())
                },
            };
            proof {
                lemma_stage_added(mid, tasks@);
                assert(stages_of(tasks@) =~= stages_of(old(tasks)@) + (stages_all(
                    given,
                    given.len() as int,
                ) + seq![stage(tasks@.last())]));
            }
            match started {
                Ok(v) => v,
                Err(_) => vstd::pervasive::unreached(),
            }
        },
    }
}

/// Starts an expression that can be started. A word gives its own text. A
/// command is started on what its arguments give, the arguments first and in
/// their order, and asks for its one stage to be run: a walk at the path
/// that is its argument, a transducer, or a consumer.
pub fn start_fit(node: ASTNode, cmds: &Commands, tasks: &mut Tasks) -> (r: Value)
    requires
        startable(ast(node)),
    ensures
        gives_value(ast(node), r),
        old(tasks)@.is_prefix_of(final(tasks)@),
        stages_of(final(tasks)@) == stages_of(old(tasks)@) + stages(ast(node)),
{
    start_ref(&node, cmds, tasks)
}

/// Why an expression cannot be started.
pub enum Unstartable {
    /// A command is not registered.
    NotFound(Seq<char>),
    /// A command has not the arguments it asks for, or a pipe is left.
    Misfit,
}

/// Why an expression cannot be started, as the first thing that stands in
/// the way when it is gone through in the order of starting: a command is
/// looked up, then its arguments are gone through first to last, then it is
/// held against its signature. `None` where nothing stands in the way.
pub open spec fn unstartable(node: Ast) -> Option<Unstartable>
    decreases node,
{
    match node {
        Ast::Word(_) => None,
        Ast::Pipe(..) => Some(Unstartable::Misfit),
        Ast::Command(name, args) => match registered(name) {
            None => Some(Unstartable::NotFound(name)),
            Some(b) => match first_unstartable(args, args.len() as int) {
                Some(u) => Some(u),
                None => if args.len() == arity(b) && fitting(b, args, args.len() as int) {
                    None
                } else {
                    Some(Unstartable::Misfit)
                },
            },
        },
    }
}

/// What stands in the way of the first of the first `n` expressions that
/// cannot be started.
pub open spec fn first_unstartable(args: Seq<Ast>, n: int) -> Option<Unstartable>
    decreases args, n,
{
    if n <= 0 || n > args.len() {
        None
    } else {
        match first_unstartable(args, n - 1) {
            Some(u) => Some(u),
            None => unstartable(args[n - 1]),
        }
    }
}

/// Each of the first `n` arguments is of the type that the command `b` asks
/// of it.
pub open spec fn fitting(b: Builtin, args: Seq<Ast>, n: int) -> bool
    decreases n,
{
    if n <= 0 || n > args.len() {
        true
    } else {
        &&& fitting(b, args, n - 1)
        &&& asked(b, n - 1) is Some
        &&& Commands::type_of(args[n - 1]) == asked(b, n - 1)
    }
}

/// An expression can be started exactly where nothing stands in the way.
pub proof fn lemma_unstartable(node: Ast)
    ensures
        startable(node) <==> unstartable(node) is None,
    decreases node, 0int,
{
    match node {
        Ast::Command(name, args) => match registered(name) {
            Some(b) => lemma_unstartable_all(b, args, args.len() as int),
            None => {},
        },
        _ => {},
    }
}

/// The first `n` arguments can be started and fit exactly where nothing
/// stands in the way of any of them and each is of the type asked.
pub proof fn lemma_unstartable_all(b: Builtin, args: Seq<Ast>, n: int)
    requires
        0 <= n <= args.len(),
    ensures
        startable_all(b, args, n) <==> (first_unstartable(args, n) is None && fitting(
            b,
            args,
            n,
        )),
    decreases args, n,
{
    if n > 0 {
        lemma_unstartable_all(b, args, n - 1);
        lemma_unstartable(args[n - 1]);
    }
}

/// Why an expression is not started.
#[derive(Debug)]
pub enum Refused {
    /// A command is not registered under its name.
    NotFound(String),
    /// A command has not the arguments it asks for, or a pipe is left.
    Misfit,
}

impl View for Refused {
    type V = Unstartable;

    open spec fn view(&self) -> Unstartable {
        match self {
            Refused::NotFound(name) => Unstartable::NotFound(name@),
            Refused::Misfit => Unstartable::Misfit,
        }
    }
}

/// What a contract says of a refusal, if there is one.
pub open spec fn refused(r: Option<Refused>) -> Option<Unstartable> {
    match r {
        Some(why) => Some(why@),
        None => None,
    }
}

fn refuse_args(args: &Vec<ASTNode>, n: usize, cmds: &Commands) -> (r: Option<Refused>)
    requires
        n <= args@.len(),
    ensures
        refused(r) == first_unstartable(asts(args@, args@.len() as int), n as int),
    decreases args@, n,
{
    proof {
        lemma_asts_each(args@, args@.len() as int);
    }
    if n == 0 {
        return None;
    }
    match refuse_args(args, n - 1, cmds) {
        Some(why) => Some(why),
        None => refuse(&args[n - 1], cmds),
    }
}

/// Says what stands in the way of starting an expression, if anything does.
pub fn refuse(node: &ASTNode, cmds: &Commands) -> (r: Option<Refused>)
    ensures
        refused(r) == unstartable(ast(*node)),
    decreases node,
{
    match node {
        ASTNode::Word(_) => None,
        ASTNode::Pipe(..) => Some(Refused::Misfit),
        ASTNode::Command(c) => match cmds.get(&c.name) {
            Err(_) => Some(Refused::NotFound(c.name.clone())),
            Ok(b) => {
                proof {
                    lemma_asts_each(c.args@, c.args@.len() as int);
                }
                match refuse_args(&c.args, c.args.len(), cmds) {
                    Some(why) => Some(why),
                    None => {
                        proof {
                            lemma_unstartable(ast(*node));
                        }
                        if can_start(node, cmds) {
                            None
                        } else {
                            Some(Refused::Misfit)
                        }
                    },
                }
            },
        },
    }
}

/// Starts an expression. It is first gone through in the order of starting:
/// where a command in it is not registered, or has not the arguments it asks
/// for, nothing is started and the first such thing is reported.
pub fn start(node: ASTNode, cmds: &Commands, tasks: &mut Tasks) -> (r: Result<Value, Error>)
    ensures
        match unstartable(ast(node)) {
            None => r matches Ok(v) && gives_value(ast(node), v) && stages_of(final(tasks)@)
                == stages_of(old(tasks)@) + stages(ast(node)),
            Some(Unstartable::NotFound(n)) => final(tasks)@ == old(tasks)@ && (
            r matches Err(Error::ErrCommandNotFound { name }) && name@ == n),
            Some(Unstartable::Misfit) => final(tasks)@ == old(tasks)@ && (
            r matches Err(Error::ErrFstream { source: fstream::Error::ErrUsage { msg } }) && msg@
                == "expression cannot be started"@),
        },
        old(tasks)@.is_prefix_of(final(tasks)@),
{
    proof {
        lemma_unstartable(ast(node));
    }
    match refuse(&node, cmds) {
        None => Ok(start_fit(node, cmds, tasks)),
        Some(Refused::NotFound(name)) => Err(Error::ErrCommandNotFound { name }),
        Some(Refused::Misfit) => Err(
            Error::ErrFstream {
                source: fstream::Error::ErrUsage {
                    msg: String::from_str("expression cannot be started"),
                },
            },
        ),
    }
}

} // verus!
