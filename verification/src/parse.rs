//! Pipeline expressions: commands with their arguments, joined by pipes.
use vstd::prelude::*;
use crate::lex::{chars_of, lemma_tokens_within, lex, tokens, within, Lexeme, Token};

verus! {

/// A command with its arguments.
#[derive(Debug)]
pub struct Command {
    pub name: String,
    pub args: Vec<ASTNode>,
}

#[derive(Debug)]
pub enum ASTNode {
    Command(Command),
    /// What is to the left of a pipe, and the command to its right.
    Pipe(Box<ASTNode>, Command),
    Word(String),
}

/// What a contract says of an expression.
pub enum Ast {
    Command(Seq<char>, Seq<Ast>),
    Pipe(Box<Ast>, Seq<char>, Seq<Ast>),
    Word(Seq<char>),
}

/// What the contracts say of an expression.
pub open spec fn ast(node: ASTNode) -> Ast
    decreases node,
{
    match node {
        ASTNode::Command(c) => Ast::Command(c.name@, asts(c.args@, c.args@.len() as int)),
        ASTNode::Pipe(left, c) => Ast::Pipe(
            Box::new(ast(*left)),
            c.name@,
            asts(c.args@, c.args@.len() as int),
        ),
        ASTNode::Word(s) => Ast::Word(s@),
    }
}

/// What the contracts say of the first `n` of a list of expressions.
pub open spec fn asts(v: Seq<ASTNode>, n: int) -> Seq<Ast>
    decreases v, n,
{
    if n <= 0 || n > v.len() {
        Seq::empty()
    } else {
        asts(v, n - 1).push(ast(v[n - 1]))
    }
}

impl View for ASTNode {
    type V = Ast;

    open spec fn view(&self) -> Ast {
        ast(*self)
    }
}

/// The text of a quoted word from `i` on, without the quote that closes it:
/// a quote that is written twice stands for one.
pub open spec fn unquoted(s: Seq<char>, i: int) -> Seq<char>
    decreases s.len() - i,
{
    if i < 0 || i + 1 >= s.len() {
        Seq::empty()
    } else if s[i] == '\'' && i + 2 < s.len() && s[i + 1] == '\'' {
        seq!['\''] + unquoted(s, i + 2)
    } else {
        seq![s[i]] + unquoted(s, i + 1)
    }
}

/// The text from `i` on with each quote written twice.
pub open spec fn doubled(s: Seq<char>, i: int) -> Seq<char>
    decreases s.len() - i,
{
    if i < 0 || i >= s.len() {
        Seq::empty()
    } else if s[i] == '\'' {
        seq!['\'', '\''] + doubled(s, i + 1)
    } else {
        seq![s[i]] + doubled(s, i + 1)
    }
}

/// The characters of `v` as a string, by std's `collect` of an iterator of
/// `char` into a `String`: the string holds those characters in that order.
#[verifier::external_body]
fn string_of(v: &Vec<char>) -> (r: String)
    ensures
        r@ == v@,
{
    v.iter().collect()
}

/// The text that a quoted word stands for: what is between its first and
/// its last character, which are its outer quotes, with each doubled quote
/// taken as one. The word has to hold those two characters at least.
pub fn unquote(s: &str) -> (r: String)
    requires
        s@.len() >= 2,
    ensures
        r@ == unquoted(s@, 1),
{
    let v = chars_of(s);
    let n = v.len();
    let mut out: Vec<char> = Vec::new();
    let mut i: usize = 1;
    while i < n - 1
        invariant
            1 <= i <= n,
            n >= 2,
            n == v@.len(),
            v@ == s@,
            out@ + unquoted(v@, i as int) == unquoted(v@, 1),
        decreases n - i,
    {
        if v[i] == '\'' && i < n - 2 && v[i + 1] == '\'' {
            proof {
                assert(out@.push('\'') + unquoted(v@, i + 2) =~= out@ + (seq!['\''] + unquoted(
                    v@,
                    i + 2,
                )));
            }
            out.push('\'');
            i = i + 2;
        } else {
            proof {
                assert(out@.push(v@[i as int]) + unquoted(v@, i + 1) =~= out@ + (seq![
                    v@[i as int],
                ] + unquoted(v@, i + 1)));
            }
            out.push(v[i]);
            i = i + 1;
        }
    }
    proof {
        assert(out@ + Seq::<char>::empty() =~= out@);
    }
    string_of(&out)
}

/// The text with each quote in it written twice.
pub fn quote(s: &str) -> (r: String)
    ensures
        r@ == doubled(s@, 0),
{
    let v = chars_of(s);
    let n = v.len();
    let mut out: Vec<char> = Vec::new();
    let mut i: usize = 0;
    while i < n
        invariant
            i <= n,
            n == v@.len(),
            v@ == s@,
            out@ + doubled(v@, i as int) == doubled(v@, 0),
        decreases n - i,
    {
        if v[i] == '\'' {
            proof {
                assert(out@.push('\'').push('\'') + doubled(v@, i + 1) =~= out@ + (seq![
                    '\'',
                    '\'',
                ] + doubled(v@, i + 1)));
            }
            out.push('\'');
            out.push('\'');
        } else {
            proof {
                assert(out@.push(v@[i as int]) + doubled(v@, i + 1) =~= out@ + (seq![
                    v@[i as int],
                ] + doubled(v@, i + 1)));
            }
            out.push(v[i]);
        }
        i = i + 1;
    }
    proof {
        assert(out@ + Seq::<char>::empty() =~= out@);
    }
    string_of(&out)
}

/// What reading a part of an expression gives: the part, and the position
/// of the token behind it.
pub type Read<T> = Option<(T, int)>;

/// The text of the token `t` in the source `s`.
pub open spec fn text(s: Seq<char>, t: Lexeme) -> Seq<char> {
    s.subrange(t.from as int, t.to as int)
}

/// Each of the tokens lies within the source.
pub open spec fn fit(s: Seq<char>, toks: Seq<Lexeme>) -> bool {
    forall|i: int| 0 <= i < toks.len() ==> within(s, #[trigger] toks[i])
}

/// The arguments of a command from the token at `pos` on, behind the
/// arguments `args` already read. The arguments end, unread, at a pipe, at a
/// closing brace and at the end of the source.
pub open spec fn arguments(s: Seq<char>, toks: Seq<Lexeme>, pos: int, args: Seq<Ast>) -> Read<
    Seq<Ast>,
>
    decreases toks.len() - pos, 0int,
{
    if pos < 0 || pos >= toks.len() {
        Some((args, pos))
    } else {
        let t = toks[pos];
        match t.token {
            Token::Word => arguments(s, toks, pos + 1, args.push(Ast::Word(text(s, t)))),
            Token::QuotedWord => arguments(
                s,
                toks,
                pos + 1,
                args.push(Ast::Word(unquoted(text(s, t), 1))),
            ),
            Token::OpenCurly => match pipeline(s, toks, pos + 1) {
                Some((node, end)) => if pos < end < toks.len() && toks[end].token
                    == Token::CloseCurly {
                    arguments(s, toks, end + 1, args.push(node))
                } else {
                    None
                },
                None => None,
            },
            Token::Pipe | Token::CloseCurly => Some((args, pos)),
            Token::Error => None,
        }
    }
}

/// The command that starts with the token at `pos`: a name, which is a word
/// or a quoted word taken as it stands, and its arguments.
pub open spec fn command(s: Seq<char>, toks: Seq<Lexeme>, pos: int) -> Read<(Seq<char>, Seq<Ast>)>
    decreases toks.len() - pos, 1int,
{
    if pos < 0 || pos >= toks.len() {
        None
    } else {
        let t = toks[pos];
        if t.token == Token::Word || t.token == Token::QuotedWord {
            match arguments(s, toks, pos + 1, Seq::empty()) {
                Some((args, end)) => Some(((text(s, t), args), end)),
                None => None,
            }
        } else {
            None
        }
    }
}

/// The commands that are piped behind `left`, from the token at `pos` on.
/// The pipeline ends, unread, at a closing brace and at the end of the source.
pub open spec fn piped(s: Seq<char>, toks: Seq<Lexeme>, pos: int, left: Ast) -> Read<Ast>
    decreases toks.len() - pos, 2int,
{
    if pos < 0 || pos >= toks.len() {
        Some((left, pos))
    } else {
        match toks[pos].token {
            Token::Pipe => match command(s, toks, pos + 1) {
                Some(((name, args), end)) => if pos < end <= toks.len() {
                    piped(s, toks, end, Ast::Pipe(Box::new(left), name, args))
                } else {
                    None
                },
                None => None,
            },
            Token::CloseCurly => Some((left, pos)),
            _ => None,
        }
    }
}

/// The pipeline that starts with the token at `pos`: a command, and the
/// commands that are piped behind it.
pub open spec fn pipeline(s: Seq<char>, toks: Seq<Lexeme>, pos: int) -> Read<Ast>
    decreases toks.len() - pos, 3int,
{
    match command(s, toks, pos) {
        Some(((name, args), end)) => if pos < end <= toks.len() {
            piped(s, toks, end, Ast::Command(name, args))
        } else {
            None
        },
        None => None,
    }
}

/// The text of a token, cut out of the source.
fn cut(src: &str, t: Lexeme) -> (r: &str)
    requires
        within(src@, t),
    ensures
        r@ == text(src@, t),
{
    src.substring_char(t.from, t.to)
}

fn parse_arguments(src: &str, toks: &Vec<Lexeme>, pos: usize, args: Vec<ASTNode>) -> (r: Option<
    (Vec<ASTNode>, usize),
>)
    requires
        pos <= toks@.len(),
        fit(src@, toks@),
    ensures
        match arguments(src@, toks@, pos as int, asts(args@, args@.len() as int)) {
            Some((want, end)) => r matches Some((got, at)) && asts(got@, got@.len() as int)
                == want && at == end,
            None => r is None,
        },
    decreases toks@.len() - pos, 0int,
{
    if pos >= toks.len() {
        return Some((args, pos));
    }
    let t = toks[pos];
    let ghost before = asts(args@, args@.len() as int);
    let mut args = args;
    match t.token {
        Token::Word => {
            let word = ASTNode::Word(String::from_str(cut(src, t)));
            proof {
                lemma_asts_push(args@, word);
            }
            args.push(word);
            parse_arguments(src, toks, pos + 1, args)
        },
        Token::QuotedWord => {
            let word = ASTNode::Word(unquote(cut(src, t)));
            proof {
                lemma_asts_push(args@, word);
            }
            args.push(word);
            parse_arguments(src, toks, pos + 1, args)
        },
        Token::OpenCurly => match parse_pipeline(src, toks, pos + 1) {
            Some((node, end)) => {
                if pos < end && end < toks.len() && matches!(
                    toks[end].token,
                    Token::CloseCurly
                ) {
                    proof {
                        lemma_asts_push(args@, node);
                    }
                    args.push(node);
                    parse_arguments(src, toks, end + 1, args)
                } else {
                    None
                }
            },
            None => None,
        },
        Token::Pipe | Token::CloseCurly => Some((args, pos)),
        Token::Error => None,
    }
}

fn parse_command(src: &str, toks: &Vec<Lexeme>, pos: usize) -> (r: Option<(Command, usize)>)
    requires
        pos <= toks@.len(),
        fit(src@, toks@),
    ensures
        match command(src@, toks@, pos as int) {
            Some(((name, args), end)) => r matches Some((c, at)) && c.name@ == name && asts(
                c.args@,
                c.args@.len() as int,
            ) == args && at == end,
            None => r is None,
        },
    decreases toks@.len() - pos, 1int,
{
    if pos >= toks.len() {
        return None;
    }
    let t = toks[pos];
    match t.token {
        Token::Word | Token::QuotedWord => {
            let name = String::from_str(cut(src, t));
            let none: Vec<ASTNode> = Vec::new();
            assert(asts(none@, 0) =~= Seq::<Ast>::empty());
            match parse_arguments(src, toks, pos + 1, none) {
                Some((args, end)) => Some((Command { name, args }, end)),
                None => None,
            }
        },
        _ => None,
    }
}

fn parse_piped(src: &str, toks: &Vec<Lexeme>, pos: usize, left: ASTNode) -> (r: Option<
    (ASTNode, usize),
>)
    requires
        pos <= toks@.len(),
        fit(src@, toks@),
    ensures
        match piped(src@, toks@, pos as int, ast(left)) {
            Some((want, end)) => r matches Some((got, at)) && ast(got) == want && at == end,
            None => r is None,
        },
    decreases toks@.len() - pos, 2int,
{
    if pos >= toks.len() {
        return Some((left, pos));
    }
    match toks[pos].token {
        Token::Pipe => match parse_command(src, toks, pos + 1) {
            Some((c, end)) => {
                if pos < end && end <= toks.len() {
                    parse_piped(src, toks, end, ASTNode::Pipe(Box::new(left), c))
                } else {
                    None
                }
            },
            None => None,
        },
        Token::CloseCurly => Some((left, pos)),
        _ => None,
    }
}

fn parse_pipeline(src: &str, toks: &Vec<Lexeme>, pos: usize) -> (r: Option<(ASTNode, usize)>)
    requires
        pos <= toks@.len(),
        fit(src@, toks@),
    ensures
        match pipeline(src@, toks@, pos as int) {
            Some((want, end)) => r matches Some((got, at)) && ast(got) == want && at == end,
            None => r is None,
        },
    decreases toks@.len() - pos, 3int,
{
    match parse_command(src, toks, pos) {
        Some((c, end)) => {
            if pos < end && end <= toks.len() {
                parse_piped(src, toks, end, ASTNode::Command(c))
            } else {
                None
            }
        },
        None => None,
    }
}

/// One more expression behind a list adds its view behind the views.
pub proof fn lemma_asts_push(v: Seq<ASTNode>, node: ASTNode)
    ensures
        asts(v.push(node), v.len() as int + 1) == asts(v, v.len() as int).push(ast(node)),
{
    lemma_asts_prefix(v, node, v.len() as int);
}

/// The views of the first `n` of a list are not changed by what is put
/// behind the list.
pub proof fn lemma_asts_prefix(v: Seq<ASTNode>, node: ASTNode, n: int)
    requires
        0 <= n <= v.len(),
    ensures
        asts(v.push(node), n) == asts(v, n),
    decreases n,
{
    if n > 0 {
        lemma_asts_prefix(v, node, n - 1);
        assert(v.push(node)[n - 1] == v[n - 1]);
    }
}

/// The expression that a source holds: the pipeline that its tokens spell
/// from the first on. What is behind a closing brace that closes nothing is
/// not read.
pub open spec fn parsed(s: Seq<char>) -> Option<Ast> {
    match pipeline(s, tokens(s, 0), 0) {
        Some((node, _)) => Some(node),
        None => None,
    }
}

/// Reads a pipeline expression. It fails where the source does not spell
/// one, with a word on what was wrong.
pub fn parse(s: &str) -> (r: Result<ASTNode, String>)
    ensures
        match parsed(s@) {
            Some(want) => r matches Ok(node) && ast(node) == want,
            None => r is Err,
        },
{
    let chars = chars_of(s);
    let toks = lex(&chars);
    proof {
        lemma_tokens_within(s@, 0);
    }
    match parse_pipeline(s, &toks, 0) {
        Some((node, _)) => Ok(node),
        None => Err(String::from_str("not a pipeline")),
    }
}

/// An expression written out: names and words with each quote in them
/// doubled, an argument that is a command in braces, a pipe between what is
/// left of it and the command to its right.
pub open spec fn written(node: Ast) -> Seq<char>
    decreases node,
{
    match node {
        Ast::Word(s) => doubled(s, 0),
        Ast::Command(name, args) => doubled(name, 0) + written_args(args, args.len() as int),
        Ast::Pipe(left, name, args) => written(*left) + seq![' ', '|', ' '] + doubled(name, 0)
            + written_args(args, args.len() as int),
    }
}

/// The first `n` arguments written out, each behind a space.
pub open spec fn written_args(args: Seq<Ast>, n: int) -> Seq<char>
    decreases args, n,
{
    if n <= 0 || n > args.len() {
        Seq::empty()
    } else {
        let arg = args[n - 1];
        let this = if arg is Command {
            seq![' ', '{'] + written(arg) + seq!['}']
        } else {
            seq![' '] + written(arg)
        };
        written_args(args, n - 1) + this
    }
}

fn write_args(args: &Vec<ASTNode>, n: usize, out: &mut String)
    requires
        n <= args@.len(),
    ensures
        final(out)@ == old(out)@ + written_args(asts(args@, args@.len() as int), n as int),
    decreases args@, n,
{
    proof {
        lemma_asts_each(args@, args@.len() as int);
    }
    if n == 0 {
        assert(out@ + Seq::<char>::empty() =~= out@);
        return;
    }
    write_args(args, n - 1, out);
    let ghost mid = out@;
    let arg = &args[n - 1];
    proof {
        reveal_strlit(" {");
        reveal_strlit("}");
        reveal_strlit(" ");
    }
    match arg {
        ASTNode::Command(_) => {
            out.append(" {");
            write(arg, out);
            out.append("}");
            assert(out@ =~= mid + (seq![' ', '{'] + written(ast(*arg)) + seq!['}']));
        },
        _ => {
            out.append(" ");
            write(arg, out);
            assert(out@ =~= mid + (seq![' '] + written(ast(*arg))));
        },
    }
    assert(out@ =~= old(out)@ + written_args(asts(args@, args@.len() as int), n as int));
}

fn write(node: &ASTNode, out: &mut String)
    ensures
        final(out)@ == old(out)@ + written(ast(*node)),
    decreases node,
{
    match node {
        ASTNode::Word(s) => {
            let q = quote(s.as_str());
            out.append(q.as_str());
        },
        ASTNode::Command(c) => {
            proof {
                lemma_asts_each(c.args@, c.args@.len() as int);
            }
            let q = quote(c.name.as_str());
            out.append(q.as_str());
            write_args(&c.args, c.args.len(), out);
            assert(out@ =~= old(out)@ + written(ast(*node)));
        },
        ASTNode::Pipe(left, c) => {
            proof {
                lemma_asts_each(c.args@, c.args@.len() as int);
                reveal_strlit(" | ");
            }
            write(left, out);
            out.append(" | ");
            let q = quote(c.name.as_str());
            out.append(q.as_str());
            write_args(&c.args, c.args.len(), out);
            assert(out@ =~= old(out)@ + written(ast(*node)));
        },
    }
}

/// The views of a list are, place by place, the view of each.
pub proof fn lemma_asts_each(v: Seq<ASTNode>, n: int)
    requires
        0 <= n <= v.len(),
    ensures
        asts(v, n).len() == n,
        forall|i: int| 0 <= i < n ==> #[trigger] asts(v, n)[i] == ast(v[i]),
    decreases n,
{
    if n > 0 {
        lemma_asts_each(v, n - 1);
    }
}

impl ASTNode {
    /// The expression written out.
    pub fn to_text(&self) -> (r: String)
        ensures
            r@ == written(ast(*self)),
    {
        let mut out = String::new();
        write(self, &mut out);
        assert(Seq::<char>::empty() + written(ast(*self)) =~= written(ast(*self)));
        out
    }
}

} // verus!
