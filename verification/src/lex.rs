//! The tokens of a pipeline expression.
use vstd::prelude::*;

verus! {

/// The kind of a token.
#[derive(Debug, Copy, Clone, PartialEq, Eq, Structural)]
pub enum Token {
    /// Text that is no token.
    Error,
    Pipe,
    OpenCurly,
    CloseCurly,
    /// A run of letters, digits and slashes.
    Word,
    /// Text between quotes, in which a quote is written twice.
    QuotedWord,
}

/// A token with the part of the source it was read from.
#[derive(Debug, Copy, Clone, PartialEq, Eq, Structural)]
pub struct Lexeme {
    pub token: Token,
    pub from: usize,
    pub to: usize,
}

/// A character that separates tokens and is none itself.
pub open spec fn is_blank(c: char) -> bool {
    c == ' ' || c == '\r' || c == '\t'
}

/// A character that a word may hold.
pub open spec fn is_word_char(c: char) -> bool {
    ('a' <= c && c <= 'z') || ('A' <= c && c <= 'Z') || ('0' <= c && c <= '9') || c == '/'
}

/// The first position from `i` on that holds no character of a word.
pub open spec fn word_end(s: Seq<char>, i: int) -> int
    decreases s.len() - i,
{
    if 0 <= i < s.len() && is_word_char(s[i]) {
        word_end(s, i + 1)
    } else {
        i
    }
}

/// The position behind the quote that closes a quoted word whose text goes
/// on at `i`; `None` where the source ends before one does.
pub open spec fn quote_end(s: Seq<char>, i: int) -> Option<int>
    decreases s.len() - i,
{
    if i < 0 || i >= s.len() {
        None
    } else if s[i] != '\'' {
        quote_end(s, i + 1)
    } else if i + 1 < s.len() && s[i + 1] == '\'' {
        quote_end(s, i + 2)
    } else {
        Some(i + 1)
    }
}

/// The token that starts at `i`, where `i` holds no blank.
pub open spec fn token_at(s: Seq<char>, i: int) -> Lexeme
    recommends
        0 <= i < s.len(),
{
    let c = s[i];
    if c == '|' {
        Lexeme { token: Token::Pipe, from: i as usize, to: (i + 1) as usize }
    } else if c == '{' {
        Lexeme { token: Token::OpenCurly, from: i as usize, to: (i + 1) as usize }
    } else if c == '}' {
        Lexeme { token: Token::CloseCurly, from: i as usize, to: (i + 1) as usize }
    } else if is_word_char(c) {
        Lexeme { token: Token::Word, from: i as usize, to: word_end(s, i) as usize }
    } else if c == '\'' {
        match quote_end(s, i + 1) {
            Some(end) => Lexeme { token: Token::QuotedWord, from: i as usize, to: end as usize },
            None => Lexeme { token: Token::Error, from: i as usize, to: s.len() as usize },
        }
    } else {
        Lexeme { token: Token::Error, from: i as usize, to: (i + 1) as usize }
    }
}

/// The tokens of `s` from `i` on.
pub open spec fn tokens(s: Seq<char>, i: int) -> Seq<Lexeme>
    decreases s.len() - i,
{
    if i < 0 || i >= s.len() {
        Seq::empty()
    } else if is_blank(s[i]) {
        tokens(s, i + 1)
    } else {
        let t = token_at(s, i);
        if i < t.to <= s.len() {
            seq![t] + tokens(s, t.to as int)
        } else {
            seq![t]
        }
    }
}

/// The end of a word lies behind its start and within the source.
pub proof fn lemma_word_end(s: Seq<char>, i: int)
    requires
        0 <= i <= s.len(),
    ensures
        i <= word_end(s, i) <= s.len(),
        0 <= i < s.len() && is_word_char(s[i]) ==> i < word_end(s, i),
    decreases s.len() - i,
{
    if i < s.len() && is_word_char(s[i]) {
        lemma_word_end(s, i + 1);
    }
}

/// The end of a quoted word lies behind where its text goes on and within
/// the source.
pub proof fn lemma_quote_end(s: Seq<char>, i: int)
    requires
        0 <= i <= s.len(),
    ensures
        quote_end(s, i) matches Some(end) ==> i < end <= s.len(),
    decreases s.len() - i,
{
    if i < s.len() {
        if s[i] != '\'' {
            lemma_quote_end(s, i + 1);
        } else if i + 1 < s.len() && s[i + 1] == '\'' {
            lemma_quote_end(s, i + 2);
        }
    }
}

fn blank(c: char) -> (r: bool)
    ensures
        r == is_blank(c),
{
    c == ' ' || c == '\r' || c == '\t'
}

fn word_char(c: char) -> (r: bool)
    ensures
        r == is_word_char(c),
{
    ('a' <= c && c <= 'z') || ('A' <= c && c <= 'Z') || ('0' <= c && c <= '9') || c == '/'
}

/// The characters of a string.
pub fn chars_of(s: &str) -> (r: Vec<char>)
    ensures
        r@ == s@,
{
    let n = s.unicode_len();
    let mut r: Vec<char> = Vec::new();
    let mut i: usize = 0;
    while i < n
        invariant
            i <= n,
            n == s@.len(),
            r@ == s@.subrange(0, i as int),
        decreases n - i,
    {
        let c = s.get_char(i);
        r.push(c);
        assert(r@ =~= s@.subrange(0, i + 1));
        i = i + 1;
    }
    assert(s@.subrange(0, n as int) =~= s@);
    r
}

/// Reads the tokens of a source.
pub fn lex(s: &Vec<char>) -> (r: Vec<Lexeme>)
    ensures
        r@ == tokens(s@, 0),
{
    let n = s.len();
    let mut r: Vec<Lexeme> = Vec::new();
    let mut i: usize = 0;
    while i < n
        invariant
            i <= n,
            n == s@.len(),
            r@ + tokens(s@, i as int) == tokens(s@, 0),
        decreases n - i,
    {
        let c = s[i];
        if blank(c) {
            i = i + 1;
            continue;
        }
        let ghost want = token_at(s@, i as int);
        let start = i;
        let t = if c == '|' {
            Lexeme { token: Token::Pipe, from: i, to: i + 1 }
        } else if c == '{' {
            Lexeme { token: Token::OpenCurly, from: i, to: i + 1 }
        } else if c == '}' {
            Lexeme { token: Token::CloseCurly, from: i, to: i + 1 }
        } else if word_char(c) {
            let mut j: usize = i;
            while j < n && word_char(s[j])
                invariant
                    i <= j <= n,
                    n == s@.len(),
                    word_end(s@, i as int) == word_end(s@, j as int),
                decreases n - j,
            {
                j = j + 1;
            }
            proof {
                lemma_word_end(s@, i as int);
            }
            Lexeme { token: Token::Word, from: i, to: j }
        } else if c == '\'' {
            let mut j: usize = i + 1;
            let mut end: Option<usize> = None;
            while j < n
                invariant_except_break
                    end is None,
                    quote_end(s@, i + 1) == quote_end(s@, j as int),
                invariant
                    i < j <= n + 1,
                    n == s@.len(),
                ensures
                    match quote_end(s@, i + 1) {
                        Some(e) => end == Some(e as usize),
                        None => end is None,
                    },
                decreases n + 1 - j,
            {
                if s[j] != '\'' {
                    j = j + 1;
                } else if j + 1 < n && s[j + 1] == '\'' {
                    j = j + 2;
                } else {
                    end = Some(j + 1);
                    break;
                }
            }
            proof {
                lemma_quote_end(s@, i + 1);
            }
            match end {
                Some(e) => Lexeme { token: Token::QuotedWord, from: i, to: e },
                None => Lexeme { token: Token::Error, from: i, to: n },
            }
        } else {
            Lexeme { token: Token::Error, from: i, to: i + 1 }
        };
        assert(t == want);
        assert(start < t.to <= n);
        proof {
            assert(r@.push(t) + tokens(s@, t.to as int) =~= r@ + (seq![t] + tokens(
                s@,
                t.to as int,
            )));
        }
        r.push(t);
        i = t.to;
    }
    proof {
        assert(r@ + Seq::<Lexeme>::empty() =~= r@);
    }
    r
}

/// Each token lies within the source, and a quoted word holds its two
/// quotes at least.
pub open spec fn within(s: Seq<char>, t: Lexeme) -> bool {
    &&& t.from <= t.to <= s.len()
    &&& t.token == Token::QuotedWord ==> t.to - t.from >= 2
}

/// The tokens that are read from a source lie within it.
pub proof fn lemma_tokens_within(s: Seq<char>, i: int)
    requires
        0 <= i,
        s.len() <= usize::MAX,
    ensures
        forall|k: int| 0 <= k < tokens(s, i).len() ==> within(s, #[trigger] tokens(s, i)[k]),
    decreases s.len() - i,
{
    if i < s.len() {
        if is_blank(s[i]) {
            lemma_tokens_within(s, i + 1);
        } else {
            let t = token_at(s, i);
            lemma_word_end(s, i);
            lemma_quote_end(s, i + 1);
            assert(within(s, t));
            if i < t.to <= s.len() {
                lemma_tokens_within(s, t.to as int);
                let rest = tokens(s, t.to as int);
                assert forall|k: int| 0 <= k < tokens(s, i).len() implies within(
                    s,
                    #[trigger] tokens(s, i)[k],
                ) by {
                    if k > 0 {
                        assert(tokens(s, i)[k] == rest[k - 1]);
                    }
                }
            }
        }
    }
}

} // verus!
