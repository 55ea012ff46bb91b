use vstd::prelude::*;
use vstd::string::{StrSliceExecFns, StringExecFns};

verus! {

/// One lexical unit of a specification text.
pub enum Token {
    /// A single punctuation character such as `-`, `*`, `=`, `;`.
    Punct(char),
    /// A run of ASCII letters, digits and underscores.
    Ident(String),
    /// The contents of a double-quoted literal.
    Text(String),
}

/// The mathematical value of a [`Token`].
pub enum Lexeme {
    Punct(char),
    Ident(Seq<char>),
    Text(Seq<char>),
}

impl View for Token {
    type V = Lexeme;

    open spec fn view(&self) -> Lexeme {
        match self {
            Token::Punct(c) => Lexeme::Punct(*c),
            Token::Ident(s) => Lexeme::Ident(s@),
            Token::Text(s) => Lexeme::Text(s@),
        }
    }
}

/// The value of each token of `t`.
pub open spec fn lexemes(t: Seq<Token>) -> Seq<Lexeme> {
    t.map_values(|x: Token| x@)
}

impl Token {
    /// A copy of this token.
    pub fn duplicate(&self) -> (r: Token)
        ensures
            r@ == self@,
    {
        match self {
            Token::Punct(c) => Token::Punct(*c),
            Token::Ident(s) => Token::Ident(s.clone()),
            Token::Text(s) => Token::Text(s.clone()),
        }
    }

    /// Whether this is the punctuation character `c`.
    pub fn is_punct(&self, c: char) -> (r: bool)
        ensures
            r == (self@ == Lexeme::Punct(c)),
    {
        match self {
            Token::Punct(d) => *d == c,
            _ => false,
        }
    }

    /// Whether this is a word.
    pub fn is_ident(&self) -> (r: bool)
        ensures
            r == (self@ is Ident),
    {
        match self {
            Token::Ident(_) => true,
            _ => false,
        }
    }
}

/// ASCII letters, digits and `_`.
pub open spec fn is_word_char(c: char) -> bool {
    ('a' <= c && c <= 'z') || ('A' <= c && c <= 'Z') || ('0' <= c && c <= '9') || c == '_'
}

/// The whitespace characters that separate tokens.
pub open spec fn is_space(c: char) -> bool {
    c == ' ' || c == '\t' || c == '\n' || c == '\r'
}

/// The index of the first character at or after `i` that is not a word character.
pub open spec fn word_end(s: Seq<char>, i: int) -> int
    decreases s.len() - i,
{
    if 0 <= i < s.len() && is_word_char(s[i]) {
        word_end(s, i + 1)
    } else {
        i
    }
}

/// The index of the first `"` at or after `i`, or the length of `s` where there is none.
pub open spec fn quote_end(s: Seq<char>, i: int) -> int
    decreases s.len() - i,
{
    if 0 <= i < s.len() && s[i] != '"' {
        quote_end(s, i + 1)
    } else {
        i
    }
}

pub proof fn lemma_word_end(s: Seq<char>, i: int)
    requires
        0 <= i <= s.len(),
    ensures
        i <= word_end(s, i) <= s.len(),
        forall|k: int| i <= k < word_end(s, i) ==> is_word_char(#[trigger] s[k]),
        word_end(s, i) < s.len() ==> !is_word_char(s[word_end(s, i)]),
    decreases s.len() - i,
{
    if i < s.len() && is_word_char(s[i]) {
        lemma_word_end(s, i + 1);
    }
}

pub proof fn lemma_quote_end(s: Seq<char>, i: int)
    requires
        0 <= i <= s.len(),
    ensures
        i <= quote_end(s, i) <= s.len(),
        forall|k: int| i <= k < quote_end(s, i) ==> #[trigger] s[k] != '"',
        quote_end(s, i) < s.len() ==> s[quote_end(s, i)] == '"',
    decreases s.len() - i,
{
    if i < s.len() && s[i] != '"' {
        lemma_quote_end(s, i + 1);
    }
}

/// `a` put before the tokens of `r`, where there are some.
pub open spec fn prepend(a: Seq<Lexeme>, r: Option<Seq<Lexeme>>) -> Option<Seq<Lexeme>> {
    match r {
        Some(b) => Some(a + b),
        None => None,
    }
}

/// The tokens of `s` from index `i` on: whitespace separates, a word is a
/// maximal run of word characters, a quoted text runs to the next `"`, and
/// every other character is a token of its own. `None` where a quote is not closed.
pub open spec fn lex_from(s: Seq<char>, i: int) -> Option<Seq<Lexeme>>
    decreases s.len() - i,
{
    if i < 0 || i >= s.len() {
        Some(Seq::empty())
    } else if is_space(s[i]) {
        lex_from(s, i + 1)
    } else if is_word_char(s[i]) {
        proof {
            lemma_word_end(s, i);
        }
        let j = word_end(s, i);
        prepend(seq![Lexeme::Ident(s.subrange(i, j))], lex_from(s, j))
    } else if s[i] == '"' {
        proof {
            lemma_quote_end(s, i + 1);
        }
        let j = quote_end(s, i + 1);
        if j >= s.len() {
            None
        } else {
            prepend(seq![Lexeme::Text(s.subrange(i + 1, j))], lex_from(s, j + 1))
        }
    } else {
        prepend(seq![Lexeme::Punct(s[i])], lex_from(s, i + 1))
    }
}

fn word_char(c: char) -> (r: bool)
    ensures
        r == is_word_char(c),
{
    ('a' <= c && c <= 'z') || ('A' <= c && c <= 'Z') || ('0' <= c && c <= '9') || c == '_'
}

proof fn lemma_prepend_push(a: Seq<Lexeme>, x: Lexeme, r: Option<Seq<Lexeme>>)
    ensures
        prepend(a, prepend(seq![x], r)) == prepend(a.push(x), r),
{
    if let Some(b) = r {
        assert(a + (seq![x] + b) =~= a.push(x) + b);
    }
}

/// Splits a specification text into tokens; `None` where a quoted text is not closed.
pub fn tokenize(text: &str) -> (r: Option<Vec<Token>>)
    ensures
        match r {
            Some(t) => lex_from(text@, 0) == Some(lexemes(t@)),
            None => lex_from(text@, 0) is None,
        },
{
    let ghost s = text@;
    let n = text.unicode_len();
    let mut out: Vec<Token> = Vec::new();
    let mut i: usize = 0;
    assert(lexemes(out@) =~= Seq::<Lexeme>::empty());
    assert(prepend(Seq::empty(), lex_from(s, 0)) =~= lex_from(s, 0));
    while i < n
        invariant
            s == text@,
            n == s.len(),
            i <= n,
            lex_from(s, 0) == prepend(lexemes(out@), lex_from(s, i as int)),
        decreases n - i,
    {
        let c = text.get_char(i);
        if c == ' ' || c == '\t' || c == '\n' || c == '\r' {
            i = i + 1;
        } else if word_char(c) {
            proof {
                lemma_word_end(s, i as int);
            }
            let mut j: usize = i + 1;
            while j < n && word_char(text.get_char(j))
                invariant
                    s == text@,
                    n == s.len(),
                    i < j <= n,
                    word_end(s, i as int) == word_end(s, j as int),
                decreases n - j,
            {
                j = j + 1;
            }
            let w = String::from_str(text.substring_char(i, j));
            let ghost before = out@;
            out.push(Token::Ident(w));
            proof {
                assert(lexemes(out@) =~= lexemes(before).push(Lexeme::Ident(s.subrange(i as int, j as int))));
                lemma_prepend_push(lexemes(before), Lexeme::Ident(s.subrange(i as int, j as int)), lex_from(s, j as int));
            }
            i = j;
        } else if c == '"' {
            proof {
                lemma_quote_end(s, i + 1);
            }
            let mut j: usize = i + 1;
            while j < n && text.get_char(j) != '"'
                invariant
                    s == text@,
                    n == s.len(),
                    i < j <= n,
                    quote_end(s, i + 1) == quote_end(s, j as int),
                decreases n - j,
            {
                j = j + 1;
            }
            if j >= n {
                return None;
            }
            let d = String::from_str(text.substring_char(i + 1, j));
            let ghost before = out@;
            out.push(Token::Text(d));
            proof {
                assert(lexemes(out@) =~= lexemes(before).push(Lexeme::Text(s.subrange(i + 1, j as int))));
                lemma_prepend_push(lexemes(before), Lexeme::Text(s.subrange(i + 1, j as int)), lex_from(s, j + 1));
            }
            i = j + 1;
        } else {
            let ghost before = out@;
            out.push(Token::Punct(c));
            proof {
                assert(lexemes(out@) =~= lexemes(before).push(Lexeme::Punct(c)));
                lemma_prepend_push(lexemes(before), Lexeme::Punct(c), lex_from(s, i + 1));
            }
            i = i + 1;
        }
    }
    assert(lexemes(out@) + Seq::<Lexeme>::empty() =~= lexemes(out@));
    Some(out)
}

} // verus!
