use vstd::prelude::*;
use vstd::string::StringExecFns;
use crate::token::{Token, Lexeme, lexemes};

verus! {

/// How often an option may appear on a command line.
#[derive(Clone, Copy, Debug, PartialEq, Eq, Structural)]
pub enum Occurrence {
    /// Zero or one time (no marker).
    Single,
    /// Any number of times (`*`).
    Multi,
    /// Exactly once (`+`).
    RequiredOne,
}

/// Whether an occurrence of an option carries a value, with the value's hint.
pub enum ValueKind {
    /// A plain flag (no marker).
    Flag,
    /// A value that must be given (`= HINT`).
    RequiredValue(String),
    /// A value that may be given (`?= HINT`).
    OptionalValue(String),
}

/// The mathematical value of a [`ValueKind`].
pub enum ValueView {
    Flag,
    RequiredValue(Seq<char>),
    OptionalValue(Seq<char>),
}

impl View for ValueKind {
    type V = ValueView;

    open spec fn view(&self) -> ValueView {
        match self {
            ValueKind::Flag => ValueView::Flag,
            ValueKind::RequiredValue(h) => ValueView::RequiredValue(h@),
            ValueKind::OptionalValue(h) => ValueView::OptionalValue(h@),
        }
    }
}

/// The names under which an option is known.
pub enum OptionName {
    ShortOnly(String),
    LongOnly(String),
    ShortAndLong(String, String),
}

/// The mathematical value of an [`OptionName`].
pub enum NameView {
    ShortOnly(Seq<char>),
    LongOnly(Seq<char>),
    ShortAndLong(Seq<char>, Seq<char>),
}

impl View for OptionName {
    type V = NameView;

    open spec fn view(&self) -> NameView {
        match self {
            OptionName::ShortOnly(s) => NameView::ShortOnly(s@),
            OptionName::LongOnly(l) => NameView::LongOnly(l@),
            OptionName::ShortAndLong(s, l) => NameView::ShortAndLong(s@, l@),
        }
    }
}

/// One resolved option clause.
pub struct OptionSpec {
    pub name: OptionName,
    pub occurrence: Occurrence,
    pub value: ValueKind,
    pub description: String,
}

/// The mathematical value of an [`OptionSpec`].
pub struct OptionSpecView {
    pub name: NameView,
    pub occurrence: Occurrence,
    pub value: ValueView,
    pub description: Seq<char>,
}

impl View for OptionSpec {
    type V = OptionSpecView;

    open spec fn view(&self) -> OptionSpecView {
        OptionSpecView {
            name: self.name@,
            occurrence: self.occurrence,
            value: self.value@,
            description: self.description@,
        }
    }
}

/// Why a clause could not be resolved.
#[derive(Clone, Copy, Debug, PartialEq, Eq, Structural)]
pub enum ErrorKind {
    /// Too few tokens, or no description at the end.
    StructuralError,
    /// The leading tokens match none of the three name shapes.
    MalformedOptionName,
    /// What follows the name matches none of the modifier shapes.
    MalformedModifier,
}

/// Whether `x` is a word (an identifier).
pub open spec fn is_word(x: Lexeme) -> bool {
    x is Ident
}

/// Whether a long name whose word stands at `i` goes on with `- word`.
pub open spec fn long_continues(t: Seq<Lexeme>, i: int) -> bool {
    0 <= i && i + 2 < t.len() && t[i + 1] == Lexeme::Punct('-') && is_word(t[i + 2])
}

/// The index just past the long name whose first word stands at `i`.
pub open spec fn long_end(t: Seq<Lexeme>, i: int) -> int
    decreases t.len() - i,
{
    if long_continues(t, i) {
        long_end(t, i + 2)
    } else {
        i + 1
    }
}

/// The words of the long name that starts at `i`, joined with `-`.
pub open spec fn long_text(t: Seq<Lexeme>, i: int) -> Seq<char>
    decreases t.len() - i,
{
    if long_continues(t, i) {
        t[i]->Ident_0 + seq!['-'] + long_text(t, i + 2)
    } else {
        t[i]->Ident_0
    }
}

/// Whether `t` starts, at `k`, with `- - word`.
pub open spec fn long_marker_at(t: Seq<Lexeme>, k: int) -> bool {
    0 <= k && k + 2 < t.len() && t[k] == Lexeme::Punct('-') && t[k + 1] == Lexeme::Punct('-')
        && is_word(t[k + 2])
}

/// The name at the head of `b`, and the index where the modifiers start.
pub open spec fn parse_name(b: Seq<Lexeme>) -> Option<(NameView, int)> {
    if b.len() >= 2 && b[0] == Lexeme::Punct('-') && is_word(b[1]) && b[1]->Ident_0.len() == 1 {
        let s = b[1]->Ident_0;
        let k: int = if b.len() > 2 && b[2] == Lexeme::Punct(',') { 3 } else { 2 };
        if long_marker_at(b, k) {
            Some((NameView::ShortAndLong(s, long_text(b, k + 2)), long_end(b, k + 2)))
        } else if k == 3 {
            None
        } else {
            Some((NameView::ShortOnly(s), 2))
        }
    } else if long_marker_at(b, 0) {
        Some((NameView::LongOnly(long_text(b, 2)), long_end(b, 2)))
    } else {
        None
    }
}

/// The occurrence and value kind that the modifier tokens `m` denote.
pub open spec fn parse_modifiers(m: Seq<Lexeme>) -> Option<(Occurrence, ValueView)> {
    let occ = if m.len() > 0 && m[0] == Lexeme::Punct('*') {
        Occurrence::Multi
    } else if m.len() > 0 && m[0] == Lexeme::Punct('+') {
        Occurrence::RequiredOne
    } else {
        Occurrence::Single
    };
    let v = if occ == Occurrence::Single { m } else { m.drop_first() };
    if v.len() == 0 {
        Some((occ, ValueView::Flag))
    } else if v.len() == 2 && v[0] == Lexeme::Punct('=') && is_word(v[1]) {
        Some((occ, ValueView::RequiredValue(v[1]->Ident_0)))
    } else if v.len() == 3 && v[0] == Lexeme::Punct('?') && v[1] == Lexeme::Punct('=') && is_word(
        v[2],
    ) {
        Some((occ, ValueView::OptionalValue(v[2]->Ident_0)))
    } else {
        None
    }
}

/// What an option clause with tokens `t` resolves to.
pub open spec fn resolve_spec(t: Seq<Lexeme>) -> Result<OptionSpecView, ErrorKind> {
    if t.len() < 2 || !(t.last() is Text) {
        Err(ErrorKind::StructuralError)
    } else {
        let b = t.drop_last();
        match parse_name(b) {
            None => Err(ErrorKind::MalformedOptionName),
            Some((name, e)) => match parse_modifiers(b.subrange(e, b.len() as int)) {
                None => Err(ErrorKind::MalformedModifier),
                Some((occurrence, value)) => Ok(
                    OptionSpecView { name, occurrence, value, description: t.last()->Text_0 },
                ),
            },
        }
    }
}

/// The text of a word token.
fn word_text(t: &Token) -> (r: String)
    requires
        t@ is Ident,
    ensures
        r@ == t@->Ident_0,
{
    match t {
        Token::Ident(s) => s.clone(),
        _ => String::new(),
    }
}

/// Reads the long name whose first word stands at `i`, among the first `n` tokens.
fn scan_long(t: &Vec<Token>, n: usize, i: usize) -> (r: (String, usize))
    requires
        n <= t@.len(),
        i < n,
        t@[i as int]@ is Ident,
    ensures
        r.0@ == long_text(lexemes(t@).take(n as int), i as int),
        r.1 as int == long_end(lexemes(t@).take(n as int), i as int),
        i < r.1 <= n,
    decreases n - i,
{
    let ghost b = lexemes(t@).take(n as int);
    let w = word_text(&t[i]);
    if n - i > 2 && t[i + 1].is_punct('-') && t[i + 2].is_ident() {
        let (rest, e) = scan_long(t, n, i + 2);
        proof {
            reveal_strlit("-");
        }
        let joined = w.concat("-").concat(rest.as_str());
        assert(joined@ =~= b[i as int]->Ident_0 + seq!['-'] + long_text(b, i + 2));
        (joined, e)
    } else {
        (w, i + 1)
    }
}

/// Resolves the modifier tokens `t[e..n]`.
fn resolve_modifiers(t: &Vec<Token>, e: usize, n: usize) -> (r: Option<(Occurrence, ValueKind)>)
    requires
        e <= n <= t@.len(),
    ensures
        match r {
            Some((o, v)) => parse_modifiers(lexemes(t@).subrange(e as int, n as int)) == Some(
                (o, v@),
            ),
            None => parse_modifiers(lexemes(t@).subrange(e as int, n as int)) is None,
        },
{
    let ghost m = lexemes(t@).subrange(e as int, n as int);
    let (occ, k) = if e < n && t[e].is_punct('*') {
        (Occurrence::Multi, e + 1)
    } else if e < n && t[e].is_punct('+') {
        (Occurrence::RequiredOne, e + 1)
    } else {
        (Occurrence::Single, e)
    };
    let ghost v = lexemes(t@).subrange(k as int, n as int);
    assert(v =~= (if occ == Occurrence::Single { m } else { m.drop_first() }));
    if k == n {
        Some((occ, ValueKind::Flag))
    } else if n - k == 2 && t[k].is_punct('=') && t[k + 1].is_ident() {
        Some((occ, ValueKind::RequiredValue(word_text(&t[k + 1]))))
    } else if n - k == 3 && t[k].is_punct('?') && t[k + 1].is_punct('=') && t[k + 2].is_ident() {
        Some((occ, ValueKind::OptionalValue(word_text(&t[k + 2]))))
    } else {
        None
    }
}

/// Resolves the name at the head of the first `n` tokens: the name and where it ends.
fn resolve_name(t: &Vec<Token>, n: usize) -> (r: Option<(OptionName, usize)>)
    requires
        n <= t@.len(),
    ensures
        match r {
            Some((name, e)) => parse_name(lexemes(t@).take(n as int)) == Some(
                (name@, e as int),
            ) && e <= n,
            None => parse_name(lexemes(t@).take(n as int)) is None,
        },
{
    let ghost b = lexemes(t@).take(n as int);
    if n >= 2 && t[0].is_punct('-') && t[1].is_ident() && match &t[1] {
        Token::Ident(s) => s.as_str().unicode_len() == 1,
        _ => false,
    } {
        let s = word_text(&t[1]);
        let k: usize = if n > 2 && t[2].is_punct(',') {
            3
        } else {
            2
        };
        if n > k + 2 && t[k].is_punct('-') && t[k + 1].is_punct('-') && t[k + 2].is_ident() {
            let (l, e) = scan_long(t, n, k + 2);
            Some((OptionName::ShortAndLong(s, l), e))
        } else if k == 3 {
            None
        } else {
            Some((OptionName::ShortOnly(s), 2))
        }
    } else if 2 < n && t[0].is_punct('-') && t[1].is_punct('-') && t[2].is_ident() {
        let (l, e) = scan_long(t, n, 2);
        Some((OptionName::LongOnly(l), e))
    } else {
        None
    }
}

/// Resolves one option clause: a name, then modifiers, then a description.
pub fn resolve_clause(t: &Vec<Token>) -> (r: Result<OptionSpec, ErrorKind>)
    ensures
        match r {
            Ok(s) => resolve_spec(lexemes(t@)) == Ok::<OptionSpecView, ErrorKind>(s@),
            Err(k) => resolve_spec(lexemes(t@)) == Err::<OptionSpecView, ErrorKind>(k),
        },
{
    let ghost l = lexemes(t@);
    if t.len() < 2 {
        return Err(ErrorKind::StructuralError);
    }
    let n = t.len() - 1;
    let description = match &t[n] {
        Token::Text(d) => d.clone(),
        _ => {
            return Err(ErrorKind::StructuralError);
        },
    };
    assert(l.drop_last() =~= l.take(n as int));
    match resolve_name(t, n) {
        None => Err(ErrorKind::MalformedOptionName),
        Some((name, e)) => {
            assert(l.take(n as int).subrange(e as int, n as int) =~= l.subrange(
                e as int,
                n as int,
            ));
            match resolve_modifiers(t, e, n) {
                None => Err(ErrorKind::MalformedModifier),
                Some((occurrence, value)) => Ok(
                    OptionSpec { name, occurrence, value, description },
                ),
            }
        },
    }
}

} // verus!
