use vstd::prelude::*;
use crate::token::{Token, Lexeme, lexemes};
use crate::resolve::{ErrorKind, OptionSpec, OptionSpecView, resolve_spec, resolve_clause};

verus! {

/// One clause of a specification.
pub enum Clause {
    /// A configuration expression for the registry, kept as written after `.`.
    Directive(Vec<Token>),
    /// An option to register.
    Option(OptionSpec),
}

/// The mathematical value of a [`Clause`].
pub enum ClauseView {
    Directive(Seq<Lexeme>),
    Option(OptionSpecView),
}

impl View for Clause {
    type V = ClauseView;

    open spec fn view(&self) -> ClauseView {
        match self {
            Clause::Directive(t) => ClauseView::Directive(lexemes(t@)),
            Clause::Option(s) => ClauseView::Option(s@),
        }
    }
}

/// The clause that failed to resolve, by position, and why.
#[derive(Clone, Copy, Debug, PartialEq, Eq, Structural)]
pub struct CompileError {
    pub kind: ErrorKind,
    pub clause: usize,
}

/// `t` cut at every `;`; the separators themselves are dropped.
pub open spec fn split_semis(t: Seq<Lexeme>) -> Seq<Seq<Lexeme>>
    decreases t.len(),
{
    if t.len() == 0 {
        seq![Seq::empty()]
    } else {
        let r = split_semis(t.drop_last());
        if t.last() == Lexeme::Punct(';') {
            r.push(Seq::empty())
        } else {
            r.update(r.len() - 1, r.last().push(t.last()))
        }
    }
}

/// The clauses of `t`: `;` ends a clause, so an empty piece after the last one is no clause.
pub open spec fn segments(t: Seq<Lexeme>) -> Seq<Seq<Lexeme>> {
    let r = split_semis(t);
    if r.last().len() == 0 {
        r.drop_last()
    } else {
        r
    }
}

/// The token values of each row of `v`.
pub open spec fn token_rows(v: Seq<Vec<Token>>) -> Seq<Seq<Lexeme>> {
    v.map_values(|x: Vec<Token>| lexemes(x@))
}

/// What one clause's tokens resolve to: a directive when it starts with `.`.
pub open spec fn clause_spec(t: Seq<Lexeme>) -> Result<ClauseView, ErrorKind> {
    if t.len() > 0 && t[0] == Lexeme::Punct('.') {
        if t.len() >= 2 {
            Ok(ClauseView::Directive(t.drop_first()))
        } else {
            Err(ErrorKind::StructuralError)
        }
    } else {
        match resolve_spec(t) {
            Ok(s) => Ok(ClauseView::Option(s)),
            Err(k) => Err(k),
        }
    }
}

/// Whether every clause of `segs` resolves.
pub open spec fn all_resolve(segs: Seq<Seq<Lexeme>>) -> bool {
    forall|i: int| 0 <= i < segs.len() ==> (#[trigger] clause_spec(segs[i])) is Ok
}

/// What each clause of `segs` resolves to, where all of them do.
pub open spec fn resolved(segs: Seq<Seq<Lexeme>>) -> Seq<ClauseView> {
    segs.map_values(|s: Seq<Lexeme>| clause_spec(s)->Ok_0)
}

/// The value of each clause of `v`.
pub open spec fn clause_views(v: Seq<Clause>) -> Seq<ClauseView> {
    v.map_values(|c: Clause| c@)
}

/// Cuts a token sequence into clauses at `;`.
pub fn split_clauses(t: &Vec<Token>) -> (r: Vec<Vec<Token>>)
    ensures
        token_rows(r@) == segments(lexemes(t@)),
{
    let ghost l = lexemes(t@);
    let mut done: Vec<Vec<Token>> = Vec::new();
    let mut cur: Vec<Token> = Vec::new();
    let mut i: usize = 0;
    assert(l.take(0) =~= Seq::<Lexeme>::empty());
    assert(lexemes(cur@) =~= Seq::<Lexeme>::empty());
    assert(token_rows(done@) =~= Seq::<Seq<Lexeme>>::empty());
    assert(token_rows(done@).push(lexemes(cur@)) =~= seq![Seq::<Lexeme>::empty()]);
    while i < t.len()
        invariant
            i <= t@.len(),
            l == lexemes(t@),
            split_semis(l.take(i as int)) == token_rows(done@).push(lexemes(cur@)),
        decreases t@.len() - i,
    {
        assert(l.take(i + 1).drop_last() =~= l.take(i as int));
        if t[i].is_punct(';') {
            let ghost before = token_rows(done@);
            let finished = cur;
            cur = Vec::new();
            done.push(finished);
            assert(token_rows(done@) =~= before.push(lexemes(finished@)));
            assert(lexemes(cur@) =~= Seq::<Lexeme>::empty());
            assert(token_rows(done@).push(lexemes(cur@)) =~= split_semis(l.take(i + 1)));
        } else {
            let ghost before = token_rows(done@).push(lexemes(cur@));
            cur.push(t[i].duplicate());
            assert(lexemes(cur@) =~= before.last().push(l[i as int]));
            assert(token_rows(done@).push(lexemes(cur@)) =~= split_semis(l.take(i + 1)));
        }
        i = i + 1;
    }
    assert(l.take(i as int) =~= l);
    if cur.len() == 0 {
        assert(token_rows(done@) =~= segments(l));
        done
    } else {
        done.push(cur);
        done
    }
}

/// Resolves the tokens of one clause.
pub fn resolve_segment(t: &Vec<Token>) -> (r: Result<Clause, ErrorKind>)
    ensures
        match r {
            Ok(c) => clause_spec(lexemes(t@)) == Ok::<ClauseView, ErrorKind>(c@),
            Err(k) => clause_spec(lexemes(t@)) == Err::<ClauseView, ErrorKind>(k),
        },
{
    if t.len() > 0 && t[0].is_punct('.') {
        if t.len() < 2 {
            return Err(ErrorKind::StructuralError);
        }
        let mut expr: Vec<Token> = Vec::new();
        let mut i: usize = 1;
        while i < t.len()
            invariant
                1 <= i <= t@.len(),
                lexemes(expr@) == lexemes(t@).subrange(1, i as int),
            decreases t@.len() - i,
        {
            let ghost before = expr@;
            expr.push(t[i].duplicate());
            assert(expr@ == before.push(expr@.last()));
            assert(lexemes(expr@) =~= lexemes(before).push(t@[i as int]@));
            assert(lexemes(expr@) =~= lexemes(t@).subrange(1, i + 1));
            i = i + 1;
        }
        assert(lexemes(expr@) =~= lexemes(t@).drop_first());
        Ok(Clause::Directive(expr))
    } else {
        match resolve_clause(t) {
            Ok(s) => Ok(Clause::Option(s)),
            Err(k) => Err(k),
        }
    }
}

/// Resolves every clause of `t`, or reports the first one that does not resolve.
pub fn compile(t: &Vec<Token>) -> (r: Result<Vec<Clause>, CompileError>)
    ensures
        match r {
            Ok(cs) => {
                &&& all_resolve(segments(lexemes(t@)))
                &&& clause_views(cs@) == resolved(segments(lexemes(t@)))
                &&& cs@.len() == segments(lexemes(t@)).len()
                &&& forall|i: int|
                    0 <= i < cs@.len() ==> clause_spec(#[trigger] segments(lexemes(t@))[i])
                        == Ok::<ClauseView, ErrorKind>(cs@[i]@)
            },
            Err(e) => {
                &&& e.clause < segments(lexemes(t@)).len()
                &&& clause_spec(segments(lexemes(t@))[e.clause as int]) == Err::<
                    ClauseView,
                    ErrorKind,
                >(e.kind)
                &&& forall|j: int|
                    0 <= j < e.clause ==> clause_spec(#[trigger] segments(lexemes(t@))[j]) is Ok
            },
        },
{
    let segs = split_clauses(t);
    let ghost s = segments(lexemes(t@));
    let mut out: Vec<Clause> = Vec::new();
    let mut i: usize = 0;
    while i < segs.len()
        invariant
            i <= segs@.len(),
            s == segments(lexemes(t@)),
            token_rows(segs@) == s,
            out@.len() == i,
            forall|j: int| 0 <= j < i ==> clause_spec(#[trigger] s[j]) == Ok::<ClauseView, ErrorKind>(out@[j]@),
        decreases segs@.len() - i,
    {
        assert(s[i as int] == lexemes(segs@[i as int]@));
        match resolve_segment(&segs[i]) {
            Ok(c) => {
                out.push(c);
            },
            Err(kind) => {
                return Err(CompileError { kind, clause: i });
            },
        }
        i = i + 1;
    }
    assert forall|j: int| 0 <= j < s.len() implies (#[trigger] clause_spec(s[j])) is Ok by {
        assert(clause_spec(s[j]) == Ok::<ClauseView, ErrorKind>(out@[j]@));
    }
    assert(clause_views(out@) =~= resolved(s));
    Ok(out)
}

} // verus!
