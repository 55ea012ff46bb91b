use vstd::prelude::*;
use getopts::Options;
use crate::token::Lexeme;
use crate::resolve::{
    ErrorKind, Occurrence, ValueView, NameView, OptionSpecView, resolve_spec, long_text,
    long_end, long_continues,
};
use crate::clause::{ClauseView, clause_spec, segments};
use crate::registry::model_of;
use crate::emit::{BuildError, build_outcome, primitive_of, is_extension};

verus! {

/// Building from the same tokens twice gives the same outcome: the same
/// registrations in the same order, or the same error at the same clause.
pub proof fn law_build_is_deterministic(
    l: Seq<Lexeme>,
    r1: Result<Options, BuildError>,
    r2: Result<Options, BuildError>,
)
    requires
        build_outcome(l, r1),
        build_outcome(l, r2),
    ensures
        r1 is Ok <==> r2 is Ok,
        r1 is Ok ==> model_of(r1->Ok_0) == model_of(r2->Ok_0),
        r1 is Err ==> r1->Err_0 == r2->Err_0,
{
    let s = segments(l);
    if let (Err(BuildError::Compile(a)), Err(BuildError::Compile(b))) = (r1, r2) {
        if a.clause < b.clause {
            assert(clause_spec(s[a.clause as int]) is Ok);
        } else if b.clause < a.clause {
            assert(clause_spec(s[b.clause as int]) is Ok);
        }
    }
}

/// The tokens of a long name made of the words `ws`: `w0 - w1 - ...`.
pub open spec fn long_tokens(ws: Seq<Seq<char>>) -> Seq<Lexeme>
    decreases ws.len(),
{
    if ws.len() <= 1 {
        seq![Lexeme::Ident(ws[0])]
    } else {
        seq![Lexeme::Ident(ws[0]), Lexeme::Punct('-')] + long_tokens(ws.drop_first())
    }
}

/// The words `ws` joined with `-`.
pub open spec fn join_dash(ws: Seq<Seq<char>>) -> Seq<char>
    decreases ws.len(),
{
    if ws.len() <= 1 {
        ws[0]
    } else {
        ws[0] + seq!['-'] + join_dash(ws.drop_first())
    }
}

proof fn lemma_long_name(p: Seq<Lexeme>, ws: Seq<Seq<char>>)
    requires
        ws.len() >= 1,
    ensures
        long_text(p + long_tokens(ws), p.len() as int) == join_dash(ws),
        long_end(p + long_tokens(ws), p.len() as int) == (p + long_tokens(ws)).len(),
    decreases ws.len(),
{
    let b = p + long_tokens(ws);
    let i = p.len() as int;
    if ws.len() <= 1 {
        assert(!long_continues(b, i));
    } else {
        let q = p + seq![Lexeme::Ident(ws[0]), Lexeme::Punct('-')];
        assert(b =~= q + long_tokens(ws.drop_first()));
        lemma_long_name(q, ws.drop_first());
        let rest = long_tokens(ws.drop_first());
        assert(rest.len() >= 1 && rest[0] == Lexeme::Ident(ws.drop_first()[0])) by {
            if ws.drop_first().len() <= 1 {
            } else {
            }
        }
        assert(b[i + 2] == rest[0]);
        assert(long_continues(b, i));
    }
}

/// A long name written as words joined by `-` resolves to exactly those words
/// joined by `-`, alone or after a short name.
pub proof fn law_long_name_round_trip(ws: Seq<Seq<char>>, short: char, d: Seq<char>)
    requires
        ws.len() >= 1,
    ensures
        resolve_spec(
            seq![Lexeme::Punct('-'), Lexeme::Punct('-')] + long_tokens(ws) + seq![Lexeme::Text(d)],
        ) == Ok::<OptionSpecView, ErrorKind>(
            OptionSpecView {
                name: NameView::LongOnly(join_dash(ws)),
                occurrence: Occurrence::Single,
                value: ValueView::Flag,
                description: d,
            },
        ),
        resolve_spec(
            seq![
                Lexeme::Punct('-'),
                Lexeme::Ident(seq![short]),
                Lexeme::Punct('-'),
                Lexeme::Punct('-'),
            ] + long_tokens(ws) + seq![Lexeme::Text(d)],
        ) == Ok::<OptionSpecView, ErrorKind>(
            OptionSpecView {
                name: NameView::ShortAndLong(seq![short], join_dash(ws)),
                occurrence: Occurrence::Single,
                value: ValueView::Flag,
                description: d,
            },
        ),
{
    let first = long_tokens(ws);
    assert(first.len() >= 1 && first[0] == Lexeme::Ident(ws[0])) by {
        if ws.len() <= 1 {
        } else {
        }
    }
    let p1 = seq![Lexeme::Punct('-'), Lexeme::Punct('-')];
    let t1 = p1 + first + seq![Lexeme::Text(d)];
    assert(t1.drop_last() =~= p1 + first);
    lemma_long_name(p1, ws);
    let b1 = p1 + first;
    assert(b1.subrange(b1.len() as int, b1.len() as int) =~= Seq::<Lexeme>::empty());
    let p2 = seq![
        Lexeme::Punct('-'),
        Lexeme::Ident(seq![short]),
        Lexeme::Punct('-'),
        Lexeme::Punct('-'),
    ];
    let t2 = p2 + first + seq![Lexeme::Text(d)];
    assert(t2.drop_last() =~= p2 + first);
    lemma_long_name(p2, ws);
    let b2 = p2 + first;
    assert(b2[2] != Lexeme::Punct(','));
    assert(b2.subrange(b2.len() as int, b2.len() as int) =~= Seq::<Lexeme>::empty());
}

/// The modifier tokens that denote an occurrence and a value kind.
pub open spec fn modifier_tokens(occ: Occurrence, v: ValueView) -> Seq<Lexeme> {
    let o = match occ {
        Occurrence::Single => Seq::empty(),
        Occurrence::Multi => seq![Lexeme::Punct('*')],
        Occurrence::RequiredOne => seq![Lexeme::Punct('+')],
    };
    let w = match v {
        ValueView::Flag => Seq::empty(),
        ValueView::RequiredValue(h) => seq![Lexeme::Punct('='), Lexeme::Ident(h)],
        ValueView::OptionalValue(h) => seq![
            Lexeme::Punct('?'),
            Lexeme::Punct('='),
            Lexeme::Ident(h),
        ],
    };
    o + w
}

/// Every pair of an occurrence and a value kind is the meaning of some clause.
pub proof fn law_every_pair_has_a_clause(occ: Occurrence, v: ValueView, short: char, d: Seq<char>)
    ensures
        resolve_spec(
            seq![Lexeme::Punct('-'), Lexeme::Ident(seq![short])] + modifier_tokens(occ, v) + seq![
                Lexeme::Text(d),
            ],
        ) == Ok::<OptionSpecView, ErrorKind>(
            OptionSpecView {
                name: NameView::ShortOnly(seq![short]),
                occurrence: occ,
                value: v,
                description: d,
            },
        ),
{
    let p = seq![Lexeme::Punct('-'), Lexeme::Ident(seq![short])];
    let m = modifier_tokens(occ, v);
    let t = p + m + seq![Lexeme::Text(d)];
    let b = t.drop_last();
    assert(b =~= p + m);
    assert(b.subrange(2, b.len() as int) =~= m);
    if occ != Occurrence::Single {
        assert(m.drop_first() =~= modifier_tokens(Occurrence::Single, v));
    }
}

/// Of the nine pairs, exactly those with an optional value that repeat or are
/// required once go through the extension; each pair has its own operation.
pub proof fn law_extension_routing(o1: Occurrence, v1: ValueView, o2: Occurrence, v2: ValueView)
    ensures
        is_extension(primitive_of(o1, v1)) <==> (v1 is OptionalValue && o1 != Occurrence::Single),
        primitive_of(o1, v1) == primitive_of(o2, v2) <==> (o1 == o2 && (v1 is Flag && v2 is Flag
            || v1 is RequiredValue && v2 is RequiredValue || v1 is OptionalValue
            && v2 is OptionalValue)),
{
}

/// A clause that holds only a description is a structural error.
pub proof fn law_description_alone(d: Seq<char>)
    ensures
        clause_spec(seq![Lexeme::Text(d)]) == Err::<ClauseView, ErrorKind>(
            ErrorKind::StructuralError,
        ),
{
}

/// After a short name, a punctuation token that starts no modifier (such as `%`)
/// is a malformed modifier.
pub proof fn law_unknown_modifier(short: char, x: char, d: Seq<char>)
    requires
        x != '*',
        x != '+',
        x != ',',
    ensures
        clause_spec(
            seq![
                Lexeme::Punct('-'),
                Lexeme::Ident(seq![short]),
                Lexeme::Punct(x),
                Lexeme::Text(d),
            ],
        ) == Err::<ClauseView, ErrorKind>(ErrorKind::MalformedModifier),
{
    let t = seq![
        Lexeme::Punct('-'),
        Lexeme::Ident(seq![short]),
        Lexeme::Punct(x),
        Lexeme::Text(d),
    ];
    assert(t.drop_last().subrange(2, 3) =~= seq![Lexeme::Punct(x)]);
}

/// A directive carries the tokens after `.` exactly as they stand.
pub proof fn law_directive_passthrough(e: Seq<Lexeme>)
    requires
        e.len() >= 1,
    ensures
        clause_spec(seq![Lexeme::Punct('.')] + e) == Ok::<ClauseView, ErrorKind>(
            ClauseView::Directive(e),
        ),
{
    assert((seq![Lexeme::Punct('.')] + e).drop_first() =~= e);
}

} // verus!
