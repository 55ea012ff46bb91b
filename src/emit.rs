use vstd::prelude::*;
use vstd::string::StrSliceExecFns;
use getopts::Options;
use crate::token::{Token, Lexeme, lexemes, lex_from, tokenize};
use crate::resolve::{ErrorKind, Occurrence, ValueKind, ValueView, OptionName, NameView, OptionSpec, OptionSpecView};
use crate::clause::{
    Clause, ClauseView, CompileError, clause_views, clause_spec, segments, all_resolve, resolved,
    compile,
};
use crate::registry::{
    ArgPresence, Registration, RegistryModel, GetOptsExt, model_of, valid_names, with_group,
    group, new_options, add_optflag, add_optflagmulti, add_optopt, add_optmulti, add_reqopt, add_optflagopt,
    add_opt, set_parsing_style, set_long_only,
};

verus! {

/// The registry operation that an (occurrence, value) pair is routed to.
#[derive(Clone, Copy, Debug, PartialEq, Eq, Structural)]
pub enum Primitive {
    Flag,
    FlagRepeatable,
    FlagRequiredOnce,
    Value,
    ValueRepeatable,
    ValueRequiredOnce,
    FlagWithOptionalValue,
    FlagWithOptionalValueRepeatable,
    FlagWithOptionalValueRequiredOnce,
}

/// The operation that registers an option of this occurrence and value kind.
pub open spec fn primitive_of(occ: Occurrence, v: ValueView) -> Primitive {
    match (occ, v) {
        (Occurrence::Single, ValueView::Flag) => Primitive::Flag,
        (Occurrence::Multi, ValueView::Flag) => Primitive::FlagRepeatable,
        (Occurrence::RequiredOne, ValueView::Flag) => Primitive::FlagRequiredOnce,
        (Occurrence::Single, ValueView::RequiredValue(_)) => Primitive::Value,
        (Occurrence::Multi, ValueView::RequiredValue(_)) => Primitive::ValueRepeatable,
        (Occurrence::RequiredOne, ValueView::RequiredValue(_)) => Primitive::ValueRequiredOnce,
        (Occurrence::Single, ValueView::OptionalValue(_)) => Primitive::FlagWithOptionalValue,
        (Occurrence::Multi, ValueView::OptionalValue(_)) => Primitive::FlagWithOptionalValueRepeatable,
        (Occurrence::RequiredOne, ValueView::OptionalValue(_)) => Primitive::FlagWithOptionalValueRequiredOnce,
    }
}

/// Whether `p` goes through [`GetOptsExt`] rather than a method of getopts.
pub open spec fn is_extension(p: Primitive) -> bool {
    p == Primitive::FlagWithOptionalValueRepeatable || p == Primitive::FlagWithOptionalValueRequiredOnce
}

/// The short name, or empty where there is none.
pub open spec fn short_of(n: NameView) -> Seq<char> {
    match n {
        NameView::ShortOnly(s) => s,
        NameView::LongOnly(_) => Seq::empty(),
        NameView::ShortAndLong(s, _) => s,
    }
}

/// The long name, or empty where there is none.
pub open spec fn long_of(n: NameView) -> Seq<char> {
    match n {
        NameView::ShortOnly(_) => Seq::empty(),
        NameView::LongOnly(l) => l,
        NameView::ShortAndLong(_, l) => l,
    }
}

/// The value hint, or empty for a flag.
pub open spec fn hint_of(v: ValueView) -> Seq<char> {
    match v {
        ValueView::Flag => Seq::empty(),
        ValueView::RequiredValue(h) => h,
        ValueView::OptionalValue(h) => h,
    }
}

/// Whether the value is absent, required or optional.
pub open spec fn arg_of(v: ValueView) -> ArgPresence {
    match v {
        ValueView::Flag => ArgPresence::No,
        ValueView::RequiredValue(_) => ArgPresence::Yes,
        ValueView::OptionalValue(_) => ArgPresence::Maybe,
    }
}

/// The option group that a resolved option adds.
pub open spec fn registration_of(s: OptionSpecView) -> Registration {
    group(short_of(s.name), long_of(s.name), s.description, hint_of(s.value), arg_of(s.value), s.occurrence)
}

/// What a directive asks of the registry.
#[derive(Clone, Copy, Debug, PartialEq, Eq, Structural)]
pub enum DirectiveEffect {
    /// `parsing_style(ParsingStyle::StopAtFirstFree)` (true) or `...::FloatingFrees` (false),
    /// the path optionally starting with `getopts::`.
    StopAtFirstFree(bool),
    /// `long_only(true)` or `long_only(false)`.
    LongOnly(bool),
}

/// The parsing style that a word names: true for `StopAtFirstFree`.
pub open spec fn style_word(x: Lexeme) -> Option<bool> {
    if x == Lexeme::Ident("StopAtFirstFree"@) {
        Some(true)
    } else if x == Lexeme::Ident("FloatingFrees"@) {
        Some(false)
    } else {
        None
    }
}

/// Whether `p` holds `::` at `i`.
pub open spec fn path_sep(p: Seq<Lexeme>, i: int) -> bool {
    p[i] == Lexeme::Punct(':') && p[i + 1] == Lexeme::Punct(':')
}

/// The parsing style that the path `p` names.
pub open spec fn style_path(p: Seq<Lexeme>) -> Option<bool> {
    if p.len() == 4 && p[0] == Lexeme::Ident("ParsingStyle"@) && path_sep(p, 1) {
        style_word(p[3])
    } else if p.len() == 7 && p[0] == Lexeme::Ident("getopts"@) && path_sep(p, 1) && p[3]
        == Lexeme::Ident("ParsingStyle"@) && path_sep(p, 4) {
        style_word(p[6])
    } else {
        None
    }
}

/// What the directive expression `e` sets, if it is one that getopts offers.
pub open spec fn directive_effect(e: Seq<Lexeme>) -> Option<DirectiveEffect> {
    let n = e.len();
    if n >= 3 && e[1] == Lexeme::Punct('(') && e[n - 1] == Lexeme::Punct(')') {
        let arg = e.subrange(2, n - 1);
        if e[0] == Lexeme::Ident("parsing_style"@) && style_path(arg) is Some {
            Some(DirectiveEffect::StopAtFirstFree(style_path(arg)->Some_0))
        } else if e[0] == Lexeme::Ident("long_only"@) && n == 4 && (e[2] == Lexeme::Ident("true"@)
            || e[2] == Lexeme::Ident("false"@)) {
            Some(DirectiveEffect::LongOnly(e[2] == Lexeme::Ident("true"@)))
        } else {
            None
        }
    } else {
        None
    }
}

/// The registry after one clause, or `None` where the registry refuses it.
pub open spec fn step(m: RegistryModel, c: ClauseView) -> Option<RegistryModel> {
    match c {
        ClauseView::Directive(e) => match directive_effect(e) {
            Some(DirectiveEffect::StopAtFirstFree(b)) => Some(
                RegistryModel { stop_at_first_free: b, ..m },
            ),
            Some(DirectiveEffect::LongOnly(b)) => Some(RegistryModel { long_only: b, ..m }),
            None => None,
        },
        ClauseView::Option(s) => if valid_names(short_of(s.name), long_of(s.name)) {
            Some(with_group(m, registration_of(s)))
        } else {
            None
        },
    }
}

/// The registry after the clauses `cs` were applied in order from `m`, with the
/// position of the first clause refused, where one was; nothing after it is applied.
pub open spec fn emit_spec(m: RegistryModel, cs: Seq<ClauseView>) -> (RegistryModel, Option<int>)
    decreases cs.len(),
{
    if cs.len() == 0 {
        (m, None)
    } else {
        let (m1, f) = emit_spec(m, cs.drop_last());
        if f is Some {
            (m1, f)
        } else {
            match step(m1, cs.last()) {
                Some(m2) => (m2, None),
                None => (m1, Some(cs.len() - 1)),
            }
        }
    }
}

proof fn lemma_refusal_stays(m: RegistryModel, cs: Seq<ClauseView>, k: int)
    requires
        0 <= k <= cs.len(),
        emit_spec(m, cs.take(k)).1 is Some,
    ensures
        emit_spec(m, cs) == emit_spec(m, cs.take(k)),
    decreases cs.len() - k,
{
    if k < cs.len() {
        assert(cs.take(k + 1).drop_last() =~= cs.take(k));
        lemma_refusal_stays(m, cs, k + 1);
    } else {
        assert(cs.take(k) =~= cs);
    }
}

/// A registry primitive refused the clause at this position.
#[derive(Clone, Copy, Debug, PartialEq, Eq, Structural)]
pub struct RegistryRejection {
    pub clause: usize,
}

/// The registry operation for an (occurrence, value) pair.
pub fn primitive_for(occ: Occurrence, v: &ValueKind) -> (r: Primitive)
    ensures
        r == primitive_of(occ, v@),
{
    match (occ, v) {
        (Occurrence::Single, ValueKind::Flag) => Primitive::Flag,
        (Occurrence::Multi, ValueKind::Flag) => Primitive::FlagRepeatable,
        (Occurrence::RequiredOne, ValueKind::Flag) => Primitive::FlagRequiredOnce,
        (Occurrence::Single, ValueKind::RequiredValue(_)) => Primitive::Value,
        (Occurrence::Multi, ValueKind::RequiredValue(_)) => Primitive::ValueRepeatable,
        (Occurrence::RequiredOne, ValueKind::RequiredValue(_)) => Primitive::ValueRequiredOnce,
        (Occurrence::Single, ValueKind::OptionalValue(_)) => Primitive::FlagWithOptionalValue,
        (Occurrence::Multi, ValueKind::OptionalValue(_)) => Primitive::FlagWithOptionalValueRepeatable,
        (Occurrence::RequiredOne, ValueKind::OptionalValue(_)) => Primitive::FlagWithOptionalValueRequiredOnce,
    }
}

/// Registers one resolved option; false, with `o` unchanged, where getopts would refuse its names.
pub fn register_option(o: &mut Options, s: &OptionSpec) -> (r: bool)
    ensures
        r == valid_names(short_of(s@.name), long_of(s@.name)),
        r ==> model_of(*final(o)) == with_group(model_of(*old(o)), registration_of(s@)),
        !r ==> *final(o) == *old(o),
{
    proof {
        reveal_strlit("");
    }
    let (short, long): (&str, &str) = match &s.name {
        OptionName::ShortOnly(a) => (a.as_str(), ""),
        OptionName::LongOnly(l) => ("", l.as_str()),
        OptionName::ShortAndLong(a, l) => (a.as_str(), l.as_str()),
    };
    assert(short@ =~= short_of(s@.name) && long@ =~= long_of(s@.name));
    let short_len = short.unicode_len();
    let short_ok = short_len == 0 || (short_len == 1 && (short.get_char(0) as u32) < 128);
    if !(short_ok && long.unicode_len() != 1) {
        return false;
    }
    let hint: &str = match &s.value {
        ValueKind::Flag => "",
        ValueKind::RequiredValue(h) => h.as_str(),
        ValueKind::OptionalValue(h) => h.as_str(),
    };
    assert(hint@ =~= hint_of(s@.value));
    let desc = s.description.as_str();
    match primitive_for(s.occurrence, &s.value) {
        Primitive::Flag => add_optflag(o, short, long, desc),
        Primitive::FlagRepeatable => add_optflagmulti(o, short, long, desc),
        Primitive::FlagRequiredOnce => add_opt(
            o,
            short,
            long,
            desc,
            hint,
            ArgPresence::No,
            Occurrence::RequiredOne,
        ),
        Primitive::Value => add_optopt(o, short, long, desc, hint),
        Primitive::ValueRepeatable => add_optmulti(o, short, long, desc, hint),
        Primitive::ValueRequiredOnce => add_reqopt(o, short, long, desc, hint),
        Primitive::FlagWithOptionalValue => add_optflagopt(o, short, long, desc, hint),
        Primitive::FlagWithOptionalValueRepeatable => {
            o.optflagmultiopt(short, long, desc, hint);
        },
        Primitive::FlagWithOptionalValueRequiredOnce => {
            o.optflagreqopt(short, long, desc, hint);
        },
    }
    true
}

/// Whether two strings hold the same characters.
fn same_chars(a: &str, b: &str) -> (r: bool)
    ensures
        r == (a@ == b@),
{
    let n = a.unicode_len();
    if n != b.unicode_len() {
        return false;
    }
    let mut i: usize = 0;
    while i < n
        invariant
            n == a@.len() == b@.len(),
            i <= n,
            a@.take(i as int) == b@.take(i as int),
        decreases n - i,
    {
        if a.get_char(i) != b.get_char(i) {
            return false;
        }
        assert(a@.take(i + 1) =~= a@.take(i as int).push(a@[i as int]));
        assert(b@.take(i + 1) =~= b@.take(i as int).push(b@[i as int]));
        i = i + 1;
    }
    assert(a@ =~= a@.take(n as int));
    assert(b@ =~= b@.take(n as int));
    true
}

/// Whether `t` is the word `w`.
fn word_is(t: &Token, w: &str) -> (r: bool)
    ensures
        r == (t@ == Lexeme::Ident(w@)),
{
    match t {
        Token::Ident(s) => same_chars(s.as_str(), w),
        _ => false,
    }
}

fn style_word_of(t: &Token) -> (r: Option<bool>)
    ensures
        r == style_word(t@),
{
    if word_is(t, "StopAtFirstFree") {
        Some(true)
    } else if word_is(t, "FloatingFrees") {
        Some(false)
    } else {
        None
    }
}

/// The parsing style named by the path `e[lo..hi]`.
fn style_path_of(e: &Vec<Token>, lo: usize, hi: usize) -> (r: Option<bool>)
    requires
        lo <= hi <= e@.len(),
    ensures
        r == style_path(lexemes(e@).subrange(lo as int, hi as int)),
{
    let n = hi - lo;
    if n == 4 && word_is(&e[lo], "ParsingStyle") && e[lo + 1].is_punct(':') && e[lo + 2].is_punct(
        ':',
    ) {
        style_word_of(&e[lo + 3])
    } else if n == 7 && word_is(&e[lo], "getopts") && e[lo + 1].is_punct(':') && e[lo
        + 2].is_punct(':') && word_is(&e[lo + 3], "ParsingStyle") && e[lo + 4].is_punct(':')
        && e[lo + 5].is_punct(':') {
        style_word_of(&e[lo + 6])
    } else {
        None
    }
}

/// What the directive expression `e` sets.
pub fn directive_of(e: &Vec<Token>) -> (r: Option<DirectiveEffect>)
    ensures
        r == directive_effect(lexemes(e@)),
{
    let n = e.len();
    if n >= 3 && e[1].is_punct('(') && e[n - 1].is_punct(')') {
        if word_is(&e[0], "parsing_style") {
            match style_path_of(e, 2, n - 1) {
                Some(b) => {
                    return Some(DirectiveEffect::StopAtFirstFree(b));
                },
                None => {},
            }
        }
        if word_is(&e[0], "long_only") && n == 4 {
            if word_is(&e[2], "true") {
                return Some(DirectiveEffect::LongOnly(true));
            } else if word_is(&e[2], "false") {
                return Some(DirectiveEffect::LongOnly(false));
            }
        }
    }
    None
}

/// Applies one clause; false, with `o` unchanged, where the registry refuses it.
pub fn apply_clause(o: &mut Options, c: &Clause) -> (r: bool)
    ensures
        r == (step(model_of(*old(o)), c@) is Some),
        r ==> model_of(*final(o)) == step(model_of(*old(o)), c@)->Some_0,
        !r ==> *final(o) == *old(o),
{
    match c {
        Clause::Option(s) => register_option(o, s),
        Clause::Directive(e) => match directive_of(e) {
            Some(DirectiveEffect::StopAtFirstFree(b)) => {
                set_parsing_style(o, b);
                true
            },
            Some(DirectiveEffect::LongOnly(b)) => {
                set_long_only(o, b);
                true
            },
            None => false,
        },
    }
}

/// Applies the clauses to `o` in order, stopping at the first one that the registry refuses.
pub fn emit(o: &mut Options, cs: &Vec<Clause>) -> (r: Result<(), RegistryRejection>)
    ensures
        emit_spec(model_of(*old(o)), clause_views(cs@)) == (model_of(*final(o)), match r {
            Ok(_) => None::<int>,
            Err(e) => Some(e.clause as int),
        }),
{
    let ghost m0 = model_of(*o);
    let ghost v = clause_views(cs@);
    let mut i: usize = 0;
    assert(v.take(0) =~= Seq::<ClauseView>::empty());
    while i < cs.len()
        invariant
            i <= cs@.len(),
            v == clause_views(cs@),
            m0 == model_of(*old(o)),
            emit_spec(m0, v.take(i as int)) == (model_of(*o), None::<int>),
        decreases cs@.len() - i,
    {
        assert(v.take(i + 1).drop_last() =~= v.take(i as int));
        assert(v.take(i + 1).last() == cs@[i as int]@);
        if !apply_clause(o, &cs[i]) {
            proof {
                assert(emit_spec(m0, v.take(i + 1)) == (model_of(*o), Some(i as int)));
                lemma_refusal_stays(m0, v, i + 1);
            }
            return Err(RegistryRejection { clause: i });
        }
        i = i + 1;
    }
    assert(v.take(i as int) =~= v);
    Ok(())
}

/// Why a specification did not yield a registry.
#[derive(Clone, Copy, Debug, PartialEq, Eq, Structural)]
pub enum BuildError {
    /// A clause did not resolve; nothing was registered.
    Compile(CompileError),
    /// The registry refused a clause; the clauses before it were registered.
    Registry(RegistryRejection),
    /// A quoted text is not closed.
    UnclosedText,
}

/// A registry as `Options::new` makes it.
pub open spec fn blank_model() -> RegistryModel {
    RegistryModel { groups: Seq::empty(), stop_at_first_free: false, long_only: false }
}

/// What building a registry from the tokens `l` gives: the registry that the
/// resolved clauses make, or the first clause that does not resolve, or the
/// first clause that the registry refuses.
pub open spec fn build_outcome(l: Seq<Lexeme>, r: Result<Options, BuildError>) -> bool {
    match r {
        Ok(o) => all_resolve(segments(l)) && emit_spec(blank_model(), resolved(segments(l))) == (
        model_of(o), None::<int>),
        Err(BuildError::Compile(e)) => {
            &&& !all_resolve(segments(l))
            &&& e.clause < segments(l).len()
            &&& clause_spec(segments(l)[e.clause as int]) == Err::<ClauseView, ErrorKind>(e.kind)
            &&& forall|j: int| 0 <= j < e.clause ==> clause_spec(#[trigger] segments(l)[j]) is Ok
        },
        Err(BuildError::Registry(e)) => all_resolve(segments(l)) && emit_spec(
            blank_model(),
            resolved(segments(l)),
        ).1 == Some(e.clause as int),
        Err(BuildError::UnclosedText) => false,
    }
}

/// Resolves every clause of `t`, then registers them in order on a new `getopts::Options`.
pub fn build_options(t: &Vec<Token>) -> (r: Result<Options, BuildError>)
    ensures
        build_outcome(lexemes(t@), r),
{
    match compile(t) {
        Err(e) => {
            assert(!(clause_spec(segments(lexemes(t@))[e.clause as int]) is Ok));
            Err(BuildError::Compile(e))
        },
        Ok(cs) => {
            let mut o = new_options();
            assert(model_of(o) == blank_model());
            match emit(&mut o, &cs) {
                Ok(()) => Ok(o),
                Err(e) => Err(BuildError::Registry(e)),
            }
        },
    }
}

/// Tokenizes `text`, then builds a registry from its clauses as [`build_options`] does.
pub fn options_from_text(text: &str) -> (r: Result<Options, BuildError>)
    ensures
        match lex_from(text@, 0) {
            None => r is Err && r->Err_0 == BuildError::UnclosedText,
            Some(l) => build_outcome(l, r),
        },
{
    match tokenize(text) {
        None => Err(BuildError::UnclosedText),
        Some(t) => build_options(&t),
    }
}

} // verus!
