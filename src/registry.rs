use vstd::prelude::*;
use getopts::Options;
use crate::resolve::{Occurrence, NameView, ValueView, OptionSpecView};

verus! {

#[verifier::external_type_specification]
#[verifier::external_body]
pub struct ExOptions(getopts::Options);

/// Whether an option takes a value: `getopts::HasArg`, as plain data.
#[derive(Clone, Copy, Debug, PartialEq, Eq, Structural)]
pub enum ArgPresence {
    No,
    Yes,
    Maybe,
}

/// One option group as a `getopts::Options` records it. `occur` stands for
/// getopts' `Occur`: `Single` for `Optional`, `Multi` for `Multi`,
/// `RequiredOne` for `Req`.
pub struct Registration {
    pub short: Seq<char>,
    pub long: Seq<char>,
    pub desc: Seq<char>,
    pub hint: Seq<char>,
    pub arg: ArgPresence,
    pub occur: Occurrence,
}

/// Everything about a `getopts::Options` that registration changes.
pub struct RegistryModel {
    pub groups: Seq<Registration>,
    pub stop_at_first_free: bool,
    pub long_only: bool,
}

/// The option groups of `o`, in the order they were added.
pub uninterp spec fn option_groups(o: Options) -> Seq<Registration>;

/// Whether `o` parses with `ParsingStyle::StopAtFirstFree`.
pub uninterp spec fn stops_at_first_free(o: Options) -> bool;

/// Whether `o` is in long-options-only mode.
pub uninterp spec fn long_only_mode(o: Options) -> bool;

/// The registry state of `o`.
pub open spec fn model_of(o: Options) -> RegistryModel {
    RegistryModel {
        groups: option_groups(o),
        stop_at_first_free: stops_at_first_free(o),
        long_only: long_only_mode(o),
    }
}

/// Names that getopts accepts (it asserts that a short name is at most one
/// byte long and that a long name is not exactly one byte long): a short name
/// that is empty or one ASCII character, and a long name that is not one
/// character long.
pub open spec fn valid_names(short: Seq<char>, long: Seq<char>) -> bool {
    (short.len() == 0 || (short.len() == 1 && (short[0] as u32) < 128)) && long.len() != 1
}

/// `m` with one more group at the end.
pub open spec fn with_group(m: RegistryModel, g: Registration) -> RegistryModel {
    RegistryModel { groups: m.groups.push(g), ..m }
}

/// The group with these fields.
pub open spec fn group(
    short: Seq<char>,
    long: Seq<char>,
    desc: Seq<char>,
    hint: Seq<char>,
    arg: ArgPresence,
    occur: Occurrence,
) -> Registration {
    Registration { short, long, desc, hint, arg, occur }
}

/// Relies on `Options::new`: no groups, floating frees, not long-only.
#[verifier::external_body]
pub(crate) fn new_options() -> (r: Options)
    ensures
        option_groups(r) == Seq::<Registration>::empty(),
        !stops_at_first_free(r),
        !long_only_mode(r),
{
    Options::new()
}

/// Relies on `Options::optflag`: adds a group with no value that may occur once.
#[verifier::external_body]
pub(crate) fn add_optflag(o: &mut Options, short: &str, long: &str, desc: &str)
    requires
        valid_names(short@, long@),
    ensures
        option_groups(*final(o)) == option_groups(*old(o)).push(
            group(short@, long@, desc@, Seq::empty(), ArgPresence::No, Occurrence::Single),
        ),
        stops_at_first_free(*final(o)) == stops_at_first_free(*old(o)),
        long_only_mode(*final(o)) == long_only_mode(*old(o)),
{
    o.optflag(short, long, desc);
}

/// Relies on `Options::optflagmulti`: adds a group with no value that may repeat.
#[verifier::external_body]
pub(crate) fn add_optflagmulti(o: &mut Options, short: &str, long: &str, desc: &str)
    requires
        valid_names(short@, long@),
    ensures
        option_groups(*final(o)) == option_groups(*old(o)).push(
            group(short@, long@, desc@, Seq::empty(), ArgPresence::No, Occurrence::Multi),
        ),
        stops_at_first_free(*final(o)) == stops_at_first_free(*old(o)),
        long_only_mode(*final(o)) == long_only_mode(*old(o)),
{
    o.optflagmulti(short, long, desc);
}

/// Relies on `Options::optopt`: adds a group with a value that may occur once.
#[verifier::external_body]
pub(crate) fn add_optopt(o: &mut Options, short: &str, long: &str, desc: &str, hint: &str)
    requires
        valid_names(short@, long@),
    ensures
        option_groups(*final(o)) == option_groups(*old(o)).push(
            group(short@, long@, desc@, hint@, ArgPresence::Yes, Occurrence::Single),
        ),
        stops_at_first_free(*final(o)) == stops_at_first_free(*old(o)),
        long_only_mode(*final(o)) == long_only_mode(*old(o)),
{
    o.optopt(short, long, desc, hint);
}

/// Relies on `Options::optmulti`: adds a group with a value that may repeat.
#[verifier::external_body]
pub(crate) fn add_optmulti(o: &mut Options, short: &str, long: &str, desc: &str, hint: &str)
    requires
        valid_names(short@, long@),
    ensures
        option_groups(*final(o)) == option_groups(*old(o)).push(
            group(short@, long@, desc@, hint@, ArgPresence::Yes, Occurrence::Multi),
        ),
        stops_at_first_free(*final(o)) == stops_at_first_free(*old(o)),
        long_only_mode(*final(o)) == long_only_mode(*old(o)),
{
    o.optmulti(short, long, desc, hint);
}

/// Relies on `Options::reqopt`: adds a group with a value that must occur once.
#[verifier::external_body]
pub(crate) fn add_reqopt(o: &mut Options, short: &str, long: &str, desc: &str, hint: &str)
    requires
        valid_names(short@, long@),
    ensures
        option_groups(*final(o)) == option_groups(*old(o)).push(
            group(short@, long@, desc@, hint@, ArgPresence::Yes, Occurrence::RequiredOne),
        ),
        stops_at_first_free(*final(o)) == stops_at_first_free(*old(o)),
        long_only_mode(*final(o)) == long_only_mode(*old(o)),
{
    o.reqopt(short, long, desc, hint);
}

/// Relies on `Options::optflagopt`: adds a group with an optional value that may occur once.
#[verifier::external_body]
pub(crate) fn add_optflagopt(o: &mut Options, short: &str, long: &str, desc: &str, hint: &str)
    requires
        valid_names(short@, long@),
    ensures
        option_groups(*final(o)) == option_groups(*old(o)).push(
            group(short@, long@, desc@, hint@, ArgPresence::Maybe, Occurrence::Single),
        ),
        stops_at_first_free(*final(o)) == stops_at_first_free(*old(o)),
        long_only_mode(*final(o)) == long_only_mode(*old(o)),
{
    o.optflagopt(short, long, desc, hint);
}

/// Relies on `Options::opt`: adds a group with every parameter given explicitly.
#[verifier::external_body]
pub(crate) fn add_opt(
    o: &mut Options,
    short: &str,
    long: &str,
    desc: &str,
    hint: &str,
    arg: ArgPresence,
    occur: Occurrence,
)
    requires
        valid_names(short@, long@),
    ensures
        option_groups(*final(o)) == option_groups(*old(o)).push(
            group(short@, long@, desc@, hint@, arg, occur),
        ),
        stops_at_first_free(*final(o)) == stops_at_first_free(*old(o)),
        long_only_mode(*final(o)) == long_only_mode(*old(o)),
{
    let hasarg = match arg {
        ArgPresence::No => getopts::HasArg::No,
        ArgPresence::Yes => getopts::HasArg::Yes,
        ArgPresence::Maybe => getopts::HasArg::Maybe,
    };
    let occur = match occur {
        Occurrence::Single => getopts::Occur::Optional,
        Occurrence::Multi => getopts::Occur::Multi,
        Occurrence::RequiredOne => getopts::Occur::Req,
    };
    o.opt(short, long, desc, hint, hasarg, occur);
}

/// Relies on `Options::parsing_style`: sets the parsing style and nothing else.
#[verifier::external_body]
pub(crate) fn set_parsing_style(o: &mut Options, stop_at_first_free: bool)
    ensures
        option_groups(*final(o)) == option_groups(*old(o)),
        stops_at_first_free(*final(o)) == stop_at_first_free,
        long_only_mode(*final(o)) == long_only_mode(*old(o)),
{
    if stop_at_first_free {
        o.parsing_style(getopts::ParsingStyle::StopAtFirstFree);
    } else {
        o.parsing_style(getopts::ParsingStyle::FloatingFrees);
    }
}

/// Relies on `Options::long_only`: sets long-options-only mode and nothing else.
#[verifier::external_body]
pub(crate) fn set_long_only(o: &mut Options, long_only: bool)
    ensures
        option_groups(*final(o)) == option_groups(*old(o)),
        stops_at_first_free(*final(o)) == stops_at_first_free(*old(o)),
        long_only_mode(*final(o)) == long_only,
{
    o.long_only(long_only);
}

/// Registrations that getopts offers no shortcut for: a flag whose
/// occurrences may carry a value, repeatable or required once.
pub trait GetOptsExt: Sized {
    /// What the registry holds.
    spec fn model(&self) -> RegistryModel;

    /// Adds an option that must occur exactly once and may carry a value.
    fn optflagreqopt(&mut self, short_name: &str, long_name: &str, desc: &str, hint: &str) -> (r:
        &mut Self)
        requires
            valid_names(short_name@, long_name@),
        ensures
            r.model() == with_group(
                old(self).model(),
                group(
                    short_name@,
                    long_name@,
                    desc@,
                    hint@,
                    ArgPresence::Maybe,
                    Occurrence::RequiredOne,
                ),
            ),
            *final(self) == *final(r),
    ;

    /// Adds an option that may occur any number of times, each time perhaps with a value.
    fn optflagmultiopt(&mut self, short_name: &str, long_name: &str, desc: &str, hint: &str) -> (r:
        &mut Self)
        requires
            valid_names(short_name@, long_name@),
        ensures
            r.model() == with_group(
                old(self).model(),
                group(short_name@, long_name@, desc@, hint@, ArgPresence::Maybe, Occurrence::Multi),
            ),
            *final(self) == *final(r),
    ;
}

impl GetOptsExt for Options {
    open spec fn model(&self) -> RegistryModel {
        model_of(*self)
    }

    fn optflagreqopt(&mut self, short_name: &str, long_name: &str, desc: &str, hint: &str) -> (r:
        &mut Self) {
        add_opt(self, short_name, long_name, desc, hint, ArgPresence::Maybe, Occurrence::RequiredOne);
        self
    }

    fn optflagmultiopt(&mut self, short_name: &str, long_name: &str, desc: &str, hint: &str) -> (r:
        &mut Self) {
        add_opt(self, short_name, long_name, desc, hint, ArgPresence::Maybe, Occurrence::Multi);
        self
    }
}

} // verus!
