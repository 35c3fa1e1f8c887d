//! Typed arguments and the token resolver: a raw string token, bare or
//! labelled, is mapped to exactly one variant of the closed [`Arg`] union,
//! checked against the externally supplied registries of command, function
//! and data-series names or parsed against the frequency, date and
//! display-style formats.

use vstd::prelude::*;

use crate::vocab::{
    date_wf, spec_parse_date, spec_parse_display, spec_parse_frequency, str_eq, Date, DslError,
    RenderContext, TimeFrequency,
};

verus! {

/// One resolved argument of the DSL's closed vocabulary.
#[derive(Debug)]
pub enum Arg {
    Command(String),
    Function(String),
    TimeFrequency(TimeFrequency),
    DataName(String),
    Date(Date),
    RenderContext(RenderContext),
}

/// The mathematical shape of an [`Arg`]: strings are sequences of characters.
#[verifier::ext_equal]
pub enum ArgV {
    Command(Seq<char>),
    Function(Seq<char>),
    TimeFrequency(TimeFrequency),
    DataName(Seq<char>),
    Date(Date),
    RenderContext(RenderContext),
}

impl View for Arg {
    type V = ArgV;

    open spec fn view(&self) -> ArgV {
        match self {
            Arg::Command(s) => ArgV::Command(s@),
            Arg::Function(s) => ArgV::Function(s@),
            Arg::TimeFrequency(f) => ArgV::TimeFrequency(*f),
            Arg::DataName(s) => ArgV::DataName(s@),
            Arg::Date(d) => ArgV::Date(*d),
            Arg::RenderContext(r) => ArgV::RenderContext(*r),
        }
    }
}

impl DeepView for Arg {
    type V = ArgV;

    open spec fn deep_view(&self) -> ArgV {
        self.view()
    }
}

/// A date carried inside an argument must name a real calendar day.
pub open spec fn arg_wf(a: ArgV) -> bool {
    match a {
        ArgV::Date(d) => date_wf(d),
        _ => true,
    }
}

impl Arg {
    /// An exact copy; spelled out so that verified code knows the copy
    /// and the source are equal.
    pub fn duplicate(&self) -> (r: Arg)
        ensures
            r@ == self@,
    {
        match self {
            Arg::Command(s) => Arg::Command(s.clone()),
            Arg::Function(s) => Arg::Function(s.clone()),
            Arg::TimeFrequency(f) => Arg::TimeFrequency(*f),
            Arg::DataName(s) => Arg::DataName(s.clone()),
            Arg::Date(d) => Arg::Date(*d),
            Arg::RenderContext(r) => Arg::RenderContext(*r),
        }
    }
}

/// The closed registries of valid command, function and data-series names,
/// supplied externally, queried read-only by the resolver.
pub struct Registry {
    pub commands: Vec<String>,
    pub functions: Vec<String>,
    pub data_names: Vec<String>,
}

/// The registry as three sets of character sequences.
#[verifier::ext_equal]
pub struct RegistryV {
    pub commands: Seq<Seq<char>>,
    pub functions: Seq<Seq<char>>,
    pub data_names: Seq<Seq<char>>,
}

impl View for Registry {
    type V = RegistryV;

    open spec fn view(&self) -> RegistryV {
        RegistryV {
            commands: self.commands.deep_view(),
            functions: self.functions.deep_view(),
            data_names: self.data_names.deep_view(),
        }
    }
}

impl Registry {
    pub fn new(commands: Vec<String>, functions: Vec<String>, data_names: Vec<String>) -> (r:
        Registry)
        ensures
            r@.commands == commands.deep_view(),
            r@.functions == functions.deep_view(),
            r@.data_names == data_names.deep_view(),
    {
        Registry { commands, functions, data_names }
    }
}

pub open spec fn seq_contains_str(v: Seq<Seq<char>>, s: Seq<char>) -> bool {
    exists|i: int| 0 <= i < v.len() && v[i] == s
}

/// Membership of a token in one registry column.
pub fn contains_str(v: &Vec<String>, s: &str) -> (r: bool)
    ensures
        r == seq_contains_str(v.deep_view(), s@),
{
    let n = v.len();
    for i in 0..n
        invariant
            n == v.len(),
            forall|j: int| 0 <= j < i ==> v.deep_view()[j] != s@,
    {
        if str_eq(v[i].as_str(), s) {
            assert(v.deep_view()[i as int] == s@);
            return true;
        }
    }
    false
}

/// The result of resolving a bare token: each variant constructor is tried
/// in the fixed priority order command, function, frequency, data-series
/// name, date, display style, and the first success wins.
pub open spec fn spec_resolve_bare(reg: RegistryV, s: Seq<char>) -> Result<ArgV, DslError> {
    if seq_contains_str(reg.commands, s) {
        Ok(ArgV::Command(s))
    } else if seq_contains_str(reg.functions, s) {
        Ok(ArgV::Function(s))
    } else if spec_parse_frequency(s) is Some {
        Ok(ArgV::TimeFrequency(spec_parse_frequency(s)->Some_0))
    } else if seq_contains_str(reg.data_names, s) {
        Ok(ArgV::DataName(s))
    } else if spec_parse_date(s) is Some {
        Ok(ArgV::Date(spec_parse_date(s)->Some_0))
    } else if spec_parse_display(s) is Some {
        Ok(ArgV::RenderContext(spec_parse_display(s)->Some_0))
    } else {
        Err(DslError::UnresolvedToken)
    }
}

/// The result of resolving a labelled token: the label picks the variant
/// directly; an unrecognised label and an unparsable value are distinct
/// failures.
pub open spec fn spec_resolve_labelled(reg: RegistryV, label: Seq<char>, s: Seq<char>) -> Result<
    ArgV,
    DslError,
> {
    if label == "command"@ {
        if seq_contains_str(reg.commands, s) {
            Ok(ArgV::Command(s))
        } else {
            Err(DslError::InvalidValue)
        }
    } else if label == "function"@ {
        if seq_contains_str(reg.functions, s) {
            Ok(ArgV::Function(s))
        } else {
            Err(DslError::InvalidValue)
        }
    } else if label == "frequency"@ {
        if spec_parse_frequency(s) is Some {
            Ok(ArgV::TimeFrequency(spec_parse_frequency(s)->Some_0))
        } else {
            Err(DslError::InvalidValue)
        }
    } else if label == "name"@ {
        if seq_contains_str(reg.data_names, s) {
            Ok(ArgV::DataName(s))
        } else {
            Err(DslError::InvalidValue)
        }
    } else if label == "date"@ {
        if spec_parse_date(s) is Some {
            Ok(ArgV::Date(spec_parse_date(s)->Some_0))
        } else {
            Err(DslError::InvalidValue)
        }
    } else if label == "display"@ {
        if spec_parse_display(s) is Some {
            Ok(ArgV::RenderContext(spec_parse_display(s)->Some_0))
        } else {
            Err(DslError::InvalidValue)
        }
    } else {
        Err(DslError::UnknownLabel)
    }
}

/// The view of a resolution result.
pub open spec fn res_arg_view(r: Result<Arg, DslError>) -> Result<ArgV, DslError> {
    match r {
        Ok(a) => Ok(a@),
        Err(e) => Err(e),
    }
}

impl Arg {
    /// Resolves a bare token by trying each variant in the fixed priority
    /// order and returning the first success.
    pub fn from_str(reg: &Registry, s: &str) -> (r: Result<Arg, DslError>)
        ensures
            res_arg_view(r) == spec_resolve_bare(reg@, s@),
    {
        if contains_str(&reg.commands, s) {
            Ok(Arg::Command(s.to_owned()))
        } else if contains_str(&reg.functions, s) {
            Ok(Arg::Function(s.to_owned()))
        } else if let Some(f) = TimeFrequency::from_str(s) {
            Ok(Arg::TimeFrequency(f))
        } else if contains_str(&reg.data_names, s) {
            Ok(Arg::DataName(s.to_owned()))
        } else if let Some(d) = Date::from_str(s) {
            Ok(Arg::Date(d))
        } else if let Some(rc) = RenderContext::from_str(s) {
            Ok(Arg::RenderContext(rc))
        } else {
            Err(DslError::UnresolvedToken)
        }
    }

    /// Resolves a labelled token by dispatching on the label.
    pub fn from_labelled_str(reg: &Registry, name: &str, s: &str) -> (r: Result<Arg, DslError>)
        ensures
            res_arg_view(r) == spec_resolve_labelled(reg@, name@, s@),
    {
        if str_eq(name, "command") {
            if contains_str(&reg.commands, s) {
                Ok(Arg::Command(s.to_owned()))
            } else {
                Err(DslError::InvalidValue)
            }
        } else if str_eq(name, "function") {
            if contains_str(&reg.functions, s) {
                Ok(Arg::Function(s.to_owned()))
            } else {
                Err(DslError::InvalidValue)
            }
        } else if str_eq(name, "frequency") {
            if let Some(f) = TimeFrequency::from_str(s) {
                Ok(Arg::TimeFrequency(f))
            } else {
                Err(DslError::InvalidValue)
            }
        } else if str_eq(name, "name") {
            if contains_str(&reg.data_names, s) {
                Ok(Arg::DataName(s.to_owned()))
            } else {
                Err(DslError::InvalidValue)
            }
        } else if str_eq(name, "date") {
            if let Some(d) = Date::from_str(s) {
                Ok(Arg::Date(d))
            } else {
                Err(DslError::InvalidValue)
            }
        } else if str_eq(name, "display") {
            if let Some(rc) = RenderContext::from_str(s) {
                Ok(Arg::RenderContext(rc))
            } else {
                Err(DslError::InvalidValue)
            }
        } else {
            Err(DslError::UnknownLabel)
        }
    }

    /// Resolves a token with an optional label, the resolver's full contract:
    /// a present label dispatches directly, an absent one searches in
    /// priority order.
    pub fn resolve(reg: &Registry, label: Option<&str>, raw: &str) -> (r: Result<Arg, DslError>)
        ensures
            match label {
                Some(l) => res_arg_view(r) == spec_resolve_labelled(reg@, l@, raw@),
                None => res_arg_view(r) == spec_resolve_bare(reg@, raw@),
            },
    {
        match label {
            Some(l) => Arg::from_labelled_str(reg, l, raw),
            None => Arg::from_str(reg, raw),
        }
    }

    /// The display text of the argument: the token itself for registry
    /// names, the canonical text for frequencies, dates and display styles.
    pub open spec fn spec_text(a: ArgV) -> Seq<char> {
        match a {
            ArgV::Command(s) => s,
            ArgV::Function(s) => s,
            ArgV::TimeFrequency(f) => f.spec_text(),
            ArgV::DataName(s) => s,
            ArgV::Date(d) => d.spec_text(),
            ArgV::RenderContext(r) => r.spec_text(),
        }
    }

    pub fn text(&self) -> (r: String)
        requires
            arg_wf(self@),
        ensures
            r@ == Arg::spec_text(self@),
    {
        match self {
            Arg::Command(s) => s.clone(),
            Arg::Function(s) => s.clone(),
            Arg::TimeFrequency(f) => f.text(),
            Arg::DataName(s) => s.clone(),
            Arg::Date(d) => d.text(),
            Arg::RenderContext(rc) => rc.text(),
        }
    }
}

/// A single argument, an unlabelled ordered collection, or a named ordered
/// collection whose name correlates it with other axes of the same name.
#[derive(Debug)]
pub enum ArgGroup {
    Arg(Arg),
    Collection(Vec<Arg>),
    NamedCollection(String, Vec<Arg>),
}

#[verifier::ext_equal]
pub enum ArgGroupV {
    Arg(ArgV),
    Collection(Seq<ArgV>),
    NamedCollection(Seq<char>, Seq<ArgV>),
}

impl View for ArgGroup {
    type V = ArgGroupV;

    open spec fn view(&self) -> ArgGroupV {
        match self {
            ArgGroup::Arg(a) => ArgGroupV::Arg(a@),
            ArgGroup::Collection(v) => ArgGroupV::Collection(v.deep_view()),
            ArgGroup::NamedCollection(n, v) => ArgGroupV::NamedCollection(n@, v.deep_view()),
        }
    }
}

impl DeepView for ArgGroup {
    type V = ArgGroupV;

    open spec fn deep_view(&self) -> ArgGroupV {
        self.view()
    }
}

/// An argument group as the external front-end hands it over: raw tokens,
/// not yet resolved.
#[derive(Debug)]
pub enum RawArgGroup {
    Arg(String),
    LabelledArg(String, String),
    Collection(Vec<String>),
    NamedCollection(String, Vec<String>),
}

#[verifier::ext_equal]
pub enum RawArgGroupV {
    Arg(Seq<char>),
    LabelledArg(Seq<char>, Seq<char>),
    Collection(Seq<Seq<char>>),
    NamedCollection(Seq<char>, Seq<Seq<char>>),
}

impl View for RawArgGroup {
    type V = RawArgGroupV;

    open spec fn view(&self) -> RawArgGroupV {
        match self {
            RawArgGroup::Arg(s) => RawArgGroupV::Arg(s@),
            RawArgGroup::LabelledArg(l, s) => RawArgGroupV::LabelledArg(l@, s@),
            RawArgGroup::Collection(ss) => RawArgGroupV::Collection(ss.deep_view()),
            RawArgGroup::NamedCollection(n, ss) => RawArgGroupV::NamedCollection(
                n@,
                ss.deep_view(),
            ),
        }
    }
}

impl DeepView for RawArgGroup {
    type V = RawArgGroupV;

    open spec fn deep_view(&self) -> RawArgGroupV {
        self.view()
    }
}

/// Each token of a collection resolved as a bare token, in order; the first
/// failure aborts the collection.
pub open spec fn spec_resolve_tokens(reg: RegistryV, ss: Seq<Seq<char>>) -> Result<
    Seq<ArgV>,
    DslError,
>
    decreases ss.len(),
{
    if ss.len() == 0 {
        Ok(Seq::empty())
    } else {
        match spec_resolve_bare(reg, ss[0]) {
            Ok(a) => match spec_resolve_tokens(reg, ss.subrange(1, ss.len() as int)) {
                Ok(rest) => Ok(seq![a] + rest),
                Err(e) => Err(e),
            },
            Err(e) => Err(e),
        }
    }
}

/// What resolving a whole raw group yields: a single argument for a bare or
/// labelled token, a collection of arguments for a collection of tokens.
pub open spec fn spec_group_from_raw(reg: RegistryV, g: RawArgGroupV) -> Result<
    ArgGroupV,
    DslError,
> {
    match g {
        RawArgGroupV::Arg(s) => match spec_resolve_bare(reg, s) {
            Ok(a) => Ok(ArgGroupV::Arg(a)),
            Err(e) => Err(e),
        },
        RawArgGroupV::LabelledArg(l, s) => match spec_resolve_labelled(reg, l, s) {
            Ok(a) => Ok(ArgGroupV::Arg(a)),
            Err(e) => Err(e),
        },
        RawArgGroupV::Collection(ss) => match spec_resolve_tokens(reg, ss) {
            Ok(args) => Ok(ArgGroupV::Collection(args)),
            Err(e) => Err(e),
        },
        RawArgGroupV::NamedCollection(n, ss) => match spec_resolve_tokens(reg, ss) {
            Ok(args) => Ok(ArgGroupV::NamedCollection(n, args)),
            Err(e) => Err(e),
        },
    }
}

pub open spec fn res_group_view(r: Result<ArgGroup, DslError>) -> Result<ArgGroupV, DslError> {
    match r {
        Ok(g) => Ok(g@),
        Err(e) => Err(e),
    }
}

/// Resolves each token of a collection, in order.
fn resolve_tokens(reg: &Registry, ss: &Vec<String>) -> (r: Result<Vec<Arg>, DslError>)
    ensures
        match r {
            Ok(args) => spec_resolve_tokens(reg@, ss.deep_view()) == Ok::<Seq<ArgV>, DslError>(
                args.deep_view(),
            ),
            Err(e) => spec_resolve_tokens(reg@, ss.deep_view()) == Err::<Seq<ArgV>, DslError>(e),
        },
{
    let ghost toks = ss.deep_view();
    let mut out: Vec<Arg> = Vec::new();
    let n = ss.len();
    proof {
        assert(toks.subrange(0, n as int) =~= toks);
        match spec_resolve_tokens(reg@, toks) {
            Ok(rest) => {
                assert(out.deep_view() + rest =~= rest);
            },
            Err(_) => {},
        }
    }
    for i in 0..n
        invariant
            n == ss.len(),
            toks == ss.deep_view(),
            toks.len() == n,
            out@.len() == i,
            ({
                match spec_resolve_tokens(reg@, toks.subrange(i as int, n as int)) {
                    Ok(rest) => spec_resolve_tokens(reg@, toks) == Ok::<Seq<ArgV>, DslError>(
                        out.deep_view() + rest,
                    ),
                    Err(e) => spec_resolve_tokens(reg@, toks) == Err::<Seq<ArgV>, DslError>(e),
                }
            }),
    {
        let ghost sfx = toks.subrange(i as int, n as int);
        proof {
            assert(ss.deep_view()[i as int] == ss@[i as int].deep_view());
            assert(sfx[0] == toks[i as int]);
            assert(sfx.subrange(1, sfx.len() as int) =~= toks.subrange(i as int + 1, n as int));
        }
        match Arg::from_str(reg, ss[i].as_str()) {
            Ok(a) => {
                let ghost old_out = out.deep_view();
                let ghost av = a@;
                out.push(a);
                proof {
                    assert(out.deep_view() =~= old_out.push(av));
                    match spec_resolve_tokens(reg@, toks.subrange(i as int + 1, n as int)) {
                        Ok(rest) => {
                            assert(spec_resolve_tokens(reg@, sfx) == Ok::<Seq<ArgV>, DslError>(
                                seq![av] + rest,
                            ));
                            assert(old_out + (seq![av] + rest) =~= out.deep_view() + rest);
                        },
                        Err(e) => {
                            assert(spec_resolve_tokens(reg@, sfx) == Err::<Seq<ArgV>, DslError>(e));
                        },
                    }
                }
            },
            Err(e) => {
                proof {
                    assert(spec_resolve_tokens(reg@, sfx) == Err::<Seq<ArgV>, DslError>(e));
                }
                return Err(e);
            },
        }
    }
    proof {
        assert(toks.subrange(n as int, n as int) =~= Seq::<Seq<char>>::empty());
        assert(out.deep_view() + Seq::<ArgV>::empty() =~= out.deep_view());
    }
    Ok(out)
}

impl ArgGroup {
    /// Resolves one raw group handed over by the front-end: bare and
    /// labelled tokens through the resolver, collections token by token.
    pub fn from_raw(reg: &Registry, raw: &RawArgGroup) -> (r: Result<ArgGroup, DslError>)
        ensures
            res_group_view(r) == spec_group_from_raw(reg@, raw@),
    {
        match raw {
            RawArgGroup::Arg(s) => match Arg::from_str(reg, s.as_str()) {
                Ok(a) => Ok(ArgGroup::Arg(a)),
                Err(e) => Err(e),
            },
            RawArgGroup::LabelledArg(l, s) => match Arg::from_labelled_str(
                reg,
                l.as_str(),
                s.as_str(),
            ) {
                Ok(a) => Ok(ArgGroup::Arg(a)),
                Err(e) => Err(e),
            },
            RawArgGroup::Collection(ss) => match resolve_tokens(reg, ss) {
                Ok(args) => Ok(ArgGroup::Collection(args)),
                Err(e) => Err(e),
            },
            RawArgGroup::NamedCollection(n, ss) => match resolve_tokens(reg, ss) {
                Ok(args) => Ok(ArgGroup::NamedCollection(n.clone(), args)),
                Err(e) => Err(e),
            },
        }
    }
}

} // verus!
