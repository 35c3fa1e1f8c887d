//! The combinatorial expander: an ordered list of argument groups becomes an
//! ordered list of selections, one per combination. Bare arguments apply to
//! every combination; each unlabelled collection is an independent axis whose
//! elements multiply the combinations; named collections sharing one name are
//! one axis iterated in parallel, and binding two of differing lengths
//! together is an `ExpansionMismatch`. Combination order is lexicographic in
//! the order groups and their members were declared: the earliest axis varies
//! slowest.

use vstd::prelude::*;

use crate::arg::{Arg, ArgGroup, ArgGroupV, ArgV};
use crate::expression::{expr_empty, spec_fill_arg, Expression, ExprV, view_opt_string};
use crate::vocab::{str_eq, DslError};

verus! {

/// One expansion axis: the optional correlation name and the number of
/// elements every collection bound to the axis must have.
#[derive(Debug)]
pub struct Axis {
    pub name: Option<String>,
    pub len: usize,
}

#[verifier::ext_equal]
pub struct AxisV {
    pub name: Option<Seq<char>>,
    pub len: int,
}

impl View for Axis {
    type V = AxisV;

    open spec fn view(&self) -> AxisV {
        AxisV { name: view_opt_string(self.name), len: self.len as int }
    }
}

impl DeepView for Axis {
    type V = AxisV;

    open spec fn deep_view(&self) -> AxisV {
        self.view()
    }
}

/// One combination under construction: the arguments gathered so far, in
/// group declaration order, and the element index chosen on each axis.
#[derive(Debug)]
pub struct Combo {
    pub args: Vec<Arg>,
    pub idxs: Vec<usize>,
}

#[verifier::ext_equal]
pub struct ComboV {
    pub args: Seq<ArgV>,
    pub idxs: Seq<int>,
}

impl View for Combo {
    type V = ComboV;

    open spec fn view(&self) -> ComboV {
        ComboV {
            args: self.args.deep_view(),
            idxs: Seq::new(self.idxs@.len(), |i: int| self.idxs@[i] as int),
        }
    }
}

impl DeepView for Combo {
    type V = ComboV;

    open spec fn deep_view(&self) -> ComboV {
        self.view()
    }
}

/// The expander's whole state: the axes seen so far and every combination.
#[verifier::ext_equal]
pub struct StateV {
    pub axes: Seq<AxisV>,
    pub combos: Seq<ComboV>,
}

/// Before any group is processed there is one empty combination and no axis.
pub open spec fn init_state() -> StateV {
    StateV {
        axes: Seq::empty(),
        combos: seq![ComboV { args: Seq::empty(), idxs: Seq::empty() }],
    }
}

/// The first axis carrying the given name, if any.
pub open spec fn spec_find_axis(axes: Seq<AxisV>, name: Seq<char>) -> Option<int>
    decreases axes.len(),
{
    if axes.len() == 0 {
        None
    } else if axes[0].name == Some(name) {
        Some(0int)
    } else {
        match spec_find_axis(axes.subrange(1, axes.len() as int), name) {
            Some(k) => Some(k + 1),
            None => None,
        }
    }
}

/// A bare argument is appended to every combination.
pub open spec fn push_all(cs: Seq<ComboV>, a: ArgV) -> Seq<ComboV> {
    Seq::new(cs.len(), |i: int| ComboV { args: cs[i].args.push(a), idxs: cs[i].idxs })
}

/// One combination crossed with a fresh axis: one successor per element.
pub open spec fn ext_one(c: ComboV, args: Seq<ArgV>) -> Seq<ComboV> {
    Seq::new(args.len(), |k: int| ComboV { args: c.args.push(args[k]), idxs: c.idxs.push(k) })
}

/// Every combination crossed with a fresh axis, in declaration order: the
/// existing combinations vary slowest.
pub open spec fn ext_axis(cs: Seq<ComboV>, args: Seq<ArgV>) -> Seq<ComboV>
    decreases cs.len(),
{
    if cs.len() == 0 {
        Seq::empty()
    } else {
        ext_one(cs[0], args) + ext_axis(cs.subrange(1, cs.len() as int), args)
    }
}

/// A collection bound to an existing axis contributes, to each combination,
/// the element at the index that combination already chose on that axis.
pub open spec fn zip_axis(cs: Seq<ComboV>, a: int, args: Seq<ArgV>) -> Seq<ComboV> {
    Seq::new(
        cs.len(),
        |i: int| ComboV { args: cs[i].args.push(args[cs[i].idxs[a]]), idxs: cs[i].idxs },
    )
}

/// One expander step: how one argument group transforms the state.
pub open spec fn spec_step(st: StateV, g: ArgGroupV) -> Result<StateV, DslError> {
    match g {
        ArgGroupV::Arg(a) => Ok(StateV { axes: st.axes, combos: push_all(st.combos, a) }),
        ArgGroupV::Collection(args) => Ok(
            StateV {
                axes: st.axes.push(AxisV { name: None, len: args.len() as int }),
                combos: ext_axis(st.combos, args),
            },
        ),
        ArgGroupV::NamedCollection(n, args) => match spec_find_axis(st.axes, n) {
            Some(a) => if st.axes[a].len == args.len() {
                Ok(StateV { axes: st.axes, combos: zip_axis(st.combos, a, args) })
            } else {
                Err(DslError::ExpansionMismatch)
            },
            None => Ok(
                StateV {
                    axes: st.axes.push(AxisV { name: Some(n), len: args.len() as int }),
                    combos: ext_axis(st.combos, args),
                },
            ),
        },
    }
}

/// The state after processing a whole group sequence, left to right.
pub open spec fn spec_expand_state(groups: Seq<ArgGroupV>) -> Result<StateV, DslError>
    decreases groups.len(),
{
    if groups.len() == 0 {
        Ok(init_state())
    } else {
        match spec_expand_state(groups.drop_last()) {
            Ok(st) => spec_step(st, groups.last()),
            Err(e) => Err(e),
        }
    }
}

/// Repeated "set if absent" over a whole argument sequence, from the left.
pub open spec fn spec_fill_args(e: ExprV, args: Seq<ArgV>) -> ExprV
    decreases args.len(),
{
    if args.len() == 0 {
        e
    } else {
        spec_fill_args(spec_fill_arg(e, args[0]), args.subrange(1, args.len() as int))
    }
}

/// The expander's whole contract: the selections produced for a group
/// sequence, one per combination, each the left-to-right fill of a fresh
/// selection with that combination's arguments.
pub open spec fn spec_expand(groups: Seq<ArgGroupV>) -> Result<Seq<ExprV>, DslError> {
    match spec_expand_state(groups) {
        Ok(st) => Ok(
            Seq::new(st.combos.len(), |i: int| spec_fill_args(expr_empty(), st.combos[i].args)),
        ),
        Err(e) => Err(e),
    }
}

/// Every combination chose one in-range index on every axis.
pub open spec fn state_wf(st: StateV) -> bool {
    forall|i: int|
        0 <= i < st.combos.len() ==> (#[trigger] st.combos[i]).idxs.len() == st.axes.len()
            && (forall|a: int|
            0 <= a < st.axes.len() ==> 0 <= #[trigger] st.combos[i].idxs[a] < st.axes[a].len)
}

proof fn lemma_find_axis_in_range(axes: Seq<AxisV>, name: Seq<char>)
    requires
        spec_find_axis(axes, name) is Some,
    ensures
        0 <= spec_find_axis(axes, name)->Some_0 < axes.len(),
        axes[spec_find_axis(axes, name)->Some_0].name == Some(name),
    decreases axes.len(),
{
    if axes.len() > 0 && !(axes[0].name == Some(name)) {
        lemma_find_axis_in_range(axes.subrange(1, axes.len() as int), name);
    }
}

/// Every element of `ext_axis(cs, args)` extends some combination of `cs`
/// with one element index of the new axis.
proof fn lemma_ext_axis_elem(cs: Seq<ComboV>, args: Seq<ArgV>, j: int)
    requires
        0 <= j < ext_axis(cs, args).len(),
    ensures
        exists|i: int, k: int|
            0 <= i < cs.len() && 0 <= k < args.len() && ext_axis(cs, args)[j] == (ComboV {
                args: cs[i].args.push(args[k]),
                idxs: cs[i].idxs.push(k),
            }),
    decreases cs.len(),
{
    if cs.len() > 0 {
        let head = ext_one(cs[0], args);
        let rest = cs.subrange(1, cs.len() as int);
        if j < head.len() {
            assert(ext_axis(cs, args)[j] == head[j]);
            assert(0 <= 0 < cs.len() && 0 <= j < args.len() && ext_axis(cs, args)[j] == (ComboV {
                args: cs[0].args.push(args[j]),
                idxs: cs[0].idxs.push(j),
            }));
        } else {
            lemma_ext_axis_elem(rest, args, j - head.len());
            let (i0, k0) = choose|i0: int, k0: int|
                0 <= i0 < rest.len() && 0 <= k0 < args.len() && ext_axis(rest, args)[j
                    - head.len()] == (ComboV {
                    args: rest[i0].args.push(args[k0]),
                    idxs: rest[i0].idxs.push(k0),
                });
            assert(ext_axis(cs, args)[j] == ext_axis(rest, args)[j - head.len()]);
            assert(rest[i0] == cs[i0 + 1]);
            assert(0 <= i0 + 1 < cs.len() && 0 <= k0 < args.len() && ext_axis(cs, args)[j]
                == (ComboV { args: cs[i0 + 1].args.push(args[k0]), idxs: cs[i0 + 1].idxs.push(k0) }));
        }
    }
}

proof fn lemma_ext_axis_wf(st: StateV, args: Seq<ArgV>, ax: AxisV)
    requires
        state_wf(st),
        ax.len == args.len() as int,
    ensures
        state_wf(StateV { axes: st.axes.push(ax), combos: ext_axis(st.combos, args) }),
{
    let st2 = StateV { axes: st.axes.push(ax), combos: ext_axis(st.combos, args) };
    assert forall|j: int| 0 <= j < st2.combos.len() implies (#[trigger] st2.combos[j]).idxs.len()
        == st2.axes.len() && (forall|a: int|
        0 <= a < st2.axes.len() ==> 0 <= #[trigger] st2.combos[j].idxs[a] < st2.axes[a].len) by {
        lemma_ext_axis_elem(st.combos, args, j);
        let (i, k) = choose|i: int, k: int|
            0 <= i < st.combos.len() && 0 <= k < args.len() && ext_axis(st.combos, args)[j]
                == (ComboV { args: st.combos[i].args.push(args[k]), idxs: st.combos[i].idxs.push(k) });
        assert(st.combos[i].idxs.len() == st.axes.len());
        assert forall|a: int| 0 <= a < st2.axes.len() implies 0 <= #[trigger] st2.combos[j].idxs[a]
            < st2.axes[a].len by {
            if a < st.axes.len() {
                assert(0 <= st.combos[i].idxs[a] < st.axes[a].len);
                assert(st2.combos[j].idxs[a] == st.combos[i].idxs[a]);
                assert(st2.axes[a] == st.axes[a]);
            } else {
                assert(st2.combos[j].idxs[a] == k);
                assert(st2.axes[a] == ax);
            }
        }
    }
}

/// Crossing distributes over appending one combination at the end.
proof fn lemma_ext_axis_snoc(cs: Seq<ComboV>, c: ComboV, args: Seq<ArgV>)
    ensures
        ext_axis(cs.push(c), args) == ext_axis(cs, args) + ext_one(c, args),
    decreases cs.len(),
{
    let l = cs.push(c);
    if cs.len() == 0 {
        assert(l.subrange(1, 1) =~= Seq::<ComboV>::empty());
        assert(l[0] == c);
        assert(ext_axis(l, args) == ext_one(c, args) + ext_axis(Seq::<ComboV>::empty(), args));
        assert(ext_axis(l, args) =~= ext_one(c, args));
        assert(ext_axis(cs, args) + ext_one(c, args) =~= ext_one(c, args));
    } else {
        let tail = cs.subrange(1, cs.len() as int);
        assert(l[0] == cs[0]);
        assert(l.subrange(1, cs.len() as int + 1) =~= tail.push(c));
        lemma_ext_axis_snoc(tail, c, args);
        assert(ext_axis(l, args) == ext_one(cs[0], args) + (ext_axis(tail, args) + ext_one(
            c,
            args,
        )));
        assert(ext_one(cs[0], args) + (ext_axis(tail, args) + ext_one(c, args)) =~= (ext_one(
            cs[0],
            args,
        ) + ext_axis(tail, args)) + ext_one(c, args));
        assert(ext_axis(cs, args) + ext_one(c, args) == (ext_one(cs[0], args) + ext_axis(
            tail,
            args,
        )) + ext_one(c, args));
    }
}

/// Once a prefix fails, the whole sequence fails with the same error.
proof fn lemma_err_persists(groups: Seq<ArgGroupV>, i: int)
    requires
        0 <= i <= groups.len(),
        spec_expand_state(groups.subrange(0, i)) is Err,
    ensures
        spec_expand_state(groups) == spec_expand_state(groups.subrange(0, i)),
    decreases groups.len() - i,
{
    if i == groups.len() {
        assert(groups.subrange(0, i) =~= groups);
    } else {
        assert(groups.subrange(0, i + 1).drop_last() =~= groups.subrange(0, i));
        assert(groups.subrange(0, i + 1).last() == groups[i]);
        lemma_err_persists(groups, i + 1);
    }
}

/// Filling from the left then one more argument is filling the appended
/// sequence.
proof fn lemma_fill_args_snoc(e: ExprV, args: Seq<ArgV>, a: ArgV)
    ensures
        spec_fill_args(e, args.push(a)) == spec_fill_arg(spec_fill_args(e, args), a),
    decreases args.len(),
{
    if args.len() == 0 {
        assert(args.push(a)[0] == a);
        assert(args.push(a).subrange(1, 1) =~= Seq::<ArgV>::empty());
        assert(spec_fill_args(e, args.push(a)) == spec_fill_args(
            spec_fill_arg(e, a),
            Seq::<ArgV>::empty(),
        ));
    } else {
        assert(args.push(a)[0] == args[0]);
        assert(args.push(a).subrange(1, args.len() as int + 1) =~= args.subrange(
            1,
            args.len() as int,
        ).push(a));
        lemma_fill_args_snoc(spec_fill_arg(e, args[0]), args.subrange(1, args.len() as int), a);
    }
}

/// An exact copy of an argument vector.
fn dup_args(v: &Vec<Arg>) -> (r: Vec<Arg>)
    ensures
        r.deep_view() == v.deep_view(),
{
    let mut r: Vec<Arg> = Vec::new();
    let n = v.len();
    for i in 0..n
        invariant
            n == v.len(),
            r.len() == i,
            forall|j: int| 0 <= j < i ==> r.deep_view()[j] == v.deep_view()[j],
    {
        r.push(v[i].duplicate());
    }
    assert(r.deep_view() =~= v.deep_view());
    r
}

/// An exact copy of an index vector.
fn dup_idxs(v: &Vec<usize>) -> (r: Vec<usize>)
    ensures
        r@ == v@,
{
    let mut r: Vec<usize> = Vec::new();
    let n = v.len();
    for i in 0..n
        invariant
            n == v.len(),
            r@ == v@.subrange(0, i as int),
    {
        r.push(v[i]);
        assert(r@ =~= v@.subrange(0, i as int + 1));
    }
    assert(r@ =~= v@);
    r
}

/// The first axis whose name is the given one, searched front to back.
fn find_axis(axes: &Vec<Axis>, name: &str) -> (r: Option<usize>)
    ensures
        match r {
            Some(a) => spec_find_axis(axes.deep_view(), name@) == Some(a as int),
            None => spec_find_axis(axes.deep_view(), name@) is None,
        },
{
    let n = axes.len();
    for i in 0..n
        invariant
            n == axes.len(),
            forall|j: int| 0 <= j < i ==> (#[trigger] axes.deep_view()[j]).name != Some(name@),
    {
        let hit = match &axes[i].name {
            Some(nm) => str_eq(nm.as_str(), name),
            None => false,
        };
        if hit {
            assert(axes.deep_view()[i as int].name == Some(name@));
            proof {
                lemma_find_axis_first(axes.deep_view(), name@, i as int);
            }
            return Some(i);
        }
        assert(axes.deep_view()[i as int].name != Some(name@));
    }
    proof {
        lemma_find_axis_misses(axes.deep_view(), name@);
    }
    None
}

proof fn lemma_find_axis_first(axes: Seq<AxisV>, name: Seq<char>, i: int)
    requires
        0 <= i < axes.len(),
        axes[i].name == Some(name),
        forall|j: int| 0 <= j < i ==> (#[trigger] axes[j]).name != Some(name),
    ensures
        spec_find_axis(axes, name) == Some(i),
    decreases i,
{
    if i > 0 {
        lemma_find_axis_first(axes.subrange(1, axes.len() as int), name, i - 1);
    }
}

proof fn lemma_find_axis_misses(axes: Seq<AxisV>, name: Seq<char>)
    requires
        forall|j: int| 0 <= j < axes.len() ==> (#[trigger] axes[j]).name != Some(name),
    ensures
        spec_find_axis(axes, name) is None,
    decreases axes.len(),
{
    if axes.len() > 0 {
        lemma_find_axis_misses(axes.subrange(1, axes.len() as int), name);
    }
}

/// Crosses every existing combination with a fresh axis of the given
/// elements, existing combinations varying slowest.
fn cross_with_axis(combos: &Vec<Combo>, args: &Vec<Arg>) -> (r: Vec<Combo>)
    ensures
        r.deep_view() == ext_axis(combos.deep_view(), args.deep_view()),
{
    let mut r: Vec<Combo> = Vec::new();
    let n = combos.len();
    let m = args.len();
    for i in 0..n
        invariant
            n == combos.len(),
            m == args.len(),
            r.deep_view() == ext_axis(combos.deep_view().subrange(0, i as int), args.deep_view()),
    {
        let ghost pre = r.deep_view();
        for k in 0..m
            invariant
                n == combos.len(),
                m == args.len(),
                0 <= i < n,
                r.deep_view() == pre + ext_one(combos.deep_view()[i as int], args.deep_view())
                    .subrange(0, k as int),
        {
            let mut a2 = dup_args(&combos[i].args);
            a2.push(args[k].duplicate());
            let mut x2 = dup_idxs(&combos[i].idxs);
            x2.push(k);
            let c2 = Combo { args: a2, idxs: x2 };
            proof {
                assert(combos.deep_view()[i as int] == combos@[i as int].deep_view());
                assert(c2.deep_view().args =~= combos.deep_view()[i as int].args.push(
                    args.deep_view()[k as int],
                ));
                assert(c2.deep_view().idxs =~= combos.deep_view()[i as int].idxs.push(k as int));
                assert(c2.deep_view() =~= ext_one(
                    combos.deep_view()[i as int],
                    args.deep_view(),
                )[k as int]);
            }
            let ghost prev = r.deep_view();
            let ghost c2v = c2.deep_view();
            r.push(c2);
            proof {
                assert(r.deep_view() =~= prev.push(c2v));
            }
            assert(r.deep_view() =~= pre + ext_one(
                combos.deep_view()[i as int],
                args.deep_view(),
            ).subrange(0, k as int + 1));
        }
        proof {
            let csv = combos.deep_view();
            assert(ext_one(csv[i as int], args.deep_view()).subrange(
                0,
                m as int,
            ) =~= ext_one(csv[i as int], args.deep_view()));
            lemma_ext_axis_snoc(csv.subrange(0, i as int), csv[i as int], args.deep_view());
            assert(csv.subrange(0, i as int).push(csv[i as int]) =~= csv.subrange(0, i as int + 1));
        }
    }
    proof {
        assert(combos.deep_view().subrange(0, n as int) =~= combos.deep_view());
    }
    r
}

/// Runs the expander over the groups: the resulting axes and combinations,
/// or the first failure.
pub fn expand_combos(groups: &Vec<ArgGroup>) -> (r: Result<(Vec<Axis>, Vec<Combo>), DslError>)
    ensures
        match r {
            Ok(st) => spec_expand_state(groups.deep_view()) == Ok::<StateV, DslError>(StateV {
                axes: st.0.deep_view(),
                combos: st.1.deep_view(),
            }) && state_wf(StateV { axes: st.0.deep_view(), combos: st.1.deep_view() }),
            Err(e) => spec_expand_state(groups.deep_view()) == Err::<StateV, DslError>(e),
        },
{
    let mut axes: Vec<Axis> = Vec::new();
    let mut combos: Vec<Combo> = Vec::new();
    combos.push(Combo { args: Vec::new(), idxs: Vec::new() });
    proof {
        assert(combos.deep_view()[0].args =~= init_state().combos[0].args);
        assert(combos.deep_view()[0].idxs =~= init_state().combos[0].idxs);
        assert(combos.deep_view() =~= init_state().combos);
        assert(axes.deep_view() =~= init_state().axes);
    }
    let n = groups.len();
    for gi in 0..n
        invariant
            n == groups.len(),
            spec_expand_state(groups.deep_view().subrange(0, gi as int)) == Ok::<StateV, DslError>(StateV {
                axes: axes.deep_view(),
                combos: combos.deep_view(),
            }),
            state_wf(StateV { axes: axes.deep_view(), combos: combos.deep_view() }),
    {
        let ghost st = StateV { axes: axes.deep_view(), combos: combos.deep_view() };
        let ghost gs = groups.deep_view();
        proof {
            assert(gs.subrange(0, gi as int + 1).drop_last() =~= gs.subrange(0, gi as int));
            assert(gs.subrange(0, gi as int + 1).last() == gs[gi as int]);
        }
        match &groups[gi] {
            ArgGroup::Arg(a) => {
                let mut nc: Vec<Combo> = Vec::new();
                let cn = combos.len();
                for ci in 0..cn
                    invariant
                        cn == combos.len(),
                        gi < n == groups.len(),
                        groups@[gi as int] is Arg,
                        a == groups@[gi as int]->Arg_0,
                        nc.deep_view().len() == ci,
                        forall|j: int|
                            0 <= j < ci ==> nc.deep_view()[j] == push_all(
                                combos.deep_view(),
                                a@,
                            )[j],
                {
                    let mut a2 = dup_args(&combos[ci].args);
                    a2.push(a.duplicate());
                    let x2 = dup_idxs(&combos[ci].idxs);
                    let c2 = Combo { args: a2, idxs: x2 };
                    proof {
                        assert(combos.deep_view()[ci as int] == combos@[ci as int].deep_view());
                        assert(c2.deep_view().args =~= combos.deep_view()[ci as int].args.push(
                            a@,
                        ));
                        assert(c2.deep_view().idxs =~= combos.deep_view()[ci as int].idxs);
                        assert(c2.deep_view() =~= push_all(combos.deep_view(), a@)[ci as int]);
                    }
                    let ghost prev = nc.deep_view();
                    let ghost c2v = c2.deep_view();
                    nc.push(c2);
                    proof {
                        assert(nc.deep_view() =~= prev.push(c2v));
                    }
                }
                combos = nc;
                proof {
                    assert(combos.deep_view() =~= push_all(st.combos, gs[gi as int]->Arg_0));
                }
            },
            ArgGroup::Collection(args) => {
                let nc = cross_with_axis(&combos, args);
                combos = nc;
                axes.push(Axis { name: None, len: args.len() });
                proof {
                    assert(axes.deep_view() =~= st.axes.push(
                        AxisV { name: None, len: args.deep_view().len() as int },
                    ));
                    lemma_ext_axis_wf(
                        st,
                        args.deep_view(),
                        AxisV { name: None, len: args.deep_view().len() as int },
                    );
                }
            },
            ArgGroup::NamedCollection(nm, args) => {
                match find_axis(&axes, nm.as_str()) {
                    Some(a) => {
                        proof {
                            lemma_find_axis_in_range(st.axes, nm@);
                        }
                        if axes[a].len != args.len() {
                            proof {
                                lemma_err_persists(gs, gi as int + 1);
                            }
                            return Err(DslError::ExpansionMismatch);
                        }
                        let mut nc: Vec<Combo> = Vec::new();
                        let cn = combos.len();
                        for ci in 0..cn
                            invariant
                                cn == combos.len(),
                                gi < n == groups.len(),
                                groups@[gi as int] is NamedCollection,
                                args == groups@[gi as int]->NamedCollection_1,
                                state_wf(st),
                                st == (StateV {
                                    axes: axes.deep_view(),
                                    combos: combos.deep_view(),
                                }),
                                0 <= a < axes.len(),
                                axes@[a as int].len == args.len(),
                                nc.deep_view().len() == ci,
                                forall|j: int|
                                    0 <= j < ci ==> nc.deep_view()[j] == zip_axis(
                                        combos.deep_view(),
                                        a as int,
                                        args.deep_view(),
                                    )[j],
                        {
                            proof {
                                assert(combos.deep_view()[ci as int] == combos@[
                                    ci as int
                                ].deep_view());
                                assert(0 <= st.combos[ci as int].idxs[a as int] < st.axes[
                                    a as int
                                ].len);
                                assert(st.combos[ci as int].idxs[a as int] == combos@[
                                    ci as int
                                ].idxs@[a as int] as int);
                            }
                            let mut a2 = dup_args(&combos[ci].args);
                            let k = combos[ci].idxs[a];
                            a2.push(args[k].duplicate());
                            let x2 = dup_idxs(&combos[ci].idxs);
                            let c2 = Combo { args: a2, idxs: x2 };
                            proof {
                                let target = zip_axis(
                                    combos.deep_view(),
                                    a as int,
                                    args.deep_view(),
                                )[ci as int];
                                assert(args.deep_view()[k as int] == args@[k as int].deep_view());
                                assert(c2.deep_view().args =~= target.args);
                                assert(c2.deep_view().idxs =~= target.idxs);
                                assert(c2.deep_view() =~= target);
                            }
                            let ghost prev = nc.deep_view();
                            let ghost c2v = c2.deep_view();
                            nc.push(c2);
                            proof {
                                assert(nc.deep_view() =~= prev.push(c2v));
                            }
                        }
                        combos = nc;
                        proof {
                            assert(combos.deep_view() =~= zip_axis(
                                st.combos,
                                a as int,
                                args.deep_view(),
                            ));
                        }
                    },
                    None => {
                        let nc = cross_with_axis(&combos, args);
                        combos = nc;
                        axes.push(Axis { name: Some(nm.clone()), len: args.len() });
                        proof {
                            assert(axes.deep_view() =~= st.axes.push(
                                AxisV { name: Some(nm@), len: args.deep_view().len() as int },
                            ));
                            lemma_ext_axis_wf(
                                st,
                                args.deep_view(),
                                AxisV { name: Some(nm@), len: args.deep_view().len() as int },
                            );
                        }
                    },
                }
            },
        }
    }
    proof {
        assert(groups.deep_view().subrange(0, n as int) =~= groups.deep_view());
    }
    Ok((axes, combos))
}

/// Folds one combination's arguments, left to right, into a fresh selection.
fn fill_combo(c: &Combo) -> (r: Expression)
    ensures
        r@ == spec_fill_args(expr_empty(), c.deep_view().args),
{
    let mut e = Expression::new();
    let n = c.args.len();
    for i in 0..n
        invariant
            n == c.args.len(),
            e@ == spec_fill_args(expr_empty(), c.deep_view().args.subrange(0, i as int)),
    {
        e.fill_arg(c.args[i].duplicate());
        proof {
            lemma_fill_args_snoc(
                expr_empty(),
                c.deep_view().args.subrange(0, i as int),
                c.deep_view().args[i as int],
            );
            assert(c.deep_view().args.subrange(0, i as int).push(c.deep_view().args[i as int])
                =~= c.deep_view().args.subrange(0, i as int + 1));
        }
    }
    proof {
        assert(c.deep_view().args.subrange(0, n as int) =~= c.deep_view().args);
    }
    e
}

/// The whole expander: the ordered list of selections a group list denotes,
/// or the first failure. Order is deterministic: lexicographic in the order
/// groups and their members were declared.
pub fn expand(groups: &Vec<ArgGroup>) -> (r: Result<Vec<Expression>, DslError>)
    ensures
        match r {
            Ok(sels) => spec_expand(groups.deep_view()) == Ok::<Seq<ExprV>, DslError>(sels.deep_view()),
            Err(e) => spec_expand(groups.deep_view()) == Err::<Seq<ExprV>, DslError>(e),
        },
{
    let (_axes, combos) = match expand_combos(groups) {
        Ok(st) => st,
        Err(e) => {
            return Err(e);
        },
    };
    let mut sels: Vec<Expression> = Vec::new();
    let n = combos.len();
    for i in 0..n
        invariant
            n == combos.len(),
            spec_expand_state(groups.deep_view()) == Ok::<StateV, DslError>(StateV {
                axes: _axes.deep_view(),
                combos: combos.deep_view(),
            }),
            sels.deep_view().len() == i,
            forall|j: int|
                0 <= j < i ==> sels.deep_view()[j] == spec_fill_args(
                    expr_empty(),
                    combos.deep_view()[j].args,
                ),
    {
        assert(combos.deep_view()[i as int] == combos@[i as int].deep_view());
        let e = fill_combo(&combos[i]);
        let ghost prev = sels.deep_view();
        let ghost ev = e@;
        sels.push(e);
        proof {
            assert(sels.deep_view() =~= prev.push(ev));
        }
    }
    proof {
        let target = spec_expand(groups.deep_view())->Ok_0;
        assert(sels.deep_view() =~= target);
    }
    Ok(sels)
}

} // verus!
