//! Parsed clauses and their lowering into renderable components. A clause is
//! a function call, a named function call, a block of argument groups with
//! nested child clauses, or literal text. Lowering a block expands its own
//! argument groups into selections, lowers the child clauses once, and
//! replicates the lowered subtree under one scope node per selection, in
//! declared order; lowering never partially succeeds.

use vstd::prelude::*;

use crate::arg::{
    arg_wf, spec_group_from_raw, Arg, ArgGroup, ArgGroupV, ArgV, RawArgGroup, RawArgGroupV,
    Registry,
};
use crate::expand::{expand, spec_expand};
use crate::expression::{expr_empty, spec_fill_arg, Expression, ExprV};
use crate::table::{table_wf, Table, TableV};
use crate::tree::{
    comp_view, comp_wf, comps_view, comps_wf, function_view, lemma_comps_view_index,
    lemma_comps_view_len, Component, ComponentV, Function, FunctionV, Node, NodeV, Text,
};
use crate::vocab::{str_eq, DslError};

verus! {

/// One parsed source unit, its argument tokens already resolved.
#[derive(Debug)]
pub enum Clause {
    Function(Vec<ArgGroup>),
    NamedFunction(String, Vec<ArgGroup>),
    Block(Vec<ArgGroup>, Vec<Clause>),
    Text(String),
}

#[verifier::ext_equal]
pub enum ClauseV {
    Function(Seq<ArgGroupV>),
    NamedFunction(Seq<char>, Seq<ArgGroupV>),
    Block(Seq<ArgGroupV>, Seq<ClauseV>),
    Text(Seq<char>),
}

pub open spec fn clause_view(c: Clause) -> ClauseV
    decreases c,
{
    match c {
        Clause::Function(gs) => ClauseV::Function(gs.deep_view()),
        Clause::NamedFunction(n, gs) => ClauseV::NamedFunction(n@, gs.deep_view()),
        Clause::Block(gs, cls) => ClauseV::Block(gs.deep_view(), clauses_view(cls@)),
        Clause::Text(t) => ClauseV::Text(t@),
    }
}

pub open spec fn clauses_view(cls: Seq<Clause>) -> Seq<ClauseV>
    decreases cls,
{
    if cls.len() == 0 {
        Seq::empty()
    } else {
        clauses_view(cls.drop_last()).push(clause_view(cls.last()))
    }
}

impl View for Clause {
    type V = ClauseV;

    open spec fn view(&self) -> ClauseV {
        clause_view(*self)
    }
}

pub broadcast proof fn lemma_clauses_view_index(cls: Seq<Clause>, i: int)
    requires
        0 <= i < cls.len(),
    ensures
        clauses_view(cls).len() == cls.len(),
        #[trigger] clauses_view(cls)[i] == clause_view(cls[i]),
    decreases cls,
{
    lemma_clauses_view_len(cls);
    if cls.len() > 0 && i < cls.len() - 1 {
        lemma_clauses_view_index(cls.drop_last(), i);
    }
}

pub proof fn lemma_clauses_view_len(cls: Seq<Clause>)
    ensures
        clauses_view(cls).len() == cls.len(),
    decreases cls,
{
    if cls.len() > 0 {
        lemma_clauses_view_len(cls.drop_last());
    }
}

/// Every argument of the group names a real calendar day when it is a date.
pub open spec fn group_wf(g: ArgGroupV) -> bool {
    match g {
        ArgGroupV::Arg(a) => arg_wf(a),
        ArgGroupV::Collection(s) => forall|i: int| 0 <= i < s.len() ==> arg_wf(#[trigger] s[i]),
        ArgGroupV::NamedCollection(_, s) => forall|i: int|
            0 <= i < s.len() ==> arg_wf(#[trigger] s[i]),
    }
}

pub open spec fn groups_wf(gs: Seq<ArgGroupV>) -> bool {
    forall|i: int| 0 <= i < gs.len() ==> group_wf(#[trigger] gs[i])
}

pub open spec fn clause_wf(c: ClauseV) -> bool
    decreases c,
{
    match c {
        ClauseV::Function(gs) => groups_wf(gs),
        ClauseV::NamedFunction(_, gs) => groups_wf(gs),
        ClauseV::Block(gs, cls) => groups_wf(gs) && clauses_wf(cls),
        ClauseV::Text(_) => true,
    }
}

pub open spec fn clauses_wf(cls: Seq<ClauseV>) -> bool
    decreases cls,
{
    if cls.len() == 0 {
        true
    } else {
        clauses_wf(cls.drop_last()) && clause_wf(cls.last())
    }
}

pub broadcast proof fn lemma_clauses_wf_index(cls: Seq<ClauseV>, i: int)
    requires
        0 <= i < cls.len(),
        clauses_wf(cls),
    ensures
        clause_wf(#[trigger] cls[i]),
    decreases cls,
{
    if i < cls.len() - 1 {
        lemma_clauses_wf_index(cls.drop_last(), i);
    }
}

/// The table accumulator: the row axis and column axis seen so far, and the
/// base selection folded from the bare arguments. Exactly one axis of each
/// name must appear; any other collection is rejected.
pub open spec fn spec_table_acc(
    gs: Seq<ArgGroupV>,
    rows: Option<Seq<ArgV>>,
    cols: Option<Seq<ArgV>>,
    base: ExprV,
) -> Result<(Option<Seq<ArgV>>, Option<Seq<ArgV>>, ExprV), DslError>
    decreases gs.len(),
{
    if gs.len() == 0 {
        Ok((rows, cols, base))
    } else {
        let rest = gs.subrange(1, gs.len() as int);
        match gs[0] {
            ArgGroupV::Arg(a) => spec_table_acc(rest, rows, cols, spec_fill_arg(base, a)),
            ArgGroupV::Collection(_) => Err(DslError::InvalidValue),
            ArgGroupV::NamedCollection(n, args) => if n == "rows"@ {
                if rows is None {
                    spec_table_acc(rest, Some(args), cols, base)
                } else {
                    Err(DslError::InvalidValue)
                }
            } else if n == "cols"@ {
                if cols is None {
                    spec_table_acc(rest, rows, Some(args), base)
                } else {
                    Err(DslError::InvalidValue)
                }
            } else {
                Err(DslError::InvalidValue)
            },
        }
    }
}

/// A table clause's groups denote a table exactly when they hold one "rows"
/// axis, one "cols" axis, and otherwise only bare arguments for the base
/// selection.
pub open spec fn spec_find_table(gs: Seq<ArgGroupV>) -> Result<TableV, DslError> {
    match spec_table_acc(gs, None, None, expr_empty()) {
        Ok((rows, cols, base)) => match (rows, cols) {
            (Some(r), Some(c)) => Ok(TableV { rows: r, cols: c, ctx: base }),
            _ => Err(DslError::InvalidValue),
        },
        Err(e) => Err(e),
    }
}

/// What a named function call denotes: plain expression evaluation for
/// "expression", a cross-section table for "table", a failure otherwise.
pub open spec fn spec_function_named(name: Seq<char>, gs: Seq<ArgGroupV>) -> Result<
    FunctionV,
    DslError,
> {
    if name == "expression"@ {
        match spec_expand(gs) {
            Ok(sels) => Ok(FunctionV::Expressions(sels)),
            Err(e) => Err(e),
        }
    } else if name == "table"@ {
        match spec_find_table(gs) {
            Ok(t) => Ok(FunctionV::Table(t)),
            Err(e) => Err(e),
        }
    } else {
        Err(DslError::UnknownFunction)
    }
}

/// What an unlabelled function call denotes: plain expression evaluation.
pub open spec fn spec_function_from_groups(gs: Seq<ArgGroupV>) -> Result<FunctionV, DslError> {
    match spec_expand(gs) {
        Ok(sels) => Ok(FunctionV::Expressions(sels)),
        Err(e) => Err(e),
    }
}

/// What lowering a clause produces: a function leaf, a table leaf, literal
/// text, or — for a block — one scope node per selection the block's own
/// groups expand to, each carrying a copy of the once-lowered child
/// subtree, in declared order.
pub open spec fn spec_lower(c: ClauseV) -> Result<ComponentV, DslError>
    decreases c, 1int,
{
    match c {
        ClauseV::Function(gs) => match spec_function_from_groups(gs) {
            Ok(f) => Ok(ComponentV::Function(f)),
            Err(e) => Err(e),
        },
        ClauseV::NamedFunction(n, gs) => match spec_function_named(n, gs) {
            Ok(f) => Ok(ComponentV::Function(f)),
            Err(e) => Err(e),
        },
        ClauseV::Block(gs, cls) => match spec_expand(gs) {
            Ok(sels) => match spec_lower_list(cls) {
                Ok(children) => Ok(
                    ComponentV::Node(
                        NodeV {
                            value: expr_empty(),
                            children: Seq::new(
                                sels.len(),
                                |i: int|
                                    ComponentV::Node(NodeV { value: sels[i], children: children }),
                            ),
                        },
                    ),
                ),
                Err(e) => Err(e),
            },
            Err(e) => Err(e),
        },
        ClauseV::Text(t) => Ok(ComponentV::Text(t)),
    }
}

/// The once-lowered child subtree: each child clause lowered in order, the
/// first failure aborting the block.
pub open spec fn spec_lower_list(cls: Seq<ClauseV>) -> Result<Seq<ComponentV>, DslError>
    decreases cls, 0int,
{
    if cls.len() == 0 {
        Ok(Seq::empty())
    } else {
        match spec_lower(cls[0]) {
            Ok(c) => match spec_lower_list(cls.subrange(1, cls.len() as int)) {
                Ok(rest) => Ok(seq![c] + rest),
                Err(e) => Err(e),
            },
            Err(e) => Err(e),
        }
    }
}

pub open spec fn res_function_view(r: Result<Function, DslError>) -> Result<FunctionV, DslError> {
    match r {
        Ok(f) => Ok(function_view(f)),
        Err(e) => Err(e),
    }
}

pub open spec fn res_comp_view(r: Result<Component, DslError>) -> Result<ComponentV, DslError> {
    match r {
        Ok(c) => Ok(comp_view(c)),
        Err(e) => Err(e),
    }
}

/// A wf group list keeps every axis argument wf through the accumulator.
proof fn lemma_table_acc_wf(
    gs: Seq<ArgGroupV>,
    rows: Option<Seq<ArgV>>,
    cols: Option<Seq<ArgV>>,
    base: ExprV,
)
    requires
        groups_wf(gs),
        match rows {
            Some(r) => forall|i: int| 0 <= i < r.len() ==> arg_wf(#[trigger] r[i]),
            None => true,
        },
        match cols {
            Some(c) => forall|i: int| 0 <= i < c.len() ==> arg_wf(#[trigger] c[i]),
            None => true,
        },
        spec_table_acc(gs, rows, cols, base) is Ok,
    ensures
        ({
            let (r2, c2, _) = spec_table_acc(gs, rows, cols, base)->Ok_0;
            &&& match r2 {
                Some(r) => forall|i: int| 0 <= i < r.len() ==> arg_wf(#[trigger] r[i]),
                None => true,
            }
            &&& match c2 {
                Some(c) => forall|i: int| 0 <= i < c.len() ==> arg_wf(#[trigger] c[i]),
                None => true,
            }
        }),
    decreases gs.len(),
{
    if gs.len() > 0 {
        let rest = gs.subrange(1, gs.len() as int);
        assert(group_wf(gs[0]));
        assert(groups_wf(rest)) by {
            assert(forall|i: int|
                0 <= i < rest.len() ==> #[trigger] rest[i] == gs[i + 1] && group_wf(gs[i + 1]));
        }
        match gs[0] {
            ArgGroupV::Arg(a) => {
                lemma_table_acc_wf(rest, rows, cols, spec_fill_arg(base, a));
            },
            ArgGroupV::Collection(_) => {},
            ArgGroupV::NamedCollection(n, args) => {
                if n == "rows"@ && rows is None {
                    lemma_table_acc_wf(rest, Some(args), cols, base);
                } else if n == "cols"@ && cols is None {
                    lemma_table_acc_wf(rest, rows, Some(args), base);
                }
            },
        }
    }
}

/// A wf group list can only denote a wf table.
pub proof fn lemma_find_table_wf(gs: Seq<ArgGroupV>)
    requires
        groups_wf(gs),
        spec_find_table(gs) is Ok,
    ensures
        table_wf(spec_find_table(gs)->Ok_0),
{
    lemma_table_acc_wf(gs, None, None, expr_empty());
}

/// An exact copy of an argument vector.
fn dup_args(v: &Vec<Arg>) -> (r: Vec<Arg>)
    ensures
        r.deep_view() == v.deep_view(),
{
    let mut r: Vec<Arg> = Vec::new();
    let n = v.len();
    for i in 0..n
        invariant
            n == v.len(),
            r.len() == i,
            forall|j: int| 0 <= j < i ==> r.deep_view()[j] == v.deep_view()[j],
    {
        r.push(v[i].duplicate());
    }
    assert(r.deep_view() =~= v.deep_view());
    r
}

/// Finds the row axis, the column axis and the base arguments among a table
/// clause's groups.
fn find_table(groups: &Vec<ArgGroup>) -> (r: Result<Table, DslError>)
    ensures
        match r {
            Ok(t) => spec_find_table(groups.deep_view()) == Ok::<TableV, DslError>(t@),
            Err(e) => spec_find_table(groups.deep_view()) == Err::<TableV, DslError>(e),
        },
{
    let ghost gs = groups.deep_view();
    let mut rows: Option<Vec<Arg>> = None;
    let mut cols: Option<Vec<Arg>> = None;
    let mut base = Expression::new();
    let n = groups.len();
    proof {
        assert(gs.subrange(0, n as int) =~= gs);
    }
    for i in 0..n
        invariant
            n == groups.len(),
            gs == groups.deep_view(),
            gs.len() == n,
            spec_table_acc(gs, None, None, expr_empty()) == spec_table_acc(
                gs.subrange(i as int, n as int),
                match rows {
                    Some(ref v) => Some(v.deep_view()),
                    None => None,
                },
                match cols {
                    Some(ref v) => Some(v.deep_view()),
                    None => None,
                },
                base@,
            ),
    {
        let ghost sfx = gs.subrange(i as int, n as int);
        proof {
            assert(groups.deep_view()[i as int] == groups@[i as int].deep_view());
            assert(sfx[0] == gs[i as int]);
            assert(sfx.subrange(1, sfx.len() as int) =~= gs.subrange(i as int + 1, n as int));
        }
        match &groups[i] {
            ArgGroup::Arg(a) => {
                base.fill_arg(a.duplicate());
            },
            ArgGroup::Collection(_) => {
                return Err(DslError::InvalidValue);
            },
            ArgGroup::NamedCollection(nm, args) => {
                if str_eq(nm.as_str(), "rows") {
                    if rows.is_none() {
                        rows = Some(dup_args(args));
                    } else {
                        return Err(DslError::InvalidValue);
                    }
                } else if str_eq(nm.as_str(), "cols") {
                    if cols.is_none() {
                        cols = Some(dup_args(args));
                    } else {
                        return Err(DslError::InvalidValue);
                    }
                } else {
                    return Err(DslError::InvalidValue);
                }
            },
        }
    }
    proof {
        assert(gs.subrange(n as int, n as int) =~= Seq::<ArgGroupV>::empty());
    }
    match (rows, cols) {
        (Some(r), Some(c)) => {
            let t = Table::new(r, c, base);
            Ok(t)
        },
        _ => Err(DslError::InvalidValue),
    }
}

impl Function {
    /// Matches a rendering-function name to a variant: "expression"
    /// evaluates the expanded selections inline, "table" builds a
    /// cross-section table; any other name is unknown.
    pub fn from_labelled_groups(name: &str, groups: &Vec<ArgGroup>) -> (r: Result<
        Function,
        DslError,
    >)
        ensures
            res_function_view(r) == spec_function_named(name@, groups.deep_view()),
    {
        if str_eq(name, "expression") {
            Function::try_new_expression(groups)
        } else if str_eq(name, "table") {
            match find_table(groups) {
                Ok(t) => Ok(Function::Table(t)),
                Err(e) => Err(e),
            }
        } else {
            Err(DslError::UnknownFunction)
        }
    }

    /// An unlabelled group list is taken as plain expression evaluation.
    pub fn from_groups(groups: &Vec<ArgGroup>) -> (r: Result<Function, DslError>)
        ensures
            res_function_view(r) == spec_function_from_groups(groups.deep_view()),
    {
        Function::try_new_expression(groups)
    }

    fn try_new_expression(groups: &Vec<ArgGroup>) -> (r: Result<Function, DslError>)
        ensures
            res_function_view(r) == spec_function_from_groups(groups.deep_view()),
    {
        match expand(groups) {
            Ok(sels) => Ok(Function::Expressions(sels)),
            Err(e) => Err(e),
        }
    }
}

/// An exact deep copy of a component, so that one lowered subtree can stand
/// under several scope nodes without sharing.
fn copy_component(c: &Component) -> (r: Component)
    ensures
        r@ == c@,
    decreases c,
{
    match c {
        Component::Text(t) => Component::Text(Text(t.0.clone())),
        Component::Function(Function::Expressions(es)) => {
            let mut out: Vec<Expression> = Vec::new();
            let n = es.len();
            for i in 0..n
                invariant
                    n == es.len(),
                    out.len() == i,
                    forall|j: int| 0 <= j < i ==> out.deep_view()[j] == es.deep_view()[j],
            {
                out.push(es[i].duplicate());
            }
            proof {
                assert(out.deep_view() =~= es.deep_view());
            }
            Component::Function(Function::Expressions(out))
        },
        Component::Function(Function::Table(t)) => {
            let rows = dup_args(&t.rows);
            let cols = dup_args(&t.cols);
            let t2 = Table::new(rows, cols, t.ctx.duplicate());
            assert(t2@ =~= t@);
            Component::Function(Function::Table(t2))
        },
        Component::Node(n) => {
            let children = copy_components(&n.children);
            let n2 = Node { value: n.value.duplicate(), children };
            assert(n2@ =~= n@);
            Component::Node(n2)
        },
    }
}

/// An exact deep copy of a component list, in order.
fn copy_components(v: &Vec<Component>) -> (r: Vec<Component>)
    ensures
        comps_view(r@) == comps_view(v@),
    decreases v,
{
    let mut r: Vec<Component> = Vec::new();
    let n = v.len();
    for i in 0..n
        invariant
            n == v.len(),
            r@.len() == i,
            forall|j: int|
                0 <= j < i ==> comps_view(r@)[j] == comps_view(v@)[j],
    {
        let c = copy_component(&v[i]);
        let ghost old_r = r@;
        r.push(c);
        proof {
            lemma_comps_view_index(r@, i as int);
            assert(r@.drop_last() =~= old_r);
            assert(comps_view(r@) == comps_view(old_r).push(comp_view(r@.last())));
            lemma_comps_view_len(old_r);
            lemma_comps_view_len(v@);
            assert forall|j: int| 0 <= j < i + 1 implies comps_view(r@)[j] == comps_view(v@)[j] by {
                lemma_comps_view_index(v@, j);
                if j < i {
                    assert(comps_view(r@)[j] == comps_view(old_r)[j]);
                }
            }
        }
    }
    proof {
        lemma_comps_view_len(r@);
        lemma_comps_view_len(v@);
        assert(comps_view(r@) =~= comps_view(v@));
    }
    r
}

impl Clause {
    /// Lowers the clause into its renderable component: a function leaf, a
    /// table leaf, literal text, or — for a block — one scope node per
    /// selection the block's own groups expand to, each carrying its own
    /// copy of the once-lowered child subtree, in declared order. Lowering
    /// never partially succeeds: the first failure aborts the whole clause.
    pub fn to_component(&self) -> (r: Result<Component, DslError>)
        ensures
            res_comp_view(r) == spec_lower(self@),
            r is Ok && clause_wf(self@) ==> comp_wf(r->Ok_0@),
        decreases self, 1int,
    {
        match self {
            Clause::Text(t) => Ok(Component::Text(Text(t.clone()))),
            Clause::Function(groups) => {
                match Function::from_groups(groups) {
                    Ok(f) => Ok(Component::Function(f)),
                    Err(e) => Err(e),
                }
            },
            Clause::NamedFunction(name, groups) => {
                match Function::from_labelled_groups(name.as_str(), groups) {
                    Ok(f) => {
                        proof {
                            if clause_wf(self@) {
                                if function_view(f) is Table {
                                    lemma_find_table_wf(groups.deep_view());
                                }
                            }
                        }
                        Ok(Component::Function(f))
                    },
                    Err(e) => Err(e),
                }
            },
            Clause::Block(groups, clauses) => {
                let sels = match expand(groups) {
                    Ok(sels) => sels,
                    Err(e) => {
                        return Err(e);
                    },
                };
                let children = match Clause::lower_list(clauses) {
                    Ok(cs) => cs,
                    Err(e) => {
                        return Err(e);
                    },
                };
                let ghost sels_s = sels.deep_view();
                let ghost children_s = comps_view(children@);
                let ghost target = Seq::new(
                    sels_s.len(),
                    |i: int| ComponentV::Node(NodeV { value: sels_s[i], children: children_s }),
                );
                let mut parent = Node::new(Expression::new());
                let n = sels.len();
                proof {
                    assert(sels_s.len() == n);
                }
                for i in 0..n
                    invariant
                        n == sels.len(),
                        sels_s == sels.deep_view(),
                        sels_s.len() == n,
                        children_s == comps_view(children@),
                        target == Seq::new(
                            sels_s.len(),
                            |i: int|
                                ComponentV::Node(
                                    NodeV { value: sels_s[i], children: children_s },
                                ),
                        ),
                        parent@.value == expr_empty(),
                        parent@.children == target.subrange(0, i as int),
                        clauses_wf(clauses_view(clauses@)) ==> comps_wf(children_s),
                {
                    assert(sels.deep_view()[i as int] == sels@[i as int].deep_view());
                    let replica = Node {
                        value: sels[i].duplicate(),
                        children: copy_components(&children),
                    };
                    proof {
                        assert(replica@ =~= NodeV { value: sels_s[i as int], children: children_s });
                    }
                    parent.add_child(Component::Node(replica));
                    proof {
                        assert(parent@.children =~= target.subrange(0, i as int + 1));
                    }
                }
                proof {
                    assert(target.subrange(0, n as int) =~= target);
                    if clause_wf(self@) {
                        lemma_replicas_wf(target, sels_s, children_s);
                    }
                }
                Ok(Component::Node(parent))
            },
        }
    }

    /// Lowers each child clause once, in order; the first failure aborts.
    fn lower_list(clauses: &Vec<Clause>) -> (r: Result<Vec<Component>, DslError>)
        ensures
            match r {
                Ok(cs) => spec_lower_list(clauses_view(clauses@)) == Ok::<
                    Seq<ComponentV>,
                    DslError,
                >(comps_view(cs@)) && (clauses_wf(clauses_view(clauses@)) ==> comps_wf(
                    comps_view(cs@),
                )),
                Err(e) => spec_lower_list(clauses_view(clauses@)) == Err::<
                    Seq<ComponentV>,
                    DslError,
                >(e),
            },
        decreases clauses, 0int,
    {
        let ghost cls = clauses_view(clauses@);
        let mut out: Vec<Component> = Vec::new();
        let n = clauses.len();
        proof {
            lemma_clauses_view_len(clauses@);
            assert(cls.subrange(0, n as int) =~= cls);
            assert(comps_view(out@) =~= Seq::<ComponentV>::empty());
            match spec_lower_list(cls) {
                Ok(rest) => {
                    assert(comps_view(out@) + rest =~= rest);
                },
                Err(_) => {},
            }
        }
        for i in 0..n
            invariant
                n == clauses.len(),
                cls == clauses_view(clauses@),
                cls.len() == n,
                out@.len() == i,
                ({
                    match spec_lower_list(cls.subrange(i as int, n as int)) {
                        Ok(rest) => spec_lower_list(cls) == Ok::<Seq<ComponentV>, DslError>(
                            comps_view(out@) + rest,
                        ),
                        Err(e) => spec_lower_list(cls) == Err::<Seq<ComponentV>, DslError>(e),
                    }
                }),
                clauses_wf(cls) ==> comps_wf(comps_view(out@)),
        {
            let ghost sfx = cls.subrange(i as int, n as int);
            proof {
                lemma_clauses_view_index(clauses@, i as int);
                assert(sfx[0] == cls[i as int]);
                assert(sfx.subrange(1, sfx.len() as int) =~= cls.subrange(i as int + 1, n as int));
                if clauses_wf(cls) {
                    lemma_clauses_wf_index(cls, i as int);
                }
            }
            match clauses[i].to_component() {
                Ok(c) => {
                    let ghost old_out = out@;
                    let ghost cv = c@;
                    out.push(c);
                    proof {
                        assert(out@.drop_last() =~= old_out);
                        assert(comps_view(out@) == comps_view(old_out).push(cv));
                        match spec_lower_list(cls.subrange(i as int + 1, n as int)) {
                            Ok(rest) => {
                                assert(spec_lower_list(sfx) == Ok::<Seq<ComponentV>, DslError>(
                                    seq![cv] + rest,
                                ));
                                assert(comps_view(old_out) + (seq![cv] + rest) =~= comps_view(out@)
                                    + rest);
                            },
                            Err(e) => {
                                assert(spec_lower_list(sfx) == Err::<Seq<ComponentV>, DslError>(e));
                            },
                        }
                        if clauses_wf(cls) {
                            assert(comp_wf(cv));
                            assert(comps_view(out@).drop_last() =~= comps_view(old_out));
                            assert(comps_view(out@).last() == cv);
                            assert(comps_wf(comps_view(out@)));
                        }
                    }
                },
                Err(e) => {
                    proof {
                        assert(spec_lower_list(sfx) == Err::<Seq<ComponentV>, DslError>(e));
                    }
                    return Err(e);
                },
            }
        }
        proof {
            assert(cls.subrange(n as int, n as int) =~= Seq::<ClauseV>::empty());
            assert(spec_lower_list(cls.subrange(n as int, n as int)) == Ok::<
                Seq<ComponentV>,
                DslError,
            >(Seq::empty()));
            assert(comps_view(out@) + Seq::<ComponentV>::empty() =~= comps_view(out@));
        }
        Ok(out)
    }
}

/// A parsed clause as the external front-end hands it over: raw token
/// groups and nested structure, nothing resolved yet.
#[derive(Debug)]
pub enum RawClause {
    Function(Vec<RawArgGroup>),
    NamedFunction(String, Vec<RawArgGroup>),
    Block(Vec<RawArgGroup>, Vec<RawClause>),
    Text(String),
}

#[verifier::ext_equal]
pub enum RawClauseV {
    Function(Seq<RawArgGroupV>),
    NamedFunction(Seq<char>, Seq<RawArgGroupV>),
    Block(Seq<RawArgGroupV>, Seq<RawClauseV>),
    Text(Seq<char>),
}

pub open spec fn raw_clause_view(c: RawClause) -> RawClauseV
    decreases c,
{
    match c {
        RawClause::Function(gs) => RawClauseV::Function(gs.deep_view()),
        RawClause::NamedFunction(n, gs) => RawClauseV::NamedFunction(n@, gs.deep_view()),
        RawClause::Block(gs, cls) => RawClauseV::Block(gs.deep_view(), raw_clauses_view(cls@)),
        RawClause::Text(t) => RawClauseV::Text(t@),
    }
}

pub open spec fn raw_clauses_view(cls: Seq<RawClause>) -> Seq<RawClauseV>
    decreases cls,
{
    if cls.len() == 0 {
        Seq::empty()
    } else {
        raw_clauses_view(cls.drop_last()).push(raw_clause_view(cls.last()))
    }
}

impl View for RawClause {
    type V = RawClauseV;

    open spec fn view(&self) -> RawClauseV {
        raw_clause_view(*self)
    }
}

pub broadcast proof fn lemma_raw_clauses_view_index(cls: Seq<RawClause>, i: int)
    requires
        0 <= i < cls.len(),
    ensures
        raw_clauses_view(cls).len() == cls.len(),
        #[trigger] raw_clauses_view(cls)[i] == raw_clause_view(cls[i]),
    decreases cls,
{
    lemma_raw_clauses_view_len(cls);
    if cls.len() > 0 && i < cls.len() - 1 {
        lemma_raw_clauses_view_index(cls.drop_last(), i);
    }
}

pub proof fn lemma_raw_clauses_view_len(cls: Seq<RawClause>)
    ensures
        raw_clauses_view(cls).len() == cls.len(),
    decreases cls,
{
    if cls.len() > 0 {
        lemma_raw_clauses_view_len(cls.drop_last());
    }
}

/// Each raw group resolved in order; the first failure aborts.
pub open spec fn spec_groups_from_raw(reg: crate::arg::RegistryV, gs: Seq<RawArgGroupV>) -> Result<
    Seq<ArgGroupV>,
    DslError,
>
    decreases gs.len(),
{
    if gs.len() == 0 {
        Ok(Seq::empty())
    } else {
        match spec_group_from_raw(reg, gs[0]) {
            Ok(g) => match spec_groups_from_raw(reg, gs.subrange(1, gs.len() as int)) {
                Ok(rest) => Ok(seq![g] + rest),
                Err(e) => Err(e),
            },
            Err(e) => Err(e),
        }
    }
}

/// What converting a raw clause yields: the same structure with every token
/// resolved; the first unresolvable token aborts the whole clause.
pub open spec fn spec_clause_from_raw(reg: crate::arg::RegistryV, c: RawClauseV) -> Result<
    ClauseV,
    DslError,
>
    decreases c, 1int,
{
    match c {
        RawClauseV::Function(gs) => match spec_groups_from_raw(reg, gs) {
            Ok(groups) => Ok(ClauseV::Function(groups)),
            Err(e) => Err(e),
        },
        RawClauseV::NamedFunction(n, gs) => match spec_groups_from_raw(reg, gs) {
            Ok(groups) => Ok(ClauseV::NamedFunction(n, groups)),
            Err(e) => Err(e),
        },
        RawClauseV::Block(gs, cls) => match spec_groups_from_raw(reg, gs) {
            Ok(groups) => match spec_clauses_from_raw(reg, cls) {
                Ok(children) => Ok(ClauseV::Block(groups, children)),
                Err(e) => Err(e),
            },
            Err(e) => Err(e),
        },
        RawClauseV::Text(t) => Ok(ClauseV::Text(t)),
    }
}

pub open spec fn spec_clauses_from_raw(reg: crate::arg::RegistryV, cls: Seq<RawClauseV>) -> Result<
    Seq<ClauseV>,
    DslError,
>
    decreases cls, 0int,
{
    if cls.len() == 0 {
        Ok(Seq::empty())
    } else {
        match spec_clause_from_raw(reg, cls[0]) {
            Ok(c) => match spec_clauses_from_raw(reg, cls.subrange(1, cls.len() as int)) {
                Ok(rest) => Ok(seq![c] + rest),
                Err(e) => Err(e),
            },
            Err(e) => Err(e),
        }
    }
}

pub open spec fn res_clause_view(r: Result<Clause, DslError>) -> Result<ClauseV, DslError> {
    match r {
        Ok(c) => Ok(c@),
        Err(e) => Err(e),
    }
}

/// Resolves each raw group of a clause, in order.
fn groups_from_raw(reg: &Registry, gs: &Vec<RawArgGroup>) -> (r: Result<Vec<ArgGroup>, DslError>)
    ensures
        match r {
            Ok(groups) => spec_groups_from_raw(reg@, gs.deep_view()) == Ok::<
                Seq<ArgGroupV>,
                DslError,
            >(groups.deep_view()),
            Err(e) => spec_groups_from_raw(reg@, gs.deep_view()) == Err::<Seq<ArgGroupV>, DslError>(
                e,
            ),
        },
{
    let ghost raws = gs.deep_view();
    let mut out: Vec<ArgGroup> = Vec::new();
    let n = gs.len();
    proof {
        assert(raws.subrange(0, n as int) =~= raws);
        match spec_groups_from_raw(reg@, raws) {
            Ok(rest) => {
                assert(out.deep_view() + rest =~= rest);
            },
            Err(_) => {},
        }
    }
    for i in 0..n
        invariant
            n == gs.len(),
            raws == gs.deep_view(),
            raws.len() == n,
            out@.len() == i,
            ({
                match spec_groups_from_raw(reg@, raws.subrange(i as int, n as int)) {
                    Ok(rest) => spec_groups_from_raw(reg@, raws) == Ok::<Seq<ArgGroupV>, DslError>(
                        out.deep_view() + rest,
                    ),
                    Err(e) => spec_groups_from_raw(reg@, raws) == Err::<Seq<ArgGroupV>, DslError>(
                        e,
                    ),
                }
            }),
    {
        let ghost sfx = raws.subrange(i as int, n as int);
        proof {
            assert(gs.deep_view()[i as int] == gs@[i as int].deep_view());
            assert(sfx[0] == raws[i as int]);
            assert(sfx.subrange(1, sfx.len() as int) =~= raws.subrange(i as int + 1, n as int));
        }
        match ArgGroup::from_raw(reg, &gs[i]) {
            Ok(g) => {
                let ghost old_out = out.deep_view();
                let ghost gv = g@;
                out.push(g);
                proof {
                    assert(out.deep_view() =~= old_out.push(gv));
                    match spec_groups_from_raw(reg@, raws.subrange(i as int + 1, n as int)) {
                        Ok(rest) => {
                            assert(spec_groups_from_raw(reg@, sfx) == Ok::<Seq<ArgGroupV>, DslError>(
                                seq![gv] + rest,
                            ));
                            assert(old_out + (seq![gv] + rest) =~= out.deep_view() + rest);
                        },
                        Err(e) => {
                            assert(spec_groups_from_raw(reg@, sfx) == Err::<Seq<ArgGroupV>, DslError>(
                                e,
                            ));
                        },
                    }
                }
            },
            Err(e) => {
                proof {
                    assert(spec_groups_from_raw(reg@, sfx) == Err::<Seq<ArgGroupV>, DslError>(e));
                }
                return Err(e);
            },
        }
    }
    proof {
        assert(raws.subrange(n as int, n as int) =~= Seq::<RawArgGroupV>::empty());
        assert(out.deep_view() + Seq::<ArgGroupV>::empty() =~= out.deep_view());
    }
    Ok(out)
}

impl Clause {
    /// Resolves every token of a raw clause tree into a typed clause, depth
    /// first; the first unresolvable token aborts the whole clause.
    pub fn from_raw(reg: &Registry, raw: &RawClause) -> (r: Result<Clause, DslError>)
        ensures
            res_clause_view(r) == spec_clause_from_raw(reg@, raw@),
        decreases raw, 1int,
    {
        match raw {
            RawClause::Text(t) => Ok(Clause::Text(t.clone())),
            RawClause::Function(gs) => match groups_from_raw(reg, gs) {
                Ok(groups) => Ok(Clause::Function(groups)),
                Err(e) => Err(e),
            },
            RawClause::NamedFunction(n, gs) => match groups_from_raw(reg, gs) {
                Ok(groups) => Ok(Clause::NamedFunction(n.clone(), groups)),
                Err(e) => Err(e),
            },
            RawClause::Block(gs, cls) => {
                let groups = match groups_from_raw(reg, gs) {
                    Ok(groups) => groups,
                    Err(e) => {
                        return Err(e);
                    },
                };
                match Clause::list_from_raw(reg, cls) {
                    Ok(children) => Ok(Clause::Block(groups, children)),
                    Err(e) => Err(e),
                }
            },
        }
    }

    fn list_from_raw(reg: &Registry, cls: &Vec<RawClause>) -> (r: Result<Vec<Clause>, DslError>)
        ensures
            match r {
                Ok(cs) => spec_clauses_from_raw(reg@, raw_clauses_view(cls@)) == Ok::<
                    Seq<ClauseV>,
                    DslError,
                >(clauses_view(cs@)),
                Err(e) => spec_clauses_from_raw(reg@, raw_clauses_view(cls@)) == Err::<
                    Seq<ClauseV>,
                    DslError,
                >(e),
            },
        decreases cls, 0int,
    {
        let ghost raws = raw_clauses_view(cls@);
        let mut out: Vec<Clause> = Vec::new();
        let n = cls.len();
        proof {
            lemma_raw_clauses_view_len(cls@);
            assert(raws.subrange(0, n as int) =~= raws);
            assert(clauses_view(out@) =~= Seq::<ClauseV>::empty());
            match spec_clauses_from_raw(reg@, raws) {
                Ok(rest) => {
                    assert(clauses_view(out@) + rest =~= rest);
                },
                Err(_) => {},
            }
        }
        for i in 0..n
            invariant
                n == cls.len(),
                raws == raw_clauses_view(cls@),
                raws.len() == n,
                out@.len() == i,
                ({
                    match spec_clauses_from_raw(reg@, raws.subrange(i as int, n as int)) {
                        Ok(rest) => spec_clauses_from_raw(reg@, raws) == Ok::<
                            Seq<ClauseV>,
                            DslError,
                        >(clauses_view(out@) + rest),
                        Err(e) => spec_clauses_from_raw(reg@, raws) == Err::<Seq<ClauseV>, DslError>(
                            e,
                        ),
                    }
                }),
        {
            let ghost sfx = raws.subrange(i as int, n as int);
            proof {
                lemma_raw_clauses_view_index(cls@, i as int);
                assert(sfx[0] == raws[i as int]);
                assert(sfx.subrange(1, sfx.len() as int) =~= raws.subrange(i as int + 1, n as int));
            }
            match Clause::from_raw(reg, &cls[i]) {
                Ok(c) => {
                    let ghost old_vec = out@;
                    let ghost old_out = clauses_view(out@);
                    let ghost cv = c@;
                    out.push(c);
                    proof {
                        assert(out@.drop_last() =~= old_vec);
                        assert(clauses_view(out@) == clauses_view(old_vec).push(cv));
                    }
                    proof {
                        assert(clauses_view(out@) =~= old_out.push(cv));
                        match spec_clauses_from_raw(reg@, raws.subrange(i as int + 1, n as int)) {
                            Ok(rest) => {
                                assert(spec_clauses_from_raw(reg@, sfx) == Ok::<
                                    Seq<ClauseV>,
                                    DslError,
                                >(seq![cv] + rest));
                                assert(old_out + (seq![cv] + rest) =~= clauses_view(out@) + rest);
                            },
                            Err(e) => {
                                assert(spec_clauses_from_raw(reg@, sfx) == Err::<
                                    Seq<ClauseV>,
                                    DslError,
                                >(e));
                            },
                        }
                    }
                },
                Err(e) => {
                    proof {
                        assert(spec_clauses_from_raw(reg@, sfx) == Err::<Seq<ClauseV>, DslError>(e));
                    }
                    return Err(e);
                },
            }
        }
        proof {
            assert(raws.subrange(n as int, n as int) =~= Seq::<RawClauseV>::empty());
            assert(clauses_view(out@) + Seq::<ClauseV>::empty() =~= clauses_view(out@));
        }
        Ok(out)
    }
}

/// A sequence of replica scope nodes over one wf child subtree is wf.
proof fn lemma_replicas_wf(target: Seq<ComponentV>, sels: Seq<ExprV>, children: Seq<ComponentV>)
    requires
        comps_wf(children),
        target.len() <= sels.len(),
        forall|i: int|
            0 <= i < target.len() ==> #[trigger] target[i] == ComponentV::Node(
                NodeV { value: sels[i], children: children },
            ),
    ensures
        comps_wf(target),
    decreases target.len(),
{
    if target.len() > 0 {
        assert(target.drop_last() =~= target.subrange(0, target.len() - 1));
        lemma_replicas_wf(target.subrange(0, target.len() - 1), sels, children);
        assert(target.last() == target[target.len() - 1]);
        assert(target.last() == ComponentV::Node(
            NodeV { value: sels[target.len() - 1], children: children },
        ));
        assert(comp_wf(target.last()));
    }
}

} // verus!
