//! The scope tree and its renderables: a closed union of component kinds —
//! a function call over one or more selections, a cross-section table, a
//! scope node with children, or literal text. Rendering is a pre-order walk:
//! a node first inherits every selection field it left unset from its
//! ambient selection, then renders its children in order under the enriched
//! selection, concatenating their fragments. A node's own fields are never
//! overwritten, and the first failure aborts the whole render.

use vstd::prelude::*;

use crate::engine::{res_str_view, spec_evaluate, Engine};
use crate::expression::{spec_inherit, Expression, ExprV};
use crate::table::{spec_table_text, table_wf, Table, TableV};
use crate::vocab::DslError;

verus! {

/// Literal pass-through content; ignores the ambient selection entirely.
#[derive(Debug)]
pub struct Text(pub String);

/// A resolved function call: either plain expression evaluation, one
/// selection after another joined by single spaces, or a cross-section
/// table.
#[derive(Debug)]
pub enum Function {
    Expressions(Vec<Expression>),
    Table(Table),
}

/// One scope: its own (partial) selection and the components it owns.
#[derive(Debug)]
pub struct Node {
    pub value: Expression,
    pub children: Vec<Component>,
}

/// The closed union of renderable component kinds.
#[derive(Debug)]
pub enum Component {
    Function(Function),
    Node(Node),
    Text(Text),
}

#[verifier::ext_equal]
pub enum FunctionV {
    Expressions(Seq<ExprV>),
    Table(TableV),
}

#[verifier::ext_equal]
pub struct NodeV {
    pub value: ExprV,
    pub children: Seq<ComponentV>,
}

#[verifier::ext_equal]
pub enum ComponentV {
    Function(FunctionV),
    Node(NodeV),
    Text(Seq<char>),
}

pub open spec fn function_view(f: Function) -> FunctionV {
    match f {
        Function::Expressions(es) => FunctionV::Expressions(es.deep_view()),
        Function::Table(t) => FunctionV::Table(t@),
    }
}

pub open spec fn comp_view(c: Component) -> ComponentV
    decreases c,
{
    match c {
        Component::Function(f) => ComponentV::Function(function_view(f)),
        Component::Node(n) => ComponentV::Node(
            NodeV { value: n.value@, children: comps_view(n.children@) },
        ),
        Component::Text(t) => ComponentV::Text(t.0@),
    }
}

pub open spec fn comps_view(cs: Seq<Component>) -> Seq<ComponentV>
    decreases cs,
{
    if cs.len() == 0 {
        Seq::empty()
    } else {
        comps_view(cs.drop_last()).push(comp_view(cs.last()))
    }
}

impl View for Component {
    type V = ComponentV;

    open spec fn view(&self) -> ComponentV {
        comp_view(*self)
    }
}

impl DeepView for Component {
    type V = ComponentV;

    open spec fn deep_view(&self) -> ComponentV {
        comp_view(*self)
    }
}

impl View for Node {
    type V = NodeV;

    open spec fn view(&self) -> NodeV {
        NodeV { value: self.value@, children: comps_view(self.children@) }
    }
}

impl View for Function {
    type V = FunctionV;

    open spec fn view(&self) -> FunctionV {
        function_view(*self)
    }
}

pub broadcast proof fn lemma_comps_view_index(cs: Seq<Component>, i: int)
    requires
        0 <= i < cs.len(),
    ensures
        comps_view(cs).len() == cs.len(),
        #[trigger] comps_view(cs)[i] == comp_view(cs[i]),
    decreases cs,
{
    lemma_comps_view_len(cs);
    if cs.len() > 0 {
        if i < cs.len() - 1 {
            lemma_comps_view_index(cs.drop_last(), i);
        }
    }
}

pub proof fn lemma_comps_view_len(cs: Seq<Component>)
    ensures
        comps_view(cs).len() == cs.len(),
    decreases cs,
{
    if cs.len() > 0 {
        lemma_comps_view_len(cs.drop_last());
    }
}

/// Every table inside the component names only real calendar days on its
/// axes.
pub open spec fn comp_wf(c: ComponentV) -> bool
    decreases c,
{
    match c {
        ComponentV::Function(FunctionV::Expressions(_)) => true,
        ComponentV::Function(FunctionV::Table(t)) => table_wf(t),
        ComponentV::Node(n) => comps_wf(n.children),
        ComponentV::Text(_) => true,
    }
}

pub open spec fn comps_wf(cs: Seq<ComponentV>) -> bool
    decreases cs,
{
    if cs.len() == 0 {
        true
    } else {
        comps_wf(cs.drop_last()) && comp_wf(cs.last())
    }
}

pub broadcast proof fn lemma_comps_wf_index(cs: Seq<ComponentV>, i: int)
    requires
        0 <= i < cs.len(),
        comps_wf(cs),
    ensures
        comp_wf(#[trigger] cs[i]),
    decreases cs,
{
    if i < cs.len() - 1 {
        lemma_comps_wf_index(cs.drop_last(), i);
    }
}

/// What one selection leaf renders: the selection enriched from the ambient
/// one, evaluated by the engine.
pub open spec fn spec_eval_leaf(e: ExprV, ctx: ExprV, eng: Seq<(ExprV, Seq<char>)>) -> Result<
    Seq<char>,
    DslError,
> {
    spec_evaluate(eng, spec_inherit(e, ctx))
}

/// The tail of a joined expression list: every fragment preceded by one
/// space.
pub open spec fn spec_render_exprs_rest(
    es: Seq<ExprV>,
    ctx: ExprV,
    eng: Seq<(ExprV, Seq<char>)>,
) -> Result<Seq<char>, DslError>
    decreases es.len(),
{
    if es.len() == 0 {
        Ok(Seq::empty())
    } else {
        match spec_eval_leaf(es[0], ctx, eng) {
            Ok(f) => match spec_render_exprs_rest(es.subrange(1, es.len() as int), ctx, eng) {
                Ok(rest) => Ok(" "@ + f + rest),
                Err(e) => Err(e),
            },
            Err(e) => Err(e),
        }
    }
}

/// A whole expression list joined with single spaces; the first failing
/// evaluation is the list's failure.
pub open spec fn spec_render_exprs(es: Seq<ExprV>, ctx: ExprV, eng: Seq<(ExprV, Seq<char>)>) -> Result<
    Seq<char>,
    DslError,
> {
    if es.len() == 0 {
        Ok(Seq::empty())
    } else {
        match spec_eval_leaf(es[0], ctx, eng) {
            Ok(f) => match spec_render_exprs_rest(es.subrange(1, es.len() as int), ctx, eng) {
                Ok(rest) => Ok(f + rest),
                Err(e) => Err(e),
            },
            Err(e) => Err(e),
        }
    }
}

/// What a component renders under an ambient selection: text passes
/// through, a function call joins its evaluated selections, a table renders
/// its grid, and a node inherits unset fields from the ambient selection
/// before rendering its children in order.
pub open spec fn spec_render_comp(c: ComponentV, ctx: ExprV, eng: Seq<(ExprV, Seq<char>)>) -> Result<
    Seq<char>,
    DslError,
>
    decreases c, 1int,
{
    match c {
        ComponentV::Text(t) => Ok(t),
        ComponentV::Function(FunctionV::Expressions(es)) => spec_render_exprs(es, ctx, eng),
        ComponentV::Function(FunctionV::Table(t)) => spec_table_text(t, ctx, eng),
        ComponentV::Node(n) => spec_render_children(n.children, spec_inherit(n.value, ctx), eng),
    }
}

/// The concatenated renders of a child sequence, in order; the first
/// failure aborts.
pub open spec fn spec_render_children(
    cs: Seq<ComponentV>,
    ctx: ExprV,
    eng: Seq<(ExprV, Seq<char>)>,
) -> Result<Seq<char>, DslError>
    decreases cs, 0int,
{
    if cs.len() == 0 {
        Ok(Seq::empty())
    } else {
        match spec_render_comp(cs[0], ctx, eng) {
            Ok(f) => match spec_render_children(cs.subrange(1, cs.len() as int), ctx, eng) {
                Ok(rest) => Ok(f + rest),
                Err(e) => Err(e),
            },
            Err(e) => Err(e),
        }
    }
}

impl Function {
    /// Renders a function call: each selection, enriched from the ambient
    /// one, evaluated in order and joined with single spaces; or the table's
    /// grid.
    pub fn render(&self, ctx: &Expression, engine: &Engine) -> (r: Result<String, DslError>)
        requires
            comp_wf(ComponentV::Function(self@)),
        ensures
            res_str_view(r) == spec_render_comp(ComponentV::Function(self@), ctx@, engine@),
    {
        match self {
            Function::Table(t) => t.render(ctx, engine),
            Function::Expressions(es) => {
                let ghost es_s = es.deep_view();
                let ghost eng = engine@;
                let n = es.len();
                if n == 0 {
                    let out = String::new();
                    return Ok(out);
                }
                assert(es.deep_view()[0] == es@[0].deep_view());
                let mut eff0 = es[0].duplicate();
                eff0.inherit(ctx);
                assert(eff0@ == spec_inherit(es_s[0], ctx@));
                let mut out = match engine.evaluate(&eff0) {
                    Ok(f) => f,
                    Err(e) => {
                        return Err(e);
                    },
                };
                proof {
                    assert(es_s.subrange(1, n as int).len() == n - 1);
                    match spec_render_exprs_rest(es_s.subrange(1, n as int), ctx@, eng) {
                        Ok(rest) => {
                            assert(spec_render_exprs(es_s, ctx@, eng) == Ok::<Seq<char>, DslError>(
                                out@ + rest,
                            ));
                        },
                        Err(_) => {},
                    }
                }
                for i in 1..n
                    invariant
                        n == es.len(),
                        es_s == es.deep_view(),
                        es_s.len() == n,
                        self@ == FunctionV::Expressions(es_s),
                        eng == engine@,
                        ({
                            match spec_render_exprs_rest(es_s.subrange(i as int, n as int), ctx@, eng) {
                                Ok(rest) => spec_render_exprs(es_s, ctx@, eng) == Ok::<
                                    Seq<char>,
                                    DslError,
                                >(out@ + rest),
                                Err(e) => spec_render_exprs(es_s, ctx@, eng) == Err::<
                                    Seq<char>,
                                    DslError,
                                >(e),
                            }
                        }),
                {
                    let ghost sfx = es_s.subrange(i as int, n as int);
                    proof {
                        assert(es.deep_view()[i as int] == es@[i as int].deep_view());
                        assert(sfx[0] == es_s[i as int]);
                        assert(sfx.subrange(1, sfx.len() as int) =~= es_s.subrange(
                            i as int + 1,
                            n as int,
                        ));
                    }
                    let mut eff = es[i].duplicate();
                    eff.inherit(ctx);
                    assert(eff@ == spec_inherit(es_s[i as int], ctx@));
                    match engine.evaluate(&eff) {
                        Ok(f) => {
                            let ghost before = out@;
                            out.append(" ");
                            out.append(f.as_str());
                            proof {
                                match spec_render_exprs_rest(
                                    es_s.subrange(i as int + 1, n as int),
                                    ctx@,
                                    eng,
                                ) {
                                    Ok(rest) => {
                                        assert(spec_render_exprs_rest(sfx, ctx@, eng) == Ok::<
                                            Seq<char>,
                                            DslError,
                                        >(" "@ + f@ + rest));
                                        assert(before + (" "@ + f@ + rest) =~= out@ + rest);
                                    },
                                    Err(e) => {
                                        assert(spec_render_exprs_rest(sfx, ctx@, eng) == Err::<
                                            Seq<char>,
                                            DslError,
                                        >(e));
                                    },
                                }
                            }
                        },
                        Err(e) => {
                            proof {
                                assert(spec_render_exprs_rest(sfx, ctx@, eng) == Err::<
                                    Seq<char>,
                                    DslError,
                                >(e));
                            }
                            return Err(e);
                        },
                    }
                }
                proof {
                    assert(es_s.subrange(n as int, n as int) =~= Seq::<ExprV>::empty());
                    assert(spec_render_exprs_rest(es_s.subrange(n as int, n as int), ctx@, eng)
                        == Ok::<Seq<char>, DslError>(Seq::empty()));
                    assert(out@ + Seq::<char>::empty() =~= out@);
                }
                Ok(out)
            },
        }
    }
}

impl Text {
    /// Literal pass-through: the text itself, whatever the ambient
    /// selection.
    pub fn render(&self, _ctx: &Expression) -> (r: Result<String, DslError>)
        ensures
            r is Ok && r->Ok_0@ == self.0@,
    {
        Ok(self.0.clone())
    }
}

impl Node {
    /// A scope over the given selection, with no children yet.
    pub fn new(value: Expression) -> (r: Node)
        ensures
            r@.value == value@,
            r@.children == Seq::<ComponentV>::empty(),
    {
        let n = Node { value, children: Vec::new() };
        proof {
            assert(n.children@.len() == 0);
        }
        n
    }

    /// Appends one owned child component.
    pub fn add_child(&mut self, child: Component)
        ensures
            final(self)@.value == old(self)@.value,
            final(self)@.children == old(self)@.children.push(child@),
    {
        let ghost old_children = self.children@;
        self.children.push(child);
        proof {
            assert(self.children@.drop_last() =~= old_children);
            assert(self.children@.last() == child);
        }
    }
}

impl Component {
    /// Renders any component under an ambient selection.
    pub fn render(&self, ctx: &Expression, engine: &Engine) -> (r: Result<String, DslError>)
        requires
            comp_wf(self@),
        ensures
            res_str_view(r) == spec_render_comp(self@, ctx@, engine@),
        decreases *self,
    {
        match self {
            Component::Text(t) => {
                let s = t.0.clone();
                Ok(s)
            },
            Component::Function(f) => f.render(ctx, engine),
            Component::Node(n) => n.render(ctx, engine),
        }
    }
}

impl Node {
    /// Renders the scope: unset fields of its selection are inherited from
    /// the ambient one, then every child renders in order under the
    /// enriched selection; the fragments are concatenated and the first
    /// failing child aborts the node.
    pub fn render(&self, ctx: &Expression, engine: &Engine) -> (r: Result<String, DslError>)
        requires
            comps_wf(self@.children),
        ensures
            res_str_view(r) == spec_render_children(
                self@.children,
                spec_inherit(self@.value, ctx@),
                engine@,
            ),
        decreases *self,
    {
        let ghost cs = self@.children;
        let ghost eng = engine@;
        let mut eff = self.value.duplicate();
        eff.inherit(ctx);
        assert(eff@ == spec_inherit(self@.value, ctx@));
        let mut out = String::new();
        let n = self.children.len();
        proof {
            lemma_comps_view_len(self.children@);
            assert(cs.subrange(0, n as int) =~= cs);
            match spec_render_children(cs, eff@, eng) {
                Ok(rest) => {
                    assert(out@ + rest =~= rest);
                },
                Err(_) => {},
            }
        }
        for i in 0..n
            invariant
                n == self.children.len(),
                cs == self@.children,
                cs.len() == n,
                comps_wf(cs),
                eng == engine@,
                eff@ == spec_inherit(self@.value, ctx@),
                ({
                    match spec_render_children(cs.subrange(i as int, n as int), eff@, eng) {
                        Ok(rest) => spec_render_children(cs, eff@, eng) == Ok::<Seq<char>, DslError>(
                            out@ + rest,
                        ),
                        Err(e) => spec_render_children(cs, eff@, eng) == Err::<Seq<char>, DslError>(
                            e,
                        ),
                    }
                }),
        {
            let ghost sfx = cs.subrange(i as int, n as int);
            proof {
                lemma_comps_view_index(self.children@, i as int);
                assert(sfx[0] == cs[i as int]);
                assert(sfx.subrange(1, sfx.len() as int) =~= cs.subrange(i as int + 1, n as int));
                lemma_comps_wf_index(cs, i as int);
            }
            match self.children[i].render(&eff, engine) {
                Ok(f) => {
                    let ghost before = out@;
                    out.append(f.as_str());
                    proof {
                        match spec_render_children(cs.subrange(i as int + 1, n as int), eff@, eng) {
                            Ok(rest) => {
                                assert(spec_render_children(sfx, eff@, eng) == Ok::<
                                    Seq<char>,
                                    DslError,
                                >(f@ + rest));
                                assert(before + (f@ + rest) =~= out@ + rest);
                            },
                            Err(e) => {
                                assert(spec_render_children(sfx, eff@, eng) == Err::<
                                    Seq<char>,
                                    DslError,
                                >(e));
                            },
                        }
                    }
                },
                Err(e) => {
                    proof {
                        assert(spec_render_children(sfx, eff@, eng) == Err::<Seq<char>, DslError>(
                            e,
                        ));
                    }
                    return Err(e);
                },
            }
        }
        proof {
            assert(cs.subrange(n as int, n as int) =~= Seq::<ComponentV>::empty());
            assert(spec_render_children(cs.subrange(n as int, n as int), eff@, eng) == Ok::<
                Seq<char>,
                DslError,
            >(Seq::empty()));
            assert(out@ + Seq::<char>::empty() =~= out@);
        }
        Ok(out)
    }
}

} // verus!
