//! The library's global laws, each proved once and for all: resolution
//! priority, the set-once discipline of selections, inheritance that never
//! overwrites, the shape of a rendered table, row-over-column cell
//! precedence, and block replication.

use vstd::prelude::*;

use crate::arg::{seq_contains_str, spec_resolve_bare, Arg, ArgGroupV, ArgV, RegistryV};
use crate::clause::{spec_lower, spec_lower_list, ClauseV};
use crate::expand::spec_expand;
use crate::expression::{expr_empty, spec_fill_arg, spec_inherit, ExprV};
use crate::table::{
    spec_cell_selection, spec_concat_frags, spec_header_frags, spec_row_frag, spec_row_frags,
    spec_seps, spec_table_text, TableV,
};
use crate::tree::{spec_render_children, spec_render_comp, ComponentV, NodeV};
use crate::vocab::{spec_parse_date, spec_parse_display, spec_parse_frequency, DslError};

verus! {

/// Resolution priority: a bare token valid under several variants always
/// resolves to the highest-priority one — command over function over
/// frequency over data-series name over date over display style.
pub proof fn lemma_resolution_priority(reg: RegistryV, s: Seq<char>)
    ensures
        seq_contains_str(reg.commands, s) ==> spec_resolve_bare(reg, s) == Ok::<ArgV, DslError>(
            ArgV::Command(s),
        ),
        !seq_contains_str(reg.commands, s) && seq_contains_str(reg.functions, s)
            ==> spec_resolve_bare(reg, s) == Ok::<ArgV, DslError>(ArgV::Function(s)),
        !seq_contains_str(reg.commands, s) && !seq_contains_str(reg.functions, s)
            && spec_parse_frequency(s) is Some ==> spec_resolve_bare(reg, s) == Ok::<
            ArgV,
            DslError,
        >(ArgV::TimeFrequency(spec_parse_frequency(s)->Some_0)),
        !seq_contains_str(reg.commands, s) && !seq_contains_str(reg.functions, s)
            && spec_parse_frequency(s) is None && seq_contains_str(reg.data_names, s)
            ==> spec_resolve_bare(reg, s) == Ok::<ArgV, DslError>(ArgV::DataName(s)),
        !seq_contains_str(reg.commands, s) && !seq_contains_str(reg.functions, s)
            && spec_parse_frequency(s) is None && !seq_contains_str(reg.data_names, s)
            && spec_parse_date(s) is Some ==> spec_resolve_bare(reg, s) == Ok::<ArgV, DslError>(
            ArgV::Date(spec_parse_date(s)->Some_0),
        ),
        !seq_contains_str(reg.commands, s) && !seq_contains_str(reg.functions, s)
            && spec_parse_frequency(s) is None && !seq_contains_str(reg.data_names, s)
            && spec_parse_date(s) is None && spec_parse_display(s) is Some ==> spec_resolve_bare(
            reg,
            s,
        ) == Ok::<ArgV, DslError>(ArgV::RenderContext(spec_parse_display(s)->Some_0)),
{
}

/// Set-once: filling an already-set field, with whatever argument, leaves
/// every set field's value unchanged.
pub proof fn lemma_fill_set_once(e: ExprV, a: ArgV)
    ensures
        e.command is Some ==> spec_fill_arg(e, a).command == e.command,
        e.frequency is Some ==> spec_fill_arg(e, a).frequency == e.frequency,
        e.data_name is Some ==> spec_fill_arg(e, a).data_name == e.data_name,
        e.date is Some ==> spec_fill_arg(e, a).date == e.date,
        e.display_type is Some ==> spec_fill_arg(e, a).display_type == e.display_type,
{
}

/// Inheritance never overwrites: a field the selection set keeps its value
/// under any ambient selection, and rendering a scope node is exactly
/// rendering its children under that inherited selection.
pub proof fn lemma_inheritance_non_overwrite(n: NodeV, ctx: ExprV, eng: Seq<(ExprV, Seq<char>)>)
    ensures
        spec_render_comp(ComponentV::Node(n), ctx, eng) == spec_render_children(
            n.children,
            spec_inherit(n.value, ctx),
            eng,
        ),
        n.value.command is Some ==> spec_inherit(n.value, ctx).command == n.value.command,
        n.value.frequency is Some ==> spec_inherit(n.value, ctx).frequency == n.value.frequency,
        n.value.data_name is Some ==> spec_inherit(n.value, ctx).data_name == n.value.data_name,
        n.value.date is Some ==> spec_inherit(n.value, ctx).date == n.value.date,
        n.value.display_type is Some ==> spec_inherit(n.value, ctx).display_type
            == n.value.display_type,
{
}

/// One body fragment per row variable, each opening with its row heading.
proof fn lemma_row_frags_shape(
    base: ExprV,
    rows: Seq<ArgV>,
    cols: Seq<ArgV>,
    eng: Seq<(ExprV, Seq<char>)>,
    fs: Seq<Seq<char>>,
)
    requires
        spec_row_frags(base, rows, cols, eng) == Ok::<Seq<Seq<char>>, DslError>(fs),
    ensures
        fs.len() == rows.len(),
        forall|i: int|
            0 <= i < rows.len() ==> row_frag_heads(#[trigger] fs[i], rows[i]),
    decreases rows.len(),
{
    if rows.len() > 0 {
        let f = spec_row_frag(base, rows[0], cols, eng)->Ok_0;
        let rest = rows.subrange(1, rows.len() as int);
        let fs2 = spec_row_frags(base, rest, cols, eng)->Ok_0;
        lemma_row_frags_shape(base, rest, cols, eng, fs2);
        assert(fs == seq![f] + fs2);
        assert forall|i: int| 0 <= i < rows.len() implies row_frag_heads(
            #[trigger] fs[i],
            rows[i],
        ) by {
            if i == 0 {
                let c = crate::table::spec_cells(spec_fill_arg(base, rows[0]), cols, eng)->Ok_0;
                let p = "\n| "@ + Arg::spec_text(rows[0]) + " |"@;
                assert(fs[0] == f);
                assert(f == p + c);
                assert((p + c).subrange(0, p.len() as int) =~= p);
            } else {
                assert(fs[i] == fs2[i - 1]);
                assert(rest[i - 1] == rows[i]);
            }
        }
    }
}

/// The fragment opens with the row's heading cell.
pub open spec fn row_frag_heads(f: Seq<char>, row: ArgV) -> bool {
    let p = "\n| "@ + Arg::spec_text(row) + " |"@;
    f.len() >= p.len() && f.subrange(0, p.len() as int) == p
}

/// Exactly `n` separator cells take six characters each.
proof fn lemma_seps_len(n: int)
    requires
        n >= 0,
    ensures
        spec_seps(n).len() == 6 * n,
    decreases n,
{
    reveal_strlit(" --- |");
    if n > 0 {
        lemma_seps_len(n - 1);
    }
}

/// Table shape: a successfully rendered table is the corner-and-headings
/// row with one heading cell per column variable, one separator row with
/// exactly one cell — six characters — per column plus one for the corner,
/// and one body fragment per row variable, each opening with its row
/// heading.
pub proof fn lemma_table_shape(
    t: TableV,
    ctx: ExprV,
    eng: Seq<(ExprV, Seq<char>)>,
    fs: Seq<Seq<char>>,
)
    requires
        spec_row_frags(spec_inherit(t.ctx, ctx), t.rows, t.cols, eng) == Ok::<
            Seq<Seq<char>>,
            DslError,
        >(fs),
    ensures
        spec_table_text(t, ctx, eng) == Ok::<Seq<char>, DslError>(
            "\n| _ |"@ + spec_concat_frags(spec_header_frags(t.cols)) + "\n|"@ + spec_seps(
                t.cols.len() as int + 1,
            ) + spec_concat_frags(fs) + "\n"@,
        ),
        spec_header_frags(t.cols).len() == t.cols.len(),
        spec_seps(t.cols.len() as int + 1).len() == 6 * (t.cols.len() + 1),
        fs.len() == t.rows.len(),
        forall|i: int| 0 <= i < t.rows.len() ==> row_frag_heads(#[trigger] fs[i], t.rows[i]),
{
    lemma_seps_len(t.cols.len() as int + 1);
    lemma_row_frags_shape(spec_inherit(t.ctx, ctx), t.rows, t.cols, eng, fs);
}

/// Cell merge precedence: a field the row variable set is never overridden
/// by the column variable in the same cell.
pub proof fn lemma_table_cell_precedence(base: ExprV, row: ArgV, col: ArgV)
    ensures
        spec_fill_arg(base, row).command is Some ==> spec_cell_selection(base, row, col).command
            == spec_fill_arg(base, row).command,
        spec_fill_arg(base, row).frequency is Some ==> spec_cell_selection(base, row, col).frequency
            == spec_fill_arg(base, row).frequency,
        spec_fill_arg(base, row).data_name is Some ==> spec_cell_selection(base, row, col).data_name
            == spec_fill_arg(base, row).data_name,
        spec_fill_arg(base, row).date is Some ==> spec_cell_selection(base, row, col).date
            == spec_fill_arg(base, row).date,
        spec_fill_arg(base, row).display_type is Some ==> spec_cell_selection(
            base,
            row,
            col,
        ).display_type == spec_fill_arg(base, row).display_type,
{
    lemma_fill_set_once(spec_fill_arg(base, row), col);
}

/// An empty selection inherits the ambient one whole.
pub proof fn lemma_inherit_empty(ctx: ExprV)
    ensures
        spec_inherit(expr_empty(), ctx) == ctx,
{
    assert(spec_inherit(expr_empty(), ctx) =~= ctx);
}

/// Block replication: a block whose own groups expand to N selections
/// lowers to a scope node with exactly N replicas of the once-lowered child
/// subtree — the i-th replica a node carrying the i-th selection — and
/// rendering that node renders the replicas in declared order under the
/// untouched ambient selection.
pub proof fn lemma_block_replication(
    gs: Seq<ArgGroupV>,
    cls: Seq<ClauseV>,
    ctx: ExprV,
    eng: Seq<(ExprV, Seq<char>)>,
    sels: Seq<ExprV>,
    children: Seq<ComponentV>,
)
    requires
        spec_expand(gs) == Ok::<Seq<ExprV>, DslError>(sels),
        spec_lower_list(cls) == Ok::<Seq<ComponentV>, DslError>(children),
    ensures
        ({
            let replicas = Seq::new(
                sels.len(),
                |i: int| ComponentV::Node(NodeV { value: sels[i], children: children }),
            );
            &&& spec_lower(ClauseV::Block(gs, cls)) == Ok::<ComponentV, DslError>(
                ComponentV::Node(NodeV { value: expr_empty(), children: replicas }),
            )
            &&& replicas.len() == sels.len()
            &&& forall|i: int|
                0 <= i < sels.len() ==> #[trigger] replicas[i] == ComponentV::Node(
                    NodeV { value: sels[i], children: children },
                )
            &&& spec_render_comp(
                ComponentV::Node(NodeV { value: expr_empty(), children: replicas }),
                ctx,
                eng,
            ) == spec_render_children(replicas, ctx, eng)
        }),
{
    lemma_inherit_empty(ctx);
}

} // verus!
