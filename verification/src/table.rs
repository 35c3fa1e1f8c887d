//! The cross-section table: two independent ordered axes of argument
//! variables over one shared base selection. Every cell is evaluated under
//! `base ⊕ row ⊕ col`, where `⊕` sets a field only if the left operand left
//! it unset — the row merge happens first, so a column variable never
//! supersedes a field the row variable set. A single failing cell aborts the
//! whole table.

use vstd::prelude::*;

use crate::arg::{arg_wf, Arg, ArgV};
use crate::engine::{res_str_view, spec_evaluate, Engine};
use crate::expression::{spec_fill_arg, spec_inherit, Expression, ExprV};
use crate::vocab::DslError;

verus! {

/// A two-dimensional cross-section: one argument variable per row and per
/// column, merged into the shared base selection cell by cell.
#[derive(Debug)]
pub struct Table {
    pub rows: Vec<Arg>,
    pub cols: Vec<Arg>,
    pub ctx: Expression,
}

#[verifier::ext_equal]
pub struct TableV {
    pub rows: Seq<ArgV>,
    pub cols: Seq<ArgV>,
    pub ctx: ExprV,
}

impl View for Table {
    type V = TableV;

    open spec fn view(&self) -> TableV {
        TableV { rows: self.rows.deep_view(), cols: self.cols.deep_view(), ctx: self.ctx@ }
    }
}

impl DeepView for Table {
    type V = TableV;

    open spec fn deep_view(&self) -> TableV {
        self.view()
    }
}

/// Every axis variable of the table names a real calendar day when it is a
/// date.
pub open spec fn table_wf(t: TableV) -> bool {
    &&& forall|i: int| 0 <= i < t.rows.len() ==> arg_wf(#[trigger] t.rows[i])
    &&& forall|i: int| 0 <= i < t.cols.len() ==> arg_wf(#[trigger] t.cols[i])
}

/// The selection one cell is evaluated under: the base, then the row
/// variable where still unset, then the column variable where still unset.
pub open spec fn spec_cell_selection(base: ExprV, row: ArgV, col: ArgV) -> ExprV {
    spec_fill_arg(spec_fill_arg(base, row), col)
}

/// The concatenation of a sequence of text fragments, in order.
pub open spec fn spec_concat_frags(fs: Seq<Seq<char>>) -> Seq<char>
    decreases fs.len(),
{
    if fs.len() == 0 {
        Seq::empty()
    } else {
        fs[0] + spec_concat_frags(fs.subrange(1, fs.len() as int))
    }
}

/// One header cell per column variable, in declared order.
pub open spec fn spec_header_frags(cols: Seq<ArgV>) -> Seq<Seq<char>> {
    Seq::new(cols.len(), |i: int| " "@ + Arg::spec_text(cols[i]) + " |"@)
}

/// Exactly `n` separator cells.
pub open spec fn spec_seps(n: int) -> Seq<char>
    decreases n,
{
    if n <= 0 {
        Seq::empty()
    } else {
        " --- |"@ + spec_seps(n - 1)
    }
}

/// The cells of one body row, left to right; the first failing cell is the
/// row's failure.
pub open spec fn spec_cells(rowsel: ExprV, cols: Seq<ArgV>, eng: Seq<(ExprV, Seq<char>)>) -> Result<
    Seq<char>,
    DslError,
> decreases cols.len() {
    if cols.len() == 0 {
        Ok(Seq::empty())
    } else {
        match spec_evaluate(eng, spec_fill_arg(rowsel, cols[0])) {
            Ok(fig) => match spec_cells(rowsel, cols.subrange(1, cols.len() as int), eng) {
                Ok(rest) => Ok(" "@ + fig + " |"@ + rest),
                Err(e) => Err(e),
            },
            Err(e) => Err(e),
        }
    }
}

/// One body row: its heading, then its cells.
pub open spec fn spec_row_frag(
    base: ExprV,
    row: ArgV,
    cols: Seq<ArgV>,
    eng: Seq<(ExprV, Seq<char>)>,
) -> Result<Seq<char>, DslError> {
    match spec_cells(spec_fill_arg(base, row), cols, eng) {
        Ok(cells) => Ok("\n| "@ + Arg::spec_text(row) + " |"@ + cells),
        Err(e) => Err(e),
    }
}

/// One fragment per row variable, in declared order; the first failing row
/// is the table's failure.
pub open spec fn spec_row_frags(
    base: ExprV,
    rows: Seq<ArgV>,
    cols: Seq<ArgV>,
    eng: Seq<(ExprV, Seq<char>)>,
) -> Result<Seq<Seq<char>>, DslError>
    decreases rows.len(),
{
    if rows.len() == 0 {
        Ok(Seq::empty())
    } else {
        match spec_row_frag(base, rows[0], cols, eng) {
            Ok(f) => match spec_row_frags(base, rows.subrange(1, rows.len() as int), cols, eng) {
                Ok(fs) => Ok(seq![f] + fs),
                Err(e) => Err(e),
            },
            Err(e) => Err(e),
        }
    }
}

/// The whole rendered table: the corner cell and column headings, one
/// separator row with one cell per column plus one for the corner, then one
/// body row per row variable.
pub open spec fn spec_table_text(t: TableV, ambient: ExprV, eng: Seq<(ExprV, Seq<char>)>) -> Result<
    Seq<char>,
    DslError,
> {
    let base = spec_inherit(t.ctx, ambient);
    match spec_row_frags(base, t.rows, t.cols, eng) {
        Ok(fs) => Ok(
            "\n| _ |"@ + spec_concat_frags(spec_header_frags(t.cols)) + "\n|"@ + spec_seps(
                t.cols.len() as int + 1,
            ) + spec_concat_frags(fs) + "\n"@,
        ),
        Err(e) => Err(e),
    }
}

/// Concatenation distributes over appending one fragment at the end.
pub proof fn lemma_concat_frags_snoc(fs: Seq<Seq<char>>, f: Seq<char>)
    ensures
        spec_concat_frags(fs.push(f)) == spec_concat_frags(fs) + f,
    decreases fs.len(),
{
    if fs.len() == 0 {
        assert(fs.push(f)[0] == f);
        assert(fs.push(f).subrange(1, 1) =~= Seq::<Seq<char>>::empty());
        assert(spec_concat_frags(fs.push(f)) == f + spec_concat_frags(
            Seq::<Seq<char>>::empty(),
        ));
        assert(f + Seq::<char>::empty() =~= f);
        assert(spec_concat_frags(fs) + f =~= f);
    } else {
        assert(fs.push(f)[0] == fs[0]);
        assert(fs.push(f).subrange(1, fs.len() as int + 1) =~= fs.subrange(
            1,
            fs.len() as int,
        ).push(f));
        lemma_concat_frags_snoc(fs.subrange(1, fs.len() as int), f);
        assert(fs[0] + (spec_concat_frags(fs.subrange(1, fs.len() as int)) + f) =~= (fs[0]
            + spec_concat_frags(fs.subrange(1, fs.len() as int))) + f);
    }
}

/// One more separator cell lands at the end.
proof fn lemma_seps_snoc(n: int)
    requires
        n >= 0,
    ensures
        spec_seps(n + 1) == spec_seps(n) + " --- |"@,
    decreases n,
{
    if n == 0 {
        assert(spec_seps(1) == " --- |"@ + spec_seps(0));
        assert(" --- |"@ + Seq::<char>::empty() =~= " --- |"@);
        assert(Seq::<char>::empty() + " --- |"@ =~= " --- |"@);
    } else {
        lemma_seps_snoc(n - 1);
        assert(" --- |"@ + (spec_seps(n - 1) + " --- |"@) =~= (" --- |"@ + spec_seps(n - 1))
            + " --- |"@);
    }
}

impl Table {
    /// A table over the given row axis, column axis and base selection.
    pub fn new(rows: Vec<Arg>, cols: Vec<Arg>, ctx: Expression) -> (r: Table)
        ensures
            r@ == (TableV { rows: rows.deep_view(), cols: cols.deep_view(), ctx: ctx@ }),
    {
        Table { rows, cols, ctx }
    }

    /// Renders the markdown-style grid: headings from the column axis, one
    /// body row per row-axis entry, each cell evaluated under
    /// `base ⊕ row ⊕ col`. Any failing cell aborts the whole table.
    pub fn render(&self, ambient: &Expression, engine: &Engine) -> (r: Result<String, DslError>)
        requires
            table_wf(self@),
        ensures
            res_str_view(r) == spec_table_text(self@, ambient@, engine@),
    {
        let ghost base_s = spec_inherit(self@.ctx, ambient@);
        let mut base = self.ctx.duplicate();
        base.inherit(ambient);
        assert(base@ == base_s);

        let mut out = String::new();
        out.append("\n| _ |");
        let cn = self.cols.len();
        for k in 0..cn
            invariant
                cn == self.cols.len(),
                table_wf(self@),
                out@ == "\n| _ |"@ + spec_concat_frags(
                    spec_header_frags(self@.cols).subrange(0, k as int),
                ),
        {
            let ghost hf = spec_header_frags(self@.cols);
            out.append(" ");
            assert(self.cols.deep_view()[k as int] == self.cols@[k as int].deep_view());
            assert(arg_wf(self.cols@[k as int]@));
            let t = self.cols[k].text();
            out.append(t.as_str());
            out.append(" |");
            proof {
                assert(self.cols.deep_view()[k as int] == self.cols@[k as int].deep_view());
                lemma_concat_frags_snoc(hf.subrange(0, k as int), hf[k as int]);
                assert(hf.subrange(0, k as int).push(hf[k as int]) =~= hf.subrange(0, k as int + 1));
                assert(out@ =~= "\n| _ |"@ + spec_concat_frags(hf.subrange(0, k as int + 1)));
            }
        }
        proof {
            assert(spec_header_frags(self@.cols).subrange(0, cn as int) =~= spec_header_frags(
                self@.cols,
            ));
        }
        out.append("\n|");
        let ghost sep_prefix = out@;
        out.append(" --- |");
        proof {
            assert(spec_seps(0) == Seq::<char>::empty());
            assert(" --- |"@ + Seq::<char>::empty() =~= " --- |"@);
            assert(out@ =~= sep_prefix + spec_seps(1));
        }
        for k in 0..cn
            invariant
                cn == self.cols.len(),
                out@ == sep_prefix + spec_seps(k as int + 1),
        {
            out.append(" --- |");
            proof {
                lemma_seps_snoc(k as int + 1);
                assert(out@ =~= sep_prefix + spec_seps(k as int + 2));
            }
        }
        let ghost body_prefix = out@;

        let rn = self.rows.len();
        let ghost rows_s = self@.rows;
        let ghost cols_s = self@.cols;
        let ghost eng = engine@;
        let ghost mut done: Seq<Seq<char>> = Seq::empty();
        proof {
            assert(rows_s.subrange(0, rn as int) =~= rows_s);
            assert(out@ =~= body_prefix + spec_concat_frags(done));
            match spec_row_frags(base_s, rows_s, cols_s, eng) {
                Ok(fs) => {
                    assert(done + fs =~= fs);
                },
                Err(_) => {},
            }
        }
        for i in 0..rn
            invariant
                rn == self.rows.len(),
                cn == self.cols.len(),
                rows_s == self@.rows,
                cols_s == self@.cols,
                rows_s.len() == rn as int,
                cols_s.len() == cn as int,
                eng == engine@,
                base@ == base_s,
                base_s == spec_inherit(self@.ctx, ambient@),
                table_wf(self@),
                done.len() == i,
                out@ == body_prefix + spec_concat_frags(done),
                ({
                    match spec_row_frags(base_s, rows_s.subrange(i as int, rn as int), cols_s, eng) {
                        Ok(fs) => spec_row_frags(base_s, rows_s, cols_s, eng) == Ok::<Seq<Seq<char>>, DslError>(done + fs),
                        Err(e) => spec_row_frags(base_s, rows_s, cols_s, eng) == Err::<
                            Seq<Seq<char>>,
                            DslError,
                        >(e),
                    }
                }),
        {
            let ghost row_suffix = rows_s.subrange(i as int, rn as int);
            proof {
                assert(self.rows.deep_view()[i as int] == self.rows@[i as int].deep_view());
                assert(row_suffix[0] == rows_s[i as int]);
                assert(row_suffix.subrange(1, row_suffix.len() as int) =~= rows_s.subrange(
                    i as int + 1,
                    rn as int,
                ));
            }
            let mut rowsel = base.duplicate();
            rowsel.fill_arg(self.rows[i].duplicate());
            assert(rowsel@ == spec_fill_arg(base_s, rows_s[i as int]));

            let mut rowstr = String::from_str("\n| ");
            assert(arg_wf(self.rows@[i as int]@));
            let rt = self.rows[i].text();
            rowstr.append(rt.as_str());
            rowstr.append(" |");
            let ghost cell_prefix = rowstr@;
            assert(cell_prefix == "\n| "@ + Arg::spec_text(rows_s[i as int]) + " |"@);
            proof {
                assert(cols_s.subrange(0, cn as int) =~= cols_s);
                assert(rowstr@.subrange(0, cell_prefix.len() as int) =~= cell_prefix);
                assert(rowstr@.subrange(cell_prefix.len() as int, rowstr@.len() as int)
                    =~= Seq::<char>::empty());
                match spec_cells(rowsel@, cols_s, eng) {
                    Ok(rest) => {
                        assert(Seq::<char>::empty() + rest =~= rest);
                    },
                    Err(_) => {},
                }
            }

            for k in 0..cn
                invariant
                    cn == self.cols.len(),
                    rn == self.rows.len(),
                    cols_s == self@.cols,
                    cols_s.len() == cn as int,
                    0 <= i < rn,
                    rows_s == self@.rows,
                    rows_s.len() == rn as int,
                    table_wf(self@),
                    rowsel@ == spec_fill_arg(base_s, rows_s[i as int]),
                    eng == engine@,
                    base_s == spec_inherit(self@.ctx, ambient@),
                    ({
                        match spec_row_frags(
                            base_s,
                            rows_s.subrange(i as int, rn as int),
                            cols_s,
                            eng,
                        ) {
                            Ok(fs) => spec_row_frags(base_s, rows_s, cols_s, eng) == Ok::<
                                Seq<Seq<char>>,
                                DslError,
                            >(done + fs),
                            Err(e) => spec_row_frags(base_s, rows_s, cols_s, eng) == Err::<
                                Seq<Seq<char>>,
                                DslError,
                            >(e),
                        }
                    }),
                    ({
                        match spec_cells(rowsel@, cols_s.subrange(k as int, cn as int), eng) {
                            Ok(rest) => spec_cells(rowsel@, cols_s, eng) == Ok::<
                                Seq<char>,
                                DslError,
                            >(
                                rowstr@.subrange(cell_prefix.len() as int, rowstr@.len() as int)
                                    + rest,
                            ),
                            Err(e) => spec_cells(rowsel@, cols_s, eng) == Err::<Seq<char>, DslError>(
                                e,
                            ),
                        }
                    }),
                    rowstr@.subrange(0, cell_prefix.len() as int) == cell_prefix,
                    rowstr@.len() >= cell_prefix.len(),
            {
                let ghost col_suffix = cols_s.subrange(k as int, cn as int);
                proof {
                    assert(self.cols.deep_view()[k as int] == self.cols@[k as int].deep_view());
                    assert(col_suffix[0] == cols_s[k as int]);
                    assert(col_suffix.subrange(1, col_suffix.len() as int) =~= cols_s.subrange(
                        k as int + 1,
                        cn as int,
                    ));
                }
                let mut cellsel = rowsel.duplicate();
                cellsel.fill_arg(self.cols[k].duplicate());
                assert(cellsel@ == spec_fill_arg(rowsel@, cols_s[k as int]));
                match engine.evaluate(&cellsel) {
                    Ok(fig) => {
                        let ghost before = rowstr@;
                        rowstr.append(" ");
                        rowstr.append(fig.as_str());
                        rowstr.append(" |");
                        proof {
                            assert(rowstr@ =~= before + (" "@ + fig@ + " |"@));
                            assert(rowstr@.subrange(0, cell_prefix.len() as int) =~= cell_prefix);
                            let old_tail = before.subrange(
                                cell_prefix.len() as int,
                                before.len() as int,
                            );
                            let new_tail = rowstr@.subrange(
                                cell_prefix.len() as int,
                                rowstr@.len() as int,
                            );
                            assert(new_tail =~= old_tail + (" "@ + fig@ + " |"@));
                            match spec_cells(
                                rowsel@,
                                cols_s.subrange(k as int + 1, cn as int),
                                eng,
                            ) {
                                Ok(rest) => {
                                    assert(old_tail + (" "@ + fig@ + " |"@ + rest) =~= new_tail
                                        + rest);
                                },
                                Err(_) => {},
                            }
                        }
                    },
                    Err(e) => {
                        proof {
                            assert(spec_cells(rowsel@, col_suffix, eng) == Err::<Seq<char>, DslError>(
                                e,
                            ));
                            assert(spec_cells(rowsel@, cols_s, eng) == Err::<Seq<char>, DslError>(e));
                            assert(spec_row_frag(base_s, rows_s[i as int], cols_s, eng) == Err::<
                                Seq<char>,
                                DslError,
                            >(e));
                            let rsfx = rows_s.subrange(i as int, rn as int);
                            assert(rsfx.len() == rn - i);
                            assert(rsfx[0] == rows_s[i as int]);
                            assert(spec_row_frags(base_s, rsfx, cols_s, eng) == Err::<
                                Seq<Seq<char>>,
                                DslError,
                            >(e));
                        }
                        return Err(e);
                    },
                }
            }
            proof {
                assert(cols_s.subrange(cn as int, cn as int) =~= Seq::<ArgV>::empty());
                assert(spec_cells(rowsel@, cols_s.subrange(cn as int, cn as int), eng) == Ok::<
                    Seq<char>,
                    DslError,
                >(Seq::empty()));
                let tail = rowstr@.subrange(cell_prefix.len() as int, rowstr@.len() as int);
                assert(tail + Seq::<char>::empty() =~= tail);
                assert(spec_cells(rowsel@, cols_s, eng) == Ok::<Seq<char>, DslError>(tail));
                assert(rowstr@ =~= cell_prefix + tail);
                assert(spec_row_frag(base_s, rows_s[i as int], cols_s, eng) == Ok::<
                    Seq<char>,
                    DslError,
                >(rowstr@));
            }
            out.append(rowstr.as_str());
            proof {
                let old_done = done;
                lemma_concat_frags_snoc(old_done, rowstr@);
                done = done.push(rowstr@);
                assert(out@ =~= body_prefix + spec_concat_frags(done));
                assert(row_suffix.len() == rn - i);
                assert(row_suffix[0] == rows_s[i as int]);
                assert(row_suffix.subrange(1, row_suffix.len() as int) =~= rows_s.subrange(
                    i as int + 1,
                    rn as int,
                ));
                match spec_row_frags(base_s, rows_s.subrange(i as int + 1, rn as int), cols_s, eng) {
                    Ok(fs) => {
                        assert(spec_row_frags(base_s, row_suffix, cols_s, eng) == Ok::<
                            Seq<Seq<char>>,
                            DslError,
                        >(seq![rowstr@] + fs));
                        assert(old_done + (seq![rowstr@] + fs) =~= done + fs);
                    },
                    Err(e) => {
                        assert(spec_row_frags(base_s, row_suffix, cols_s, eng) == Err::<
                            Seq<Seq<char>>,
                            DslError,
                        >(e));
                    },
                }
            }
        }
        proof {
            assert(rows_s.subrange(rn as int, rn as int) =~= Seq::<ArgV>::empty());
            assert(spec_row_frags(base_s, rows_s, cols_s, eng) == Ok::<Seq<Seq<char>>, DslError>(
                done,
            ));
        }
        out.append("\n");
        proof {
            assert(out@ =~= spec_table_text(self@, ambient@, engine@)->Ok_0);
        }
        Ok(out)
    }
}

} // verus!
