//! The external calculation engine as the core sees it: an opaque,
//! synchronous, fallible call from a fully-merged selection to a rendered
//! figure. The engine is injected as a finite table of pre-computed figures,
//! so evaluation is an exact first-match lookup: idempotent given the same
//! table, failing precisely when the table holds no figure for the selection.

use vstd::prelude::*;

use crate::expression::{expr_eq, Expression, ExprV};
use crate::vocab::DslError;

verus! {

/// A calculation engine snapshot: one rendered figure per selection it can
/// evaluate.
#[derive(Debug)]
pub struct Engine {
    pub entries: Vec<(Expression, String)>,
}

impl View for Engine {
    type V = Seq<(ExprV, Seq<char>)>;

    open spec fn view(&self) -> Seq<(ExprV, Seq<char>)> {
        Seq::new(self.entries@.len(), |i: int| (self.entries@[i].0@, self.entries@[i].1@))
    }
}

/// A rendered-or-failed result seen as its mathematical shape.
pub open spec fn res_str_view(r: Result<String, DslError>) -> Result<Seq<char>, DslError> {
    match r {
        Ok(s) => Ok(s@),
        Err(e) => Err(e),
    }
}

/// The figure of the first entry whose selection equals the query, if any.
pub open spec fn spec_lookup(entries: Seq<(ExprV, Seq<char>)>, sel: ExprV) -> Option<Seq<char>>
    decreases entries.len(),
{
    if entries.len() == 0 {
        None
    } else if expr_eq(entries[0].0, sel) {
        Some(entries[0].1)
    } else {
        spec_lookup(entries.subrange(1, entries.len() as int), sel)
    }
}

/// What evaluation returns: the looked-up figure; `UnknownCommand` when the
/// selection reaches the engine with no command; `CalcError` when the engine
/// has no figure for it.
pub open spec fn spec_evaluate(entries: Seq<(ExprV, Seq<char>)>, sel: ExprV) -> Result<
    Seq<char>,
    DslError,
> {
    if sel.command is None {
        Err(DslError::UnknownCommand)
    } else {
        match spec_lookup(entries, sel) {
            Some(fig) => Ok(fig),
            None => Err(DslError::CalcError),
        }
    }
}

/// When no entry matches, the lookup is `None`.
proof fn lemma_lookup_none(entries: Seq<(ExprV, Seq<char>)>, sel: ExprV)
    requires
        forall|j: int| 0 <= j < entries.len() ==> !expr_eq(entries[j].0, sel),
    ensures
        spec_lookup(entries, sel) is None,
    decreases entries.len(),
{
    if entries.len() > 0 {
        lemma_lookup_none(entries.subrange(1, entries.len() as int), sel);
    }
}

/// When entry `i` matches and no earlier entry does, the lookup returns
/// entry `i`'s figure.
proof fn lemma_lookup_hit(entries: Seq<(ExprV, Seq<char>)>, sel: ExprV, i: int)
    requires
        0 <= i < entries.len(),
        expr_eq(entries[i].0, sel),
        forall|j: int| 0 <= j < i ==> !expr_eq(entries[j].0, sel),
    ensures
        spec_lookup(entries, sel) == Some(entries[i].1),
    decreases i,
{
    if i > 0 {
        lemma_lookup_hit(entries.subrange(1, entries.len() as int), sel, i - 1);
    }
}

impl Engine {
    pub fn new(entries: Vec<(Expression, String)>) -> (r: Engine)
        ensures
            r@.len() == entries@.len(),
            forall|i: int|
                0 <= i < entries@.len() ==> r@[i] == (entries@[i].0@, entries@[i].1@),
    {
        Engine { entries }
    }

    /// Evaluates a selection: the figure of the first entry whose selection
    /// equals it, `UnknownCommand` for a command-less selection, `CalcError`
    /// when no entry matches.
    pub fn evaluate(&self, sel: &Expression) -> (r: Result<String, DslError>)
        ensures
            match r {
                Ok(fig) => spec_evaluate(self@, sel@) == Ok::<Seq<char>, DslError>(fig@),
                Err(e) => spec_evaluate(self@, sel@) == Err::<Seq<char>, DslError>(e),
            },
    {
        if sel.command.is_none() {
            return Err(DslError::UnknownCommand);
        }
        let n = self.entries.len();
        for i in 0..n
            invariant
                n == self.entries.len(),
                sel.command is Some,
                forall|j: int| 0 <= j < i ==> !expr_eq(self@[j].0, sel@),
        {
            if self.entries[i].0.equals(sel) {
                proof {
                    lemma_lookup_hit(self@, sel@, i as int);
                }
                return Ok(self.entries[i].1.clone());
            }
            assert(self@[i as int].0 == self.entries@[i as int].0@);
        }
        proof {
            lemma_lookup_none(self@, sel@);
        }
        Err(DslError::CalcError)
    }
}

} // verus!
