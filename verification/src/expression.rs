//! The Selection: the mutable bag of optional fields — command, frequency,
//! data-series name, date, display style — under which a figure is computed.
//! A field, once set, is never overwritten: every fill and every inheritance
//! step is a no-op on an already-set field.

use vstd::prelude::*;

use crate::arg::{Arg, ArgV};
use crate::vocab::{str_eq, Date, RenderContext, TimeFrequency};

verus! {

/// The resolved set of parameters a figure is computed under.
#[derive(Debug)]
pub struct Expression {
    pub command: Option<String>,
    pub frequency: Option<TimeFrequency>,
    pub data_name: Option<String>,
    pub date: Option<Date>,
    pub display_type: Option<RenderContext>,
}

/// The mathematical shape of an [`Expression`].
#[verifier::ext_equal]
pub struct ExprV {
    pub command: Option<Seq<char>>,
    pub frequency: Option<TimeFrequency>,
    pub data_name: Option<Seq<char>>,
    pub date: Option<Date>,
    pub display_type: Option<RenderContext>,
}

pub open spec fn view_opt_string(s: Option<String>) -> Option<Seq<char>> {
    match s {
        Some(x) => Some(x@),
        None => None,
    }
}

impl View for Expression {
    type V = ExprV;

    open spec fn view(&self) -> ExprV {
        ExprV {
            command: view_opt_string(self.command),
            frequency: self.frequency,
            data_name: view_opt_string(self.data_name),
            date: self.date,
            display_type: self.display_type,
        }
    }
}

impl DeepView for Expression {
    type V = ExprV;

    open spec fn deep_view(&self) -> ExprV {
        self.view()
    }
}

/// The empty selection: every field unset.
pub open spec fn expr_empty() -> ExprV {
    ExprV { command: None, frequency: None, data_name: None, date: None, display_type: None }
}

/// One "set if absent" step: the argument lands in its field only when that
/// field is still unset; an already-set field keeps its value.
pub open spec fn spec_fill_arg(e: ExprV, a: ArgV) -> ExprV {
    match a {
        ArgV::Command(c) => if e.command is None {
            ExprV { command: Some(c), ..e }
        } else {
            e
        },
        ArgV::Function(_) => e,
        ArgV::TimeFrequency(f) => if e.frequency is None {
            ExprV { frequency: Some(f), ..e }
        } else {
            e
        },
        ArgV::DataName(n) => if e.data_name is None {
            ExprV { data_name: Some(n), ..e }
        } else {
            e
        },
        ArgV::Date(d) => if e.date is None {
            ExprV { date: Some(d), ..e }
        } else {
            e
        },
        ArgV::RenderContext(r) => if e.display_type is None {
            ExprV { display_type: Some(r), ..e }
        } else {
            e
        },
    }
}

/// Field inheritance: every field the selection leaves unset is copied from
/// the ambient selection; a set field is kept.
pub open spec fn spec_inherit(own: ExprV, ambient: ExprV) -> ExprV {
    ExprV {
        command: if own.command is None {
            ambient.command
        } else {
            own.command
        },
        frequency: if own.frequency is None {
            ambient.frequency
        } else {
            own.frequency
        },
        data_name: if own.data_name is None {
            ambient.data_name
        } else {
            own.data_name
        },
        date: if own.date is None {
            ambient.date
        } else {
            own.date
        },
        display_type: if own.display_type is None {
            ambient.display_type
        } else {
            own.display_type
        },
    }
}

pub open spec fn opt_str_eq(a: Option<Seq<char>>, b: Option<Seq<char>>) -> bool {
    match (a, b) {
        (Some(x), Some(y)) => x == y,
        (None, None) => true,
        _ => false,
    }
}

/// Whole-selection equality, field by field.
pub open spec fn expr_eq(a: ExprV, b: ExprV) -> bool {
    &&& opt_str_eq(a.command, b.command)
    &&& a.frequency == b.frequency
    &&& opt_str_eq(a.data_name, b.data_name)
    &&& a.date == b.date
    &&& a.display_type == b.display_type
}

fn opt_string_eq(a: &Option<String>, b: &Option<String>) -> (r: bool)
    ensures
        r == opt_str_eq(view_opt_string(*a), view_opt_string(*b)),
{
    match (a, b) {
        (Some(x), Some(y)) => str_eq(x.as_str(), y.as_str()),
        (None, None) => true,
        _ => false,
    }
}

impl Expression {
    /// A fresh selection with every field unset.
    pub fn new() -> (r: Expression)
        ensures
            r@ == expr_empty(),
    {
        Expression {
            command: None,
            frequency: None,
            data_name: None,
            date: None,
            display_type: None,
        }
    }

    /// An exact copy; spelled out so that verified code knows the copy
    /// and the source are equal.
    pub fn duplicate(&self) -> (r: Expression)
        ensures
            r@ == self@,
    {
        Expression {
            command: match &self.command {
                Some(c) => Some(c.clone()),
                None => None,
            },
            frequency: self.frequency,
            data_name: match &self.data_name {
                Some(n) => Some(n.clone()),
                None => None,
            },
            date: self.date,
            display_type: self.display_type,
        }
    }

    /// Sets the command if it is still unset; a set command is kept.
    pub fn set_command(&mut self, c: String)
        ensures
            final(self)@ == spec_fill_arg(old(self)@, ArgV::Command(c@)),
    {
        if self.command.is_none() {
            self.command = Some(c);
        }
    }

    /// Sets the frequency if it is still unset; a set frequency is kept.
    pub fn set_frequency(&mut self, f: TimeFrequency)
        ensures
            final(self)@ == spec_fill_arg(old(self)@, ArgV::TimeFrequency(f)),
    {
        if self.frequency.is_none() {
            self.frequency = Some(f);
        }
    }

    /// Sets the data-series name if it is still unset; a set name is kept.
    pub fn set_data_name(&mut self, n: String)
        ensures
            final(self)@ == spec_fill_arg(old(self)@, ArgV::DataName(n@)),
    {
        if self.data_name.is_none() {
            self.data_name = Some(n);
        }
    }

    /// Sets the date if it is still unset; a set date is kept.
    pub fn set_date(&mut self, d: Date)
        ensures
            final(self)@ == spec_fill_arg(old(self)@, ArgV::Date(d)),
    {
        if self.date.is_none() {
            self.date = Some(d);
        }
    }

    /// Sets the display style if it is still unset; a set style is kept.
    pub fn set_display_type(&mut self, r: RenderContext)
        ensures
            final(self)@ == spec_fill_arg(old(self)@, ArgV::RenderContext(r)),
    {
        if self.display_type.is_none() {
            self.display_type = Some(r);
        }
    }

    /// Fills the argument's field if that field is still unset. A function
    /// argument names a rendering function, not a selection field, and
    /// leaves the selection unchanged.
    pub fn fill_arg(&mut self, a: Arg)
        ensures
            final(self)@ == spec_fill_arg(old(self)@, a@),
    {
        match a {
            Arg::Command(c) => self.set_command(c),
            Arg::Function(_) => (),
            Arg::TimeFrequency(f) => self.set_frequency(f),
            Arg::DataName(n) => self.set_data_name(n),
            Arg::Date(d) => self.set_date(d),
            Arg::RenderContext(r) => self.set_display_type(r),
        }
    }

    /// Copies every field the ambient selection has set and this one has
    /// not; fields this selection set are never overwritten.
    pub fn inherit(&mut self, ambient: &Expression)
        ensures
            final(self)@ == spec_inherit(old(self)@, ambient@),
    {
        if self.command.is_none() {
            if let Some(c) = &ambient.command {
                self.command = Some(c.clone());
            }
        }
        if self.frequency.is_none() {
            if let Some(f) = &ambient.frequency {
                self.frequency = Some(*f);
            }
        }
        if self.data_name.is_none() {
            if let Some(n) = &ambient.data_name {
                self.data_name = Some(n.clone());
            }
        }
        if self.date.is_none() {
            if let Some(d) = &ambient.date {
                self.date = Some(*d);
            }
        }
        if self.display_type.is_none() {
            if let Some(r) = &ambient.display_type {
                self.display_type = Some(*r);
            }
        }
    }

    /// Field-by-field equality of two selections.
    pub fn equals(&self, other: &Expression) -> (r: bool)
        ensures
            r == expr_eq(self@, other@),
    {
        opt_string_eq(&self.command, &other.command)
            && self.frequency == other.frequency
            && opt_string_eq(&self.data_name, &other.data_name)
            && self.date == other.date
            && self.display_type == other.display_type
    }
}

} // verus!
