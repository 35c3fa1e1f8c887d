//! The closed vocabulary the DSL draws its typed arguments from: time
//! frequencies, display styles, calendar dates, and the error taxonomy shared
//! by every stage of the engine.

use vstd::prelude::*;

verus! {

/// Every way a DSL operation can fail, from token resolution through
/// rendering. Operations are fail-fast: the first error aborts the whole
/// enclosing operation.
#[derive(Clone, Copy, Debug, PartialEq, Eq, Structural)]
pub enum DslError {
    /// A labelled token used a label outside the five recognised names.
    UnknownLabel,
    /// A labelled token's value did not parse as the label's variant.
    InvalidValue,
    /// A bare token matched none of the variants in priority order.
    UnresolvedToken,
    /// A named function clause used a name outside the known set.
    UnknownFunction,
    /// A selection reached the calculation engine without a command.
    UnknownCommand,
    /// Named collections of differing lengths were bound together.
    ExpansionMismatch,
    /// The calculation engine had no figure for a fully-merged selection.
    CalcError,
}

/// How often a metric is sampled; one of the closed set of frequency tokens.
#[derive(Clone, Copy, Debug, PartialEq, Eq, Structural)]
pub enum TimeFrequency {
    Yearly,
    Quarterly,
    Monthly,
    Weekly,
    Daily,
}

/// The display style a rendered figure is requested in.
#[derive(Clone, Copy, Debug, PartialEq, Eq, Structural)]
pub enum RenderContext {
    Words,
    Numbers,
}

/// A calendar date as plain year/month/day values.
#[derive(Clone, Copy, Debug, PartialEq, Eq, Structural)]
pub struct Date {
    pub year: u32,
    pub month: u32,
    pub day: u32,
}

/// String equality by view; the building block of every token comparison.
pub fn str_eq(a: &str, b: &str) -> (r: bool)
    ensures
        r == (a@ == b@),
{
    let x = a.to_owned();
    let y = b.to_owned();
    x == y
}

pub open spec fn spec_is_leap_year(y: int) -> bool {
    y % 4 == 0 && (y % 100 != 0 || y % 400 == 0)
}

pub open spec fn spec_days_in_month(y: int, m: int) -> int {
    if m == 2 {
        if spec_is_leap_year(y) {
            29
        } else {
            28
        }
    } else if m == 4 || m == 6 || m == 9 || m == 11 {
        30
    } else {
        31
    }
}

/// A date is well formed when its month exists, its day exists in that
/// month's calendar, and its year fits the four-digit literal format.
pub open spec fn date_wf(d: Date) -> bool {
    &&& d.year <= 9999
    &&& 1 <= d.month <= 12
    &&& 1 <= d.day <= spec_days_in_month(d.year as int, d.month as int)
}

pub fn is_leap_year(y: u32) -> (r: bool)
    ensures
        r == spec_is_leap_year(y as int),
{
    y % 4 == 0 && (y % 100 != 0 || y % 400 == 0)
}

pub fn days_in_month(y: u32, m: u32) -> (r: u32)
    requires
        1 <= m <= 12,
    ensures
        r == spec_days_in_month(y as int, m as int),
{
    if m == 2 {
        if is_leap_year(y) {
            29
        } else {
            28
        }
    } else if m == 4 || m == 6 || m == 9 || m == 11 {
        30
    } else {
        31
    }
}

pub open spec fn spec_is_digit(c: char) -> bool {
    48 <= c as u32 <= 57
}

pub open spec fn spec_digit_val(c: char) -> int {
    c as u32 - 48
}

/// The first-success parse of a frequency token, over the closed vocabulary.
pub open spec fn spec_parse_frequency(s: Seq<char>) -> Option<TimeFrequency> {
    if s == "Yearly"@ {
        Some(TimeFrequency::Yearly)
    } else if s == "Quarterly"@ {
        Some(TimeFrequency::Quarterly)
    } else if s == "Monthly"@ {
        Some(TimeFrequency::Monthly)
    } else if s == "Weekly"@ {
        Some(TimeFrequency::Weekly)
    } else if s == "Daily"@ {
        Some(TimeFrequency::Daily)
    } else {
        None
    }
}

pub open spec fn spec_parse_display(s: Seq<char>) -> Option<RenderContext> {
    if s == "Words"@ {
        Some(RenderContext::Words)
    } else if s == "Numbers"@ {
        Some(RenderContext::Numbers)
    } else {
        None
    }
}

pub fn is_digit_char(c: char) -> (r: bool)
    ensures
        r == spec_is_digit(c),
{
    let u = c as u32;
    48 <= u && u <= 57
}

pub fn digit_val(c: char) -> (r: u32)
    requires
        spec_is_digit(c),
    ensures
        r == spec_digit_val(c),
{
    c as u32 - 48
}

/// The parse of a `YYYY-MM-DD` date literal: four, two and two decimal
/// digits separated by hyphens, naming a day that exists in the calendar.
pub open spec fn spec_parse_date(s: Seq<char>) -> Option<Date> {
    if s.len() == 10 && spec_is_digit(s[0]) && spec_is_digit(s[1]) && spec_is_digit(s[2])
        && spec_is_digit(s[3]) && s[4] == '-' && spec_is_digit(s[5]) && spec_is_digit(s[6])
        && s[7] == '-' && spec_is_digit(s[8]) && spec_is_digit(s[9]) {
        let d = Date {
            year: (spec_digit_val(s[0]) * 1000 + spec_digit_val(s[1]) * 100 + spec_digit_val(
                s[2],
            ) * 10 + spec_digit_val(s[3])) as u32,
            month: (spec_digit_val(s[5]) * 10 + spec_digit_val(s[6])) as u32,
            day: (spec_digit_val(s[8]) * 10 + spec_digit_val(s[9])) as u32,
        };
        if date_wf(d) {
            Some(d)
        } else {
            None
        }
    } else {
        None
    }
}

pub open spec fn spec_digit_char(n: int) -> char {
    if n == 0 {
        '0'
    } else if n == 1 {
        '1'
    } else if n == 2 {
        '2'
    } else if n == 3 {
        '3'
    } else if n == 4 {
        '4'
    } else if n == 5 {
        '5'
    } else if n == 6 {
        '6'
    } else if n == 7 {
        '7'
    } else if n == 8 {
        '8'
    } else {
        '9'
    }
}

pub fn digit_str(n: u32) -> (r: &'static str)
    requires
        n <= 9,
    ensures
        r@ =~= seq![spec_digit_char(n as int)],
{
    proof {
        reveal_strlit("0");
        reveal_strlit("1");
        reveal_strlit("2");
        reveal_strlit("3");
        reveal_strlit("4");
        reveal_strlit("5");
        reveal_strlit("6");
        reveal_strlit("7");
        reveal_strlit("8");
        reveal_strlit("9");
    }
    if n == 0 {
        "0"
    } else if n == 1 {
        "1"
    } else if n == 2 {
        "2"
    } else if n == 3 {
        "3"
    } else if n == 4 {
        "4"
    } else if n == 5 {
        "5"
    } else if n == 6 {
        "6"
    } else if n == 7 {
        "7"
    } else if n == 8 {
        "8"
    } else {
        "9"
    }
}

impl Date {
    /// Parses a `YYYY-MM-DD` date literal, validating the calendar day.
    pub fn from_str(s: &str) -> (r: Option<Date>)
        ensures
            r == spec_parse_date(s@),
    {
        let n = s.unicode_len();
        if n != 10 {
            return None;
        }
        let c0 = s.get_char(0);
        let c1 = s.get_char(1);
        let c2 = s.get_char(2);
        let c3 = s.get_char(3);
        let c4 = s.get_char(4);
        let c5 = s.get_char(5);
        let c6 = s.get_char(6);
        let c7 = s.get_char(7);
        let c8 = s.get_char(8);
        let c9 = s.get_char(9);
        if is_digit_char(c0) && is_digit_char(c1) && is_digit_char(c2) && is_digit_char(c3) && c4
            == '-' && is_digit_char(c5) && is_digit_char(c6) && c7 == '-' && is_digit_char(c8)
            && is_digit_char(c9) {
            let d = Date {
                year: digit_val(c0) * 1000 + digit_val(c1) * 100 + digit_val(c2) * 10 + digit_val(
                    c3,
                ),
                month: digit_val(c5) * 10 + digit_val(c6),
                day: digit_val(c8) * 10 + digit_val(c9),
            };
            if 1 <= d.month && d.month <= 12 && 1 <= d.day && d.day <= days_in_month(
                d.year,
                d.month,
            ) {
                Some(d)
            } else {
                None
            }
        } else {
            None
        }
    }

    /// The canonical `YYYY-MM-DD` text of the date.
    pub open spec fn spec_text(self) -> Seq<char> {
        seq![
            spec_digit_char(self.year as int / 1000),
            spec_digit_char(self.year as int / 100 % 10),
            spec_digit_char(self.year as int / 10 % 10),
            spec_digit_char(self.year as int % 10),
            '-',
            spec_digit_char(self.month as int / 10),
            spec_digit_char(self.month as int % 10),
            '-',
            spec_digit_char(self.day as int / 10),
            spec_digit_char(self.day as int % 10),
        ]
    }

    pub fn text(&self) -> (r: String)
        requires
            date_wf(*self),
        ensures
            r@ =~= self.spec_text(),
    {
        proof {
            reveal_strlit("-");
        }
        let mut out = String::new();
        out.append(digit_str(self.year / 1000));
        out.append(digit_str(self.year / 100 % 10));
        out.append(digit_str(self.year / 10 % 10));
        out.append(digit_str(self.year % 10));
        out.append("-");
        out.append(digit_str(self.month / 10));
        out.append(digit_str(self.month % 10));
        out.append("-");
        out.append(digit_str(self.day / 10));
        out.append(digit_str(self.day % 10));
        out
    }
}

impl TimeFrequency {
    /// Parses one of the five frequency names, exactly.
    pub fn from_str(s: &str) -> (r: Option<TimeFrequency>)
        ensures
            r == spec_parse_frequency(s@),
    {
        if str_eq(s, "Yearly") {
            Some(TimeFrequency::Yearly)
        } else if str_eq(s, "Quarterly") {
            Some(TimeFrequency::Quarterly)
        } else if str_eq(s, "Monthly") {
            Some(TimeFrequency::Monthly)
        } else if str_eq(s, "Weekly") {
            Some(TimeFrequency::Weekly)
        } else if str_eq(s, "Daily") {
            Some(TimeFrequency::Daily)
        } else {
            None
        }
    }

    /// The canonical text of the frequency, the same text `from_str` accepts.
    pub open spec fn spec_text(self) -> Seq<char> {
        match self {
            TimeFrequency::Yearly => "Yearly"@,
            TimeFrequency::Quarterly => "Quarterly"@,
            TimeFrequency::Monthly => "Monthly"@,
            TimeFrequency::Weekly => "Weekly"@,
            TimeFrequency::Daily => "Daily"@,
        }
    }

    pub fn text(&self) -> (r: String)
        ensures
            r@ == self.spec_text(),
    {
        match self {
            TimeFrequency::Yearly => String::from_str("Yearly"),
            TimeFrequency::Quarterly => String::from_str("Quarterly"),
            TimeFrequency::Monthly => String::from_str("Monthly"),
            TimeFrequency::Weekly => String::from_str("Weekly"),
            TimeFrequency::Daily => String::from_str("Daily"),
        }
    }
}

impl RenderContext {
    /// Parses one of the two display-style names, exactly.
    pub fn from_str(s: &str) -> (r: Option<RenderContext>)
        ensures
            r == spec_parse_display(s@),
    {
        if str_eq(s, "Words") {
            Some(RenderContext::Words)
        } else if str_eq(s, "Numbers") {
            Some(RenderContext::Numbers)
        } else {
            None
        }
    }

    pub open spec fn spec_text(self) -> Seq<char> {
        match self {
            RenderContext::Words => "Words"@,
            RenderContext::Numbers => "Numbers"@,
        }
    }

    pub fn text(&self) -> (r: String)
        ensures
            r@ == self.spec_text(),
    {
        match self {
            RenderContext::Words => String::from_str("Words"),
            RenderContext::Numbers => String::from_str("Numbers"),
        }
    }
}

} // verus!
