//! Cron-like schedules: `"<hour> <day-of-month> <month> <day-of-week>"`.
//!
//! Each field is `*` (every value of the field), a range `a-b` (from `a` to
//! `b`, both included, `a` not above `b`), a list `a;b;c` (the values as
//! given, in that order, repeats kept) or a single value. Values are decimal
//! digits up to 255. A field that holds a `-` is read as a range, even where
//! it also holds a `;`. Fields are split at the first three spaces: whatever
//! follows the third belongs to the day-of-week field.
use vstd::prelude::*;

use vstd::string::StrSliceExecFns;

use crate::calendar::Calendar;

verus! {

/// The fields of a schedule.
#[derive(Debug, Clone, Copy, PartialEq, Eq, Structural)]
pub enum CronField {
    Hour,
    DayOfMonth,
    Month,
    DayOfWeek,
}

/// What can go wrong with a schedule.
#[derive(Debug, Clone, PartialEq, Eq)]
pub enum CronError {
    /// The text has fewer than four fields.
    MalformedExpression,
    /// A field could not be read; `text` is the whole field.
    InvalidToken { field: CronField, text: String },
    /// The schedule has no hours or no weekdays to match against.
    UnparsedExpression,
}

/// A schedule and the values each of its fields accepts.
#[derive(Clone, Debug, PartialEq)]
pub struct Cron {
    pub formula: String,
    pub hours: Option<Vec<u8>>,
    pub days_month: Option<Vec<u8>>,
    pub months: Option<Vec<u8>>,
    pub days_week: Option<Vec<u8>>,
}

/// Position of the first `c` in `t`, or the length of `t` where there is none.
pub open spec fn find(t: Seq<char>, c: char) -> int
    decreases t.len(),
{
    if t.len() == 0 {
        0
    } else if t[0] == c {
        0
    } else {
        1 + find(t.drop_first(), c)
    }
}

pub open spec fn is_digit(c: char) -> bool {
    48 <= (c as u32) <= 57
}

/// The value of a string of decimal digits.
pub open spec fn digits_value(t: Seq<char>) -> int
    decreases t.len(),
{
    if t.len() == 0 {
        0
    } else {
        digits_value(t.drop_last()) * 10 + ((t.last() as u32) - 48)
    }
}

/// The value that `t` reads as: one or more decimal digits, at most 255.
pub open spec fn number_of(t: Seq<char>) -> Option<u8> {
    if t.len() > 0 && (forall|i: int| 0 <= i < t.len() ==> is_digit(#[trigger] t[i])) && digits_value(t) <= 255 {
        Some(digits_value(t) as u8)
    } else {
        None
    }
}

/// The values from `lo` to `hi`, both included, ascending.
pub open spec fn span(lo: int, hi: int) -> Seq<u8> {
    Seq::new((hi - lo + 1) as nat, |i: int| (lo + i) as u8)
}

/// A range field `a-b`, split at its first `-`.
pub open spec fn parse_range(t: Seq<char>) -> Option<Seq<u8>> {
    let i = find(t, '-');
    if i < t.len() {
        match (number_of(t.subrange(0, i)), number_of(t.subrange(i + 1, t.len() as int))) {
            (Some(a), Some(b)) => if a <= b {
                Some(span(a as int, b as int))
            } else {
                None
            },
            _ => None,
        }
    } else {
        None
    }
}

/// A list field `a;b;c`.
pub open spec fn parse_list(t: Seq<char>) -> Option<Seq<u8>>
    decreases t.len(),
{
    let i = find(t, ';');
    if 0 <= i < t.len() {
        match (number_of(t.subrange(0, i)), parse_list(t.subrange(i + 1, t.len() as int))) {
            (Some(v), Some(rest)) => Some(seq![v] + rest),
            _ => None,
        }
    } else {
        match number_of(t) {
            Some(v) => Some(seq![v]),
            None => None,
        }
    }
}

/// The values that field text `t` accepts, where `*` means `lo` to `hi`.
pub open spec fn parse_field(t: Seq<char>, lo: u8, hi: u8) -> Option<Seq<u8>> {
    if t == seq!['*'] {
        Some(span(lo as int, hi as int))
    } else if t.contains('-') {
        parse_range(t)
    } else if t.contains(';') {
        parse_list(t)
    } else {
        match number_of(t) {
            Some(v) => Some(seq![v]),
            None => None,
        }
    }
}

/// The four fields of a schedule, split at the first three spaces.
pub open spec fn fields_of(s: Seq<char>) -> Option<Seq<Seq<char>>> {
    let i = find(s, ' ');
    let r1 = s.subrange(i + 1, s.len() as int);
    let j = find(r1, ' ');
    let r2 = r1.subrange(j + 1, r1.len() as int);
    let k = find(r2, ' ');
    let r3 = r2.subrange(k + 1, r2.len() as int);
    if i < s.len() && j < r1.len() && k < r2.len() {
        Some(seq![s.subrange(0, i), r1.subrange(0, j), r2.subrange(0, k), r3])
    } else {
        None
    }
}

/// The smallest and largest value of field `k` (hour, day of month, month,
/// day of week).
pub open spec fn field_bounds(k: int) -> (u8, u8) {
    if k == 0 {
        (0, 23)
    } else if k == 1 {
        (1, 30)
    } else if k == 2 {
        (1, 12)
    } else {
        (1, 7)
    }
}

pub open spec fn field_name(k: int) -> CronField {
    if k == 0 {
        CronField::Hour
    } else if k == 1 {
        CronField::DayOfMonth
    } else if k == 2 {
        CronField::Month
    } else {
        CronField::DayOfWeek
    }
}

pub open spec fn field_values(fs: Seq<Seq<char>>, k: int) -> Option<Seq<u8>> {
    parse_field(fs[k], field_bounds(k).0, field_bounds(k).1)
}

/// The first field that cannot be read, or 4 where all can.
pub open spec fn first_bad_field(fs: Seq<Seq<char>>) -> int {
    if field_values(fs, 0) is None {
        0
    } else if field_values(fs, 1) is None {
        1
    } else if field_values(fs, 2) is None {
        2
    } else if field_values(fs, 3) is None {
        3
    } else {
        4
    }
}

/// Whether schedule text `s` can be read.
pub open spec fn parses(s: Seq<char>) -> bool {
    fields_of(s) is Some && first_bad_field(fields_of(s)->Some_0) == 4
}

/// Whether `e` is the error that reading schedule text `s` gives.
pub open spec fn error_for(s: Seq<char>, e: CronError) -> bool {
    match fields_of(s) {
        None => e == CronError::MalformedExpression,
        Some(fs) => {
            &&& first_bad_field(fs) < 4
            &&& e is InvalidToken
            &&& e->field == field_name(first_bad_field(fs))
            &&& e->text@ == fs[first_bad_field(fs)]
        },
    }
}

pub open spec fn opt_view(r: Option<Vec<u8>>) -> Option<Seq<u8>> {
    match r {
        Some(v) => Some(v@),
        None => None,
    }
}

/// Whether `c` holds the values that schedule text `s` accepts, field by field.
pub open spec fn holds_values_of(c: Cron, s: Seq<char>) -> bool {
    let fs = fields_of(s)->Some_0;
    &&& opt_view(c.hours) == field_values(fs, 0)
    &&& opt_view(c.days_month) == field_values(fs, 1)
    &&& opt_view(c.months) == field_values(fs, 2)
    &&& opt_view(c.days_week) == field_values(fs, 3)
}

proof fn lemma_find_at(t: Seq<char>, c: char, i: int)
    requires
        0 <= i <= t.len(),
        forall|j: int| 0 <= j < i ==> t[j] != c,
        i == t.len() || t[i] == c,
    ensures
        find(t, c) == i,
    decreases i,
{
    if i > 0 {
        let u = t.drop_first();
        assert forall|j: int| 0 <= j < i - 1 implies u[j] != c by {
            assert(u[j] == t[j + 1]);
        }
        lemma_find_at(u, c, i - 1);
    }
}

proof fn lemma_digits_nonneg(t: Seq<char>)
    requires
        forall|i: int| 0 <= i < t.len() ==> is_digit(#[trigger] t[i]),
    ensures
        digits_value(t) >= 0,
    decreases t.len(),
{
    if t.len() > 0 {
        let u = t.drop_last();
        assert forall|i: int| 0 <= i < u.len() implies is_digit(#[trigger] u[i]) by {
            assert(u[i] == t[i]);
        }
        lemma_digits_nonneg(u);
        assert(is_digit(t[t.len() - 1]));
    }
}

proof fn lemma_digits_prefix(t: Seq<char>, k: int)
    requires
        forall|i: int| 0 <= i < t.len() ==> is_digit(#[trigger] t[i]),
        0 <= k <= t.len(),
    ensures
        digits_value(t.subrange(0, k)) <= digits_value(t),
    decreases t.len(),
{
    if k < t.len() {
        let u = t.drop_last();
        assert forall|i: int| 0 <= i < u.len() implies is_digit(#[trigger] u[i]) by {
            assert(u[i] == t[i]);
        }
        lemma_digits_prefix(u, k);
        lemma_digits_nonneg(u);
        assert(u.subrange(0, k) =~= t.subrange(0, k));
        assert(is_digit(t[t.len() - 1]));
    } else {
        assert(t.subrange(0, k) =~= t);
    }
}

/// Position of the first `c` in `s`, or its length where there is none.
fn find_char(s: &str, c: char) -> (r: usize)
    ensures
        r == find(s@, c),
        r <= s@.len(),
        forall|j: int| 0 <= j < r ==> s@[j] != c,
        r < s@.len() ==> s@[r as int] == c,
        s@.contains(c) == (r < s@.len()),
{
    let n = s.unicode_len();
    let mut i: usize = 0;
    while i < n
        invariant
            n == s@.len(),
            0 <= i <= n,
            forall|j: int| 0 <= j < i ==> s@[j] != c,
        decreases n - i,
    {
        if s.get_char(i) == c {
            proof {
                lemma_find_at(s@, c, i as int);
            }
            return i;
        }
        i = i + 1;
    }
    proof {
        lemma_find_at(s@, c, i as int);
    }
    i
}

/// Reads one or more decimal digits, at most 255.
fn parse_u8(s: &str) -> (r: Option<u8>)
    ensures
        r == number_of(s@),
{
    let n = s.unicode_len();
    if n == 0 {
        return None;
    }
    let mut i: usize = 0;
    let mut v: u32 = 0;
    while i < n
        invariant
            n == s@.len(),
            0 <= i <= n,
            v <= 255,
            forall|j: int| 0 <= j < i ==> is_digit(#[trigger] s@[j]),
            v == digits_value(s@.subrange(0, i as int)),
        decreases n - i,
    {
        let c = s.get_char(i);
        let code = c as u32;
        if code < 48 || code > 57 {
            assert(!is_digit(s@[i as int]));
            return None;
        }
        let next: u32 = v * 10 + (code - 48);
        proof {
            assert(s@.subrange(0, i + 1).drop_last() =~= s@.subrange(0, i as int));
        }
        if next > 255 {
            proof {
                if forall|j: int| 0 <= j < s@.len() ==> is_digit(#[trigger] s@[j]) {
                    lemma_digits_prefix(s@, i + 1);
                }
            }
            return None;
        }
        v = next;
        i = i + 1;
    }
    proof {
        assert(s@.subrange(0, n as int) =~= s@);
    }
    Some(v as u8)
}

/// The values from `lo` to `hi`, both included, ascending.
fn span_vec(lo: u8, hi: u8) -> (r: Vec<u8>)
    requires
        lo <= hi,
    ensures
        r@ == span(lo as int, hi as int),
{
    let mut v: Vec<u8> = Vec::new();
    let mut x: u8 = lo;
    while x < hi
        invariant
            lo <= x <= hi,
            v@.len() == x - lo,
            forall|j: int| 0 <= j < v@.len() ==> v@[j] == lo + j,
        decreases hi - x,
    {
        v.push(x);
        x = x + 1;
    }
    v.push(hi);
    assert(v@ =~= span(lo as int, hi as int));
    v
}

/// Reads a range field `a-b`; `None` where it cannot be read.
fn parse_range_cron(s: &str) -> (r: Option<Vec<u8>>)
    ensures
        opt_view(r) == parse_range(s@),
{
    let n = s.unicode_len();
    let i = find_char(s, '-');
    if i >= n {
        return None;
    }
    let lo = parse_u8(s.substring_char(0, i));
    let hi = parse_u8(s.substring_char(i + 1, n));
    match (lo, hi) {
        (Some(a), Some(b)) => if a <= b {
            Some(span_vec(a, b))
        } else {
            None
        },
        _ => None,
    }
}

/// Reads a list field `a;b;c`; `None` where it cannot be read.
fn parse_list_cron(s: &str) -> (r: Option<Vec<u8>>)
    ensures
        opt_view(r) == parse_list(s@),
    decreases s@.len(),
{
    let n = s.unicode_len();
    let i = find_char(s, ';');
    if i < n {
        let first = parse_u8(s.substring_char(0, i));
        let rest = parse_list_cron(s.substring_char(i + 1, n));
        match (first, rest) {
            (Some(x), Some(mut tail)) => {
                let mut v: Vec<u8> = vec![x];
                v.append(&mut tail);
                assert(v@ =~= seq![x] + opt_view(rest)->Some_0);
                Some(v)
            },
            _ => None,
        }
    } else {
        match parse_u8(s) {
            Some(x) => Some(vec![x]),
            None => None,
        }
    }
}

/// Reads one field, whose `*` stands for `minl` to `maxl`; `None` where it
/// cannot be read.
fn parse_part_cron(s: &str, minl: u8, maxl: u8) -> (r: Option<Vec<u8>>)
    requires
        minl <= maxl,
    ensures
        opt_view(r) == parse_field(s@, minl, maxl),
{
    let n = s.unicode_len();
    if n == 1 && s.get_char(0) == '*' {
        assert(s@ =~= seq!['*']);
        return Some(span_vec(minl, maxl));
    }
    assert(s@ != seq!['*']) by {
        if s@ == seq!['*'] {
            assert(s@[0] == '*');
        }
    }
    if find_char(s, '-') < n {
        parse_range_cron(s)
    } else if find_char(s, ';') < n {
        parse_list_cron(s)
    } else {
        match parse_u8(s) {
            Some(x) => Some(vec![x]),
            None => None,
        }
    }
}

/// Whether `v` holds `x`.
fn holds(v: &Vec<u8>, x: u8) -> (r: bool)
    ensures
        r == v@.contains(x),
{
    let mut i: usize = 0;
    while i < v.len()
        invariant
            0 <= i <= v@.len(),
            forall|j: int| 0 <= j < i ==> v@[j] != x,
        decreases v@.len() - i,
    {
        if v[i] == x {
            return true;
        }
        i = i + 1;
    }
    false
}

impl Cron {
    /// Reads schedule text `formula`.
    pub fn new(formula: &str) -> (r: Result<Cron, CronError>)
        ensures
            parses(formula@) ==> r is Ok && r->Ok_0.formula@ == formula@ && holds_values_of(r->Ok_0, formula@),
            !parses(formula@) ==> r is Err && error_for(formula@, r->Err_0),
    {
        let mut c = Cron {
            formula: String::from_str(formula),
            hours: None,
            days_month: None,
            months: None,
            days_week: None,
        };
        match c.parse() {
            Ok(()) => Ok(c),
            Err(e) => Err(e),
        }
    }

    /// Whether the clock's hour and weekday are among those the schedule
    /// accepts. The day-of-month and month fields are not consulted.
    pub fn is_time(&self, calendar: &Calendar) -> (r: Result<bool, CronError>)
        ensures
            self.hours is None || self.days_week is None ==> r == Err::<bool, CronError>(CronError::UnparsedExpression),
            self.hours is Some && self.days_week is Some ==> r == Ok::<bool, CronError>(
                self.hours->Some_0@.contains(calendar@.current_hour)
                && self.days_week->Some_0@.contains(calendar@.current_weekday),
            ),
    {
        match (&self.hours, &self.days_week) {
            (Some(hours), Some(days)) => Ok(
                holds(hours, calendar.get_current_hour()) && holds(days, calendar.get_current_weekday()),
            ),
            _ => Err(CronError::UnparsedExpression),
        }
    }

    /// Reads the schedule text into the four sets of values. On an error
    /// nothing changes.
    pub fn parse(&mut self) -> (r: Result<(), CronError>)
        ensures
            parses(old(self).formula@) ==> r is Ok && final(self).formula == old(self).formula
                && holds_values_of(*final(self), old(self).formula@),
            !parses(old(self).formula@) ==> r is Err && error_for(old(self).formula@, r->Err_0)
                && *final(self) == *old(self),
    {
        let s: &str = self.formula.as_str();
        let n = s.unicode_len();
        let i = find_char(s, ' ');
        if i >= n {
            return Err(CronError::MalformedExpression);
        }
        let r1 = s.substring_char(i + 1, n);
        let n1 = r1.unicode_len();
        let j = find_char(r1, ' ');
        if j >= n1 {
            return Err(CronError::MalformedExpression);
        }
        let r2 = r1.substring_char(j + 1, n1);
        let n2 = r2.unicode_len();
        let k = find_char(r2, ' ');
        if k >= n2 {
            return Err(CronError::MalformedExpression);
        }
        let r3 = r2.substring_char(k + 1, n2);
        let f0 = s.substring_char(0, i);
        let f1 = r1.substring_char(0, j);
        let f2 = r2.substring_char(0, k);
        let ghost fs = seq![f0@, f1@, f2@, r3@];
        assert(fields_of(s@) == Some(fs));
        let hours = match parse_part_cron(f0, 0, 23) {
            Some(v) => v,
            None => return Err(CronError::InvalidToken { field: CronField::Hour, text: String::from_str(f0) }),
        };
        let days_month = match parse_part_cron(f1, 1, 30) {
            Some(v) => v,
            None => return Err(CronError::InvalidToken { field: CronField::DayOfMonth, text: String::from_str(f1) }),
        };
        let months = match parse_part_cron(f2, 1, 12) {
            Some(v) => v,
            None => return Err(CronError::InvalidToken { field: CronField::Month, text: String::from_str(f2) }),
        };
        let days_week = match parse_part_cron(r3, 1, 7) {
            Some(v) => v,
            None => return Err(CronError::InvalidToken { field: CronField::DayOfWeek, text: String::from_str(r3) }),
        };
        self.hours = Some(hours);
        self.days_month = Some(days_month);
        self.months = Some(months);
        self.days_week = Some(days_week);
        Ok(())
    }
}

} // verus!
