//! Calendar dates as day numbers, and the daily periods of the submission
//! check.

use vstd::prelude::*;
use chrono::{Datelike, NaiveDate};
use crate::text::{is_ws, lemma_strip_both_at, text_less, text_lt, trim, trimmed};

verus! {

/// The day number (days since the start of the common era, 1 January of
/// year 1 being day 1) of a `%Y-%m-%d` date text, as chrono parses it; none
/// when it is not such a date.
pub uninterp spec fn ymd_day(text: Seq<char>) -> Option<i32>;

/// The `%Y-%m-%d` text of a day number, as chrono writes it; none when the
/// day is outside chrono's range of dates.
pub uninterp spec fn day_ymd(day: i32) -> Option<Seq<char>>;

/// Calls `chrono::NaiveDate::parse_from_str` with the format `%Y-%m-%d` and
/// reads the date's day number with `Datelike::num_days_from_ce`. The
/// result depends on the text alone and is named `ymd_day`; nothing more is
/// claimed of it.
#[verifier::external_body]
fn parse_ymd(text: &str) -> (r: Option<i32>)
    ensures
        r == ymd_day(text@),
{
    NaiveDate::parse_from_str(text, "%Y-%m-%d").ok().map(|d| d.num_days_from_ce())
}

/// Calls `chrono::NaiveDate::from_num_days_from_ce_opt` and writes the date
/// with its `Display`, which is `%Y-%m-%d`. The result depends on the day
/// number alone and is named `day_ymd`; nothing more is claimed of it.
#[verifier::external_body]
fn format_day(day: i32) -> (r: Option<String>)
    ensures
        match r {
            Some(s) => day_ymd(day) == Some(s@),
            None => day_ymd(day) is None,
        },
{
    NaiveDate::from_num_days_from_ce_opt(day).map(|d| d.to_string())
}

/// Why the daily periods could not be formed.
#[derive(Debug, Clone, Copy, PartialEq, Eq, Structural)]
pub enum PeriodError {
    /// The start text is not a `%Y-%m-%d` date.
    InvalidDate,
    /// A day of the range has no date.
    OutOfRange,
}

/// The daily periods from day `start` up to, not including, day `end`: for
/// each day its date and the next day's date. None when a date in the
/// range cannot be written.
pub open spec fn day_periods(start: int, end: int) -> Option<Seq<(Seq<char>, Seq<char>)>>
    decreases end - start,
{
    if start >= end {
        Some(Seq::empty())
    } else if start + 1 > i32::MAX {
        None
    } else {
        match (day_ymd(start as i32), day_ymd((start + 1) as i32), day_periods(start + 1, end)) {
            (Some(a), Some(b), Some(rest)) => Some(seq![(a, b)] + rest),
            _ => None,
        }
    }
}

/// The periods of the submission check, from the start date in `stored`
/// (trimmed) or `default_start` when nothing is stored, to the day `end`.
pub open spec fn check_periods(stored: Option<Seq<char>>, default_start: Seq<char>, end: int) -> Result<
    Seq<(Seq<char>, Seq<char>)>,
    PeriodError,
> {
    let text = match stored {
        Some(s) => trimmed(s),
        None => default_start,
    };
    match ymd_day(text) {
        None => Err(PeriodError::InvalidDate),
        Some(start) => match day_periods(start as int, end) {
            Some(p) => Ok(p),
            None => Err(PeriodError::OutOfRange),
        },
    }
}

/// The texts of a list of periods.
pub open spec fn period_texts(v: Seq<(String, String)>) -> Seq<(Seq<char>, Seq<char>)> {
    v.map_values(|p: (String, String)| (p.0@, p.1@))
}

/// The daily periods from the start date to, not including, day `end`
/// (the day after today): each day's date with the next day's date.
pub fn generate_date_periods(stored: Option<&str>, default_start: &str, end: i32) -> (r: Result<
    Vec<(String, String)>,
    PeriodError,
>)
    ensures
        match r {
            Ok(v) => check_periods(
                match stored {
                    Some(s) => Some(s@),
                    None => None,
                },
                default_start@,
                end as int,
            ) == Ok::<Seq<(Seq<char>, Seq<char>)>, PeriodError>(period_texts(v@)),
            Err(e) => check_periods(
                match stored {
                    Some(s) => Some(s@),
                    None => None,
                },
                default_start@,
                end as int,
            ) == Err::<Seq<(Seq<char>, Seq<char>)>, PeriodError>(e),
        },
{
    let text: &str = match stored {
        Some(s) => trim(s),
        None => default_start,
    };
    let start = match parse_ymd(text) {
        Some(d) => d,
        None => return Err(PeriodError::InvalidDate),
    };
    match periods_from_day(start, end) {
        Some(v) => Ok(v),
        None => Err(PeriodError::OutOfRange),
    }
}

/// The daily periods from day `start` up to, not including, day `end`;
/// none when a date of the range cannot be written.
pub fn periods_from_day(start: i32, end: i32) -> (r: Option<Vec<(String, String)>>)
    ensures
        match r {
            Some(v) => day_periods(start as int, end as int) == Some(period_texts(v@)),
            None => day_periods(start as int, end as int) is None,
        },
{
    let mut out: Vec<(String, String)> = Vec::new();
    let mut current: i32 = start;
    proof {
        assert(period_texts(out@) =~= Seq::<(Seq<char>, Seq<char>)>::empty());
        match day_periods(start as int, end as int) {
            Some(rest) => {
                assert(period_texts(out@) + rest =~= rest);
            },
            None => {},
        }
    }
    while current < end
        invariant
            start <= current,
            day_periods(start as int, end as int) == match day_periods(current as int, end as int) {
                Some(rest) => Some(period_texts(out@) + rest),
                None => None::<Seq<(Seq<char>, Seq<char>)>>,
            },
        decreases end - current,
    {
        let a = match format_day(current) {
            Some(a) => a,
            None => {
                assert(day_periods(current as int, end as int) is None);
                return None;
            },
        };
        let next = current + 1;
        let b = match format_day(next) {
            Some(b) => b,
            None => {
                assert(day_periods(current as int, end as int) is None);
                return None;
            },
        };
        let ghost before = period_texts(out@);
        out.push((a, b));
        proof {
            assert(period_texts(out@) =~= before.push((a@, b@)));
            match day_periods(next as int, end as int) {
                Some(rest) => {
                    assert(before + (seq![(a@, b@)] + rest) =~= before.push((a@, b@)) + rest);
                },
                None => {},
            }
        }
        current = next;
    }
    assert(period_texts(out@) + Seq::<(Seq<char>, Seq<char>)>::empty() =~= period_texts(out@));
    Some(out)
}

/// The date before which a period is settled: three days before today.
pub fn settled_cutoff(today: i32) -> (r: Option<String>)
    requires
        today >= i32::MIN + 3,
    ensures
        match r {
            Some(s) => day_ymd((today - 3) as i32) == Some(s@),
            None => day_ymd((today - 3) as i32) is None,
        },
{
    format_day(today - 3)
}

/// Whether the stored start date moves on to the end of a checked period:
/// when that end date comes, as text, before the settled cutoff.
pub fn advances_start(end_date: &str, cutoff: &str) -> (r: bool)
    ensures
        r == text_lt(end_date@, cutoff@),
{
    text_less(end_date, cutoff)
}


/// The periods cover the range day by day: one per day, each starting on
/// its own day and ending on the next, where the next period starts.
pub proof fn lemma_day_periods_chain(start: int, end: int)
    requires
        day_periods(start, end) is Some,
    ensures
        ({
            let p = day_periods(start, end).unwrap();
            &&& p.len() == if end > start {
                end - start
            } else {
                0
            }
            &&& forall|i: int| 0 <= i < p.len() ==> day_ymd((start + i) as i32) == Some(#[trigger] p[i].0)
            &&& forall|i: int| 0 <= i < p.len() ==> day_ymd((start + i + 1) as i32) == Some(#[trigger] p[i].1)
            &&& forall|i: int| 0 <= i < p.len() - 1 ==> #[trigger] p[i].1 == p[i + 1].0
        }),
    decreases end - start,
{
    if start < end {
        lemma_day_periods_chain(start + 1, end);
        let p = day_periods(start, end).unwrap();
        let rest = day_periods(start + 1, end).unwrap();
        assert(p == seq![p[0]] + rest);
        assert forall|i: int| 0 <= i < p.len() implies day_ymd((start + i) as i32) == Some(#[trigger] p[i].0) by {
            if i > 0 {
                assert(p[i] == rest[i - 1]);
                assert(start + 1 + (i - 1) == start + i);
            }
        }
        assert forall|i: int| 0 <= i < p.len() implies day_ymd((start + i + 1) as i32) == Some(#[trigger] p[i].1) by {
            if i > 0 {
                assert(p[i] == rest[i - 1]);
                assert(start + 1 + (i - 1) + 1 == start + i + 1);
            }
        }
        assert forall|i: int| 0 <= i < p.len() - 1 implies #[trigger] p[i].1 == p[i + 1].0 by {
            assert(day_ymd((start + i + 1) as i32) == Some(p[i].1));
            assert(day_ymd((start + (i + 1)) as i32) == Some(p[i + 1].0));
        }
    }
}


/// The stored start date reads back as written: a date text without
/// surrounding white space, stored as a line of its own, gives the same
/// periods as the text itself.
pub proof fn lemma_stored_start_read_back(date: Seq<char>, default_start: Seq<char>, end: int)
    requires
        date.len() > 0,
        !is_ws(date[0]),
        !is_ws(date.last()),
    ensures
        check_periods(Some(date.push('\n')), default_start, end) == check_periods(Some(date), default_start, end),
        trimmed(date.push('\n')) == date,
{
    let s = date.push('\n');
    let n = date.len() as int;
    assert(s[0] == date[0]);
    assert(s[n - 1] == date[n - 1]);
    assert(is_ws(s[n]));
    lemma_strip_both_at(s, |c: char| is_ws(c), 0, n);
    assert(s.subrange(0, n) =~= date);
    lemma_strip_both_at(date, |c: char| is_ws(c), 0, n);
    assert(date.subrange(0, n) =~= date);
}

} // verus!
