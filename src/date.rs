use vstd::prelude::*;
use chrono::Datelike;
use crate::text::{digit_char, push_char};

verus! {

/// A calendar date as plain values: year, month (1 to 12), day of the month
/// (1 to 31) and weekday counted from Monday (0 to 6).
pub type DateModel = (int, int, int, int);

/// The date that `s` denotes when read with the layout `layout`, or `None`.
pub uninterp spec fn date_read_as(s: Seq<char>, layout: Seq<char>) -> Option<DateModel>;

/// Relies on `chrono::DateTime::parse_from_str` and the `Datelike` accessors
/// of the result: its year, month, day and weekday in its own offset.
#[verifier::external_body]
fn read_date(s: &str, layout: &str) -> (r: Option<(i32, u32, u32, u32)>)
    ensures
        r is None <==> date_read_as(s@, layout@) is None,
        r matches Some(d) ==> date_read_as(s@, layout@) == Some(
            (d.0 as int, d.1 as int, d.2 as int, d.3 as int),
        ),
{
    match chrono::DateTime::parse_from_str(s, layout) {
        Ok(d) => Some((d.year(), d.month(), d.day(), d.weekday().num_days_from_monday())),
        Err(_) => None,
    }
}

/// The layout of dates in RSS documents.
pub open spec fn rss_date_layout() -> Seq<char> {
    "%a, %d %b %Y %H:%M:%S %z"@
}

/// The three-letter name of a weekday counted from Monday.
pub open spec fn weekday_abbr(w: int) -> Seq<char> {
    if w == 0 {
        "Mon"@
    } else if w == 1 {
        "Tue"@
    } else if w == 2 {
        "Wed"@
    } else if w == 3 {
        "Thu"@
    } else if w == 4 {
        "Fri"@
    } else if w == 5 {
        "Sat"@
    } else {
        "Sun"@
    }
}

/// The three-letter name of a month counted from January as 1.
pub open spec fn month_abbr(m: int) -> Seq<char> {
    if m == 1 {
        "Jan"@
    } else if m == 2 {
        "Feb"@
    } else if m == 3 {
        "Mar"@
    } else if m == 4 {
        "Apr"@
    } else if m == 5 {
        "May"@
    } else if m == 6 {
        "Jun"@
    } else if m == 7 {
        "Jul"@
    } else if m == 8 {
        "Aug"@
    } else if m == 9 {
        "Sep"@
    } else if m == 10 {
        "Oct"@
    } else if m == 11 {
        "Nov"@
    } else {
        "Dec"@
    }
}

/// The last `k` decimal digits of `n`, zero-padded.
pub open spec fn padded(n: nat, k: nat) -> Seq<char>
    decreases k,
{
    if k == 0 {
        Seq::empty()
    } else {
        padded(n / 10, (k - 1) as nat).push(digit_char(n % 10))
    }
}

/// A date as `Thu, 23 May 2024`.
pub open spec fn date_text(d: DateModel) -> Seq<char> {
    weekday_abbr(d.3) + ", "@ + padded(d.2 as nat, 2) + " "@ + month_abbr(d.1) + " "@ + padded(
        d.0 as nat,
        4,
    )
}

/// How a publish date `s` is shown, given the date read from it: the day it
/// names, or `s` as written where it could not be read or lies outside the
/// years 0 to 9999.
pub open spec fn shown_from(s: Seq<char>, parsed: Option<DateModel>) -> Seq<char> {
    match parsed {
        Some(d) => if 0 <= d.0 <= 9999 {
            date_text(d)
        } else {
            s
        },
        None => s,
    }
}

/// How an item's publish date is shown.
pub open spec fn shown_date(s: Seq<char>) -> Seq<char> {
    shown_from(s, date_read_as(s, rss_date_layout()))
}

/// A read date as plain values.
pub open spec fn date_model(parsed: Option<(i32, u32, u32, u32)>) -> Option<DateModel> {
    match parsed {
        Some(d) => Some((d.0 as int, d.1 as int, d.2 as int, d.3 as int)),
        None => None,
    }
}

fn append_padded(out: &mut String, n: u32, k: u32)
    requires
        k <= 4,
    ensures
        final(out)@ == old(out)@ + padded(n as nat, k as nat),
    decreases k,
{
    if k > 0 {
        append_padded(out, n / 10, k - 1);
        let c = (((n % 10) as u8) + 48) as char;
        push_char(out, c);
    }
}

fn weekday_str(w: u32) -> (r: &'static str)
    ensures
        r@ == weekday_abbr(w as int),
{
    if w == 0 {
        "Mon"
    } else if w == 1 {
        "Tue"
    } else if w == 2 {
        "Wed"
    } else if w == 3 {
        "Thu"
    } else if w == 4 {
        "Fri"
    } else if w == 5 {
        "Sat"
    } else {
        "Sun"
    }
}

fn month_str(m: u32) -> (r: &'static str)
    ensures
        r@ == month_abbr(m as int),
{
    if m == 1 {
        "Jan"
    } else if m == 2 {
        "Feb"
    } else if m == 3 {
        "Mar"
    } else if m == 4 {
        "Apr"
    } else if m == 5 {
        "May"
    } else if m == 6 {
        "Jun"
    } else if m == 7 {
        "Jul"
    } else if m == 8 {
        "Aug"
    } else if m == 9 {
        "Sep"
    } else if m == 10 {
        "Oct"
    } else if m == 11 {
        "Nov"
    } else {
        "Dec"
    }
}

/// How the publish date `s` is shown, given the year, month, day and weekday
/// (counted from Monday) read from it, or `None` where it could not be read.
pub fn show_read_date(s: &str, parsed: Option<(i32, u32, u32, u32)>) -> (r: String)
    ensures
        r@ == shown_from(s@, date_model(parsed)),
{
    match parsed {
        Some((year, month, day, weekday)) => {
            if 0 <= year && year <= 9999 {
                let mut r = String::from_str(weekday_str(weekday));
                r.append(", ");
                append_padded(&mut r, day, 2);
                r.append(" ");
                r.append(month_str(month));
                r.append(" ");
                append_padded(&mut r, year as u32, 4);
                assert(r@ =~= date_text((year as int, month as int, day as int, weekday as int)));
                r
            } else {
                String::from_str(s)
            }
        },
        None => String::from_str(s),
    }
}

/// How a publish date from a feed is shown.
pub fn display_date(s: &str) -> (r: String)
    ensures
        r@ == shown_date(s@),
{
    let layout = "%a, %d %b %Y %H:%M:%S %z";
    assert(layout@ == rss_date_layout());
    show_read_date(s, read_date(s, layout))
}

} // verus!
