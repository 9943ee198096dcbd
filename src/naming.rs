//! Output names derived from a capture time: file names and the
//! year / month / day directory hierarchy.
use vstd::prelude::*;
use crate::datetime::LocalDateTime;
use crate::text::{padded, push_padded, push_str};

verus! {

/// `YYYY-MM-DD_HH-MM-SS`.
pub open spec fn timestamp_text(d: LocalDateTime) -> Seq<char> {
    padded(d.year as nat, 4) + seq!['-'] + padded(d.month as nat, 2) + seq!['-'] + padded(
        d.day as nat,
        2,
    ) + seq!['_'] + padded(d.hour as nat, 2) + seq!['-'] + padded(d.minute as nat, 2) + seq!['-']
        + padded(d.second as nat, 2)
}

/// The timestamp, followed by `-SSS` (milliseconds, zero-padded) when a
/// subsecond value is known.
pub open spec fn base_text(d: LocalDateTime, subsec: Option<u32>) -> Seq<char> {
    match subsec {
        Some(ms) => timestamp_text(d) + seq!['-'] + padded(ms as nat, 3),
        None => timestamp_text(d),
    }
}

/// `<base>.<ext>`.
pub open spec fn file_name_text(d: LocalDateTime, subsec: Option<u32>, ext: Seq<char>) -> Seq<char> {
    base_text(d, subsec) + seq!['.'] + ext
}

/// `<base>_NN.<ext>`: a burst index or a collision counter, at least two digits.
pub open spec fn numbered_name_text(d: LocalDateTime, subsec: Option<u32>, n: nat, ext: Seq<char>) -> Seq<
    char,
> {
    base_text(d, subsec) + seq!['_'] + padded(n, 2) + seq!['.'] + ext
}

/// `YYYY`.
pub open spec fn year_dir_text(d: LocalDateTime) -> Seq<char> {
    padded(d.year as nat, 4)
}

/// `YYYY-MM`.
pub open spec fn month_dir_text(d: LocalDateTime) -> Seq<char> {
    year_dir_text(d) + seq!['-'] + padded(d.month as nat, 2)
}

/// `YYYY-MM-DD`.
pub open spec fn day_dir_text(d: LocalDateTime) -> Seq<char> {
    month_dir_text(d) + seq!['-'] + padded(d.day as nat, 2)
}

fn push_timestamp(s: &mut String, d: &LocalDateTime)
    requires
        d.wf(),
    ensures
        final(s)@ == old(s)@ + timestamp_text(*d),
{
    push_padded(s, d.year as u64, 4);
    s.push('-');
    push_padded(s, d.month as u64, 2);
    s.push('-');
    push_padded(s, d.day as u64, 2);
    s.push('_');
    push_padded(s, d.hour as u64, 2);
    s.push('-');
    push_padded(s, d.minute as u64, 2);
    s.push('-');
    push_padded(s, d.second as u64, 2);
    assert(s@ =~= old(s)@ + timestamp_text(*d));
}

/// The base of every output name: `YYYY-MM-DD_HH-MM-SS`, with `-SSS` when
/// the subsecond is known.
pub fn base_name(date: &LocalDateTime, subsec: Option<u32>) -> (r: String)
    requires
        date.wf(),
    ensures
        r@ == base_text(*date, subsec),
{
    let mut s = String::new();
    push_timestamp(&mut s, date);
    if let Some(ms) = subsec {
        s.push('-');
        push_padded(&mut s, ms as u64, 3);
    }
    assert(s@ =~= base_text(*date, subsec));
    s
}

/// The output name of a record outside any burst: `<base>.<extension>`.
pub fn format_filename(date: &LocalDateTime, subsec: Option<u32>, extension: &str) -> (r: String)
    requires
        date.wf(),
    ensures
        r@ == file_name_text(*date, subsec, extension@),
{
    let mut s = base_name(date, subsec);
    s.push('.');
    push_str(&mut s, extension);
    assert(s@ =~= file_name_text(*date, subsec, extension@));
    s
}

/// A numbered output name, `<base>_NN.<extension>`, used for burst members
/// and to step around names already taken.
pub fn numbered_filename(date: &LocalDateTime, subsec: Option<u32>, n: u64, extension: &str) -> (r:
    String)
    requires
        date.wf(),
    ensures
        r@ == numbered_name_text(*date, subsec, n as nat, extension@),
{
    let mut s = base_name(date, subsec);
    s.push('_');
    push_padded(&mut s, n, 2);
    s.push('.');
    push_str(&mut s, extension);
    assert(s@ =~= numbered_name_text(*date, subsec, n as nat, extension@));
    s
}

/// The directories, outermost first, under which a file taken at `date` is
/// placed: `YYYY`, `YYYY-MM`, `YYYY-MM-DD`.
pub fn date_hierarchy(date: &LocalDateTime) -> (r: Vec<String>)
    requires
        date.wf(),
    ensures
        r@.len() == 3,
        r@[0]@ == year_dir_text(*date),
        r@[1]@ == month_dir_text(*date),
        r@[2]@ == day_dir_text(*date),
{
    let mut year = String::new();
    push_padded(&mut year, date.year as u64, 4);
    let mut month = year.clone();
    month.push('-');
    push_padded(&mut month, date.month as u64, 2);
    let mut day = month.clone();
    day.push('-');
    push_padded(&mut day, date.day as u64, 2);
    let mut r = Vec::new();
    r.push(year);
    r.push(month);
    r.push(day);
    r
}

} // verus!
