//! Capture dates written into file names by cameras and phones.
//!
//! Three layouts are recognised, tried in this order, each at its leftmost
//! occurrence in the name:
//! - `YYYYMMDD` then `_` or `-` then `HHMMSS`;
//! - `YYYY-MM-DD` then `_` or `T` then `HH-MM-SS`;
//! - `YYYYMMDD` alone, at midnight.
//! A layout whose leftmost occurrence is not a real date and time gives way
//! to the next one.
use vstd::prelude::*;
use crate::datetime::LocalDateTime;
use crate::text::{chars_of, digit_value, is_ascii_digit};

verus! {

/// `s[i..i + n]` are ASCII digits.
pub open spec fn digits_at(s: Seq<char>, i: int, n: int) -> bool {
    &&& 0 <= i
    &&& i + n <= s.len()
    &&& forall|k: int| i <= k < i + n ==> #[trigger] is_ascii_digit(s[k])
}

/// The decimal number written by the `n` characters at `i`.
pub open spec fn number_at(s: Seq<char>, i: int, n: int) -> nat
    decreases n,
{
    if n <= 0 {
        0
    } else {
        number_at(s, i, n - 1) * 10 + digit_value(s[i + n - 1])
    }
}

pub open spec fn pow10(n: nat) -> nat
    decreases n,
{
    if n == 0 {
        1
    } else {
        10 * pow10((n - 1) as nat)
    }
}

/// `YYYYMMDD` + (`_` | `-`) + `HHMMSS` at `i`.
pub open spec fn compact_at(s: Seq<char>, i: int) -> bool {
    &&& digits_at(s, i, 8)
    &&& digits_at(s, i + 9, 6)
    &&& (s[i + 8] == '_' || s[i + 8] == '-')
}

/// `YYYY-MM-DD` + (`_` | `T`) + `HH-MM-SS` at `i`.
pub open spec fn dashed_at(s: Seq<char>, i: int) -> bool {
    &&& digits_at(s, i, 4)
    &&& digits_at(s, i + 5, 2)
    &&& digits_at(s, i + 8, 2)
    &&& digits_at(s, i + 11, 2)
    &&& digits_at(s, i + 14, 2)
    &&& digits_at(s, i + 17, 2)
    &&& s[i + 4] == '-'
    &&& s[i + 7] == '-'
    &&& (s[i + 10] == '_' || s[i + 10] == 'T')
    &&& s[i + 13] == '-'
    &&& s[i + 16] == '-'
}

/// Layout `k` (0: compact date and time, 1: dashed date and time, 2: date
/// alone) occurs at `i`.
pub open spec fn layout_at(s: Seq<char>, k: int, i: int) -> bool {
    if k == 0 {
        compact_at(s, i)
    } else if k == 1 {
        dashed_at(s, i)
    } else {
        digits_at(s, i, 8)
    }
}

/// Leftmost occurrence of layout `k` at or after `i`.
pub open spec fn first_occurrence(s: Seq<char>, k: int, i: int) -> Option<int>
    decreases s.len() - i,
{
    if i < 0 || i >= s.len() {
        None
    } else if layout_at(s, k, i) {
        Some(i)
    } else {
        first_occurrence(s, k, i + 1)
    }
}

/// The date and time that layout `k` writes at `i`.
pub open spec fn fields_at(s: Seq<char>, k: int, i: int) -> LocalDateTime {
    if k == 0 {
        LocalDateTime {
            year: number_at(s, i, 4) as i32,
            month: number_at(s, i + 4, 2) as u32,
            day: number_at(s, i + 6, 2) as u32,
            hour: number_at(s, i + 9, 2) as u32,
            minute: number_at(s, i + 11, 2) as u32,
            second: number_at(s, i + 13, 2) as u32,
            nanosecond: 0,
        }
    } else if k == 1 {
        LocalDateTime {
            year: number_at(s, i, 4) as i32,
            month: number_at(s, i + 5, 2) as u32,
            day: number_at(s, i + 8, 2) as u32,
            hour: number_at(s, i + 11, 2) as u32,
            minute: number_at(s, i + 14, 2) as u32,
            second: number_at(s, i + 17, 2) as u32,
            nanosecond: 0,
        }
    } else {
        LocalDateTime {
            year: number_at(s, i, 4) as i32,
            month: number_at(s, i + 4, 2) as u32,
            day: number_at(s, i + 6, 2) as u32,
            hour: 0,
            minute: 0,
            second: 0,
            nanosecond: 0,
        }
    }
}

/// The date that layout `k` gives for the name, if its leftmost occurrence is
/// a real date and time.
pub open spec fn layout_date(s: Seq<char>, k: int) -> Option<LocalDateTime> {
    match first_occurrence(s, k, 0) {
        Some(i) => if fields_at(s, k, i).wf() {
            Some(fields_at(s, k, i))
        } else {
            None
        },
        None => None,
    }
}

/// The date a file name carries: the first layout that gives one.
pub open spec fn file_name_date(s: Seq<char>) -> Option<LocalDateTime> {
    if layout_date(s, 0) is Some {
        layout_date(s, 0)
    } else if layout_date(s, 1) is Some {
        layout_date(s, 1)
    } else {
        layout_date(s, 2)
    }
}

pub(crate) fn digits_at_exec(cs: &Vec<char>, i: usize, n: usize) -> (r: bool)
    ensures
        r == digits_at(cs@, i as int, n as int),
{
    if i > cs.len() || n > cs.len() - i {
        return false;
    }
    let end = i + n;
    let mut k: usize = i;
    while k < end
        invariant
            end == i + n,
            i <= k <= end,
            end <= cs@.len(),
            forall|m: int| i <= m < k ==> #[trigger] is_ascii_digit(cs@[m]),
        decreases end - k,
    {
        if !('0' <= cs[k] && cs[k] <= '9') {
            assert(!is_ascii_digit(cs@[k as int]));
            return false;
        }
        k = k + 1;
    }
    true
}

pub(crate) fn number_at_exec(cs: &Vec<char>, i: usize, n: usize) -> (r: u32)
    requires
        digits_at(cs@, i as int, n as int),
        n <= 4,
    ensures
        r == number_at(cs@, i as int, n as int),
        r < pow10(n as nat),
        r <= 9999,
{
    let len = cs.len();
    let mut acc: u32 = 0;
    let mut k: usize = 0;
    while k < n
        invariant
            digits_at(cs@, i as int, n as int),
            n <= 4,
            len == cs@.len(),
            k <= n,
            acc == number_at(cs@, i as int, k as int),
            acc < pow10(k as nat),
            pow10(k as nat) <= 10000,
        decreases n - k,
    {
        assert(is_ascii_digit(cs@[i + k]));
        let d = (cs[i + k] as u32) - 48;
        assert(pow10((k + 1) as nat) == 10 * pow10(k as nat));
        assert(k + 1 <= 4 ==> pow10((k + 1) as nat) <= 10000) by {
            reveal_with_fuel(pow10, 5);
        }
        acc = acc * 10 + d;
        k = k + 1;
    }
    proof {
        reveal_with_fuel(pow10, 5);
    }
    acc
}

fn layout_at_exec(cs: &Vec<char>, k: u8, i: usize) -> (r: bool)
    requires
        i < cs@.len(),
    ensures
        r == layout_at(cs@, k as int, i as int),
{
    let len = cs.len();
    if k == 0 {
        len - i >= 15 && digits_at_exec(cs, i, 8) && digits_at_exec(cs, i + 9, 6) && (cs[i
            + 8] == '_' || cs[i + 8] == '-')
    } else if k == 1 {
        len - i >= 19 && digits_at_exec(cs, i, 4) && digits_at_exec(cs, i + 5, 2)
            && digits_at_exec(cs, i + 8, 2) && digits_at_exec(cs, i + 11, 2) && digits_at_exec(
            cs,
            i + 14,
            2,
        ) && digits_at_exec(cs, i + 17, 2) && cs[i + 4] == '-' && cs[i + 7] == '-' && (cs[i + 10]
            == '_' || cs[i + 10] == 'T') && cs[i + 13] == '-' && cs[i + 16] == '-'
    } else {
        digits_at_exec(cs, i, 8)
    }
}

fn first_occurrence_exec(cs: &Vec<char>, k: u8) -> (r: Option<usize>)
    ensures
        match first_occurrence(cs@, k as int, 0) {
            Some(i) => r == Some(i as usize),
            None => r is None,
        },
{
    let mut i: usize = 0;
    while i < cs.len()
        invariant
            i <= cs@.len(),
            first_occurrence(cs@, k as int, 0) == first_occurrence(cs@, k as int, i as int),
        decreases cs.len() - i,
    {
        if layout_at_exec(cs, k, i) {
            return Some(i);
        }
        i = i + 1;
    }
    None
}

/// An occurrence found at or after `j` is one.
proof fn lemma_first_occurrence(s: Seq<char>, k: int, j: int)
    requires
        j >= 0,
    ensures
        first_occurrence(s, k, j) matches Some(i) ==> j <= i < s.len() && layout_at(s, k, i),
    decreases s.len() - j,
{
    if j < s.len() && !layout_at(s, k, j) {
        lemma_first_occurrence(s, k, j + 1);
    }
}

fn layout_date_exec(cs: &Vec<char>, k: u8) -> (r: Option<LocalDateTime>)
    ensures
        r == layout_date(cs@, k as int),
{
    let len = cs.len();
    proof {
        lemma_first_occurrence(cs@, k as int, 0);
    }
    match first_occurrence_exec(cs, k) {
        Some(i) => {
            assert(first_occurrence(cs@, k as int, 0) == Some(i as int));
            assert(layout_at(cs@, k as int, i as int));
            let d = if k == 0 {
                LocalDateTime {
                    year: number_at_exec(cs, i, 4) as i32,
                    month: number_at_exec(cs, i + 4, 2),
                    day: number_at_exec(cs, i + 6, 2),
                    hour: number_at_exec(cs, i + 9, 2),
                    minute: number_at_exec(cs, i + 11, 2),
                    second: number_at_exec(cs, i + 13, 2),
                    nanosecond: 0,
                }
            } else if k == 1 {
                assert(dashed_at(cs@, i as int));
                LocalDateTime {
                    year: number_at_exec(cs, i, 4) as i32,
                    month: number_at_exec(cs, i + 5, 2),
                    day: number_at_exec(cs, i + 8, 2),
                    hour: number_at_exec(cs, i + 11, 2),
                    minute: number_at_exec(cs, i + 14, 2),
                    second: number_at_exec(cs, i + 17, 2),
                    nanosecond: 0,
                }
            } else {
                assert(digits_at(cs@, i as int, 8));
                assert(digits_at(cs@, i as int, 4));
                assert(digits_at(cs@, i + 4, 2));
                assert(digits_at(cs@, i + 6, 2));
                LocalDateTime {
                    year: number_at_exec(cs, i, 4) as i32,
                    month: number_at_exec(cs, i + 4, 2),
                    day: number_at_exec(cs, i + 6, 2),
                    hour: 0,
                    minute: 0,
                    second: 0,
                    nanosecond: 0,
                }
            };
            assert(d == fields_at(cs@, k as int, i as int));
            if d.is_valid() {
                Some(d)
            } else {
                None
            }
        },
        None => None,
    }
}

/// The capture date written in a file name, by the first layout whose
/// leftmost occurrence is a real date and time.
pub fn extract_date_from_filename(filename: &str) -> (r: Option<LocalDateTime>)
    ensures
        r == file_name_date(filename@),
        r matches Some(d) ==> d.wf(),
{
    let cs = chars_of(filename);
    let d0 = layout_date_exec(&cs, 0);
    if d0.is_some() {
        return d0;
    }
    let d1 = layout_date_exec(&cs, 1);
    if d1.is_some() {
        return d1;
    }
    layout_date_exec(&cs, 2)
}

} // verus!
