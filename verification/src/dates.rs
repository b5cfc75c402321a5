//! Release-date handling.
//!
//! The catalogs hand out release dates as strings shaped `Y`, `Y-M` or
//! `Y-M-D`.  A date coarser than a day is filled with a fixed midpoint —
//! day-of-year 183 for a year-only date, day 15 for a month-only date — so
//! that distance scoring degrades gracefully instead of biasing toward
//! January 1.  The parsed date becomes a proleptic Gregorian day number
//! (January 1 of year 1 is day 1); the calendar arithmetic itself is
//! delegated to `chrono`.

use vstd::prelude::*;
use crate::text::{all_digits, dec_val};

verus! {

/// Whether `y` is a leap year in the proleptic Gregorian calendar.
pub open spec fn is_leap(y: int) -> bool {
    (y % 4 == 0 && y % 100 != 0) || y % 400 == 0
}

/// Days in month `m` of year `y`.
pub open spec fn days_in_month(y: int, m: int) -> int {
    if m == 1 || m == 3 || m == 5 || m == 7 || m == 8 || m == 10 || m == 12 {
        31
    } else if m == 4 || m == 6 || m == 9 || m == 11 {
        30
    } else if is_leap(y) {
        29
    } else {
        28
    }
}

/// Days in year `y`.
pub open spec fn days_in_year(y: int) -> int {
    if is_leap(y) {
        366
    } else {
        365
    }
}

/// Whether year, month and day name an existing calendar date that the
/// calendar library can represent (its years span -262143 to 262142).
pub open spec fn valid_ymd(y: int, m: int, d: int) -> bool {
    -262143 <= y <= 262142 && 1 <= m <= 12 && 1 <= d <= days_in_month(y, m)
}

/// Whether year and day-of-year name an existing, representable date.
pub open spec fn valid_yo(y: int, o: int) -> bool {
    -262143 <= y <= 262142 && 1 <= o <= days_in_year(y)
}

/// The day number of the calendar date `y-m-d`.
pub uninterp spec fn ymd_day_number(y: int, m: int, d: int) -> int;

/// The day number of day `o` of year `y`.
pub uninterp spec fn yo_day_number(y: int, o: int) -> int;

/// Relies on `chrono::NaiveDate::from_ymd_opt`, which returns a date exactly
/// for the existing proleptic Gregorian calendar dates within chrono's year
/// range, and on `chrono::Datelike::num_days_from_ce`, which counts days
/// with January 1 of year 1 as day 1.
#[verifier::external_body]
pub(crate) fn ymd_days(y: i32, m: u32, d: u32) -> (r: Option<i32>)
    ensures
        r is Some <==> valid_ymd(y as int, m as int, d as int),
        r matches Some(v) ==> v == ymd_day_number(y as int, m as int, d as int),
{
    chrono::NaiveDate::from_ymd_opt(y, m, d).map(|nd| chrono::Datelike::num_days_from_ce(&nd))
}

/// Relies on `chrono::NaiveDate::from_yo_opt`, which returns a date exactly
/// for the existing ordinal dates within chrono's year range, and on
/// `chrono::Datelike::num_days_from_ce` as above.
#[verifier::external_body]
pub(crate) fn yo_days(y: i32, o: u32) -> (r: Option<i32>)
    ensures
        r is Some <==> valid_yo(y as int, o as int),
        r matches Some(v) ==> v == yo_day_number(y as int, o as int),
{
    chrono::NaiveDate::from_yo_opt(y, o).map(|nd| chrono::Datelike::num_days_from_ce(&nd))
}

/// `s` split on `'-'`: the empty string is one empty part, and every dash
/// opens a new part.
pub open spec fn split_dash(s: Seq<char>) -> Seq<Seq<char>>
    decreases s.len(),
{
    if s.len() == 0 {
        seq![Seq::<char>::empty()]
    } else {
        let rest = split_dash(s.drop_first());
        if s[0] == '-' {
            seq![Seq::<char>::empty()] + rest
        } else {
            seq![seq![s[0]] + rest[0]] + rest.drop_first()
        }
    }
}

/// Splitting yields at least one part.
pub proof fn lemma_split_dash_len(s: Seq<char>)
    ensures
        split_dash(s).len() >= 1,
    decreases s.len(),
{
    if s.len() > 0 {
        lemma_split_dash_len(s.drop_first());
    }
}

/// A string without a dash is a single part.
proof fn lemma_split_no_dash(s: Seq<char>)
    requires
        forall|j: int| 0 <= j < s.len() ==> s[j] != '-',
    ensures
        split_dash(s) == seq![s],
    decreases s.len(),
{
    if s.len() == 0 {
        assert(s =~= Seq::<char>::empty());
        assert(split_dash(s) =~= seq![s]);
    } else {
        let t = s.drop_first();
        lemma_split_no_dash(t);
        assert(seq![s[0]] + t =~= s);
        assert(split_dash(s) =~= seq![s]);
    }
}

/// Splitting at the first dash: the prefix before it is the first part and
/// the rest is split on its own.
proof fn lemma_split_first_dash(s: Seq<char>, i: int)
    requires
        0 <= i < s.len(),
        s[i] == '-',
        forall|j: int| 0 <= j < i ==> s[j] != '-',
    ensures
        split_dash(s) == seq![s.subrange(0, i)] + split_dash(s.skip(i + 1)),
    decreases i,
{
    if i == 0 {
        assert(s.subrange(0, 0) =~= Seq::<char>::empty());
        assert(s.skip(1) =~= s.drop_first());
        assert(split_dash(s) =~= seq![s.subrange(0, 0)] + split_dash(s.skip(1)));
    } else {
        let t = s.drop_first();
        assert(forall|j: int| 0 <= j < i - 1 ==> t[j] == s[j + 1]);
        lemma_split_first_dash(t, i - 1);
        let rest = split_dash(t);
        assert(rest == seq![t.subrange(0, i - 1)] + split_dash(t.skip(i)));
        assert(rest[0] == t.subrange(0, i - 1));
        assert(rest.drop_first() =~= split_dash(t.skip(i)));
        assert(seq![s[0]] + t.subrange(0, i - 1) =~= s.subrange(0, i));
        assert(t.skip(i) =~= s.skip(i + 1));
        assert(split_dash(s) =~= seq![s.subrange(0, i)] + split_dash(s.skip(i + 1)));
    }
}

/// The date string split into its dash-separated parts, when there are at
/// most three.
enum DateParts {
    One(String),
    Two(String, String),
    Three(String, String, String),
    TooMany,
}

/// The first dash of `s` at or after position `from`.
fn find_dash(s: &str, from: usize) -> (r: Option<usize>)
    requires
        from <= s@.len(),
    ensures
        r matches Some(i) ==> from <= i < s@.len() && s@[i as int] == '-' && (forall|j: int|
            from <= j < i ==> s@[j] != '-'),
        r is None ==> forall|j: int| from <= j < s@.len() ==> s@[j] != '-',
{
    let n = s.unicode_len();
    let mut i: usize = from;
    while i < n
        invariant
            n == s@.len(),
            from <= i <= n,
            forall|j: int| from <= j < i ==> s@[j] != '-',
        decreases n - i,
    {
        if s.get_char(i) == '-' {
            return Some(i);
        }
        i = i + 1;
    }
    None
}

/// Split a date string on dashes into at most three parts.
fn split_parts(s: &str) -> (r: DateParts)
    ensures
        r matches DateParts::One(a) ==> split_dash(s@) == seq![a@],
        r matches DateParts::Two(a, b) ==> split_dash(s@) == seq![a@, b@],
        r matches DateParts::Three(a, b, c) ==> split_dash(s@) == seq![a@, b@, c@],
        r is TooMany ==> split_dash(s@).len() > 3,
{
    let n = s.unicode_len();
    match find_dash(s, 0) {
        None => {
            proof {
                lemma_split_no_dash(s@);
            }
            DateParts::One(s.to_owned())
        },
        Some(i1) => {
            proof {
                lemma_split_first_dash(s@, i1 as int);
            }
            let ghost tail1 = s@.skip(i1 + 1);
            match find_dash(s, i1 + 1) {
                None => {
                    proof {
                        assert(forall|j: int|
                            0 <= j < tail1.len() ==> tail1[j] == s@[i1 + 1 + j]);
                        lemma_split_no_dash(tail1);
                        assert(seq![s@.subrange(0, i1 as int)] + seq![tail1] =~= seq![
                            s@.subrange(0, i1 as int),
                            tail1,
                        ]);
                    }
                    let a = s.substring_char(0, i1);
                    let b = s.substring_char(i1 + 1, n);
                    proof {
                        assert(b@ =~= tail1);
                    }
                    DateParts::Two(a.to_owned(), b.to_owned())
                },
                Some(i2) => {
                    proof {
                        assert(forall|j: int|
                            0 <= j < tail1.len() ==> tail1[j] == s@[i1 + 1 + j]);
                        assert(tail1[i2 - i1 - 1] == '-');
                        lemma_split_first_dash(tail1, i2 - i1 - 1);
                    }
                    let ghost tail2 = tail1.skip(i2 - i1);
                    proof {
                        assert(tail2 =~= s@.skip(i2 + 1));
                        assert(forall|j: int|
                            0 <= j < tail2.len() ==> tail2[j] == s@[i2 + 1 + j]);
                    }
                    match find_dash(s, i2 + 1) {
                        None => {
                            proof {
                                lemma_split_no_dash(tail2);
                                assert(tail1.subrange(0, i2 - i1 - 1) =~= s@.subrange(
                                    i1 + 1,
                                    i2 as int,
                                ));
                                assert(seq![s@.subrange(0, i1 as int)] + (seq![
                                    s@.subrange(i1 + 1, i2 as int),
                                ] + seq![tail2]) =~= seq![
                                    s@.subrange(0, i1 as int),
                                    s@.subrange(i1 + 1, i2 as int),
                                    tail2,
                                ]);
                            }
                            let a = s.substring_char(0, i1);
                            let b = s.substring_char(i1 + 1, i2);
                            let c = s.substring_char(i2 + 1, n);
                            proof {
                                assert(c@ =~= tail2);
                            }
                            DateParts::Three(a.to_owned(), b.to_owned(), c.to_owned())
                        },
                        Some(i3) => {
                            proof {
                                assert(tail2[i3 - i2 - 1] == '-');
                                lemma_split_first_dash(tail2, i3 - i2 - 1);
                                lemma_split_dash_len(tail2.skip(i3 - i2));
                                assert(tail1.subrange(0, i2 - i1 - 1) =~= s@.subrange(
                                    i1 + 1,
                                    i2 as int,
                                ));
                            }
                            DateParts::TooMany
                        },
                    }
                },
            }
        },
    }
}

/// Whether a part is a non-empty run of digits.
pub open spec fn num_ok(s: Seq<char>) -> bool {
    s.len() > 0 && all_digits(s)
}

/// Whether the dash-separated parts of a date string name an existing date:
/// `Y` must be an existing year, `Y-M` an existing month, `Y-M-D` an
/// existing day, each within the representable year range.
pub open spec fn parts_ok(p: Seq<Seq<char>>) -> bool {
    if p.len() == 1 {
        num_ok(p[0]) && valid_yo(dec_val(p[0]), 183)
    } else if p.len() == 2 {
        num_ok(p[0]) && num_ok(p[1]) && valid_ymd(dec_val(p[0]), dec_val(p[1]), 15)
    } else if p.len() == 3 {
        num_ok(p[0]) && num_ok(p[1]) && num_ok(p[2]) && valid_ymd(
            dec_val(p[0]),
            dec_val(p[1]),
            dec_val(p[2]),
        )
    } else {
        false
    }
}

/// The day number a date string stands for: a year-only date is read as its
/// day-of-year 183, a month-only date as its day 15.
pub open spec fn parts_day(p: Seq<Seq<char>>) -> int {
    if p.len() == 1 {
        yo_day_number(dec_val(p[0]), 183)
    } else if p.len() == 2 {
        ymd_day_number(dec_val(p[0]), dec_val(p[1]), 15)
    } else {
        ymd_day_number(dec_val(p[0]), dec_val(p[1]), dec_val(p[2]))
    }
}

/// Whether a release-date string parses to a day number.
pub open spec fn release_day_ok(s: Seq<char>) -> bool {
    parts_ok(split_dash(s))
}

/// The day number of a release-date string.
pub open spec fn release_day(s: Seq<char>) -> int {
    parts_day(split_dash(s))
}

/// A date string that does not parse: the wrong number of parts, a
/// non-numeric part, or a date that does not exist in the calendar.
#[derive(PartialEq, Eq, Structural, Debug, Clone, Copy)]
pub enum DateError {
    Malformed,
}

/// The precision a source-catalog release date was given with.
#[derive(PartialEq, Eq, Structural, Debug, Clone, Copy)]
pub enum DatePrecision {
    Year,
    Month,
    Day,
}

/// The number of dash-separated parts a date of precision `p` has.
pub open spec fn precision_parts(p: DatePrecision) -> int {
    match p {
        DatePrecision::Year => 1,
        DatePrecision::Month => 2,
        DatePrecision::Day => 3,
    }
}

/// Parse one numeric part into a year, which must fit the representable
/// year range of the calendar.
fn parse_year(a: &String) -> (r: Option<i32>)
    ensures
        r is Some <==> num_ok(a@) && dec_val(a@) <= 262142,
        r matches Some(v) ==> v == dec_val(a@),
{
    match crate::text::parse_u64_digits(a.as_str()) {
        None => None,
        Some(v) => if v > 262142 {
            None
        } else {
            Some(v as i32)
        },
    }
}

/// Parse one numeric part into a month or day field no larger than `max`.
fn parse_field(a: &String, max: u64) -> (r: Option<u32>)
    requires
        max <= 0xFFFF_FFFF,
    ensures
        r is Some <==> num_ok(a@) && dec_val(a@) <= max,
        r matches Some(v) ==> v == dec_val(a@),
{
    match crate::text::parse_u64_digits(a.as_str()) {
        None => None,
        Some(v) => if v > max {
            None
        } else {
            Some(v as u32)
        },
    }
}

/// Parse a release-date string, expecting a fixed number of parts when
/// `expect` gives one.
fn parse_day_inner(s: &str, expect: Option<u8>) -> (r: Result<i32, DateError>)
    ensures
        r is Ok <==> release_day_ok(s@) && (match expect {
            Some(k) => split_dash(s@).len() == k as int,
            None => true,
        }),
        r matches Ok(v) ==> v == release_day(s@),
{
    let parts = split_parts(s);
    match parts {
        DateParts::One(a) => {
            if let Some(k) = expect {
                if k != 1 {
                    return Err(DateError::Malformed);
                }
            }
            match parse_year(&a) {
                None => Err(DateError::Malformed),
                Some(y) => match yo_days(y, 183) {
                    None => Err(DateError::Malformed),
                    Some(d) => Ok(d),
                },
            }
        },
        DateParts::Two(a, b) => {
            if let Some(k) = expect {
                if k != 2 {
                    return Err(DateError::Malformed);
                }
            }
            match (parse_year(&a), parse_field(&b, 12)) {
                (Some(y), Some(m)) => match ymd_days(y, m, 15) {
                    None => Err(DateError::Malformed),
                    Some(d) => Ok(d),
                },
                _ => Err(DateError::Malformed),
            }
        },
        DateParts::Three(a, b, c) => {
            if let Some(k) = expect {
                if k != 3 {
                    return Err(DateError::Malformed);
                }
            }
            match (parse_year(&a), parse_field(&b, 12), parse_field(&c, 31)) {
                (Some(y), Some(m), Some(d)) => match ymd_days(y, m, d) {
                    None => Err(DateError::Malformed),
                    Some(v) => Ok(v),
                },
                _ => Err(DateError::Malformed),
            }
        },
        DateParts::TooMany => Err(DateError::Malformed),
    }
}

/// Parse a target-catalog release date, whichever of the three shapes it
/// has.  Fails exactly on a string that is not a well-formed, existing
/// `Y`, `Y-M` or `Y-M-D` date.
pub fn parse_release_date(s: &str) -> (r: Result<i32, DateError>)
    ensures
        r is Ok <==> release_day_ok(s@),
        r matches Ok(v) ==> v == release_day(s@),
{
    parse_day_inner(s, None)
}

/// Parse a source-catalog release date, whose shape must agree with the
/// precision the source declared for it.
pub fn parse_source_date(p: DatePrecision, s: &str) -> (r: Result<i32, DateError>)
    ensures
        r is Ok <==> release_day_ok(s@) && split_dash(s@).len() == precision_parts(p),
        r matches Ok(v) ==> v == release_day(s@),
{
    let expect: u8 = match p {
        DatePrecision::Year => 1,
        DatePrecision::Month => 2,
        DatePrecision::Day => 3,
    };
    parse_day_inner(s, Some(expect))
}

} // verus!
