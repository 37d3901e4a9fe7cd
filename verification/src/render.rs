//! Plain formatting of timestamps, labels, and previews.
//!
//! All "recent" timestamps in the cache are ISO-8601 strings; these
//! helpers slice and relabel them for display without interpreting time
//! zones.

use vstd::prelude::*;
use crate::auth::{count_char, ident_char};
use crate::ordered::{key_pos, lemma_count_concat, lemma_key_pos_at};
use crate::text::{char_eq, str_eq};

verus! {

/// The first ten characters of an ISO timestamp: its date, or the whole
/// string when it is shorter.
pub open spec fn spec_date_part(iso: Seq<char>) -> Seq<char> {
    if iso.len() >= 10 {
        iso.take(10)
    } else {
        iso
    }
}

/// Extract the date portion of an ISO timestamp.
pub fn extract_date(iso: &str) -> (r: String)
    ensures
        r@ == spec_date_part(iso@),
{
    let n = iso.unicode_len();
    if n >= 10 {
        String::from_str(iso.substring_char(0, 10))
    } else {
        String::from_str(iso)
    }
}

/// Characters eleven through fifteen of an ISO timestamp: the
/// hours-and-minutes clock time, or the whole string when it is shorter.
pub open spec fn spec_time_short(iso: Seq<char>) -> Seq<char> {
    if iso.len() >= 16 {
        iso.subrange(11, 16)
    } else {
        iso
    }
}

/// Format an ISO timestamp as a short clock time.
pub fn format_time_short(iso: &str) -> (r: String)
    ensures
        r@ == spec_time_short(iso@),
{
    let n = iso.unicode_len();
    if n >= 16 {
        String::from_str(iso.substring_char(11, 16))
    } else {
        String::from_str(iso)
    }
}

/// The three dash-separated parts of a date string, when it has exactly
/// two dashes: (year, month, day).
pub open spec fn spec_date_parts(s: Seq<char>) -> (Seq<char>, Seq<char>, Seq<char>) {
    let d1 = key_pos(s, '-', ident_char());
    let d2 = d1 + 1 + key_pos(s.skip(d1 + 1), '-', ident_char());
    (s.take(d1), s.subrange(d1 + 1, d2), s.skip(d2 + 1))
}

/// Split a date string into its three dash-separated parts. Returns
/// nothing exactly when the string does not have three parts.
fn split_date(s: &str) -> (r: Option<(String, String, String)>)
    ensures
        match r {
            Option::Some(p) => count_char(s@, '-') == 2 && (p.0@, p.1@, p.2@) == spec_date_parts(
                s@,
            ),
            Option::None => count_char(s@, '-') != 2,
        },
{
    let ghost tv = s@;
    let ghost ik = ident_char();
    let n = s.unicode_len();
    let mut cnt: usize = 0;
    let mut d1: usize = n;
    let mut d2: usize = n;
    let mut i: usize = 0;
    proof {
        assert(tv.take(0) =~= Seq::<char>::empty());
        assert(crate::ordered::count_key(Seq::<char>::empty(), '-', ik) == 0);
    }
    while i < n
        invariant
            i <= n,
            n == tv.len(),
            cnt <= i,
            cnt == count_char(tv.take(i as int), '-'),
            cnt == 0 ==> d1 == n && d2 == n && (forall|j: int| 0 <= j < i ==> tv[j] != '-'),
            cnt >= 1 ==> d1 < i && tv[d1 as int] == '-' && (forall|j: int|
                0 <= j < d1 ==> tv[j] != '-'),
            cnt == 1 ==> d2 == n && (forall|j: int| d1 < j < i ==> tv[j] != '-'),
            cnt >= 2 ==> d1 < d2 < i && tv[d2 as int] == '-' && (forall|j: int|
                d1 < j < d2 ==> tv[j] != '-'),
        decreases n - i,
    {
        proof {
            assert(tv.take(i + 1) =~= tv.take(i as int).push(tv[i as int]));
            lemma_count_concat(tv.take(i as int), seq![tv[i as int]], '-', ik);
            assert(tv.take(i + 1) =~= tv.take(i as int) + seq![tv[i as int]]);
            assert(crate::ordered::count_key(seq![tv[i as int]], '-', ik) == (if tv[i as int]
                == '-' {
                1int
            } else {
                0int
            })) by {
                assert(seq![tv[i as int]].drop_first() =~= Seq::<char>::empty());
            }
        }
        if char_eq(s.get_char(i), '-') {
            if cnt == 0 {
                d1 = i;
            } else if cnt == 1 {
                d2 = i;
            }
            cnt = cnt + 1;
        }
        i = i + 1;
    }
    proof {
        assert(tv.take(n as int) =~= tv);
    }
    if cnt != 2 {
        return Option::None;
    }
    proof {
        lemma_key_pos_at(tv, '-', ik, d1 as int);
        let sk = tv.skip(d1 + 1);
        assert(sk[d2 - d1 - 1] == tv[d2 as int]);
        assert forall|j: int| 0 <= j < d2 - d1 - 1 implies ik(sk[j]) != '-' by {
            assert(sk[j] == tv[j + d1 + 1]);
        }
        lemma_key_pos_at(sk, '-', ik, d2 - d1 - 1);
    }
    let year = String::from_str(s.substring_char(0, d1));
    let month = String::from_str(s.substring_char(d1 + 1, d2));
    let day = String::from_str(s.substring_char(d2 + 1, n));
    proof {
        assert(year@ =~= tv.take(d1 as int));
        assert(month@ =~= tv.subrange(d1 + 1, d2 as int));
        assert(day@ =~= tv.skip(d2 + 1));
    }
    Option::Some((year, month, day))
}

/// The full name of a two-digit month, or nothing for anything else.
pub open spec fn spec_month_name(m: Seq<char>) -> Option<Seq<char>> {
    if m == "01"@ {
        Option::Some("January"@)
    } else if m == "02"@ {
        Option::Some("February"@)
    } else if m == "03"@ {
        Option::Some("March"@)
    } else if m == "04"@ {
        Option::Some("April"@)
    } else if m == "05"@ {
        Option::Some("May"@)
    } else if m == "06"@ {
        Option::Some("June"@)
    } else if m == "07"@ {
        Option::Some("July"@)
    } else if m == "08"@ {
        Option::Some("August"@)
    } else if m == "09"@ {
        Option::Some("September"@)
    } else if m == "10"@ {
        Option::Some("October"@)
    } else if m == "11"@ {
        Option::Some("November"@)
    } else if m == "12"@ {
        Option::Some("December"@)
    } else {
        Option::None
    }
}

/// The abbreviated name of a two-digit month, or nothing for anything
/// else.
pub open spec fn spec_month_abbrev(m: Seq<char>) -> Option<Seq<char>> {
    if m == "01"@ {
        Option::Some("Jan"@)
    } else if m == "02"@ {
        Option::Some("Feb"@)
    } else if m == "03"@ {
        Option::Some("Mar"@)
    } else if m == "04"@ {
        Option::Some("Apr"@)
    } else if m == "05"@ {
        Option::Some("May"@)
    } else if m == "06"@ {
        Option::Some("Jun"@)
    } else if m == "07"@ {
        Option::Some("Jul"@)
    } else if m == "08"@ {
        Option::Some("Aug"@)
    } else if m == "09"@ {
        Option::Some("Sep"@)
    } else if m == "10"@ {
        Option::Some("Oct"@)
    } else if m == "11"@ {
        Option::Some("Nov"@)
    } else if m == "12"@ {
        Option::Some("Dec"@)
    } else {
        Option::None
    }
}

/// The full month name.
fn month_name(m: &str) -> (r: Option<&'static str>)
    ensures
        match r {
            Option::Some(v) => spec_month_name(m@) == Option::Some(v@),
            Option::None => spec_month_name(m@) is None,
        },
{
    if str_eq(m, "01") {
        Option::Some("January")
    } else if str_eq(m, "02") {
        Option::Some("February")
    } else if str_eq(m, "03") {
        Option::Some("March")
    } else if str_eq(m, "04") {
        Option::Some("April")
    } else if str_eq(m, "05") {
        Option::Some("May")
    } else if str_eq(m, "06") {
        Option::Some("June")
    } else if str_eq(m, "07") {
        Option::Some("July")
    } else if str_eq(m, "08") {
        Option::Some("August")
    } else if str_eq(m, "09") {
        Option::Some("September")
    } else if str_eq(m, "10") {
        Option::Some("October")
    } else if str_eq(m, "11") {
        Option::Some("November")
    } else if str_eq(m, "12") {
        Option::Some("December")
    } else {
        Option::None
    }
}

/// The abbreviated month name.
fn month_abbrev(m: &str) -> (r: Option<&'static str>)
    ensures
        match r {
            Option::Some(v) => spec_month_abbrev(m@) == Option::Some(v@),
            Option::None => spec_month_abbrev(m@) is None,
        },
{
    if str_eq(m, "01") {
        Option::Some("Jan")
    } else if str_eq(m, "02") {
        Option::Some("Feb")
    } else if str_eq(m, "03") {
        Option::Some("Mar")
    } else if str_eq(m, "04") {
        Option::Some("Apr")
    } else if str_eq(m, "05") {
        Option::Some("May")
    } else if str_eq(m, "06") {
        Option::Some("Jun")
    } else if str_eq(m, "07") {
        Option::Some("Jul")
    } else if str_eq(m, "08") {
        Option::Some("Aug")
    } else if str_eq(m, "09") {
        Option::Some("Sep")
    } else if str_eq(m, "10") {
        Option::Some("Oct")
    } else if str_eq(m, "11") {
        Option::Some("Nov")
    } else if str_eq(m, "12") {
        Option::Some("Dec")
    } else {
        Option::None
    }
}

/// A day-of-month with its leading zeros dropped.
pub open spec fn spec_trim_zeros(d: Seq<char>) -> Seq<char>
    decreases d.len(),
{
    if d.len() > 0 && d[0] == '0' {
        spec_trim_zeros(d.drop_first())
    } else {
        d
    }
}

/// Drop leading zeros.
fn trim_zeros(d: &str) -> (r: String)
    ensures
        r@ == spec_trim_zeros(d@),
{
    let n = d.unicode_len();
    let mut i: usize = 0;
    proof {
        assert(d@.skip(0) =~= d@);
    }
    while i < n && char_eq(d.get_char(i), '0')
        invariant
            i <= n,
            n == d@.len(),
            spec_trim_zeros(d@.skip(i as int)) == spec_trim_zeros(d@),
        decreases n - i,
    {
        proof {
            assert(d@.skip(i as int)[0] == d@[i as int]);
            assert(d@.skip(i as int).drop_first() =~= d@.skip(i + 1));
        }
        i = i + 1;
    }
    proof {
        if i < n {
            assert(d@.skip(i as int)[0] == d@[i as int]);
        } else {
            assert(d@.skip(i as int) =~= Seq::<char>::empty());
        }
        assert(spec_trim_zeros(d@) == d@.skip(i as int));
    }
    String::from_str(d.substring_char(i, n))
}

/// The separator-line label for a date: its month written out, the day
/// without leading zeros, and the year — or the date itself when it is
/// not a recognizable year-month-day string.
pub open spec fn spec_date_label(date: Seq<char>) -> Seq<char> {
    if count_char(date, '-') != 2 {
        date
    } else {
        let p = spec_date_parts(date);
        match spec_month_name(p.1) {
            Option::Some(m) => m + " "@ + spec_trim_zeros(p.2) + ", "@ + p.0,
            Option::None => date,
        }
    }
}

/// Format a date for separator lines.
pub fn format_date_label(date: &str) -> (r: String)
    ensures
        r@ == spec_date_label(date@),
{
    let parts = match split_date(date) {
        Option::Some(p) => p,
        Option::None => {
            return String::from_str(date);
        },
    };
    let m = match month_name(parts.1.as_str()) {
        Option::Some(m) => m,
        Option::None => {
            return String::from_str(date);
        },
    };
    let day = trim_zeros(parts.2.as_str());
    String::from_str(m).concat(" ").concat(day.as_str()).concat(", ").concat(parts.0.as_str())
}

/// A day-of-month padded on the left to two columns.
pub open spec fn spec_pad_day(d: Seq<char>) -> Seq<char> {
    if d.len() == 0 {
        "  "@
    } else if d.len() == 1 {
        " "@ + d
    } else {
        d
    }
}

/// The compact month-and-day form of a date, or nothing when the date is
/// not a recognizable year-month-day string.
pub open spec fn spec_month_day(date: Seq<char>) -> Option<Seq<char>> {
    if count_char(date, '-') != 2 {
        Option::None
    } else {
        let p = spec_date_parts(date);
        match spec_month_abbrev(p.1) {
            Option::Some(m) => Option::Some(m + " "@ + spec_pad_day(spec_trim_zeros(p.2))),
            Option::None => Option::None,
        }
    }
}

/// Format a date as an abbreviated month and a right-aligned day.
pub fn parse_month_day(date: &str) -> (r: Option<String>)
    ensures
        match r {
            Option::Some(v) => spec_month_day(date@) == Option::Some(v@),
            Option::None => spec_month_day(date@) is None,
        },
{
    let parts = match split_date(date) {
        Option::Some(p) => p,
        Option::None => {
            return Option::None;
        },
    };
    let m = match month_abbrev(parts.1.as_str()) {
        Option::Some(m) => m,
        Option::None => {
            return Option::None;
        },
    };
    let day = trim_zeros(parts.2.as_str());
    let dl = day.unicode_len();
    let padded = if dl == 0 {
        String::from_str("  ")
    } else if dl == 1 {
        String::from_str(" ").concat(day.as_str())
    } else {
        day
    };
    Option::Some(String::from_str(m).concat(" ").concat(padded.as_str()))
}

/// The longer timestamp form for search results: month, day and clock
/// time; the raw date and time when the month is unrecognizable; the
/// whole string when it is too short to slice.
pub open spec fn spec_format_time(iso: Seq<char>) -> Seq<char> {
    if iso.len() >= 16 {
        let date = iso.take(10);
        let time = iso.subrange(11, 16);
        match spec_month_day(date) {
            Option::Some(md) => md + " "@ + time,
            Option::None => date + " "@ + time,
        }
    } else {
        iso
    }
}

/// Format an ISO timestamp for search results.
pub fn format_time(iso: &str) -> (r: String)
    ensures
        r@ == spec_format_time(iso@),
{
    let n = iso.unicode_len();
    if n < 16 {
        return String::from_str(iso);
    }
    let date = iso.substring_char(0, 10);
    let time = iso.substring_char(11, 16);
    match parse_month_day(date) {
        Option::Some(md) => md.concat(" ").concat(time),
        Option::None => String::from_str(date).concat(" ").concat(time),
    }
}

/// The tag shown for a conversation's product type.
pub open spec fn spec_chat_type(pt: Seq<char>) -> Seq<char> {
    if pt == "OneToOneChat"@ {
        "[1:1]"@
    } else if pt == "GroupChat"@ {
        "[group]"@
    } else if pt == "TeamsStandardChannel"@ || pt == "TeamsPrivateChannel"@ || pt
        == "TeamsSharedChannel"@ {
        "[channel]"@
    } else if pt == "MeetingChat"@ {
        "[meeting]"@
    } else {
        "[chat]"@
    }
}

/// The tag shown for a conversation's product type.
pub fn format_chat_type(product_type: &str) -> (r: &'static str)
    ensures
        r@ == spec_chat_type(product_type@),
{
    if str_eq(product_type, "OneToOneChat") {
        "[1:1]"
    } else if str_eq(product_type, "GroupChat") {
        "[group]"
    } else if str_eq(product_type, "TeamsStandardChannel") || str_eq(
        product_type,
        "TeamsPrivateChannel",
    ) || str_eq(product_type, "TeamsSharedChannel") {
        "[channel]"
    } else if str_eq(product_type, "MeetingChat") {
        "[meeting]"
    } else {
        "[chat]"
    }
}

/// A string cut to at most `max` characters, with a trailing ellipsis
/// when something was cut.
pub open spec fn spec_truncate(s: Seq<char>, max: int) -> Seq<char> {
    if s.len() <= max {
        s
    } else {
        s.take(max - 1) + "..."@
    }
}

/// Cut a string to at most `max` characters, marking the cut.
pub fn truncate(s: &str, max: usize) -> (r: String)
    requires
        max >= 1,
    ensures
        r@ == spec_truncate(s@, max as int),
{
    let n = s.unicode_len();
    if n <= max {
        String::from_str(s)
    } else {
        String::from_str(s.substring_char(0, max - 1)).concat("...")
    }
}

/// The clock time inside an ISO timestamp: the five characters after its
/// date-time separator, or a placeholder when they are not there.
pub open spec fn spec_extract_time(iso: Seq<char>) -> Seq<char> {
    let t = key_pos(iso, 'T', ident_char());
    if t >= 0 && iso.len() - t - 1 >= 5 {
        iso.subrange(t + 1, t + 6)
    } else {
        "??:??"@
    }
}

/// Extract the clock time from an ISO timestamp.
pub fn extract_time(compose_time: &str) -> (r: String)
    ensures
        r@ == spec_extract_time(compose_time@),
{
    let ghost tv = compose_time@;
    let ghost ik = ident_char();
    let n = compose_time.unicode_len();
    let mut i: usize = 0;
    while i < n && !char_eq(compose_time.get_char(i), 'T')
        invariant
            i <= n,
            n == tv.len(),
            forall|j: int| 0 <= j < i ==> ik(tv[j]) != 'T',
        decreases n - i,
    {
        proof {
            assert(ik(tv[i as int]) == tv[i as int]);
        }
        i = i + 1;
    }
    if i < n && n - i - 1 >= 5 {
        proof {
            assert(ik(tv[i as int]) == tv[i as int]);
            lemma_key_pos_at(tv, 'T', ik, i as int);
        }
        String::from_str(compose_time.substring_char(i + 1, i + 6))
    } else {
        proof {
            if i < n {
                assert(ik(tv[i as int]) == tv[i as int]);
                lemma_key_pos_at(tv, 'T', ik, i as int);
            } else {
                crate::ordered::lemma_key_pos(tv, 'T', ik);
                if key_pos(tv, 'T', ik) >= 0 {
                    assert(ik(tv[key_pos(tv, 'T', ik)]) == 'T');
                }
            }
        }
        String::from_str("??:??")
    }
}

} // verus!
