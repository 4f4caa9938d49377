//! Calendar dates as the API writes and reads them: `YYYY-MM-DD`.
use vstd::prelude::*;

use crate::decimal::{
    all_digits, chars_of, decimal, digits_value, is_digit, is_padded_numeral, lemma_parse_digits,
    lemma_zero_pad_canonical, parse_uint, push_zero_padded, spec_parse_uint, zero_pad,
};

verus! {

/// Represents a date
///
/// It is written in the `YYYY-MM-DD` format (see [`Date::to_string`]) and read
/// back by [`Date::parse`], which does not strictly check that format.
#[derive(Debug, Hash, PartialEq, Eq, Structural)]
pub struct Date {
    /// The year
    pub year: u32,
    /// The month
    pub month: u8,
    /// The day
    pub day: u8,
}

/// The text of a date: the year padded with zeros to four digits, the month and
/// the day padded to two, separated by `-`.
pub open spec fn spec_date_string(d: Date) -> Seq<char> {
    zero_pad(decimal(d.year as nat), 4) + seq!['-'] + zero_pad(decimal(d.month as nat), 2) + seq![
        '-',
    ] + zero_pad(decimal(d.day as nat), 2)
}

/// The index of the first `-` in `s` at or after `i`, or the length of `s` if there is none.
pub open spec fn dash_from(s: Seq<char>, i: int) -> int
    decreases s.len() - i,
{
    if i < 0 || i >= s.len() {
        s.len() as int
    } else if s[i] == '-' {
        i
    } else {
        dash_from(s, i + 1)
    }
}

/// What reading `s` as a date gives. The text is split at `-`: the first piece
/// is read as the year (a `u32`), the second as the month and the third as the
/// day (each a `u8`), as `str::parse` reads them. Anything after a third `-` is
/// ignored; fewer than three pieces, or a piece that does not read, give `None`.
pub open spec fn spec_parse_date(s: Seq<char>) -> Option<Date> {
    let d1 = dash_from(s, 0);
    let d2 = dash_from(s, d1 + 1);
    let d3 = dash_from(s, d2 + 1);
    if d1 < s.len() && d2 < s.len() {
        match (
            spec_parse_uint(s.subrange(0, d1), u32::MAX as nat),
            spec_parse_uint(s.subrange(d1 + 1, d2), u8::MAX as nat),
            spec_parse_uint(s.subrange(d2 + 1, d3), u8::MAX as nat),
        ) {
            (Some(y), Some(m), Some(d)) => Some(Date { year: y as u32, month: m as u8, day: d as u8 }),
            _ => None,
        }
    } else {
        None
    }
}

proof fn lemma_dash_from_skips(s: Seq<char>, i: int, j: int)
    requires
        0 <= i <= j <= s.len(),
        forall|k: int| i <= k < j ==> s[k] != '-',
    ensures
        dash_from(s, i) == dash_from(s, j),
    decreases j - i,
{
    if i < j {
        lemma_dash_from_skips(s, i + 1, j);
    }
}

proof fn lemma_digits_no_dash(s: Seq<char>)
    requires
        all_digits(s),
    ensures
        forall|k: int| 0 <= k < s.len() ==> s[k] != '-',
{
    assert forall|k: int| 0 <= k < s.len() implies s[k] != '-' by {
        assert(is_digit(s[k]));
    }
}

/// `s` is the text of the date `d`: the year written at least four digits
/// wide, `-`, the month at least two wide, `-`, the day at least two wide,
/// each without a leading zero beyond the padding.
pub open spec fn is_date_text(s: Seq<char>, d: Date) -> bool {
    exists|y: Seq<char>, m: Seq<char>, t: Seq<char>|
        #![trigger is_padded_numeral(y, d.year as nat, 4), is_padded_numeral(m, d.month as nat, 2), is_padded_numeral(t, d.day as nat, 2)]
        s == y + seq!['-'] + m + seq!['-'] + t && is_padded_numeral(y, d.year as nat, 4)
            && is_padded_numeral(m, d.month as nat, 2) && is_padded_numeral(t, d.day as nat, 2)
}

/// What [`Date::to_string`] writes is the `YYYY-MM-DD` text of the date: the
/// year first, then the month, then the day, zero-padded to four, two and two
/// digits (wider only for a year past 9999 or a month or day past 99).
pub proof fn lemma_date_text(d: Date)
    ensures
        is_date_text(spec_date_string(d), d),
{
    let y = zero_pad(decimal(d.year as nat), 4);
    let m = zero_pad(decimal(d.month as nat), 2);
    let t = zero_pad(decimal(d.day as nat), 2);
    lemma_zero_pad_canonical(d.year as nat, 4);
    lemma_zero_pad_canonical(d.month as nat, 2);
    lemma_zero_pad_canonical(d.day as nat, 2);
    assert(spec_date_string(d) == y + seq!['-'] + m + seq!['-'] + t);
}

/// Reading `p0-p1-p2`, where the pieces are strings of digits, gives the date
/// whose year is the value of the first piece, whose month is the value of the
/// second and whose day is the value of the third, when those fit a `u32`, a
/// `u8` and a `u8`; leading zeros are allowed.
pub proof fn lemma_parse_date_pieces(p0: Seq<char>, p1: Seq<char>, p2: Seq<char>)
    requires
        p0.len() >= 1,
        p1.len() >= 1,
        p2.len() >= 1,
        all_digits(p0),
        all_digits(p1),
        all_digits(p2),
        digits_value(p0) <= u32::MAX,
        digits_value(p1) <= u8::MAX,
        digits_value(p2) <= u8::MAX,
    ensures
        spec_parse_date(p0 + seq!['-'] + p1 + seq!['-'] + p2) == Some(
            Date {
                year: digits_value(p0) as u32,
                month: digits_value(p1) as u8,
                day: digits_value(p2) as u8,
            },
        ),
{
    let s = p0 + seq!['-'] + p1 + seq!['-'] + p2;
    lemma_digits_no_dash(p0);
    lemma_digits_no_dash(p1);
    lemma_digits_no_dash(p2);
    let la = p0.len() as int;
    let lb = p1.len() as int;
    assert(s.len() == la + lb + p2.len() + 2);
    assert forall|k: int| 0 <= k < la implies s[k] != '-' by {
        assert(s[k] == p0[k]);
    }
    assert forall|k: int| la + 1 <= k < la + 1 + lb implies s[k] != '-' by {
        assert(s[k] == p1[k - la - 1]);
    }
    assert forall|k: int| la + lb + 2 <= k < s.len() implies s[k] != '-' by {
        assert(s[k] == p2[k - la - lb - 2]);
    }
    assert(s[la] == '-');
    assert(s[la + 1 + lb] == '-');
    lemma_dash_from_skips(s, 0, la);
    lemma_dash_from_skips(s, la + 1, la + 1 + lb);
    lemma_dash_from_skips(s, la + lb + 2, s.len() as int);
    assert(s.subrange(0, la) =~= p0);
    assert(s.subrange(la + 1, la + 1 + lb) =~= p1);
    assert(s.subrange(la + lb + 2, s.len() as int) =~= p2);
    lemma_parse_digits(p0, u32::MAX as nat);
    lemma_parse_digits(p1, u8::MAX as nat);
    lemma_parse_digits(p2, u8::MAX as nat);
}

/// Reading back a date's text gives the same date: the `Serialize` and
/// `Deserialize` forms of a date agree.
pub proof fn lemma_text_parses_to_date(s: Seq<char>, d: Date)
    requires
        is_date_text(s, d),
    ensures
        spec_parse_date(s) == Some(d),
{
    let (y, m, t) = choose|y: Seq<char>, m: Seq<char>, t: Seq<char>|
        #![trigger is_padded_numeral(y, d.year as nat, 4), is_padded_numeral(m, d.month as nat, 2), is_padded_numeral(t, d.day as nat, 2)]
        s == y + seq!['-'] + m + seq!['-'] + t && is_padded_numeral(y, d.year as nat, 4)
            && is_padded_numeral(m, d.month as nat, 2) && is_padded_numeral(t, d.day as nat, 2);
    lemma_parse_date_pieces(y, m, t);
}

/// Reading back what [`Date::to_string`] writes gives the same date.
pub proof fn lemma_date_roundtrip(d: Date)
    ensures
        spec_parse_date(spec_date_string(d)) == Some(d),
{
    lemma_date_text(d);
    lemma_text_parses_to_date(spec_date_string(d), d);
}

/// The index of the first `-` in `s` at or after `i`, or the length of `s`.
fn find_dash(s: &Vec<char>, i: usize) -> (r: usize)
    requires
        i <= s@.len(),
    ensures
        r == dash_from(s@, i as int),
        i <= r <= s@.len(),
{
    let mut k = i;
    while k < s.len()
        invariant
            i <= k <= s@.len(),
            dash_from(s@, i as int) == dash_from(s@, k as int),
        decreases s@.len() - k,
    {
        if s[k] == '-' {
            return k;
        }
        k = k + 1;
    }
    k
}

impl Date {
    /// Writes the date as `YYYY-MM-DD`: the year padded with zeros to at least
    /// four digits, the month and the day to at least two.
    pub fn to_string(&self) -> (r: String)
        ensures
            r@ == spec_date_string(*self),
            is_date_text(r@, *self),
    {
        proof { lemma_date_text(*self); }
        let mut s = String::new();
        push_zero_padded(&mut s, self.year, 4);
        proof { reveal_strlit("-"); }
        s.append("-");
        push_zero_padded(&mut s, self.month as u32, 2);
        s.append("-");
        push_zero_padded(&mut s, self.day as u32, 2);
        assert(s@ =~= spec_date_string(*self));
        s
    }

    /// Reads a date from text of the form `YYYY-MM-DD`. The check is loose: the
    /// pieces between `-` may have any number of digits (and a leading `+`), and
    /// anything after a third `-` is ignored. `None` when the text does not read.
    pub fn parse(v: &str) -> (r: Option<Date>)
        ensures
            r == spec_parse_date(v@),
    {
        let s = chars_of(v);
        let d1 = find_dash(&s, 0);
        if d1 == s.len() {
            return None;
        }
        let d2 = find_dash(&s, d1 + 1);
        if d2 == s.len() {
            return None;
        }
        let d3 = find_dash(&s, d2 + 1);
        let year = parse_uint(&s, 0, d1, u32::MAX);
        let month = parse_uint(&s, d1 + 1, d2, 255);
        let day = parse_uint(&s, d2 + 1, d3, 255);
        match (year, month, day) {
            (Some(y), Some(m), Some(d)) => Some(Date { year: y, month: m as u8, day: d as u8 }),
            _ => None,
        }
    }
}

} // verus!
