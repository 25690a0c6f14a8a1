//! Calendar dates as plain year/month/day numbers, with verified
//! arithmetic: validity in the proleptic Gregorian calendar, the previous
//! calendar day, fixed-width decimal rendering, and extraction of the first
//! `DD.MM.YYYY`-shaped substring of a text.

use vstd::prelude::*;

verus! {

/// A calendar date without a time component.  Only dates with a four-digit
/// year can be written in the catalog's `DD.MM.YYYY` cells, so the year is
/// kept in `0..=9999`.
#[derive(Clone, Copy, PartialEq, Eq, Structural, Debug)]
pub struct Date {
    pub year: u32,
    pub month: u32,
    pub day: u32,
}

pub open spec fn is_leap_year(y: int) -> bool {
    y % 4 == 0 && (y % 100 != 0 || y % 400 == 0)
}

pub open spec fn days_in_month(y: int, m: int) -> int {
    if m == 2 {
        if is_leap_year(y) {
            29
        } else {
            28
        }
    } else if m == 4 || m == 6 || m == 9 || m == 11 {
        30
    } else {
        31
    }
}

pub open spec fn valid_date(y: int, m: int, d: int) -> bool {
    &&& 0 <= y <= 9999
    &&& 1 <= m <= 12
    &&& 1 <= d <= days_in_month(y, m)
}

impl Date {
    /// A date the row extractor can produce: a valid calendar date with a
    /// four-digit year.
    pub open spec fn wf(self) -> bool {
        valid_date(self.year as int, self.month as int, self.day as int)
    }

    /// The earliest representable date; the only one without a predecessor
    /// in this representation.
    pub open spec fn is_min(self) -> bool {
        self.year == 0 && self.month == 1 && self.day == 1
    }
}

impl Date {
    /// Whether this is a valid calendar date with a four-digit year.
    pub fn is_valid(self) -> (r: bool)
        ensures
            r == self.wf(),
    {
        self.year <= 9999 && 1 <= self.month && self.month <= 12 && 1 <= self.day && self.day
            <= days_in_month_exec(self.year, self.month)
    }
}

/// The calendar day immediately preceding `d`.
pub open spec fn prev_day_spec(d: Date) -> Date {
    if d.day > 1 {
        Date { year: d.year, month: d.month, day: (d.day - 1) as u32 }
    } else if d.month > 1 {
        Date {
            year: d.year,
            month: (d.month - 1) as u32,
            day: days_in_month(d.year as int, d.month as int - 1) as u32,
        }
    } else {
        Date { year: (d.year - 1) as u32, month: 12, day: 31 }
    }
}

fn days_in_month_exec(y: u32, m: u32) -> (r: u32)
    requires
        1 <= m <= 12,
    ensures
        r == days_in_month(y as int, m as int),
{
    if m == 2 {
        if y % 4 == 0 && (y % 100 != 0 || y % 400 == 0) {
            29
        } else {
            28
        }
    } else if m == 4 || m == 6 || m == 9 || m == 11 {
        30
    } else {
        31
    }
}

pub fn prev_day(d: Date) -> (r: Date)
    requires
        d.wf(),
        !d.is_min(),
    ensures
        r == prev_day_spec(d),
        r.wf(),
{
    if d.day > 1 {
        Date { year: d.year, month: d.month, day: d.day - 1 }
    } else if d.month > 1 {
        Date { year: d.year, month: d.month - 1, day: days_in_month_exec(d.year, d.month - 1) }
    } else {
        Date { year: d.year - 1, month: 12, day: 31 }
    }
}

/// The decimal digit character for a value in `0..=9`.
pub open spec fn digit_char(v: int) -> char {
    if v == 0 {
        '0'
    } else if v == 1 {
        '1'
    } else if v == 2 {
        '2'
    } else if v == 3 {
        '3'
    } else if v == 4 {
        '4'
    } else if v == 5 {
        '5'
    } else if v == 6 {
        '6'
    } else if v == 7 {
        '7'
    } else if v == 8 {
        '8'
    } else {
        '9'
    }
}

pub open spec fn is_digit(c: char) -> bool {
    '0' <= c && c <= '9'
}

/// The numeric value of a decimal digit character.
pub open spec fn digit_val(c: char) -> int {
    if c == '0' {
        0
    } else if c == '1' {
        1
    } else if c == '2' {
        2
    } else if c == '3' {
        3
    } else if c == '4' {
        4
    } else if c == '5' {
        5
    } else if c == '6' {
        6
    } else if c == '7' {
        7
    } else if c == '8' {
        8
    } else {
        9
    }
}

pub open spec fn two_digits(v: int) -> Seq<char> {
    seq![digit_char(v / 10), digit_char(v % 10)]
}

pub open spec fn four_digits(v: int) -> Seq<char> {
    seq![
        digit_char(v / 1000),
        digit_char((v / 100) % 10),
        digit_char((v / 10) % 10),
        digit_char(v % 10),
    ]
}

/// A date written the way calendar clients key events: `YYYY-MM-DD`,
/// zero-padded.
pub open spec fn date_string_spec(d: Date) -> Seq<char> {
    four_digits(d.year as int) + seq!['-'] + two_digits(d.month as int) + seq!['-'] + two_digits(
        d.day as int,
    )
}

fn digit_char_exec(v: u32) -> (c: char)
    ensures
        c == digit_char(v as int),
{
    if v == 0 {
        '0'
    } else if v == 1 {
        '1'
    } else if v == 2 {
        '2'
    } else if v == 3 {
        '3'
    } else if v == 4 {
        '4'
    } else if v == 5 {
        '5'
    } else if v == 6 {
        '6'
    } else if v == 7 {
        '7'
    } else if v == 8 {
        '8'
    } else {
        '9'
    }
}

pub fn date_string(d: Date) -> (s: String)
    ensures
        s@ == date_string_spec(d),
{
    let mut s = String::new();
    s.push(digit_char_exec(d.year / 1000));
    s.push(digit_char_exec((d.year / 100) % 10));
    s.push(digit_char_exec((d.year / 10) % 10));
    s.push(digit_char_exec(d.year % 10));
    s.push('-');
    s.push(digit_char_exec(d.month / 10));
    s.push(digit_char_exec(d.month % 10));
    s.push('-');
    s.push(digit_char_exec(d.day / 10));
    s.push(digit_char_exec(d.day % 10));
    proof {
        assert(s@ =~= date_string_spec(d));
    }
    s
}

/// Whether the ten characters of `s` starting at `i` have the shape
/// `DD.MM.YYYY`: digits in the day, month and year positions and literal
/// dots between them.
pub open spec fn date_shape_at(s: Seq<char>, i: int) -> bool {
    &&& is_digit(s[i])
    &&& is_digit(s[i + 1])
    &&& s[i + 2] == '.'
    &&& is_digit(s[i + 3])
    &&& is_digit(s[i + 4])
    &&& s[i + 5] == '.'
    &&& is_digit(s[i + 6])
    &&& is_digit(s[i + 7])
    &&& is_digit(s[i + 8])
    &&& is_digit(s[i + 9])
}

/// The position of the first `DD.MM.YYYY`-shaped substring at or after `i`,
/// or -1 if there is none.
pub open spec fn first_shape_from(s: Seq<char>, i: int) -> int
    decreases s.len() - i,
{
    if i < 0 || i + 10 > s.len() {
        -1
    } else if date_shape_at(s, i) {
        i
    } else {
        first_shape_from(s, i + 1)
    }
}

/// Whether the text holds any `DD.MM.YYYY`-shaped substring.
pub open spec fn has_date_shape(s: Seq<char>) -> bool {
    exists|i: int| 0 <= i && i + 10 <= s.len() && date_shape_at(s, i)
}

proof fn lemma_first_shape_from_none(s: Seq<char>, i: int)
    requires
        0 <= i,
        !has_date_shape(s),
    ensures
        first_shape_from(s, i) == -1,
    decreases s.len() - i,
{
    if i + 10 <= s.len() {
        assert(!date_shape_at(s, i));
        lemma_first_shape_from_none(s, i + 1);
    }
}

/// A text without a `DD.MM.YYYY`-shaped substring yields no date.
pub proof fn lemma_no_shape_no_date(s: Seq<char>)
    requires
        !has_date_shape(s),
    ensures
        extracted_date(s) is None,
{
    lemma_first_shape_from_none(s, 0);
}

/// The date spelled by the shaped substring at position `i`.
pub open spec fn date_at(s: Seq<char>, i: int) -> Date {
    Date {
        year: (digit_val(s[i + 6]) * 1000 + digit_val(s[i + 7]) * 100 + digit_val(s[i + 8]) * 10
            + digit_val(s[i + 9])) as u32,
        month: (digit_val(s[i + 3]) * 10 + digit_val(s[i + 4])) as u32,
        day: (digit_val(s[i]) * 10 + digit_val(s[i + 1])) as u32,
    }
}

/// What the return-date cell yields: the first `DD.MM.YYYY`-shaped
/// substring decides, and it must spell a valid calendar date.  `None`
/// means the cell has no shaped substring or the substring is no date.
pub open spec fn extracted_date(s: Seq<char>) -> Option<Date> {
    let p = first_shape_from(s, 0);
    if p < 0 {
        None
    } else {
        let d = date_at(s, p);
        if d.wf() {
            Some(d)
        } else {
            None
        }
    }
}

fn is_digit_exec(c: char) -> (r: bool)
    ensures
        r == is_digit(c),
{
    '0' <= c && c <= '9'
}

fn digit_val_exec(c: char) -> (r: u32)
    requires
        is_digit(c),
    ensures
        r == digit_val(c),
        r <= 9,
{
    if c == '0' {
        0
    } else if c == '1' {
        1
    } else if c == '2' {
        2
    } else if c == '3' {
        3
    } else if c == '4' {
        4
    } else if c == '5' {
        5
    } else if c == '6' {
        6
    } else if c == '7' {
        7
    } else if c == '8' {
        8
    } else {
        9
    }
}

fn date_shape_at_exec(s: &Vec<char>, i: usize) -> (r: bool)
    requires
        i + 10 <= s@.len(),
    ensures
        r == date_shape_at(s@, i as int),
{
    let n = s.len();
    is_digit_exec(s[i]) && is_digit_exec(s[i + 1]) && s[i + 2] == '.' && is_digit_exec(s[i + 3])
        && is_digit_exec(s[i + 4]) && s[i + 5] == '.' && is_digit_exec(s[i + 6]) && is_digit_exec(
        s[i + 7],
    ) && is_digit_exec(s[i + 8]) && is_digit_exec(s[i + 9])
}

/// Scans a return-date cell for the first `DD.MM.YYYY`-shaped substring and
/// reads the date it spells, rejecting substrings that are no valid
/// calendar date.
pub fn extract_date(s: &Vec<char>) -> (r: Option<Date>)
    ensures
        r == extracted_date(s@),
        r matches Some(d) ==> d.wf(),
{
    let n = s.len();
    if n < 10 {
        assert(first_shape_from(s@, 0) == -1);
        return None;
    }
    let mut i: usize = 0;
    while i <= n - 10
        invariant
            n == s@.len(),
            10 <= n,
            0 <= i <= n,
            forall|j: int| 0 <= j < i ==> !date_shape_at(s@, j),
            first_shape_from(s@, 0) == first_shape_from(s@, i as int),
        decreases n - i,
    {
        if date_shape_at_exec(s, i) {
            let d = Date {
                year: digit_val_exec(s[i + 6]) * 1000 + digit_val_exec(s[i + 7]) * 100
                    + digit_val_exec(s[i + 8]) * 10 + digit_val_exec(s[i + 9]),
                month: digit_val_exec(s[i + 3]) * 10 + digit_val_exec(s[i + 4]),
                day: digit_val_exec(s[i]) * 10 + digit_val_exec(s[i + 1]),
            };
            assert(d == date_at(s@, i as int));
            if d.is_valid() {
                return Some(d);
            } else {
                return None;
            }
        }
        i = i + 1;
    }
    assert(first_shape_from(s@, i as int) == -1);
    None
}

} // verus!
