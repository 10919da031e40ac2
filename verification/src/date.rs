//! A calendar date held as plain year, month and day numbers, with verified
//! `YYYY-MM-DD` formatting. Reading the clock is the only outside call.

use vstd::prelude::*;
use crate::text;

verus! {

/// A calendar date. The engine only ever formats it; it never computes with
/// it, so plain field ranges are all the structure it needs.
#[derive(Debug, Clone, Copy, PartialEq, Eq, Structural)]
pub struct Date {
    pub year: u32,
    pub month: u32,
    pub day: u32,
}

/// The character for the decimal digit `d`.
pub open spec fn digit(d: int) -> char {
    if d == 0 {
        '0'
    } else if d == 1 {
        '1'
    } else if d == 2 {
        '2'
    } else if d == 3 {
        '3'
    } else if d == 4 {
        '4'
    } else if d == 5 {
        '5'
    } else if d == 6 {
        '6'
    } else if d == 7 {
        '7'
    } else if d == 8 {
        '8'
    } else {
        '9'
    }
}

/// `n` as two decimal digits, zero-padded (low two digits of `n`).
pub open spec fn two_digits(n: int) -> Seq<char> {
    seq![digit(n / 10 % 10), digit(n % 10)]
}

/// `n` as four decimal digits, zero-padded (low four digits of `n`).
pub open spec fn four_digits(n: int) -> Seq<char> {
    seq![digit(n / 1000 % 10), digit(n / 100 % 10), digit(n / 10 % 10), digit(n % 10)]
}

/// The date formatted as `YYYY-MM-DD`.
pub open spec fn yyyy_mm_dd(d: Date) -> Seq<char> {
    four_digits(d.year as int) + seq!['-'] + two_digits(d.month as int) + seq!['-'] + two_digits(
        d.day as int,
    )
}

/// Relies on `chrono::Local::now` together with the `chrono::Datelike`
/// accessors `year`, `month` and `day` on the value it returns: `month` is
/// documented to range over 1..=12 and `day` over 1..=31. Nothing more can
/// be promised of a clock reading.
#[verifier::external_body]
fn now_ymd() -> (r: (i32, u32, u32))
    ensures
        1 <= r.1 <= 12,
        1 <= r.2 <= 31,
{
    let now = chrono::Local::now();
    (chrono::Datelike::year(&now), chrono::Datelike::month(&now), chrono::Datelike::day(&now))
}

/// The character for the decimal digit `d`.
fn digit_char(d: u32) -> (c: char)
    requires
        d < 10,
    ensures
        c == digit(d as int),
{
    if d == 0 {
        '0'
    } else if d == 1 {
        '1'
    } else if d == 2 {
        '2'
    } else if d == 3 {
        '3'
    } else if d == 4 {
        '4'
    } else if d == 5 {
        '5'
    } else if d == 6 {
        '6'
    } else if d == 7 {
        '7'
    } else if d == 8 {
        '8'
    } else {
        '9'
    }
}

impl Date {
    /// The field ranges every engine-made date satisfies: a four-digit year
    /// and calendar month and day numbers.
    pub open spec fn wf(&self) -> bool {
        &&& self.year <= 9999
        &&& 1 <= self.month <= 12
        &&& 1 <= self.day <= 31
    }

    /// A date from its parts; `None` when a part is out of range.
    pub fn from_ymd(year: u32, month: u32, day: u32) -> (r: Option<Date>)
        ensures
            match r {
                Some(d) => d.wf() && d.year == year && d.month == month && d.day == day,
                None => !(year <= 9999 && 1 <= month <= 12 && 1 <= day <= 31),
            },
    {
        if year <= 9999 && 1 <= month && month <= 12 && 1 <= day && day <= 31 {
            Some(Date { year, month, day })
        } else {
            None
        }
    }

    /// Today's date from the system clock. A clock year outside the
    /// four-digit range is clamped to it; month and day are in range by the
    /// clock's own contract.
    pub fn today() -> (r: Date)
        ensures
            r.wf(),
    {
        let (y, m, d) = now_ymd();
        let year: u32 = if y < 0 {
            0
        } else if y > 9999 {
            9999
        } else {
            y as u32
        };
        Date { year, month: m, day: d }
    }

    /// The date formatted as `YYYY-MM-DD`, zero-padded.
    pub fn format_yyyy_mm_dd(&self) -> (r: String)
        requires
            self.wf(),
        ensures
            r@ == yyyy_mm_dd(*self),
    {
        let mut v: Vec<char> = Vec::new();
        v.push(digit_char(self.year / 1000 % 10));
        v.push(digit_char(self.year / 100 % 10));
        v.push(digit_char(self.year / 10 % 10));
        v.push(digit_char(self.year % 10));
        v.push('-');
        v.push(digit_char(self.month / 10 % 10));
        v.push(digit_char(self.month % 10));
        v.push('-');
        v.push(digit_char(self.day / 10 % 10));
        v.push(digit_char(self.day % 10));
        assert(v@ =~= yyyy_mm_dd(*self));
        text::chars_to_string(&v)
    }
}

} // verus!
