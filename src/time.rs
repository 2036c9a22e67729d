//! Points in time as the clock shows them: the calendar date, and the row of
//! glyphs that spells the time of day.

use chrono::Datelike;
use chrono::Timelike;
use vstd::prelude::*;

use crate::font;
use crate::term;

verus! {

/// A wall-clock reading, broken into its calendar and clock fields.
#[derive(Clone, Copy, Debug, PartialEq, Eq, Structural)]
pub struct Moment {
    pub year: i32,
    pub month: u8,
    pub day: u8,
    pub hour: u8,
    pub minute: u8,
    pub second: u8,
}

impl Moment {
    /// Every field lies in its calendar range.
    pub open spec fn wf(&self) -> bool {
        &&& 1 <= self.month <= 12
        &&& 1 <= self.day <= 31
        &&& self.hour < 24
        &&& self.minute < 60
        &&& self.second < 60
    }

    /// The date part of this moment.
    pub open spec fn date_spec(&self) -> Date {
        Date { year: self.year, month: self.month, day: self.day }
    }

    /// The date part of this moment.
    pub fn date(&self) -> (d: Date)
        ensures
            d == self.date_spec(),
    {
        Date { year: self.year, month: self.month, day: self.day }
    }
}

/// The current time in `zone`, read from chrono.
///
/// Relies on `chrono::FixedOffset::from_str`, `chrono::Utc::now` and
/// `chrono::Local::now`: a zone written as a UTC offset (`+09:00`) is read in
/// that offset, anything else in the machine's local zone. chrono's `month`,
/// `day`, `hour`, `minute` and `second` lie in 1..=12, 1..=31, 0..=23, 0..=59
/// and 0..=59 (a leap second shows in the nanoseconds only). chrono panics
/// where the system clock reads a time before 1970.
#[verifier::external_body]
pub(crate) fn now_in(zone: &str) -> (m: Moment)
    ensures
        m.wf(),
{
    let t = match zone.parse::<chrono::FixedOffset>() {
        Ok(offset) => chrono::Utc::now().with_timezone(&offset).naive_local(),
        Err(_) => chrono::Local::now().naive_local(),
    };
    Moment {
        year: t.year(),
        month: t.month() as u8,
        day: t.day() as u8,
        hour: t.hour() as u8,
        minute: t.minute() as u8,
        second: t.second() as u8,
    }
}

/// A calendar date. The default date (all zero) matches no real date, so a
/// clock holding it redraws the date line on its next frame.
#[derive(Clone, Copy, Debug, PartialEq, Eq, Structural)]
pub struct Date {
    pub year: i32,
    pub month: u8,
    pub day: u8,
}

/// The date that no real date equals.
pub open spec fn no_date() -> Date {
    Date { year: 0, month: 0, day: 0 }
}

impl Default for Date {
    fn default() -> (d: Date)
        ensures
            d == no_date(),
    {
        Date { year: 0, month: 0, day: 0 }
    }
}

/// Decimal digits of `n`, padded with leading zeros to at least `k` digits.
pub open spec fn padded(n: nat, k: nat) -> Seq<u8> {
    let ds = term::dec(n);
    if ds.len() >= k {
        ds
    } else {
        Seq::new((k - ds.len()) as nat, |i: int| 48u8) + ds
    }
}

/// The absolute value of a year.
pub open spec fn abs_year(y: i32) -> nat {
    if y < 0 {
        (-y) as nat
    } else {
        y as nat
    }
}

/// The date as `YYYY-MM-DD` (ASCII), with a leading `-` before a year before 0.
pub open spec fn date_text(d: Date) -> Seq<u8> {
    let sign: Seq<u8> = if d.year < 0 { seq![45u8] } else { seq![] };
    sign + padded(abs_year(d.year), 4) + seq![45u8] + padded(d.month as nat, 2) + seq![45u8]
        + padded(d.day as nat, 2)
}

/// Appends `n` in decimal, padded with zeros to at least `k` digits.
fn push_padded(out: &mut Vec<u8>, n: u32, k: usize)
    ensures
        final(out)@ == old(out)@ + padded(n as nat, k as nat),
{
    let ghost start = out@;
    let mut ds: Vec<u8> = Vec::new();
    term::push_dec(&mut ds, n);
    assert(ds@ =~= term::dec(n as nat));
    let mut z: usize = ds.len();
    while z < k
        invariant
            ds@ == term::dec(n as nat),
            ds.len() <= z,
            z <= k || z == ds.len(),
            out@ =~= start + Seq::new((z - ds.len()) as nat, |i: int| 48u8),
        decreases k - z,
    {
        out.push(48u8);
        z = z + 1;
        assert(out@ =~= start + Seq::new((z - ds.len()) as nat, |i: int| 48u8));
    }
    out.append(&mut ds);
    assert(out@ =~= start + padded(n as nat, k as nat));
}

impl Date {
    /// Appends the text of the date.
    pub fn push_text(&self, out: &mut Vec<u8>)
        ensures
            final(out)@ == old(out)@ + date_text(*self),
    {
        let ghost start = out@;
        let a: u32 = if self.year < 0 {
            out.push(45u8);
            (0i64 - self.year as i64) as u32
        } else {
            self.year as u32
        };
        push_padded(out, a, 4);
        out.push(45u8);
        push_padded(out, self.month as u32, 2);
        out.push(45u8);
        push_padded(out, self.day as u32, 2);
        assert(out@ =~= start + date_text(*self));
    }

    /// The text of the date.
    pub fn text(&self) -> (t: Vec<u8>)
        ensures
            t@ == date_text(*self),
    {
        let mut t: Vec<u8> = Vec::new();
        self.push_text(&mut t);
        assert(t@ =~= date_text(*self));
        t
    }
}

/// Number of glyph positions: `HH:MM` and a blank, or `HH:MM:SS`.
pub open spec fn positions(second: bool) -> nat {
    if second {
        8
    } else {
        6
    }
}

/// The hour as shown: 0..=23 on a 24-hour clock, 1..=12 otherwise.
pub open spec fn shown_hour(hour: u8, military: bool) -> int {
    if military {
        hour as int
    } else if hour % 12 == 0 {
        12
    } else {
        (hour % 12) as int
    }
}

/// The glyphs that spell the time of `m`.
pub open spec fn face(m: Moment, second: bool, military: bool) -> Seq<u16> {
    let h = shown_hour(m.hour, military);
    let hm = seq![
        font::digit_glyph(h / 10),
        font::digit_glyph(h % 10),
        font::COLON,
        font::digit_glyph(m.minute as int / 10),
        font::digit_glyph(m.minute as int % 10),
    ];
    if second {
        hm + seq![
            font::COLON,
            font::digit_glyph(m.second as int / 10),
            font::digit_glyph(m.second as int % 10),
        ]
    } else {
        hm + seq![font::BLANK]
    }
}

/// A row of glyphs, one per position of the clock face.
#[derive(Clone, Debug)]
pub struct Time {
    glyphs: Vec<u16>,
}

impl View for Time {
    type V = Seq<u16>;

    closed spec fn view(&self) -> Seq<u16> {
        self.glyphs@
    }
}

impl Time {
    /// Number of glyph positions for these display flags.
    pub fn width(second: bool, military: bool) -> (n: usize)
        ensures
            n == positions(second),
    {
        if second {
            8
        } else {
            6
        }
    }

    /// A row with every cell unlit, as wide as a face with these flags.
    pub fn blank(second: bool, military: bool) -> (t: Time)
        ensures
            t@ == blank_row(second),
    {
        let n = Time::width(second, military);
        let mut glyphs: Vec<u16> = Vec::new();
        while glyphs.len() < n
            invariant
                n == positions(second),
                glyphs.len() <= n,
                glyphs@ =~= Seq::new(glyphs.len() as nat, |k: int| 0u16),
            decreases n - glyphs.len(),
        {
            glyphs.push(0);
        }
        let t = Time { glyphs };
        assert(t@ =~= blank_row(second));
        t
    }

    /// The row that spells the time of `m`.
    pub fn at(m: &Moment, second: bool, military: bool) -> (t: Time)
        requires
            m.wf(),
        ensures
            t@ == face(*m, second, military),
    {
        let h: u8 = if military {
            m.hour
        } else if m.hour % 12 == 0 {
            12
        } else {
            m.hour % 12
        };
        let mut glyphs: Vec<u16> = Vec::new();
        glyphs.push(font::digit(h / 10));
        glyphs.push(font::digit(h % 10));
        glyphs.push(font::COLON);
        glyphs.push(font::digit(m.minute / 10));
        glyphs.push(font::digit(m.minute % 10));
        if second {
            glyphs.push(font::COLON);
            glyphs.push(font::digit(m.second / 10));
            glyphs.push(font::digit(m.second % 10));
        } else {
            glyphs.push(font::BLANK);
        }
        let t = Time { glyphs };
        assert(t@ =~= face(*m, second, military));
        t
    }

    /// Number of positions in the row.
    pub fn len(&self) -> (n: usize)
        ensures
            n == self@.len(),
    {
        self.glyphs.len()
    }

    /// The glyph at position `k`, or the blank glyph past the end of the row.
    pub fn glyph(&self, k: usize) -> (g: u16)
        ensures
            g == glyph_at(self@, k as int),
    {
        if k < self.glyphs.len() {
            self.glyphs[k]
        } else {
            font::BLANK
        }
    }
}

/// The row of a blank face, every cell unlit.
pub open spec fn blank_row(second: bool) -> Seq<u16> {
    Seq::new(positions(second), |k: int| 0u16)
}

/// The glyph at position `k` of `row`, taken as blank past its end.
pub open spec fn glyph_at(row: Seq<u16>, k: int) -> u16 {
    if 0 <= k < row.len() {
        row[k]
    } else {
        0
    }
}


} // verus!
