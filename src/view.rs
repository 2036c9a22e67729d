//! The clock face on screen: where it stands, how large its cells are, and
//! what it drew last, so that each frame repaints only what changed.
//
//  H       :   M       :   S
// ...|...|...|...|...|...|...|...
// ...|...|...|...|...|...|...|...
// ...|...|...|...|...|...|...|...
// ...|...|...|...|...|...|...|...
// ...|...|...|...|...|...|...|...
//
//           ....-..-..
//           Y    M  D

use vstd::arithmetic::div_mod::lemma_fundamental_div_mod_converse;
use vstd::prelude::*;

use crate::font;
use crate::term;
use crate::time;
use crate::time::Date;
use crate::time::Moment;
use crate::time::Time;

verus! {

/// What a clock is: its place and cell size, its colors and display flags,
/// and the date and glyph row it drew last.
pub struct ClockState {
    pub x: u16,
    pub y: u16,
    pub w: u16,
    pub h: u16,
    pub date: Date,
    pub time: Seq<u16>,
    pub zone: Seq<char>,
    pub color: term::Paint,
    pub second: bool,
    pub military: bool,
}

/// A clock face drawn on a terminal.
#[derive(Clone, Debug)]
pub struct Clock {
    x: u16,
    y: u16,
    w: u16,
    h: u16,
    date: Date,
    time: Time,
    zone: String,
    color: term::Paint,
    second: bool,
    military: bool,
}

impl View for Clock {
    type V = ClockState;

    closed spec fn view(&self) -> ClockState {
        ClockState {
            x: self.x,
            y: self.y,
            w: self.w,
            h: self.h,
            date: self.date,
            time: self.time@,
            zone: self.zone@,
            color: self.color,
            second: self.second,
            military: self.military,
        }
    }
}

/// Width of a face of `n` glyphs with cells `w` columns wide: each glyph
/// takes three cells and a one-cell gap, and the last gap is not counted.
pub open spec fn width_of(w: nat, n: nat) -> nat {
    if 4 * w * n >= 1 {
        (4 * w * n - 1) as nat
    } else {
        0
    }
}

/// Height of a face whose cells are `h` rows high.
pub open spec fn height_of(h: nat) -> nat {
    5 * h
}

/// Number of glyph positions of the clock's face.
pub open spec fn digits(c: ClockState) -> nat {
    time::positions(c.second)
}

pub open spec fn clock_width(c: ClockState) -> nat {
    width_of(c.w as nat, digits(c))
}

pub open spec fn clock_height(c: ClockState) -> nat {
    height_of(c.h as nat)
}

/// `a - b`, or zero where `b` is larger.
pub open spec fn monus(a: nat, b: nat) -> nat {
    if a >= b {
        (a - b) as nat
    } else {
        0
    }
}

/// The place at which a face of `size` stands centered in `screen`.
pub open spec fn centered(screen: nat, size: nat) -> nat {
    monus(screen / 2, size / 2)
}

/// The sequence that resets the colors and clears the screen.
pub open spec fn reset_bytes() -> Seq<u8> {
    term::sgr(term::reset_paint()) + term::clear()
}

/// The state of a clock after a reset: nothing is known to be on screen.
pub open spec fn reset_state(c: ClockState) -> ClockState {
    ClockState {
        date: time::no_date(),
        time: time::blank_row(c.second),
        ..c
    }
}


/// One repainted cell: the cell at row-major position `cell` of the glyph at
/// position `digit`, painted lit or unlit.
pub struct Stroke {
    pub digit: nat,
    pub cell: nat,
    pub lit: bool,
}

/// The diff mask of position `d`: the cells that differ between two rows.
pub open spec fn diff_mask(prev: Seq<u16>, next: Seq<u16>, d: int) -> u16 {
    time::glyph_at(prev, d) ^ time::glyph_at(next, d)
}

/// The strokes that turn `prev` into `next` over the first `k` cells, taken
/// position by position and cell by cell in row-major order: one stroke per
/// set bit of the diff mask, lit where `next` has the cell lit.
pub open spec fn changes(prev: Seq<u16>, next: Seq<u16>, k: nat) -> Seq<Stroke>
    decreases k,
{
    if k == 0 {
        seq![]
    } else {
        let d = (k - 1) / 15;
        let i = (k - 1) % 15;
        let rest = changes(prev, next, (k - 1) as nat);
        if font::lit(diff_mask(prev, next, d), i) {
            rest.push(Stroke { digit: d as nat, cell: i as nat, lit: font::lit(time::glyph_at(next, d), i) })
        } else {
            rest
        }
    }
}

/// The strokes of a frame that draws `next` over `prev`.
pub open spec fn frame_changes(prev: Seq<u16>, next: Seq<u16>) -> Seq<Stroke> {
    changes(prev, next, 15 * next.len())
}

/// Columns painted per cell row: the cell width, and at least one.
pub open spec fn run(w: u16) -> nat {
    if w == 0 {
        1
    } else {
        w as nat
    }
}

/// Column of cell `i` of the glyph at position `d`.
pub open spec fn cell_x(c: ClockState, d: nat, i: nat) -> nat {
    c.x as nat + 4 * (c.w as nat) * d + (i % 3) * (c.w as nat)
}

/// Row of the top of cell `i` of a glyph.
pub open spec fn cell_y(c: ClockState, i: nat) -> nat {
    c.y as nat + (i / 3) * (c.h as nat)
}

/// The first `j` terminal rows of a cell at column `x`, row `y`, each painted
/// `w` columns wide in `p`.
pub open spec fn rows(p: term::Paint, x: nat, y: nat, w: u16, j: nat) -> Seq<u8>
    decreases j,
{
    if j == 0 {
        seq![]
    } else {
        rows(p, x, y, w, (j - 1) as nat) + term::sgr(p) + term::goto(x, (y + j - 1) as nat) + term::spaces(
            run(w),
        )
    }
}

/// The paint of a stroke: the clock's color where the cell turns lit, the
/// default colors where it turns unlit.
pub open spec fn stroke_paint(c: ClockState, s: Stroke) -> term::Paint {
    if s.lit {
        c.color
    } else {
        term::reset_paint()
    }
}

/// The bytes that paint one stroke.
pub open spec fn stroke_bytes(c: ClockState, s: Stroke) -> Seq<u8> {
    rows(stroke_paint(c, s), cell_x(c, s.digit, s.cell), cell_y(c, s.cell), c.w, c.h as nat)
}

/// The bytes that paint a sequence of strokes, in order.
pub open spec fn render(c: ClockState, ss: Seq<Stroke>) -> Seq<u8>
    decreases ss.len(),
{
    if ss.len() == 0 {
        seq![]
    } else {
        render(c, ss.drop_last()) + stroke_bytes(c, ss.last())
    }
}

/// Column of the date line: centered under the face, or at column 0 where
/// the date is the wider.
pub open spec fn date_x(c: ClockState, text_width: nat) -> nat {
    monus(c.x as nat + clock_width(c) / 2, text_width / 2)
}

/// Row of the date line: one row below the face.
pub open spec fn date_y(c: ClockState) -> nat {
    c.y as nat + clock_height(c) + 1
}

/// The bytes that write the date line of `d`.
pub open spec fn date_line(c: ClockState, d: Date) -> Seq<u8> {
    let text = time::date_text(d);
    term::sgr(term::reset_paint()) + term::goto(date_x(c, text.len()), date_y(c)) + text
}

/// The glyph row of a frame drawn at `m`.
pub open spec fn face_of(c: ClockState, m: Moment) -> Seq<u16> {
    time::face(m, c.second, c.military)
}

/// The bytes of a frame drawn at `m`: the changed cells, then the date line
/// where the date changed.
pub open spec fn frame(c: ClockState, m: Moment) -> Seq<u8> {
    render(c, frame_changes(c.time, face_of(c, m))) + if m.date_spec() != c.date {
        date_line(c, m.date_spec())
    } else {
        seq![]
    }
}

/// The clock after a frame drawn at `m`: it holds that frame's row and date.
pub open spec fn after(c: ClockState, m: Moment) -> ClockState {
    ClockState { time: face_of(c, m), date: m.date_spec(), ..c }
}

proof fn lemma_changes_step(prev: Seq<u16>, next: Seq<u16>, d: nat, i: nat)
    requires
        i < 15,
    ensures
        changes(prev, next, 15 * d + i + 1) == if font::lit(diff_mask(prev, next, d as int), i as int) {
            changes(prev, next, 15 * d + i).push(
                Stroke { digit: d, cell: i, lit: font::lit(time::glyph_at(next, d as int), i as int) },
            )
        } else {
            changes(prev, next, 15 * d + i)
        },
{
    let k = 15 * d + i;
    lemma_fundamental_div_mod_converse(k as int, 15, d as int, i as int);
    assert((15 * d + i + 1 - 1) as nat == k);
}

proof fn lemma_render_push(c: ClockState, ss: Seq<Stroke>, s: Stroke)
    ensures
        render(c, ss.push(s)) == render(c, ss) + stroke_bytes(c, s),
{
    assert(ss.push(s).drop_last() =~= ss);
}

impl Clock {
    /// Creates a clock at column `x`, row `y`, with cells `w` columns wide and
    /// `h` rows high, showing the time of `zone` in `color`. Nothing is drawn
    /// yet, and the first frame paints every lit cell and the date.
    pub fn start(
        x: u16,
        y: u16,
        w: u16,
        h: u16,
        zone: String,
        color: term::Color,
        second: bool,
        military: bool,
    ) -> (c: Clock)
        ensures
            c@ == (ClockState {
                x,
                y,
                w,
                h,
                date: time::no_date(),
                time: time::blank_row(second),
                zone: zone@,
                color: term::Paint { color, ground: term::Ground::Back },
                second,
                military,
            }),
    {
        Clock {
            x,
            y,
            w,
            h,
            date: Date::default(),
            time: Time::blank(second, military),
            zone,
            color: term::Paint::back(color),
            second,
            military,
        }
    }

    /// Shows or hides the seconds. Nothing is redrawn: the caller resets and
    /// draws again, since the face changes width.
    pub fn toggle_second(&mut self)
        ensures
            final(self)@ == (ClockState { second: !old(self)@.second, ..old(self)@ }),
    {
        self.second = !self.second;
    }

    /// Switches between the 12-hour and the 24-hour clock. Nothing is redrawn.
    pub fn toggle_military(&mut self)
        ensures
            final(self)@ == (ClockState { military: !old(self)@.military, ..old(self)@ }),
    {
        self.military = !self.military;
    }

    /// Sets the color of lit cells. Nothing is redrawn.
    pub fn set_color(&mut self, color: term::Color)
        ensures
            final(self)@ == (ClockState {
                color: term::Paint { color, ground: term::Ground::Back },
                ..old(self)@
            }),
    {
        self.color = term::Paint::back(color);
    }

    /// Places the face in the middle of a screen of `size` (columns, rows).
    /// A face larger than the screen stands at its top or left edge. Nothing
    /// is redrawn.
    pub fn center(&mut self, size: (u16, u16))
        ensures
            final(self)@ == (ClockState {
                x: centered(size.0 as nat, clock_width(old(self)@)) as u16,
                y: centered(size.1 as nat, clock_height(old(self)@)) as u16,
                ..old(self)@
            }),
    {
        let half_w: u32 = self.width() / 2;
        let half_h: u32 = self.height() / 2;
        let (sw, sh) = size;
        let cx: u32 = if sw as u32 / 2 >= half_w { sw as u32 / 2 - half_w } else { 0 };
        let cy: u32 = if sh as u32 / 2 >= half_h { sh as u32 / 2 - half_h } else { 0 };
        self.x = cx as u16;
        self.y = cy as u16;
    }

    /// Forgets what was drawn, so that the next frame paints the whole face
    /// and the date; returns the bytes that reset the colors and clear the
    /// screen.
    pub fn reset(&mut self) -> (out: Vec<u8>)
        ensures
            final(self)@ == reset_state(old(self)@),
            out@ == reset_bytes(),
    {
        self.date = Date::default();
        self.time = Time::blank(self.second, self.military);
        let mut out: Vec<u8> = Vec::new();
        term::push_paint(&mut out, term::Paint::reset());
        term::push_clear(&mut out);
        assert(out@ =~= reset_bytes());
        out
    }


    /// Draws a frame at `now` over what the clock drew last, and returns its
    /// bytes: for each position and each cell whose bit is set in the diff
    /// mask, every terminal row of that cell painted in the clock's color
    /// (cell turning lit) or the default colors (cell turning unlit); then,
    /// where the date changed, the date line. The clock then holds the new row
    /// and date.
    pub fn draw_at(&mut self, now: &Moment) -> (out: Vec<u8>)
        requires
            now.wf(),
        ensures
            out@ == frame(old(self)@, *now),
            final(self)@ == after(old(self)@, *now),
    {
        let ghost c = self@;
        let cur = Time::at(now, self.second, self.military);
        let ghost next = cur@;
        let n = cur.len();
        let x: u32 = self.x as u32;
        let y: u32 = self.y as u32;
        let w: u32 = self.w as u32;
        let h: u32 = self.h as u32;
        let mut out: Vec<u8> = Vec::new();
        let mut d: usize = 0;
        while d < n
            invariant
                self@ == c,
                n == next.len(),
                n <= 8,
                d <= n,
                cur@ == next,
                x == c.x,
                y == c.y,
                w == c.w,
                h == c.h,
                out@ == render(c, changes(c.time, next, (15 * d) as nat)),
            decreases n - d,
        {
            let prev = self.time.glyph(d);
            let g = cur.glyph(d);
            let diff: u16 = prev ^ g;
            assert(w * (d as u32) <= 65535 * 8) by (nonlinear_arith)
                requires
                    w <= 65535,
                    d <= 8,
            ;
            let wd: u32 = w * (d as u32);
            let dx: u32 = x + 4 * wd;
            assert(dx == c.x as nat + 4 * (c.w as nat) * (d as nat)) by (nonlinear_arith)
                requires
                    dx == x + 4 * wd,
                    wd == w * d,
                    x == c.x,
                    w == c.w,
            ;
            let mut i: u16 = 0;
            while i < 15
                invariant
                    self@ == c,
                    n == next.len(),
                    n <= 8,
                    d < n,
                    x == c.x,
                    y == c.y,
                    w == c.w,
                    h == c.h,
                    dx == c.x as nat + 4 * (c.w as nat) * (d as nat),
                    dx <= 65535 + 4 * 65535 * 8,
                    prev == time::glyph_at(c.time, d as int),
                    g == time::glyph_at(next, d as int),
                    diff == prev ^ g,
                    i <= 15,
                    out@ == render(c, changes(c.time, next, (15 * d + i) as nat)),
                decreases 15 - i,
            {
                let mask: u16 = 0x4000u16 >> i;
                proof {
                    lemma_changes_step(c.time, next, d as nat, i as nat);
                }
                if diff & mask != 0 {
                    let color = if g & mask != 0 {
                        self.color
                    } else {
                        term::Paint::reset()
                    };
                    let ghost s = Stroke {
                        digit: d as nat,
                        cell: i as nat,
                        lit: font::lit(time::glyph_at(next, d as int), i as int),
                    };
                    assert(color == stroke_paint(c, s));
                    let col: u32 = (i % 3) as u32;
                    let row: u32 = (i / 3) as u32;
                    assert(col * w <= 2 * 65535 && row * h <= 4 * 65535) by (nonlinear_arith)
                        requires
                            col <= 2,
                            row <= 4,
                            w <= 65535,
                            h <= 65535,
                    ;
                    let px: u32 = dx + col * w;
                    let py: u32 = y + row * h;
                    assert(px == cell_x(c, d as nat, i as nat));
                    assert(py == cell_y(c, i as nat));
                    let width: u32 = if w == 0 {
                        1
                    } else {
                        w
                    };
                    let ghost before = out@;
                    let mut j: u32 = 0;
                    while j < h
                        invariant
                            j <= h,
                            h == c.h,
                            py <= 6 * 65535,
                            px <= 40 * 65535,
                            width == run(c.w),
                            out@ == before + rows(color, px as nat, py as nat, c.w, j as nat),
                        decreases h - j,
                    {
                        term::push_paint(&mut out, color);
                        term::push_goto(&mut out, px, py + j);
                        term::push_spaces(&mut out, width);
                        j = j + 1;
                        assert(out@ =~= before + rows(color, px as nat, py as nat, c.w, j as nat));
                    }
                    proof {
                        lemma_render_push(c, changes(c.time, next, (15 * d + i) as nat), s);
                    }
                }
                i = i + 1;
            }
            d = d + 1;
        }
        assert(out@ == render(c, frame_changes(c.time, next)));
        let date = now.date();
        if date != self.date {
            let ghost before = out@;
            let mut text = date.text();
            let half: u32 = x + self.width() / 2;
            let tw: usize = text.len() / 2;
            let col: u32 = if half as usize >= tw {
                (half as usize - tw) as u32
            } else {
                0
            };
            assert(col == date_x(c, time::date_text(now.date_spec()).len()));
            term::push_paint(&mut out, term::Paint::reset());
            term::push_goto(&mut out, col, y + self.height() + 1);
            out.append(&mut text);
            assert(out@ =~= before + date_line(c, now.date_spec()));
        }
        self.date = date;
        self.time = cur;
        out
    }

    /// Draws a frame at the current time of the clock's zone; see `draw_at`.
    /// The bytes are those of a frame at some valid reading of the clock.
    pub fn draw(&mut self) -> (out: Vec<u8>)
        ensures
            exists|m: Moment|
                m.wf() && out@ == #[trigger] frame(old(self)@, m) && final(self)@ == after(
                    old(self)@,
                    m,
                ),
    {
        let now = time::now_in(self.zone.as_str());
        self.draw_at(&now)
    }

    /// Nanoseconds from a reading `nanosecond` nanoseconds past a whole second
    /// to the next whole second. chrono counts a leap second as nanoseconds
    /// from 1_000_000_000 up, so the reading is taken modulo one second.
    pub fn sync_delay(nanosecond: u32) -> (r: u64)
        ensures
            r == 1_000_000_000 - (nanosecond as nat % 1_000_000_000),
            1 <= r <= 1_000_000_000,
    {
        1_000_000_000u64 - (nanosecond % 1_000_000_000) as u64
    }

    /// Number of glyph positions of the face.
    fn digits(&self) -> (n: usize)
        ensures
            n == digits(self@),
    {
        Time::width(self.second, self.military)
    }

    /// Width of the face, in terminal columns.
    pub fn width(&self) -> (r: u32)
        ensures
            r == clock_width(self@),
    {
        let n: u32 = self.digits() as u32;
        let w: u32 = self.w as u32;
        assert(w * n <= 65535 * 8) by (nonlinear_arith)
            requires
                w <= 65535,
                n <= 8,
        ;
        let full: u32 = 4 * w * n;
        if full >= 1 {
            full - 1
        } else {
            0
        }
    }

    /// Height of the face, in terminal rows.
    pub fn height(&self) -> (r: u32)
        ensures
            r == clock_height(self@),
    {
        self.h as u32 * 5
    }
}

} // verus!
