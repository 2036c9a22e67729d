//! Properties of drawing that hold over every clock and every reading.

use vstd::arithmetic::div_mod::lemma_fundamental_div_mod;
use vstd::arithmetic::div_mod::lemma_fundamental_div_mod_converse;
use vstd::prelude::*;

use crate::font;
use crate::time;
use crate::time::Moment;
use crate::view::ClockState;
use crate::view::Stroke;
use crate::view::after;
use crate::view::centered;
use crate::view::clock_height;
use crate::view::clock_width;
use crate::view::changes;
use crate::view::date_line;
use crate::view::diff_mask;
use crate::view::face_of;
use crate::view::frame;
use crate::view::frame_changes;
use crate::view::height_of;
use crate::view::render;
use crate::view::reset_state;
use crate::view::width_of;

verus! {

proof fn lemma_changes_contains(prev: Seq<u16>, next: Seq<u16>, k: nat, s: Stroke)
    ensures
        changes(prev, next, k).contains(s) <==> (s.cell < 15 && 15 * s.digit + s.cell < k
            && font::lit(diff_mask(prev, next, s.digit as int), s.cell as int) && s.lit
            == font::lit(time::glyph_at(next, s.digit as int), s.cell as int)),
    decreases k,
{
    if k > 0 {
        let j = (k - 1) as nat;
        lemma_changes_contains(prev, next, j, s);
        lemma_fundamental_div_mod(j as int, 15);
        if s.cell < 15 && 15 * s.digit + s.cell == j {
            lemma_fundamental_div_mod_converse(j as int, 15, s.digit as int, s.cell as int);
        }
        let rest = changes(prev, next, j);
        let d = j / 15;
        let i = j % 15;
        if font::lit(diff_mask(prev, next, d as int), i as int) {
            let t = Stroke {
                digit: d as nat,
                cell: i as nat,
                lit: font::lit(time::glyph_at(next, d as int), i as int),
            };
            assert(rest.push(t)[rest.len() as int] == t);
            if rest.push(t).contains(s) && !rest.contains(s) {
                let q = choose|q: int| 0 <= q < rest.push(t).len() && rest.push(t)[q] == s;
                if q < rest.len() {
                    assert(rest.contains(s));
                }
            }
            if rest.contains(s) {
                let q = choose|q: int| 0 <= q < rest.len() && rest[q] == s;
                assert(rest.push(t)[q] == s);
            }
        }
    }
}

/// A frame paints a cell exactly where its bit is set in the diff mask of its
/// position, lit exactly where the new row has the cell lit; it touches no
/// other cell.
pub proof fn lemma_frame_touches_exactly_the_diff(prev: Seq<u16>, next: Seq<u16>, s: Stroke)
    ensures
        frame_changes(prev, next).contains(s) <==> (s.digit < next.len() && s.cell < 15
            && font::lit(diff_mask(prev, next, s.digit as int), s.cell as int) && s.lit
            == font::lit(next[s.digit as int], s.cell as int)),
{
    lemma_changes_contains(prev, next, 15 * next.len(), s);
}

/// Position of a stroke's cell in the row-major order of a whole row.
pub open spec fn stroke_key(s: Stroke) -> nat {
    15 * s.digit + s.cell
}

proof fn lemma_changes_ordered(prev: Seq<u16>, next: Seq<u16>, k: nat)
    ensures
        forall|a: int|
            0 <= a < changes(prev, next, k).len() ==> stroke_key(
                #[trigger] changes(prev, next, k)[a],
            ) < k,
        forall|a: int, b: int|
            0 <= a < b < changes(prev, next, k).len() ==> stroke_key(
                #[trigger] changes(prev, next, k)[a],
            ) < stroke_key(#[trigger] changes(prev, next, k)[b]),
    decreases k,
{
    if k > 0 {
        let j = (k - 1) as nat;
        lemma_changes_ordered(prev, next, j);
        lemma_fundamental_div_mod(j as int, 15);
        let rest = changes(prev, next, j);
        let d = j / 15;
        let i = j % 15;
        if font::lit(diff_mask(prev, next, d as int), i as int) {
            let t = Stroke {
                digit: d as nat,
                cell: i as nat,
                lit: font::lit(time::glyph_at(next, d as int), i as int),
            };
            let all = rest.push(t);
            assert(all == changes(prev, next, k));
            assert(stroke_key(t) == j);
            assert forall|a: int| 0 <= a < all.len() implies stroke_key(#[trigger] all[a]) < k by {
                if a < rest.len() {
                    assert(all[a] == rest[a]);
                }
            }
            assert forall|a: int, b: int| 0 <= a < b < all.len() implies stroke_key(
                #[trigger] all[a],
            ) < stroke_key(#[trigger] all[b]) by {
                assert(all[a] == rest[a]);
                if b < rest.len() {
                    assert(all[b] == rest[b]);
                }
            }
        }
    }
}

/// A frame paints each cell at most once, in row-major order of the row.
pub proof fn lemma_frame_paints_each_cell_once(prev: Seq<u16>, next: Seq<u16>)
    ensures
        forall|a: int, b: int|
            0 <= a < b < frame_changes(prev, next).len() ==> stroke_key(
                #[trigger] frame_changes(prev, next)[a],
            ) < stroke_key(#[trigger] frame_changes(prev, next)[b]),
        frame_changes(prev, next).no_duplicates(),
{
    lemma_changes_ordered(prev, next, 15 * next.len());
}

proof fn lemma_changes_of_same(row: Seq<u16>, k: nat)
    ensures
        changes(row, row, k) == Seq::<Stroke>::empty(),
    decreases k,
{
    if k > 0 {
        let j = (k - 1) as nat;
        lemma_changes_of_same(row, j);
        let d = j / 15;
        font::lemma_lit_self_xor(time::glyph_at(row, d as int), (j % 15) as int);
    }
}

/// Drawing twice at the same reading: the second frame is empty.
pub proof fn lemma_second_frame_is_empty(c: ClockState, m: Moment)
    ensures
        frame(after(c, m), m) == Seq::<u8>::empty(),
{
    let a = after(c, m);
    lemma_changes_of_same(a.time, 15 * a.time.len());
    assert(frame_changes(a.time, face_of(a, m)) == Seq::<Stroke>::empty());
    assert(render(a, Seq::<Stroke>::empty()) == Seq::<u8>::empty());
    assert(frame(a, m) =~= Seq::<u8>::empty());
}

/// After a reset, the next frame paints every lit cell of the new row, and
/// only those, and writes the date line.
pub proof fn lemma_reset_repaints_all(c: ClockState, m: Moment, s: Stroke)
    requires
        m.wf(),
    ensures
        frame_changes(reset_state(c).time, face_of(c, m)).contains(s) <==> (s.digit < face_of(
            c,
            m,
        ).len() && s.cell < 15 && s.lit && font::lit(face_of(c, m)[s.digit as int], s.cell as int)),
        m.date_spec() != reset_state(c).date,
        frame(reset_state(c), m) == render(
            reset_state(c),
            frame_changes(reset_state(c).time, face_of(c, m)),
        ) + date_line(reset_state(c), m.date_spec()),
{
    let r = reset_state(c);
    let next = face_of(c, m);
    lemma_frame_touches_exactly_the_diff(r.time, next, s);
    if s.digit < next.len() {
        font::lemma_xor_blank(next[s.digit as int]);
        assert(diff_mask(r.time, next, s.digit as int) == next[s.digit as int]);
    }
}

/// A blank row is as wide as the face of any reading with the same flags.
pub proof fn lemma_blank_as_wide_as_face(m: Moment, second: bool, military: bool)
    ensures
        time::blank_row(second).len() == time::face(m, second, military).len(),
{
}

/// The width of a face grows with the cell width and the number of glyphs.
pub proof fn lemma_width_monotone(w1: nat, w2: nat, n1: nat, n2: nat)
    requires
        w1 <= w2,
        n1 <= n2,
    ensures
        width_of(w1, n1) <= width_of(w2, n2),
{
    assert(4 * w1 * n1 <= 4 * w2 * n2) by (nonlinear_arith)
        requires
            w1 <= w2,
            n1 <= n2,
    ;
}

/// The height of a face grows with the cell height.
pub proof fn lemma_height_monotone(h1: nat, h2: nat)
    requires
        h1 <= h2,
    ensures
        height_of(h1) <= height_of(h2),
{
}

/// A centered face that fits the screen has margins on its two sides that
/// differ by at most one.
pub proof fn lemma_centered_is_symmetric(screen: nat, size: nat)
    requires
        size <= screen,
    ensures
        centered(screen, size) + size <= screen,
        -1 <= centered(screen, size) - (screen - (centered(screen, size) + size)) <= 1,
{
}

/// A clock centered on a screen that its face fits has left and right
/// margins that differ by at most one column, and top and bottom margins that
/// differ by at most one row.
pub proof fn lemma_centered_clock(c: ClockState, size: (u16, u16))
    requires
        clock_width(c) <= size.0,
        clock_height(c) <= size.1,
    ensures
        ({
            let x = centered(size.0 as nat, clock_width(c)) as u16 as int;
            let y = centered(size.1 as nat, clock_height(c)) as u16 as int;
            &&& -1 <= x - (size.0 - (x + clock_width(c))) <= 1
            &&& -1 <= y - (size.1 - (y + clock_height(c))) <= 1
        }),
{
    lemma_centered_is_symmetric(size.0 as nat, clock_width(c));
    lemma_centered_is_symmetric(size.1 as nat, clock_height(c));
}

} // verus!
