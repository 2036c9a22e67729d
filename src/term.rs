//! Terminal control sequences: colors (SGR), cursor moves (CUP) and screen
//! clearing, written as ASCII bytes (`[` is 91, `;` 59, `m` 109, `H` 72,
//! `J` 74, a space 32, and the digit `n` is 48 + n).

use vstd::prelude::*;

verus! {

/// The eight standard terminal colors, and the terminal's default.
#[derive(Clone, Copy, Debug, PartialEq, Eq, Structural)]
pub enum Color {
    Black,
    Red,
    Green,
    Yellow,
    Blue,
    Magenta,
    Cyan,
    White,
    Reset,
}

/// Which plane a color is applied to.
#[derive(Clone, Copy, Debug, PartialEq, Eq, Structural)]
pub enum Ground {
    Fore,
    Back,
}

/// A color on a plane.
#[derive(Clone, Copy, Debug, PartialEq, Eq, Structural)]
pub struct Paint {
    pub color: Color,
    pub ground: Ground,
}

/// The paint that restores the terminal's default colors.
pub open spec fn reset_paint() -> Paint {
    Paint { color: Color::Reset, ground: Ground::Back }
}

impl Paint {
    /// A background paint of color `color`.
    pub fn back(color: Color) -> (p: Paint)
        ensures
            p == (Paint { color: color, ground: Ground::Back }),
    {
        Paint { color, ground: Ground::Back }
    }

    /// The paint that restores the terminal's default colors.
    pub fn reset() -> (p: Paint)
        ensures
            p == reset_paint(),
    {
        Paint { color: Color::Reset, ground: Ground::Back }
    }
}

pub const ESC: u8 = 0x1b;

/// Offset of a color within its SGR range.
pub open spec fn color_index(c: Color) -> u8 {
    match c {
        Color::Black => 0,
        Color::Red => 1,
        Color::Green => 2,
        Color::Yellow => 3,
        Color::Blue => 4,
        Color::Magenta => 5,
        Color::Cyan => 6,
        Color::White => 7,
        Color::Reset => 9,
    }
}

/// The SGR sequence of a paint: `ESC [ 3n m` or `ESC [ 4n m`; the default
/// colors are restored in full with `ESC [ 0 m`.
pub open spec fn sgr(p: Paint) -> Seq<u8> {
    if p.color == Color::Reset {
        seq![ESC, 91u8, 48u8, 109u8]
    } else {
        let tens: u8 = if p.ground == Ground::Fore { 51u8 } else { 52u8 };
        seq![ESC, 91u8, tens, (48u8 + color_index(p.color)) as u8, 109u8]
    }
}

/// Decimal digits of `n`, most significant first, without leading zeros.
pub open spec fn dec(n: nat) -> Seq<u8>
    decreases n,
{
    if n < 10 {
        seq![(48u8 + n) as u8]
    } else {
        dec(n / 10).push((48u8 + n % 10) as u8)
    }
}

/// The sequence that moves the cursor to column `x`, row `y` (zero-based):
/// `ESC [ y+1 ; x+1 H`.
pub open spec fn goto(x: nat, y: nat) -> Seq<u8> {
    seq![ESC, 91u8] + dec(y + 1) + seq![59u8] + dec(x + 1) + seq![72u8]
}

/// The sequence that clears the whole screen.
pub open spec fn clear() -> Seq<u8> {
    seq![ESC, 91u8, 50u8, 74u8]
}

/// `n` spaces.
pub open spec fn spaces(n: nat) -> Seq<u8> {
    Seq::new(n, |k: int| 32u8)
}

/// Appends the SGR sequence of `p`.
pub fn push_paint(out: &mut Vec<u8>, p: Paint)
    ensures
        final(out)@ == old(out)@ + sgr(p),
{
    let ghost start = out@;
    out.push(ESC);
    out.push(91u8);
    match p.color {
        Color::Reset => {
            out.push(48u8);
        },
        c => {
            let tens: u8 = match p.ground {
                Ground::Fore => 51u8,
                Ground::Back => 52u8,
            };
            let index: u8 = match c {
                Color::Black => 0,
                Color::Red => 1,
                Color::Green => 2,
                Color::Yellow => 3,
                Color::Blue => 4,
                Color::Magenta => 5,
                Color::Cyan => 6,
                Color::White => 7,
                Color::Reset => 9,
            };
            out.push(tens);
            out.push(48u8 + index);
        },
    }
    out.push(109u8);
    assert(out@ =~= start + sgr(p));
}

/// Appends the decimal digits of `n`.
pub fn push_dec(out: &mut Vec<u8>, n: u32)
    ensures
        final(out)@ == old(out)@ + dec(n as nat),
    decreases n,
{
    let ghost start = out@;
    if n >= 10 {
        push_dec(out, n / 10);
    }
    out.push(48u8 + (n % 10) as u8);
    assert(out@ =~= start + dec(n as nat));
}

/// Appends the cursor move to column `x`, row `y`.
pub fn push_goto(out: &mut Vec<u8>, x: u32, y: u32)
    requires
        x < u32::MAX,
        y < u32::MAX,
    ensures
        final(out)@ == old(out)@ + goto(x as nat, y as nat),
{
    let ghost start = out@;
    out.push(ESC);
    out.push(91u8);
    push_dec(out, y + 1);
    out.push(59u8);
    push_dec(out, x + 1);
    out.push(72u8);
    assert(out@ =~= start + goto(x as nat, y as nat));
}

/// Appends `n` spaces.
pub fn push_spaces(out: &mut Vec<u8>, n: u32)
    ensures
        final(out)@ == old(out)@ + spaces(n as nat),
{
    let ghost start = out@;
    let mut k: u32 = 0;
    while k < n
        invariant
            k <= n,
            out@ =~= start + spaces(k as nat),
        decreases n - k,
    {
        out.push(32u8);
        k = k + 1;
        assert(out@ =~= start + spaces(k as nat));
    }
}

/// Appends the sequence that clears the screen.
pub fn push_clear(out: &mut Vec<u8>)
    ensures
        final(out)@ == old(out)@ + clear(),
{
    let ghost start = out@;
    out.push(ESC);
    out.push(91u8);
    out.push(50u8);
    out.push(74u8);
    assert(out@ =~= start + clear());
}

} // verus!
