use vstd::prelude::*;

verus! {

/// A mouse button.
#[derive(Clone, Copy, PartialEq, Eq, Debug, Structural)]
pub enum MouseBtn {
    Left,
    Middle,
    Right,
}

/// A mouse event as a terminal running inside an element receives it.
#[derive(Clone, Copy, PartialEq, Eq, Debug, Structural)]
pub enum TermMouseKind {
    Down(MouseBtn),
    Up(MouseBtn),
    Drag(MouseBtn),
    Moved,
    ScrollUp,
    ScrollDown,
    ScrollLeft,
    ScrollRight,
}

/// The modifier keys held during a mouse event.
#[derive(Clone, Copy, PartialEq, Eq, Debug, Structural)]
pub struct TermMods {
    pub shift: bool,
    pub alt: bool,
    pub control: bool,
}

/// The button code of a mouse event in the SGR mouse protocol: 0, 1 and 2 for a press of the
/// left, middle and right button, those plus 32 for a drag, 3 for any release, 35 for a move,
/// 4 to 7 for scrolling up, down, left and right; plus 4 with shift, 8 with alt and 16 with
/// control held.
pub open spec fn spec_cb(kind: TermMouseKind, mods: TermMods) -> int {
    let base: int = match kind {
        TermMouseKind::Down(b) => match b {
            MouseBtn::Left => 0,
            MouseBtn::Middle => 1,
            MouseBtn::Right => 2,
        },
        TermMouseKind::Drag(b) => match b {
            MouseBtn::Left => 32,
            MouseBtn::Middle => 33,
            MouseBtn::Right => 34,
        },
        TermMouseKind::Up(_) => 3,
        TermMouseKind::Moved => 35,
        TermMouseKind::ScrollUp => 4,
        TermMouseKind::ScrollDown => 5,
        TermMouseKind::ScrollLeft => 6,
        TermMouseKind::ScrollRight => 7,
    };
    base + (if mods.shift { 4int } else { 0int }) + (if mods.alt { 8int } else { 0int }) + (if mods.control {
        16int
    } else {
        0int
    })
}

/// The decimal digits of `n`, as ASCII bytes.
pub open spec fn decimal(n: nat) -> Seq<u8>
    decreases n,
{
    if n < 10 {
        seq![(48 + n) as u8]
    } else {
        decimal(n / 10).push((48 + n % 10) as u8)
    }
}

/// The SGR mouse report of an event at column `col` and row `row` (counted from 0): `ESC [ <`,
/// the button code, `;`, the column and `;` the row (both counted from 1), then `m` for a
/// release and `M` for anything else.
pub open spec fn sgr_mouse(kind: TermMouseKind, mods: TermMods, col: u16, row: u16) -> Seq<u8> {
    seq![27u8, 91u8, 60u8] + decimal(spec_cb(kind, mods) as nat) + seq![59u8] + decimal((col + 1) as nat)
        + seq![59u8] + decimal((row + 1) as nat) + seq![if kind is Up { 109u8 } else { 77u8 }]
}

/// The button code of a mouse event (see `spec_cb`).
pub fn create_cb(kind: TermMouseKind, mods: TermMods) -> (cb: u8)
    ensures
        cb == spec_cb(kind, mods),
{
    let mut out: u8 = match kind {
        TermMouseKind::Down(b) => match b {
            MouseBtn::Left => 0,
            MouseBtn::Middle => 1,
            MouseBtn::Right => 2,
        },
        TermMouseKind::Drag(b) => match b {
            MouseBtn::Left => 32,
            MouseBtn::Middle => 33,
            MouseBtn::Right => 34,
        },
        TermMouseKind::Up(_) => 3,
        TermMouseKind::Moved => 35,
        TermMouseKind::ScrollUp => 4,
        TermMouseKind::ScrollDown => 5,
        TermMouseKind::ScrollLeft => 6,
        TermMouseKind::ScrollRight => 7,
    };
    if mods.shift {
        out = out + 4;
    }
    if mods.alt {
        out = out + 8;
    }
    if mods.control {
        out = out + 16;
    }
    out
}

/// Appends the decimal digits of `n`.
fn push_decimal(out: &mut Vec<u8>, n: u32)
    ensures
        final(out)@ == old(out)@ + decimal(n as nat),
    decreases n,
{
    if n >= 10 {
        push_decimal(out, n / 10);
    }
    let d = (n % 10) as u8;
    out.push(48 + d);
    assert(final(out)@ =~= old(out)@ + decimal(n as nat)) by {
        if n >= 10 {
            assert(decimal(n as nat) == decimal((n / 10) as nat).push((48 + n % 10) as u8));
        }
    }
}

/// The SGR mouse report of an event (see `sgr_mouse`).
pub fn create_csi_sgr_mouse(kind: TermMouseKind, mods: TermMods, col: u16, row: u16) -> (r: Vec<u8>)
    requires
        col < u16::MAX,
        row < u16::MAX,
    ensures
        r@ == sgr_mouse(kind, mods, col, row),
{
    let mut out: Vec<u8> = Vec::new();
    out.push(27);
    out.push(91);
    out.push(60);
    let cb = create_cb(kind, mods);
    push_decimal(&mut out, cb as u32);
    out.push(59);
    push_decimal(&mut out, (col + 1) as u32);
    out.push(59);
    push_decimal(&mut out, (row + 1) as u32);
    let last: u8 = match kind {
        TermMouseKind::Up(_) => 109,
        _ => 77,
    };
    out.push(last);
    assert(out@ =~= sgr_mouse(kind, mods, col, row));
    out
}

} // verus!
