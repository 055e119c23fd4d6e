//! Scrollbar negotiation: which scrollbars a container shows, their pages,
//! and where their positions settle.
use vstd::prelude::*;

verus! {

/// Largest view extent the negotiation accepts (far above any layout's).
pub open spec fn view_limit() -> int {
    0x1_0000_0000_0000_0000_0000_0000_0000
}

/// Whether the vertical scrollbar is shown: the view is taller than the
/// content area left by a horizontal scrollbar needed at full width.
pub open spec fn need_v(vw: int, vh: int, cw: int, ch: int, bar_h: int, bar_v: int) -> bool {
    vh > ch - if vw > cw { bar_h } else { 0 }
}

/// Whether the horizontal scrollbar is shown: the view is wider than the
/// content area left by the vertical scrollbar, if that one is shown.
pub open spec fn need_h(vw: int, vh: int, cw: int, ch: int, bar_h: int, bar_v: int) -> bool {
    vw > cw - if need_v(vw, vh, cw, ch, bar_h, bar_v) { bar_v } else { 0 }
}

/// Page of the horizontal scrollbar: the width left by the vertical one.
pub open spec fn page_w(vw: int, vh: int, cw: int, ch: int, bar_h: int, bar_v: int) -> int {
    cw - if need_v(vw, vh, cw, ch, bar_h, bar_v) { bar_v } else { 0 }
}

/// Page of the vertical scrollbar: the height left by the horizontal one.
pub open spec fn page_h(vw: int, vh: int, cw: int, ch: int, bar_h: int, bar_v: int) -> int {
    ch - if need_h(vw, vh, cw, ch, bar_h, bar_v) { bar_h } else { 0 }
}

/// Page of the vertical scrollbar after the first round, which has seen the
/// horizontal scrollbar only if the view is wider than the whole container.
pub open spec fn first_page_h(vw: int, cw: int, ch: int, bar_h: int) -> int {
    ch - if vw > cw { bar_h } else { 0 }
}

/// A position held in `[0, max - page + 1]`, or 0 when `max <= page`.
pub open spec fn clamp_pos(p: int, max: int, page: int) -> int {
    if max <= page {
        0
    } else if p < 0 {
        0
    } else if p > max - page + 1 {
        max - page + 1
    } else {
        p
    }
}

/// Where a position settles after negotiation: reset to 0 when the range
/// fitted the first page, then held by `clamp_pos`.
pub open spec fn settle_pos(pos: int, max: int, first_page: int, page: int) -> int {
    clamp_pos(if max <= first_page { 0 } else { pos }, max, page)
}

/// Outcome of the negotiation for both axes: `(shown_h, shown_v, page_w, page_h)`.
pub open spec fn negotiated(vw: int, vh: int, cw: int, ch: int, bar_h: int, bar_v: int) -> (bool, bool, int, int) {
    (
        need_h(vw, vh, cw, ch, bar_h, bar_v),
        need_v(vw, vh, cw, ch, bar_h, bar_v),
        page_w(vw, vh, cw, ch, bar_h, bar_v),
        page_h(vw, vh, cw, ch, bar_h, bar_v),
    )
}

/// A scrollbar command from the host.
#[derive(Clone, Copy, PartialEq, Eq, Structural, Debug)]
pub enum ScrollCommand {
    Top,
    Bottom,
    LineUp,
    LineDown,
    PageUp,
    PageDown,
    /// The thumb was dragged to this position.
    Thumb(i32),
}

/// The position a command asks for, before the scrollbar holds it in range.
pub open spec fn command_pos(pos: int, max: int, page: int, cmd: ScrollCommand) -> int {
    let top = max - page + 1;
    match cmd {
        ScrollCommand::Top => 0,
        ScrollCommand::Bottom => top,
        ScrollCommand::LineUp => if 0 < pos { pos - 1 } else { pos },
        ScrollCommand::LineDown => if pos < top { pos + 1 } else { pos },
        ScrollCommand::PageUp => if pos - page < 0 { 0 } else { pos - page },
        ScrollCommand::PageDown => if top < pos + page { top } else { pos + page },
        ScrollCommand::Thumb(p) => p as int,
    }
}

/// Whole wheel notches in `delta` (120 per notch), rounded toward zero.
pub open spec fn notches(delta: int) -> int {
    if delta >= 0 { delta / 120 } else { -((-delta) / 120) }
}

/// What one wheel notch scrolls: a tenth of the page.
pub open spec fn wheel_step(page: int) -> int {
    if page > 0 { page / 10 } else { 0 }
}

/// Whether the axis can scroll at all, so that it takes the wheel.
pub open spec fn has_range(max: int, page: int) -> bool {
    max + 1 > page
}

/// The position a wheel turn asks for. The vertical axis moves up for a
/// positive delta, the horizontal axis right.
pub open spec fn wheel_pos(pos: int, page: int, delta: int, vertical: bool) -> int {
    if vertical {
        pos - notches(delta) * wheel_step(page)
    } else {
        pos + notches(delta) * wheel_step(page)
    }
}

/// The position a command asks for.
pub fn command_position(pos: i128, max: i128, page: i128, cmd: ScrollCommand) -> (r: i128)
    requires
        -view_limit() <= pos <= view_limit(),
        -view_limit() <= max <= view_limit(),
        -view_limit() <= page <= view_limit(),
    ensures
        r == command_pos(pos as int, max as int, page as int, cmd),
{
    let top = max - page + 1;
    match cmd {
        ScrollCommand::Top => 0,
        ScrollCommand::Bottom => top,
        ScrollCommand::LineUp => if 0 < pos { pos - 1 } else { pos },
        ScrollCommand::LineDown => if pos < top { pos + 1 } else { pos },
        ScrollCommand::PageUp => if pos - page < 0 { 0 } else { pos - page },
        ScrollCommand::PageDown => if top < pos + page { top } else { pos + page },
        ScrollCommand::Thumb(p) => p as i128,
    }
}

/// The position a wheel turn asks for.
pub fn wheel_position(pos: i128, page: i128, delta: i16, vertical: bool) -> (r: i128)
    requires
        -view_limit() <= pos <= view_limit(),
        -view_limit() <= page <= view_limit(),
    ensures
        r == wheel_pos(pos as int, page as int, delta as int, vertical),
{
    let d = delta as i32;
    let n: i128 = if d >= 0 { (d / 120) as i128 } else { -(((-d) / 120) as i128) };
    let step: i128 = if page > 0 { page / 10 } else { 0 };
    proof {
        assert(-274 <= n <= 274);
        assert(0 <= step <= view_limit());
        assert(-274 * view_limit() <= n * step <= 274 * view_limit()) by (nonlinear_arith)
            requires
                -274 <= n <= 274,
                0 <= step <= view_limit(),
        ;
    }
    if vertical {
        pos - n * step
    } else {
        pos + n * step
    }
}

/// Decides the scrollbars in two rounds. A round checks the horizontal axis,
/// then the vertical one; a scrollbar that appears takes its thickness from
/// the other axis once. Two rounds suffice: the second can only add the
/// horizontal scrollbar, and that cannot add the vertical one.
/// Returns `(shown_h, shown_v, page_w, page_h)`.
pub fn negotiate(vw: i128, vh: i128, cw: i32, ch: i32, bar_h: u32, bar_v: u32) -> (r: (bool, bool, i128, i128))
    requires
        -view_limit() <= vw <= view_limit(),
        -view_limit() <= vh <= view_limit(),
    ensures
        ({
            let n = negotiated(vw as int, vh as int, cw as int, ch as int, bar_h as int, bar_v as int);
            r.0 == n.0 && r.1 == n.1 && r.2 == n.2 && r.3 == n.3
        }),
{
    let mut add_h = false;
    let mut add_v = false;
    let mut cont_w: i128 = cw as i128;
    let mut cont_h: i128 = ch as i128;
    let mut pw: i128 = 0;
    let mut ph: i128 = 0;
    let mut round: u8 = 0;
    while round < 2
        invariant
            round <= 2,
            round == 0 ==> !add_h && !add_v && cont_w == cw && cont_h == ch,
            round == 1 ==> add_h == (vw > cw),
            round >= 1 ==> cont_h == ch - if add_h { bar_h as int } else { 0 },
            round == 1 ==> add_v == need_v(vw as int, vh as int, cw as int, ch as int, bar_h as int, bar_v as int),
            round >= 1 ==> cont_w == cw - if add_v { bar_v as int } else { 0 },
            round == 1 ==> pw == cw,
            round == 2 ==> add_h == need_h(vw as int, vh as int, cw as int, ch as int, bar_h as int, bar_v as int),
            round == 2 ==> add_v == need_v(vw as int, vh as int, cw as int, ch as int, bar_h as int, bar_v as int),
            round == 2 ==> pw == page_w(vw as int, vh as int, cw as int, ch as int, bar_h as int, bar_v as int),
            round == 2 ==> ph == page_h(vw as int, vh as int, cw as int, ch as int, bar_h as int, bar_v as int),
            round == 2 ==> cont_h == ph,
            -0x2_0000_0000 <= cont_w <= 0x1_0000_0000,
            -0x2_0000_0000 <= cont_h <= 0x1_0000_0000,
        decreases 2 - round,
    {
        pw = cont_w;
        if vw > cont_w {
            if !add_h {
                cont_h = cont_h - bar_h as i128;
            }
            add_h = true;
        }
        ph = cont_h;
        if vh > cont_h {
            if !add_v {
                cont_w = cont_w - bar_v as i128;
            }
            add_v = true;
        }
        round = round + 1;
    }
    (add_h, add_v, pw, ph)
}

/// Holds a position in the range of a scrollbar (what the host's scrollbar
/// does with a position it is given).
pub fn clamp_position(p: i128, max: i128, page: i128) -> (r: i128)
    requires
        -view_limit() <= max <= view_limit(),
        -view_limit() <= page <= view_limit(),
    ensures
        r == clamp_pos(p as int, max as int, page as int),
        0 <= r,
        max > page ==> r <= max - page + 1,
{
    if max <= page {
        0
    } else if p < 0 {
        0
    } else if p > max - page + 1 {
        max - page + 1
    } else {
        p
    }
}

/// Holds a position in the settled range (what the host's scrollbar does
/// with a position it is given).
pub fn settle(pos: i128, max: i128, first_page: i128, page: i128) -> (r: i128)
    requires
        -view_limit() <= max <= view_limit(),
        -view_limit() <= page <= view_limit(),
    ensures
        r == settle_pos(pos as int, max as int, first_page as int, page as int),
{
    let p = if max <= first_page { 0 } else { pos };
    clamp_position(p, max, page)
}

/// The negotiation reaches a fixed point: each scrollbar is shown exactly
/// when the view exceeds what the other one leaves of its axis, and each page
/// is what the other scrollbar leaves. When the view fits in both axes no
/// scrollbar is shown and the pages are the whole content size.
pub proof fn lemma_negotiation_fixed_point(vw: int, vh: int, cw: int, ch: int, bar_h: int, bar_v: int)
    requires
        bar_h >= 0,
        bar_v >= 0,
    ensures
        ({
            let (sh, sv, pw, ph) = negotiated(vw, vh, cw, ch, bar_h, bar_v);
            &&& sh == (vw > cw - if sv { bar_v } else { 0 })
            &&& sv == (vh > ch - if sh { bar_h } else { 0 })
            &&& pw == cw - if sv { bar_v } else { 0 }
            &&& ph == ch - if sh { bar_h } else { 0 }
        }),
        vw <= cw && vh <= ch ==> negotiated(vw, vh, cw, ch, bar_h, bar_v) == (false, false, cw, ch),
{
}

} // verus!
