//! Resolution of a placed child's rectangle.
use vstd::prelude::*;

use crate::container::{Area, ChildRect, PlaceParam, PlaceSet};

verus! {

/// `n / 10000`, rounded to the nearest integer, halves away from zero.
pub open spec fn round_rel(n: int) -> int {
    if n >= 0 { (n + 5000) / 10000 } else { -((-n + 5000) / 10000) }
}

/// `v` ten-thousandths of `total`, rounded.
pub open spec fn rel_value(total: int, v: int) -> int {
    round_rel(total * v)
}

/// The rectangle `(x, y, w, h)` of a placed child, given the current
/// rectangles of its position and size references and the content size.
pub open spec fn resolve_place(p: PlaceParam, pos_ref: ChildRect, span_ref: ChildRect, cw: int, ch: int) -> (int, int, int, int) {
    let (x, y) = match p.pos_kind {
        PlaceSet::PIXEL => (p.x as int, p.y as int),
        PlaceSet::REL => (rel_value(cw, p.x as int), rel_value(ch, p.y as int)),
        PlaceSet::OFFSET => (pos_ref.x + p.x, pos_ref.y + p.y),
    };
    let (w, h) = match p.span_kind {
        PlaceSet::PIXEL => (p.w as int, p.h as int),
        PlaceSet::REL => (rel_value(cw, p.w as int), rel_value(ch, p.h as int)),
        PlaceSet::OFFSET => (span_ref.w + p.w, span_ref.h + p.h),
    };
    (x, y, w, h)
}

fn rel_exec(total: i32, v: i32) -> (r: i128)
    ensures
        r == rel_value(total as int, v as int),
        -0x10_0000_0000_0000 <= r <= 0x10_0000_0000_0000,
{
    let t = total as i128;
    let u = v as i128;
    proof {
        assert(-0x4000_0000_0000_0000 <= t * u <= 0x4000_0000_0000_0000) by (nonlinear_arith)
            requires
                -0x8000_0000 <= t <= 0x8000_0000,
                -0x8000_0000 <= u <= 0x8000_0000,
        ;
    }
    let n = t * u;
    proof {
        if n >= 0 {
            assert(0 <= (n + 5000) / 10000 <= 0x10_0000_0000_0000) by (nonlinear_arith)
                requires
                    0 <= n <= 0x4000_0000_0000_0000,
            ;
        } else {
            assert(0 <= (-n + 5000) / 10000 <= 0x10_0000_0000_0000) by (nonlinear_arith)
                requires
                    0 < -n <= 0x4000_0000_0000_0000,
            ;
        }
    }
    if n >= 0 {
        (n + 5000) / 10000
    } else {
        -((-n + 5000) / 10000)
    }
}

/// The rectangle of a placed child, as `resolve_place` states it.
pub fn resolve(p: &PlaceParam, pos_ref: ChildRect, span_ref: ChildRect, cw: i32, ch: i32) -> (r: Area)
    ensures
        (r.x as int, r.y as int, r.w as int, r.h as int) == resolve_place(*p, pos_ref, span_ref, cw as int, ch as int),
        -0x10_0000_0000_0000 <= r.x <= 0x10_0000_0000_0000,
        -0x10_0000_0000_0000 <= r.y <= 0x10_0000_0000_0000,
        -0x10_0000_0000_0000 <= r.w <= 0x10_0000_0000_0000,
        -0x10_0000_0000_0000 <= r.h <= 0x10_0000_0000_0000,
{
    let (x, y): (i128, i128) = match p.pos_kind {
        PlaceSet::PIXEL => (p.x as i128, p.y as i128),
        PlaceSet::REL => (rel_exec(cw, p.x), rel_exec(ch, p.y)),
        PlaceSet::OFFSET => (pos_ref.x as i128 + p.x as i128, pos_ref.y as i128 + p.y as i128),
    };
    let (w, h): (i128, i128) = match p.span_kind {
        PlaceSet::PIXEL => (p.w as i128, p.h as i128),
        PlaceSet::REL => (rel_exec(cw, p.w), rel_exec(ch, p.h)),
        PlaceSet::OFFSET => (span_ref.w as i128 + p.w as i128, span_ref.h as i128 + p.h as i128),
    };
    Area { x, y, w, h }
}

} // verus!
