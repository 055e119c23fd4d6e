//! The stack algorithm, written once along an abstract main axis.
//!
//! A vertical stack runs it with the main axis vertical, a horizontal stack
//! with the main axis horizontal; the cross axis is the other one.
use vstd::prelude::*;

verus! {

/// Where a child sits across the main axis.
#[derive(Clone, Copy, PartialEq, Eq, Structural, Debug)]
pub enum CrossAlign {
    Start,
    Center,
    End,
    Fill,
    Expand,
}

/// One child of a stack, with its sizes named along the stack's axes.
#[derive(Clone, Copy, PartialEq, Eq, Structural, Debug)]
pub struct AxisItem {
    /// Declared size along the main axis (the minimum for an auto child).
    pub main: i32,
    /// Declared size across the main axis.
    pub cross: i32,
    pub pad: i32,
    pub filler: i32,
    pub split: i32,
    /// An auto child with this flag shares the free space.
    pub b_auto: bool,
    /// A fixed child keeps `main` whatever the free space.
    pub fixed: bool,
    pub align: CrossAlign,
}

/// Where one child of a stack goes, in the container's content coordinates
/// along the stack's axes.
#[derive(Clone, Copy, PartialEq, Eq, Structural, Debug)]
pub struct AxisSlot {
    pub main_pos: i128,
    pub main_size: i128,
    pub cross_pos: i128,
    pub cross_size: i128,
}

pub open spec fn max_int(a: int, b: int) -> int {
    if a >= b { a } else { b }
}

/// The space a child takes along the main axis before any share of free space.
pub open spec fn item_min(it: AxisItem) -> int {
    it.main + 2 * it.pad + it.split + if !it.fixed && !it.b_auto { it.filler as int } else { 0 }
}

/// Whether a child receives a share of the free space.
pub open spec fn is_expanding(it: AxisItem) -> bool {
    !it.fixed && it.b_auto
}

/// Sum of `item_min` over the first `i` children.
pub open spec fn min_prefix(s: Seq<AxisItem>, i: int) -> int
    decreases i,
{
    if i <= 0 { 0 } else { min_prefix(s, i - 1) + item_min(s[i - 1]) }
}

/// Number of expanding children among the first `i`.
pub open spec fn count_prefix(s: Seq<AxisItem>, i: int) -> int
    decreases i,
{
    if i <= 0 { 0 } else { count_prefix(s, i - 1) + if is_expanding(s[i - 1]) { 1int } else { 0 } }
}

/// Largest `cross + 2 * pad` among the first `i` children, and at least 0.
pub open spec fn cross_prefix(s: Seq<AxisItem>, i: int) -> int
    decreases i,
{
    if i <= 0 { 0 } else { max_int(cross_prefix(s, i - 1), s[i - 1].cross + 2 * s[i - 1].pad) }
}

/// Whether one of the first `i` children asks to widen the cross axis.
pub open spec fn expand_prefix(s: Seq<AxisItem>, i: int) -> bool
    decreases i,
{
    if i <= 0 { false } else { expand_prefix(s, i - 1) || s[i - 1].align == CrossAlign::Expand }
}

/// Minimum extent of the whole stack along the main axis.
pub open spec fn min_main(s: Seq<AxisItem>) -> int {
    min_prefix(s, s.len() as int)
}

pub open spec fn num_expanding(s: Seq<AxisItem>) -> int {
    count_prefix(s, s.len() as int)
}

/// Minimum extent across the main axis.
pub open spec fn min_cross(s: Seq<AxisItem>) -> int {
    cross_prefix(s, s.len() as int)
}

/// Extent across the main axis once the children are arranged.
pub open spec fn view_cross(s: Seq<AxisItem>, cont_cross: int) -> int {
    if expand_prefix(s, s.len() as int) && cont_cross > min_cross(s) { cont_cross } else { min_cross(s) }
}

/// Space left along the main axis, never negative.
pub open spec fn free_space(s: Seq<AxisItem>, cont_main: int) -> int {
    if cont_main - min_main(s) > 0 { cont_main - min_main(s) } else { 0 }
}

/// What each expanding child receives (integer division).
pub open spec fn share(s: Seq<AxisItem>, cont_main: int) -> int {
    if num_expanding(s) > 0 { free_space(s, cont_main) / num_expanding(s) } else { 0 }
}

/// Size of child `i` along the main axis. The last expanding child takes
/// what the integer division left over.
pub open spec fn item_extent(s: Seq<AxisItem>, i: int, cont_main: int) -> int {
    let it = s[i];
    if it.fixed {
        it.main as int
    } else if !it.b_auto {
        it.main + it.filler
    } else if count_prefix(s, i) + 1 == num_expanding(s) {
        it.main + free_space(s, cont_main) - share(s, cont_main) * (num_expanding(s) - 1)
    } else {
        it.main + share(s, cont_main)
    }
}

/// The running cursor before child `i`.
pub open spec fn cursor(s: Seq<AxisItem>, i: int, cont_main: int) -> int
    decreases i,
{
    if i <= 0 {
        0
    } else {
        cursor(s, i - 1, cont_main) + item_extent(s, i - 1, cont_main) + 2 * s[i - 1].pad + s[i
            - 1].split
    }
}

/// Largest cursor reached after the first `i` children, and at least 0.
pub open spec fn reach_prefix(s: Seq<AxisItem>, i: int, cont_main: int) -> int
    decreases i,
{
    if i <= 0 { 0 } else { max_int(reach_prefix(s, i - 1, cont_main), cursor(s, i, cont_main)) }
}

/// Extent along the main axis once the children are arranged.
pub open spec fn view_main(s: Seq<AxisItem>, cont_main: int) -> int {
    reach_prefix(s, s.len() as int, cont_main)
}

/// Half of `x`, rounded toward zero as machine division does.
pub open spec fn half(x: int) -> int {
    if x >= 0 { x / 2 } else { -((-x) / 2) }
}

/// Position across the main axis of a child, for a cross extent `vc`.
pub open spec fn cross_pos(it: AxisItem, vc: int) -> int {
    match it.align {
        CrossAlign::Start => it.pad as int,
        CrossAlign::End => vc - it.pad - it.cross,
        CrossAlign::Center => if half(vc) - half(it.cross as int) > 0 {
            half(vc) - half(it.cross as int)
        } else {
            it.pad as int
        },
        CrossAlign::Fill | CrossAlign::Expand => it.pad as int,
    }
}

/// Size across the main axis of a child, for a cross extent `vc`.
pub open spec fn cross_size(it: AxisItem, vc: int) -> int {
    match it.align {
        CrossAlign::Fill | CrossAlign::Expand => vc - 2 * it.pad,
        _ => it.cross as int,
    }
}

/// The slot of child `i` in the arranged stack.
pub open spec fn slot_of(s: Seq<AxisItem>, i: int, cont_main: int, cont_cross: int) -> AxisSlot {
    AxisSlot {
        main_pos: (cursor(s, i, cont_main) + s[i].pad) as i128,
        main_size: item_extent(s, i, cont_main) as i128,
        cross_pos: cross_pos(s[i], view_cross(s, cont_cross)) as i128,
        cross_size: cross_size(s[i], view_cross(s, cont_cross)) as i128,
    }
}


/// A bound on `|item_min|`, and on every other five-term sum of `i32` fields.
pub open spec fn item_bound() -> int {
    0x5_0000_0000
}

/// A bound on the length of any `Vec`.
pub open spec fn len_bound() -> int {
    0x1_0000_0000_0000_0000
}

/// A bound on every coordinate a stack produces.
pub open spec fn slot_limit() -> int {
    0x100_0000_0000_0000_0000_0000_0000
}

/// Whether every field of a slot lies within `slot_limit`.
pub open spec fn slot_bounded(sl: AxisSlot) -> bool {
    &&& -slot_limit() <= sl.main_pos <= slot_limit()
    &&& -slot_limit() <= sl.main_size <= slot_limit()
    &&& -slot_limit() <= sl.cross_pos <= slot_limit()
    &&& -slot_limit() <= sl.cross_size <= slot_limit()
}

/// What the expanding children among the first `i` received beyond their minimum.
pub open spec fn granted(s: Seq<AxisItem>, i: int, cont_main: int) -> int {
    if num_expanding(s) > 0 && count_prefix(s, i) == num_expanding(s) {
        free_space(s, cont_main)
    } else {
        share(s, cont_main) * count_prefix(s, i)
    }
}

pub proof fn lemma_prefix_bounds(s: Seq<AxisItem>, i: int)
    requires
        0 <= i <= s.len(),
    ensures
        -i * item_bound() <= min_prefix(s, i) <= i * item_bound(),
        0 <= count_prefix(s, i) <= i,
        count_prefix(s, i) <= num_expanding(s),
        0 <= cross_prefix(s, i) <= 0x3_0000_0000,
    decreases s.len() - i,
{
    lemma_prefix_bounds_up(s, i);
    if i < s.len() {
        lemma_prefix_bounds(s, i + 1);
    }
}

proof fn lemma_prefix_bounds_up(s: Seq<AxisItem>, i: int)
    requires
        0 <= i <= s.len(),
    ensures
        -i * item_bound() <= min_prefix(s, i) <= i * item_bound(),
        0 <= count_prefix(s, i) <= i,
        0 <= cross_prefix(s, i) <= 0x3_0000_0000,
    decreases i,
{
    if i > 0 {
        lemma_prefix_bounds_up(s, i - 1);
    }
}

/// The free space splits into `num_expanding` shares with a remainder below one share.
pub proof fn lemma_share_fits(s: Seq<AxisItem>, cont_main: int)
    ensures
        0 <= share(s, cont_main),
        share(s, cont_main) * num_expanding(s) <= free_space(s, cont_main),
        num_expanding(s) > 0 ==> share(s, cont_main) <= free_space(s, cont_main),
{
    let f = free_space(s, cont_main);
    let n = num_expanding(s);
    if n > 0 {
        assert(0 <= f / n) by (nonlinear_arith)
            requires
                f >= 0,
                n > 0,
        ;
        assert((f / n) * n <= f) by (nonlinear_arith)
            requires
                f >= 0,
                n > 0,
        ;
        assert(f / n <= f) by (nonlinear_arith)
            requires
                f >= 0,
                n > 0,
        ;
    }
}

/// The cursor is the minimum so far plus what the expanding children received.
pub proof fn lemma_cursor_split(s: Seq<AxisItem>, i: int, cont_main: int)
    requires
        0 <= i <= s.len(),
    ensures
        cursor(s, i, cont_main) == min_prefix(s, i) + granted(s, i, cont_main),
        0 <= granted(s, i, cont_main) <= free_space(s, cont_main),
    decreases i,
{
    let n = num_expanding(s);
    let sh = share(s, cont_main);
    lemma_share_fits(s, cont_main);
    lemma_prefix_bounds(s, i);
    if i > 0 {
        lemma_cursor_split(s, i - 1, cont_main);
        lemma_prefix_bounds(s, i - 1);
        let c = count_prefix(s, i - 1);
        if is_expanding(s[i - 1]) {
            if c + 1 == n {
                assert(granted(s, i - 1, cont_main) == sh * (n - 1));
            } else {
                assert(sh * (c + 1) == sh * c + sh) by (nonlinear_arith);
            }
        }
    }
    let c = count_prefix(s, i);
    if !(n > 0 && c == n) {
        assert(sh * c <= sh * n) by (nonlinear_arith)
            requires
                0 <= c <= n,
                sh >= 0,
        ;
        assert(0 <= sh * c) by (nonlinear_arith)
            requires
                0 <= c,
                sh >= 0,
        ;
    }
}


/// When a stack has expanding children, the last one absorbs the remainder
/// of the integer division: the cursor after the last child lands exactly on
/// the minimum extent plus the free space, which is the content extent
/// whenever the content is at least the minimum.
pub proof fn lemma_remainder_absorbed(s: Seq<AxisItem>, cont_main: int)
    requires
        num_expanding(s) > 0,
    ensures
        cursor(s, s.len() as int, cont_main) == min_main(s) + free_space(s, cont_main),
        cont_main >= min_main(s) ==> cursor(s, s.len() as int, cont_main) == cont_main,
{
    lemma_cursor_split(s, s.len() as int, cont_main);
}

/// A centred child never lands left of (or above) the start unless that is
/// its own padding: when centring would not give a positive offset, the
/// child sits at its padding.
pub proof fn lemma_center_clamped(it: AxisItem, vc: int)
    requires
        it.align == CrossAlign::Center,
    ensures
        cross_pos(it, vc) > 0 || cross_pos(it, vc) == it.pad,
        it.pad >= 0 ==> cross_pos(it, vc) >= 0,
{
}

/// First pass: the stack's minimum extents, as `(cross, main)`.
pub fn measure_stack(items: &Vec<AxisItem>) -> (r: (i128, i128))
    ensures
        r.0 == min_cross(items@),
        r.1 == min_main(items@),
{
    let mut size_min: i128 = 0;
    let mut view_cross: i128 = 0;
    let mut i: usize = 0;
    while i < items.len()
        invariant
            i <= items.len(),
            size_min == min_prefix(items@, i as int),
            view_cross == cross_prefix(items@, i as int),
        decreases items.len() - i,
    {
        proof {
            lemma_prefix_bounds(items@, i as int);
            assert(i * item_bound() <= len_bound() * item_bound()) by (nonlinear_arith)
                requires
                    i <= len_bound(),
            ;
        }
        let it = items[i];
        size_min = size_min + it.main as i128 + 2 * it.pad as i128 + it.split as i128;
        if !it.fixed && !it.b_auto {
            size_min = size_min + it.filler as i128;
        }
        let c = it.cross as i128 + 2 * it.pad as i128;
        if c > view_cross {
            view_cross = c;
        }
        i = i + 1;
    }
    (view_cross, size_min)
}

/// Number of expanding children and whether one asks to widen the cross axis.
fn count_expanding(items: &Vec<AxisItem>) -> (r: (i128, bool))
    ensures
        r.0 == num_expanding(items@),
        r.1 == expand_prefix(items@, items@.len() as int),
{
    let mut n: i128 = 0;
    let mut expand = false;
    let mut i: usize = 0;
    while i < items.len()
        invariant
            i <= items.len(),
            n == count_prefix(items@, i as int),
            expand == expand_prefix(items@, i as int),
        decreases items.len() - i,
    {
        proof {
            lemma_prefix_bounds(items@, i as int);
        }
        let it = items[i];
        if !it.fixed && it.b_auto {
            n = n + 1;
        }
        if it.align == CrossAlign::Expand {
            expand = true;
        }
        i = i + 1;
    }
    (n, expand)
}

fn half_exec(x: i128) -> (r: i128)
    requires
        -0x1_0000_0000_0000_0000_0000_0000_0000 <= x <= 0x1_0000_0000_0000_0000_0000_0000_0000,
    ensures
        r == half(x as int),
{
    if x >= 0 { x / 2 } else { -((-x) / 2) }
}

/// Second pass: the slot of every child, with the extents `(main, cross)`
/// of the arranged stack.
pub fn arrange_stack(items: &Vec<AxisItem>, cont_main: i32, cont_cross: i32) -> (r: (
    Vec<AxisSlot>,
    i128,
    i128,
))
    ensures
        r.0@.len() == items@.len(),
        forall|i: int|
            0 <= i < items@.len() ==> #[trigger] r.0@[i] == slot_of(
                items@,
                i,
                cont_main as int,
                cont_cross as int,
            ),
        r.1 == view_main(items@, cont_main as int),
        r.2 == view_cross(items@, cont_cross as int),
        0 <= r.1 <= slot_limit(),
        0 <= r.2 <= 0x3_0000_0000,
        forall|i: int| 0 <= i < items@.len() ==> slot_bounded(#[trigger] r.0@[i]),
{
    let ghost s = items@;
    let ghost cm = cont_main as int;
    let (min_cross_v, size_min) = measure_stack(items);
    let (n, expand) = count_expanding(items);
    proof {
        assert(s.len() == items.len());
        lemma_prefix_bounds(s, s.len() as int);
        assert(s.len() * item_bound() <= len_bound() * item_bound()) by (nonlinear_arith)
            requires
                s.len() <= len_bound(),
        ;
        lemma_share_fits(s, cm);
    }
    let mut vc: i128 = min_cross_v;
    if expand && cont_cross as i128 > vc {
        vc = cont_cross as i128;
    }
    let mut free: i128 = cont_main as i128 - size_min;
    let mut per: i128 = 0;
    if free > 0 {
        if n != 0 {
            per = free / n;
        }
    } else {
        free = 0;
    }
    let mut rest: i128 = free;
    let mut now: i128 = 0;
    let mut view_m: i128 = 0;
    let mut seen: i128 = 0;
    let mut slots: Vec<AxisSlot> = Vec::new();
    let mut i: usize = 0;
    while i < items.len()
        invariant
            s == items@,
            cm == cont_main as int,
            i <= items.len(),
            vc == view_cross(s, cont_cross as int),
            0 <= vc <= 0x3_0000_0000,
            free == free_space(s, cm),
            per == share(s, cm),
            n == num_expanding(s),
            0 <= free <= 0x1_0000_0000 + len_bound() * item_bound(),
            seen == count_prefix(s, i as int),
            rest == free - if seen == n && n > 0 { per * (n - 1) } else { per * seen },
            now == cursor(s, i as int, cm),
            view_m == reach_prefix(s, i as int, cm),
            0 <= view_m <= slot_limit(),
            forall|j: int| 0 <= j < i ==> slot_bounded(#[trigger] slots@[j]),
            slots@.len() == i,
            forall|j: int|
                0 <= j < i ==> #[trigger] slots@[j] == slot_of(s, j, cm, cont_cross as int),
        decreases items.len() - i,
    {
        proof {
            lemma_prefix_bounds(s, i as int);
            lemma_prefix_bounds(s, i as int + 1);
            lemma_cursor_split(s, i as int, cm);
            lemma_cursor_split(s, i as int + 1, cm);
            lemma_share_fits(s, cm);
            assert(i * item_bound() <= len_bound() * item_bound()) by (nonlinear_arith)
                requires
                    i <= len_bound(),
            ;
            assert((i + 1) * item_bound() <= len_bound() * item_bound()) by (nonlinear_arith)
                requires
                    i + 1 <= len_bound(),
            ;
            if seen < n {
                assert(per * seen <= per * n) by (nonlinear_arith)
                    requires
                        0 <= seen <= n,
                        per >= 0,
                ;
                assert(per * seen >= 0) by (nonlinear_arith)
                    requires
                        0 <= seen,
                        per >= 0,
                ;
            }
        }
        let it = items[i];
        let hv = half_exec(vc);
        let hc = half_exec(it.cross as i128);
        let (cpos, csize): (i128, i128) = match it.align {
            CrossAlign::Start => (it.pad as i128, it.cross as i128),
            CrossAlign::End => (vc - it.pad as i128 - it.cross as i128, it.cross as i128),
            CrossAlign::Center => (
                if hv - hc > 0 { hv - hc } else { it.pad as i128 },
                it.cross as i128,
            ),
            CrossAlign::Fill | CrossAlign::Expand => (it.pad as i128, vc - 2 * it.pad as i128),
        };
        let extent: i128 = if it.fixed {
            it.main as i128
        } else if !it.b_auto {
            it.main as i128 + it.filler as i128
        } else {
            seen = seen + 1;
            if seen == n {
                proof {
                    assert(per * (n - 1) == per * (seen - 1));
                }
                it.main as i128 + rest
            } else {
                proof {
                    assert(per * (seen - 1) + per == per * seen) by (nonlinear_arith);
                }
                rest = rest - per;
                it.main as i128 + per
            }
        };
        proof {
            assert(-len_bound() * item_bound() <= min_prefix(s, i as int) <= len_bound() * item_bound());
            assert(-len_bound() * item_bound() <= min_prefix(s, i as int + 1) <= len_bound() * item_bound());
            assert(-0x80_0000_0000_0000_0000_0000_0000 <= cursor(s, i as int, cm) <= 0x80_0000_0000_0000_0000_0000_0000);
            assert(-0x80_0000_0000_0000_0000_0000_0000 <= cursor(s, i as int + 1, cm) <= 0x80_0000_0000_0000_0000_0000_0000);
            assert(cursor(s, i as int + 1, cm) == now + extent + 2 * it.pad + it.split);
        }
        let main_pos = now + it.pad as i128;
        slots.push(AxisSlot { main_pos, main_size: extent, cross_pos: cpos, cross_size: csize });
        now = now + extent + 2 * it.pad as i128 + it.split as i128;
        if view_m < now {
            view_m = now;
        }
        proof {
            assert(slots@[i as int] == slot_of(s, i as int, cm, cont_cross as int));
        }
        i = i + 1;
    }
    (slots, view_m, vc)
}

} // verus!
