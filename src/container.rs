//! The layout container: its children and their records, the passes that
//! arrange them, scrollbar negotiation, and minimum sizes that flow up from
//! nested containers.
use fxhash::FxHashMap;
use vstd::prelude::*;

use crate::fxmap::{map_get, map_insert, map_remove};
use crate::place::{resolve, resolve_place};
use crate::scroll::{
    clamp_pos, clamp_position, command_pos, command_position, first_page_h, has_range, negotiate, negotiated,
    settle, settle_pos, view_limit, wheel_pos, wheel_position, ScrollCommand,
};
use crate::stack::{
    arrange_stack, measure_stack, min_cross, min_main, slot_bounded, slot_limit, slot_of, view_cross,
    view_main, AxisItem, AxisSlot, CrossAlign,
};

verus! {

/// The layout mode of a container, fixed by its first registered child.
#[derive(Clone, Copy, PartialEq, Eq, Structural, Debug)]
pub enum Layout {
    /// No child registered yet.
    Unset,
    Place,
    VStack,
    HStack,
}

/// Vertical alignment of a child in a horizontal stack.
#[derive(Clone, Copy, PartialEq, Eq, Structural, Debug)]
pub enum AlignV {
    TOP,
    CENTER,
    BOTTOM,
    FILL,
    EXPAND,
}

/// Horizontal alignment of a child in a vertical stack.
#[derive(Clone, Copy, PartialEq, Eq, Structural, Debug)]
pub enum AlignH {
    LEFT,
    CENTER,
    RIGHT,
    FILL,
    EXPAND,
}

/// Height mode of a child in a vertical stack.
#[derive(Clone, Copy, PartialEq, Eq, Structural, Debug)]
pub enum HeightAuto {
    AUTO,
    FIX,
}

/// Width mode of a child in a horizontal stack.
#[derive(Clone, Copy, PartialEq, Eq, Structural, Debug)]
pub enum WidthAuto {
    AUTO,
    FIX,
}

/// How a placed child's position or size is given: in pixels, relative to the
/// container's content size (in ten-thousandths), or as a pixel delta from
/// another child's current rectangle.
#[derive(Clone, Copy, PartialEq, Eq, Structural, Debug)]
pub enum PlaceSet {
    PIXEL,
    REL,
    OFFSET,
}

/// Denominator of a `PlaceSet::REL` value: 10000 stands for the whole size.
pub const REL_SCALE: i64 = 10000;

/// Record of a child in a vertical stack.
#[derive(Clone, Copy, PartialEq, Eq, Structural, Debug)]
pub struct VStackParam {
    pub w: i32,
    pub h: i32,
    pub pad: i32,
    pub filler: i32,
    pub split: i32,
    pub b_auto: bool,
    pub align: AlignH,
    pub size: HeightAuto,
}

/// Record of a child in a horizontal stack.
#[derive(Clone, Copy, PartialEq, Eq, Structural, Debug)]
pub struct HStackParam {
    pub w: i32,
    pub h: i32,
    pub pad: i32,
    pub filler: i32,
    pub split: i32,
    pub b_auto: bool,
    pub size: WidthAuto,
    pub align: AlignV,
}

/// Record of a placed child.
#[derive(Clone, Copy, PartialEq, Eq, Structural, Debug)]
pub struct PlaceParam {
    pub x: i32,
    pub y: i32,
    pub w: i32,
    pub h: i32,
    pub pos_offset_hwnd: isize,
    pub span_offset_hwnd: isize,
    pub pos_kind: PlaceSet,
    pub span_kind: PlaceSet,
}

/// How one child takes part in its container's layout.
#[derive(Clone, Copy, PartialEq, Eq, Structural, Debug)]
pub enum ChildHolder {
    Place(PlaceParam),
    VStack(VStackParam),
    HStack(HStackParam),
}

/// The rectangle a child was last given, in the container's content
/// coordinates (scrolling does not move it).
#[derive(Clone, Copy, PartialEq, Eq, Structural, Debug)]
pub struct ChildRect {
    pub x: i32,
    pub y: i32,
    pub w: i32,
    pub h: i32,
}

/// A move the host performs: put child `id` at `(x, y)` of the container's
/// visible area with size `(w, h)`.
#[derive(Clone, Copy, PartialEq, Eq, Structural, Debug)]
pub struct Placement {
    pub id: isize,
    pub x: i32,
    pub y: i32,
    pub w: i32,
    pub h: i32,
}

/// A rectangle computed by a layout pass, in content coordinates.
#[derive(Clone, Copy, PartialEq, Eq, Structural, Debug)]
pub struct Area {
    pub x: i128,
    pub y: i128,
    pub w: i128,
    pub h: i128,
}

/// One scrollbar's range `[0, max]`, its page and its position.
#[derive(Clone, Copy, PartialEq, Eq, Structural, Debug)]
pub struct ScrollAxis {
    pub max: i128,
    pub page: i128,
    pub pos: i128,
}

/// Why a registration was refused.
#[derive(Clone, Copy, PartialEq, Eq, Structural, Debug)]
pub enum LayoutError {
    /// The container already runs another layout mode.
    InvalidMode,
}

/// A container of child surfaces and the layout that arranges them.
pub struct WindowContainer {
    handle: isize,
    cont_w: i32,
    cont_h: i32,
    m_child: FxHashMap<isize, ChildHolder>,
    l_child: Vec<isize>,
    l_child_container: Vec<WindowContainer>,
    rects: FxHashMap<isize, ChildRect>,
    b_recalc_layout_stop: bool,
    scr_v: ScrollAxis,
    scr_h: ScrollAxis,
    layout: Layout,
    bar_h: u32,
    bar_v: u32,
}

/// The state of a container, nested containers aside.
pub struct ContainerView {
    /// The host's identifier of the container itself.
    pub handle: isize,
    pub cont_w: int,
    pub cont_h: int,
    pub records: Map<isize, ChildHolder>,
    /// Children in layout order.
    pub order: Seq<isize>,
    /// The identifiers of the nested containers, in the order they came.
    pub nested_ids: Seq<isize>,
    pub rects: Map<isize, ChildRect>,
    pub frozen: bool,
    pub scroll_h: ScrollAxis,
    pub scroll_v: ScrollAxis,
    pub layout: Layout,
    /// Height of a horizontal scrollbar.
    pub bar_h: int,
    /// Width of a vertical scrollbar.
    pub bar_v: int,
}

impl View for WindowContainer {
    type V = ContainerView;

    closed spec fn view(&self) -> ContainerView {
        ContainerView {
            handle: self.handle,
            cont_w: self.cont_w as int,
            cont_h: self.cont_h as int,
            records: self.m_child@,
            order: self.l_child@,
            nested_ids: self.l_child_container@.map_values(|c: WindowContainer| c.handle),
            rects: self.rects@,
            frozen: self.b_recalc_layout_stop,
            scroll_h: self.scr_h,
            scroll_v: self.scr_v,
            layout: self.layout,
            bar_h: self.bar_h as int,
            bar_v: self.bar_v as int,
        }
    }
}

/// Whether a record is of the variant that a layout mode uses.
pub open spec fn holder_matches(c: ChildHolder, l: Layout) -> bool {
    match c {
        ChildHolder::Place(_) => l == Layout::Place,
        ChildHolder::VStack(_) => l == Layout::VStack,
        ChildHolder::HStack(_) => l == Layout::HStack,
    }
}

/// A scrollbar whose numbers stay far inside the range of `i128`.
pub open spec fn scroll_ok(a: ScrollAxis) -> bool {
    &&& -1 <= a.max <= slot_limit()
    &&& -0x4_0000_0000 <= a.page <= 0x4_0000_0000
    &&& -view_limit() <= a.pos <= view_limit()
}

/// Every child in the order has exactly one record, of the container's
/// variant, and the scrollbars hold bounded numbers.
pub open spec fn wf_view(v: ContainerView) -> bool {
    &&& scroll_ok(v.scroll_h)
    &&& scroll_ok(v.scroll_v)
    &&& v.order.no_duplicates()
    &&& forall|k: isize| v.records.contains_key(k) <==> v.order.contains(k)
    &&& forall|k: isize| #[trigger] v.records.contains_key(k) ==> holder_matches(v.records[k], v.layout)
}

/// The rectangle reported for a child: the one it was last given, or an empty
/// one at the origin.
pub open spec fn rect_of(rects: Map<isize, ChildRect>, id: isize) -> ChildRect {
    if rects.contains_key(id) { rects[id] } else { ChildRect { x: 0, y: 0, w: 0, h: 0 } }
}

/// The view after registering `id` with record `c`: its record is replaced,
/// and it joins the order at the end unless it was there.
pub open spec fn registered(v: ContainerView, id: isize, c: ChildHolder, l: Layout) -> ContainerView {
    ContainerView {
        records: v.records.insert(id, c),
        order: if v.order.contains(id) { v.order } else { v.order.push(id) },
        layout: l,
        ..v
    }
}

pub open spec fn default_vstack() -> VStackParam {
    VStackParam { w: 0, h: 0, pad: 0, filler: 0, split: 0, b_auto: true, align: AlignH::LEFT, size: HeightAuto::AUTO }
}

pub open spec fn default_hstack() -> HStackParam {
    HStackParam { w: 0, h: 0, pad: 0, filler: 0, split: 0, b_auto: true, size: WidthAuto::AUTO, align: AlignV::TOP }
}

pub open spec fn default_place() -> PlaceParam {
    PlaceParam { x: 0, y: 0, w: 0, h: 0, pos_offset_hwnd: 0, span_offset_hwnd: 0, pos_kind: PlaceSet::PIXEL, span_kind: PlaceSet::PIXEL }
}

/// The vertical-stack record of `id`, or the default one.
pub open spec fn vstack_param_of(v: ContainerView, id: isize) -> VStackParam {
    if v.records.contains_key(id) && v.records[id] is VStack { v.records[id]->VStack_0 } else { default_vstack() }
}

/// The horizontal-stack record of `id`, or the default one.
pub open spec fn hstack_param_of(v: ContainerView, id: isize) -> HStackParam {
    if v.records.contains_key(id) && v.records[id] is HStack { v.records[id]->HStack_0 } else { default_hstack() }
}

/// The placement record of `id`, or the default one.
pub open spec fn place_param_of(v: ContainerView, id: isize) -> PlaceParam {
    if v.records.contains_key(id) && v.records[id] is Place { v.records[id]->Place_0 } else { default_place() }
}

/// The view after removing child `id` everywhere.
pub open spec fn removed(v: ContainerView, id: isize) -> ContainerView {
    ContainerView {
        records: v.records.remove(id),
        order: v.order.remove_value(id),
        nested_ids: v.nested_ids.remove_value(id),
        rects: v.rects.remove(id),
        ..v
    }
}

/// Removing a child keeps a container well formed, and the child is then
/// in neither the order nor the records.
pub proof fn lemma_removed_wf(v0: ContainerView, hwnd: isize)
    requires
        wf_view(v0),
    ensures
        wf_view(removed(v0, hwnd)),
        !removed(v0, hwnd).order.contains(hwnd),
{
    v0.order.index_of_first_ensures(hwnd);
    let v1 = removed(v0, hwnd);
    match v0.order.index_of_first(hwnd) {
        Some(i) => {
            assert forall|k: isize| v1.records.contains_key(k) <==> v1.order.contains(k) by {
                if v1.order.contains(k) {
                    let j = choose|j: int| 0 <= j < v1.order.len() && v1.order[j] == k;
                    if j < i {
                        assert(v0.order[j] == k);
                    } else {
                        assert(v0.order[j + 1] == k);
                    }
                    assert(v0.order.contains(k));
                }
                if v1.records.contains_key(k) {
                    assert(k != hwnd);
                    assert(v0.order.contains(k));
                    let j = choose|j: int| 0 <= j < v0.order.len() && v0.order[j] == k;
                    assert(v0.order[i] == hwnd);
                    assert(j != i);
                    assert(v1.order == v0.order.remove(i));
                    if j < i {
                        assert(v1.order[j] == k);
                    } else {
                        assert(v1.order[j - 1] == k);
                    }
                }
            }
        },
        None => {
            assert(v1.order == v0.order);
        },
    }
    if v0.order.contains(hwnd) {
        let v1 = removed(v0, hwnd);
        assert(!v1.records.contains_key(hwnd));
    }
}

/// After a child is removed, reading any of its records gives the default
/// record, never what it held before.
pub proof fn lemma_removed_reads_default(v: ContainerView, id: isize)
    ensures
        vstack_param_of(removed(v, id), id) == default_vstack(),
        hstack_param_of(removed(v, id), id) == default_hstack(),
        place_param_of(removed(v, id), id) == default_place(),
        !removed(v, id).records.contains_key(id),
        !removed(v, id).rects.contains_key(id),
{
}

proof fn lemma_push_contains(s: Seq<isize>, x: isize, k: isize)
    ensures
        s.push(x).contains(k) <==> (s.contains(k) || k == x),
{
    if s.push(x).contains(k) {
        let j = choose|j: int| 0 <= j < s.push(x).len() && s.push(x)[j] == k;
        if j < s.len() {
            assert(s[j] == k);
        }
    }
    if s.contains(k) {
        let j = choose|j: int| 0 <= j < s.len() && s[j] == k;
        assert(s.push(x)[j] == k);
    }
    if k == x {
        assert(s.push(x)[s.len() as int] == k);
    }
}

impl WindowContainer {
    pub closed spec fn nested(&self) -> Seq<WindowContainer> {
        self.l_child_container@
    }

    pub open spec fn wf(&self) -> bool {
        wf_view(self@)
    }

    /// Both scrollbars hold bounded numbers (part of `wf`).
    pub open spec fn scroll_in_bounds(&self) -> bool {
        scroll_ok(self@.scroll_h) && scroll_ok(self@.scroll_v)
    }

    /// A container with content size `(w, h)` and no children, identified by
    /// the host as `handle`.
    pub fn create(handle: isize, w: i32, h: i32) -> (r: WindowContainer)
        ensures
            r.wf(),
            r@.handle == handle,
            r@.cont_w == w,
            r@.cont_h == h,
            r@.records == Map::<isize, ChildHolder>::empty(),
            r@.order == Seq::<isize>::empty(),
            r@.nested_ids == Seq::<isize>::empty(),
            r.nested() == Seq::<WindowContainer>::empty(),
            r@.rects == Map::<isize, ChildRect>::empty(),
            !r@.frozen,
            r@.scroll_h == (ScrollAxis { max: 0, page: 0, pos: 0 }),
            r@.scroll_v == (ScrollAxis { max: 0, page: 0, pos: 0 }),
            r@.layout == Layout::Unset,
            r@.bar_h == 0,
            r@.bar_v == 0,
    {
        let r = WindowContainer {
            handle,
            cont_w: w,
            cont_h: h,
            m_child: FxHashMap::default(),
            l_child: Vec::new(),
            l_child_container: Vec::new(),
            rects: FxHashMap::default(),
            b_recalc_layout_stop: false,
            scr_v: ScrollAxis { max: 0, page: 0, pos: 0 },
            scr_h: ScrollAxis { max: 0, page: 0, pos: 0 },
            layout: Layout::Unset,
            bar_h: 0,
            bar_v: 0,
        };
        proof {
            assert(r@.nested_ids =~= Seq::<isize>::empty());
        }
        r
    }

    /// Position of the first occurrence of `id` in the order, if any.
    fn find_in_order(&self, id: isize) -> (r: Option<usize>)
        ensures
            match r {
                Some(i) => self@.order.index_of_first(id) == Some(i as int),
                None => self@.order.index_of_first(id) is None,
            },
    {
        let mut i: usize = 0;
        while i < self.l_child.len()
            invariant
                i <= self.l_child@.len(),
                forall|j: int| 0 <= j < i ==> self.l_child@[j] != id,
            decreases self.l_child.len() - i,
        {
            if self.l_child[i] == id {
                proof {
                    self@.order.index_of_first_ensures(id);
                }
                return Some(i);
            }
            i = i + 1;
        }
        proof {
            self@.order.index_of_first_ensures(id);
        }
        None
    }

    /// Position of the first nested container identified as `id`, if any.
    fn find_nested(&self, id: isize) -> (r: Option<usize>)
        ensures
            match r {
                Some(i) => self@.nested_ids.index_of_first(id) == Some(i as int),
                None => self@.nested_ids.index_of_first(id) is None,
            },
    {
        let ghost ids = self@.nested_ids;
        let mut i: usize = 0;
        while i < self.l_child_container.len()
            invariant
                ids == self@.nested_ids,
                ids.len() == self.l_child_container@.len(),
                i <= ids.len(),
                forall|j: int| 0 <= j < i ==> ids[j] != id,
            decreases self.l_child_container.len() - i,
        {
            assert(ids[i as int] == self.l_child_container@[i as int].handle);
            if self.l_child_container[i].handle == id {
                proof {
                    ids.index_of_first_ensures(id);
                }
                return Some(i);
            }
            i = i + 1;
        }
        proof {
            ids.index_of_first_ensures(id);
        }
        None
    }

    fn register(&mut self, htarget: isize, c: ChildHolder, mode: Layout) -> (r: Result<(), LayoutError>)
        requires
            holder_matches(c, mode),
        ensures
            (old(self)@.layout == Layout::Unset || old(self)@.layout == mode) ==> r is Ok
                && final(self)@ == registered(old(self)@, htarget, c, mode),
            !(old(self)@.layout == Layout::Unset || old(self)@.layout == mode) ==> r == Err::<
                (),
                LayoutError,
            >(LayoutError::InvalidMode) && final(self)@ == old(self)@,
            final(self).nested() == old(self).nested(),
            old(self).wf() ==> final(self).wf(),
    {
        if self.layout != Layout::Unset && self.layout != mode {
            return Err(LayoutError::InvalidMode);
        }
        let ghost v0 = self@;
        let known = self.find_in_order(htarget);
        proof {
            v0.order.index_of_first_ensures(htarget);
        }
        self.layout = mode;
        map_insert(&mut self.m_child, htarget, c);
        if known.is_none() {
            self.l_child.push(htarget);
        }
        proof {
            let v1 = registered(v0, htarget, c, mode);
            assert(self@.order =~= v1.order);
            assert(self@.records =~= v1.records);
            assert(self@.nested_ids =~= v1.nested_ids);
            assert(self@ == v1);
            if wf_view(v0) {
                assert forall|k: isize| #[trigger] v1.records.contains_key(k) implies holder_matches(v1.records[k], mode) by {
                    if k != htarget {
                        assert(v0.records.contains_key(k));
                    }
                }
                assert forall|k: isize| v1.records.contains_key(k) <==> v1.order.contains(k) by {
                    if !v0.order.contains(htarget) {
                        lemma_push_contains(v0.order, htarget, k);
                    }
                }
                if !v0.order.contains(htarget) {
                    assert(v1.order.no_duplicates()) by {
                        assert forall|i: int, j: int| 0 <= i < v1.order.len() && 0 <= j < v1.order.len() && i != j
                            implies v1.order[i] != v1.order[j] by {
                            if i < v0.order.len() && j < v0.order.len() {
                            } else if i < v0.order.len() {
                                assert(v0.order.contains(v0.order[i]));
                            } else {
                                assert(v0.order.contains(v0.order[j]));
                            }
                        }
                    }
                }
            }
        }
        Ok(())
    }

    /// Registers `htarget` as a child of a vertical stack. The container
    /// becomes a vertical stack if it had no mode yet; in any other mode the
    /// call changes nothing and fails.
    pub fn vstack(
        &mut self,
        htarget: isize,
        w: i32,
        h: i32,
        pad: i32,
        filler: i32,
        split: i32,
        b_auto: bool,
        align: AlignH,
        size: HeightAuto,
    ) -> (r: Result<(), LayoutError>)
        ensures
            r is Ok <==> (old(self)@.layout == Layout::Unset || old(self)@.layout == Layout::VStack),
            r is Ok ==> final(self)@ == registered(
                old(self)@,
                htarget,
                ChildHolder::VStack(VStackParam { w, h, pad, filler, split, b_auto, align, size }),
                Layout::VStack,
            ),
            r is Err ==> r == Err::<(), LayoutError>(LayoutError::InvalidMode) && final(self)@ == old(self)@,
            final(self).nested() == old(self).nested(),
            old(self).wf() ==> final(self).wf(),
    {
        let p = VStackParam { w, h, pad, filler, split, b_auto, align, size };
        self.register(htarget, ChildHolder::VStack(p), Layout::VStack)
    }

    /// Registers `htarget` as a child of a horizontal stack. The container
    /// becomes a horizontal stack if it had no mode yet; in any other mode the
    /// call changes nothing and fails.
    pub fn hstack(
        &mut self,
        htarget: isize,
        w: i32,
        h: i32,
        pad: i32,
        filler: i32,
        split: i32,
        b_auto: bool,
        size: WidthAuto,
        align: AlignV,
    ) -> (r: Result<(), LayoutError>)
        ensures
            r is Ok <==> (old(self)@.layout == Layout::Unset || old(self)@.layout == Layout::HStack),
            r is Ok ==> final(self)@ == registered(
                old(self)@,
                htarget,
                ChildHolder::HStack(HStackParam { w, h, pad, filler, split, b_auto, size, align }),
                Layout::HStack,
            ),
            r is Err ==> r == Err::<(), LayoutError>(LayoutError::InvalidMode) && final(self)@ == old(self)@,
            final(self).nested() == old(self).nested(),
            old(self).wf() ==> final(self).wf(),
    {
        let p = HStackParam { w, h, pad, filler, split, b_auto, size, align };
        self.register(htarget, ChildHolder::HStack(p), Layout::HStack)
    }

    /// Registers `htarget` as a placed child. The container becomes a place
    /// container if it had no mode yet; in any other mode the call changes
    /// nothing and fails.
    pub fn place(
        &mut self,
        htarget: isize,
        x: i32,
        y: i32,
        w: i32,
        h: i32,
        pos_offset_hwnd: isize,
        span_offset_hwnd: isize,
        pos_kind: PlaceSet,
        span_kind: PlaceSet,
    ) -> (r: Result<(), LayoutError>)
        ensures
            r is Ok <==> (old(self)@.layout == Layout::Unset || old(self)@.layout == Layout::Place),
            r is Ok ==> final(self)@ == registered(
                old(self)@,
                htarget,
                ChildHolder::Place(PlaceParam { x, y, w, h, pos_offset_hwnd, span_offset_hwnd, pos_kind, span_kind }),
                Layout::Place,
            ),
            r is Err ==> r == Err::<(), LayoutError>(LayoutError::InvalidMode) && final(self)@ == old(self)@,
            final(self).nested() == old(self).nested(),
            old(self).wf() ==> final(self).wf(),
    {
        let p = PlaceParam { x, y, w, h, pos_offset_hwnd, span_offset_hwnd, pos_kind, span_kind };
        self.register(htarget, ChildHolder::Place(p), Layout::Place)
    }

    /// The vertical-stack record of `htarget` as a tuple; the default record
    /// when it has none.
    pub fn get_vstack_param(&self, htarget: isize) -> (r: (i32, i32, i32, i32, i32, bool, AlignH, HeightAuto))
        ensures
            ({
                let p = vstack_param_of(self@, htarget);
                r == (p.w, p.h, p.pad, p.filler, p.split, p.b_auto, p.align, p.size)
            }),
    {
        match map_get(&self.m_child, htarget) {
            Some(ChildHolder::VStack(v)) => (v.w, v.h, v.pad, v.filler, v.split, v.b_auto, v.align, v.size),
            _ => (0, 0, 0, 0, 0, true, AlignH::LEFT, HeightAuto::AUTO),
        }
    }

    /// The horizontal-stack record of `htarget` as a tuple; the default record
    /// when it has none.
    pub fn get_hstack_param(&self, htarget: isize) -> (r: (i32, i32, i32, i32, i32, bool, WidthAuto, AlignV))
        ensures
            ({
                let p = hstack_param_of(self@, htarget);
                r == (p.w, p.h, p.pad, p.filler, p.split, p.b_auto, p.size, p.align)
            }),
    {
        match map_get(&self.m_child, htarget) {
            Some(ChildHolder::HStack(v)) => (v.w, v.h, v.pad, v.filler, v.split, v.b_auto, v.size, v.align),
            _ => (0, 0, 0, 0, 0, true, WidthAuto::AUTO, AlignV::TOP),
        }
    }

    /// The placement record of `htarget` as a tuple; the default record when
    /// it has none.
    pub fn get_place_param(&self, htarget: isize) -> (r: (i32, i32, i32, i32, isize, isize, PlaceSet, PlaceSet))
        ensures
            ({
                let p = place_param_of(self@, htarget);
                r == (p.x, p.y, p.w, p.h, p.pos_offset_hwnd, p.span_offset_hwnd, p.pos_kind, p.span_kind)
            }),
    {
        match map_get(&self.m_child, htarget) {
            Some(ChildHolder::Place(v)) => (v.x, v.y, v.w, v.h, v.pos_offset_hwnd, v.span_offset_hwnd, v.pos_kind, v.span_kind),
            _ => (0, 0, 0, 0, 0, 0, PlaceSet::PIXEL, PlaceSet::PIXEL),
        }
    }

    /// Removes child `hwnd` from the order, the records, the rectangles and,
    /// if it is one, the nested containers. Returns whether it had a record;
    /// an unknown child changes nothing.
    pub fn remove_child(&mut self, hwnd: isize) -> (r: bool)
        ensures
            r == old(self)@.records.contains_key(hwnd),
            final(self)@ == removed(old(self)@, hwnd),
            old(self).wf() ==> final(self).wf(),
            old(self).wf() ==> !final(self)@.order.contains(hwnd),
            !final(self)@.records.contains_key(hwnd),
            match old(self)@.nested_ids.index_of_first(hwnd) {
                Some(i) => final(self).nested() == old(self).nested().remove(i),
                None => final(self).nested() == old(self).nested(),
            },
    {
        let ghost v0 = self@;
        let ghost n0 = self.nested();
        proof {
            v0.order.index_of_first_ensures(hwnd);
            v0.nested_ids.index_of_first_ensures(hwnd);
        }
        if let Some(i) = self.find_in_order(hwnd) {
            self.l_child.remove(i);
        }
        if let Some(i) = self.find_nested(hwnd) {
            let _c = self.l_child_container.remove(i);
            proof {
                assert(self@.nested_ids =~= v0.nested_ids.remove(i as int));
            }
        } else {
            proof {
                assert(self@.nested_ids =~= v0.nested_ids);
            }
        }
        let _ = map_remove(&mut self.rects, hwnd);
        let old_rec = map_remove(&mut self.m_child, hwnd);
        proof {
            v0.order.index_of_first_ensures(hwnd);
            assert(self@.order =~= v0.order.remove_value(hwnd));
            assert(self@ == removed(v0, hwnd));
            if wf_view(v0) {
                lemma_removed_wf(v0, hwnd);
            }
        }
        old_rec.is_some()
    }
}


/// `x` held in the range of `i32`.
pub open spec fn clamp32(x: int) -> i32 {
    if x < i32::MIN {
        i32::MIN
    } else if x > i32::MAX {
        i32::MAX
    } else {
        x as i32
    }
}

fn clamp_i32(x: i128) -> (r: i32)
    ensures
        r == clamp32(x as int),
{
    if x < i32::MIN as i128 {
        i32::MIN
    } else if x > i32::MAX as i128 {
        i32::MAX
    } else {
        x as i32
    }
}

/// `clamp32(a - s)`, for any scroll offset `s`.
fn shifted_i32(a: i128, s: i128) -> (r: i32)
    requires
        -slot_limit() <= a <= slot_limit(),
    ensures
        r == clamp32(a - s),
{
    if s > 0x1000_0000_0000_0000_0000_0000_0000_0000 {
        i32::MIN
    } else if s < -0x1000_0000_0000_0000_0000_0000_0000_0000 {
        i32::MAX
    } else {
        clamp_i32(a - s)
    }
}

/// A rectangle `(x, y, w, h)` as a layout pass computes it.
pub type Box4 = (int, int, int, int);

pub open spec fn area_box(a: Area) -> Box4 {
    (a.x as int, a.y as int, a.w as int, a.h as int)
}

pub open spec fn box_bounded(b: Box4) -> bool {
    &&& -slot_limit() <= b.0 <= slot_limit()
    &&& -slot_limit() <= b.1 <= slot_limit()
    &&& -slot_limit() <= b.2 <= slot_limit()
    &&& -slot_limit() <= b.3 <= slot_limit()
}

/// The move handed to the host for child `id` at `b`, with scroll offsets
/// `(sh, sv)` taken off the position.
pub open spec fn placement_of(id: isize, b: Box4, sh: int, sv: int) -> Placement {
    Placement { id, x: clamp32(b.0 - sh), y: clamp32(b.1 - sv), w: clamp32(b.2), h: clamp32(b.3) }
}

/// The rectangle a child keeps after being placed at `b`.
pub open spec fn rect_from(b: Box4) -> ChildRect {
    ChildRect { x: clamp32(b.0), y: clamp32(b.1), w: clamp32(b.2), h: clamp32(b.3) }
}

/// The rectangles after the first `i` children of `ids` were placed at `boxes`.
pub open spec fn record_rects(m: Map<isize, ChildRect>, ids: Seq<isize>, boxes: Seq<Box4>, i: int) -> Map<isize, ChildRect>
    decreases i,
{
    if i <= 0 {
        m
    } else {
        record_rects(m, ids, boxes, i - 1).insert(ids[i - 1], rect_from(boxes[i - 1]))
    }
}

pub open spec fn cross_of_h(a: AlignH) -> CrossAlign {
    match a {
        AlignH::LEFT => CrossAlign::Start,
        AlignH::CENTER => CrossAlign::Center,
        AlignH::RIGHT => CrossAlign::End,
        AlignH::FILL => CrossAlign::Fill,
        AlignH::EXPAND => CrossAlign::Expand,
    }
}

pub open spec fn cross_of_v(a: AlignV) -> CrossAlign {
    match a {
        AlignV::TOP => CrossAlign::Start,
        AlignV::CENTER => CrossAlign::Center,
        AlignV::BOTTOM => CrossAlign::End,
        AlignV::FILL => CrossAlign::Fill,
        AlignV::EXPAND => CrossAlign::Expand,
    }
}

/// A vertical-stack record along its axes: height is the main axis.
pub open spec fn vitem(v: VStackParam) -> AxisItem {
    AxisItem {
        main: v.h,
        cross: v.w,
        pad: v.pad,
        filler: v.filler,
        split: v.split,
        b_auto: v.b_auto,
        fixed: v.size == HeightAuto::FIX,
        align: cross_of_h(v.align),
    }
}

/// A horizontal-stack record along its axes: width is the main axis.
pub open spec fn hitem(v: HStackParam) -> AxisItem {
    AxisItem {
        main: v.w,
        cross: v.h,
        pad: v.pad,
        filler: v.filler,
        split: v.split,
        b_auto: v.b_auto,
        fixed: v.size == WidthAuto::FIX,
        align: cross_of_v(v.align),
    }
}

/// The stack item of `id`, if it has a record of the stack's variant.
pub open spec fn stack_entry(recs: Map<isize, ChildHolder>, id: isize, vertical: bool) -> Option<AxisItem> {
    if recs.contains_key(id) {
        match recs[id] {
            ChildHolder::VStack(v) => if vertical { Some(vitem(v)) } else { None },
            ChildHolder::HStack(v) => if !vertical { Some(hitem(v)) } else { None },
            ChildHolder::Place(_) => None,
        }
    } else {
        None
    }
}

/// Identifiers of the stack's children among the first `i` in order.
pub open spec fn stack_ids(order: Seq<isize>, recs: Map<isize, ChildHolder>, vertical: bool, i: int) -> Seq<isize>
    decreases i,
{
    if i <= 0 {
        Seq::empty()
    } else if stack_entry(recs, order[i - 1], vertical) is Some {
        stack_ids(order, recs, vertical, i - 1).push(order[i - 1])
    } else {
        stack_ids(order, recs, vertical, i - 1)
    }
}

/// Items of the stack's children among the first `i` in order.
pub open spec fn stack_items(order: Seq<isize>, recs: Map<isize, ChildHolder>, vertical: bool, i: int) -> Seq<AxisItem>
    decreases i,
{
    if i <= 0 {
        Seq::empty()
    } else if stack_entry(recs, order[i - 1], vertical) is Some {
        stack_items(order, recs, vertical, i - 1).push(stack_entry(recs, order[i - 1], vertical)->Some_0)
    } else {
        stack_items(order, recs, vertical, i - 1)
    }
}

pub open spec fn stack_ids_of(v: ContainerView, vertical: bool) -> Seq<isize> {
    stack_ids(v.order, v.records, vertical, v.order.len() as int)
}

pub open spec fn stack_items_of(v: ContainerView, vertical: bool) -> Seq<AxisItem> {
    stack_items(v.order, v.records, vertical, v.order.len() as int)
}

/// Content extent along a stack's main axis, and across it.
pub open spec fn main_cont(v: ContainerView, vertical: bool) -> int {
    if vertical { v.cont_h } else { v.cont_w }
}

pub open spec fn cross_cont(v: ContainerView, vertical: bool) -> int {
    if vertical { v.cont_w } else { v.cont_h }
}

/// A stack slot as a rectangle.
pub open spec fn slot_box(sl: AxisSlot, vertical: bool) -> Box4 {
    if vertical {
        (sl.cross_pos as int, sl.main_pos as int, sl.cross_size as int, sl.main_size as int)
    } else {
        (sl.main_pos as int, sl.cross_pos as int, sl.main_size as int, sl.cross_size as int)
    }
}

/// The rectangles of a stack's children once arranged.
pub open spec fn stack_boxes(v: ContainerView, vertical: bool) -> Seq<Box4> {
    let items = stack_items_of(v, vertical);
    Seq::new(
        items.len(),
        |j: int| slot_box(slot_of(items, j, main_cont(v, vertical), cross_cont(v, vertical)), vertical),
    )
}

/// `(width, height)` of an arranged stack.
pub open spec fn stack_view(v: ContainerView, vertical: bool) -> (int, int) {
    let items = stack_items_of(v, vertical);
    let m = view_main(items, main_cont(v, vertical));
    let c = view_cross(items, cross_cont(v, vertical));
    if vertical { (c, m) } else { (m, c) }
}

/// `(width, height)` a stack needs at least.
pub open spec fn stack_min(v: ContainerView, vertical: bool) -> (int, int) {
    let items = stack_items_of(v, vertical);
    if vertical { (min_cross(items), min_main(items)) } else { (min_main(items), min_cross(items)) }
}


fn cross_h(a: AlignH) -> (r: CrossAlign)
    ensures
        r == cross_of_h(a),
{
    match a {
        AlignH::LEFT => CrossAlign::Start,
        AlignH::CENTER => CrossAlign::Center,
        AlignH::RIGHT => CrossAlign::End,
        AlignH::FILL => CrossAlign::Fill,
        AlignH::EXPAND => CrossAlign::Expand,
    }
}

fn cross_v(a: AlignV) -> (r: CrossAlign)
    ensures
        r == cross_of_v(a),
{
    match a {
        AlignV::TOP => CrossAlign::Start,
        AlignV::CENTER => CrossAlign::Center,
        AlignV::BOTTOM => CrossAlign::End,
        AlignV::FILL => CrossAlign::Fill,
        AlignV::EXPAND => CrossAlign::Expand,
    }
}

impl WindowContainer {
    /// The children of the stack in order, with their items.
    fn collect_stack(&self, vertical: bool) -> (r: (Vec<isize>, Vec<AxisItem>))
        ensures
            r.0@ == stack_ids_of(self@, vertical),
            r.1@ == stack_items_of(self@, vertical),
            r.0@.len() == r.1@.len(),
    {
        let ghost v = self@;
        let mut ids: Vec<isize> = Vec::new();
        let mut items: Vec<AxisItem> = Vec::new();
        let mut i: usize = 0;
        while i < self.l_child.len()
            invariant
                v == self@,
                i <= v.order.len(),
                ids@ == stack_ids(v.order, v.records, vertical, i as int),
                items@ == stack_items(v.order, v.records, vertical, i as int),
                ids@.len() == items@.len(),
            decreases self.l_child.len() - i,
        {
            let id = self.l_child[i];
            match map_get(&self.m_child, id) {
                Some(ChildHolder::VStack(p)) => {
                    if vertical {
                        ids.push(id);
                        items.push(AxisItem {
                            main: p.h,
                            cross: p.w,
                            pad: p.pad,
                            filler: p.filler,
                            split: p.split,
                            b_auto: p.b_auto,
                            fixed: p.size == HeightAuto::FIX,
                            align: cross_h(p.align),
                        });
                    }
                },
                Some(ChildHolder::HStack(p)) => {
                    if !vertical {
                        ids.push(id);
                        items.push(AxisItem {
                            main: p.w,
                            cross: p.h,
                            pad: p.pad,
                            filler: p.filler,
                            split: p.split,
                            b_auto: p.b_auto,
                            fixed: p.size == WidthAuto::FIX,
                            align: cross_v(p.align),
                        });
                    }
                },
                _ => {},
            }
            i = i + 1;
        }
        (ids, items)
    }

    /// Gives each child of `ids` the rectangle of `areas` at the same index and
    /// returns the moves for the host, with the scroll offsets taken off.
    fn realize(&mut self, ids: &Vec<isize>, areas: &Vec<Area>, sh: i128, sv: i128) -> (r: Vec<Placement>)
        requires
            ids@.len() == areas@.len(),
            forall|j: int| 0 <= j < areas@.len() ==> box_bounded(area_box(#[trigger] areas@[j])),
        ensures
            r@ == Seq::new(ids@.len(), |j: int| placement_of(ids@[j], area_box(areas@[j]), sh as int, sv as int)),
            final(self)@ == (ContainerView {
                rects: record_rects(
                    old(self)@.rects,
                    ids@,
                    Seq::new(areas@.len(), |j: int| area_box(areas@[j])),
                    ids@.len() as int,
                ),
                ..old(self)@
            }),
            final(self).nested() == old(self).nested(),
    {
        let ghost v0 = self@;
        let ghost boxes = Seq::new(areas@.len(), |j: int| area_box(areas@[j]));
        let mut out: Vec<Placement> = Vec::new();
        let mut i: usize = 0;
        while i < ids.len()
            invariant
                ids@.len() == areas@.len(),
                boxes == Seq::new(areas@.len(), |j: int| area_box(areas@[j])),
                forall|j: int| 0 <= j < areas@.len() ==> box_bounded(area_box(#[trigger] areas@[j])),
                i <= ids@.len(),
                self@ == (ContainerView { rects: record_rects(v0.rects, ids@, boxes, i as int), ..v0 }),
                self.nested() == old(self).nested(),
                out@ == Seq::new(i as nat, |j: int| placement_of(ids@[j], area_box(areas@[j]), sh as int, sv as int)),
            decreases ids.len() - i,
        {
            let a = areas[i];
            assert(box_bounded(area_box(areas@[i as int])));
            let pl = Placement {
                id: ids[i],
                x: shifted_i32(a.x, sh),
                y: shifted_i32(a.y, sv),
                w: clamp_i32(a.w),
                h: clamp_i32(a.h),
            };
            let rc = ChildRect { x: clamp_i32(a.x), y: clamp_i32(a.y), w: clamp_i32(a.w), h: clamp_i32(a.h) };
            map_insert(&mut self.rects, ids[i], rc);
            out.push(pl);
            proof {
                assert(rc == rect_from(boxes[i as int]));
                assert(self@ == (ContainerView { rects: record_rects(v0.rects, ids@, boxes, i + 1), ..v0 }));
                assert(out@ =~= Seq::new((i + 1) as nat, |j: int| placement_of(ids@[j], area_box(areas@[j]), sh as int, sv as int)));
            }
            i = i + 1;
        }
        out
    }

    /// Runs a stack layout for real: every child of the stack gets its
    /// rectangle, and the moves come back with the scroll offsets taken off.
    fn stack_pass(&mut self, vertical: bool, sh: i128, sv: i128) -> (r: (i128, i128, Vec<Placement>))
        ensures
            (r.0 as int, r.1 as int) == stack_view(old(self)@, vertical),
            0 <= r.0 <= slot_limit(),
            0 <= r.1 <= slot_limit(),
            r.2@ == Seq::new(
                stack_ids_of(old(self)@, vertical).len(),
                |j: int| placement_of(stack_ids_of(old(self)@, vertical)[j], stack_boxes(old(self)@, vertical)[j], sh as int, sv as int),
            ),
            final(self)@ == (ContainerView {
                rects: record_rects(
                    old(self)@.rects,
                    stack_ids_of(old(self)@, vertical),
                    stack_boxes(old(self)@, vertical),
                    stack_ids_of(old(self)@, vertical).len() as int,
                ),
                ..old(self)@
            }),
            final(self).nested() == old(self).nested(),
    {
        let ghost v0 = self@;
        let (ids, items) = self.collect_stack(vertical);
        let (cm, cc) = if vertical { (self.cont_h, self.cont_w) } else { (self.cont_w, self.cont_h) };
        let (slots, vm, vc) = arrange_stack(&items, cm, cc);
        let mut areas: Vec<Area> = Vec::new();
        let mut i: usize = 0;
        while i < slots.len()
            invariant
                slots@.len() == items@.len(),
                items@ == stack_items_of(v0, vertical),
                cm == main_cont(v0, vertical),
                cc == cross_cont(v0, vertical),
                forall|j: int| 0 <= j < items@.len() ==> #[trigger] slots@[j] == slot_of(items@, j, cm as int, cc as int),
                forall|j: int| 0 <= j < items@.len() ==> slot_bounded(#[trigger] slots@[j]),
                i <= slots@.len(),
                areas@.len() == i,
                forall|j: int| 0 <= j < i ==> area_box(#[trigger] areas@[j]) == stack_boxes(v0, vertical)[j],
                forall|j: int| 0 <= j < i ==> box_bounded(area_box(#[trigger] areas@[j])),
            decreases slots.len() - i,
        {
            let sl = slots[i];
            assert(slot_bounded(slots@[i as int]));
            let a = if vertical {
                Area { x: sl.cross_pos, y: sl.main_pos, w: sl.cross_size, h: sl.main_size }
            } else {
                Area { x: sl.main_pos, y: sl.cross_pos, w: sl.main_size, h: sl.cross_size }
            };
            areas.push(a);
            i = i + 1;
        }
        let ghost boxes = Seq::new(areas@.len(), |j: int| area_box(areas@[j]));
        proof {
            assert(boxes =~= stack_boxes(v0, vertical));
        }
        let placements = self.realize(&ids, &areas, sh, sv);
        proof {
            assert(placements@ =~= Seq::new(
                stack_ids_of(v0, vertical).len(),
                |j: int| placement_of(stack_ids_of(v0, vertical)[j], stack_boxes(v0, vertical)[j], sh as int, sv as int),
            ));
        }
        if vertical {
            (vc, vm, placements)
        } else {
            (vm, vc, placements)
        }
    }

    /// A stack's minimum size `(width, height)`; nothing changes.
    fn stack_min_size(&self, vertical: bool) -> (r: (i128, i128))
        ensures
            (r.0 as int, r.1 as int) == stack_min(self@, vertical),
    {
        let (_ids, items) = self.collect_stack(vertical);
        let (c, m) = measure_stack(&items);
        if vertical { (c, m) } else { (m, c) }
    }
}


/// The placement record of `id`, if it has one.
pub open spec fn place_entry(recs: Map<isize, ChildHolder>, id: isize) -> Option<PlaceParam> {
    if recs.contains_key(id) {
        match recs[id] {
            ChildHolder::Place(p) => Some(p),
            _ => None,
        }
    } else {
        None
    }
}

/// Identifiers of the placed children among the first `i` in order.
pub open spec fn place_ids(order: Seq<isize>, recs: Map<isize, ChildHolder>, i: int) -> Seq<isize>
    decreases i,
{
    if i <= 0 {
        Seq::empty()
    } else if place_entry(recs, order[i - 1]) is Some {
        place_ids(order, recs, i - 1).push(order[i - 1])
    } else {
        place_ids(order, recs, i - 1)
    }
}

/// Records of the placed children among the first `i` in order.
pub open spec fn place_params(order: Seq<isize>, recs: Map<isize, ChildHolder>, i: int) -> Seq<PlaceParam>
    decreases i,
{
    if i <= 0 {
        Seq::empty()
    } else if place_entry(recs, order[i - 1]) is Some {
        place_params(order, recs, i - 1).push(place_entry(recs, order[i - 1])->Some_0)
    } else {
        place_params(order, recs, i - 1)
    }
}

pub open spec fn place_ids_of(v: ContainerView) -> Seq<isize> {
    place_ids(v.order, v.records, v.order.len() as int)
}

pub open spec fn place_params_of(v: ContainerView) -> Seq<PlaceParam> {
    place_params(v.order, v.records, v.order.len() as int)
}

/// The rectangles after the first `i` placed children were resolved, each
/// against the rectangles as they stood before it. A pass that does not
/// write leaves them as they were.
pub open spec fn place_rects(ids: Seq<isize>, ps: Seq<PlaceParam>, i: int, m0: Map<isize, ChildRect>, cw: int, ch: int, write: bool) -> Map<isize, ChildRect>
    decreases i,
{
    if i <= 0 || !write {
        m0
    } else {
        let m = place_rects(ids, ps, i - 1, m0, cw, ch, write);
        let p = ps[i - 1];
        m.insert(ids[i - 1], rect_from(resolve_place(p, rect_of(m, p.pos_offset_hwnd), rect_of(m, p.span_offset_hwnd), cw, ch)))
    }
}

/// The rectangle of placed child `j` in a pass.
pub open spec fn place_box(ids: Seq<isize>, ps: Seq<PlaceParam>, j: int, m0: Map<isize, ChildRect>, cw: int, ch: int, write: bool) -> Box4 {
    let m = place_rects(ids, ps, j, m0, cw, ch, write);
    resolve_place(ps[j], rect_of(m, ps[j].pos_offset_hwnd), rect_of(m, ps[j].span_offset_hwnd), cw, ch)
}

/// The bounding extents `(right, bottom)` of the first `i` placed children,
/// and at least 0.
pub open spec fn place_reach(ids: Seq<isize>, ps: Seq<PlaceParam>, i: int, m0: Map<isize, ChildRect>, cw: int, ch: int, write: bool) -> (int, int)
    decreases i,
{
    if i <= 0 {
        (0, 0)
    } else {
        let (w, h) = place_reach(ids, ps, i - 1, m0, cw, ch, write);
        let b = place_box(ids, ps, i - 1, m0, cw, ch, write);
        (if w < b.0 + b.2 { b.0 + b.2 } else { w }, if h < b.1 + b.3 { b.1 + b.3 } else { h })
    }
}

/// `(width, height)` of a place layout: the bounding box of its children.
pub open spec fn place_view(v: ContainerView, write: bool) -> (int, int) {
    place_reach(place_ids_of(v), place_params_of(v), place_ids_of(v).len() as int, v.rects, v.cont_w, v.cont_h, write)
}

pub open spec fn place_boxes(v: ContainerView) -> Seq<Box4> {
    Seq::new(
        place_ids_of(v).len(),
        |j: int| place_box(place_ids_of(v), place_params_of(v), j, v.rects, v.cont_w, v.cont_h, true),
    )
}

impl WindowContainer {
    /// The placed children in order, with their records.
    fn collect_place(&self) -> (r: (Vec<isize>, Vec<PlaceParam>))
        ensures
            r.0@ == place_ids_of(self@),
            r.1@ == place_params_of(self@),
            r.0@.len() == r.1@.len(),
    {
        let ghost v = self@;
        let mut ids: Vec<isize> = Vec::new();
        let mut ps: Vec<PlaceParam> = Vec::new();
        let mut i: usize = 0;
        while i < self.l_child.len()
            invariant
                v == self@,
                i <= v.order.len(),
                ids@ == place_ids(v.order, v.records, i as int),
                ps@ == place_params(v.order, v.records, i as int),
                ids@.len() == ps@.len(),
            decreases self.l_child.len() - i,
        {
            let id = self.l_child[i];
            match map_get(&self.m_child, id) {
                Some(ChildHolder::Place(p)) => {
                    ids.push(id);
                    ps.push(*p);
                },
                _ => {},
            }
            i = i + 1;
        }
        (ids, ps)
    }

    /// The rectangle child `id` was last given, or an empty one at the origin.
    fn rect_lookup(&self, id: isize) -> (r: ChildRect)
        ensures
            r == rect_of(self@.rects, id),
    {
        match map_get(&self.rects, id) {
            Some(rc) => *rc,
            None => ChildRect { x: 0, y: 0, w: 0, h: 0 },
        }
    }

    /// A place layout's size; nothing changes.
    fn place_min_size(&self) -> (r: (i128, i128))
        ensures
            (r.0 as int, r.1 as int) == place_view(self@, false),
            0 <= r.0 <= slot_limit(),
            0 <= r.1 <= slot_limit(),
    {
        let ghost v = self@;
        let (ids, ps) = self.collect_place();
        let mut vw: i128 = 0;
        let mut vh: i128 = 0;
        let mut i: usize = 0;
        while i < ps.len()
            invariant
                v == self@,
                ids@ == place_ids_of(v),
                ps@ == place_params_of(v),
                ids@.len() == ps@.len(),
                i <= ps@.len(),
                (vw as int, vh as int) == place_reach(ids@, ps@, i as int, v.rects, v.cont_w, v.cont_h, false),
                0 <= vw <= 0x40_0000_0000_0000,
                0 <= vh <= 0x40_0000_0000_0000,
            decreases ps.len() - i,
        {
            let p = ps[i];
            let pr = self.rect_lookup(p.pos_offset_hwnd);
            let sr = self.rect_lookup(p.span_offset_hwnd);
            let a = resolve(&p, pr, sr, self.cont_w, self.cont_h);
            if vw < a.x + a.w {
                vw = a.x + a.w;
            }
            if vh < a.y + a.h {
                vh = a.y + a.h;
            }
            i = i + 1;
        }
        (vw, vh)
    }

    /// Runs a place layout for real: each child is resolved in order against
    /// the rectangles as they stand, and gets its rectangle at once.
    fn place_pass(&mut self, sh: i128, sv: i128) -> (r: (i128, i128, Vec<Placement>))
        ensures
            (r.0 as int, r.1 as int) == place_view(old(self)@, true),
            0 <= r.0 <= slot_limit(),
            0 <= r.1 <= slot_limit(),
            r.2@ == Seq::new(
                place_ids_of(old(self)@).len(),
                |j: int| placement_of(place_ids_of(old(self)@)[j], place_boxes(old(self)@)[j], sh as int, sv as int),
            ),
            final(self)@ == (ContainerView {
                rects: place_rects(
                    place_ids_of(old(self)@),
                    place_params_of(old(self)@),
                    place_ids_of(old(self)@).len() as int,
                    old(self)@.rects,
                    old(self)@.cont_w,
                    old(self)@.cont_h,
                    true,
                ),
                ..old(self)@
            }),
            final(self).nested() == old(self).nested(),
    {
        let ghost v = self@;
        let (ids, ps) = self.collect_place();
        let mut vw: i128 = 0;
        let mut vh: i128 = 0;
        let mut out: Vec<Placement> = Vec::new();
        let mut i: usize = 0;
        while i < ps.len()
            invariant
                ids@ == place_ids_of(v),
                ps@ == place_params_of(v),
                ids@.len() == ps@.len(),
                i <= ps@.len(),
                self@ == (ContainerView {
                    rects: place_rects(ids@, ps@, i as int, v.rects, v.cont_w, v.cont_h, true),
                    ..v
                }),
                self.nested() == old(self).nested(),
                (vw as int, vh as int) == place_reach(ids@, ps@, i as int, v.rects, v.cont_w, v.cont_h, true),
                0 <= vw <= 0x40_0000_0000_0000,
                0 <= vh <= 0x40_0000_0000_0000,
                out@ == Seq::new(
                    i as nat,
                    |j: int| placement_of(ids@[j], place_box(ids@, ps@, j, v.rects, v.cont_w, v.cont_h, true), sh as int, sv as int),
                ),
            decreases ps.len() - i,
        {
            let p = ps[i];
            let pr = self.rect_lookup(p.pos_offset_hwnd);
            let sr = self.rect_lookup(p.span_offset_hwnd);
            let a = resolve(&p, pr, sr, self.cont_w, self.cont_h);
            let pl = Placement {
                id: ids[i],
                x: shifted_i32(a.x, sh),
                y: shifted_i32(a.y, sv),
                w: clamp_i32(a.w),
                h: clamp_i32(a.h),
            };
            let rc = ChildRect { x: clamp_i32(a.x), y: clamp_i32(a.y), w: clamp_i32(a.w), h: clamp_i32(a.h) };
            map_insert(&mut self.rects, ids[i], rc);
            out.push(pl);
            if vw < a.x + a.w {
                vw = a.x + a.w;
            }
            if vh < a.y + a.h {
                vh = a.y + a.h;
            }
            proof {
                assert(self@ == (ContainerView {
                    rects: place_rects(ids@, ps@, i + 1, v.rects, v.cont_w, v.cont_h, true),
                    ..v
                }));
                assert(out@ =~= Seq::new(
                    (i + 1) as nat,
                    |j: int| placement_of(ids@[j], place_box(ids@, ps@, j, v.rects, v.cont_w, v.cont_h, true), sh as int, sv as int),
                ));
            }
            i = i + 1;
        }
        proof {
            assert(out@ =~= Seq::new(
                place_ids_of(v).len(),
                |j: int| placement_of(place_ids_of(v)[j], place_boxes(v)[j], sh as int, sv as int),
            ));
        }
        (vw, vh, out)
    }
}


/// The moves a real stack pass hands to the host.
pub open spec fn stack_placements(v: ContainerView, vertical: bool, sh: int, sv: int) -> Seq<Placement> {
    Seq::new(
        stack_ids_of(v, vertical).len(),
        |j: int| placement_of(stack_ids_of(v, vertical)[j], stack_boxes(v, vertical)[j], sh, sv),
    )
}

/// The moves a real place pass hands to the host.
pub open spec fn place_placements(v: ContainerView, sh: int, sv: int) -> Seq<Placement> {
    Seq::new(place_ids_of(v).len(), |j: int| placement_of(place_ids_of(v)[j], place_boxes(v)[j], sh, sv))
}

/// The rectangles after a real stack pass.
pub open spec fn stack_rects(v: ContainerView, vertical: bool) -> Map<isize, ChildRect> {
    record_rects(v.rects, stack_ids_of(v, vertical), stack_boxes(v, vertical), stack_ids_of(v, vertical).len() as int)
}

/// The rectangles after a real place pass.
pub open spec fn place_rects_of(v: ContainerView) -> Map<isize, ChildRect> {
    place_rects(place_ids_of(v), place_params_of(v), place_ids_of(v).len() as int, v.rects, v.cont_w, v.cont_h, true)
}

/// The minimum size `(width, height)` a container reports for its mode.
pub open spec fn min_size(v: ContainerView) -> (int, int) {
    match v.layout {
        Layout::Unset => (0, 0),
        Layout::VStack => stack_min(v, true),
        Layout::HStack => stack_min(v, false),
        Layout::Place => place_view(v, false),
    }
}

/// The view size `(width, height)` of a real pass in the container's mode.
pub open spec fn arranged_view(v: ContainerView) -> (int, int) {
    match v.layout {
        Layout::Unset => (0, 0),
        Layout::VStack => stack_view(v, true),
        Layout::HStack => stack_view(v, false),
        Layout::Place => place_view(v, true),
    }
}

/// The moves of a real pass in the container's mode.
pub open spec fn arranged_placements(v: ContainerView, sh: int, sv: int) -> Seq<Placement> {
    match v.layout {
        Layout::Unset => Seq::empty(),
        Layout::VStack => stack_placements(v, true, sh, sv),
        Layout::HStack => stack_placements(v, false, sh, sv),
        Layout::Place => place_placements(v, sh, sv),
    }
}

/// The rectangles after a real pass in the container's mode.
pub open spec fn arranged_rects(v: ContainerView) -> Map<isize, ChildRect> {
    match v.layout {
        Layout::Unset => v.rects,
        Layout::VStack => stack_rects(v, true),
        Layout::HStack => stack_rects(v, false),
        Layout::Place => place_rects_of(v),
    }
}

/// The state after `update_layout`: rectangles from the real pass, and both
/// scrollbars from the negotiation over its view size.
pub open spec fn updated(v: ContainerView) -> ContainerView {
    let (vw, vh) = arranged_view(v);
    let (_, _, pw, ph) = negotiated(vw, vh, v.cont_w, v.cont_h, v.bar_h, v.bar_v);
    ContainerView {
        rects: arranged_rects(v),
        scroll_h: ScrollAxis {
            max: (vw - 1) as i128,
            page: pw as i128,
            pos: settle_pos(v.scroll_h.pos as int, vw - 1, v.cont_w, pw) as i128,
        },
        scroll_v: ScrollAxis {
            max: (vh - 1) as i128,
            page: ph as i128,
            pos: settle_pos(v.scroll_v.pos as int, vh - 1, first_page_h(vw, v.cont_w, v.cont_h, v.bar_h), ph) as i128,
        },
        ..v
    }
}

/// What `update_layout` hands to the host: the moves of the real pass, made
/// at the old scroll positions, and how far to shift everything afterwards
/// (old position minus new, per axis).
pub struct UpdateOutcome {
    pub placements: Vec<Placement>,
    pub shift_h: i128,
    pub shift_v: i128,
    /// The horizontal scrollbar as it settled.
    pub scroll_h: ScrollAxis,
    /// The vertical scrollbar as it settled.
    pub scroll_v: ScrollAxis,
}

impl WindowContainer {
    /// Vertical stack pass. With `b_min_check` it only measures: the result is
    /// the minimum size and nothing changes. Otherwise every stack child gets
    /// its rectangle and the moves come back, shifted by the scroll offsets.
    pub fn layout_vstack(&mut self, b_min_check: bool, now_scr_v: i128, now_scr_h: i128) -> (r: (i128, i128, Vec<Placement>))
        ensures
            b_min_check ==> (r.0 as int, r.1 as int) == stack_min(old(self)@, true) && r.2@.len() == 0
                && final(self)@ == old(self)@,
            !b_min_check ==> (r.0 as int, r.1 as int) == stack_view(old(self)@, true)
                && r.2@ == stack_placements(old(self)@, true, now_scr_h as int, now_scr_v as int)
                && final(self)@ == (ContainerView { rects: stack_rects(old(self)@, true), ..old(self)@ }),
            final(self).nested() == old(self).nested(),
    {
        if b_min_check {
            let (w, h) = self.stack_min_size(true);
            (w, h, Vec::new())
        } else {
            self.stack_pass(true, now_scr_h, now_scr_v)
        }
    }

    /// Horizontal stack pass; as `layout_vstack` with the axes exchanged.
    pub fn layout_hstack(&mut self, b_min_check: bool, now_scr_v: i128, now_scr_h: i128) -> (r: (i128, i128, Vec<Placement>))
        ensures
            b_min_check ==> (r.0 as int, r.1 as int) == stack_min(old(self)@, false) && r.2@.len() == 0
                && final(self)@ == old(self)@,
            !b_min_check ==> (r.0 as int, r.1 as int) == stack_view(old(self)@, false)
                && r.2@ == stack_placements(old(self)@, false, now_scr_h as int, now_scr_v as int)
                && final(self)@ == (ContainerView { rects: stack_rects(old(self)@, false), ..old(self)@ }),
            final(self).nested() == old(self).nested(),
    {
        if b_min_check {
            let (w, h) = self.stack_min_size(false);
            (w, h, Vec::new())
        } else {
            self.stack_pass(false, now_scr_h, now_scr_v)
        }
    }

    /// Place pass. With `b_min_check` it only measures the bounding box and
    /// nothing changes. Otherwise every placed child gets its rectangle and
    /// the moves come back, shifted by the scroll offsets.
    pub fn layout_place(&mut self, b_min_check: bool, now_scr_v: i128, now_scr_h: i128) -> (r: (i128, i128, Vec<Placement>))
        ensures
            b_min_check ==> (r.0 as int, r.1 as int) == place_view(old(self)@, false) && r.2@.len() == 0
                && final(self)@ == old(self)@,
            !b_min_check ==> (r.0 as int, r.1 as int) == place_view(old(self)@, true)
                && r.2@ == place_placements(old(self)@, now_scr_h as int, now_scr_v as int)
                && final(self)@ == (ContainerView { rects: place_rects_of(old(self)@), ..old(self)@ }),
            final(self).nested() == old(self).nested(),
    {
        if b_min_check {
            let (w, h) = self.place_min_size();
            (w, h, Vec::new())
        } else {
            self.place_pass(now_scr_h, now_scr_v)
        }
    }

    /// The minimum size `(width, height)` of the container in its mode; it
    /// changes nothing, so repeated calls agree.
    pub fn check_layout(&self) -> (r: (i128, i128))
        ensures
            (r.0 as int, r.1 as int) == min_size(self@),
    {
        match self.layout {
            Layout::Unset => (0, 0),
            Layout::VStack => self.stack_min_size(true),
            Layout::HStack => self.stack_min_size(false),
            Layout::Place => self.place_min_size(),
        }
    }

    /// Runs the real pass of the container's mode at the current scroll
    /// positions, negotiates the scrollbars over the resulting view size, and
    /// settles both positions.
    pub fn update_layout(&mut self) -> (r: UpdateOutcome)
        requires
            old(self).scroll_in_bounds(),
        ensures
            final(self)@ == updated(old(self)@),
            final(self).scroll_in_bounds(),
            old(self).wf() ==> final(self).wf(),
            final(self).nested() == old(self).nested(),
            r.placements@ == arranged_placements(old(self)@, old(self)@.scroll_h.pos as int, old(self)@.scroll_v.pos as int),
            r.shift_h == old(self)@.scroll_h.pos - final(self)@.scroll_h.pos,
            r.shift_v == old(self)@.scroll_v.pos - final(self)@.scroll_v.pos,
            r.scroll_h == final(self)@.scroll_h,
            r.scroll_v == final(self)@.scroll_v,
    {
        let ghost v0 = self@;
        let now_h = self.scr_h.pos;
        let now_v = self.scr_v.pos;
        let (vw, vh, placements) = match self.layout {
            Layout::Unset => (0, 0, Vec::new()),
            Layout::VStack => self.stack_pass(true, now_h, now_v),
            Layout::HStack => self.stack_pass(false, now_h, now_v),
            Layout::Place => self.place_pass(now_h, now_v),
        };
        let (_add_h, _add_v, pw, ph) = negotiate(vw, vh, self.cont_w, self.cont_h, self.bar_h, self.bar_v);
        let first_h: i128 = if vw > self.cont_w as i128 { self.cont_h as i128 - self.bar_h as i128 } else { self.cont_h as i128 };
        let pos_h = settle(now_h, vw - 1, self.cont_w as i128, pw);
        let pos_v = settle(now_v, vh - 1, first_h, ph);
        self.scr_h = ScrollAxis { max: vw - 1, page: pw, pos: pos_h };
        self.scr_v = ScrollAxis { max: vh - 1, page: ph, pos: pos_v };
        proof {
            assert(self@ == updated(v0));
        }
        UpdateOutcome {
            placements,
            shift_h: now_h - pos_h,
            shift_v: now_v - pos_v,
            scroll_h: self.scr_h,
            scroll_v: self.scr_v,
        }
    }
}


/// The view with the record of `id` replaced by `c`.
pub open spec fn with_record(v: ContainerView, id: isize, c: ChildHolder) -> ContainerView {
    ContainerView { records: v.records.insert(id, c), ..v }
}

/// A scrollbar moved to position `p`, held in its range.
pub open spec fn scrolled_to(a: ScrollAxis, p: int) -> ScrollAxis {
    ScrollAxis { pos: clamp_pos(p, a.max as int, a.page as int) as i128, ..a }
}

impl WindowContainer {
    /// Whether both scrollbars hold bounded numbers. Every container the
    /// public operations build does.
    pub fn check_scroll_bounds(&self) -> (r: bool)
        ensures
            r == self.scroll_in_bounds(),
    {
        let lim: i128 = 0x1_0000_0000_0000_0000_0000_0000_0000;
        let ok_axis = |a: ScrollAxis| -> (b: bool)
            ensures
                b == scroll_ok(a),
            {
                -1 <= a.max && a.max <= 0x100_0000_0000_0000_0000_0000_0000 && -0x4_0000_0000 <= a.page
                    && a.page <= 0x4_0000_0000 && -lim <= a.pos && a.pos <= lim
            };
        ok_axis(self.scr_h) && ok_axis(self.scr_v)
    }

    /// One scrollbar: the vertical one or the horizontal one.
    pub fn get_scroll_info(&self, vertical: bool) -> (r: ScrollAxis)
        ensures
            r == if vertical { self@.scroll_v } else { self@.scroll_h },
    {
        if vertical { self.scr_v } else { self.scr_h }
    }

    /// The host resized nested container `handle` to `(w, h)`: it runs its
    /// own `update_layout`. `None` when no nested container has that handle
    /// (or its scrollbars are out of bounds, which the public operations
    /// never produce); then nothing changes.
    pub fn resize_nested(&mut self, handle: isize, w: i32, h: i32) -> (r: Option<UpdateOutcome>)
        ensures
            final(self)@ == old(self)@,
            final(self).nested().len() == old(self).nested().len(),
            match old(self)@.nested_ids.index_of_first(handle) {
                Some(i) => {
                    let c = old(self).nested()[i];
                    if c.scroll_in_bounds() {
                        &&& r is Some
                        &&& final(self).nested()[i]@ == updated(ContainerView { cont_w: w as int, cont_h: h as int, ..c@ })
                        &&& final(self).nested()[i].nested() == c.nested()
                        &&& forall|j: int| 0 <= j < old(self).nested().len() && j != i ==> final(self).nested()[j] == old(self).nested()[j]
                    } else {
                        r is None && final(self).nested() == old(self).nested()
                    }
                },
                None => r is None && final(self).nested() == old(self).nested(),
            },
    {
        let ghost v0 = self@;
        let ghost n0 = self.nested();
        match self.find_nested(handle) {
            None => None,
            Some(i) => {
                proof {
                    v0.nested_ids.index_of_first_ensures(handle);
                }
                if !self.l_child_container[i].check_scroll_bounds() {
                    return None;
                }
                let mut child = WindowContainer::create(0, 0, 0);
                self.l_child_container.set_and_swap(i, &mut child);
                let out = child.resize(w, h);
                self.l_child_container.set_and_swap(i, &mut child);
                proof {
                    assert(self@.nested_ids =~= v0.nested_ids);
                }
                Some(out)
            },
        }
    }

    /// The host's identifier of this container.
    pub fn handle(&self) -> (r: isize)
        ensures
            r == self@.handle,
    {
        self.handle
    }

    fn set_record(&mut self, htarget: isize, c: ChildHolder) -> (r: Option<UpdateOutcome>)
        requires
            old(self).wf(),
        ensures
            old(self)@.records.contains_key(htarget) && holder_matches(old(self)@.records[htarget], old(self)@.layout)
                && holder_matches(c, old(self)@.layout) ==> r is Some && final(self)@ == updated(with_record(old(self)@, htarget, c)),
            !(old(self)@.records.contains_key(htarget) && holder_matches(old(self)@.records[htarget], old(self)@.layout)
                && holder_matches(c, old(self)@.layout)) ==> r is None && final(self)@ == old(self)@,
            final(self).wf(),
            final(self).nested() == old(self).nested(),
    {
        let ghost v0 = self@;
        let ok = match map_get(&self.m_child, htarget) {
            Some(ChildHolder::VStack(_)) => self.layout == Layout::VStack,
            Some(ChildHolder::HStack(_)) => self.layout == Layout::HStack,
            Some(ChildHolder::Place(_)) => self.layout == Layout::Place,
            None => false,
        };
        let fits = match c {
            ChildHolder::VStack(_) => self.layout == Layout::VStack,
            ChildHolder::HStack(_) => self.layout == Layout::HStack,
            ChildHolder::Place(_) => self.layout == Layout::Place,
        };
        if !ok || !fits {
            return None;
        }
        map_insert(&mut self.m_child, htarget, c);
        proof {
            assert(self@ == with_record(v0, htarget, c));
            assert(self@.records.dom() =~= v0.records.dom());
        }
        Some(self.update_layout())
    }

    /// Replaces the vertical-stack record of `htarget` and runs
    /// `update_layout`. A child without such a record is left alone (`None`).
    pub fn set_vstack_param(
        &mut self,
        htarget: isize,
        w: i32,
        h: i32,
        pad: i32,
        filler: i32,
        split: i32,
        b_auto: bool,
        align: AlignH,
        size: HeightAuto,
    ) -> (r: Option<UpdateOutcome>)
        requires
            old(self).wf(),
        ensures
            ({
                let c = ChildHolder::VStack(VStackParam { w, h, pad, filler, split, b_auto, align, size });
                &&& old(self)@.records.contains_key(htarget) && old(self)@.records[htarget] is VStack ==> r is Some
                    && final(self)@ == updated(with_record(old(self)@, htarget, c))
                &&& !(old(self)@.records.contains_key(htarget) && old(self)@.records[htarget] is VStack) ==> r is None
                    && final(self)@ == old(self)@
            }),
            final(self).wf(),
            final(self).nested() == old(self).nested(),
    {
        self.set_record(htarget, ChildHolder::VStack(VStackParam { w, h, pad, filler, split, b_auto, align, size }))
    }

    /// Replaces the horizontal-stack record of `htarget` and runs
    /// `update_layout`. A child without such a record is left alone (`None`).
    pub fn set_hstack_param(
        &mut self,
        htarget: isize,
        w: i32,
        h: i32,
        pad: i32,
        filler: i32,
        split: i32,
        b_auto: bool,
        size: WidthAuto,
        align: AlignV,
    ) -> (r: Option<UpdateOutcome>)
        requires
            old(self).wf(),
        ensures
            ({
                let c = ChildHolder::HStack(HStackParam { w, h, pad, filler, split, b_auto, size, align });
                &&& old(self)@.records.contains_key(htarget) && old(self)@.records[htarget] is HStack ==> r is Some
                    && final(self)@ == updated(with_record(old(self)@, htarget, c))
                &&& !(old(self)@.records.contains_key(htarget) && old(self)@.records[htarget] is HStack) ==> r is None
                    && final(self)@ == old(self)@
            }),
            final(self).wf(),
            final(self).nested() == old(self).nested(),
    {
        self.set_record(htarget, ChildHolder::HStack(HStackParam { w, h, pad, filler, split, b_auto, size, align }))
    }

    /// Replaces the placement record of `htarget` and runs `update_layout`.
    /// A child without such a record is left alone (`None`).
    pub fn set_place_param(
        &mut self,
        htarget: isize,
        x: i32,
        y: i32,
        w: i32,
        h: i32,
        pos_offset_hwnd: isize,
        span_offset_hwnd: isize,
        pos_kind: PlaceSet,
        span_kind: PlaceSet,
    ) -> (r: Option<UpdateOutcome>)
        requires
            old(self).wf(),
        ensures
            ({
                let c = ChildHolder::Place(PlaceParam { x, y, w, h, pos_offset_hwnd, span_offset_hwnd, pos_kind, span_kind });
                &&& old(self)@.records.contains_key(htarget) && old(self)@.records[htarget] is Place ==> r is Some
                    && final(self)@ == updated(with_record(old(self)@, htarget, c))
                &&& !(old(self)@.records.contains_key(htarget) && old(self)@.records[htarget] is Place) ==> r is None
                    && final(self)@ == old(self)@
            }),
            final(self).wf(),
            final(self).nested() == old(self).nested(),
    {
        self.set_record(
            htarget,
            ChildHolder::Place(PlaceParam { x, y, w, h, pos_offset_hwnd, span_offset_hwnd, pos_kind, span_kind }),
        )
    }

    /// The host resized the container: the content size becomes `(w, h)`
    /// and `update_layout` runs.
    pub fn resize(&mut self, w: i32, h: i32) -> (r: UpdateOutcome)
        requires
            old(self).scroll_in_bounds(),
        ensures
            final(self)@ == updated(ContainerView { cont_w: w as int, cont_h: h as int, ..old(self)@ }),
            final(self).scroll_in_bounds(),
            old(self).wf() ==> final(self).wf(),
            final(self).nested() == old(self).nested(),
    {
        self.cont_w = w;
        self.cont_h = h;
        self.update_layout()
    }

    /// The host's scrollbar thickness: `bar_h` is the height of a horizontal
    /// scrollbar, `bar_v` the width of a vertical one.
    pub fn set_scrollbar_size(&mut self, bar_h: u32, bar_v: u32)
        ensures
            final(self)@ == (ContainerView { bar_h: bar_h as int, bar_v: bar_v as int, ..old(self)@ }),
            final(self).nested() == old(self).nested(),
    {
        self.bar_h = bar_h;
        self.bar_v = bar_v;
    }

    /// While `b` holds, `recalc_layout` does nothing.
    pub fn recalc_layout_stop(&mut self, b: bool)
        ensures
            final(self)@ == (ContainerView { frozen: b, ..old(self)@ }),
            final(self).nested() == old(self).nested(),
    {
        self.b_recalc_layout_stop = b;
    }

    /// `(width, height)` of the scrollable field: each scrollbar's range.
    pub fn get_field_size(&self) -> (r: (i128, i128))
        requires
            self.scroll_in_bounds(),
        ensures
            r.0 == self@.scroll_h.max + 1,
            r.1 == self@.scroll_v.max + 1,
    {
        (self.scr_h.max + 1, self.scr_v.max + 1)
    }

    /// The scroll positions `(horizontal, vertical)`.
    pub fn get_scrollpos(&self) -> (r: (i128, i128))
        ensures
            r.0 == self@.scroll_h.pos,
            r.1 == self@.scroll_v.pos,
    {
        (self.scr_h.pos, self.scr_v.pos)
    }

    /// The rectangle `(left, top, right, bottom)` child `htarget` was last
    /// given, in content coordinates; an empty one at the origin when it has
    /// none.
    pub fn get_child_rect(&self, htarget: isize) -> (r: (i64, i64, i64, i64))
        ensures
            ({
                let rc = rect_of(self@.rects, htarget);
                r == (rc.x as i64, rc.y as i64, (rc.x + rc.w) as i64, (rc.y + rc.h) as i64)
            }),
    {
        let rc = self.rect_lookup(htarget);
        (rc.x as i64, rc.y as i64, rc.x as i64 + rc.w as i64, rc.y as i64 + rc.h as i64)
    }

    /// A scrollbar command on one axis. The position moves as the command
    /// says and is held in range; returns how far the children shift (old
    /// position minus new).
    pub fn scroll(&mut self, vertical: bool, cmd: ScrollCommand) -> (r: i128)
        requires
            old(self).scroll_in_bounds(),
        ensures
            vertical ==> final(self)@ == (ContainerView {
                scroll_v: scrolled_to(old(self)@.scroll_v, command_pos(old(self)@.scroll_v.pos as int, old(self)@.scroll_v.max as int, old(self)@.scroll_v.page as int, cmd)),
                ..old(self)@
            }) && r == old(self)@.scroll_v.pos - final(self)@.scroll_v.pos,
            !vertical ==> final(self)@ == (ContainerView {
                scroll_h: scrolled_to(old(self)@.scroll_h, command_pos(old(self)@.scroll_h.pos as int, old(self)@.scroll_h.max as int, old(self)@.scroll_h.page as int, cmd)),
                ..old(self)@
            }) && r == old(self)@.scroll_h.pos - final(self)@.scroll_h.pos,
            final(self).scroll_in_bounds(),
            old(self).wf() ==> final(self).wf(),
            final(self).nested() == old(self).nested(),
    {
        let a = if vertical { self.scr_v } else { self.scr_h };
        let p = command_position(a.pos, a.max, a.page, cmd);
        let np = clamp_position(p, a.max, a.page);
        let b = ScrollAxis { pos: np, ..a };
        if vertical {
            self.scr_v = b;
        } else {
            self.scr_h = b;
        }
        a.pos - np
    }

    /// A wheel turn on one axis. An axis without range does not take it
    /// (`None`, for an enclosing container to handle); otherwise the position
    /// moves a tenth of a page per notch, held in range, and the shift comes
    /// back.
    pub fn wheel(&mut self, vertical: bool, delta: i16) -> (r: Option<i128>)
        requires
            old(self).scroll_in_bounds(),
        ensures
            ({
                let a = if vertical { old(self)@.scroll_v } else { old(self)@.scroll_h };
                let b = scrolled_to(a, wheel_pos(a.pos as int, a.page as int, delta as int, vertical));
                &&& !has_range(a.max as int, a.page as int) ==> r is None && final(self)@ == old(self)@
                &&& has_range(a.max as int, a.page as int) ==> r == Some((a.pos - b.pos) as i128)
                    && final(self)@ == if vertical {
                        ContainerView { scroll_v: b, ..old(self)@ }
                    } else {
                        ContainerView { scroll_h: b, ..old(self)@ }
                    }
            }),
            final(self).scroll_in_bounds(),
            old(self).wf() ==> final(self).wf(),
            final(self).nested() == old(self).nested(),
    {
        let a = if vertical { self.scr_v } else { self.scr_h };
        if !(a.max + 1 > a.page) {
            return None;
        }
        let p = wheel_position(a.pos, a.page, delta, vertical);
        let np = clamp_position(p, a.max, a.page);
        let b = ScrollAxis { pos: np, ..a };
        if vertical {
            self.scr_v = b;
        } else {
            self.scr_h = b;
        }
        Some(a.pos - np)
    }

    /// Takes `c` in as a nested container; it is found by its handle when
    /// the layout is recalculated or the child removed.
    pub fn create_child_container(&mut self, c: WindowContainer)
        ensures
            final(self)@ == (ContainerView { nested_ids: old(self)@.nested_ids.push(c@.handle), ..old(self)@ }),
            final(self).nested() == old(self).nested().push(c),
    {
        let ghost v0 = self@;
        self.l_child_container.push(c);
        proof {
            assert(self@.nested_ids =~= v0.nested_ids.push(c@.handle));
        }
    }
}


/// The record of a nested container given the size `(w, h)`, when it is of
/// the container's variant. A placed one keeps its position and takes the
/// size in pixels.
pub open spec fn sized_record(c: ChildHolder, l: Layout, w: int, h: int) -> Option<ChildHolder> {
    match c {
        ChildHolder::VStack(p) => if l == Layout::VStack {
            Some(ChildHolder::VStack(VStackParam { w: clamp32(w), h: clamp32(h), ..p }))
        } else {
            None
        },
        ChildHolder::HStack(p) => if l == Layout::HStack {
            Some(ChildHolder::HStack(HStackParam { w: clamp32(w), h: clamp32(h), ..p }))
        } else {
            None
        },
        ChildHolder::Place(p) => if l == Layout::Place {
            Some(
                ChildHolder::Place(
                    PlaceParam { w: clamp32(w), h: clamp32(h), span_offset_hwnd: 0, span_kind: PlaceSet::PIXEL, ..p },
                ),
            )
        } else {
            None
        },
    }
}

/// The records with the record of `id` given the size `sz`, where it has one
/// of the container's variant.
pub open spec fn apply_size(recs: Map<isize, ChildHolder>, l: Layout, id: isize, sz: (int, int)) -> Map<isize, ChildHolder> {
    if recs.contains_key(id) && sized_record(recs[id], l, sz.0, sz.1) is Some {
        recs.insert(id, sized_record(recs[id], l, sz.0, sz.1)->Some_0)
    } else {
        recs
    }
}

/// The records after the first `i` nested containers wrote their minimum
/// sizes back, in order.
pub open spec fn sized_records(recs: Map<isize, ChildHolder>, l: Layout, cs: Seq<WindowContainer>, i: int) -> Map<isize, ChildHolder>
    decreases i,
{
    if i <= 0 {
        recs
    } else {
        apply_size(sized_records(recs, l, cs, i - 1), l, cs[i - 1]@.handle, min_size(cs[i - 1]@))
    }
}

/// `b` is `a` after `recalc_layout`: a frozen container is unchanged;
/// otherwise every nested container was recalculated first, its minimum size
/// was written into its record here, and both scroll positions went to 0.
pub open spec fn recalculated(a: WindowContainer, b: WindowContainer) -> bool
    decreases a,
{
    if a@.frozen {
        b@ == a@ && b.nested() == a.nested()
    } else {
        &&& b.nested().len() == a.nested().len()
        &&& forall|i: int| 0 <= i < a.nested().len() ==> recalculated(#[trigger] a.nested()[i], b.nested()[i])
        &&& b@ == (ContainerView {
            records: sized_records(a@.records, a@.layout, b.nested(), a.nested().len() as int),
            scroll_h: ScrollAxis { pos: 0, ..a@.scroll_h },
            scroll_v: ScrollAxis { pos: 0, ..a@.scroll_v },
            ..a@
        })
    }
}

/// Introduces `recalculated` for a container that is not frozen.
proof fn lemma_recalculated_intro(a: WindowContainer, b: WindowContainer)
    requires
        !a@.frozen,
        b.nested().len() == a.nested().len(),
        forall|i: int| 0 <= i < a.nested().len() ==> recalculated(#[trigger] a.nested()[i], b.nested()[i]),
        b@ == (ContainerView {
            records: sized_records(a@.records, a@.layout, b.nested(), a.nested().len() as int),
            scroll_h: ScrollAxis { pos: 0, ..a@.scroll_h },
            scroll_v: ScrollAxis { pos: 0, ..a@.scroll_v },
            ..a@
        }),
    ensures
        recalculated(a, b),
{
}

proof fn lemma_sized_prefix(recs: Map<isize, ChildHolder>, l: Layout, cs1: Seq<WindowContainer>, cs2: Seq<WindowContainer>, i: int)
    requires
        0 <= i <= cs1.len(),
        i <= cs2.len(),
        forall|j: int| 0 <= j < i ==> cs1[j] == cs2[j],
    ensures
        sized_records(recs, l, cs1, i) == sized_records(recs, l, cs2, i),
    decreases i,
{
    if i > 0 {
        lemma_sized_prefix(recs, l, cs1, cs2, i - 1);
    }
}

impl WindowContainer {
    /// Writes the size `(w, h)` into the record of nested container `id`.
    fn apply_nested_size(&mut self, id: isize, w: i128, h: i128)
        ensures
            final(self)@ == (ContainerView { records: apply_size(old(self)@.records, old(self)@.layout, id, (w as int, h as int)), ..old(self)@ }),
            final(self).nested() == old(self).nested(),
    {
        let ghost v0 = self@;
        let cw = clamp_i32(w);
        let ch = clamp_i32(h);
        let rec = match map_get(&self.m_child, id) {
            Some(ChildHolder::VStack(p)) => if self.layout == Layout::VStack {
                Some(ChildHolder::VStack(VStackParam { w: cw, h: ch, ..*p }))
            } else {
                None
            },
            Some(ChildHolder::HStack(p)) => if self.layout == Layout::HStack {
                Some(ChildHolder::HStack(HStackParam { w: cw, h: ch, ..*p }))
            } else {
                None
            },
            Some(ChildHolder::Place(p)) => if self.layout == Layout::Place {
                Some(ChildHolder::Place(PlaceParam { w: cw, h: ch, span_offset_hwnd: 0, span_kind: PlaceSet::PIXEL, ..*p }))
            } else {
                None
            },
            None => None,
        };
        if let Some(c) = rec {
            map_insert(&mut self.m_child, id, c);
        }
        proof {
            assert(self@ == (ContainerView { records: apply_size(v0.records, v0.layout, id, (w as int, h as int)), ..v0 }));
        }
    }

    /// Recalculates the nested containers first, then writes each one's
    /// minimum size into its record here, so that sizes flow up the tree.
    /// Both scroll positions go to 0. Does nothing while frozen.
    pub fn recalc_layout(&mut self)
        ensures
            recalculated(*old(self), *final(self)),
        decreases *old(self),
    {
        if self.b_recalc_layout_stop {
            return;
        }
        let ghost a = *self;
        self.scr_h = ScrollAxis { pos: 0, ..self.scr_h };
        self.scr_v = ScrollAxis { pos: 0, ..self.scr_v };
        let n = self.l_child_container.len();
        let mut i: usize = 0;
        while i < n
            invariant
                a == *old(self),
                !a@.frozen,
                n == a.nested().len(),
                self.nested().len() == n,
                i <= n,
                forall|j: int| 0 <= j < i ==> #[trigger] recalculated(a.nested()[j], self.nested()[j]),
                forall|j: int| i <= j < n ==> #[trigger] self.nested()[j] == a.nested()[j],
                self@ == (ContainerView {
                    records: sized_records(a@.records, a@.layout, self.nested(), i as int),
                    scroll_h: ScrollAxis { pos: 0, ..a@.scroll_h },
                    scroll_v: ScrollAxis { pos: 0, ..a@.scroll_v },
                    ..a@
                }),
            decreases n - i,
        {
            let ghost before = self.nested();
            let mut child = WindowContainer::create(0, 0, 0);
            self.l_child_container.set_and_swap(i, &mut child);
            proof {
                assert(child == a.nested()[i as int]);
            }
            child.recalc_layout();
            let (w, h) = child.check_layout();
            let hd = child.handle;
            self.l_child_container.set_and_swap(i, &mut child);
            proof {
                lemma_sized_prefix(a@.records, a@.layout, before, self.nested(), i as int);
                assert(self.nested()[i as int]@.handle == a.nested()[i as int]@.handle);
                assert(self@.nested_ids =~= a@.nested_ids);
            }
            self.apply_nested_size(hd, w, h);
            i = i + 1;
        }
        proof {
            lemma_recalculated_intro(a, *self);
        }
    }
}


/// The size a control is registered with: a side given as -1 takes the
/// measured size of the control's text.
pub open spec fn control_size(w: i32, h: i32, text_w: i32, text_h: i32) -> (i32, i32) {
    (if w == -1 { text_w } else { w }, if h == -1 { text_h } else { h })
}

/// The size a control is registered with; `text` is the measured size of its
/// text, used for a side given as -1.
pub fn adjust_ctrl_textsize(w: i32, h: i32, text: (i32, i32)) -> (r: (i32, i32))
    ensures
        r == control_size(w, h, text.0, text.1),
{
    (if w == -1 { text.0 } else { w }, if h == -1 { text.1 } else { h })
}

/// Registers nested container `c` as an expanding child of horizontal stack
/// `wc` (no padding, filler or split) and takes it in.
pub fn init_cont_hstack(wc: &mut WindowContainer, c: WindowContainer, w: i32, h: i32, a: WidthAuto, v: AlignV) -> (r: Result<(), LayoutError>)
    ensures
        r is Ok <==> (old(wc)@.layout == Layout::Unset || old(wc)@.layout == Layout::HStack),
        r is Ok ==> final(wc)@ == (ContainerView {
            nested_ids: old(wc)@.nested_ids.push(c@.handle),
            ..registered(old(wc)@, c@.handle, ChildHolder::HStack(HStackParam { w, h, pad: 0, filler: 0, split: 0, b_auto: true, size: a, align: v }), Layout::HStack)
        }) && final(wc).nested() == old(wc).nested().push(c),
        r is Err ==> final(wc)@ == old(wc)@ && final(wc).nested() == old(wc).nested(),
        old(wc).wf() ==> final(wc).wf(),
{
    let hd = c.handle();
    let r = wc.hstack(hd, w, h, 0, 0, 0, true, a, v);
    if r.is_ok() {
        wc.create_child_container(c);
    }
    r
}

/// Registers nested container `c` as an expanding child of vertical stack
/// `wc` (no padding, filler or split) and takes it in.
pub fn init_cont_vstack(wc: &mut WindowContainer, c: WindowContainer, w: i32, h: i32, v: AlignH, a: HeightAuto) -> (r: Result<(), LayoutError>)
    ensures
        r is Ok <==> (old(wc)@.layout == Layout::Unset || old(wc)@.layout == Layout::VStack),
        r is Ok ==> final(wc)@ == (ContainerView {
            nested_ids: old(wc)@.nested_ids.push(c@.handle),
            ..registered(old(wc)@, c@.handle, ChildHolder::VStack(VStackParam { w, h, pad: 0, filler: 0, split: 0, b_auto: true, align: v, size: a }), Layout::VStack)
        }) && final(wc).nested() == old(wc).nested().push(c),
        r is Err ==> final(wc)@ == old(wc)@ && final(wc).nested() == old(wc).nested(),
        old(wc).wf() ==> final(wc).wf(),
{
    let hd = c.handle();
    let r = wc.vstack(hd, w, h, 0, 0, 0, true, v, a);
    if r.is_ok() {
        wc.create_child_container(c);
    }
    r
}

/// Registers nested container `c` as a placed child of `wc` and takes it in.
pub fn init_cont_place(
    wc: &mut WindowContainer,
    c: WindowContainer,
    x: i32,
    y: i32,
    w: i32,
    h: i32,
    pos_offset_hwnd: isize,
    span_offset_hwnd: isize,
    pos_kind: PlaceSet,
    span_kind: PlaceSet,
) -> (r: Result<(), LayoutError>)
    ensures
        r is Ok <==> (old(wc)@.layout == Layout::Unset || old(wc)@.layout == Layout::Place),
        r is Ok ==> final(wc)@ == (ContainerView {
            nested_ids: old(wc)@.nested_ids.push(c@.handle),
            ..registered(old(wc)@, c@.handle, ChildHolder::Place(PlaceParam { x, y, w, h, pos_offset_hwnd, span_offset_hwnd, pos_kind, span_kind }), Layout::Place)
        }) && final(wc).nested() == old(wc).nested().push(c),
        r is Err ==> final(wc)@ == old(wc)@ && final(wc).nested() == old(wc).nested(),
        old(wc).wf() ==> final(wc).wf(),
{
    let hd = c.handle();
    let r = wc.place(hd, x, y, w, h, pos_offset_hwnd, span_offset_hwnd, pos_kind, span_kind);
    if r.is_ok() {
        wc.create_child_container(c);
    }
    r
}

/// Registers control `hctrl` as an expanding child of horizontal stack `wc`
/// with a padding of 2; a side given as -1 takes its measured text size.
pub fn init_item_hstack(wc: &mut WindowContainer, hctrl: isize, w: i32, h: i32, text: (i32, i32), a: WidthAuto, v: AlignV) -> (r: Result<(), LayoutError>)
    ensures
        ({
            let (wf, hf) = control_size(w, h, text.0, text.1);
            &&& r is Ok <==> (old(wc)@.layout == Layout::Unset || old(wc)@.layout == Layout::HStack)
            &&& r is Ok ==> final(wc)@ == registered(old(wc)@, hctrl, ChildHolder::HStack(HStackParam { w: wf, h: hf, pad: 2, filler: 0, split: 0, b_auto: true, size: a, align: v }), Layout::HStack)
            &&& r is Err ==> final(wc)@ == old(wc)@
        }),
        final(wc).nested() == old(wc).nested(),
        old(wc).wf() ==> final(wc).wf(),
{
    let (wf, hf) = adjust_ctrl_textsize(w, h, text);
    wc.hstack(hctrl, wf, hf, 2, 0, 0, true, a, v)
}

/// Registers control `hctrl` as an expanding child of vertical stack `wc`
/// with a padding of 2; a side given as -1 takes its measured text size.
pub fn init_item_vstack(wc: &mut WindowContainer, hctrl: isize, w: i32, h: i32, text: (i32, i32), v: AlignH, a: HeightAuto) -> (r: Result<(), LayoutError>)
    ensures
        ({
            let (wf, hf) = control_size(w, h, text.0, text.1);
            &&& r is Ok <==> (old(wc)@.layout == Layout::Unset || old(wc)@.layout == Layout::VStack)
            &&& r is Ok ==> final(wc)@ == registered(old(wc)@, hctrl, ChildHolder::VStack(VStackParam { w: wf, h: hf, pad: 2, filler: 0, split: 0, b_auto: true, align: v, size: a }), Layout::VStack)
            &&& r is Err ==> final(wc)@ == old(wc)@
        }),
        final(wc).nested() == old(wc).nested(),
        old(wc).wf() ==> final(wc).wf(),
{
    let (wf, hf) = adjust_ctrl_textsize(w, h, text);
    wc.vstack(hctrl, wf, hf, 2, 0, 0, true, v, a)
}

/// Registers control `hctrl` as a placed child of `wc`.
pub fn init_item_place(
    wc: &mut WindowContainer,
    hctrl: isize,
    x: i32,
    y: i32,
    w: i32,
    h: i32,
    pos_offset_hwnd: isize,
    span_offset_hwnd: isize,
    pos_kind: PlaceSet,
    span_kind: PlaceSet,
) -> (r: Result<(), LayoutError>)
    ensures
        r is Ok <==> (old(wc)@.layout == Layout::Unset || old(wc)@.layout == Layout::Place),
        r is Ok ==> final(wc)@ == registered(old(wc)@, hctrl, ChildHolder::Place(PlaceParam { x, y, w, h, pos_offset_hwnd, span_offset_hwnd, pos_kind, span_kind }), Layout::Place),
        r is Err ==> final(wc)@ == old(wc)@,
        final(wc).nested() == old(wc).nested(),
        old(wc).wf() ==> final(wc).wf(),
{
    wc.place(hctrl, x, y, w, h, pos_offset_hwnd, span_offset_hwnd, pos_kind, span_kind)
}

} // verus!
