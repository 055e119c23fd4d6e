use gui_layout::container::{AlignH, AlignV, HeightAuto, PlaceSet, WidthAuto, WindowContainer};
use gui_layout::hotkey::{hotkey_str2u16, int2hotkey_str};
use gui_layout::records::{DlgType, DirPropertyPanel, WinSortList, WindowInfo};
use gui_layout::scroll::{negotiate, ScrollCommand};

#[test]
fn offset_placement_overlaps_its_reference() {
    let mut c = WindowContainer::create(1, 100, 100);
    assert!(c.place(10, 10, 10, 20, 20, 0, 0, PlaceSet::PIXEL, PlaceSet::PIXEL).is_ok());
    assert!(c.place(11, 0, 0, 20, 20, 10, 0, PlaceSet::OFFSET, PlaceSet::PIXEL).is_ok());
    let (vw, vh, ps) = c.layout_place(false, 0, 0);
    assert_eq!(c.get_child_rect(10), (10, 10, 30, 30));
    assert_eq!(c.get_child_rect(11), (10, 10, 30, 30));
    assert_eq!((ps[1].x, ps[1].y, ps[1].w, ps[1].h), (10, 10, 20, 20));
    assert_eq!((vw, vh), (30, 30));

    assert!(c.place(11, 5, 0, 20, 20, 10, 0, PlaceSet::OFFSET, PlaceSet::PIXEL).is_ok());
    let _ = c.layout_place(false, 0, 0);
    assert_eq!(c.get_child_rect(11).0, 15);
    assert_eq!(c.get_child_rect(11), (15, 10, 35, 30));
}

#[test]
fn offset_span_adds_to_reference_size() {
    let mut c = WindowContainer::create(1, 100, 100);
    assert!(c.place(10, 10, 10, 20, 30, 0, 0, PlaceSet::PIXEL, PlaceSet::PIXEL).is_ok());
    assert!(c.place(11, 50, 0, 5, -2, 0, 10, PlaceSet::PIXEL, PlaceSet::OFFSET).is_ok());
    let (vw, vh, _) = c.layout_place(false, 0, 0);
    assert_eq!(c.get_child_rect(11), (50, 0, 75, 28));
    assert_eq!((vw, vh), (75, 40));
}

#[test]
fn relative_placement_scales_and_rounds() {
    let mut c = WindowContainer::create(1, 200, 100);
    assert!(c.place(10, 5000, 5000, 2500, 2500, 0, 0, PlaceSet::REL, PlaceSet::REL).is_ok());
    assert!(c.place(11, 3333, -5000, 0, 0, 0, 0, PlaceSet::REL, PlaceSet::PIXEL).is_ok());
    let (_, _, ps) = c.layout_place(false, 0, 0);
    assert_eq!((ps[0].x, ps[0].y, ps[0].w, ps[0].h), (100, 50, 50, 25));
    // 200 * 0.3333 = 66.66 -> 67; 100 * -0.5 = -50
    assert_eq!((ps[1].x, ps[1].y), (67, -50));

    let mut d = WindowContainer::create(1, 1, 3);
    assert!(d.place(10, 5000, -5000, 0, 0, 0, 0, PlaceSet::REL, PlaceSet::PIXEL).is_ok());
    let (_, _, ps) = d.layout_place(false, 0, 0);
    // halves round away from zero: 0.5 -> 1, -1.5 -> -2
    assert_eq!((ps[0].x, ps[0].y), (1, -2));
}

#[test]
fn place_min_check_reads_current_rectangles() {
    let mut c = WindowContainer::create(1, 100, 100);
    assert!(c.place(10, 10, 10, 20, 20, 0, 0, PlaceSet::PIXEL, PlaceSet::PIXEL).is_ok());
    assert!(c.place(11, 0, 0, 0, 0, 10, 10, PlaceSet::OFFSET, PlaceSet::OFFSET).is_ok());
    // before any real pass the reference has an empty rectangle at the origin
    assert_eq!(c.check_layout(), (30, 30));
    let _ = c.layout_place(false, 0, 0);
    assert_eq!(c.check_layout(), (30, 30));
    assert_eq!(c.get_child_rect(11), (10, 10, 30, 30));
}

#[test]
fn nested_min_size_propagates() {
    let mut inner = WindowContainer::create(5, 0, 0);
    assert!(inner.hstack(20, 5, 5, 0, 0, 0, false, WidthAuto::FIX, AlignV::TOP).is_ok());
    assert!(inner.hstack(21, 5, 5, 0, 0, 0, false, WidthAuto::FIX, AlignV::TOP).is_ok());
    assert_eq!(inner.check_layout(), (10, 5));

    let mut outer = WindowContainer::create(1, 100, 100);
    assert!(outer.vstack(2, 20, 7, 0, 0, 0, false, AlignH::LEFT, HeightAuto::FIX).is_ok());
    assert!(outer.vstack(5, 0, 0, 0, 0, 0, true, AlignH::LEFT, HeightAuto::FIX).is_ok());
    outer.create_child_container(inner);
    assert_eq!(outer.check_layout(), (20, 7));
    outer.recalc_layout();
    assert_eq!(outer.get_vstack_param(5), (10, 5, 0, 0, 0, true, AlignH::LEFT, HeightAuto::FIX));
    assert_eq!(outer.check_layout(), (20, 12));
}

#[test]
fn nested_propagation_through_three_levels() {
    let mut leaf = WindowContainer::create(7, 0, 0);
    assert!(leaf.vstack(30, 8, 4, 1, 0, 0, false, AlignH::LEFT, HeightAuto::FIX).is_ok());
    let mut mid = WindowContainer::create(6, 0, 0);
    assert!(mid.hstack(7, 0, 0, 0, 0, 0, true, WidthAuto::FIX, AlignV::TOP).is_ok());
    assert!(mid.hstack(31, 3, 3, 0, 0, 0, false, WidthAuto::FIX, AlignV::TOP).is_ok());
    mid.create_child_container(leaf);
    let mut top = WindowContainer::create(1, 0, 0);
    assert!(top.place(6, 4, 4, 0, 0, 0, 0, PlaceSet::PIXEL, PlaceSet::PIXEL).is_ok());
    top.create_child_container(mid);
    top.recalc_layout();
    // leaf: (8 + 2, 4 + 2); mid: (10 + 3, 6); top: placed at (4, 4)
    assert_eq!(top.get_place_param(6), (4, 4, 13, 6, 0, 0, PlaceSet::PIXEL, PlaceSet::PIXEL));
    assert_eq!(top.check_layout(), (17, 10));
}

#[test]
fn frozen_container_skips_recalc() {
    let mut inner = WindowContainer::create(5, 0, 0);
    assert!(inner.hstack(20, 5, 5, 0, 0, 0, false, WidthAuto::FIX, AlignV::TOP).is_ok());
    let mut outer = WindowContainer::create(1, 100, 100);
    assert!(outer.vstack(5, 0, 0, 0, 0, 0, true, AlignH::LEFT, HeightAuto::FIX).is_ok());
    outer.create_child_container(inner);
    outer.recalc_layout_stop(true);
    outer.recalc_layout();
    assert_eq!(outer.get_vstack_param(5).0, 0);
    outer.recalc_layout_stop(false);
    outer.recalc_layout();
    assert_eq!(outer.get_vstack_param(5).0, 5);
}

#[test]
fn removing_a_nested_container() {
    let inner = WindowContainer::create(5, 0, 0);
    let mut outer = WindowContainer::create(1, 100, 100);
    assert!(outer.vstack(5, 3, 3, 0, 0, 0, true, AlignH::LEFT, HeightAuto::FIX).is_ok());
    outer.create_child_container(inner);
    assert!(outer.remove_child(5));
    outer.recalc_layout();
    assert_eq!(outer.check_layout(), (0, 0));
}

#[test]
fn negotiation_reaches_both_scrollbars() {
    // only the horizontal bar is needed at first; it makes the vertical one needed
    assert_eq!(negotiate(105, 95, 100, 100, 10, 10), (true, true, 90, 90));
    assert_eq!(negotiate(95, 105, 100, 100, 10, 10), (true, true, 90, 90));
    assert_eq!(negotiate(95, 95, 100, 100, 10, 10), (false, false, 100, 100));
    assert_eq!(negotiate(105, 85, 100, 100, 10, 10), (true, false, 100, 90));
    assert_eq!(negotiate(100, 100, 100, 100, 10, 10), (false, false, 100, 100));
}

fn scrolled_container() -> WindowContainer {
    let mut c = WindowContainer::create(1, 100, 100);
    c.set_scrollbar_size(10, 10);
    assert!(c.vstack(2, 95, 105, 0, 0, 0, false, AlignH::LEFT, HeightAuto::FIX).is_ok());
    let out = c.update_layout();
    assert_eq!(out.placements.len(), 1);
    assert_eq!((out.shift_h, out.shift_v), (0, 0));
    c
}

#[test]
fn update_layout_sets_field_and_pages() {
    let c = scrolled_container();
    assert_eq!(c.get_field_size(), (95, 105));
    assert_eq!(c.get_scrollpos(), (0, 0));
}

#[test]
fn scroll_commands_stay_in_range() {
    let mut c = scrolled_container();
    // vertical: max 104, page 90, so positions run 0..=15
    assert_eq!(c.scroll(true, ScrollCommand::Bottom), -15);
    assert_eq!(c.get_scrollpos(), (0, 15));
    assert_eq!(c.scroll(true, ScrollCommand::LineDown), 0);
    assert_eq!(c.scroll(true, ScrollCommand::LineUp), 1);
    assert_eq!(c.get_scrollpos().1, 14);
    assert_eq!(c.scroll(true, ScrollCommand::PageUp), 14);
    assert_eq!(c.scroll(true, ScrollCommand::PageDown), -15);
    assert_eq!(c.scroll(true, ScrollCommand::Thumb(7)), 8);
    assert_eq!(c.get_scrollpos().1, 7);
    let _ = c.scroll(true, ScrollCommand::Thumb(1000));
    assert_eq!(c.get_scrollpos().1, 15);
    assert_eq!(c.scroll(true, ScrollCommand::Top), 15);
    assert_eq!(c.get_scrollpos().1, 0);
    // horizontal: max 94, page 90, so positions run 0..=5
    assert_eq!(c.scroll(false, ScrollCommand::Bottom), -5);
    assert_eq!(c.get_scrollpos(), (5, 0));
}

#[test]
fn wheel_moves_a_tenth_of_a_page() {
    let mut c = scrolled_container();
    assert_eq!(c.wheel(true, -120), Some(-9));
    assert_eq!(c.get_scrollpos().1, 9);
    assert_eq!(c.wheel(true, -240), Some(-6));
    assert_eq!(c.get_scrollpos().1, 15);
    assert_eq!(c.wheel(true, 119), Some(0));
    assert_eq!(c.wheel(false, 240), Some(-5));
    assert_eq!(c.get_scrollpos().0, 5);
}

#[test]
fn wheel_without_range_is_passed_on() {
    let mut c = WindowContainer::create(1, 100, 100);
    assert!(c.vstack(2, 50, 50, 0, 0, 0, false, AlignH::LEFT, HeightAuto::FIX).is_ok());
    let _ = c.update_layout();
    assert_eq!(c.wheel(true, -120), None);
    assert_eq!(c.wheel(false, 120), None);
}

#[test]
fn resize_resets_scroll_when_content_fits() {
    let mut c = scrolled_container();
    let _ = c.scroll(true, ScrollCommand::Thumb(10));
    let out = c.resize(200, 200);
    assert_eq!(out.shift_v, 10);
    assert_eq!(c.get_scrollpos(), (0, 0));
    assert_eq!(out.placements[0].y, -10);
}

#[test]
fn set_param_relayouts() {
    let mut c = WindowContainer::create(1, 100, 100);
    assert!(c.vstack(2, 10, 10, 0, 0, 0, false, AlignH::LEFT, HeightAuto::FIX).is_ok());
    let out = c.set_vstack_param(2, 10, 30, 1, 0, 0, false, AlignH::RIGHT, HeightAuto::FIX).unwrap();
    assert_eq!(out.placements[0].h, 30);
    assert_eq!(c.get_child_rect(2), (1, 1, 11, 31));
    assert!(c.set_vstack_param(3, 1, 1, 0, 0, 0, false, AlignH::LEFT, HeightAuto::FIX).is_none());
    assert!(c.set_hstack_param(2, 1, 1, 0, 0, 0, false, WidthAuto::FIX, AlignV::TOP).is_none());
    assert!(c.set_place_param(2, 1, 1, 1, 1, 0, 0, PlaceSet::PIXEL, PlaceSet::PIXEL).is_none());
    assert_eq!(c.get_field_size(), (12, 32));
}

#[test]
fn hotkey_codes_round_trip() {
    assert_eq!(hotkey_str2u16("AS"), 65 + 256 * 83);
    assert_eq!(hotkey_str2u16("A"), usize::MAX);
    assert_eq!(hotkey_str2u16("ABC"), usize::MAX);
    assert_eq!(int2hotkey_str(65 + 256 * 83), "AS");
    assert_eq!(int2hotkey_str(hotkey_str2u16("N0")), "N0");
    assert_eq!(int2hotkey_str(0x1_4241), "AB");
}

#[test]
fn plain_records() {
    let w = WindowInfo { group_type: 2, handle: 9, proc_img_fname: "a.exe".to_string(), title: "t".to_string() };
    let v = vec![WinSortList::IMGFILE(w.proc_img_fname.clone()), WinSortList::WILDCARD("*.exe".to_string())];
    assert_eq!(v.len(), 2);
    assert_eq!(w.clone().handle, 9);
    assert!(DlgType::Rename != DlgType::SortEdit);
    let p = DirPropertyPanel { hparent: 3, b_path_edit: true };
    assert_eq!(p, DirPropertyPanel { hparent: 3, b_path_edit: true });
}
