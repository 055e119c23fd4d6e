use gui_layout::container::{AlignH, AlignV, HeightAuto, LayoutError, Placement, WidthAuto, WindowContainer};

fn vchild(c: &mut WindowContainer, id: isize, w: i32, h: i32, pad: i32, filler: i32, split: i32, b_auto: bool, align: AlignH, size: HeightAuto) {
    assert!(c.vstack(id, w, h, pad, filler, split, b_auto, align, size).is_ok());
}

fn heights(ps: &[Placement]) -> Vec<i32> {
    ps.iter().map(|p| p.h).collect()
}

#[test]
fn remainder_goes_to_last_expanding_child() {
    let mut c = WindowContainer::create(1, 50, 100);
    for id in 10..13 {
        vchild(&mut c, id, 10, 10, 0, 0, 0, true, AlignH::LEFT, HeightAuto::AUTO);
    }
    let (vw, vh, ps) = c.layout_vstack(false, 0, 0);
    assert_eq!(heights(&ps), vec![33, 33, 34]);
    assert_eq!(ps.iter().map(|p| p.y).collect::<Vec<_>>(), vec![0, 33, 66]);
    assert_eq!(ps.iter().map(|p| p.h).sum::<i32>(), 100);
    assert_eq!((vw, vh), (10, 100));
}

#[test]
fn free_space_seventy_splits_as_twenty_three_and_twenty_four() {
    // Three expanding children of minimum height 10 in a content height of
    // 100: 70 free pixels over three children.
    let mut c = WindowContainer::create(1, 50, 100);
    for id in 10..13 {
        vchild(&mut c, id, 10, 10, 0, 0, 0, true, AlignH::LEFT, HeightAuto::AUTO);
    }
    let (_, vh, ps) = c.layout_vstack(false, 0, 0);
    let extra: Vec<i32> = ps.iter().map(|p| p.h - 10).collect();
    assert_eq!(extra, vec![23, 23, 24]);
    assert_eq!(vh, 100);
}

#[test]
fn min_check_is_pure_and_repeatable() {
    let mut c = WindowContainer::create(1, 50, 100);
    vchild(&mut c, 10, 12, 10, 2, 5, 1, false, AlignH::LEFT, HeightAuto::AUTO);
    vchild(&mut c, 11, 8, 20, 0, 0, 3, true, AlignH::LEFT, HeightAuto::AUTO);
    let before = c.get_child_rect(10);
    let first = c.layout_vstack(true, 0, 0);
    let second = c.layout_vstack(true, 0, 0);
    assert_eq!((first.0, first.1), (16, 10 + 4 + 1 + 5 + 20 + 3));
    assert_eq!((first.0, first.1), (second.0, second.1));
    assert!(first.2.is_empty());
    assert_eq!(c.check_layout(), (16, 43));
    assert_eq!(c.check_layout(), c.check_layout());
    assert_eq!(c.get_child_rect(10), before);
    assert_eq!(c.get_scrollpos(), (0, 0));
}

#[test]
fn filler_and_fixed_children() {
    let mut c = WindowContainer::create(1, 40, 200);
    vchild(&mut c, 1, 10, 10, 0, 7, 0, false, AlignH::LEFT, HeightAuto::AUTO);
    vchild(&mut c, 2, 10, 15, 0, 7, 0, false, AlignH::LEFT, HeightAuto::FIX);
    vchild(&mut c, 3, 10, 5, 1, 0, 2, true, AlignH::LEFT, HeightAuto::AUTO);
    let (_, vh, ps) = c.layout_vstack(false, 0, 0);
    // minimum: (10 + 7) + 15 + (5 + 2 + 2) = 41, free 159 to the expanding child
    assert_eq!(heights(&ps), vec![17, 15, 164]);
    assert_eq!(ps.iter().map(|p| p.y).collect::<Vec<_>>(), vec![0, 17, 33]);
    assert_eq!(vh, 200);
}

#[test]
fn no_free_space_when_content_is_small() {
    let mut c = WindowContainer::create(1, 40, 5);
    vchild(&mut c, 1, 10, 10, 0, 0, 0, true, AlignH::LEFT, HeightAuto::AUTO);
    vchild(&mut c, 2, 10, 10, 0, 0, 0, true, AlignH::LEFT, HeightAuto::AUTO);
    let (_, vh, ps) = c.layout_vstack(false, 0, 0);
    assert_eq!(heights(&ps), vec![10, 10]);
    assert_eq!(vh, 20);
}

#[test]
fn horizontal_alignments() {
    let mut c = WindowContainer::create(1, 100, 100);
    vchild(&mut c, 1, 30, 5, 2, 0, 0, false, AlignH::LEFT, HeightAuto::FIX);
    vchild(&mut c, 2, 10, 5, 2, 0, 0, false, AlignH::RIGHT, HeightAuto::FIX);
    vchild(&mut c, 3, 10, 5, 0, 0, 0, false, AlignH::CENTER, HeightAuto::FIX);
    vchild(&mut c, 4, 10, 5, 3, 0, 0, false, AlignH::FILL, HeightAuto::FIX);
    let (vw, _, ps) = c.layout_vstack(false, 0, 0);
    assert_eq!(vw, 34);
    assert_eq!((ps[0].x, ps[0].w), (2, 30));
    assert_eq!((ps[1].x, ps[1].w), (34 - 2 - 10, 10));
    assert_eq!((ps[2].x, ps[2].w), (17 - 5, 10));
    assert_eq!((ps[3].x, ps[3].w), (3, 34 - 6));
}

#[test]
fn expand_alignment_widens_to_content() {
    let mut c = WindowContainer::create(1, 100, 100);
    vchild(&mut c, 1, 30, 5, 2, 0, 0, false, AlignH::EXPAND, HeightAuto::FIX);
    let (vw, _, ps) = c.layout_vstack(false, 0, 0);
    assert_eq!(vw, 100);
    assert_eq!((ps[0].x, ps[0].w), (2, 96));
}

#[test]
fn center_clamps_to_pad() {
    let mut c = WindowContainer::create(1, 10, 100);
    vchild(&mut c, 1, 30, 5, 0, 0, 0, false, AlignH::CENTER, HeightAuto::FIX);
    let (_, _, ps) = c.layout_vstack(false, 0, 0);
    assert_eq!(ps[0].x, 0);

    let mut d = WindowContainer::create(1, 10, 100);
    vchild(&mut d, 1, 50, 5, -10, 0, 0, false, AlignH::CENTER, HeightAuto::FIX);
    let (vw, _, ps) = d.layout_vstack(false, 0, 0);
    assert_eq!(vw, 30);
    assert_eq!(ps[0].x, -10);

    let mut e = WindowContainer::create(1, 10, 100);
    vchild(&mut e, 1, 31, 5, 4, 0, 0, false, AlignH::CENTER, HeightAuto::FIX);
    let (_, _, ps) = e.layout_vstack(false, 0, 0);
    assert!(ps[0].x >= 0);
    assert_eq!(ps[0].x, 19 - 15);
}

#[test]
fn scroll_offsets_shift_placements() {
    let mut c = WindowContainer::create(1, 40, 40);
    vchild(&mut c, 1, 10, 10, 1, 0, 0, false, AlignH::LEFT, HeightAuto::FIX);
    vchild(&mut c, 2, 10, 10, 1, 0, 0, false, AlignH::LEFT, HeightAuto::FIX);
    let (_, _, ps) = c.layout_vstack(false, 5, 3);
    assert_eq!((ps[0].x, ps[0].y), (1 - 3, 1 - 5));
    assert_eq!((ps[1].x, ps[1].y), (1 - 3, 13 - 5));
    // the kept rectangles are unscrolled
    assert_eq!(c.get_child_rect(2), (1, 13, 11, 23));
}

#[test]
fn hstack_is_the_transposed_vstack() {
    let mut c = WindowContainer::create(1, 100, 30);
    for id in 1..4 {
        assert!(c.hstack(id, 10, 8, 0, 0, 0, true, WidthAuto::AUTO, AlignV::BOTTOM).is_ok());
    }
    let (vw, vh, ps) = c.layout_hstack(false, 0, 0);
    assert_eq!(ps.iter().map(|p| p.w).collect::<Vec<_>>(), vec![33, 33, 34]);
    assert_eq!(ps.iter().map(|p| p.x).collect::<Vec<_>>(), vec![0, 33, 66]);
    assert_eq!(ps.iter().map(|p| p.y).collect::<Vec<_>>(), vec![0, 0, 0]);
    assert_eq!((vw, vh), (100, 8));
    assert_eq!(c.check_layout(), (30, 8));
}

#[test]
fn mixing_modes_is_refused() {
    let mut c = WindowContainer::create(1, 100, 30);
    vchild(&mut c, 1, 10, 10, 0, 0, 0, true, AlignH::LEFT, HeightAuto::AUTO);
    assert_eq!(c.hstack(2, 1, 1, 0, 0, 0, true, WidthAuto::AUTO, AlignV::TOP), Err(LayoutError::InvalidMode));
    assert_eq!(c.place(3, 0, 0, 1, 1, 0, 0, gui_layout::container::PlaceSet::PIXEL, gui_layout::container::PlaceSet::PIXEL), Err(LayoutError::InvalidMode));
    assert_eq!(c.get_hstack_param(2), (0, 0, 0, 0, 0, true, WidthAuto::AUTO, AlignV::TOP));
    let (_, _, ps) = c.layout_vstack(false, 0, 0);
    assert_eq!(ps.len(), 1);
}

#[test]
fn registering_twice_replaces_the_record() {
    let mut c = WindowContainer::create(1, 100, 30);
    vchild(&mut c, 1, 10, 10, 0, 0, 0, true, AlignH::LEFT, HeightAuto::AUTO);
    vchild(&mut c, 2, 10, 10, 0, 0, 0, true, AlignH::LEFT, HeightAuto::AUTO);
    vchild(&mut c, 1, 20, 4, 0, 0, 0, false, AlignH::RIGHT, HeightAuto::FIX);
    assert_eq!(c.get_vstack_param(1), (20, 4, 0, 0, 0, false, AlignH::RIGHT, HeightAuto::FIX));
    let (_, _, ps) = c.layout_vstack(false, 0, 0);
    assert_eq!(ps.iter().map(|p| p.id).collect::<Vec<_>>(), vec![1, 2]);
}

#[test]
fn removal_is_atomic() {
    let mut c = WindowContainer::create(1, 100, 90);
    vchild(&mut c, 1, 10, 10, 0, 0, 0, true, AlignH::LEFT, HeightAuto::AUTO);
    vchild(&mut c, 2, 12, 10, 0, 0, 0, true, AlignH::RIGHT, HeightAuto::FIX);
    vchild(&mut c, 3, 10, 10, 0, 0, 0, true, AlignH::LEFT, HeightAuto::AUTO);
    assert_eq!(c.get_vstack_param(2), (12, 10, 0, 0, 0, true, AlignH::RIGHT, HeightAuto::FIX));
    let _ = c.layout_vstack(false, 0, 0);
    assert!(c.remove_child(2));
    assert_eq!(c.get_vstack_param(2), (0, 0, 0, 0, 0, true, AlignH::LEFT, HeightAuto::AUTO));
    assert_eq!(c.get_child_rect(2), (0, 0, 0, 0));
    assert!(!c.remove_child(2));
    let (_, _, ps) = c.layout_vstack(false, 0, 0);
    assert_eq!(ps.iter().map(|p| p.id).collect::<Vec<_>>(), vec![1, 3]);
    assert_eq!(heights(&ps), vec![45, 45]);
}

#[test]
fn unknown_child_reads_default() {
    let c = WindowContainer::create(1, 100, 90);
    assert_eq!(c.get_vstack_param(7), (0, 0, 0, 0, 0, true, AlignH::LEFT, HeightAuto::AUTO));
    assert_eq!(c.check_layout(), (0, 0));
}
