use gui_layout::container::{
    adjust_ctrl_textsize, init_cont_hstack, init_cont_place, init_cont_vstack, init_item_hstack, init_item_place,
    init_item_vstack, AlignH, AlignV, HeightAuto, LayoutError, PlaceSet, WidthAuto, WindowContainer,
};

#[test]
fn text_size_fills_only_missing_sides() {
    assert_eq!(adjust_ctrl_textsize(-1, -1, (40, 12)), (40, 12));
    assert_eq!(adjust_ctrl_textsize(30, -1, (40, 12)), (30, 12));
    assert_eq!(adjust_ctrl_textsize(-1, 9, (40, 12)), (40, 9));
    assert_eq!(adjust_ctrl_textsize(5, 6, (40, 12)), (5, 6));
}

#[test]
fn item_helpers_register_with_padding() {
    let mut c = WindowContainer::create(1, 100, 100);
    assert!(init_item_vstack(&mut c, 7, -1, 20, (33, 11), AlignH::CENTER, HeightAuto::FIX).is_ok());
    assert_eq!(c.get_vstack_param(7), (33, 20, 2, 0, 0, true, AlignH::CENTER, HeightAuto::FIX));
    assert_eq!(init_item_hstack(&mut c, 8, 1, 1, (0, 0), WidthAuto::FIX, AlignV::TOP), Err(LayoutError::InvalidMode));
    assert_eq!(init_item_place(&mut c, 9, 1, 1, 1, 1, 0, 0, PlaceSet::PIXEL, PlaceSet::PIXEL), Err(LayoutError::InvalidMode));

    let mut h = WindowContainer::create(2, 100, 100);
    assert!(init_item_hstack(&mut h, 8, 10, -1, (0, 14), WidthAuto::AUTO, AlignV::BOTTOM).is_ok());
    assert_eq!(h.get_hstack_param(8), (10, 14, 2, 0, 0, true, WidthAuto::AUTO, AlignV::BOTTOM));

    let mut p = WindowContainer::create(3, 100, 100);
    assert!(init_item_place(&mut p, 9, 1, 2, 3, 4, 0, 0, PlaceSet::PIXEL, PlaceSet::PIXEL).is_ok());
    assert_eq!(p.get_place_param(9), (1, 2, 3, 4, 0, 0, PlaceSet::PIXEL, PlaceSet::PIXEL));
}

#[test]
fn container_helpers_adopt_nested_containers() {
    let mut outer = WindowContainer::create(1, 100, 100);
    let mut inner = WindowContainer::create(5, 0, 0);
    assert!(inner.vstack(50, 6, 4, 0, 0, 0, false, AlignH::LEFT, HeightAuto::FIX).is_ok());
    assert!(init_cont_vstack(&mut outer, inner, 0, 0, AlignH::FILL, HeightAuto::FIX).is_ok());
    assert_eq!(outer.get_vstack_param(5), (0, 0, 0, 0, 0, true, AlignH::FILL, HeightAuto::FIX));
    outer.recalc_layout();
    assert_eq!(outer.get_vstack_param(5).0, 6);
    assert_eq!(outer.get_vstack_param(5).1, 4);

    let refused = WindowContainer::create(6, 0, 0);
    assert_eq!(init_cont_hstack(&mut outer, refused, 1, 1, WidthAuto::FIX, AlignV::TOP), Err(LayoutError::InvalidMode));
    // the refused container was not taken in: no record, no nested size
    outer.recalc_layout();
    assert_eq!(outer.get_hstack_param(6), (0, 0, 0, 0, 0, true, WidthAuto::AUTO, AlignV::TOP));

    let mut row = WindowContainer::create(2, 100, 100);
    let cell = WindowContainer::create(8, 0, 0);
    assert!(init_cont_hstack(&mut row, cell, 3, 3, WidthAuto::AUTO, AlignV::FILL).is_ok());
    assert_eq!(row.get_hstack_param(8), (3, 3, 0, 0, 0, true, WidthAuto::AUTO, AlignV::FILL));

    let mut board = WindowContainer::create(3, 100, 100);
    let tile = WindowContainer::create(9, 0, 0);
    assert!(init_cont_place(&mut board, tile, 4, 5, 6, 7, 0, 1, PlaceSet::PIXEL, PlaceSet::OFFSET).is_ok());
    board.recalc_layout();
    // the empty tile's minimum size is written back in pixels
    assert_eq!(board.get_place_param(9), (4, 5, 0, 0, 0, 0, PlaceSet::PIXEL, PlaceSet::PIXEL));
}

#[test]
fn nested_container_follows_its_window_size() {
    let mut outer = WindowContainer::create(1, 100, 100);
    let mut inner = WindowContainer::create(5, 0, 0);
    assert!(inner.hstack(50, 10, 10, 0, 0, 0, true, WidthAuto::AUTO, AlignV::TOP).is_ok());
    assert!(inner.hstack(51, 10, 10, 0, 0, 0, true, WidthAuto::AUTO, AlignV::TOP).is_ok());
    assert!(init_cont_vstack(&mut outer, inner, 0, 0, AlignH::FILL, HeightAuto::FIX).is_ok());
    let out = outer.resize_nested(5, 61, 10).unwrap();
    assert_eq!(out.placements.iter().map(|p| p.w).collect::<Vec<_>>(), vec![30, 31]);
    assert_eq!(out.placements.iter().map(|p| p.x).collect::<Vec<_>>(), vec![0, 30]);
    assert!(outer.resize_nested(99, 1, 1).is_none());
}
