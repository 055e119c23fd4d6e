//! Plain records that the surrounding windows hand to one another.
use vstd::prelude::*;

verus! {

/// One entry of the window sort order: an executable image name, or a
/// pattern with `*` wildcards.
#[derive(Clone, Debug)]
pub enum WinSortList {
    IMGFILE(String),
    WILDCARD(String),
}

/// Which property dialog to open.
#[derive(Clone, Copy, PartialEq, Eq, Structural, Debug)]
pub enum DlgType {
    Rename,
    DirProperty,
    SortEdit,
}

/// A top-level window as the window list shows it.
#[derive(Clone, Debug)]
pub struct WindowInfo {
    /// 0: grouped by process with a fixed place; 1: grouped by process, not
    /// fixed; 2: temporary.
    pub group_type: u32,
    pub handle: isize,
    pub proc_img_fname: String,
    pub title: String,
}

/// The directory settings panel: the surface it lives in and whether its
/// path can be edited.
#[derive(Clone, Copy, PartialEq, Eq, Structural, Debug)]
pub struct DirPropertyPanel {
    pub hparent: isize,
    pub b_path_edit: bool,
}

/// A window that the main window shows one at a time and closes on request.
pub trait ViewWindow {
    fn close(&self);

    fn is_close_blocking(&self) -> bool;
}

/// The window sort editor as its dialog sees it.
pub trait WinSortEditCtrlBehavior {
    fn get_size(&self) -> (i32, i32);

    fn get_sortlist(&self) -> Vec<String>;
}

} // verus!
