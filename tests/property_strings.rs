use gui_layout::property::{HotkeyType, PropertyHolder};

fn fields(p: &PropertyHolder) -> (HotkeyType, bool, u32, u32, bool, String) {
    (p.hotkey_type, p.b_icon_large, p.w, p.h, p.b_sysfile_hidden, p.path.clone())
}

#[test]
fn parse_task_list() {
    let p = PropertyHolder::parse_string("TASK,800,600,");
    assert_eq!(fields(&p), (HotkeyType::WinTaskList, false, 800, 600, true, String::new()));
    let q = PropertyHolder::parse_string("TASK,+5,6,x");
    assert_eq!(fields(&q), (HotkeyType::WinTaskList, false, 5, 6, true, String::new()));
}

#[test]
fn parse_file_list_joins_path_pieces() {
    let p = PropertyHolder::parse_string("LIST,10,20,SHOW,C:\\a,b");
    assert_eq!(fields(&p), (HotkeyType::ListLauncher, false, 10, 20, false, "C:\\ab".to_string()));
    let q = PropertyHolder::parse_string("LIST,1,2,HIDE");
    assert_eq!(fields(&q), (HotkeyType::ListLauncher, false, 1, 2, true, String::new()));
}

#[test]
fn parse_icon_view() {
    let p = PropertyHolder::parse_string("ICON,LG,1,2,SHOW,D:\\pics");
    assert_eq!(fields(&p), (HotkeyType::IconLauncher, true, 1, 2, false, "D:\\pics".to_string()));
    let q = PropertyHolder::parse_string("ICON,SM,3,4,HIDE");
    assert_eq!(fields(&q), (HotkeyType::IconLauncher, false, 3, 4, true, String::new()));
}

#[test]
fn malformed_strings_give_defaults() {
    let default = (HotkeyType::ListLauncher, false, 0, 0, true, String::new());
    for s in [
        "",
        "TASK,1,2",
        "TASK,1,2,,",
        "TASK,-5,6,",
        "TASK,4294967296,1,",
        "TASK,+,1,",
        "LIST,1,2,MAYBE",
        "ICON,XX,1,2,SHOW",
        "ICON,LG,1,2",
        "task,1,2,",
    ] {
        assert_eq!(fields(&PropertyHolder::parse_string(s)), default, "{}", s);
    }
    let max = PropertyHolder::parse_string("TASK,4294967295,0,");
    assert_eq!(max.w, u32::MAX);
    let d = PropertyHolder::default();
    assert_eq!(fields(&d), default);
}

#[test]
fn format_each_kind() {
    let icon = PropertyHolder::new(HotkeyType::IconLauncher, true, 300, 200, false, "C:\\x".to_string());
    assert_eq!(icon.to_string(), "ICON,LG,300,200,SHOW,C:\\x");
    let small = PropertyHolder::new(HotkeyType::IconLauncher, false, 0, 7, true, String::new());
    assert_eq!(small.to_string(), "ICON,SM,0,7,HIDE");
    let task = PropertyHolder::new(HotkeyType::WinTaskList, true, 5, 6, false, "ignored".to_string());
    assert_eq!(task.to_string(), "TASK,5,6,");
    let list = PropertyHolder::new(HotkeyType::ListLauncher, false, 4294967295, 10, true, "p".to_string());
    assert_eq!(list.to_string(), "LIST,4294967295,10,HIDE,p");
}

#[test]
fn format_then_parse_round_trip() {
    let samples = [
        PropertyHolder::new(HotkeyType::IconLauncher, true, 300, 200, false, "C:\\x".to_string()),
        PropertyHolder::new(HotkeyType::ListLauncher, false, 12, 34, true, String::new()),
        PropertyHolder::new(HotkeyType::WinTaskList, false, 640, 480, true, String::new()),
    ];
    for p in samples.iter() {
        assert_eq!(fields(&PropertyHolder::parse_string(&p.to_string())), fields(p));
    }
}

fn lines(v: &[&str]) -> Vec<String> {
    v.iter().map(|s| s.to_string()).collect()
}

#[test]
fn settings_line_replaced() {
    assert_eq!(PropertyHolder::update_dir_param(&lines(&[]), "P".to_string()), lines(&["P"]));
    assert_eq!(PropertyHolder::update_dir_param(&lines(&["old"]), "P".to_string()), lines(&["P"]));
    assert_eq!(PropertyHolder::update_dir_param(&lines(&["old", "a", "b"]), "P".to_string()), lines(&["P", "a", "b"]));
}

#[test]
fn sort_order_stored() {
    let sort = lines(&["x", "y"]);
    assert_eq!(PropertyHolder::store_filesort_param(false, &lines(&[]), &sort), None);
    assert_eq!(PropertyHolder::store_filesort_param(true, &lines(&[]), &sort), Some(lines(&["LIST,0,0,HIDE", "x", "y"])));
    assert_eq!(PropertyHolder::store_filesort_param(false, &lines(&["S", "a"]), &sort), Some(lines(&["S"])));
    assert_eq!(PropertyHolder::store_filesort_param(false, &lines(&["S", "a", "b"]), &sort), Some(lines(&["S", "x", "y"])));
    assert_eq!(PropertyHolder::store_filesort_param(true, &lines(&["S"]), &sort), Some(lines(&["S", "x", "y"])));
}

#[test]
fn sort_order_reset() {
    assert_eq!(PropertyHolder::sort_reset(&lines(&["S"])), None);
    assert_eq!(PropertyHolder::sort_reset(&lines(&[])), None);
    assert_eq!(PropertyHolder::sort_reset(&lines(&["S", "a", "b"])), Some(lines(&["S"])));
}

#[test]
fn tray_icon_setting() {
    assert_eq!(PropertyHolder::load_notify_icon_param(""), None);
    assert_eq!(PropertyHolder::load_notify_icon_param("C:\\app.exe"), Some(("C:\\app.exe".to_string(), -1)));
    assert_eq!(PropertyHolder::load_notify_icon_param("shell32.dll|15"), Some(("shell32.dll".to_string(), 15)));
    assert_eq!(PropertyHolder::load_notify_icon_param("a|-3"), Some(("a".to_string(), -3)));
    assert_eq!(PropertyHolder::load_notify_icon_param("a|+7|9"), Some(("a".to_string(), 7)));
    assert_eq!(PropertyHolder::load_notify_icon_param("a|x"), Some(("a".to_string(), -1)));
    assert_eq!(PropertyHolder::load_notify_icon_param("a|-2147483648"), Some(("a".to_string(), i32::MIN)));
    assert_eq!(PropertyHolder::load_notify_icon_param("a|2147483648"), Some(("a".to_string(), -1)));
    assert_eq!(PropertyHolder::load_notify_icon_param("a|-"), Some(("a".to_string(), -1)));
    assert_eq!(PropertyHolder::load_notify_icon_param("|5"), Some((String::new(), 5)));
}
