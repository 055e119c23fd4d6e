use gui_layout::records::WinSortList;
use gui_layout::wildcard::{compare_wildcard, contains_procimg_list, contains_window_sort_list, winsort_from_lines, winsort_to_lines};

#[test]
fn wildcard_suffix_and_prefix() {
    assert!(compare_wildcard("notepad.exe", "*.exe"));
    assert!(compare_wildcard("notepad.exe", "note*"));
    assert!(!compare_wildcard("notepad.exe", "*.txt"));
    assert!(compare_wildcard("a.exe.exe", "*.exe"));
}

#[test]
fn wildcard_middle_pieces() {
    assert!(compare_wildcard("abc", "a*c"));
    assert!(!compare_wildcard("abcd", "a*c"));
    assert!(compare_wildcard("abcbc", "a*bc"));
    assert!(!compare_wildcard("ab", "a*c"));
}

#[test]
fn wildcard_edges() {
    assert!(compare_wildcard("", "*"));
    assert!(compare_wildcard("abc", "*"));
    assert!(compare_wildcard("abc", ""));
    assert!(!compare_wildcard("", "a"));
    // a pattern without `*` is found anywhere, as long as its last
    // occurrence ends the name
    assert!(compare_wildcard("xnote", "note"));
    assert!(!compare_wildcard("notex", "note"));
    assert!(compare_wildcard("日本語.exe", "日本*.exe"));
}

#[test]
fn sort_list_lookup() {
    let list = vec![WinSortList::IMGFILE("a.exe".to_string()), WinSortList::WILDCARD("*.exe".to_string())];
    assert_eq!(contains_window_sort_list(&list, "a.exe"), Some(0));
    assert_eq!(contains_window_sort_list(&list, "b.exe"), Some(1));
    assert_eq!(contains_window_sort_list(&list, "x.txt"), None);
    assert_eq!(contains_window_sort_list(&Vec::new(), "a.exe"), None);
}

#[test]
fn stored_lines_become_entries_and_back() {
    let lines = vec!["explorer.exe".to_string(), "*chrome*".to_string(), String::new()];
    let list = winsort_from_lines(&lines);
    assert!(matches!(&list[0], WinSortList::IMGFILE(n) if n == "explorer.exe"));
    assert!(matches!(&list[1], WinSortList::WILDCARD(p) if p == "*chrome*"));
    assert!(matches!(&list[2], WinSortList::IMGFILE(n) if n.is_empty()));
    assert_eq!(winsort_to_lines(&list), lines);
    assert_eq!(contains_window_sort_list(&list, "my_chrome.exe"), Some(1));
}

#[test]
fn first_matching_pattern() {
    let pats = vec!["*.exe".to_string(), "note*".to_string()];
    assert_eq!(contains_procimg_list(&pats, "notepad.exe"), Some("*.exe".to_string()));
    assert_eq!(contains_procimg_list(&pats, "notepad.txt"), Some("note*".to_string()));
    assert_eq!(contains_procimg_list(&pats, "x"), None);
}
