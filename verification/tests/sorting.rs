use dagger::layouts::SortKey;
use dagger::nav::{sort_file_items, sort_nodes, find_child_folded, FileItem, FileNode};
use dagger::snapshot::{sort_entries, EntryMeta};

fn entry(name: &str, is_dir: bool, size: Option<u64>, filetype: &str, modified: Option<u64>) -> EntryMeta {
    EntryMeta {
        name: name.to_string(),
        path: format!("/tmp/{}", name),
        is_dir,
        size,
        filetype: filetype.to_string(),
        modified,
    }
}

fn names(v: &Vec<EntryMeta>) -> Vec<String> {
    v.iter().map(|e| e.name.clone()).collect()
}

#[test]
fn directories_sort_strictly_before_files() {
    let mut v = vec![
        entry("zz.txt", false, Some(1), "txt", Some(5)),
        entry("aa", true, None, "", Some(1)),
        entry("mm.png", false, Some(2), "png", Some(3)),
        entry("bb", true, None, "", Some(2)),
    ];
    sort_entries(&mut v, SortKey::Name, true);
    assert_eq!(names(&v), vec!["aa", "bb", "mm.png", "zz.txt"]);
    assert!(v[0].is_dir && v[1].is_dir && !v[2].is_dir && !v[3].is_dir);
}

#[test]
fn name_sort_is_case_insensitive() {
    // A case-sensitive comparison would put "Zebra.txt" ('Z' = 0x5a)
    // before "apple.txt" ('a' = 0x61); the case fold must not hand its
    // argument back unchanged.
    let mut v = vec![
        entry("Zebra.txt", false, Some(1), "txt", None),
        entry("apple.txt", false, Some(1), "txt", None),
    ];
    sort_entries(&mut v, SortKey::Name, true);
    assert_eq!(names(&v), vec!["apple.txt", "Zebra.txt"]);
}

#[test]
fn size_sort_ascending_and_descending() {
    let mut v = vec![
        entry("big", false, Some(500), "", None),
        entry("small", false, Some(10), "", None),
        entry("mid", false, Some(50), "", None),
    ];
    sort_entries(&mut v, SortKey::Size, true);
    assert_eq!(names(&v), vec!["small", "mid", "big"]);
    sort_entries(&mut v, SortKey::Size, false);
    assert_eq!(names(&v), vec!["big", "mid", "small"]);
}

#[test]
fn descending_flag_leaves_directories_first() {
    let mut v = vec![
        entry("b.txt", false, Some(1), "txt", None),
        entry("a", true, None, "", None),
        entry("c.txt", false, Some(2), "txt", None),
    ];
    sort_entries(&mut v, SortKey::Name, false);
    assert_eq!(names(&v), vec!["a", "c.txt", "b.txt"]);
}

#[test]
fn modified_time_sort() {
    let mut v = vec![
        entry("new", false, Some(1), "", Some(300)),
        entry("old", false, Some(1), "", Some(100)),
        entry("unknown", false, Some(1), "", None),
    ];
    sort_entries(&mut v, SortKey::DateModified, true);
    assert_eq!(names(&v), vec!["unknown", "old", "new"]);
}

#[test]
fn filetype_sort_is_case_insensitive() {
    let mut v = vec![
        entry("b", false, Some(1), "TXT", None),
        entry("a", false, Some(1), "png", None),
    ];
    sort_entries(&mut v, SortKey::Filetype, true);
    assert_eq!(names(&v), vec!["a", "b"]);
}

#[test]
fn stream_scenario_order_by_name_ascending() {
    // A directory holding b.txt (10 bytes), the directory A, and
    // a.png (500 bytes) streams as A, a.png, b.txt.
    let mut v = vec![
        entry("b.txt", false, Some(10), "txt", None),
        entry("A", true, None, "", None),
        entry("a.png", false, Some(500), "png", None),
    ];
    sort_entries(&mut v, SortKey::Name, true);
    assert_eq!(names(&v), vec!["A", "a.png", "b.txt"]);
}

fn item(name: &str, is_dir: bool) -> FileItem {
    FileItem {
        name: name.to_string(),
        path: format!("/x/{}", name),
        is_dir,
        size: if is_dir { None } else { Some(1) },
    }
}

#[test]
fn file_item_listing_order() {
    let mut v = vec![item("beta.txt", false), item("Alpha", true), item("ALT.txt", false), item("zoo", true)];
    sort_file_items(&mut v);
    let got: Vec<String> = v.iter().map(|x| x.name.clone()).collect();
    assert_eq!(got, vec!["Alpha", "zoo", "ALT.txt", "beta.txt"]);
}

fn node(name: &str, is_dir: bool) -> FileNode {
    FileNode {
        name: name.to_string(),
        path: format!("/x/{}", name),
        is_dir,
        children: if is_dir { Some(Vec::new()) } else { None },
    }
}

#[test]
fn hidden_entries_are_filtered_unless_requested() {
    let snap = vec![
        entry(".config", true, None, "", None),
        entry("visible.txt", false, Some(1), "txt", None),
        entry(".hidden.txt", false, Some(1), "txt", None),
    ];
    let shown = dagger::snapshot::filter_hidden(snap, false);
    assert_eq!(names(&shown), vec!["visible.txt"]);

    let snap = vec![
        entry(".config", true, None, "", None),
        entry("visible.txt", false, Some(1), "txt", None),
    ];
    let all = dagger::snapshot::filter_hidden(snap, true);
    assert_eq!(names(&all), vec![".config", "visible.txt"]);
}

#[test]
fn tree_level_order_and_descent() {
    let mut v = vec![node("music.mp3", false), node("Books", true), node("art", true)];
    sort_nodes(&mut v);
    let got: Vec<String> = v.iter().map(|x| x.name.clone()).collect();
    assert_eq!(got, vec!["art", "Books", "music.mp3"]);
    assert_eq!(find_child_folded(&v, "BOOKS"), Some(1));
    assert_eq!(find_child_folded(&v, "missing"), None);
}
