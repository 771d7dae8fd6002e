use dagger::cmd::{env_var_allowed, join_env_path, parse_command, path_result, quick_access_entries,
    CommandAction};
use dagger::ffutils::FFmpegHandler;
use dagger::home::{home_snapshot, HomeCache};
use dagger::layouts::{IconSize, LayoutCache, SortKey, ViewMode};
use dagger::nav::{normalize_target_path, FileItem};
use dagger::strutil::{file_name_of, file_type_of, strip_path_prefix, u64_to_dec};

fn item(name: &str, path: &str) -> FileItem {
    FileItem { name: name.to_string(), path: path.to_string(), is_dir: false, size: Some(1) }
}

#[test]
fn recent_files_deduplicate_by_path_and_newest_wins() {
    let mut cache = HomeCache::new();
    cache.push_recent_file(item("a.txt", "/p/a.txt"));
    cache.push_recent_file(item("b.txt", "/p/b.txt"));
    cache.push_recent_file(item("a.txt", "/p/a.txt"));
    let names: Vec<String> = cache.recent_files.iter().map(|x| x.name.clone()).collect();
    assert_eq!(names, vec!["a.txt", "b.txt"]);
}

#[test]
fn recent_files_cap_at_fifty() {
    let mut cache = HomeCache::new();
    for i in 0..55u32 {
        cache.push_recent_file(item(&format!("f{}", i), &format!("/p/f{}", i)));
    }
    assert_eq!(cache.recent_files.len(), 50);
    // Newest first; the five oldest fell off the back.
    assert_eq!(cache.recent_files[0].name, "f54");
    assert_eq!(cache.recent_files[49].name, "f5");
}

#[test]
fn recent_dirs_cap_at_twelve() {
    let mut cache = HomeCache::new();
    for i in 0..20u32 {
        let mut it = item(&format!("d{}", i), &format!("/d/d{}", i));
        it.is_dir = true;
        it.size = None;
        cache.push_recent_dir(it);
    }
    assert_eq!(cache.recent_dirs.len(), 12);
    assert_eq!(cache.recent_dirs[0].name, "d19");
}

#[test]
fn home_snapshot_streams_files_then_dirs_then_pinned() {
    let mut cache = HomeCache::new();
    cache.push_recent_file(item("notes.txt", "/p/notes.txt"));
    let mut d = item("projects", "/p/projects");
    d.is_dir = true;
    d.size = None;
    cache.push_recent_dir(d);
    cache.pinned_items.push(item("pin.png", "/p/pin.png"));

    let snap = home_snapshot(&cache);
    assert_eq!(snap.len(), 3);
    assert_eq!(snap[0].name, "notes.txt");
    assert!(!snap[0].is_dir && !snap[0].pinned);
    assert_eq!(snap[0].filetype, "txt");
    assert_eq!(snap[1].name, "projects");
    assert!(snap[1].is_dir && !snap[1].pinned);
    assert_eq!(snap[1].filetype, "projects");
    assert_eq!(snap[2].name, "pin.png");
    assert!(!snap[2].is_dir && snap[2].pinned);
}

#[test]
fn command_home_is_case_insensitive_and_trimmed() {
    assert!(matches!(parse_command("  HoMe "), CommandAction::HomePath));
}

#[test]
fn command_env_variable_shape() {
    match parse_command(" %appdata%\\Dagger\\cache ") {
        CommandAction::EnvPath { var, rest } => {
            assert_eq!(var, "APPDATA");
            assert_eq!(rest, "Dagger\\cache");
        },
        other => panic!("unexpected classification: {:?}", kind_of(&other)),
    }
    match parse_command("%TEMP%") {
        CommandAction::EnvPath { var, rest } => {
            assert_eq!(var, "TEMP");
            assert_eq!(rest, "");
        },
        other => panic!("unexpected classification: {:?}", kind_of(&other)),
    }
}

fn kind_of(a: &CommandAction) -> &'static str {
    match a {
        CommandAction::HomePath => "home",
        CommandAction::EnvPath { .. } => "env",
        CommandAction::Shell { .. } => "shell",
        CommandAction::TryPath { .. } => "path",
    }
}

#[test]
fn command_builtins_and_paths() {
    match parse_command("PowerShell") {
        CommandAction::Shell { program } => assert_eq!(program, "powershell"),
        other => panic!("unexpected classification: {:?}", kind_of(&other)),
    }
    match parse_command("/usr/local") {
        CommandAction::TryPath { path } => assert_eq!(path, "/usr/local"),
        other => panic!("unexpected classification: {:?}", kind_of(&other)),
    }
    // A lone percent with no closing mark is not the env shape.
    match parse_command("%lonely") {
        CommandAction::TryPath { path } => assert_eq!(path, "%lonely"),
        other => panic!("unexpected classification: {:?}", kind_of(&other)),
    }
}

#[test]
fn env_allowlist_and_join() {
    assert!(env_var_allowed("APPDATA"));
    assert!(env_var_allowed("TMP"));
    assert!(!env_var_allowed("PATH"));
    assert_eq!(join_env_path("/home/u", ""), "/home/u");
    assert_eq!(join_env_path("/home/u", "Dagger"), "/home/u/Dagger");
}

#[test]
fn quick_access_layout() {
    let entries = quick_access_entries("/home/u", "Videos");
    assert_eq!(entries.len(), 7);
    assert_eq!(entries[0], ("Home".to_string(), "Home".to_string()));
    assert_eq!(entries[1], ("Documents".to_string(), "/home/u/Documents".to_string()));
    assert_eq!(entries[6], ("Videos".to_string(), "/home/u/Videos".to_string()));
    let mac = quick_access_entries("/Users/u", "Movies");
    assert_eq!(mac[6].1, "/Users/u/Movies");
}

#[test]
fn path_normalisation() {
    assert_eq!(normalize_target_path("", true), "C:\\");
    assert_eq!(normalize_target_path("", false), "/");
    assert_eq!(normalize_target_path("C:", true), "C:\\");
    assert_eq!(normalize_target_path("C:/Users/x", true), "C:\\Users\\x");
    assert_eq!(normalize_target_path("/home/u", false), "/home/u");
}

#[test]
fn layout_defaults() {
    let d = LayoutCache::default();
    assert_eq!(d.sort_key, SortKey::Name);
    assert!(d.ascending);
    assert_eq!(d.view_mode, ViewMode::Grid);
    assert!(!d.show_hidden);
    assert!(d.show_extensions);
    assert_eq!(d.icon_size, IconSize::Small);
}

#[test]
fn ffmpeg_paths_derive_from_the_resource_dir() {
    let h = FFmpegHandler::new("/opt/app/resources");
    assert_eq!(h.ffmpeg_path, "/opt/app/resources/binaries/windows/ffmpeg.exe");
    assert_eq!(h.ffprobe_path, "/opt/app/resources/binaries/windows/ffprobe.exe");
}

#[test]
fn string_helpers() {
    assert_eq!(file_name_of("/a/b/c.txt"), "c.txt");
    assert_eq!(file_name_of("plain"), "plain");
    assert_eq!(file_name_of("/ends/with/"), "");
    assert_eq!(file_type_of("archive.tar.gz"), "gz");
    assert_eq!(file_type_of("noext"), "noext");
    assert_eq!(strip_path_prefix("/root/sub/file", "/root").as_deref(), Some("sub/file"));
    assert_eq!(strip_path_prefix("/rootx/file", "/root"), None);
    assert_eq!(u64_to_dec(0), "0");
    assert_eq!(u64_to_dec(907), "907");
    let r = path_result("C:\\".to_string());
    assert_eq!(r.kind, "path");
    assert_eq!(r.value, "C:\\");
}
