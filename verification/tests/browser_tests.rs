use gifust::tui::browser::{arrange_entries, is_video, is_video_extension, move_sel, Browser, Entry, Opened};

fn entry(name: &str, is_dir: bool) -> Entry {
    Entry { name: name.to_string(), path: format!("/v/{name}"), is_dir }
}

#[test]
fn video_extensions_are_recognised() {
    for e in ["mp4", "mov", "mkv", "avi", "webm", "m4v", "flv", "wmv", "mpg", "mpeg", "ts", "m2ts", "3gp", "ogv"] {
        assert!(is_video_extension(e), "{e}");
    }
    assert!(!is_video_extension("gif"));
    assert!(!is_video_extension("MP4"));
    assert!(!is_video_extension(""));
}

#[test]
fn is_video_uses_lowercase_extension() {
    assert!(is_video("/a/b/Clip.MP4"));
    assert!(is_video("x.Mkv"));
    assert!(!is_video("notes.txt"));
    assert!(!is_video("mp4"));
    assert!(!is_video(".mp4"));
    assert!(is_video("a.b.webm"));
}

#[test]
fn listing_hides_dotfiles_orders_dirs_then_videos() {
    let raw = vec![
        entry("b.mp4", false),
        entry("Zeta", true),
        entry(".hidden", true),
        entry("notes.txt", false),
        entry("A.MOV", false),
        entry("alpha", true),
        entry(".x.mp4", false),
    ];
    let out = arrange_entries(&raw);
    let names: Vec<&str> = out.iter().map(|e| e.name.as_str()).collect();
    assert_eq!(names, vec!["alpha", "Zeta", "A.MOV", "b.mp4"]);
}

#[test]
fn listing_matches_std_stable_sort() {
    let raw = vec![
        entry("b", true),
        entry("B", true),
        entry("a", true),
        entry("c.mp4", false),
        entry("C.mp4", false),
        entry("É.mp4", false),
        entry("e.mp4", false),
        entry("A", true),
    ];
    let mut dirs: Vec<&Entry> = raw.iter().filter(|e| e.is_dir && !e.name.starts_with('.')).collect();
    let mut files: Vec<&Entry> = raw.iter().filter(|e| !e.is_dir && is_video(&e.path)).collect();
    dirs.sort_by_key(|e| e.name.to_lowercase());
    files.sort_by_key(|e| e.name.to_lowercase());
    let expected: Vec<&str> = dirs.iter().chain(files.iter()).map(|e| e.name.as_str()).collect();
    let out = arrange_entries(&raw);
    let names: Vec<&str> = out.iter().map(|e| e.name.as_str()).collect();
    assert_eq!(names, expected);
    assert_eq!(names, vec!["a", "A", "b", "B", "c.mp4", "C.mp4", "e.mp4", "É.mp4"]);
}

#[test]
fn move_sel_wraps() {
    let mut s = Some(0usize);
    move_sel(&mut s, 3, -1);
    assert_eq!(s, Some(2));
    move_sel(&mut s, 3, 1);
    assert_eq!(s, Some(0));
    let mut none: Option<usize> = None;
    move_sel(&mut none, 0, 1);
    assert_eq!(none, None);
    move_sel(&mut none, 4, 1);
    assert_eq!(none, Some(1));
    let mut far = Some(5usize);
    move_sel(&mut far, 3, 1);
    assert_eq!(far, Some(0));
}

#[test]
fn browser_selection_and_open() {
    let mut b = Browser::new("/v".to_string(), vec![entry("sub", true), entry("a.mp4", false)]);
    assert_eq!(b.selected, Some(0));
    b.prev();
    assert_eq!(b.selected, Some(1));
    b.next();
    assert_eq!(b.selected, Some(0));
    b.next();
    assert_eq!(b.selected().map(|e| e.name.as_str()), Some("a.mp4"));
    match b.open() {
        Opened::Video(p) => assert_eq!(p, "/v/a.mp4"),
        _ => panic!("expected a video"),
    }
    b.prev();
    assert!(matches!(b.open(), Opened::Directory));
    assert_eq!(b.cwd, "/v/sub");
    b.reload(vec![]);
    assert_eq!(b.selected, None);
    assert!(matches!(b.open(), Opened::Nothing));
    assert_eq!(b.selected().map(|e| e.name.clone()), None);
}

#[test]
fn browser_up_goes_to_parent() {
    let mut b = Browser::new("/v/sub".to_string(), vec![]);
    assert!(b.up());
    assert_eq!(b.cwd, "/v");
    assert!(b.up());
    assert_eq!(b.cwd, "/");
    assert!(!b.up());
    assert_eq!(b.cwd, "/");
}

#[test]
fn entry_list_text() {
    assert_eq!(entry("dir", true).list_text(), "dir/");
    assert_eq!(entry("a.mp4", false).list_text(), "  a.mp4");
}

#[test]
fn move_sel_truncates_position_to_32_bits() {
    let big = (1usize << 32) + 1;
    let mut s = Some(big);
    move_sel(&mut s, 3, 1);
    assert_eq!(s, Some(2));
    let mut t = Some(big);
    move_sel(&mut t, 3, -1);
    assert_eq!(t, Some(0));
}
