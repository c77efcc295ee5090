use xdu_view::app::{App, Reply, Request, ViewMode};
use xdu_view::entry::{ComponentRow, FileRow, PartitionRow, SortMode};
use xdu_view::filters::{InputMode, QueryFilters};
use xdu_view::keys::Key;
use xdu_view::preview::{load_file_preview, LineBatch};
use xdu_view::root::discover_partition_root;

const NOW: i64 = 1_700_000_000;

fn partition(name: &str, size: i64) -> PartitionRow {
    PartitionRow { name: name.to_string(), total_size: size, latest_atime: 1, file_count: 1 }
}

fn row(name: &str, is_dir: bool) -> ComponentRow {
    ComponentRow { component: name.to_string(), is_dir, total_size: 1, file_count: 1, latest_atime: 1 }
}

fn partitions(names: &[&str]) -> Reply {
    Reply::Partitions { partitions: names.iter().map(|n| partition(n, 1)).collect(), error: None }
}

fn files(paths: &[&str]) -> Reply {
    Reply::RootFiles {
        files: paths.iter().map(|p| FileRow { path: p.to_string(), size: 1, atime: 1 }).collect(),
        error: None,
        elapsed: "0.25".to_string(),
    }
}

fn range(first: &str, last: &str) -> Reply {
    Reply::PathRange { first: Some(first.to_string()), last: Some(last.to_string()), error: None }
}

fn directory(rows: &[(&str, bool)]) -> Reply {
    Reply::Directory {
        components: rows.iter().map(|(n, d)| row(n, *d)).collect(),
        error: None,
        elapsed: "0.15".to_string(),
    }
}

fn answer(app: &mut App, reply: Reply) -> Request {
    assert!(app.takes_reply(&reply));
    app.answer(reply)
}

fn press(app: &mut App, key: Key) -> Request {
    assert!(app.takes_key(key, NOW));
    app.press(key, NOW)
}

fn keys(app: &mut App, text: &str) {
    for c in text.chars() {
        press(app, Key::Char(c));
    }
}

/// A browser in the list of partitions `alice` and `bob` and the file `/d/note`.
fn at_partitions() -> App {
    let (mut app, request) = App::new(None, QueryFilters::new(), SortMode::Name);
    assert!(matches!(request, Request::Partitions));
    assert!(app.loading);
    assert!(matches!(answer(&mut app, partitions(&["bob", "alice"])), Request::RootFiles));
    assert!(matches!(answer(&mut app, files(&["/d/note"])), Request::Key));
    app
}

/// A browser in the root `/d/alice` of the partition `alice`, with the directory
/// `src` and the file `a.txt`.
fn at_alice() -> App {
    let mut app = at_partitions();
    let request = press(&mut app, Key::Enter);
    assert!(matches!(request, Request::PathRange { ref partition } if partition == "alice"));
    let request = answer(&mut app, range("/d/alice/a.txt", "/d/alice/src/x"));
    assert!(
        matches!(request, Request::Directory { ref partition, ref path } if partition == "alice" && path == "/d/alice")
    );
    answer(&mut app, directory(&[("src", true), ("a.txt", false)]));
    app
}

fn names(app: &App) -> Vec<&str> {
    app.entries.iter().map(|e| e.name.as_str()).collect()
}

#[test]
fn the_first_load_lists_partitions_and_files() {
    let app = at_partitions();
    assert_eq!(names(&app), ["alice", "bob", "note"]);
    assert_eq!(app.selected, Some(0));
    assert_eq!(app.status, "3 entries loaded in 0.25s");
    assert!(!app.loading);
}

#[test]
fn without_files_the_order_of_the_index_stays() {
    let (mut app, _) = App::new(None, QueryFilters::new(), SortMode::Name);
    answer(&mut app, partitions(&["bob", "alice"]));
    answer(&mut app, files(&[]));
    assert_eq!(names(&app), ["bob", "alice"]);
}

#[test]
fn a_failure_at_the_start_ends_the_program() {
    let (mut app, _) = App::new(Some("alice".to_string()), QueryFilters::new(), SortMode::Name);
    let reply = Reply::PathRange { first: None, last: None, error: Some("no index".to_string()) };
    let request = answer(&mut app, reply);
    assert!(matches!(request, Request::Abort { ref error } if error == "no index"));
    assert!(!app.loading);
}

#[test]
fn a_later_failure_is_told() {
    let mut app = at_alice();
    press(&mut app, Key::Char('c'));
    let reply = Reply::Directory {
        components: vec![row("part", true)],
        error: Some("broken".to_string()),
        elapsed: String::new(),
    };
    assert!(matches!(answer(&mut app, reply), Request::Key));
    assert_eq!(app.status, "Error: broken");
    assert!(!app.loading);
    assert_eq!(names(&app), ["..", "part"]);
}

#[test]
fn the_root_of_a_partition_is_common_to_its_paths() {
    let some = |s: &str| Some(s.to_string());
    let root = |a: &str, b: &str| discover_partition_root(&some(a), &some(b));
    assert_eq!(root("/h/u/a/x", "/h/u/bb/yy"), "/h/u");
    assert_eq!(root("/h/u/a/x", "/h/u/ab/x"), "/h/u");
    assert_eq!(root("/h/u/a/x", "/h/u/a/x"), "/h/u/a");
    assert_eq!(root("/h/u", "/h/u/x"), "/h");
    assert_eq!(root("/h/é/x", "/h/è/x"), "/h");
    assert_eq!(root("/a", "/b"), "");
    assert_eq!(root("a", "b"), "");
    assert_eq!(discover_partition_root(&None, &None), "");
    let (mut app, _) = App::new(Some("u".to_string()), QueryFilters::new(), SortMode::Name);
    let request = answer(&mut app, range("/h/u/a/x", "/h/u/bb/yy"));
    assert!(matches!(request, Request::Directory { ref path, .. } if path == "/h/u"));
}

#[test]
fn a_directory_lists_the_way_up_first() {
    let app = at_alice();
    assert_eq!(names(&app), ["..", "src", "a.txt"]);
    assert_eq!(app.entries[1].path, "/d/alice/src");
    assert_eq!(app.status, "3 entries in 0.15s");
    assert_eq!((app.selected, app.partition_root.as_str()), (Some(0), "/d/alice"));
}

#[test]
fn entering_and_going_up_again() {
    let mut app = at_alice();
    press(&mut app, Key::Down);
    let request = press(&mut app, Key::Right);
    assert!(matches!(request, Request::Directory { ref path, .. } if path == "/d/alice/src"));
    answer(&mut app, directory(&[]));
    assert_eq!((names(&app), app.selected), (vec![".."], Some(0)));
    let request = press(&mut app, Key::Left);
    assert!(matches!(request, Request::Directory { ref path, .. } if path == "/d/alice"));
    answer(&mut app, directory(&[("src", true)]));
    assert!(matches!(press(&mut app, Key::Backspace), Request::Partitions));
    assert!(app.current_partition.is_none() && app.current_path.is_empty());
    answer(&mut app, partitions(&["alice"]));
    answer(&mut app, files(&[]));
    assert!(matches!(press(&mut app, Key::Left), Request::Key));
}

#[test]
fn the_way_up_goes_up() {
    let mut app = at_alice();
    assert!(matches!(press(&mut app, Key::Enter), Request::Partitions));
}

#[test]
fn a_file_is_not_entered() {
    let mut app = at_alice();
    press(&mut app, Key::Char('G'));
    assert_eq!(app.selected, Some(2));
    assert!(matches!(press(&mut app, Key::Enter), Request::Key));
    assert_eq!(app.current_path, "/d/alice");
}

#[test]
fn an_empty_place_cannot_be_entered() {
    let mut app = at_alice();
    press(&mut app, Key::Left);
    answer(&mut app, partitions(&[]));
    answer(&mut app, files(&[]));
    assert_eq!(app.selected, Some(0));
    assert!(!app.takes_key(Key::Enter, NOW));
    assert!(app.takes_key(Key::Left, NOW));
}

#[test]
fn the_selection_stays_in_the_list() {
    let mut app = at_alice();
    press(&mut app, Key::Up);
    assert_eq!(app.selected, Some(0));
    keys(&mut app, "jjjj");
    assert_eq!(app.selected, Some(2));
    keys(&mut app, "k");
    assert_eq!(app.selected, Some(1));
    keys(&mut app, "g");
    assert_eq!(app.selected, Some(0));
}

#[test]
fn a_reload_keeps_the_selection_in_the_list() {
    let mut app = at_alice();
    keys(&mut app, "Gc");
    answer(&mut app, directory(&[]));
    assert_eq!(app.selected, Some(0));
}

#[test]
fn space_opens_a_file_and_closes_it_without_trace() {
    let mut app = at_alice();
    keys(&mut app, "G");
    let request = press(&mut app, Key::Char(' '));
    assert!(matches!(request, Request::Preview { ref path, size: 1, atime: 1 } if path == "/d/alice/a.txt"));
    let preview = load_file_preview("/d/alice/a.txt", 1, 1, b"hello");
    answer(&mut app, Reply::Preview { preview });
    assert_eq!(app.input_mode, InputMode::ListPreview);
    assert!(app.list_preview.is_some() && app.file_preview.is_none());
    assert!(matches!(press(&mut app, Key::Char('j')), Request::Key));
    assert!(matches!(press(&mut app, Key::Esc), Request::Key));
    assert_eq!((app.input_mode, app.selected), (InputMode::Normal, Some(2)));
    assert!(app.list_preview.is_none());
    assert!(matches!(press(&mut app, Key::Esc), Request::Quit));
}

#[test]
fn space_on_a_directory_does_nothing() {
    let mut app = at_alice();
    keys(&mut app, "j");
    assert!(matches!(press(&mut app, Key::Char(' ')), Request::Key));
    assert_eq!(app.input_mode, InputMode::Normal);
    assert_eq!(app.current_path, "/d/alice");
}

#[test]
fn quitting() {
    let mut app = at_alice();
    assert!(matches!(press(&mut app, Key::Char('q')), Request::Quit));
    keys(&mut app, "s");
    assert!(matches!(press(&mut app, Key::Char('q')), Request::Key));
    assert!(matches!(press(&mut app, Key::Esc), Request::Key));
    keys(&mut app, "/q");
    assert_eq!(app.input_buffer, "q");
    assert!(matches!(press(&mut app, Key::Other), Request::Key));
}

#[test]
fn choosing_an_order() {
    let mut app = at_alice();
    keys(&mut app, "s");
    assert_eq!(app.input_mode, InputMode::SortSelect);
    keys(&mut app, "sj");
    press(&mut app, Key::Up);
    assert_eq!((app.pending_sort, app.sort_mode), (SortMode::SizeDesc, SortMode::Name));
    press(&mut app, Key::Esc);
    assert_eq!((app.pending_sort, app.sort_mode), (SortMode::Name, SortMode::Name));
    keys(&mut app, "s");
    press(&mut app, Key::Left);
    assert!(matches!(press(&mut app, Key::Enter), Request::Directory { .. }));
    assert_eq!((app.sort_mode, app.input_mode), (SortMode::AgeAsc, InputMode::Normal));
}

#[test]
fn entering_days() {
    let mut app = at_alice();
    keys(&mut app, "o 30x");
    press(&mut app, Key::Backspace);
    assert!(matches!(press(&mut app, Key::Enter), Request::Directory { .. }));
    assert_eq!(app.filters.older_than, Some(NOW - 30 * 86400));
    assert!(app.input_buffer.is_empty());
    answer(&mut app, directory(&[]));
    assert_eq!(app.status, "1 entries in 0.15s (filtered)");
    keys(&mut app, "n7");
    press(&mut app, Key::Enter);
    assert_eq!(app.filters.newer_than, Some(NOW - 7 * 86400));
    answer(&mut app, directory(&[]));
    keys(&mut app, "o");
    assert!(matches!(press(&mut app, Key::Enter), Request::Directory { .. }));
    assert_eq!(app.filters.older_than, None);
}

#[test]
fn days_that_are_no_number_are_refused() {
    let mut app = at_alice();
    keys(&mut app, "nxy ");
    assert!(matches!(press(&mut app, Key::Enter), Request::Key));
    assert_eq!(app.status, "Invalid number: xy");
    assert_eq!(app.input_mode, InputMode::Normal);
    assert!(!app.filters.is_active());
    keys(&mut app, "o9000000000000000000");
    assert!(!app.takes_key(Key::Enter, NOW));
}

#[test]
fn entering_a_pattern() {
    let mut app = at_alice();
    keys(&mut app, "/*.py");
    let request = press(&mut app, Key::Enter);
    assert!(matches!(request, Request::Glob { ref pattern } if pattern == "*.py"));
    let reply = Reply::Glob { regex: ".*\\.py$".to_string(), error: None };
    assert!(matches!(answer(&mut app, reply), Request::Directory { .. }));
    assert_eq!(app.filters.pattern.as_deref(), Some(".*\\.py$"));
    assert_eq!(app.filters.pattern_display.as_deref(), Some("*.py"));
    answer(&mut app, directory(&[]));
    keys(&mut app, "/[");
    press(&mut app, Key::Enter);
    let reply = Reply::Glob { regex: String::new(), error: Some("unclosed".to_string()) };
    assert!(matches!(answer(&mut app, reply), Request::Key));
    assert_eq!(app.status, "Invalid pattern: unclosed");
    assert_eq!(app.filters.pattern_display.as_deref(), Some("*.py"));
    keys(&mut app, "/");
    press(&mut app, Key::Enter);
    assert!(app.filters.pattern.is_none() && app.filters.pattern_display.is_none());
}

#[test]
fn entering_sizes() {
    let mut app = at_alice();
    keys(&mut app, ">1M");
    let request = press(&mut app, Key::Enter);
    assert!(matches!(request, Request::Size { ref text } if text == "1M"));
    answer(&mut app, Reply::Size { size: 1 << 20, error: None });
    assert_eq!((app.filters.min_size, app.filters.max_size), (Some(1 << 20), None));
    answer(&mut app, directory(&[]));
    keys(&mut app, "<2M");
    press(&mut app, Key::Enter);
    answer(&mut app, Reply::Size { size: 2 << 20, error: None });
    assert_eq!(app.filters.max_size, Some(2 << 20));
    answer(&mut app, directory(&[]));
    keys(&mut app, ">zz");
    press(&mut app, Key::Enter);
    let reply = Reply::Size { size: 0, error: Some("Invalid size: zz".to_string()) };
    assert!(matches!(answer(&mut app, reply), Request::Key));
    assert_eq!(app.status, "Invalid size: zz");
    assert_eq!(app.filters.min_size, Some(1 << 20));
    keys(&mut app, "c");
    assert!(!app.filters.is_active());
}

#[test]
fn replies_that_are_not_awaited_are_not_taken() {
    let (app, _) = App::new(None, QueryFilters::new(), SortMode::Name);
    assert!(!app.takes_reply(&files(&[])));
    assert!(!app.takes_reply(&directory(&[])));
    assert!(app.takes_reply(&partitions(&[])));
}

/// The tree that shows the root of `alice` beside the list of partitions.
fn in_tree() -> App {
    let mut app = at_partitions();
    assert!(matches!(press(&mut app, Key::Char('t')), Request::Partitions));
    answer(&mut app, partitions(&["alice", "bob"]));
    assert!(matches!(answer(&mut app, files(&[])), Request::PathRange { .. }));
    answer(&mut app, range("/d/alice/a.txt", "/d/alice/src/x"));
    assert!(matches!(answer(&mut app, directory(&[("src", true), ("a.txt", false)])), Request::Key));
    app
}

#[test]
fn the_tree_shows_what_is_selected() {
    let app = in_tree();
    assert_eq!(app.view_mode, ViewMode::Tree);
    let titles: Vec<&str> = app.columns.iter().map(|c| c.title.as_str()).collect();
    assert_eq!(titles, ["Partitions", "alice"]);
    assert_eq!((app.active_column, app.columns[1].selected), (0, Some(0)));
    assert_eq!(app.columns[1].path, "/d/alice");
}

#[test]
fn moving_through_the_tree() {
    let mut app = in_tree();
    let request = press(&mut app, Key::Right);
    assert!(matches!(request, Request::Directory { ref path, .. } if path == "/d/alice/src"));
    answer(&mut app, directory(&[("deep", true)]));
    assert_eq!((app.active_column, app.columns.len()), (1, 3));
    let request = press(&mut app, Key::Char('j'));
    assert!(matches!(request, Request::Preview { ref path, .. } if path == "/d/alice/a.txt"));
    let preview = load_file_preview("/d/alice/a.txt", 1, 1, b"hello");
    answer(&mut app, Reply::Preview { preview });
    assert_eq!(app.columns.len(), 2);
    assert!(app.file_preview.is_some() && app.list_preview.is_none());
    press(&mut app, Key::Left);
    assert_eq!((app.active_column, app.columns.len()), (0, 2));
}

#[test]
fn right_and_left_lead_back() {
    let mut app = in_tree();
    press(&mut app, Key::Right);
    answer(&mut app, directory(&[]));
    press(&mut app, Key::Left);
    assert_eq!((app.active_column, app.columns.len()), (0, 2));
    assert_eq!(app.columns[1].path, "/d/alice");
}

#[test]
fn first_and_last_of_a_column() {
    let mut app = in_tree();
    let request = press(&mut app, Key::Char('G'));
    assert!(matches!(request, Request::PathRange { ref partition } if partition == "bob"));
    answer(&mut app, range("/d/bob/x", "/d/bob/x"));
    answer(&mut app, directory(&[]));
    assert_eq!((app.columns[0].selected, app.columns[1].selected), (Some(1), None));
    let request = press(&mut app, Key::Char('g'));
    assert!(matches!(request, Request::PathRange { ref partition } if partition == "alice"));
}

#[test]
fn the_tree_goes_to_where_the_list_is() {
    let mut app = at_alice();
    press(&mut app, Key::Down);
    press(&mut app, Key::Enter);
    answer(&mut app, directory(&[("deep", true)]));
    press(&mut app, Key::Char('t'));
    answer(&mut app, partitions(&["bob", "alice"]));
    let request = answer(&mut app, files(&[]));
    assert!(matches!(request, Request::PathRange { ref partition } if partition == "alice"));
    answer(&mut app, range("/d/alice/a.txt", "/d/alice/src/x"));
    let request = answer(&mut app, directory(&[("other", true), ("src", true)]));
    assert!(matches!(request, Request::Directory { ref path, .. } if path == "/d/alice/src"));
    let request = answer(&mut app, directory(&[("deep", true)]));
    assert!(matches!(request, Request::Directory { ref path, .. } if path == "/d/alice/src/deep"));
    assert!(matches!(answer(&mut app, directory(&[])), Request::Key));
    assert_eq!(app.active_column, 2);
    assert_eq!(app.columns[2].path, "/d/alice/src");
    let request = press(&mut app, Key::Char('t'));
    assert!(matches!(request, Request::Directory { ref path, .. } if path == "/d/alice/src"));
    assert_eq!(app.view_mode, ViewMode::List);
    answer(&mut app, directory(&[("x", false), ("deep", true)]));
    assert_eq!(app.selected, Some(2));
}

#[test]
fn the_way_ends_where_a_name_is_missing() {
    let mut app = at_alice();
    press(&mut app, Key::Down);
    press(&mut app, Key::Enter);
    answer(&mut app, directory(&[]));
    press(&mut app, Key::Char('t'));
    answer(&mut app, partitions(&["alice"]));
    answer(&mut app, files(&[]));
    answer(&mut app, range("/d/alice/a.txt", "/d/alice/src/x"));
    let request = answer(&mut app, directory(&[("other", true)]));
    assert!(matches!(request, Request::Directory { ref path, .. } if path == "/d/alice/other"));
    answer(&mut app, directory(&[]));
    assert_eq!((app.active_column, app.columns.len()), (1, 3));
}

#[test]
fn the_tree_cannot_follow_into_a_file() {
    let mut app = at_alice();
    press(&mut app, Key::Char('t'));
    answer(&mut app, partitions(&[]));
    assert!(!app.takes_reply(&files(&["/d/note"])));
    assert!(!app.takes_reply(&files(&[])));
}

#[test]
fn a_failing_tree_is_told_and_leads_back_to_the_partitions() {
    let mut app = at_partitions();
    press(&mut app, Key::Char('t'));
    let reply = Reply::Partitions { partitions: Vec::new(), error: Some("gone".to_string()) };
    answer(&mut app, reply);
    assert_eq!(app.status, "Error: gone");
    assert!(app.columns.is_empty());
    assert!(matches!(press(&mut app, Key::Down), Request::Key));
    assert!(matches!(press(&mut app, Key::Char('t')), Request::Partitions));
}

/// The tree with a file of 100 lines, more of which can be read, under the
/// keyboard.
fn in_pager() -> App {
    let mut app = in_tree();
    press(&mut app, Key::Right);
    answer(&mut app, directory(&[]));
    press(&mut app, Key::Char('G'));
    let mut preview = load_file_preview("/d/alice/a.txt", 1, 1, b"hello");
    let mut batch = LineBatch::new();
    for _ in 0..100 {
        batch.push("l\n".to_string());
    }
    preview.preview_load_more_lines(&batch);
    answer(&mut app, Reply::Preview { preview });
    assert!(matches!(press(&mut app, Key::Enter), Request::Key));
    assert!(app.preview_focused);
    app
}

fn scroll(app: &App) -> usize {
    app.file_preview.as_ref().unwrap().scroll_offset
}

fn lines(n: usize, ended: bool) -> Reply {
    let mut batch = LineBatch::new();
    for _ in 0..n {
        batch.push("m\n".to_string());
    }
    if ended {
        batch.end();
    }
    Reply::Lines { batch }
}

#[test]
fn the_pager_scrolls() {
    let mut app = in_pager();
    keys(&mut app, "jjk");
    assert_eq!(scroll(&app), 1);
    keys(&mut app, "d");
    assert_eq!(scroll(&app), 21);
    keys(&mut app, "u");
    assert_eq!(scroll(&app), 1);
    keys(&mut app, "ddg");
    assert_eq!(scroll(&app), 0);
    press(&mut app, Key::Left);
    assert!(!app.preview_focused);
}

#[test]
fn the_pager_reads_on_near_the_end() {
    let mut app = in_pager();
    keys(&mut app, "dd");
    let request = press(&mut app, Key::Char('d'));
    assert!(matches!(request, Request::Lines { ref path, offset: 200 } if path == "/d/alice/a.txt"));
    assert_eq!(scroll(&app), 40);
    answer(&mut app, lines(5, true));
    assert_eq!(scroll(&app), 60);
    assert!(matches!(press(&mut app, Key::Char('d')), Request::Key));
    keys(&mut app, "dd");
    assert_eq!(scroll(&app), 104);
}

#[test]
fn the_pager_reads_to_the_end() {
    let mut app = in_pager();
    assert!(matches!(press(&mut app, Key::Char('G')), Request::Lines { offset: 200, .. }));
    assert!(matches!(answer(&mut app, lines(10, false)), Request::Lines { offset: 220, .. }));
    assert!(matches!(answer(&mut app, lines(1, true)), Request::Key));
    assert_eq!(scroll(&app), 110);
    assert!(app.file_preview.as_ref().unwrap().eof_reached);
}

#[test]
fn the_pager_reads_again_what_has_left_its_window() {
    let mut app = in_pager();
    press(&mut app, Key::Char('G'));
    answer(&mut app, lines(100_000, true));
    assert_eq!(app.file_preview.as_ref().unwrap().first_line_number, 100);
    assert!(matches!(press(&mut app, Key::Char('g')), Request::Lines { offset: 0, .. }));
    answer(&mut app, lines(3, true));
    let p = app.file_preview.as_ref().unwrap();
    assert_eq!((p.first_line_number, p.total_lines_loaded, p.scroll_offset), (0, 3, 0));
}
