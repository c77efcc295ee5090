use xdu_view::app::{App, Reply, Request, ViewMode};
use xdu_view::entry::{ComponentRow, FileRow, PartitionRow, SortMode};
use xdu_view::filters::QueryFilters;
use xdu_view::keys::Key;
use xdu_view::layout::{centered_rect, middle_parts_of, split_columns, split_screen, visible_panes, Area, Part};
use xdu_view::preview::{load_file_preview, ChunkRead, FilePreview};
use xdu_view::render::{Body, Captions, Hue, Pane, TextLine, Weight};
use xdu_view::table::{table_rows, Caption, Shape};

const NOW: i64 = 1_700_000_000;

const SCREEN: Area = Area { x: 0, y: 0, width: 80, height: 24 };

fn caption() -> Caption {
    Caption { size: "1.23 GiB".to_string(), scaled_count: "4.2".to_string() }
}

fn captions(app: &App) -> Captions {
    Captions {
        list: app.entries.iter().map(|_| caption()).collect(),
        columns: app.columns.iter().map(|c| c.entries.iter().map(|_| caption()).collect()).collect(),
        file_size: "9 B".to_string(),
        overlay_size: "8 B".to_string(),
        filters: String::new(),
    }
}

fn row(name: &str, is_dir: bool, atime: i64) -> ComponentRow {
    ComponentRow { component: name.to_string(), is_dir, total_size: 1, file_count: 4200, latest_atime: atime }
}

fn directory(rows: Vec<ComponentRow>) -> Reply {
    Reply::Directory { components: rows, error: None, elapsed: "0.15".to_string() }
}

fn at_alice() -> App {
    let (mut app, _) = App::new(Some("alice".to_string()), QueryFilters::new(), SortMode::Name);
    app.answer(Reply::PathRange {
        first: Some("/d/alice/a".to_string()),
        last: Some("/d/alice/src/x".to_string()),
        error: None,
    });
    app.answer(directory(vec![row("src", true, NOW - 3 * 86400), row("a.txt", false, NOW)]));
    app
}

fn rows(pane: &Pane) -> &Vec<String> {
    match &pane.body {
        Body::Rows { rows, .. } => rows,
        Body::Lines { .. } => panic!("lines"),
    }
}

fn lines(pane: &Pane) -> Vec<&str> {
    match &pane.body {
        Body::Rows { .. } => panic!("rows"),
        Body::Lines { lines } => lines.iter().map(|l: &TextLine| l.text.as_str()).collect(),
    }
}

#[test]
fn areas_of_the_screen() {
    let (content, bar) = split_screen(SCREEN);
    assert_eq!(content, Area { x: 0, y: 0, width: 80, height: 23 });
    assert_eq!(bar, Area { x: 0, y: 23, width: 80, height: 1 });
}

#[test]
fn areas_in_the_middle() {
    let area = Area { x: 2, y: 3, width: 100, height: 40 };
    assert_eq!(centered_rect(80, 70, area), Area { x: 12, y: 9, width: 80, height: 28 });
    assert_eq!(
        middle_parts_of(70),
        [Part::Percentage(15), Part::Percentage(70), Part::Percentage(15)]
    );
}

#[test]
fn areas_of_columns() {
    let area = Area { x: 1, y: 2, width: 90, height: 9 };
    let expected: Vec<Area> =
        (0..3).map(|i| Area { x: 1 + 30 * i, y: 2, width: 30, height: 9 }).collect();
    assert_eq!(split_columns(3, area), expected);
    assert!(split_columns(0, area).is_empty());
}

#[test]
fn panes_that_are_shown() {
    assert_eq!(visible_panes(1, 0, false, 80), (0, 1));
    assert_eq!(visible_panes(3, 1, false, 80), (0, 3));
    assert_eq!(visible_panes(6, 4, false, 200), (1, 5));
    assert_eq!(visible_panes(6, 5, true, 200), (2, 5));
    assert_eq!(visible_panes(6, 5, true, 45), (5, 2));
    assert_eq!(visible_panes(2, 0, false, 10), (1, 1));
    assert_eq!(visible_panes(9, 0, false, 45), (0, 2));
}

#[test]
fn rows_of_a_list() {
    let app = at_alice();
    let c = captions(&app);
    let got = table_rows(&app.entries, &c.list, NOW, 60, Shape::List).unwrap();
    assert_eq!(
        got,
        [
            format!("{:<18}  {:>10}  {:>10}  {:>12}", "◂ ..", "", "", ""),
            format!("{:<18}  {:>10}  {:>10}  {:>12}", "▸ src", "1.23 GiB", "4.2K files", "3 days ago"),
            format!("{:<18}  {:>10}  {:>10}  {:>12}", "  a.txt", "1.23 GiB", "4.2K files", "today"),
        ]
    );
}

#[test]
fn rows_line_up() {
    let app = at_alice();
    let c = captions(&app);
    for (shape, width) in [(Shape::List, 60), (Shape::List, 46), (Shape::List, 45), (Shape::Column, 50)] {
        for row in table_rows(&app.entries, &c.list, NOW, width, shape).unwrap() {
            assert_eq!(row.chars().count(), width as usize - 4);
        }
    }
}

#[test]
fn names_without_room() {
    let app = at_alice();
    let c = captions(&app);
    let got = table_rows(&app.entries, &c.list, NOW, 46, Shape::List).unwrap();
    assert!(got[0].starts_with("◂…    ") && got[2].starts_with("  a…  "));
    let got = table_rows(&app.entries, &c.list, NOW, 48, Shape::List).unwrap();
    assert!(got[0].starts_with("◂ ..    ") && got[1].starts_with("▸ s…    "));
    let got = table_rows(&app.entries, &c.list, NOW, 49, Shape::List).unwrap();
    assert!(got[1].starts_with("▸ src    ") && got[2].starts_with("  a.txt  "));
    let got = table_rows(&app.entries, &c.list, NOW, 45, Shape::List).unwrap();
    assert!(got[0].starts_with("…    ") && got[2].starts_with("  …  "));
    let got = table_rows(&app.entries, &c.list, NOW, 20, Shape::List).unwrap();
    assert_eq!(got[1], "…    1.23 GiB  4.2K files    3 days ago");
    let got = table_rows(&app.entries, &c.list, NOW, 20, Shape::Column).unwrap();
    assert_eq!(got[1], "  1.23 GiB  4.2K files  3 days ago");
    let got = table_rows(&app.entries, &c.list, NOW, 39, Shape::Column).unwrap();
    assert_eq!(got[1], "▸ src  1.23 GiB  4.2K files  3 days ago");
}

#[test]
fn names_are_cut_between_characters() {
    let mut app = at_alice();
    app.entries[2].name = "éééééé".to_string();
    let c = captions(&app);
    for width in 0..120 {
        assert!(table_rows(&app.entries, &c.list, NOW, width, Shape::List).is_some());
        assert!(table_rows(&app.entries, &c.list, NOW, width, Shape::Column).is_some());
        assert!(app.ui(&c, NOW, Area { width, ..SCREEN }).is_some());
    }
    let got = table_rows(&app.entries, &c.list, NOW, 48, Shape::List).unwrap();
    assert!(got[2].starts_with("  é…    "));
    let got = table_rows(&app.entries, &c.list, NOW, 50, Shape::List).unwrap();
    assert!(got[2].starts_with("  éé…     "));
    let got = table_rows(&app.entries, &c.list, NOW, 56, Shape::List).unwrap();
    assert!(got[2].starts_with("  éééééé        "));
}

#[test]
fn rows_that_cannot_be_shown() {
    let mut app = at_alice();
    let c = captions(&app);
    assert!(table_rows(&app.entries, &Vec::new(), NOW, 80, Shape::List).is_none());
    app.entries[0].latest_atime = -1;
    assert!(table_rows(&app.entries, &c.list, NOW, 80, Shape::List).is_some());
    assert!(table_rows(&app.entries, &c.list, NOW, 80, Shape::Column).is_none());
    app.entries[1].latest_atime = -1;
    assert!(table_rows(&app.entries, &c.list, NOW, 80, Shape::List).is_none());
}

#[test]
fn the_screen_of_a_list() {
    let mut app = at_alice();
    let mut c = captions(&app);
    c.filters = "[min:1.00 MiB]".to_string();
    let scene = app.ui(&c, NOW, SCREEN).unwrap();
    assert_eq!(scene.panes.len(), 1);
    let pane = &scene.panes[0];
    assert_eq!(pane.title, " alice [min:1.00 MiB] ");
    assert_eq!((pane.border, pane.title_ink.weight), (Hue::Plain, Weight::Normal));
    assert_eq!(pane.area, Area { x: 0, y: 0, width: 80, height: 23 });
    assert!(matches!(pane.body, Body::Rows { selected: Some(0), .. }));
    assert_eq!(rows(pane).len(), 3);
    assert_eq!(
        scene.status.text,
        " 3 entries in 0.15s [min:1.00 MiB] │ sort:name mode:list │ q:quit jk↑↓:nav ←→:cd /:pattern s:sort t:mode c:clear"
    );
    assert_eq!((scene.status.ink.hue, scene.status.ink.weight), (Hue::Plain, Weight::Dim));
    assert_eq!(scene.status_area, Area { x: 0, y: 23, width: 80, height: 1 });
    app.press(Key::Down, NOW);
    app.press(Key::Enter, NOW);
    let scene = app.ui(&captions(&app), NOW, SCREEN).unwrap();
    assert_eq!(scene.panes[0].title, " alice/src (loading...) ");
}

#[test]
fn the_title_of_the_partitions() {
    let (app, _) = App::new(None, QueryFilters::new(), SortMode::Name);
    let scene = app.ui(&captions(&app), NOW, SCREEN).unwrap();
    assert_eq!(scene.panes[0].title, " Partitions (loading...) ");
}

#[test]
fn the_status_while_choosing_and_entering() {
    let mut app = at_alice();
    app.press(Key::Char('s'), NOW);
    app.press(Key::Down, NOW);
    let line = app.render_status_bar(&captions(&app), NOW).unwrap();
    assert_eq!(
        line.text,
        " Sort:   name  ▶ size-desc ◀  size-asc    count-desc    count-asc    age-desc    age-asc    (s/→:next  ←:prev  Enter:apply  Esc:cancel)"
    );
    assert_eq!((line.ink.hue, line.ink.weight), (Hue::Yellow, Weight::Bold));
    app.press(Key::Esc, NOW);
    app.press(Key::Char('o'), NOW);
    app.press(Key::Char('3'), NOW);
    let line = app.render_status_bar(&captions(&app), NOW).unwrap();
    assert_eq!(line.text, " Older than (days): 3");
    assert_eq!((line.ink.hue, line.ink.weight), (Hue::Plain, Weight::Bold));
}

fn preview(lines: usize) -> FilePreview {
    let mut p = load_file_preview("/d/alice/a.txt", 1, NOW, b"x");
    let text = vec!["line"; lines].join("\n");
    p.load_first_chunk(ChunkRead::Bytes(text.into_bytes()));
    p
}

#[test]
fn the_screen_of_a_file_over_the_list() {
    let mut app = at_alice();
    app.press(Key::Char('G'), NOW);
    app.press(Key::Char(' '), NOW);
    app.answer(Reply::Preview { preview: preview(50) });
    let scene = app.ui(&captions(&app), NOW, SCREEN).unwrap();
    assert_eq!(scene.panes.len(), 2);
    let pane = &scene.panes[1];
    assert_eq!(pane.title, " a.txt ");
    assert_eq!((pane.border, pane.title_ink.hue, pane.title_ink.weight), (Hue::Cyan, Hue::Cyan, Weight::Bold));
    let shown = lines(pane);
    assert_eq!(shown[..5], ["  Type: Plain text, UTF-8", "  Size: 8 B", "  Atime: today", "", "  line"]);
    assert_eq!(shown.len(), pane.area.height as usize - 2);
    assert_eq!(scene.status.text, " a.txt │ Plain text, UTF-8 │ Esc/Space: close");
}

#[test]
fn a_narrow_overlay_is_truncated() {
    let p = preview(2);
    let got = p.overlay_text("8 B", NOW, Area { x: 0, y: 0, width: 7, height: 5 });
    let texts: Vec<&str> = got.iter().map(|l| l.text.as_str()).collect();
    assert_eq!(texts, ["  Type…", "  Size…", "  Atim…", "", "  line"]);
    assert_eq!(got[0].ink.hue, Hue::Yellow);
}

#[test]
fn the_lines_of_a_pane() {
    let mut p = preview(10);
    let texts = |p: &FilePreview, h: usize| -> Vec<String> {
        p.pane_text("8 B", NOW, h).iter().map(|l| l.text.clone()).collect()
    };
    assert_eq!(texts(&p, 20).len(), 14);
    let got = texts(&p, 8);
    assert_eq!(got.len(), 9);
    assert_eq!(got[8], "  ── 0% (1/10 lines) (EOF) ──");
    p.scroll_down(3);
    assert_eq!(texts(&p, 8)[8], "  ── 50% (4/10 lines) (EOF) ──");
    p.scroll_to_bottom();
    let got = texts(&p, 8);
    assert_eq!(got.len(), 6);
    assert_eq!(got[5], "  ── 100% (10/10 lines) (EOF) ──");
    p.eof_reached = false;
    assert_eq!(texts(&p, 8)[5], "  ── 100% (10/10 lines) (...) ──");
    let binary = load_file_preview("/d/x", 1, NOW, &[0xFF, 0x80]);
    let got = binary.pane_text("8 B", NOW, 20);
    assert_eq!(got[4].text, "  (binary file — no preview)");
    assert_eq!((got[4].ink.hue, got[4].ink.weight), (Hue::Gray, Weight::Italic));
}

fn in_tree() -> App {
    let mut app = at_alice();
    app.press(Key::Char('t'), NOW);
    app.answer(Reply::Partitions {
        partitions: vec![PartitionRow {
            name: "alice".to_string(),
            total_size: 1,
            latest_atime: NOW,
            file_count: 2,
        }],
        error: None,
    });
    let files: Vec<FileRow> = Vec::new();
    app.answer(Reply::RootFiles { files, error: None, elapsed: String::new() });
    app.answer(Reply::PathRange {
        first: Some("/d/alice/a".to_string()),
        last: Some("/d/alice/src/x".to_string()),
        error: None,
    });
    app.answer(directory(vec![row("src", true, NOW), row("a.txt", false, NOW)]));
    app.answer(directory(vec![row("deep", false, NOW)]));
    assert_eq!((app.view_mode, app.active_column, app.columns.len()), (ViewMode::Tree, 1, 3));
    app
}

#[test]
fn the_screen_of_the_tree() {
    let app = in_tree();
    let scene = app.ui(&captions(&app), NOW, Area { width: 150, ..SCREEN }).unwrap();
    let titles: Vec<&str> = scene.panes.iter().map(|p| p.title.as_str()).collect();
    assert_eq!(titles, [" Partitions ", " alice ", " src "]);
    let hues: Vec<Hue> = scene.panes.iter().map(|p| p.border).collect();
    assert_eq!(hues, [Hue::Gray, Hue::Blue, Hue::Cyan]);
    assert_eq!(scene.panes[1].title_ink.weight, Weight::Bold);
    assert_eq!(scene.panes[1].area, Area { x: 50, y: 0, width: 50, height: 23 });
    assert_eq!(
        rows(&scene.panes[1])[0],
        format!("{:<16}  {:>8}  {:>10}  {:>6}", "▸ src", "1.23 GiB", "4.2K files", "today")
    );
    assert_eq!(
        scene.status.text,
        " Partitions > alice │ 1.23 GiB │ 4.2K files │ today │ sort:name mode:tree │ q:quit jk↑↓:nav ←→:cd /:pattern s:sort t:mode c:clear"
    );
    let scene = app.ui(&captions(&app), NOW, Area { width: 45, ..SCREEN }).unwrap();
    let titles: Vec<&str> = scene.panes.iter().map(|p| p.title.as_str()).collect();
    assert_eq!(titles, [" alice ", " src "]);
    let mut c = captions(&app);
    c.columns.clear();
    assert!(app.ui(&c, NOW, SCREEN).is_none());
}

#[test]
fn the_screen_of_a_file_in_the_tree() {
    let mut app = in_tree();
    app.press(Key::Char('G'), NOW);
    app.answer(Reply::Preview { preview: preview(3) });
    let wide = Area { width: 150, ..SCREEN };
    let scene = app.ui(&captions(&app), NOW, wide).unwrap();
    assert_eq!(scene.panes.len(), 3);
    assert_eq!((scene.panes[2].title.as_str(), scene.panes[2].border), (" a.txt ", Hue::Cyan));
    assert_eq!(lines(&scene.panes[2])[1], "  Size: 9 B");
    assert!(matches!(app.press(Key::Right, NOW), Request::Key));
    let scene = app.ui(&captions(&app), NOW, wide).unwrap();
    assert_eq!((scene.panes[2].border, scene.panes[2].title_ink.weight), (Hue::Blue, Weight::Bold));
    assert_eq!(
        scene.status.text,
        " ▶ a.txt │ Plain text, UTF-8 │ jk↑↓:scroll d/u:page g/G:top/bottom Esc/←/q/␣:back"
    );
}

#[test]
fn an_empty_tree_shows_nothing_but_the_status() {
    let mut app = at_alice();
    app.press(Key::Char('t'), NOW);
    let scene = app.ui(&captions(&app), NOW, SCREEN).unwrap();
    assert!(scene.panes.is_empty());
    assert!(scene.status.text.starts_with(" 3 entries in 0.15s │ sort:name mode:tree"));
    let pane = app.render_file_preview_pane(&captions(&app), NOW, SCREEN).unwrap();
    assert_eq!((pane.title.as_str(), pane.border), (" Preview ", Hue::Gray));
}
