use xdu_view::entry::{
    join_path, list_preview_entry, make_parent_entry, merge_files, position_of, push_components,
    push_files, push_partitions, sort_entries, ComponentRow, DirEntry, FileRow, PartitionRow,
    SortMode,
};

fn entry(name: &str, is_dir: bool) -> DirEntry {
    DirEntry {
        name: name.to_string(),
        path: name.to_string(),
        is_dir,
        total_size: 0,
        file_count: 0,
        latest_atime: 0,
    }
}

fn sized(name: &str, is_dir: bool, size: i64, count: i64, atime: i64) -> DirEntry {
    DirEntry {
        name: name.to_string(),
        path: name.to_string(),
        is_dir,
        total_size: size,
        file_count: count,
        latest_atime: atime,
    }
}

fn names(entries: &[DirEntry]) -> Vec<String> {
    entries.iter().map(|e| e.name.clone()).collect()
}

#[test]
fn list_preview_entry_file() {
    let entries = [entry("a.txt", false)];
    let got = list_preview_entry(&entries, Some(0));
    assert_eq!(got.map(|e| e.name.as_str()), Some("a.txt"));
}

#[test]
fn list_preview_entry_directory() {
    let entries = [entry("subdir", true)];
    assert!(list_preview_entry(&entries, Some(0)).is_none());
}

#[test]
fn list_preview_entry_dotdot() {
    let entries = [entry("..", true)];
    assert!(list_preview_entry(&entries, Some(0)).is_none());
}

#[test]
fn list_preview_entry_no_selection() {
    let entries = [entry("a.txt", false)];
    assert!(list_preview_entry(&entries, None).is_none());
}

#[test]
fn list_preview_entry_empty() {
    let entries: [DirEntry; 0] = [];
    assert!(list_preview_entry(&entries, Some(0)).is_none());
}

#[test]
fn list_preview_entry_beyond_the_end() {
    let entries = [entry("a.txt", false)];
    assert!(list_preview_entry(&entries, Some(1)).is_none());
}

#[test]
fn sorting_by_name_puts_directories_first() {
    let mut v = vec![entry("b", false), entry("z", true), entry("a", false), entry("c", true)];
    sort_entries(&mut v, SortMode::Name);
    assert_eq!(names(&v), ["c", "z", "a", "b"]);
}

#[test]
fn sorting_by_name_goes_by_bytes() {
    let mut v = vec![entry("é", false), entry("z", false), entry("Z", false), entry("zz", false)];
    sort_entries(&mut v, SortMode::Name);
    assert_eq!(names(&v), ["Z", "z", "zz", "é"]);
}

#[test]
fn sorting_by_each_number() {
    let make = || {
        vec![
            sized("a", false, 2, 30, 200),
            sized("b", true, 3, 10, 100),
            sized("c", false, 1, 20, 300),
        ]
    };
    let cases = [
        (SortMode::SizeDesc, ["b", "a", "c"]),
        (SortMode::SizeAsc, ["c", "a", "b"]),
        (SortMode::CountDesc, ["a", "c", "b"]),
        (SortMode::CountAsc, ["b", "c", "a"]),
        (SortMode::AgeDesc, ["b", "a", "c"]),
        (SortMode::AgeAsc, ["c", "a", "b"]),
    ];
    for (mode, expected) in cases {
        let mut v = make();
        sort_entries(&mut v, mode);
        assert_eq!(names(&v), expected);
    }
}

#[test]
fn sorting_is_stable_and_like_std() {
    let mut v = Vec::new();
    let mut seed: u32 = 7;
    for i in 0..500 {
        seed = seed.wrapping_mul(1664525).wrapping_add(1013904223);
        v.push(sized(&format!("n{i}"), seed & 1 == 0, i64::from(seed >> 28), 0, 0));
    }
    let mut expected: Vec<(i64, String)> = v.iter().map(|e| (e.total_size, e.name.clone())).collect();
    expected.sort_by_key(|e| std::cmp::Reverse(e.0));
    sort_entries(&mut v, SortMode::SizeDesc);
    let got: Vec<(i64, String)> = v.iter().map(|e| (e.total_size, e.name.clone())).collect();
    assert_eq!(got, expected);
}

#[test]
fn sorting_what_is_in_order_changes_nothing() {
    let mut v = vec![sized("x", false, 1, 0, 0), sized("y", false, 1, 0, 0), sized("z", false, 2, 0, 0)];
    sort_entries(&mut v, SortMode::SizeAsc);
    assert_eq!(names(&v), ["x", "y", "z"]);
    let mut none: Vec<DirEntry> = Vec::new();
    sort_entries(&mut none, SortMode::Name);
    assert!(none.is_empty());
}

#[test]
fn sort_modes_cycle() {
    let all = SortMode::all();
    let labels: Vec<&str> = all.iter().map(|m| m.label()).collect();
    assert_eq!(
        labels,
        ["name", "size-desc", "size-asc", "count-desc", "count-asc", "age-desc", "age-asc"]
    );
    for (i, m) in all.iter().enumerate() {
        assert_eq!(m.next(), all[(i + 1) % all.len()]);
        assert_eq!(m.next().prev(), *m);
        assert_eq!(m.prev().next(), *m);
    }
}

#[test]
fn position_is_that_of_the_first() {
    let v = vec![entry("a", false), entry("b", true), entry("b", false)];
    assert_eq!(position_of(&v, "b"), Some(1));
    assert_eq!(position_of(&v, "c"), None);
}

#[test]
fn rows_become_entries() {
    let mut v = Vec::new();
    push_partitions(
        &mut v,
        &vec![PartitionRow { name: "alice".to_string(), total_size: 5, latest_atime: 6, file_count: 7 }],
    );
    push_files(&mut v, &vec![FileRow { path: "/data/x.txt".to_string(), size: 8, atime: 9 }]);
    push_components(
        &mut v,
        &vec![ComponentRow {
            component: "src".to_string(),
            is_dir: true,
            total_size: 1,
            file_count: 2,
            latest_atime: 3,
        }],
        "/data/alice",
    );
    assert_eq!(names(&v), ["alice", "x.txt", "src"]);
    assert_eq!((v[0].path.as_str(), v[0].is_dir, v[0].total_size), ("alice", true, 5));
    assert_eq!((v[0].file_count, v[0].latest_atime), (7, 6));
    assert_eq!((v[1].path.as_str(), v[1].is_dir, v[1].file_count), ("/data/x.txt", false, 1));
    assert_eq!((v[1].total_size, v[1].latest_atime), (8, 9));
    assert_eq!((v[2].path.as_str(), v[2].is_dir), ("/data/alice/src", true));
    assert_eq!((v[2].total_size, v[2].file_count, v[2].latest_atime), (1, 2, 3));
}

#[test]
fn files_outside_of_partitions_are_merged_in_order() {
    let mut v = vec![sized("big", true, 100, 1, 1), sized("small", true, 1, 1, 1)];
    merge_files(
        &mut v,
        &vec![FileRow { path: "/r/mid".to_string(), size: 50, atime: 1 }],
        SortMode::SizeDesc,
    );
    assert_eq!(names(&v), ["big", "mid", "small"]);
}

#[test]
fn without_files_partitions_keep_their_order() {
    let mut v = vec![entry("z", true), entry("a", true)];
    merge_files(&mut v, &Vec::new(), SortMode::Name);
    assert_eq!(names(&v), ["z", "a"]);
}

#[test]
fn paths_are_joined_by_a_slash() {
    assert_eq!(join_path("/a", "b"), "/a/b");
    assert_eq!(join_path("", "b"), "/b");
    let up = make_parent_entry();
    assert_eq!((up.name.as_str(), up.path.as_str(), up.is_dir), ("..", "..", true));
}
