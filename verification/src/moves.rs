//! What the keys that move do, told by where they lead.

use vstd::prelude::*;

use crate::app::{AppView, ColumnView, LandingView, PendingView, RequestView, ViewMode};
use crate::entry::EntryView;
use crate::filters::InputMode;
use crate::keys::Key;
use crate::text::lemma_rfind_join;

verus! {

impl AppView {
    /// Whether the browser waits for a key that moves.
    pub open spec fn at_rest(self) -> bool {
        &&& self.wf()
        &&& self.pending is Idle
        &&& self.input_mode == InputMode::Normal
        &&& !self.preview_focused
    }
}

/// Whether the request is for what stands behind an entry of a column: the paths of
/// a partition, the rows of a directory, or the beginning of a file.
pub open spec fn is_for(request: RequestView, column: ColumnView, entry: EntryView) -> bool {
    if !entry.is_dir {
        request == (RequestView::Preview {
            path: entry.path,
            size: entry.total_size,
            atime: entry.latest_atime,
        })
    } else {
        match column.partition {
            Some(p) => request == (RequestView::Directory {
                partition: p,
                path: column.path + "/"@ + entry.name,
            }),
            None => request == (RequestView::PathRange { partition: entry.name }),
        }
    }
}

/// In the list, Down and `j` select the entry below, Up and `k` the one above, `g`
/// the first and `G` the last, as far as there is one; nothing else changes, and
/// nothing is asked for.
pub proof fn law_list_moves(s: AppView, key: Key, now: i64)
    requires
        s.at_rest(),
        s.view_mode == ViewMode::List,
        0 < s.entries.len() <= usize::MAX,
        s.selected matches Some(i) ==> i < s.entries.len(),
        key == Key::Down || key == Key::Char('j') || key == Key::Up || key == Key::Char('k') || key
            == Key::Char('g') || key == Key::Char('G'),
    ensures
        ({
            let r = s.pressed(key, now);
            let last = s.entries.len() - 1;
            &&& r.1 is Key
            &&& r.0 == (AppView { selected: r.0.selected, ..s })
            &&& r.0.selected is Some
            &&& key == Key::Down || key == Key::Char('j') ==> {
                &&& s.selected is None ==> r.0.selected->0 == 0
                &&& s.selected is Some && s.selected->0 < last ==> r.0.selected->0 == s.selected->0
                    + 1
                &&& s.selected is Some && s.selected->0 == last ==> r.0.selected->0 == last
            }
            &&& key == Key::Up || key == Key::Char('k') ==> {
                &&& s.selected is None ==> r.0.selected->0 == 0
                &&& s.selected is Some && s.selected->0 > 0 ==> r.0.selected->0 == s.selected->0 - 1
                &&& s.selected is Some && s.selected->0 == 0 ==> r.0.selected->0 == 0
            }
            &&& key == Key::Char('g') ==> r.0.selected->0 == 0
            &&& key == Key::Char('G') ==> r.0.selected->0 == last
        }),
{
}

/// In an empty list the keys that select do nothing.
pub proof fn law_empty_list(s: AppView, key: Key, now: i64)
    requires
        s.at_rest(),
        s.view_mode == ViewMode::List,
        s.entries.len() == 0,
        key == Key::Down || key == Key::Char('j') || key == Key::Up || key == Key::Char('k') || key
            == Key::Char('g') || key == Key::Char('G') || key == Key::Char(' '),
    ensures
        s.pressed(key, now) == (s, RequestView::Key),
{
}

/// In the tree, the same keys move the selection of the active column in the same
/// way. What is then selected is asked for, to be shown in place of all that stood
/// behind the column; what stands before it stays.
pub proof fn law_tree_moves(s: AppView, key: Key, now: i64)
    requires
        s.at_rest(),
        s.view_mode == ViewMode::Tree,
        s.columns.len() > 0,
        0 < s.columns[s.active_column].entries.len() <= usize::MAX,
        s.columns[s.active_column].selected matches Some(i) ==> i
            < s.columns[s.active_column].entries.len(),
        key == Key::Down || key == Key::Char('j') || key == Key::Up || key == Key::Char('k') || key
            == Key::Char('g') || key == Key::Char('G'),
    ensures
        ({
            let r = s.pressed(key, now);
            let n = s.active_column;
            let c = s.columns[n];
            let d = r.0.columns[n];
            let last = c.entries.len() - 1;
            &&& r.0.active_column == n
            &&& r.0.columns.len() == n + 1
            &&& forall|i: int| 0 <= i < n ==> r.0.columns[i] == s.columns[i]
            &&& d == (ColumnView { selected: d.selected, ..c })
            &&& d.selected is Some
            &&& d.selected->0 < c.entries.len()
            &&& is_for(r.1, c, c.entries[d.selected->0 as int])
            &&& r.0.file_preview is None
            &&& key == Key::Down || key == Key::Char('j') ==> {
                &&& c.selected is None ==> d.selected->0 == 0
                &&& c.selected is Some && c.selected->0 < last ==> d.selected->0 == c.selected->0
                    + 1
                &&& c.selected is Some && c.selected->0 == last ==> d.selected->0 == last
            }
            &&& key == Key::Up || key == Key::Char('k') ==> {
                &&& c.selected is None ==> d.selected->0 == 0
                &&& c.selected is Some && c.selected->0 > 0 ==> d.selected->0 == c.selected->0 - 1
                &&& c.selected is Some && c.selected->0 == 0 ==> d.selected->0 == 0
            }
            &&& key == Key::Char('g') ==> d.selected->0 == 0
            &&& key == Key::Char('G') ==> d.selected->0 == last
        }),
{
}

/// In the tree, Down and then Up leads back to the place that was selected, and so
/// does Up and then Down, wherever there is room for the first step.
pub proof fn law_tree_down_and_up(s: AppView, down_first: bool, now: i64, later: AppView)
    requires
        s.at_rest(),
        later.at_rest(),
        s.view_mode == ViewMode::Tree,
        later.view_mode == ViewMode::Tree,
        s.columns.len() > 0,
        s.columns[s.active_column].entries.len() <= usize::MAX,
        s.columns[s.active_column].selected is Some,
        down_first ==> s.columns[s.active_column].selected->0 + 1
            < s.columns[s.active_column].entries.len(),
        !down_first ==> 0 < s.columns[s.active_column].selected->0
            < s.columns[s.active_column].entries.len(),
        ({
            let first = s.pressed(
                if down_first {
                    Key::Down
                } else {
                    Key::Up
                },
                now,
            ).0;
            &&& later.active_column == first.active_column
            &&& later.columns.len() > later.active_column
            &&& later.columns[later.active_column] == first.columns[first.active_column]
        }),
    ensures
        ({
            let back = later.pressed(
                if down_first {
                    Key::Up
                } else {
                    Key::Down
                },
                now,
            );
            &&& back.0.active_column == s.active_column
            &&& back.0.columns[s.active_column] == s.columns[s.active_column]
        }),
{
    let first = s.pressed(
        if down_first {
            Key::Down
        } else {
            Key::Up
        },
        now,
    ).0;
    let n = s.active_column;
    law_tree_moves(
        s,
        if down_first {
            Key::Down
        } else {
            Key::Up
        },
        now,
    );
    law_tree_moves(
        later,
        if down_first {
            Key::Up
        } else {
            Key::Down
        },
        now,
    );
}

/// In a column without entries Up and Down do nothing.
pub proof fn law_empty_column(s: AppView, key: Key, now: i64)
    requires
        s.at_rest(),
        s.view_mode == ViewMode::Tree,
        s.columns.len() == 0 || s.columns[s.active_column].entries.len() == 0,
        key == Key::Down || key == Key::Char('j') || key == Key::Up || key == Key::Char('k'),
    ensures
        s.pressed(key, now) == (s, RequestView::Key),
{
}

/// In the tree, Right, Enter and Space step into the column beside the active one,
/// if there is one and no file is previewed, and ask for what is selected there.
pub proof fn law_tree_into_column(s: AppView, key: Key, now: i64)
    requires
        s.at_rest(),
        s.view_mode == ViewMode::Tree,
        s.file_preview is None,
        key == Key::Right || key == Key::Enter || key == Key::Char(' '),
    ensures
        ({
            let r = s.pressed(key, now);
            let n = s.active_column + 1;
            &&& n >= s.columns.len() ==> r == (s, RequestView::Key)
            &&& n < s.columns.len() ==> {
                let c = s.columns[n];
                &&& r.0.active_column == n
                &&& r.0.columns == s.columns.take(n + 1)
                &&& c.selected is Some && c.selected->0 < c.entries.len() ==> is_for(
                    r.1,
                    c,
                    c.entries[c.selected->0 as int],
                )
                &&& c.selected is None ==> r.1 is Key
            }
        }),
{
    let n = s.active_column + 1;
    if n < s.columns.len() {
        assert(s.pressed(key, now).0.columns =~= s.columns.take(n + 1));
    }
}

/// In the tree, with a file previewed, the same keys hand the keyboard to it, and
/// Esc, Left, `q` and Space take it back; nothing else changes.
pub proof fn law_tree_into_file(s: AppView, key: Key, out: Key, now: i64)
    requires
        s.at_rest(),
        s.view_mode == ViewMode::Tree,
        s.file_preview is Some,
        key == Key::Right || key == Key::Enter || key == Key::Char(' '),
        out == Key::Esc || out == Key::Left || out == Key::Char('q') || out == Key::Char(' '),
    ensures
        s.pressed(key, now) == (AppView { preview_focused: true, ..s }, RequestView::Key),
        s.pressed(key, now).0.pressed(out, now) == (s, RequestView::Key),
{
}

/// In the tree, Left and Backspace step back to the column before the active one,
/// which keeps what stands beside it; before the first column there is nothing.
/// Nothing is asked for.
pub proof fn law_tree_back(s: AppView, key: Key, now: i64)
    requires
        s.at_rest(),
        s.view_mode == ViewMode::Tree,
        key == Key::Left || key == Key::Backspace,
    ensures
        ({
            let r = s.pressed(key, now);
            let n = s.active_column;
            &&& r.1 is Key
            &&& n == 0 ==> r.0 == s
            &&& n > 0 ==> r.0 == (AppView {
                active_column: n - 1,
                columns: s.columns.take(n + 1),
                ..s
            })
        }),
{
    let n = s.active_column;
    if n > 0 {
        assert(s.columns.take(s.columns.len() as int) =~= s.columns);
    }
}

/// In the list, Enter and Right on a partition enter it: its paths are asked for, to
/// tell its root from. On a directory they enter that, on the way up they do what
/// Left does, and on a file, or where nothing is selected, nothing.
pub proof fn law_list_enter(s: AppView, key: Key, now: i64)
    requires
        s.at_rest(),
        s.view_mode == ViewMode::List,
        key == Key::Enter || key == Key::Right,
        s.selected matches Some(i) ==> i < s.entries.len(),
    ensures
        ({
            let r = s.pressed(key, now);
            let e = s.entries[s.selected->0 as int];
            &&& s.selected is None || !e.is_dir ==> r == (s, RequestView::Key)
            &&& s.selected is Some && e.is_dir && e.name == ".."@ ==> r == s.pressed(Key::Left, now)
            &&& s.selected is Some && e.is_dir && e.name != ".."@ && s.current_partition is None
                ==> {
                &&& r.1 == (RequestView::PathRange { partition: e.name })
                &&& r.0.pending == PendingView::PathRange(LandingView::First)
                &&& r.0.current_partition == Some(e.name)
                &&& r.0.partition_root.len() == 0
                &&& r.0.current_path.len() == 0
            }
            &&& s.selected is Some && e.is_dir && e.name != ".."@ && s.current_partition is Some
                ==> {
                &&& r.0.current_partition == s.current_partition
                &&& r.0.partition_root == s.partition_root
                &&& r.0.current_path == s.current_path + "/"@ + e.name
                &&& r.0.pending == PendingView::Directory(LandingView::First) || r.0.pending
                    == PendingView::PathRange(LandingView::First)
                &&& s.partition_root.len() > 0 ==> r.1 == (RequestView::Directory {
                    partition: s.current_partition->0,
                    path: s.current_path + "/"@ + e.name,
                })
                &&& s.partition_root.len() == 0 ==> r.1 == (RequestView::PathRange {
                    partition: s.current_partition->0,
                })
            }
        }),
{
}

/// In the list, Left and Backspace in a directory below the root of its partition
/// lead to the directory above: from `dir/name` to `dir`.
pub proof fn law_list_up(s: AppView, key: Key, now: i64, dir: Seq<char>, name: Seq<char>)
    requires
        s.at_rest(),
        s.view_mode == ViewMode::List,
        key == Key::Left || key == Key::Backspace,
        s.current_partition is Some,
        s.partition_root.len() > 0,
        s.current_path == dir + "/"@ + name,
        !name.contains('/'),
        s.current_path != s.partition_root,
    ensures
        ({
            let r = s.pressed(key, now);
            &&& r.0.current_path == dir
            &&& r.0.pending == PendingView::Directory(LandingView::First)
            &&& r.0.partition_root == s.partition_root
            &&& r.0.current_partition == s.current_partition
            &&& r.1 == (RequestView::Directory {
                partition: s.current_partition->0,
                path: dir,
            })
        }),
{
    reveal_strlit("/");
    assert(s.current_path =~= dir.push('/') + name);
    lemma_rfind_join(dir, '/', name);
}

/// In the list, Space on a file asks for the beginning of that file.
pub proof fn law_list_space(s: AppView, now: i64)
    requires
        s.at_rest(),
        s.view_mode == ViewMode::List,
        s.selected is Some,
        s.selected->0 < s.entries.len(),
        !s.entries[s.selected->0 as int].is_dir,
    ensures
        ({
            let e = s.entries[s.selected->0 as int];
            s.pressed(Key::Char(' '), now).1 == (RequestView::Preview {
                path: e.path,
                size: e.total_size,
                atime: e.latest_atime,
            })
        }),
{
}

/// The key `t` goes to the other view: to the tree, which is built from the
/// partitions on, or to the list. The place of the list, its order and its filters
/// are not lost on the way to the tree.
pub proof fn law_toggle(s: AppView, now: i64)
    requires
        s.at_rest(),
    ensures
        ({
            let r = s.pressed(Key::Char('t'), now);
            &&& r.0.view_mode != s.view_mode
            &&& r.0.sort_mode == s.sort_mode
            &&& r.0.filters == s.filters
            &&& s.view_mode == ViewMode::List ==> {
                &&& r.1 is Partitions
                &&& r.0.pending == (PendingView::TreePartitions { from_list: true })
                &&& r.0.columns.len() == 0
                &&& r.0.current_partition == s.current_partition
                &&& r.0.partition_root == s.partition_root
                &&& r.0.current_path == s.current_path
                &&& r.0.entries == s.entries
                &&& r.0.selected == s.selected
            }
            &&& s.view_mode == ViewMode::Tree && (s.columns.len() == 0 || s.active_column == 0) ==> {
                &&& r.1 is Partitions
                &&& r.0.current_partition is None
            }
            &&& s.view_mode == ViewMode::Tree && s.active_column > 0 ==> {
                let c = s.columns[s.active_column];
                &&& c.partition_root.len() > 0 ==> r.1 == (RequestView::Directory {
                    partition: c.partition->0,
                    path: c.path,
                })
                &&& c.partition_root.len() == 0 ==> r.1 == (RequestView::PathRange {
                    partition: c.partition->0,
                })
            }
        }),
{
    if s.columns.len() > 0 {
        assert(s.columns[s.active_column].partition is None <==> s.active_column == 0);
    }
}

/// A key that means nothing does nothing.
pub proof fn law_other_keys(s: AppView, key: Key, now: i64)
    requires
        s.at_rest(),
        key == Key::Other || (key matches Key::Char(c) && c != 'q' && c != 't' && c != 's' && c
            != '/' && c != 'o' && c != 'n' && c != '>' && c != '<' && c != 'c' && c != 'j' && c
            != 'k' && c != 'g' && c != 'G' && c != ' '),
    ensures
        s.pressed(key, now) == (s, RequestView::Key),
{
}

/// At the root of a partition, Left and Backspace lead to the list of partitions, and
/// its first entry.
pub proof fn law_list_out(s: AppView, key: Key, now: i64)
    requires
        s.at_rest(),
        s.view_mode == ViewMode::List,
        key == Key::Left || key == Key::Backspace,
        s.current_partition is Some,
        s.current_path == s.partition_root || s.current_path.len() == 0,
    ensures
        ({
            let r = s.pressed(key, now);
            &&& r.1 is Partitions
            &&& r.0.pending == PendingView::Partitions(LandingView::First)
            &&& r.0.current_partition is None
            &&& r.0.partition_root.len() == 0
            &&& r.0.current_path.len() == 0
        }),
{
}

/// While a file lies over the list, or the keyboard pages through one, the keys that
/// have no meaning there do nothing.
pub proof fn law_file_keys_without_meaning(s: AppView, key: Key, now: i64)
    requires
        s.wf(),
        s.pending is Idle,
        s.input_mode == InputMode::ListPreview || s.preview_focused,
        s.input_mode == InputMode::ListPreview ==> key != Key::Esc && key != Key::Char(' ') && key
            != Key::Char('q'),
        s.preview_focused ==> key == Key::Enter || key == Key::Right || key == Key::Backspace || key
            == Key::Other || (key matches Key::Char(c) && c != 'j' && c != 'k' && c != 'g' && c
            != 'G' && c != 'd' && c != 'u' && c != 'q' && c != ' '),
    ensures
        s.pressed(key, now) == (s, RequestView::Key),
{
}

} // verus!
