//! What the browser promises as a whole.

use vstd::prelude::*;

use crate::app::{AppView, LandingView, PendingView, Reply, RequestView, ViewMode};
use crate::entry::{
    child_path, component_entries, file_entries, lemma_position_named, merged_listing, parent_entry,
    partition_entries, previewed, EntryView,
};
use crate::filters::InputMode;
use crate::keys::Key;
use crate::load::landing_place;
use crate::preview::{last_line, PreviewView};
use crate::soundness::law_key_keeps_state;
use crate::text::lemma_rfind_join;

verus! {

/// Only `q` and Esc end the program, and only while nothing else has the
/// keyboard.
pub proof fn law_quitting(s: AppView, key: Key, now: i64)
    requires
        s.wf(),
        s.pending is Idle,
    ensures
        s.pressed(key, now).1 is Quit <==> s.input_mode == InputMode::Normal && !s.preview_focused
            && (key == Key::Esc || key == Key::Char('q')),
{
    law_key_keeps_state(s, key, now);
}

/// A failure ends the program only in the load at its start. Any other failure is
/// told in the status, and the next key is awaited. The place, the columns, the
/// selection, the order and the filters stay.
pub proof fn law_failure(s: AppView, reply: Reply, error: String)
    requires
        s.wf(),
        s.accepts(reply),
        reply matches Reply::Partitions { error: e, .. } ==> e == Some(error),
        reply matches Reply::RootFiles { error: e, .. } ==> e == Some(error),
        reply matches Reply::PathRange { error: e, .. } ==> e == Some(error),
        reply matches Reply::Directory { error: e, .. } ==> e == Some(error),
        reply is Partitions || reply is RootFiles || reply is PathRange || reply is Directory,
    ensures
        s.answered(reply).0.pending is Idle,
        !s.answered(reply).0.loading,
        s.answered(reply).0.same_place(s),
        s.answered(reply).0.view_mode == s.view_mode,
        s.answered(reply).0.columns == s.columns,
        s.answered(reply).0.active_column == s.active_column,
        s.answered(reply).0.selected == s.selected,
        s.answered(reply).0.filters == s.filters,
        s.answered(reply).0.sort_mode == s.sort_mode,
        s.at_start() ==> s.answered(reply).1 == (RequestView::Abort { error: error@ }),
        !s.at_start() ==> s.answered(reply).1 is Key && s.answered(reply).0.status == "Error: "@
            + error@,
{
}

impl AppView {
    /// Whether the load at the start of the program is under way.
    pub open spec fn at_start(self) -> bool {
        match self.pending {
            PendingView::Partitions(landing) => landing is Start,
            PendingView::RootFiles(landing) => landing is Start,
            PendingView::PathRange(landing) => landing is Start,
            PendingView::Directory(landing) => landing is Start,
            _ => false,
        }
    }

    /// Whether both browsers stand at the same place.
    pub open spec fn same_place(self, other: AppView) -> bool {
        &&& self.current_partition == other.current_partition
        &&& self.partition_root == other.partition_root
        &&& self.current_path == other.current_path
    }
}

/// Opening a file over the list and closing it again changes nothing.
pub proof fn law_overlay_leaves_no_trace(s: AppView, preview: PreviewView, now: i64, key: Key)
    requires
        s.wf(),
        s.pending is Idle,
        s.input_mode == InputMode::Normal,
        s.view_mode == ViewMode::List,
        previewed(s.entries, s.selected) is Some,
        key == Key::Esc || key == Key::Char(' ') || key == Key::Char('q'),
    ensures
        ({
            let asked = s.pressed(Key::Char(' '), now);
            let shown = AppView { pending: PendingView::Idle, ..asked.0 }.list_preview_read(
                preview,
            );
            let closed = shown.0.pressed(key, now);
            &&& asked.1 is Preview
            &&& shown.0.list_preview == Some(preview)
            &&& shown.0.file_preview == s.file_preview
            &&& closed.0 == s
            &&& closed.1 is Key
        }),
{
}

/// The list opens a file over itself only for a file: never for a directory, and
/// never where nothing is selected.
pub proof fn law_overlay_shows_files(s: AppView, now: i64)
    requires
        s.wf(),
        s.pending is Idle,
        s.input_mode == InputMode::Normal,
        s.view_mode == ViewMode::List,
    ensures
        s.pressed(Key::Char(' '), now).1 is Preview <==> (s.selected is Some && s.selected->0
            < s.entries.len() && !s.entries[s.selected->0 as int].is_dir),
        !(s.pressed(Key::Char(' '), now).1 is Preview) ==> s.pressed(Key::Char(' '), now).0 == s,
{
}

/// A key of the list leaves the file of the tree alone, and a key of the tree the
/// file over the list.
pub proof fn law_previews_apart(s: AppView, key: Key, now: i64)
    requires
        s.wf(),
        s.pending is Idle,
    ensures
        s.view_mode == ViewMode::List ==> s.pressed(key, now).0.file_preview == s.file_preview,
        s.view_mode == ViewMode::Tree ==> s.list_preview is None && s.pressed(
            key,
            now,
        ).0.list_preview is None,
{
    if s.input_mode == InputMode::Normal && !s.preview_focused {
        match s.view_mode {
            ViewMode::List => lemma_list_key_apart(s, key),
            ViewMode::Tree => lemma_tree_key_apart(s, key),
        }
    }
}

proof fn lemma_list_key_apart(s: AppView, key: Key)
    ensures
        s.list_key(key).0.file_preview == s.file_preview,
{
}

proof fn lemma_tree_key_apart(s: AppView, key: Key)
    ensures
        s.tree_key(key).0.list_preview == s.list_preview,
{
}

/// In a list that is not empty, every move of the selection ends on an entry, if
/// it began on one or on nothing.
pub proof fn law_selection_stays_in_list(s: AppView)
    requires
        s.entries.len() > 0,
        s.entries.len() <= usize::MAX,
        s.selection_stands(),
    ensures
        s.next().selection_stands(),
        s.prev().selection_stands(),
        s.first().selection_stands(),
        s.last().selection_stands(),
        s.next().selected is Some,
        s.prev().selected is Some,
        s.selected is Some && s.selected->0 + 1 < s.entries.len() ==> s.next().prev() == s,
        s.selected is Some && s.selected->0 > 0 ==> s.prev().next() == s,
{
}

/// When a list that is not empty has been loaded, the selection is on one of its
/// entries, or where there was none, on none.
pub proof fn law_landing(landing: LandingView, selected: Option<usize>, entries: Seq<EntryView>)
    requires
        0 < entries.len() <= usize::MAX,
    ensures
        landing_place(landing, selected, entries) matches Some(i) ==> i < entries.len(),
        !(landing is Keep) ==> landing_place(landing, selected, entries) is Some,
        landing is Keep && selected is Some && selected->0 < entries.len() ==> landing_place(
            landing,
            selected,
            entries,
        ) == selected,
        landing matches LandingView::Named(Some(name)) ==> forall|k: int|
            0 <= k < entries.len() && (#[trigger] entries[k]).name == name
                ==> entries[landing_place(landing, selected, entries)->0 as int].name == name,
{
    if let LandingView::Named(Some(name)) = landing {
        lemma_position_named(entries, name);
    }
}

/// A directory that has been loaded lists the way up first, and then its rows as
/// they came.
pub proof fn law_directory_listing(s: AppView, reply: Reply)
    requires
        s.wf(),
        s.pending is Directory,
        reply is Directory,
        reply->Directory_error is None,
    ensures
        s.answered(reply).0.entries == seq![parent_entry()] + component_entries(
            reply->components@,
            s.current_path,
        ),
        s.answered(reply).0.same_place(s),
        !s.answered(reply).0.loading,
{
}

/// The list of partitions, loaded, holds the partitions, and the files that stand
/// outside of any.
pub proof fn law_partition_listing(s: AppView, first: Reply, second: Reply)
    requires
        s.wf(),
        s.pending is Partitions,
        first is Partitions,
        first->Partitions_error is None,
        second is RootFiles,
        second->RootFiles_error is None,
    ensures
        ({
            let t = s.answered(first).0.answered(second).0;
            &&& t.entries == merged_listing(
                partition_entries(first->partitions@),
                file_entries(second->files@),
                s.sort_mode,
            )
            &&& t.current_partition is None
            &&& !t.loading
        }),
{
    assert(s.entries + partition_entries(first->partitions@) =~= partition_entries(
        first->partitions@,
    ));
}

/// Entering a directory and going up again leads back: the same directory of the
/// same partition is asked for. A name with a slash in it, which no directory
/// has, would break this.
pub proof fn law_enter_then_up(s: AppView, now: i64, later: AppView)
    requires
        s.wf(),
        s.pending is Idle,
        s.input_mode == InputMode::Normal,
        s.view_mode == ViewMode::List,
        s.current_partition is Some,
        s.partition_root.len() > 0,
        s.selected is Some,
        s.selected->0 < s.entries.len(),
        s.entries[s.selected->0 as int].is_dir,
        s.entries[s.selected->0 as int].name != ".."@,
        !s.entries[s.selected->0 as int].name.contains('/'),
        later.same_place(s.pressed(Key::Enter, now).0),
        later.input_mode == InputMode::Normal,
        later.view_mode == ViewMode::List,
        !later.preview_focused,
    ensures
        s.pressed(Key::Enter, now).1 == (RequestView::Directory {
            partition: s.current_partition->0,
            path: child_path(s.current_path, s.entries[s.selected->0 as int].name),
        }),
        later.pressed(Key::Left, now).0.same_place(s),
        later.pressed(Key::Left, now).1 == (RequestView::Directory {
            partition: s.current_partition->0,
            path: s.current_path,
        }),
{
    reveal_strlit("/");
    let name = s.entries[s.selected->0 as int].name;
    let child = child_path(s.current_path, name);
    assert(child =~= s.current_path.push('/') + name);
    lemma_rfind_join(s.current_path, '/', name);
    assert(child.len() > s.partition_root.len()) by {
        if s.current_path != s.partition_root {
            assert(s.current_path.len() >= (s.partition_root + "/"@).len());
        }
    }
}

/// Going up from the root of a partition leads to the list of partitions, and from
/// there nowhere.
pub proof fn law_up_to_the_top(s: AppView, now: i64)
    requires
        s.wf(),
        s.pending is Idle,
        s.input_mode == InputMode::Normal,
        s.view_mode == ViewMode::List,
    ensures
        s.current_partition is Some && s.current_path == s.partition_root ==> s.pressed(
            Key::Left,
            now,
        ).1 is Partitions && s.pressed(Key::Left, now).0.current_partition is None,
        s.current_partition is None ==> s.pressed(Key::Left, now) == (s, RequestView::Key),
{
}

/// Cancelling the choice of an order, or the entry of a filter, leaves everything
/// else as it was, whatever was chosen or entered.
pub proof fn law_cancelling(s: AppView, key: Key, now: i64)
    requires
        s.wf(),
        s.pending is Idle,
        s.input_mode == InputMode::SortSelect || s.input_mode.is_entry(),
    ensures
        s.pressed(Key::Esc, now).1 is Key,
        s.input_mode == InputMode::SortSelect ==> s.pressed(Key::Esc, now).0 == (AppView {
            input_mode: InputMode::Normal,
            pending_sort: s.sort_mode,
            ..s
        }),
        s.input_mode.is_entry() ==> s.pressed(Key::Esc, now).0 == (AppView {
            input_mode: InputMode::Normal,
            input_buffer: Seq::empty(),
            ..s
        }),
        s.input_mode == InputMode::SortSelect && key != Key::Enter && key != Key::Char(' ')
            ==> s.pressed(key, now).0.sort_mode == s.sort_mode && s.pressed(key, now).1 is Key,
        s.input_mode.is_entry() && key != Key::Enter ==> s.pressed(key, now).0.filters == s.filters
            && s.pressed(key, now).1 is Key,
{
}

/// A text that is refused as a filter changes no filter and loads nothing.
pub proof fn law_refusing(s: AppView, reply: Reply, error: String)
    requires
        s.wf(),
        s.accepts(reply),
        reply is Glob || reply is Size,
        reply is Glob ==> reply->Glob_error == Some(error),
        reply is Size ==> reply->Size_error == Some(error),
    ensures
        s.answered(reply).1 is Key,
        s.answered(reply).0 == (AppView {
            status: if reply is Glob {
                "Invalid pattern: "@ + error@
            } else {
                error@
            },
            input_mode: InputMode::Normal,
            input_buffer: Seq::empty(),
            pending: PendingView::Idle,
            ..s
        }),
{
}

/// Choosing an order, and entering or clearing filters, loads what is shown again
/// and stays where it is.
pub proof fn law_reloading_stays(s: AppView, key: Key, now: i64)
    requires
        s.wf(),
        s.pending is Idle,
        s.input_mode == InputMode::SortSelect || s.input_mode.is_entry() || (s.input_mode
            == InputMode::Normal && !s.preview_focused && key == Key::Char('c')),
    ensures
        s.pressed(key, now).0.same_place(s),
        s.pressed(key, now).0.view_mode == s.view_mode,
        s.pressed(key, now).0.selected == s.selected,
{
}

/// Stepping into the column to the right and back leads to the same column, with
/// the same columns before it and beside it.
pub proof fn law_right_then_left(s: AppView, now: i64, later: AppView)
    requires
        s.wf(),
        s.pending is Idle,
        s.input_mode == InputMode::Normal,
        s.view_mode == ViewMode::Tree,
        s.file_preview is None,
        s.active_column + 1 < s.columns.len(),
        later.input_mode == InputMode::Normal,
        later.view_mode == ViewMode::Tree,
        !later.preview_focused,
        later.active_column == s.pressed(Key::Right, now).0.active_column,
        s.pressed(Key::Right, now).0.columns.is_prefix_of(later.columns),
    ensures
        later.pressed(Key::Left, now).0.active_column == s.active_column,
        later.pressed(Key::Left, now).0.columns == s.columns.take(s.active_column + 2),
{
    let right = s.pressed(Key::Right, now).0;
    assert(!s.preview_focused);
    assert(right.columns =~= s.columns.take(s.active_column + 2));
    assert(later.pressed(Key::Left, now).0.columns =~= s.columns.take(s.active_column + 2)) by {
        assert(later.columns.take(right.columns.len() as int) =~= right.columns);
    }
}

/// Reading to the end of a file stops with its last line at the top of the pane.
pub proof fn law_bottom(s: AppView, reply: Reply)
    requires
        s.wf(),
        s.pending is PagerBottom,
        s.accepts(reply),
    ensures
        ({
            let r = s.answered(reply);
            let p = r.0.file_preview->0;
            &&& reply->batch.ended ==> r.1 is Key && p.eof_reached && p.scroll_offset == last_line(
                p.total_lines_loaded,
            )
            &&& !reply->batch.ended ==> r.0.pending is PagerBottom && r.1 == (RequestView::Lines {
                path: s.file_preview->0.path,
                offset: s.file_preview->0.file_offset + reply->batch.bytes,
            })
        }),
{
}

} // verus!
