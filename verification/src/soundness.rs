//! What holds of the browser at every moment.

use vstd::prelude::*;

use crate::app::{
    linked, under, AppView, ColumnView, GoalView, PendingView, Reply, ViewMode,
};
use crate::entry::{child_path, file_entries, merged_listing, position_named, EntryView, FileRow};
use crate::filters::{FiltersView, InputMode};
use crate::keys::Key;
use crate::preview::lemma_with_lines_wf;
use crate::text::{before_last, lemma_rfind, rfind, starts, texts};

verus! {

/// A name in a directory under a root gives a path under that root.
pub proof fn lemma_child_under(path: Seq<char>, root: Seq<char>, name: Seq<char>)
    requires
        under(path, root),
    ensures
        under(child_path(path, name), root),
{
    let child = child_path(path, name);
    let stem = root + "/"@;
    assert(starts(child, stem)) by {
        if path == root {
            assert(child =~= stem + name);
            assert(child.take(stem.len() as int) =~= stem);
        } else {
            assert(child.take(stem.len() as int) =~= path.take(stem.len() as int));
        }
    }
}

/// Above a path that is under a root, and is not that root, is a path under the
/// root.
pub proof fn lemma_parent_under(path: Seq<char>, root: Seq<char>)
    requires
        under(path, root),
        path != root,
    ensures
        before_last(path, '/') is Some,
        under(before_last(path, '/')->0, root),
{
    reveal_strlit("/");
    let stem = root + "/"@;
    let n = root.len() as int;
    lemma_rfind(path, '/');
    assert(path.take(n + 1) =~= stem);
    assert(path[n] == path.take(n + 1)[n]);
    let pos = rfind(path, '/')->0;
    let dir = path.take(pos);
    assert(pos >= n);
    if pos == n {
        assert(dir =~= path.take(n + 1).take(n));
        assert(stem.take(n) =~= root);
    } else {
        assert(dir.take(n + 1) =~= path.take(n + 1));
    }
}

proof fn lemma_tree_load(s: AppView, from_list: bool)
    requires
        s.sound(),
        s.view_mode == ViewMode::Tree,
        !s.preview_focused,
        !s.loading,
    ensures
        s.tree_load(from_list).0.wf(),
        s.tree_load(from_list).0.asks(s.tree_load(from_list).1),
{
}

proof fn lemma_reloaded(s: AppView)
    requires
        s.sound(),
        !s.preview_focused,
        !s.loading,
    ensures
        s.reloaded().0.wf(),
        s.reloaded().0.asks(s.reloaded().1),
{
}

proof fn lemma_preview_update(s: AppView, goal: GoalView)
    requires
        s.cut_back().sound(),
        s.view_mode == ViewMode::Tree,
        s.active_column < s.columns.len(),
        goal is EnterRoot ==> s.active_column == 0 && s.active().selection() is Some
            && s.active().selection()->0.is_dir,
        !s.loading,
    ensures
        s.preview_update(goal).0.wf(),
        s.preview_update(goal).0.asks(s.preview_update(goal).1),
{
    assert(s.cut_back().active() == s.active());
    if let Some(e) = s.active().selection() {
        if e.is_dir && s.active().partition is Some {
            lemma_child_under(s.active().path, s.active().partition_root, e.name);
        }
    }
}

proof fn lemma_cut_back(s: AppView)
    requires
        s.sound(),
        s.active_column < s.columns.len(),
    ensures
        s.cut_back().sound(),
{
    let r = s.cut_back();
    assert forall|i: int| 0 <= i < r.columns.len() implies r.columns[i] == s.columns[i] by {}
    assert forall|i: int| 1 <= i < r.columns.len() implies #[trigger] linked(r.columns, i) by {
        assert(linked(s.columns, i));
    }
}

proof fn lemma_with_place(s: AppView, place: usize)
    requires
        s.sound(),
        s.active_column < s.columns.len(),
    ensures
        s.with_place(place).cut_back().sound(),
{
    lemma_cut_back(s);
    let r = s.with_place(place).cut_back();
    let t = s.cut_back();
    let n = s.active_column;
    assert forall|i: int| 0 <= i < n implies r.columns[i] == t.columns[i] by {}
    assert(r.columns[n] == (ColumnView { selected: Some(place), ..t.columns[n] }));
    assert(t.columns[n].wf());
    assert forall|i: int| 1 <= i < r.columns.len() implies #[trigger] linked(r.columns, i) by {
        assert(linked(t.columns, i));
    }
}

proof fn lemma_gone_up(s: AppView)
    requires
        s.sound(),
        s.view_mode == ViewMode::List,
        !s.loading,
    ensures
        s.gone_up().0.wf(),
        s.gone_up().0.asks(s.gone_up().1),
{
    if s.current_partition is Some && s.current_path != s.partition_root {
        lemma_parent_under(s.current_path, s.partition_root);
    }
}

proof fn lemma_entered(s: AppView)
    requires
        s.sound(),
        s.view_mode == ViewMode::List,
        s.input_mode == InputMode::Normal,
        !s.loading,
    ensures
        s.entered().0.wf(),
        s.entered().0.asks(s.entered().1),
{
    lemma_gone_up(s);
    if s.selected is Some && s.current_partition is Some {
        let e = s.entries[s.selected->0 as int];
        lemma_child_under(s.current_path, s.partition_root, e.name);
    }
}

proof fn lemma_list_at_tree(s: AppView)
    requires
        s.sound(),
        s.view_mode == ViewMode::List,
        !s.loading,
    ensures
        s.list_at_tree().0.wf(),
        s.list_at_tree().0.asks(s.list_at_tree().1),
{
    if s.columns.len() > 0 {
        assert(s.active().wf());
    }
}

proof fn lemma_list_key(s: AppView, key: Key)
    requires
        s.sound(),
        s.view_mode == ViewMode::List,
        s.input_mode == InputMode::Normal,
        !s.loading,
    ensures
        s.list_key(key).0.wf(),
        s.list_key(key).0.asks(s.list_key(key).1),
{
    lemma_gone_up(s);
    lemma_entered(s);
}

proof fn lemma_tree_key(s: AppView, key: Key)
    requires
        s.sound(),
        s.view_mode == ViewMode::Tree,
        s.input_mode == InputMode::Normal,
        !s.loading,
    ensures
        s.tree_key(key).0.wf(),
        s.tree_key(key).0.asks(s.tree_key(key).1),
{
    if s.columns.len() > 0 {
        lemma_cut_back(s);
        lemma_preview_update(s, GoalView::Settle);
        assert forall|place: usize|
            (#[trigger] s.tree_place(place)).0.wf() && s.tree_place(place).0.asks(
                s.tree_place(place).1,
            ) by {
            lemma_with_place(s, place);
            lemma_preview_update(s.with_place(place), GoalView::Settle);
        }
        if s.active_column + 1 < s.columns.len() {
            let r = AppView { active_column: s.active_column + 1, ..s };
            lemma_cut_back(r);
            lemma_preview_update(r, GoalView::Settle);
        }
    }
}

proof fn lemma_pager_key(s: AppView, key: Key)
    requires
        s.sound(),
        s.preview_focused,
        !s.loading,
    ensures
        s.pager_key(key).0.wf(),
        s.pager_key(key).0.asks(s.pager_key(key).1),
{
}

proof fn lemma_refiltered(s: AppView)
    requires
        s.sound(),
        s.input_mode.is_entry(),
        !s.loading,
    ensures
        forall|filters: FiltersView|
            (#[trigger] s.refiltered(filters)).0.wf() && s.refiltered(filters).0.asks(
                s.refiltered(filters).1,
            ),
{
    assert forall|filters: FiltersView|
        (#[trigger] s.refiltered(filters)).0.wf() && s.refiltered(filters).0.asks(
            s.refiltered(filters).1,
        ) by {
        lemma_reloaded(AppView { filters, ..s }.input_closed());
    }
}

proof fn lemma_input_key(s: AppView, key: Key, now: i64)
    requires
        s.sound(),
        s.input_mode.is_entry(),
        !s.loading,
    ensures
        s.input_key(key, now).0.wf(),
        s.input_key(key, now).0.asks(s.input_key(key, now).1),
{
    lemma_refiltered(s);
}

proof fn lemma_normal_key(s: AppView, key: Key)
    requires
        s.sound(),
        s.pending is Idle,
        s.input_mode == InputMode::Normal,
        !s.preview_focused,
        !s.loading,
    ensures
        s.normal_key(key).0.wf(),
        s.normal_key(key).0.asks(s.normal_key(key).1),
{
    lemma_reloaded(AppView { filters: FiltersView::none(), ..s });
    match s.view_mode {
        ViewMode::List => {
            lemma_tree_load(AppView { view_mode: ViewMode::Tree, ..s }, true);
            lemma_list_key(s, key);
        },
        ViewMode::Tree => {
            lemma_list_at_tree(AppView { view_mode: ViewMode::List, ..s });
            lemma_tree_key(s, key);
        },
    }
}

/// Every key keeps the state together, and asks for just what is then awaited.
pub proof fn law_key_keeps_state(s: AppView, key: Key, now: i64)
    requires
        s.wf(),
        s.pending is Idle,
    ensures
        s.pressed(key, now).0.wf(),
        s.pressed(key, now).0.asks(s.pressed(key, now).1),
{
    if s.input_mode == InputMode::SortSelect {
        lemma_reloaded(
            AppView { sort_mode: s.pending_sort, input_mode: InputMode::Normal, ..s },
        );
    } else if s.input_mode == InputMode::ListPreview {
    } else if s.input_mode != InputMode::Normal {
        lemma_input_key(s, key, now);
    } else if s.preview_focused {
        lemma_pager_key(s, key);
    } else {
        lemma_normal_key(s, key);
    }
}

proof fn lemma_walked(s: AppView, names: Seq<Seq<char>>)
    requires
        s.sound(),
        s.view_mode == ViewMode::Tree,
        s.active_column < s.columns.len(),
        !s.loading,
    ensures
        s.walked(names).0.wf(),
        s.walked(names).0.asks(s.walked(names).1),
{
    lemma_cut_back(s);
    lemma_preview_update(s, GoalView::Settle);
    if names.len() > 0 {
        if let Some(i) = position_named(s.active().entries, names[0]) {
            lemma_with_place(s, i);
            lemma_preview_update(s.with_place(i), GoalView::Walk(names.drop_first()));
        }
    }
}

proof fn lemma_preview_shown(s: AppView, goal: GoalView)
    requires
        s.sound(),
        s.view_mode == ViewMode::Tree,
        s.active_column < s.columns.len(),
        goal is EnterRoot ==> s.columns.len() >= 2,
        !s.loading,
    ensures
        s.preview_shown(goal).0.wf(),
        s.preview_shown(goal).0.asks(s.preview_shown(goal).1),
{
    match goal {
        GoalView::Settle => {},
        GoalView::EnterRoot => {
            lemma_walked(AppView { active_column: 1, ..s }, s.trail());
        },
        GoalView::Walk(rest) => {
            lemma_walked(s, rest);
            if s.active_column + 1 < s.columns.len() {
                lemma_walked(AppView { active_column: s.active_column + 1, ..s }, rest);
            }
        },
    }
}

proof fn lemma_column_added(s: AppView, column: ColumnView)
    requires
        s.sound(),
        column.wf(),
        column.partition is None <==> s.columns.len() == 0,
        s.columns.len() > 0 ==> s.columns.last().leads_to(
            column.partition->0,
            column.partition_root,
            column.path,
        ),
    ensures
        (AppView { columns: s.columns.push(column), ..s }).sound(),
{
    let r = AppView { columns: s.columns.push(column), ..s };
    assert forall|i: int| 0 <= i < r.columns.len() implies (#[trigger] r.columns[i]).wf() && (
    r.columns[i].partition is None <==> i == 0) by {
        if i < s.columns.len() {
            assert(s.columns[i].wf());
        }
    }
    assert forall|i: int| 1 <= i < r.columns.len() implies #[trigger] linked(r.columns, i) by {
        if i < s.columns.len() {
            assert(linked(s.columns, i));
        }
    }
}

proof fn lemma_partitions_column(
    s: AppView,
    from_list: bool,
    entries: Seq<EntryView>,
    rows: Seq<FileRow>,
)
    requires
        s.sound(),
        s.view_mode == ViewMode::Tree,
        s.columns.len() == 0,
        from_list && s.current_partition is Some ==> s.with_partitions(
            entries,
            rows,
        ).at_partition().on_directory(),
        !s.loading,
    ensures
        s.tree_root_files_read(from_list, entries, rows, None).0.wf(),
        s.tree_root_files_read(from_list, entries, rows, None).0.asks(
            s.tree_root_files_read(from_list, entries, rows, None).1,
        ),
{
    let column = ColumnView::partitions(
        merged_listing(entries, file_entries(rows), s.sort_mode),
    );
    let t = s.with_partitions(entries, rows);
    lemma_column_added(s, column);
    assert(t == (AppView { columns: s.columns.push(column), ..s }));
    lemma_cut_back(t);
    lemma_preview_update(t, GoalView::Settle);
    if from_list && s.current_partition is Some {
        if let Some(i) = position_named(t.active().entries, t.current_partition->0) {
            lemma_with_place(t, i);
        }
        lemma_preview_update(t.at_partition(), GoalView::EnterRoot);
    }
}

/// Every reply that is awaited keeps the state together, and asks for just what
/// is then awaited.
pub proof fn law_reply_keeps_state(s: AppView, reply: Reply)
    requires
        s.wf(),
        s.accepts(reply),
    ensures
        s.answered(reply).0.wf(),
        s.answered(reply).0.asks(s.answered(reply).1),
{
    let t = AppView { pending: PendingView::Idle, ..s };
    match (s.pending, reply) {
        (
            PendingView::TreeRootFiles { from_list, entries },
            Reply::RootFiles { files, error, .. },
        ) => {
            if error is None {
                assert(t.with_partitions(entries, files@).at_partition().active()
                    == s.with_partitions(entries, files@).at_partition().active());
                lemma_partitions_column(t, from_list, entries, files@);
            }
        },
        (
            PendingView::ColumnRows { partition, partition_root, path, goal },
            Reply::Directory { components, error, .. },
        ) => {
            let column = ColumnView::directory(partition, partition_root, path, components@);
            lemma_column_added(t, column);
            lemma_preview_shown(AppView { columns: t.columns.push(column), ..t }, goal);
        },
        (PendingView::FilePreview { goal }, Reply::Preview { preview }) => {
            lemma_preview_shown(AppView { file_preview: Some(preview@), ..t }, goal);
        },
        (PendingView::Pattern { value }, Reply::Glob { regex, error }) => {
            lemma_refiltered(t);
        },
        (PendingView::Size, Reply::Size { size, error }) => {
            lemma_refiltered(t);
        },
        (_, Reply::Lines { batch }) => {
            lemma_with_lines_wf(
                s.file_preview->0,
                texts(batch.lines@),
                batch.bytes as int,
                batch.ended,
            );
        },
        _ => {},
    }
}

} // verus!
