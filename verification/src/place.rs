//! That the place in the index is kept between the list and the tree.

use vstd::prelude::*;

use crate::app::{AppView, ColumnView, GoalView, LandingView, PendingView, Reply, ViewMode};
use crate::entry::{
    child_path, component_entries, lemma_position_named, position_named, ComponentRow,
};
use crate::filters::{opt_text, InputMode};
use crate::keys::Key;
use crate::root::partition_root_of;
use crate::soundness::law_reply_keeps_state;
use crate::text::{components, lemma_until, split, until};

verus! {

/// The path that following `names` from the directory `path` leads to.
pub open spec fn joined(path: Seq<char>, names: Seq<Seq<char>>) -> Seq<char>
    decreases names.len(),
{
    if names.len() == 0 {
        path
    } else {
        joined(child_path(path, names[0]), names.drop_first())
    }
}

/// Whether each of the names can be that of a directory: it is not empty, and has
/// no slash in it.
pub open spec fn plain(names: Seq<Seq<char>>) -> bool {
    forall|i: int| 0 <= i < names.len() ==> (#[trigger] names[i]).len() > 0 && !names[i].contains('/')
}

/// What following `names` adds to a path.
spec fn added(names: Seq<Seq<char>>) -> Seq<char>
    decreases names.len(),
{
    if names.len() == 0 {
        Seq::empty()
    } else {
        "/"@ + names[0] + added(names.drop_first())
    }
}

proof fn lemma_joined(path: Seq<char>, names: Seq<Seq<char>>)
    ensures
        joined(path, names) == path + added(names),
    decreases names.len(),
{
    if names.len() > 0 {
        lemma_joined(child_path(path, names[0]), names.drop_first());
        assert(joined(path, names) =~= path + added(names));
    } else {
        assert(path + added(names) =~= path);
    }
}

proof fn lemma_split_added(first: Seq<char>, names: Seq<Seq<char>>)
    requires
        plain(names),
        !first.contains('/'),
    ensures
        split(first + added(names), '/') == seq![first] + names,
    decreases names.len(),
{
    reveal_strlit("/");
    let s = first + added(names);
    lemma_until(s, '/');
    let n = until(s, '/');
    if names.len() == 0 {
        assert(s =~= first);
        assert(n == s.len()) by {
            if n < s.len() {
                assert(first.contains(first[n]));
            }
        }
        assert(split(s, '/') =~= seq![first] + names);
    } else {
        let rest = names.drop_first();
        assert(s[first.len() as int] == '/');
        assert(n == first.len()) by {
            if n < first.len() {
                assert(first.contains(first[n]));
            }
        }
        assert(s.take(n) =~= first);
        assert(s.skip(n + 1) =~= names[0] + added(rest));
        assert(plain(rest)) by {
            assert forall|i: int| 0 <= i < rest.len() implies (#[trigger] rest[i]).len() > 0
                && !rest[i].contains('/') by {
                assert(rest[i] == names[i + 1]);
            }
        }
        lemma_split_added(names[0], rest);
        assert(split(s, '/') =~= seq![first] + names);
    }
}

proof fn lemma_filter_all(names: Seq<Seq<char>>)
    requires
        plain(names),
    ensures
        names.filter(|p: Seq<char>| p.len() > 0) == names,
        (seq![Seq::<char>::empty()] + names).filter(|p: Seq<char>| p.len() > 0) == names,
    decreases names.len(),
{
    reveal(Seq::filter);
    let kept = |p: Seq<char>| p.len() > 0;
    let all = seq![Seq::<char>::empty()] + names;
    if names.len() > 0 {
        let t = names.drop_last();
        assert forall|i: int| 0 <= i < t.len() implies (#[trigger] t[i]).len() > 0
            && !t[i].contains('/') by {
            assert(t[i] == names[i]);
        }
        lemma_filter_all(t);
        assert(names.last().len() > 0) by {
            assert(names[names.len() - 1].len() > 0);
        }
        assert(all.drop_last() =~= seq![Seq::<char>::empty()] + t);
        assert(all.last() == names.last());
        assert(t.push(names.last()) =~= names);
    } else {
        assert(all.drop_last() =~= Seq::<Seq<char>>::empty());
        assert(all.drop_last().filter(kept) =~= Seq::<Seq<char>>::empty());
        assert(all.last().len() == 0);
        assert(all.filter(kept) =~= names);
    }
}

/// The parts of what following names adds to a path are those names.
pub proof fn lemma_trail(root: Seq<char>, names: Seq<Seq<char>>)
    requires
        plain(names),
    ensures
        components(joined(root, names).skip(root.len() as int)) == names,
{
    lemma_joined(root, names);
    let tail = joined(root, names).skip(root.len() as int);
    assert(tail =~= added(names));
    assert(Seq::<char>::empty() + added(names) =~= added(names));
    lemma_split_added(Seq::empty(), names);
    lemma_filter_all(names);
}

/// Whether the first row of that name is that of a directory.
pub open spec fn has_directory(rows: Seq<ComponentRow>, name: Seq<char>) -> bool {
    exists|i: int|
        #![trigger rows[i]]
        0 <= i < rows.len() && rows[i].component@ == name && rows[i].is_dir && forall|k: int|
            0 <= k < i ==> (#[trigger] rows[k]).component@ != name
}

impl AppView {
    /// The names that are left to follow.
    pub open spec fn names_left(self) -> Seq<Seq<char>> {
        match self.pending {
            PendingView::ColumnRows { goal: GoalView::Walk(rest), .. } => rest,
            _ => self.trail(),
        }
    }

    /// Whether the tree is on its way to where the list stands: it awaits a column
    /// from which the names that are left lead there.
    pub open spec fn on_way(self) -> bool {
        match self.pending {
            PendingView::ColumnRows { partition, partition_root, path, goal } => {
                &&& !(goal is Settle)
                &&& self.current_partition == Some(partition)
                &&& self.partition_root == partition_root
                &&& joined(path, self.names_left()) == self.current_path
            },
            _ => false,
        }
    }

    /// Whether nothing but what is selected in the active column is awaited, and
    /// nothing follows it.
    pub open spec fn settling(self) -> bool {
        &&& self.view_mode == ViewMode::Tree
        &&& self.input_mode == InputMode::Normal
        &&& !self.preview_focused
        &&& match self.pending {
            PendingView::Idle => true,
            PendingView::ColumnRows { goal, .. } => goal is Settle,
            PendingView::FilePreview { goal } => goal is Settle,
            _ => false,
        }
    }

    /// Whether the tree has come to where the list stands: its active column shows
    /// the current directory.
    pub open spec fn arrived(self) -> bool {
        &&& self.columns.len() > 0
        &&& self.active().partition == self.current_partition
        &&& self.active().partition_root == self.partition_root
        &&& self.active().path == self.current_path
        &&& self.settling()
    }
}

proof fn lemma_first_row(rows: Seq<ComponentRow>, dir: Seq<char>, name: Seq<char>)
    requires
        rows.len() <= usize::MAX,
        has_directory(rows, name),
    ensures
        position_named(component_entries(rows, dir), name) is Some,
        ({
            let i = position_named(component_entries(rows, dir), name)->0;
            i < rows.len() && component_entries(rows, dir)[i as int].is_dir
                && component_entries(rows, dir)[i as int].name == name
        }),
{
    let entries = component_entries(rows, dir);
    lemma_position_named(entries, name);
    let i = choose|i: int|
        #![trigger rows[i]]
        0 <= i < rows.len() && rows[i].component@ == name && rows[i].is_dir && forall|k: int|
            0 <= k < i ==> (#[trigger] rows[k]).component@ != name;
    assert(entries[i].name == name);
    let p = position_named(entries, name)->0 as int;
    if p < i {
        assert(entries[p].name == rows[p].component@);
    }
    if i < p {
        assert(entries[i].name != name);
    }
}

/// One step of the way to where the list stands: a column that has the next name
/// as a directory leads on, and the column behind the last name is the one.
pub proof fn law_step_of_the_way(s: AppView, reply: Reply)
    requires
        s.wf(),
        s.on_way(),
        s.input_mode == InputMode::Normal,
        reply is Directory,
        reply->Directory_error is None,
        s.names_left().len() > 0 ==> has_directory(reply->components@, s.names_left()[0]),
    ensures
        s.answered(reply).0.wf(),
        s.answered(reply).0.same_place(s),
        s.answered(reply).0.input_mode == s.input_mode,
        s.names_left().len() == 0 ==> s.answered(reply).0.arrived(),
        s.names_left().len() > 0 ==> s.answered(reply).0.on_way()
            && s.answered(reply).0.names_left() == s.names_left().drop_first(),
{
    law_reply_keeps_state(s, reply);
    match (s.pending, reply) {
        (
            PendingView::ColumnRows { partition, partition_root, path, goal },
            Reply::Directory { components, error, .. },
        ) => {
            assert(components@.len() <= usize::MAX) by {
                assert(components.len() == components@.len());
            }
            let names = s.names_left();
            let column = ColumnView::directory(partition, partition_root, path, components@);
            let t = AppView {
                pending: PendingView::Idle,
                columns: s.columns.push(column),
                active_column: s.active_column + 1,
                ..s
            };
            assert(t.active() == column);
            assert(s.answered(reply) == t.walked(names));
            if names.len() > 0 {
                lemma_first_row(components@, path, names[0]);
                let i = position_named(column.entries, names[0])->0;
                let u = t.with_place(i);
                assert(u.active() == (ColumnView { selected: Some(i), ..column }));
                assert(u.active().selection() == Some(column.entries[i as int]));
            }
        },
        _ => {},
    }
}

/// What the browser has become after some replies.
pub open spec fn after(s: AppView, replies: Seq<Reply>) -> AppView
    decreases replies.len(),
{
    if replies.len() == 0 {
        s
    } else {
        after(s.answered(replies[0]).0, replies.drop_first())
    }
}

/// Whether the replies are directories along `names`: each but the last has the
/// next name as a directory.
pub open spec fn along(replies: Seq<Reply>, names: Seq<Seq<char>>) -> bool {
    &&& replies.len() == names.len() + 1
    &&& forall|i: int|
        0 <= i < replies.len() ==> (#[trigger] replies[i]) is Directory
            && replies[i]->Directory_error is None
    &&& forall|i: int|
        0 <= i < names.len() ==> has_directory((#[trigger] replies[i])->components@, names[i])
}

/// The whole way: where every name on it is found, the tree comes to where the
/// list stands.
pub proof fn law_the_way(s: AppView, replies: Seq<Reply>)
    requires
        s.wf(),
        s.on_way(),
        s.input_mode == InputMode::Normal,
        along(replies, s.names_left()),
    ensures
        after(s, replies).wf(),
        after(s, replies).same_place(s),
        after(s, replies).arrived(),
    decreases replies.len(),
{
    let names = s.names_left();
    let t = s.answered(replies[0]).0;
    let rest = replies.drop_first();
    if names.len() > 0 {
        assert(has_directory(replies[0]->components@, names[0]));
    }
    law_step_of_the_way(s, replies[0]);
    if names.len() > 0 {
        let left = names.drop_first();
        assert(along(rest, left)) by {
            assert forall|i: int| 0 <= i < rest.len() implies (#[trigger] rest[i]) is Directory
                && rest[i]->Directory_error is None by {
                assert(rest[i] == replies[i + 1]);
            }
            assert forall|i: int| 0 <= i < left.len() implies has_directory(
                (#[trigger] rest[i])->components@,
                left[i],
            ) by {
                assert(rest[i] == replies[i + 1]);
                assert(left[i] == names[i + 1]);
            }
        }
        law_the_way(t, rest);
        assert(after(s, replies) == after(t, rest));
    } else {
        assert(rest.len() == 0);
        assert(after(t, rest) == t);
        assert(after(s, replies) == t);
    }
}

proof fn lemma_after(s: AppView, a: Seq<Reply>, b: Seq<Reply>)
    ensures
        after(s, a + b) == after(after(s, a), b),
    decreases a.len(),
{
    if a.len() > 0 {
        assert((a + b).drop_first() =~= a.drop_first() + b);
        lemma_after(s.answered(a[0]).0, a.drop_first(), b);
    } else {
        assert(a + b =~= b);
    }
}

/// Going from the list to the tree sets out for where the list stands, once the
/// partitions and the paths of the current one have been read, and that partition
/// is among them with the root that it had.
pub proof fn law_setting_out(
    s: AppView,
    now: i64,
    partitions: Reply,
    files: Reply,
    range: Reply,
    names: Seq<Seq<char>>,
)
    requires
        s.wf(),
        s.pending is Idle,
        s.input_mode == InputMode::Normal,
        s.view_mode == ViewMode::List,
        s.current_partition is Some,
        s.current_path == joined(s.partition_root, names),
        plain(names),
        partitions is Partitions,
        partitions->Partitions_error is None,
        files is RootFiles,
        files->RootFiles_error is None,
        s.pressed(Key::Char('t'), now).0.answered(partitions).0.accepts(files),
        ({
            let column = s.pressed(Key::Char('t'), now).0.answered(partitions).0.answered(
                files,
            ).0.columns[0];
            column.selection() is Some && column.selection()->0.name == s.current_partition->0
        }),
        range is PathRange,
        range->PathRange_error is None,
        partition_root_of(opt_text(range->first), opt_text(range->last)) == s.partition_root,
    ensures
        ({
            let t = after(s.pressed(Key::Char('t'), now).0, seq![partitions, files, range]);
            t.wf() && t.on_way() && t.same_place(s) && t.input_mode == InputMode::Normal
                && t.names_left() == names
        }),
{
    let a = s.pressed(Key::Char('t'), now).0;
    crate::soundness::law_key_keeps_state(s, Key::Char('t'), now);
    let b = a.answered(partitions).0;
    law_reply_keeps_state(a, partitions);
    let c = b.answered(files).0;
    law_reply_keeps_state(b, files);
    let d = c.answered(range).0;
    let replies = seq![partitions, files, range];
    assert(replies.drop_first() =~= seq![files, range]);
    assert(seq![files, range].drop_first() =~= seq![range]);
    assert(seq![range].drop_first() =~= Seq::<Reply>::empty());
    assert(after(a, replies) == d) by {
        reveal_with_fuel(after, 4);
    }
    lemma_trail(s.partition_root, names);
    assert(c.pending is ColumnRange);
    law_reply_keeps_state(c, range);
}

/// Going from the list to the tree keeps the place: where the partition and every
/// name on the way are found, the active column shows the directory of the list.
pub proof fn law_list_to_tree(
    s: AppView,
    now: i64,
    partitions: Reply,
    files: Reply,
    range: Reply,
    names: Seq<Seq<char>>,
    directories: Seq<Reply>,
)
    requires
        s.wf(),
        s.pending is Idle,
        s.input_mode == InputMode::Normal,
        s.view_mode == ViewMode::List,
        s.current_partition is Some,
        s.current_path == joined(s.partition_root, names),
        plain(names),
        partitions is Partitions,
        partitions->Partitions_error is None,
        files is RootFiles,
        files->RootFiles_error is None,
        s.pressed(Key::Char('t'), now).0.answered(partitions).0.accepts(files),
        ({
            let column = s.pressed(Key::Char('t'), now).0.answered(partitions).0.answered(
                files,
            ).0.columns[0];
            column.selection() is Some && column.selection()->0.name == s.current_partition->0
        }),
        range is PathRange,
        range->PathRange_error is None,
        partition_root_of(opt_text(range->first), opt_text(range->last)) == s.partition_root,
        along(directories, names),
    ensures
        after(
            s.pressed(Key::Char('t'), now).0,
            seq![partitions, files, range] + directories,
        ).arrived(),
        after(
            s.pressed(Key::Char('t'), now).0,
            seq![partitions, files, range] + directories,
        ).same_place(s),
        after(
            s.pressed(Key::Char('t'), now).0,
            seq![partitions, files, range] + directories,
        ).wf(),
{
    law_setting_out(s, now, partitions, files, range, names);
    let a = s.pressed(Key::Char('t'), now).0;
    let first = seq![partitions, files, range];
    lemma_after(a, first, directories);
    law_the_way(after(a, first), directories);
}

/// Going from the tree to the list leads to the directory of the active column,
/// and there to the entry that was selected in it, if it is still listed.
pub proof fn law_tree_to_list(s: AppView, now: i64)
    requires
        s.wf(),
        s.pending is Idle,
        s.input_mode == InputMode::Normal,
        s.view_mode == ViewMode::Tree,
        !s.preview_focused,
        s.columns.len() > 0,
    ensures
        ({
            let t = s.pressed(Key::Char('t'), now).0;
            let landing = LandingView::Named(
                match s.active().selection() {
                    Some(e) => Some(e.name),
                    None => None,
                },
            );
            &&& t.view_mode == ViewMode::List
            &&& t.current_partition == s.active().partition
            &&& t.partition_root == s.active().partition_root
            &&& t.current_path == s.active().path
            &&& t.pending == PendingView::Partitions(landing) || t.pending
                == PendingView::PathRange(landing) || t.pending == PendingView::Directory(landing)
        }),
{
}

proof fn lemma_settled(t: AppView, reply: Reply)
    requires
        t.wf(),
        t.arrived(),
        !(t.pending is Idle),
        t.accepts(reply),
    ensures
        t.answered(reply).0.wf(),
        t.answered(reply).0.arrived(),
        t.answered(reply).0.same_place(t),
        t.answered(reply).0.pending is Idle,
{
    law_reply_keeps_state(t, reply);
    let u = t.answered(reply).0;
    assert(u.active() == t.active());
}

/// From the list to the tree and back leads to where the list stood: where the
/// partition and every name on the way are found, and whatever comes of showing
/// what is then selected, the list is asked for the same directory of the same
/// partition. A path with two slashes in a row would break this.
pub proof fn law_toggle_twice(
    s: AppView,
    now: i64,
    partitions: Reply,
    files: Reply,
    range: Reply,
    names: Seq<Seq<char>>,
    directories: Seq<Reply>,
    selected: Reply,
)
    requires
        s.wf(),
        s.pending is Idle,
        s.input_mode == InputMode::Normal,
        s.view_mode == ViewMode::List,
        s.current_partition is Some,
        s.current_path == joined(s.partition_root, names),
        plain(names),
        partitions is Partitions,
        partitions->Partitions_error is None,
        files is RootFiles,
        files->RootFiles_error is None,
        s.pressed(Key::Char('t'), now).0.answered(partitions).0.accepts(files),
        ({
            let column = s.pressed(Key::Char('t'), now).0.answered(partitions).0.answered(
                files,
            ).0.columns[0];
            column.selection() is Some && column.selection()->0.name == s.current_partition->0
        }),
        range is PathRange,
        range->PathRange_error is None,
        partition_root_of(opt_text(range->first), opt_text(range->last)) == s.partition_root,
        along(directories, names),
        ({
            let t = after(
                s.pressed(Key::Char('t'), now).0,
                seq![partitions, files, range] + directories,
            );
            !(t.pending is Idle) ==> t.accepts(selected)
        }),
    ensures
        ({
            let t = after(
                s.pressed(Key::Char('t'), now).0,
                seq![partitions, files, range] + directories,
            );
            let u = if t.pending is Idle {
                t
            } else {
                t.answered(selected).0
            };
            let back = u.pressed(Key::Char('t'), now).0;
            &&& u.pending is Idle
            &&& u.view_mode == ViewMode::Tree
            &&& back.view_mode == ViewMode::List
            &&& back.same_place(s)
        }),
{
    law_list_to_tree(s, now, partitions, files, range, names, directories);
    let t = after(
        s.pressed(Key::Char('t'), now).0,
        seq![partitions, files, range] + directories,
    );
    if !(t.pending is Idle) {
        lemma_settled(t, selected);
    }
}

} // verus!
