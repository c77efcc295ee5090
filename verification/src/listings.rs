//! What is listed: the rows that were read, as they were read, in the order that was
//! chosen.

use vstd::prelude::*;
use vstd::utf8::encode_utf8;

use crate::app::{AppView, LandingView, PendingView, Reply, RequestView};
use crate::entry::{
    component_entries, file_entries, is_first_named, law_sorted, lemma_position_named,
    merged_listing, parent_entry, partition_entries, position_named, sorted_listing, ComponentRow, EntryView,
    FileRow, PartitionRow, SortMode,
};
use crate::moves::is_for;
use crate::root::is_in;
use crate::text::{bytes_less, decimal, lemma_rfind_join, after_last};

verus! {

/// Each partition that was read is listed in its place, as a directory named like
/// it, with its size, its file count and its last access.
pub proof fn law_partition_entries(rows: Seq<PartitionRow>, i: int)
    requires
        0 <= i < rows.len(),
    ensures
        ({
            let e = partition_entries(rows)[i];
            &&& partition_entries(rows).len() == rows.len()
            &&& e.name == rows[i].name@
            &&& e.path == rows[i].name@
            &&& e.is_dir
            &&& e.total_size == rows[i].total_size
            &&& e.file_count == rows[i].file_count
            &&& e.latest_atime == rows[i].latest_atime
        }),
{
}

/// Each file that was read outside of any partition is listed in its place, as one
/// file, named by the last part of its path, with its size and its last access.
pub proof fn law_file_entries(rows: Seq<FileRow>, i: int, dir: Seq<char>, name: Seq<char>)
    requires
        0 <= i < rows.len(),
        rows[i].path@ == dir.push('/') + name,
        !name.contains('/'),
    ensures
        ({
            let e = file_entries(rows)[i];
            &&& file_entries(rows).len() == rows.len()
            &&& e.name == name
            &&& e.path == rows[i].path@
            &&& !e.is_dir
            &&& e.total_size == rows[i].size
            &&& e.file_count == 1
            &&& e.latest_atime == rows[i].atime
        }),
{
    lemma_rfind_join(dir, '/', name);
}

/// Each name that was read in a directory is listed in its place, with the path that
/// it has there, whether it is a directory, and its size, its file count and its
/// last access.
pub proof fn law_component_entries(rows: Seq<ComponentRow>, dir: Seq<char>, i: int)
    requires
        0 <= i < rows.len(),
    ensures
        ({
            let e = component_entries(rows, dir)[i];
            &&& component_entries(rows, dir).len() == rows.len()
            &&& e.name == rows[i].component@
            &&& e.path == dir + "/"@ + rows[i].component@
            &&& e.is_dir == rows[i].is_dir
            &&& e.total_size == rows[i].total_size
            &&& e.file_count == rows[i].file_count
            &&& e.latest_atime == rows[i].latest_atime
        }),
{
}

/// The way up is listed as a directory with a name of its own, and holds nothing.
pub proof fn law_way_up()
    ensures
        parent_entry().name == ".."@,
        parent_entry().is_dir,
        parent_entry().total_size == 0,
        parent_entry().file_count == 0,
        parent_entry().latest_atime == 0,
{
}

/// Bytes are ordered by the first in which they differ, and where they do not, the
/// shorter ones come first.
pub proof fn law_byte_order(common: Seq<u8>, a: u8, b: u8, x: Seq<u8>, y: Seq<u8>)
    ensures
        bytes_less(common + seq![a] + x, common + seq![b] + y) <== a < b,
        !bytes_less(common + seq![b] + y, common + seq![a] + x) <== a < b,
        bytes_less(common, common + seq![a] + x),
        !bytes_less(common + seq![a] + x, common),
        !bytes_less(common, common),
    decreases common.len(),
{
    let p = common + seq![a] + x;
    let q = common + seq![b] + y;
    if common.len() > 0 {
        let t = common.drop_first();
        law_byte_order(t, a, b, x, y);
        assert(p.drop_first() =~= t + seq![a] + x);
        assert(q.drop_first() =~= t + seq![b] + y);
        assert(p[0] == common[0]);
        assert(q[0] == common[0]);
    } else {
        assert(p[0] == a);
        assert(q[0] == b);
    }
}

/// What is listed earlier is not larger, smaller, more, fewer, older or newer than
/// what is listed later, as the order has it; by name, no file comes before a
/// directory, and of two directories, or of two files, the one whose name comes
/// first in the order of bytes.
pub proof fn law_orders(entries: Seq<EntryView>, mode: SortMode, i: int, j: int)
    requires
        0 <= i < j < entries.len(),
    ensures
        ({
            let a = sorted_listing(entries, mode)[i];
            let b = sorted_listing(entries, mode)[j];
            match mode {
                SortMode::Name => {
                    &&& b.is_dir ==> a.is_dir
                    &&& a.is_dir == b.is_dir ==> !bytes_less(encode_utf8(b.name), encode_utf8(a.name))
                },
                SortMode::SizeDesc => a.total_size >= b.total_size,
                SortMode::SizeAsc => a.total_size <= b.total_size,
                SortMode::CountDesc => a.file_count >= b.file_count,
                SortMode::CountAsc => a.file_count <= b.file_count,
                SortMode::AgeDesc => a.latest_atime <= b.latest_atime,
                SortMode::AgeAsc => a.latest_atime >= b.latest_atime,
            }
        }),
        sorted_listing(entries, mode).len() == entries.len(),
        sorted_listing(entries, mode).to_multiset() == entries.to_multiset(),
{
    law_sorted(entries, mode);
}

/// Partitions without files outside of them stay as they came; with such files, all
/// of both are listed, none twice, in the order that was chosen.
pub proof fn law_merging(partitions: Seq<EntryView>, files: Seq<EntryView>, mode: SortMode)
    ensures
        files.len() == 0 ==> merged_listing(partitions, files, mode) == partitions,
        merged_listing(partitions, files, mode).to_multiset() == (partitions + files).to_multiset(),
        merged_listing(partitions, files, mode).len() == partitions.len() + files.len(),
        files.len() > 0 ==> merged_listing(partitions, files, mode) == sorted_listing(
            partitions + files,
            mode,
        ),
{
    law_sorted(partitions + files, mode);
    if files.len() == 0 {
        assert(partitions + files =~= partitions);
    }
}

/// The partitions that were read are listed, and the files outside of any are asked
/// for next.
pub proof fn law_after_partitions(s: AppView, reply: Reply)
    requires
        s.wf(),
        s.pending is Partitions || s.pending is TreePartitions,
        reply is Partitions,
        reply->Partitions_error is None,
    ensures
        s.answered(reply).1 is RootFiles,
        s.pending is Partitions ==> s.answered(reply).0.entries == partition_entries(
            reply->partitions@,
        ) && s.answered(reply).0.pending == PendingView::RootFiles(s.pending->Partitions_0),
        s.pending is TreePartitions ==> s.answered(reply).0.pending
            == (PendingView::TreeRootFiles {
            from_list: s.pending->TreePartitions_from_list,
            entries: partition_entries(reply->partitions@),
        }),
{
    assert(s.pending is Partitions ==> s.entries + partition_entries(reply->partitions@)
        =~= partition_entries(reply->partitions@));
}

/// When the paths of the partition that is entered were read, the directory that they
/// have in common is both its root and the current directory, and is asked for.
pub proof fn law_after_range(s: AppView, reply: Reply)
    requires
        s.wf(),
        s.pending is PathRange,
        reply is PathRange,
        reply->PathRange_error is None,
    ensures
        ({
            let r = s.answered(reply);
            &&& r.0.partition_root == r.0.current_path
            &&& r.0.current_partition == s.current_partition
            &&& r.0.pending == PendingView::Directory(s.pending->PathRange_0)
            &&& r.1 == (RequestView::Directory {
                partition: s.current_partition->0,
                path: r.0.partition_root,
            })
            &&& reply->first matches Some(a) ==> reply->last matches Some(b) ==> forall|
                dir: Seq<char>,
            |
                is_in(a@, dir) && #[trigger] is_in(b@, dir) ==> is_in(a@, r.0.partition_root)
                    && is_in(b@, r.0.partition_root) && dir.len() <= r.0.partition_root.len()
        }),
{
    if reply->first is Some && reply->last is Some {
        let a = reply->first->0@;
        let b = reply->last->0@;
        assert forall|dir: Seq<char>| is_in(a, dir) && #[trigger] is_in(b, dir) implies is_in(
            a,
            s.answered(reply).0.partition_root,
        ) && is_in(b, s.answered(reply).0.partition_root) && dir.len() <= s.answered(
            reply,
        ).0.partition_root.len() by {
            crate::root::law_common_directory(a, b, dir);
        }
    }
}

/// A loaded directory tells how many entries it lists, the way up among them, in how
/// many seconds, and whether they are filtered; a loaded list of partitions tells
/// how many, and in how many seconds.
pub proof fn law_load_status(s: AppView, reply: Reply)
    requires
        s.wf(),
        s.pending is Directory || s.pending is RootFiles,
        s.pending is Directory ==> reply is Directory && reply->Directory_error is None,
        s.pending is RootFiles ==> reply is RootFiles && reply->RootFiles_error is None,
    ensures
        ({
            let r = s.answered(reply).0;
            &&& s.pending is Directory ==> {
                &&& r.entries.len() == 1 + reply->components@.len()
                &&& r.status == decimal(r.entries.len()) + " entries in "@
                    + reply->Directory_elapsed@ + "s"@ + (if s.filters.active() {
                    " (filtered)"@
                } else {
                    ""@
                })
            }
            &&& s.pending is RootFiles ==> {
                &&& r.entries.len() == s.entries.len() + reply->files@.len()
                &&& r.status == decimal(r.entries.len()) + " entries loaded in "@
                    + reply->RootFiles_elapsed@ + "s"@
            }
        }),
{
    if s.pending is RootFiles {
        law_merging(s.entries, file_entries(reply->files@), s.sort_mode);
    }
}

/// The rows of a directory that was asked for in the tree become a column behind the
/// active one: named by the last part of its path, with an entry for each row, and
/// the first one selected.
pub proof fn law_new_column(s: AppView, reply: Reply)
    requires
        s.wf(),
        s.pending is ColumnRows,
        s.pending->ColumnRows_goal is Settle,
        reply is Directory,
        reply->Directory_error is None,
    ensures
        ({
            let r = s.answered(reply);
            let c = r.0.columns.last();
            &&& r.1 is Key
            &&& r.0.active_column == s.active_column
            &&& r.0.columns == s.columns.push(c)
            &&& c.partition == Some(s.pending->ColumnRows_partition)
            &&& c.partition_root == s.pending->ColumnRows_partition_root
            &&& c.path == s.pending->ColumnRows_path
            &&& c.title == after_last(c.path, '/')
            &&& c.entries == component_entries(reply->components@, c.path)
            &&& reply->components@.len() > 0 ==> c.selected == Some(0usize)
            &&& reply->components@.len() == 0 ==> c.selected is None
        }),
{
}

/// The partitions and the files outside of any become the first column of the tree.
/// What is selected in it, the partition of the list or else the first entry, is
/// asked for.
pub proof fn law_first_column(s: AppView, reply: Reply)
    requires
        s.wf(),
        s.pending is TreeRootFiles,
        reply is RootFiles,
        reply->RootFiles_error is None,
    ensures
        ({
            let r = s.answered(reply);
            let c = r.0.columns[0];
            let all = merged_listing(
                s.pending->TreeRootFiles_entries,
                file_entries(reply->files@),
                s.sort_mode,
            );
            let follows = s.pending->TreeRootFiles_from_list && s.current_partition is Some;
            &&& r.0.columns.len() == 1
            &&& r.0.active_column == 0
            &&& c.title == "Partitions"@
            &&& c.partition is None
            &&& c.entries == all
            &&& all.len() == 0 ==> c.selected is None && r.1 is Key
            &&& all.len() > 0 && !follows ==> c.selected == Some(0usize)
            &&& all.len() > 0 && follows && all.len() <= usize::MAX ==> {
                ||| is_first_named(all, s.current_partition->0, c.selected->0 as int)
                ||| c.selected == Some(0usize) && forall|k: int|
                    0 <= k < all.len() ==> (#[trigger] all[k]).name != s.current_partition->0
            }
            &&& c.selected is Some && c.selected->0 < all.len() ==> is_for(
                r.1,
                c,
                all[c.selected->0 as int],
            )
        }),
{
    let all = merged_listing(
        s.pending->TreeRootFiles_entries,
        file_entries(reply->files@),
        s.sort_mode,
    );
    if all.len() <= usize::MAX {
        lemma_position_named(all, s.current_partition->0);
    }
    if all.len() == 0 && s.current_partition is Some {
        assert(position_named(all, s.current_partition->0) is None);
    }
}

/// The paths of a partition that was asked for in the tree give its root, whose rows
/// are asked for next.
pub proof fn law_column_root(s: AppView, reply: Reply)
    requires
        s.wf(),
        s.pending is ColumnRange,
        reply is PathRange,
        reply->PathRange_error is None,
    ensures
        ({
            let r = s.answered(reply);
            &&& r.0.pending is ColumnRows
            &&& r.0.pending->ColumnRows_partition == s.pending->ColumnRange_partition
            &&& r.0.pending->ColumnRows_goal == s.pending->ColumnRange_goal
            &&& r.0.pending->ColumnRows_path == r.0.pending->ColumnRows_partition_root
            &&& r.1 == (RequestView::Directory {
                partition: s.pending->ColumnRange_partition,
                path: r.0.pending->ColumnRows_path,
            })
            &&& r.0.columns == s.columns
            &&& reply->first matches Some(a) ==> reply->last matches Some(b) ==> forall|
                dir: Seq<char>,
            |
                is_in(a@, dir) && #[trigger] is_in(b@, dir) ==> is_in(
                    a@,
                    r.0.pending->ColumnRows_path,
                ) && is_in(b@, r.0.pending->ColumnRows_path) && dir.len()
                    <= r.0.pending->ColumnRows_path.len()
        }),
{
    if reply->first is Some && reply->last is Some {
        let a = reply->first->0@;
        let b = reply->last->0@;
        let root = s.answered(reply).0.pending->ColumnRows_path;
        assert forall|dir: Seq<char>| is_in(a, dir) && #[trigger] is_in(b, dir) implies is_in(
            a,
            root,
        ) && is_in(b, root) && dir.len() <= root.len() by {
            crate::root::law_common_directory(a, b, dir);
        }
    }
}

/// The file that is selected in the tree is previewed beside its column, and the file
/// that was asked for over the list lies over it; neither touches the other.
pub proof fn law_previews_arrive(s: AppView, reply: Reply)
    requires
        s.wf(),
        s.pending is ListPreview || (s.pending is FilePreview && s.pending->FilePreview_goal
            is Settle),
        reply is Preview,
    ensures
        ({
            let r = s.answered(reply);
            &&& r.1 is Key
            &&& r.0.columns == s.columns
            &&& r.0.entries == s.entries
            &&& s.pending is FilePreview ==> r.0.file_preview == Some(reply->preview@)
                && r.0.list_preview == s.list_preview
            &&& s.pending is ListPreview ==> r.0.list_preview == Some(reply->preview@)
                && r.0.file_preview == s.file_preview
        }),
{
}

/// Where the selection is meant to be in a list that has been loaded: on the first
/// entry at the start and behind a move, on the first entry of a name, or where it
/// was, or on the last entry where the list has become too short for that.
pub open spec fn lands(
    landing: LandingView,
    entries: Seq<EntryView>,
    before: Option<usize>,
    after: Option<usize>,
) -> bool {
    match landing {
        LandingView::Start => after == Some(0usize),
        LandingView::First => after == Some(0usize),
        LandingView::Keep => {
            &&& before is None ==> after is None
            &&& before is Some && before->0 < entries.len() ==> after == before
            &&& before is Some && before->0 >= entries.len() ==> after is Some && after->0
                == entries.len() - 1
        },
        LandingView::Named(None) => after == Some(0usize),
        LandingView::Named(Some(name)) => {
            ||| after is Some && is_first_named(entries, name, after->0 as int)
            ||| after == Some(0usize) && forall|k: int|
                0 <= k < entries.len() ==> (#[trigger] entries[k]).name != name
        },
    }
}

/// After a load of a directory, or of partitions where there are any, the selection is
/// where it was meant to be.
pub proof fn law_where_loads_land(s: AppView, reply: Reply)
    requires
        s.wf(),
        s.pending is Directory || s.pending is RootFiles,
        s.pending is Directory ==> reply is Directory && reply->Directory_error is None,
        s.pending is RootFiles ==> reply is RootFiles && reply->RootFiles_error is None,
        0 < s.answered(reply).0.entries.len() <= usize::MAX,
    ensures
        ({
            let r = s.answered(reply);
            &&& r.1 is Key
            &&& s.pending is Directory ==> lands(
                s.pending->Directory_0,
                r.0.entries,
                s.selected,
                r.0.selected,
            )
            &&& s.pending is RootFiles ==> lands(
                s.pending->RootFiles_0,
                r.0.entries,
                s.selected,
                r.0.selected,
            )
        }),
{
    let r = s.answered(reply).0;
    let landing = if s.pending is Directory {
        s.pending->Directory_0
    } else {
        s.pending->RootFiles_0
    };
    if let LandingView::Named(Some(name)) = landing {
        lemma_position_named(r.entries, name);
    }
}

/// What is awaited can be taken: rows, paths, regular expressions and sizes always,
/// files where their preview hangs together, lines where they can be counted. Only
/// where the tree is to follow the list into a partition must there be a directory
/// to follow it into.
pub proof fn law_replies_are_taken(s: AppView, reply: Reply)
    requires
        s.wf(),
        match s.pending {
            PendingView::Idle => false,
            PendingView::Partitions(_) | PendingView::TreePartitions { .. } => reply is Partitions,
            PendingView::RootFiles(_) => reply is RootFiles,
            PendingView::TreeRootFiles { from_list, .. } => reply is RootFiles && (!from_list
                || s.current_partition is None || reply->RootFiles_error is Some),
            PendingView::PathRange(_) | PendingView::ColumnRange { .. } => reply is PathRange,
            PendingView::Directory(_) | PendingView::ColumnRows { .. } => reply is Directory,
            PendingView::FilePreview { .. } | PendingView::ListPreview => reply is Preview
                && reply->preview@.wf(),
            PendingView::Pattern { .. } => reply is Glob,
            PendingView::Size => reply is Size,
            PendingView::PagerDown { .. } | PendingView::PagerTop | PendingView::PagerBottom => {
                &&& reply is Lines
                &&& s.file_preview->0.total_lines_loaded + reply->batch.lines@.len() <= usize::MAX
                &&& s.file_preview->0.file_offset + reply->batch.bytes <= u64::MAX
            },
        },
    ensures
        s.accepts(reply),
{
}

} // verus!
