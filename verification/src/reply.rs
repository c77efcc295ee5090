//! What the reply to a request does.

use vstd::prelude::*;

use crate::app::{App, AppView, Column, Pending, PendingView, Reply, Request, RequestView};
use crate::entry::{listing, merge_files, position_of, DirEntry, FileRow};
use crate::filters::opt_text;
use crate::preview::LineBatch;
use crate::soundness::law_reply_keeps_state;

verus! {

impl AppView {
    /// Lines of the previewed file have been read.
    pub open spec fn lines_read(self, pending: PendingView, batch: LineBatch) -> (
        AppView,
        RequestView,
    ) {
        let p = self.file_preview->0.with_batch(batch);
        match pending {
            PendingView::PagerDown { step } => self.with_preview(p.scrolled_down(step)).idle(),
            PendingView::PagerBottom => self.with_preview(p).pager_bottom(),
            _ => self.with_preview(p).idle(),
        }
    }

    /// Whether a directory is selected in the active column.
    pub open spec fn on_directory(self) -> bool {
        self.active().selection() is Some && self.active().selection()->0.is_dir
    }

    /// Whether the reply can be taken: it is what is awaited, a file preview in it is
    /// well formed, lines can be counted, and where the tree follows the list into
    /// a partition there is one to follow it into.
    pub open spec fn accepts(self, reply: Reply) -> bool {
        match (self.pending, reply) {
            (PendingView::Partitions(_), Reply::Partitions { .. }) => true,
            (PendingView::RootFiles(_), Reply::RootFiles { .. }) => true,
            (PendingView::PathRange(_), Reply::PathRange { .. }) => true,
            (PendingView::Directory(_), Reply::Directory { .. }) => true,
            (PendingView::TreePartitions { .. }, Reply::Partitions { .. }) => true,
            (
                PendingView::TreeRootFiles { from_list, entries },
                Reply::RootFiles { files, error, .. },
            ) => from_list && self.current_partition is Some && error is None
                ==> self.with_partitions(entries, files@).at_partition().on_directory(),
            (PendingView::ColumnRange { .. }, Reply::PathRange { .. }) => true,
            (PendingView::ColumnRows { .. }, Reply::Directory { .. }) => true,
            (PendingView::FilePreview { .. }, Reply::Preview { preview }) => preview@.wf(),
            (PendingView::ListPreview, Reply::Preview { preview }) => preview@.wf(),
            (PendingView::Pattern { .. }, Reply::Glob { .. }) => true,
            (PendingView::Size, Reply::Size { .. }) => true,
            (PendingView::PagerDown { .. }, Reply::Lines { batch }) => {
                self.file_preview->0.has_room(batch)
            },
            (PendingView::PagerTop, Reply::Lines { batch }) => self.file_preview->0.has_room(batch),
            (PendingView::PagerBottom, Reply::Lines { batch }) => {
                self.file_preview->0.has_room(batch)
            },
            _ => false,
        }
    }

    /// What the reply to a request does.
    pub open spec fn answered(self, reply: Reply) -> (AppView, RequestView) {
        let s = AppView { pending: PendingView::Idle, ..self };
        match (self.pending, reply) {
            (PendingView::Partitions(landing), Reply::Partitions { partitions, error }) => {
                s.partitions_read(landing, partitions@, opt_text(error))
            },
            (PendingView::RootFiles(landing), Reply::RootFiles { files, error, elapsed }) => {
                s.root_files_read(landing, files@, opt_text(error), elapsed@)
            },
            (PendingView::PathRange(landing), Reply::PathRange { first, last, error }) => {
                s.path_range_read(landing, opt_text(first), opt_text(last), opt_text(error))
            },
            (PendingView::Directory(landing), Reply::Directory { components, error, elapsed }) => {
                s.directory_read(landing, components@, opt_text(error), elapsed@)
            },
            (PendingView::TreePartitions { from_list }, Reply::Partitions { partitions, error }) => {
                s.tree_partitions_read(from_list, partitions@, opt_text(error))
            },
            (
                PendingView::TreeRootFiles { from_list, entries },
                Reply::RootFiles { files, error, .. },
            ) => s.tree_root_files_read(from_list, entries, files@, opt_text(error)),
            (PendingView::ColumnRange { partition, goal }, Reply::PathRange { first, last, error }) => {
                s.column_range_read(partition, goal, opt_text(first), opt_text(last), opt_text(error))
            },
            (
                PendingView::ColumnRows { partition, partition_root, path, goal },
                Reply::Directory { components, error, .. },
            ) => s.column_rows_read(
                partition,
                partition_root,
                path,
                goal,
                components@,
                opt_text(error),
            ),
            (PendingView::FilePreview { goal }, Reply::Preview { preview }) => {
                s.file_preview_read(goal, preview@)
            },
            (PendingView::ListPreview, Reply::Preview { preview }) => s.list_preview_read(preview@),
            (PendingView::Pattern { value }, Reply::Glob { regex, error }) => {
                s.pattern_read(value, regex@, opt_text(error))
            },
            (PendingView::Size, Reply::Size { size, error }) => s.size_read(size, opt_text(error)),
            (pending, Reply::Lines { batch }) => s.lines_read(pending, batch),
            _ => s.idle(),
        }
    }
}

/// A listing of the same entries.
fn clone_entries(entries: &Vec<DirEntry>) -> (r: Vec<DirEntry>)
    ensures
        r@ == entries@,
{
    let mut r = Vec::new();
    let mut i: usize = 0;
    while i < entries.len()
        invariant
            i <= entries@.len(),
            r@ == entries@.take(i as int),
        decreases entries@.len() - i,
    {
        r.push(entries[i].clone());
        assert(entries@.take(i + 1) =~= entries@.take(i as int).push(entries@[i as int]));
        i += 1;
    }
    assert(entries@.take(i as int) =~= entries@);
    r
}

impl App {
    /// Whether there is a partition for the tree to follow the list into.
    fn can_follow(&self, entries: &Vec<DirEntry>, files: &Vec<FileRow>) -> (r: bool)
        requires
            self@.columns.len() == 0,
            self@.active_column == 0,
        ensures
            self@.current_partition is Some ==> r == self@.with_partitions(
                listing(entries@),
                files@,
            ).at_partition().on_directory(),
    {
        let mut all = clone_entries(entries);
        merge_files(&mut all, files, self.sort_mode);
        let mut column = Column::partitions(all);
        let ghost s = self@.with_partitions(listing(entries@), files@);
        assert(s.columns =~= seq![column@]);
        match &self.current_partition {
            Some(partition) => {
                match position_of(&column.entries, partition.as_str()) {
                    Some(i) => {
                        column.selected = Some(i);
                    },
                    None => {},
                }
                assert(s.at_partition().active() =~= column@);
                match column.selected_entry() {
                    Some(entry) => entry.is_dir,
                    None => false,
                }
            },
            None => true,
        }
    }

    /// Whether the reply can be taken.
    pub fn takes_reply(&self, reply: &Reply) -> (r: bool)
        requires
            self@.wf(),
        ensures
            r == self@.accepts(*reply),
    {
        match (&self.pending, reply) {
            (Pending::Partitions(_), Reply::Partitions { .. }) => true,
            (Pending::RootFiles(_), Reply::RootFiles { .. }) => true,
            (Pending::PathRange(_), Reply::PathRange { .. }) => true,
            (Pending::Directory(_), Reply::Directory { .. }) => true,
            (Pending::TreePartitions { .. }, Reply::Partitions { .. }) => true,
            (Pending::TreeRootFiles { from_list, entries }, Reply::RootFiles { files, error, .. }) => {
                if *from_list && self.current_partition.is_some() && error.is_none() {
                    self.can_follow(entries, files)
                } else {
                    true
                }
            },
            (Pending::ColumnRange { .. }, Reply::PathRange { .. }) => true,
            (Pending::ColumnRows { .. }, Reply::Directory { .. }) => true,
            (Pending::FilePreview { .. }, Reply::Preview { preview }) => preview.is_sound(),
            (Pending::ListPreview, Reply::Preview { preview }) => preview.is_sound(),
            (Pending::Pattern { .. }, Reply::Glob { .. }) => true,
            (Pending::Size, Reply::Size { .. }) => true,
            (Pending::PagerDown { .. }, Reply::Lines { batch }) => self.has_room_for(batch),
            (Pending::PagerTop, Reply::Lines { batch }) => self.has_room_for(batch),
            (Pending::PagerBottom, Reply::Lines { batch }) => self.has_room_for(batch),
            _ => false,
        }
    }

    fn has_room_for(&self, batch: &LineBatch) -> (r: bool)
        requires
            self.file_preview is Some,
        ensures
            r == self@.file_preview->0.has_room(*batch),
    {
        match &self.file_preview {
            Some(p) => p.can_take(batch),
            None => false,
        }
    }

    /// Adds lines that have been read to the previewed file.
    fn take_lines(&mut self, batch: &LineBatch)
        requires
            old(self).file_preview is Some,
            old(self)@.file_preview->0.wf(),
            old(self)@.file_preview->0.has_room(*batch),
        ensures
            final(self)@ == old(self)@.with_preview(old(self)@.file_preview->0.with_batch(*batch)),
            final(self)@.file_preview->0.wf(),
    {
        match &mut self.file_preview {
            Some(p) => {
                p.preview_load_more_lines(batch);
            },
            None => {},
        }
    }

    /// Scrolls down by `step` lines.
    fn scroll_lines(&mut self, step: usize)
        requires
            old(self).file_preview is Some,
            old(self)@.file_preview->0.wf(),
        ensures
            final(self)@ == old(self)@.with_preview(
                old(self)@.file_preview->0.scrolled_down(step as int),
            ),
    {
        match &mut self.file_preview {
            Some(p) => {
                p.scroll_down(step);
            },
            None => {},
        }
    }

    /// Takes the reply to a request and goes on.
    pub fn answer(&mut self, reply: Reply) -> (r: Request)
        requires
            old(self)@.wf(),
            old(self)@.accepts(reply),
        ensures
            final(self)@ == old(self)@.answered(reply).0,
            r@ == old(self)@.answered(reply).1,
            final(self)@.wf(),
            final(self)@.asks(r@),
    {
        proof {
            law_reply_keeps_state(self@, reply);
        }
        let mut pending = Pending::Idle;
        std::mem::swap(&mut self.pending, &mut pending);
        assert(self@ =~= (AppView { pending: PendingView::Idle, ..old(self)@ }));
        match (pending, reply) {
            (Pending::Partitions(landing), Reply::Partitions { partitions, error }) => {
                self.take_partitions(landing, &partitions, &error)
            },
            (Pending::RootFiles(landing), Reply::RootFiles { files, error, elapsed }) => {
                self.take_root_files(landing, &files, &error, elapsed.as_str())
            },
            (Pending::PathRange(landing), Reply::PathRange { first, last, error }) => {
                self.take_path_range(landing, &first, &last, &error)
            },
            (Pending::Directory(landing), Reply::Directory { components, error, elapsed }) => {
                self.take_directory(landing, &components, &error, elapsed.as_str())
            },
            (Pending::TreePartitions { from_list }, Reply::Partitions { partitions, error }) => {
                self.take_tree_partitions(from_list, &partitions, &error)
            },
            (Pending::TreeRootFiles { from_list, entries }, Reply::RootFiles { files, error, .. }) => {
                self.make_partition_column(from_list, entries, &files, &error)
            },
            (Pending::ColumnRange { partition, goal }, Reply::PathRange { first, last, error }) => {
                self.make_partition_root_column(partition, goal, &first, &last, &error)
            },
            (
                Pending::ColumnRows { partition, partition_root, path, goal },
                Reply::Directory { components, error, .. },
            ) => self.make_directory_column_tree(
                partition,
                partition_root,
                path,
                goal,
                &components,
                &error,
            ),
            (Pending::FilePreview { goal }, Reply::Preview { preview }) => {
                self.take_file_preview(goal, preview)
            },
            (Pending::ListPreview, Reply::Preview { preview }) => self.take_list_preview(preview),
            (Pending::Pattern { value }, Reply::Glob { regex, error }) => {
                self.take_pattern(value, regex, &error)
            },
            (Pending::Size, Reply::Size { size, error }) => self.take_size(size, &error),
            (Pending::PagerDown { step }, Reply::Lines { batch }) => {
                self.take_lines(&batch);
                self.scroll_lines(step);
                self.wait()
            },
            (Pending::PagerTop, Reply::Lines { batch }) => {
                self.take_lines(&batch);
                self.wait()
            },
            (Pending::PagerBottom, Reply::Lines { batch }) => {
                self.take_lines(&batch);
                self.preview_load_to_eof()
            },
            _ => self.wait(),
        }
    }
}

} // verus!
