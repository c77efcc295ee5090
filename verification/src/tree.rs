//! The tree: a cascade of columns, each showing what is selected in the one
//! before it.

use vstd::prelude::*;

use crate::app::{
    App, AppView, Column, ColumnView, GoalView, Landing, LandingView, Pending, PendingView, Request,
    RequestView, TreeGoal, ViewMode,
};
use crate::entry::{
    child_path, component_entries, file_entries, join_path, listing, merge_files, merged_listing,
    partition_entries, position_named, position_of, push_components, push_partitions, ComponentRow,
    DirEntry, EntryView, FileRow, PartitionRow,
};
use crate::filters::opt_text;
use crate::load::clone_text;
use crate::preview::{FilePreview, PreviewView};
use crate::root::{discover_partition_root, partition_root_of};
use crate::text::{
    after_last, after_last_of, chars_of, components, components_of, starts, string_of, texts,
};

verus! {

/// The first place of a list, where it has one.
pub open spec fn first_place(n: nat) -> Option<usize> {
    if n > 0 {
        Some(0usize)
    } else {
        None
    }
}

/// The place below the selected one, in a list of `n` entries.
pub open spec fn next_place(selected: Option<usize>, n: nat) -> usize {
    match selected {
        Some(i) => if i + 1 < n {
            (i + 1) as usize
        } else {
            (n - 1) as usize
        },
        None => 0,
    }
}

/// The place above the selected one.
pub open spec fn prev_place(selected: Option<usize>) -> usize {
    match selected {
        Some(i) => if i > 0 {
            (i - 1) as usize
        } else {
            0
        },
        None => 0,
    }
}

/// The place below the selected one, in a list of `n` entries.
pub fn place_below(selected: Option<usize>, n: usize) -> (r: usize)
    requires
        n > 0,
    ensures
        r == next_place(selected, n as nat),
{
    match selected {
        Some(i) => if i < n - 1 {
            i + 1
        } else {
            n - 1
        },
        None => 0,
    }
}

/// The place above the selected one.
pub fn place_above(selected: Option<usize>) -> (r: usize)
    ensures
        r == prev_place(selected),
{
    match selected {
        Some(i) => if i > 0 {
            i - 1
        } else {
            0
        },
        None => 0,
    }
}

impl ColumnView {
    /// The column of all partitions.
    pub open spec fn partitions(entries: Seq<EntryView>) -> ColumnView {
        ColumnView {
            title: "Partitions"@,
            partition: None,
            partition_root: Seq::empty(),
            path: Seq::empty(),
            entries,
            selected: first_place(entries.len()),
        }
    }

    /// The column of a directory of a partition.
    pub open spec fn directory(
        partition: Seq<char>,
        partition_root: Seq<char>,
        path: Seq<char>,
        rows: Seq<ComponentRow>,
    ) -> ColumnView {
        ColumnView {
            title: after_last(path, '/'),
            partition: Some(partition),
            partition_root,
            path,
            entries: component_entries(rows, path),
            selected: first_place(rows.len()),
        }
    }
}

/// The first `n` columns.
pub open spec fn first_columns(columns: Seq<ColumnView>, n: int) -> Seq<ColumnView> {
    if n < columns.len() {
        columns.take(n)
    } else {
        columns
    }
}

impl AppView {
    /// The active column.
    pub open spec fn active(self) -> ColumnView {
        self.columns[self.active_column]
    }

    /// Without what stands behind the active column.
    pub open spec fn cut_back(self) -> AppView {
        AppView { columns: first_columns(self.columns, self.active_column + 1), ..self }
    }

    /// With the selection of the active column at `place`.
    pub open spec fn with_place(self, place: usize) -> AppView {
        AppView {
            columns: self.columns.update(
                self.active_column,
                ColumnView { selected: Some(place), ..self.active() },
            ),
            ..self
        }
    }

    /// The tree is built anew; `from_list` to follow the list to where it stands.
    pub open spec fn tree_load(self, from_list: bool) -> (AppView, RequestView) {
        (
            AppView {
                columns: Seq::empty(),
                active_column: 0,
                pending: PendingView::TreePartitions { from_list },
                ..self
            },
            RequestView::Partitions,
        )
    }

    /// The partitions have been read; the files outside of any come next.
    pub open spec fn tree_partitions_read(
        self,
        from_list: bool,
        rows: Seq<PartitionRow>,
        error: Option<Seq<char>>,
    ) -> (AppView, RequestView) {
        match error {
            Some(e) => self.failed(e),
            None => (
                AppView {
                    pending: PendingView::TreeRootFiles {
                        from_list,
                        entries: partition_entries(rows),
                    },
                    ..self
                },
                RequestView::RootFiles,
            ),
        }
    }

    /// The tree with its first column.
    pub open spec fn with_partitions(self, entries: Seq<EntryView>, rows: Seq<FileRow>) -> AppView {
        AppView {
            columns: self.columns.push(
                ColumnView::partitions(merged_listing(entries, file_entries(rows), self.sort_mode)),
            ),
            ..self
        }
    }

    /// The tree with the current partition selected in its active column, if it is
    /// there.
    pub open spec fn at_partition(self) -> AppView {
        match position_named(self.active().entries, self.current_partition->0) {
            Some(i) => self.with_place(i),
            None => self,
        }
    }

    /// The files outside of any partition have been read: the first column is there,
    /// and what is selected in it is shown beside it. From a list inside a
    /// partition, the path of the list is followed from there.
    pub open spec fn tree_root_files_read(
        self,
        from_list: bool,
        entries: Seq<EntryView>,
        rows: Seq<FileRow>,
        error: Option<Seq<char>>,
    ) -> (AppView, RequestView) {
        match error {
            Some(e) => self.failed(e),
            None => {
                let s = self.with_partitions(entries, rows);
                if from_list && self.current_partition is Some {
                    s.at_partition().preview_update(GoalView::EnterRoot)
                } else {
                    s.preview_update(GoalView::Settle)
                }
            },
        }
    }

    /// The rows of a directory are asked for, for a new column.
    pub open spec fn column_asked(
        self,
        partition: Seq<char>,
        partition_root: Seq<char>,
        path: Seq<char>,
        goal: GoalView,
    ) -> (AppView, RequestView) {
        (
            AppView {
                pending: PendingView::ColumnRows { partition, partition_root, path, goal },
                ..self
            },
            RequestView::Directory { partition, path },
        )
    }

    /// What is selected in the active column is shown beside it, in place of all
    /// that stood there: a directory as a column, a file as its preview.
    pub open spec fn preview_update(self, goal: GoalView) -> (AppView, RequestView) {
        let s = AppView { file_preview: None, preview_focused: false, ..self.cut_back() };
        match self.active().selection() {
            Some(e) => if e.is_dir {
                match self.active().partition {
                    Some(p) => s.column_asked(
                        p,
                        self.active().partition_root,
                        child_path(self.active().path, e.name),
                        goal,
                    ),
                    None => (
                        AppView {
                            pending: PendingView::ColumnRange { partition: e.name, goal },
                            ..s
                        },
                        RequestView::PathRange { partition: e.name },
                    ),
                }
            } else {
                (
                    AppView { pending: PendingView::FilePreview { goal }, ..s },
                    RequestView::Preview {
                        path: e.path,
                        size: e.total_size,
                        atime: e.latest_atime,
                    },
                )
            },
            None => s.idle(),
        }
    }

    /// The first and the last path of a partition have been read, for the column of its
    /// root.
    pub open spec fn column_range_read(
        self,
        partition: Seq<char>,
        goal: GoalView,
        first: Option<Seq<char>>,
        last: Option<Seq<char>>,
        error: Option<Seq<char>>,
    ) -> (AppView, RequestView) {
        match error {
            Some(e) => self.failed(e),
            None => self.column_asked(
                partition,
                partition_root_of(first, last),
                partition_root_of(first, last),
                goal,
            ),
        }
    }

    /// The rows of a directory have been read: its column is there.
    pub open spec fn column_rows_read(
        self,
        partition: Seq<char>,
        partition_root: Seq<char>,
        path: Seq<char>,
        goal: GoalView,
        rows: Seq<ComponentRow>,
        error: Option<Seq<char>>,
    ) -> (AppView, RequestView) {
        match error {
            Some(e) => self.failed(e),
            None => AppView {
                columns: self.columns.push(
                    ColumnView::directory(partition, partition_root, path, rows),
                ),
                ..self
            }.preview_shown(goal),
        }
    }

    /// The preview of the selected file is there.
    pub open spec fn file_preview_read(self, goal: GoalView, preview: PreviewView) -> (
        AppView,
        RequestView,
    ) {
        AppView { file_preview: Some(preview), ..self }.preview_shown(goal)
    }

    /// The current path behind the root of the current partition.
    pub open spec fn below_root(self) -> Seq<char> {
        self.current_path.skip(self.partition_root.len() as int)
    }

    /// The names on the way from the root of the current partition to the current
    /// directory.
    pub open spec fn trail(self) -> Seq<Seq<char>> {
        components(self.below_root())
    }

    /// What follows when the selection of the active column is shown.
    pub open spec fn preview_shown(self, goal: GoalView) -> (AppView, RequestView) {
        match goal {
            GoalView::Settle => self.idle(),
            GoalView::EnterRoot => AppView { active_column: 1, ..self }.walked(self.trail()),
            GoalView::Walk(rest) => AppView {
                active_column: if self.active_column + 1 < self.columns.len() {
                    self.active_column + 1
                } else {
                    self.active_column
                },
                ..self
            }.walked(rest),
        }
    }

    /// The first of the names is selected in the active column and shown, and then
    /// the rest are followed. Where the names end, or one is missing, the way ends.
    pub open spec fn walked(self, names: Seq<Seq<char>>) -> (AppView, RequestView) {
        if names.len() == 0 {
            self.preview_update(GoalView::Settle)
        } else {
            match position_named(self.active().entries, names[0]) {
                Some(i) => self.with_place(i).preview_update(GoalView::Walk(names.drop_first())),
                None => self.preview_update(GoalView::Settle),
            }
        }
    }

    /// The selection of the active column goes to `place`.
    pub open spec fn tree_place(self, place: usize) -> (AppView, RequestView) {
        self.with_place(place).preview_update(GoalView::Settle)
    }

    /// One entry down in the active column.
    pub open spec fn tree_next(self) -> (AppView, RequestView) {
        if self.columns.len() == 0 || self.active().entries.len() == 0 {
            self.idle()
        } else {
            self.tree_place(next_place(self.active().selected, self.active().entries.len()))
        }
    }

    /// One entry up in the active column.
    pub open spec fn tree_prev(self) -> (AppView, RequestView) {
        if self.columns.len() == 0 || self.active().entries.len() == 0 {
            self.idle()
        } else {
            self.tree_place(prev_place(self.active().selected))
        }
    }

    /// To the first entry of the active column.
    pub open spec fn tree_first(self) -> (AppView, RequestView) {
        if self.columns.len() == 0 {
            self.idle()
        } else if self.active().entries.len() == 0 {
            self.preview_update(GoalView::Settle)
        } else {
            self.tree_place(0)
        }
    }

    /// To the last entry of the active column.
    pub open spec fn tree_last(self) -> (AppView, RequestView) {
        if self.columns.len() == 0 {
            self.idle()
        } else if self.active().entries.len() == 0 {
            self.preview_update(GoalView::Settle)
        } else {
            self.tree_place((self.active().entries.len() - 1) as usize)
        }
    }

    /// Into the column to the right.
    pub open spec fn tree_to_right(self) -> (AppView, RequestView) {
        if self.active_column + 1 < self.columns.len() {
            AppView { active_column: self.active_column + 1, ..self }.preview_update(
                GoalView::Settle,
            )
        } else {
            self.idle()
        }
    }

    /// Back to the column to the left, which keeps the one beside it.
    pub open spec fn tree_to_left(self) -> (AppView, RequestView) {
        if self.active_column > 0 {
            AppView {
                active_column: self.active_column - 1,
                columns: first_columns(self.columns, self.active_column + 1),
                ..self
            }.idle()
        } else {
            self.idle()
        }
    }

    /// The list goes to where the active column of the tree is, and to what is
    /// selected there.
    pub open spec fn list_at_tree(self) -> (AppView, RequestView) {
        if self.columns.len() == 0 {
            AppView {
                current_partition: None,
                partition_root: Seq::empty(),
                current_path: Seq::empty(),
                ..self
            }.list_load(LandingView::Named(None))
        } else {
            let column = self.active();
            let name = match column.selection() {
                Some(e) => Some(e.name),
                None => None,
            };
            AppView {
                current_partition: column.partition,
                partition_root: column.partition_root,
                current_path: column.path,
                ..self
            }.list_load(LandingView::Named(name))
        }
    }

    /// From the list to the tree, or back, without losing the place.
    pub open spec fn view_toggled(self) -> (AppView, RequestView) {
        match self.view_mode {
            ViewMode::List => AppView { view_mode: ViewMode::Tree, ..self }.tree_load(true),
            ViewMode::Tree => AppView { view_mode: ViewMode::List, ..self }.list_at_tree(),
        }
    }

    /// What is shown is loaded again.
    pub open spec fn reloaded(self) -> (AppView, RequestView) {
        match self.view_mode {
            ViewMode::List => self.list_load(LandingView::Keep),
            ViewMode::Tree => self.tree_load(false),
        }
    }
}

impl Column {
    /// The column of all partitions.
    pub fn partitions(entries: Vec<DirEntry>) -> (r: Column)
        ensures
            r@ == ColumnView::partitions(listing(entries@)),
    {
        let selected = if entries.len() > 0 {
            Some(0)
        } else {
            None
        };
        Column {
            title: "Partitions".to_owned(),
            partition: None,
            partition_root: String::new(),
            path: String::new(),
            entries,
            selected,
        }
    }

    /// The column of a directory of a partition.
    pub fn directory(
        partition: String,
        partition_root: String,
        path: String,
        rows: &Vec<ComponentRow>,
    ) -> (r: Column)
        ensures
            r@ == ColumnView::directory(partition@, partition_root@, path@, rows@),
    {
        let mut entries = Vec::new();
        push_components(&mut entries, rows, path.as_str());
        assert(listing(entries@) =~= component_entries(rows@, path@));
        assert(entries@.len() == listing(entries@).len());
        let selected = if entries.len() > 0 {
            Some(0)
        } else {
            None
        };
        Column {
            title: after_last_of(path.as_str(), '/'),
            partition: Some(partition),
            partition_root,
            path,
            entries,
            selected,
        }
    }

    /// The selected entry.
    pub fn selected_entry(&self) -> (r: Option<&DirEntry>)
        ensures
            r is Some <==> self@.selection() is Some,
            r matches Some(e) ==> self@.selection() == Some(e@),
    {
        match self.selected {
            Some(i) => if i < self.entries.len() {
                Some(&self.entries[i])
            } else {
                None
            },
            None => None,
        }
    }
}

impl App {
    /// Puts the selection of the active column at `place`.
    fn set_place(&mut self, place: usize)
        requires
            old(self)@.active_column < old(self)@.columns.len(),
        ensures
            final(self)@ == old(self)@.with_place(place),
    {
        let i: usize = self.active_column;
        self.columns[i].selected = Some(place);
        assert(self@.columns =~= old(self)@.with_place(place).columns);
    }

    /// Begins to build the tree anew; `from_list` to follow the list to where it
    /// stands.
    fn begin_tree(&mut self, from_list: bool) -> (r: Request)
        ensures
            final(self)@ == old(self)@.tree_load(from_list).0,
            r@ == old(self)@.tree_load(from_list).1,
    {
        self.columns = Vec::new();
        self.active_column = 0;
        self.pending = Pending::TreePartitions { from_list };
        assert(self@.columns =~= Seq::<ColumnView>::empty());
        Request::Partitions
    }

    /// Begins to build the tree anew.
    pub fn init_tree(&mut self) -> (r: Request)
        ensures
            final(self)@ == old(self)@.tree_load(false).0,
            r@ == old(self)@.tree_load(false).1,
    {
        self.begin_tree(false)
    }

    /// Begins to build the tree anew and to follow the list to where it stands.
    pub fn init_tree_from_list_position(&mut self) -> (r: Request)
        ensures
            final(self)@ == old(self)@.tree_load(true).0,
            r@ == old(self)@.tree_load(true).1,
    {
        self.begin_tree(true)
    }

    /// Takes the partitions for the first column.
    pub fn take_tree_partitions(
        &mut self,
        from_list: bool,
        rows: &Vec<PartitionRow>,
        error: &Option<String>,
    ) -> (r: Request)
        ensures
            final(self)@ == old(self)@.tree_partitions_read(from_list, rows@, opt_text(*error)).0,
            r@ == old(self)@.tree_partitions_read(from_list, rows@, opt_text(*error)).1,
    {
        match error {
            Some(e) => self.fail(e.as_str()),
            None => {
                let mut entries = Vec::new();
                push_partitions(&mut entries, rows);
                assert(listing(entries@) =~= partition_entries(rows@));
                self.pending = Pending::TreeRootFiles { from_list, entries };
                Request::RootFiles
            },
        }
    }

    /// Builds the first column, and goes on to the place of the list if asked.
    pub fn make_partition_column(
        &mut self,
        from_list: bool,
        entries: Vec<DirEntry>,
        rows: &Vec<FileRow>,
        error: &Option<String>,
    ) -> (r: Request)
        requires
            old(self)@.columns.len() == 0,
            old(self)@.active_column == 0,
        ensures
            final(self)@ == old(self)@.tree_root_files_read(
                from_list,
                listing(entries@),
                rows@,
                opt_text(*error),
            ).0,
            r@ == old(self)@.tree_root_files_read(
                from_list,
                listing(entries@),
                rows@,
                opt_text(*error),
            ).1,
    {
        match error {
            Some(e) => self.fail(e.as_str()),
            None => {
                let mut entries = entries;
                merge_files(&mut entries, rows, self.sort_mode);
                let column = Column::partitions(entries);
                self.columns.push(column);
                assert(self@.columns =~= old(self)@.columns.push(column@));
                let ghost s = self@;
                if from_list {
                    let place = match &self.current_partition {
                        Some(partition) => {
                            position_of(&self.columns[0].entries, partition.as_str())
                        },
                        None => {
                            return self.tree_update_preview(TreeGoal::Settle);
                        },
                    };
                    match place {
                        Some(idx) => {
                            self.set_place(idx);
                        },
                        None => {},
                    }
                    self.tree_update_preview(TreeGoal::EnterRoot)
                } else {
                    self.tree_update_preview(TreeGoal::Settle)
                }
            },
        }
    }

    /// Asks for what is selected in the active column, to show it beside it.
    pub fn tree_update_preview(&mut self, goal: TreeGoal) -> (r: Request)
        requires
            old(self)@.active_column < old(self)@.columns.len(),
        ensures
            final(self)@ == old(self)@.preview_update(goal@).0,
            r@ == old(self)@.preview_update(goal@).1,
    {
        let count: usize = self.columns.len();
        assert(self.active_column < count);
        self.columns.truncate(self.active_column + 1);
        self.file_preview = None;
        self.preview_focused = false;
        assert(self@.columns =~= first_columns(
            old(self)@.columns,
            old(self)@.active_column + 1,
        ));
        let column = &self.columns[self.active_column];
        assert(column@ == old(self)@.active());
        match column.selected_entry() {
            Some(entry) => {
                if entry.is_dir {
                    match &column.partition {
                        Some(partition) => {
                            let partition = partition.clone();
                            let partition_root = column.partition_root.clone();
                            let path = join_path(column.path.as_str(), entry.name.as_str());
                            self.ask_column(partition, partition_root, path, goal)
                        },
                        None => {
                            let partition = entry.name.clone();
                            self.pending = Pending::ColumnRange {
                                partition: partition.clone(),
                                goal,
                            };
                            Request::PathRange { partition }
                        },
                    }
                } else {
                    let path = entry.path.clone();
                    let size: i64 = entry.total_size;
                    let atime: i64 = entry.latest_atime;
                    self.pending = Pending::FilePreview { goal };
                    Request::Preview { path, size, atime }
                }
            },
            None => self.wait(),
        }
    }

    /// Asks for the rows of a directory, for a new column.
    fn ask_column(
        &mut self,
        partition: String,
        partition_root: String,
        path: String,
        goal: TreeGoal,
    ) -> (r: Request)
        ensures
            final(self)@ == old(self)@.column_asked(partition@, partition_root@, path@, goal@).0,
            r@ == old(self)@.column_asked(partition@, partition_root@, path@, goal@).1,
    {
        let request = Request::Directory { partition: partition.clone(), path: path.clone() };
        self.pending = Pending::ColumnRows { partition, partition_root, path, goal };
        request
    }

    /// Takes the root of a partition from its first and its last path.
    pub fn make_partition_root_column(
        &mut self,
        partition: String,
        goal: TreeGoal,
        first: &Option<String>,
        last: &Option<String>,
        error: &Option<String>,
    ) -> (r: Request)
        ensures
            final(self)@ == old(self)@.column_range_read(
                partition@,
                goal@,
                opt_text(*first),
                opt_text(*last),
                opt_text(*error),
            ).0,
            r@ == old(self)@.column_range_read(
                partition@,
                goal@,
                opt_text(*first),
                opt_text(*last),
                opt_text(*error),
            ).1,
    {
        match error {
            Some(e) => self.fail(e.as_str()),
            None => {
                let root = discover_partition_root(first, last);
                self.ask_column(partition, root.clone(), root, goal)
            },
        }
    }

    /// Adds the column of a directory whose rows have been read.
    pub fn make_directory_column_tree(
        &mut self,
        partition: String,
        partition_root: String,
        path: String,
        goal: TreeGoal,
        rows: &Vec<ComponentRow>,
        error: &Option<String>,
    ) -> (r: Request)
        requires
            old(self)@.place_wf(),
            old(self)@.columns.len() == old(self)@.active_column + 1,
            goal@ is EnterRoot ==> old(self)@.active_column == 0,
        ensures
            final(self)@ == old(self)@.column_rows_read(
                partition@,
                partition_root@,
                path@,
                goal@,
                rows@,
                opt_text(*error),
            ).0,
            r@ == old(self)@.column_rows_read(
                partition@,
                partition_root@,
                path@,
                goal@,
                rows@,
                opt_text(*error),
            ).1,
    {
        match error {
            Some(e) => self.fail(e.as_str()),
            None => {
                let column = Column::directory(partition, partition_root, path, rows);
                self.columns.push(column);
                assert(self@.columns =~= old(self)@.columns.push(column@));
                self.follow(goal)
            },
        }
    }

    /// Takes the preview of the selected file.
    pub fn take_file_preview(&mut self, goal: TreeGoal, preview: FilePreview) -> (r: Request)
        requires
            old(self)@.place_wf(),
            old(self)@.active_column < old(self)@.columns.len(),
            !(goal@ is EnterRoot),
        ensures
            final(self)@ == old(self)@.file_preview_read(goal@, preview@).0,
            r@ == old(self)@.file_preview_read(goal@, preview@).1,
    {
        self.file_preview = Some(preview);
        self.follow(goal)
    }

    /// The current path behind the root of the current partition.
    pub fn path_below_root(&self) -> (r: String)
        requires
            self@.place_wf(),
        ensures
            r@ == self@.below_root(),
    {
        let path = chars_of(self.current_path.as_str());
        let root = chars_of(self.partition_root.as_str());
        proof {
            if self@.current_partition is Some && self@.current_path != self@.partition_root {
                assert(starts(self@.current_path, self@.partition_root + "/"@));
            }
        }
        let relative = string_of(&path, root.len(), path.len());
        assert(relative@ =~= self@.below_root());
        relative
    }

    /// Goes on when the selection of the active column is shown.
    fn follow(&mut self, goal: TreeGoal) -> (r: Request)
        requires
            old(self)@.place_wf(),
            old(self)@.active_column < old(self)@.columns.len(),
            goal@ is EnterRoot ==> old(self)@.columns.len() >= 2,
        ensures
            final(self)@ == old(self)@.preview_shown(goal@).0,
            r@ == old(self)@.preview_shown(goal@).1,
    {
        match goal {
            TreeGoal::Settle => self.wait(),
            TreeGoal::EnterRoot => {
                let names = components_of(self.path_below_root().as_str());
                self.active_column = 1;
                self.walk(names)
            },
            TreeGoal::Walk(rest) => {
                if self.active_column < self.columns.len() - 1 {
                    self.active_column = self.active_column + 1;
                }
                self.walk(rest)
            },
        }
    }

    /// Selects the first of the names in the active column and shows it, leaving the
    /// rest for later.
    fn walk(&mut self, names: Vec<String>) -> (r: Request)
        requires
            old(self)@.active_column < old(self)@.columns.len(),
        ensures
            final(self)@ == old(self)@.walked(texts(names@)).0,
            r@ == old(self)@.walked(texts(names@)).1,
    {
        let mut names = names;
        if names.len() == 0 {
            return self.tree_update_preview(TreeGoal::Settle);
        }
        let ghost all = texts(names@);
        let name = names.remove(0);
        assert(texts(names@) =~= all.drop_first());
        assert(name@ == all[0]);
        let i: usize = self.active_column;
        match position_of(&self.columns[i].entries, name.as_str()) {
            Some(idx) => {
                self.set_place(idx);
                self.tree_update_preview(TreeGoal::Walk(names))
            },
            None => self.tree_update_preview(TreeGoal::Settle),
        }
    }

    /// Moves the selection of the active column down.
    pub fn tree_select_next(&mut self) -> (r: Request)
        requires
            old(self)@.tree_wf(),
        ensures
            final(self)@ == old(self)@.tree_next().0,
            r@ == old(self)@.tree_next().1,
    {
        if self.columns.len() == 0 {
            return self.wait();
        }
        let column = &self.columns[self.active_column];
        assert(column@ == old(self)@.active());
        if column.entries.len() == 0 {
            return self.wait();
        }
        let place: usize = place_below(column.selected, column.entries.len());
        self.set_place(place);
        self.tree_update_preview(TreeGoal::Settle)
    }

    /// Moves the selection of the active column up.
    pub fn tree_select_prev(&mut self) -> (r: Request)
        requires
            old(self)@.tree_wf(),
        ensures
            final(self)@ == old(self)@.tree_prev().0,
            r@ == old(self)@.tree_prev().1,
    {
        if self.columns.len() == 0 {
            return self.wait();
        }
        let column = &self.columns[self.active_column];
        assert(column@ == old(self)@.active());
        if column.entries.len() == 0 {
            return self.wait();
        }
        let place: usize = place_above(column.selected);
        self.set_place(place);
        self.tree_update_preview(TreeGoal::Settle)
    }

    /// Moves the selection of the active column to its first entry.
    pub fn tree_select_first(&mut self) -> (r: Request)
        requires
            old(self)@.tree_wf(),
        ensures
            final(self)@ == old(self)@.tree_first().0,
            r@ == old(self)@.tree_first().1,
    {
        if self.columns.len() == 0 {
            return self.wait();
        }
        let column = &self.columns[self.active_column];
        assert(column@ == old(self)@.active());
        if column.entries.len() > 0 {
            self.set_place(0);
        }
        self.tree_update_preview(TreeGoal::Settle)
    }

    /// Moves the selection of the active column to its last entry.
    pub fn tree_select_last(&mut self) -> (r: Request)
        requires
            old(self)@.tree_wf(),
        ensures
            final(self)@ == old(self)@.tree_last().0,
            r@ == old(self)@.tree_last().1,
    {
        if self.columns.len() == 0 {
            return self.wait();
        }
        let column = &self.columns[self.active_column];
        assert(column@ == old(self)@.active());
        let n: usize = column.entries.len();
        if n > 0 {
            self.set_place(n - 1);
        }
        self.tree_update_preview(TreeGoal::Settle)
    }

    /// Moves the focus into the column to the right.
    pub fn tree_right(&mut self) -> (r: Request)
        requires
            old(self)@.tree_wf(),
        ensures
            final(self)@ == old(self)@.tree_to_right().0,
            r@ == old(self)@.tree_to_right().1,
    {
        if self.columns.len() > 0 && self.active_column < self.columns.len() - 1 {
            self.active_column = self.active_column + 1;
            self.tree_update_preview(TreeGoal::Settle)
        } else {
            self.wait()
        }
    }

    /// Moves the focus back to the column to the left.
    pub fn tree_left(&mut self) -> (r: Request)
        requires
            old(self)@.tree_wf(),
        ensures
            final(self)@ == old(self)@.tree_to_left().0,
            r@ == old(self)@.tree_to_left().1,
    {
        if self.active_column > 0 {
            let count: usize = self.columns.len();
            assert(self.active_column < count);
            self.columns.truncate(self.active_column + 1);
            self.active_column = self.active_column - 1;
            assert(self@.columns =~= first_columns(
                old(self)@.columns,
                old(self)@.active_column + 1,
            ));
        }
        self.wait()
    }

    /// Takes the list to where the active column of the tree is.
    pub fn restore_list_from_tree_position(&mut self) -> (r: Request)
        requires
            old(self)@.tree_wf(),
        ensures
            final(self)@ == old(self)@.list_at_tree().0,
            r@ == old(self)@.list_at_tree().1,
    {
        if self.columns.len() == 0 {
            self.current_partition = None;
            self.partition_root = String::new();
            self.current_path = String::new();
            return self.load_list(Landing::Named(None));
        }
        let column = &self.columns[self.active_column];
        assert(column@ == old(self)@.active());
        let name = match column.selected_entry() {
            Some(entry) => Some(entry.name.clone()),
            None => None,
        };
        let partition = clone_text(&column.partition);
        let partition_root = column.partition_root.clone();
        let path = column.path.clone();
        self.current_partition = partition;
        self.partition_root = partition_root;
        self.current_path = path;
        self.load_list(Landing::Named(name))
    }

    /// Goes from the list to the tree, or back.
    pub fn toggle_view_mode(&mut self) -> (r: Request)
        requires
            old(self)@.tree_wf(),
        ensures
            final(self)@ == old(self)@.view_toggled().0,
            r@ == old(self)@.view_toggled().1,
    {
        match self.view_mode {
            ViewMode::List => {
                self.view_mode = ViewMode::Tree;
                self.init_tree_from_list_position()
            },
            ViewMode::Tree => {
                self.view_mode = ViewMode::List;
                self.restore_list_from_tree_position()
            },
        }
    }

    /// Loads what is shown again.
    pub fn reload(&mut self) -> (r: Request)
        ensures
            final(self)@ == old(self)@.reloaded().0,
            r@ == old(self)@.reloaded().1,
    {
        match self.view_mode {
            ViewMode::List => self.load_list(Landing::Keep),
            ViewMode::Tree => self.init_tree(),
        }
    }
}

} // verus!
