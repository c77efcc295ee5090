//! The state of the browser: where it stands, what it shows, and what it waits
//! for.

use vstd::prelude::*;

use crate::entry::{
    child_path, listing, parent_entry, ComponentRow, DirEntry, EntryView, FileRow, PartitionRow,
    SortMode,
};
use crate::filters::{opt_text, FiltersView, InputMode, QueryFilters};
use crate::preview::{FilePreview, LineBatch, PreviewView};
use crate::text::{starts, texts};

verus! {

/// How the listing is laid out.
#[derive(Clone, Copy, Debug, PartialEq, Eq, Structural)]
pub enum ViewMode {
    /// One list
    List,
    /// A cascade of columns, one per directory level
    Tree,
}

/// A column of the tree.
#[derive(Debug)]
pub struct Column {
    /// Title of the column
    pub title: String,
    /// Partition that the column is in; none for the list of partitions
    pub partition: Option<String>,
    /// Root path of the partition
    pub partition_root: String,
    /// Path of the directory that the column shows
    pub path: String,
    /// What stands in the directory
    pub entries: Vec<DirEntry>,
    /// The selected entry
    pub selected: Option<usize>,
}

/// A column with its texts as characters.
#[verifier::ext_equal]
pub struct ColumnView {
    pub title: Seq<char>,
    pub partition: Option<Seq<char>>,
    pub partition_root: Seq<char>,
    pub path: Seq<char>,
    pub entries: Seq<EntryView>,
    pub selected: Option<usize>,
}

impl View for Column {
    type V = ColumnView;

    open spec fn view(&self) -> ColumnView {
        ColumnView {
            title: self.title@,
            partition: opt_text(self.partition),
            partition_root: self.partition_root@,
            path: self.path@,
            entries: listing(self.entries@),
            selected: self.selected,
        }
    }
}

/// Columns with their texts as characters.
pub open spec fn cascade(columns: Seq<Column>) -> Seq<ColumnView> {
    columns.map_values(|c: Column| c@)
}

/// Whether `path` is `root` or lies below it.
pub open spec fn under(path: Seq<char>, root: Seq<char>) -> bool {
    path == root || starts(path, root + "/"@)
}

impl ColumnView {
    /// A column shows the list of partitions, or a directory at or below the root
    /// of its partition.
    pub open spec fn wf(self) -> bool {
        match self.partition {
            Some(_) => under(self.path, self.partition_root),
            None => self.partition_root.len() == 0 && self.path.len() == 0,
        }
    }

    /// Whether the directory `path` of a partition is what is selected in this column:
    /// the root of a partition, or a directory in the one that the column shows.
    pub open spec fn leads_to(
        self,
        partition: Seq<char>,
        partition_root: Seq<char>,
        path: Seq<char>,
    ) -> bool {
        &&& self.selection() is Some
        &&& self.selection()->0.is_dir
        &&& match self.partition {
            Some(p) => {
                &&& partition == p
                &&& partition_root == self.partition_root
                &&& path == child_path(self.path, self.selection()->0.name)
            },
            None => partition == self.selection()->0.name && path == partition_root,
        }
    }

    /// The selected entry.
    pub open spec fn selection(self) -> Option<EntryView> {
        match self.selected {
            Some(i) => if i < self.entries.len() {
                Some(self.entries[i as int])
            } else {
                None
            },
            None => None,
        }
    }
}

/// Where the selection of the list goes when a load is done.
#[derive(Debug)]
pub enum Landing {
    /// To the first entry, at the start of the program, which a failure ends
    Start,
    /// It stays, but is pulled back into a list that has become shorter
    Keep,
    /// To the first place, whether there is an entry or not
    First,
    /// To the entry of that name; failing that, to the first entry
    Named(Option<String>),
}

/// A landing with its text as characters.
#[verifier::ext_equal]
pub enum LandingView {
    Start,
    Keep,
    First,
    Named(Option<Seq<char>>),
}

impl View for Landing {
    type V = LandingView;

    open spec fn view(&self) -> LandingView {
        match self {
            Landing::Start => LandingView::Start,
            Landing::Keep => LandingView::Keep,
            Landing::First => LandingView::First,
            Landing::Named(n) => LandingView::Named(opt_text(*n)),
        }
    }
}

/// What follows in the tree when the preview of the active column is up.
#[derive(Debug)]
pub enum TreeGoal {
    /// Nothing
    Settle,
    /// Stepping into the root of the partition, on the way to the place of the
    /// list
    EnterRoot,
    /// Following the rest of the path to the place of the list
    Walk(Vec<String>),
}

/// A goal with its texts as characters.
#[verifier::ext_equal]
pub enum GoalView {
    Settle,
    EnterRoot,
    Walk(Seq<Seq<char>>),
}

impl View for TreeGoal {
    type V = GoalView;

    open spec fn view(&self) -> GoalView {
        match self {
            TreeGoal::Settle => GoalView::Settle,
            TreeGoal::EnterRoot => GoalView::EnterRoot,
            TreeGoal::Walk(rest) => GoalView::Walk(texts(rest@)),
        }
    }
}

/// What the browser waits for.
#[derive(Debug)]
pub enum Pending {
    /// A key
    Idle,
    /// The partitions, for the list
    Partitions(Landing),
    /// The files outside of any partition, for the list
    RootFiles(Landing),
    /// The first and the last path of the partition that is entered
    PathRange(Landing),
    /// What stands in the current directory
    Directory(Landing),
    /// The partitions, for the tree
    TreePartitions { from_list: bool },
    /// The files outside of any partition, for the tree
    TreeRootFiles { from_list: bool, entries: Vec<DirEntry> },
    /// The first and the last path of the partition that a new column is for
    ColumnRange { partition: String, goal: TreeGoal },
    /// What stands in the directory that a new column is for
    ColumnRows { partition: String, partition_root: String, path: String, goal: TreeGoal },
    /// The file that is selected in the tree
    FilePreview { goal: TreeGoal },
    /// The file that is opened over the list
    ListPreview,
    /// The regular expression for a pattern
    Pattern { value: String },
    /// The number for a size
    Size,
    /// Lines, to scroll down by `step`
    PagerDown { step: usize },
    /// Lines from the start of the file
    PagerTop,
    /// Lines up to the end of the file
    PagerBottom,
}

/// What the browser waits for, with texts as characters.
#[verifier::ext_equal]
pub enum PendingView {
    Idle,
    Partitions(LandingView),
    RootFiles(LandingView),
    PathRange(LandingView),
    Directory(LandingView),
    TreePartitions { from_list: bool },
    TreeRootFiles { from_list: bool, entries: Seq<EntryView> },
    ColumnRange { partition: Seq<char>, goal: GoalView },
    ColumnRows { partition: Seq<char>, partition_root: Seq<char>, path: Seq<char>, goal: GoalView },
    FilePreview { goal: GoalView },
    ListPreview,
    Pattern { value: Seq<char> },
    Size,
    PagerDown { step: int },
    PagerTop,
    PagerBottom,
}

impl View for Pending {
    type V = PendingView;

    open spec fn view(&self) -> PendingView {
        match self {
            Pending::Idle => PendingView::Idle,
            Pending::Partitions(l) => PendingView::Partitions(l@),
            Pending::RootFiles(l) => PendingView::RootFiles(l@),
            Pending::PathRange(l) => PendingView::PathRange(l@),
            Pending::Directory(l) => PendingView::Directory(l@),
            Pending::TreePartitions { from_list } => PendingView::TreePartitions {
                from_list: *from_list,
            },
            Pending::TreeRootFiles { from_list, entries } => PendingView::TreeRootFiles {
                from_list: *from_list,
                entries: listing(entries@),
            },
            Pending::ColumnRange { partition, goal } => PendingView::ColumnRange {
                partition: partition@,
                goal: goal@,
            },
            Pending::ColumnRows { partition, partition_root, path, goal } => PendingView::ColumnRows {
                partition: partition@,
                partition_root: partition_root@,
                path: path@,
                goal: goal@,
            },
            Pending::FilePreview { goal } => PendingView::FilePreview { goal: goal@ },
            Pending::ListPreview => PendingView::ListPreview,
            Pending::Pattern { value } => PendingView::Pattern { value: value@ },
            Pending::Size => PendingView::Size,
            Pending::PagerDown { step } => PendingView::PagerDown { step: *step as int },
            Pending::PagerTop => PendingView::PagerTop,
            Pending::PagerBottom => PendingView::PagerBottom,
        }
    }
}

/// What is to be done outside before the browser goes on.
#[derive(Debug)]
pub enum Request {
    /// Nothing: hand in the next key
    Key,
    /// End the program
    Quit,
    /// End the program with an error
    Abort { error: String },
    /// Read the partitions
    Partitions,
    /// Read the files of the root partition
    RootFiles,
    /// Read the first and the last path of a partition, in the order of their bytes
    PathRange { partition: String },
    /// Read what stands in a directory of a partition
    Directory { partition: String, path: String },
    /// Read the beginning of a file
    Preview { path: String, size: i64, atime: i64 },
    /// Turn a glob pattern into a regular expression
    Glob { pattern: String },
    /// Turn the text of a size into a number
    Size { text: String },
    /// Read lines of a file from a byte position on
    Lines { path: String, offset: u64 },
}

/// A request with its texts as characters.
#[verifier::ext_equal]
pub enum RequestView {
    Key,
    Quit,
    Abort { error: Seq<char> },
    Partitions,
    RootFiles,
    PathRange { partition: Seq<char> },
    Directory { partition: Seq<char>, path: Seq<char> },
    Preview { path: Seq<char>, size: i64, atime: i64 },
    Glob { pattern: Seq<char> },
    Size { text: Seq<char> },
    Lines { path: Seq<char>, offset: int },
}

impl View for Request {
    type V = RequestView;

    open spec fn view(&self) -> RequestView {
        match self {
            Request::Key => RequestView::Key,
            Request::Quit => RequestView::Quit,
            Request::Abort { error } => RequestView::Abort { error: error@ },
            Request::Partitions => RequestView::Partitions,
            Request::RootFiles => RequestView::RootFiles,
            Request::PathRange { partition } => RequestView::PathRange { partition: partition@ },
            Request::Directory { partition, path } => RequestView::Directory {
                partition: partition@,
                path: path@,
            },
            Request::Preview { path, size, atime } => RequestView::Preview {
                path: path@,
                size: *size,
                atime: *atime,
            },
            Request::Glob { pattern } => RequestView::Glob { pattern: pattern@ },
            Request::Size { text } => RequestView::Size { text: text@ },
            Request::Lines { path, offset } => RequestView::Lines {
                path: path@,
                offset: *offset as int,
            },
        }
    }
}

/// What came of a request. Rows are those that were read before the error, where
/// there is one; `elapsed` is the time since the load began, in seconds to two
/// decimals.
#[derive(Debug)]
pub enum Reply {
    Partitions { partitions: Vec<PartitionRow>, error: Option<String> },
    RootFiles { files: Vec<FileRow>, error: Option<String>, elapsed: String },
    PathRange { first: Option<String>, last: Option<String>, error: Option<String> },
    Directory { components: Vec<ComponentRow>, error: Option<String>, elapsed: String },
    Preview { preview: FilePreview },
    Glob { regex: String, error: Option<String> },
    Size { size: i64, error: Option<String> },
    Lines { batch: LineBatch },
}

/// The browser.
#[derive(Debug)]
pub struct App {
    /// Root path of the current partition
    pub partition_root: String,
    /// Path of the current directory
    pub current_path: String,
    /// Current partition; none in the list of partitions
    pub current_partition: Option<String>,
    /// What the list shows
    pub entries: Vec<DirEntry>,
    /// Selected place of the list
    pub selected: Option<usize>,
    /// Whether the list is being loaded
    pub loading: bool,
    /// Status message
    pub status: String,
    /// Filters of the listing
    pub filters: QueryFilters,
    /// Order of the listing
    pub sort_mode: SortMode,
    /// What the keyboard is for
    pub input_mode: InputMode,
    /// Text entered so far
    pub input_buffer: String,
    /// Order that is being chosen
    pub pending_sort: SortMode,
    /// List or tree
    pub view_mode: ViewMode,
    /// Columns of the tree
    pub columns: Vec<Column>,
    /// The column of the tree that has the focus
    pub active_column: usize,
    /// The file that is selected in the tree
    pub file_preview: Option<FilePreview>,
    /// Whether the keyboard scrolls that file
    pub preview_focused: bool,
    /// The file that is opened over the list
    pub list_preview: Option<FilePreview>,
    /// What the browser waits for
    pub pending: Pending,
}

/// An optional preview with its texts as characters.
pub open spec fn opt_preview(p: Option<FilePreview>) -> Option<PreviewView> {
    match p {
        Some(f) => Some(f@),
        None => None,
    }
}

/// The browser with its texts as characters.
#[verifier::ext_equal]
pub struct AppView {
    pub partition_root: Seq<char>,
    pub current_path: Seq<char>,
    pub current_partition: Option<Seq<char>>,
    pub entries: Seq<EntryView>,
    pub selected: Option<usize>,
    pub loading: bool,
    pub status: Seq<char>,
    pub filters: FiltersView,
    pub sort_mode: SortMode,
    pub input_mode: InputMode,
    pub input_buffer: Seq<char>,
    pub pending_sort: SortMode,
    pub view_mode: ViewMode,
    pub columns: Seq<ColumnView>,
    pub active_column: int,
    pub file_preview: Option<PreviewView>,
    pub preview_focused: bool,
    pub list_preview: Option<PreviewView>,
    pub pending: PendingView,
}

impl View for App {
    type V = AppView;

    open spec fn view(&self) -> AppView {
        AppView {
            partition_root: self.partition_root@,
            current_path: self.current_path@,
            current_partition: opt_text(self.current_partition),
            entries: listing(self.entries@),
            selected: self.selected,
            loading: self.loading,
            status: self.status@,
            filters: self.filters@,
            sort_mode: self.sort_mode,
            input_mode: self.input_mode,
            input_buffer: self.input_buffer@,
            pending_sort: self.pending_sort,
            view_mode: self.view_mode,
            columns: cascade(self.columns@),
            active_column: self.active_column as int,
            file_preview: opt_preview(self.file_preview),
            preview_focused: self.preview_focused,
            list_preview: opt_preview(self.list_preview),
            pending: self.pending@,
        }
    }
}

/// Whether column `i` shows what is selected in the one before it.
pub open spec fn linked(columns: Seq<ColumnView>, i: int) -> bool {
    columns[i - 1].leads_to(columns[i].partition->0, columns[i].partition_root, columns[i].path)
}

impl AppView {
    /// The focus of the tree is on one of its columns. The first column is the list
    /// of partitions, and the only one that is. Each of the others shows what is
    /// selected in the one before it.
    pub open spec fn tree_wf(self) -> bool {
        &&& self.columns.len() == 0 ==> self.active_column == 0
        &&& self.columns.len() > 0 ==> 0 <= self.active_column < self.columns.len()
        &&& forall|i: int| 0 <= i < self.columns.len() ==> (#[trigger] self.columns[i]).wf()
        &&& forall|i: int|
            0 <= i < self.columns.len() ==> ((#[trigger] self.columns[i]).partition is None <==> i
                == 0)
        &&& forall|i: int| 1 <= i < self.columns.len() ==> #[trigger] linked(self.columns, i)
    }

    /// The current directory is at or below the root of the current partition.
    pub open spec fn place_wf(self) -> bool {
        match self.current_partition {
            Some(_) => under(self.current_path, self.partition_root),
            None => self.partition_root.len() == 0 && self.current_path.len() == 0,
        }
    }

    /// A file lies over the list exactly while the keyboard is for it, and the
    /// keyboard scrolls a file only in the tree, and only where there is one.
    pub open spec fn previews_wf(self) -> bool {
        &&& self.file_preview matches Some(p) ==> p.wf()
        &&& self.list_preview matches Some(p) ==> p.wf()
        &&& self.list_preview is Some <==> self.input_mode == InputMode::ListPreview
        &&& self.list_preview is Some ==> self.view_mode == ViewMode::List
        &&& self.preview_focused ==> self.file_preview is Some && self.view_mode == ViewMode::Tree
            && self.input_mode == InputMode::Normal
    }

    /// A new column or file preview is awaited behind the last column.
    pub open spec fn awaits_preview(self, goal: GoalView) -> bool {
        &&& self.view_mode == ViewMode::Tree
        &&& self.columns.len() == self.active_column + 1
        &&& self.file_preview is None
        &&& !self.preview_focused
        &&& goal is EnterRoot ==> self.active_column == 0
    }

    /// What is awaited fits the rest of the state.
    pub open spec fn pending_wf(self) -> bool {
        match self.pending {
            PendingView::Idle => true,
            PendingView::Partitions(_) => self.current_partition is None && self.view_mode
                == ViewMode::List && self.entries.len() == 0,
            PendingView::RootFiles(_) => self.current_partition is None && self.view_mode
                == ViewMode::List,
            PendingView::PathRange(_) => self.current_partition is Some && self.view_mode
                == ViewMode::List,
            PendingView::Directory(_) => self.current_partition is Some && self.view_mode
                == ViewMode::List && self.entries == seq![parent_entry()],
            PendingView::TreePartitions { .. } | PendingView::TreeRootFiles { .. } => {
                self.view_mode == ViewMode::Tree && self.columns.len() == 0
                    && !self.preview_focused
            },
            PendingView::ColumnRange { partition, goal } => {
                &&& self.awaits_preview(goal)
                &&& self.active_column == 0
                &&& self.columns[0].leads_to(partition, Seq::empty(), Seq::empty())
            },
            PendingView::ColumnRows { partition, partition_root, path, goal } => {
                &&& self.awaits_preview(goal)
                &&& under(path, partition_root)
                &&& self.columns[self.active_column].leads_to(partition, partition_root, path)
            },
            PendingView::FilePreview { goal } => {
                &&& self.awaits_preview(goal)
                &&& !(goal is EnterRoot)
                &&& self.columns[self.active_column].selection() is Some
                &&& !self.columns[self.active_column].selection()->0.is_dir
            },
            PendingView::ListPreview => self.view_mode == ViewMode::List && self.input_mode
                == InputMode::Normal,
            PendingView::Pattern { .. } => self.input_mode == InputMode::Pattern,
            PendingView::Size => self.input_mode == InputMode::MinSize || self.input_mode
                == InputMode::MaxSize,
            PendingView::PagerDown { step } => self.preview_focused && self.file_preview is Some
                && self.file_preview->0.unfinished() && 0 <= step,
            PendingView::PagerTop | PendingView::PagerBottom => self.preview_focused
                && self.file_preview is Some && self.file_preview->0.unfinished(),
        }
    }

    /// The state hangs together, whatever is awaited.
    pub open spec fn sound(self) -> bool {
        &&& self.tree_wf()
        &&& self.place_wf()
        &&& self.previews_wf()
    }

    /// Whether something is awaited for the list.
    pub open spec fn awaits_list(self) -> bool {
        self.pending is Partitions || self.pending is RootFiles || self.pending is PathRange
            || self.pending is Directory
    }

    /// The state hangs together, with what is awaited. The list is being loaded
    /// exactly while something is awaited for it.
    pub open spec fn wf(self) -> bool {
        &&& self.sound()
        &&& self.pending_wf()
        &&& self.loading <==> self.awaits_list()
    }

    /// Whether the request asks for what is awaited.
    pub open spec fn asks(self, request: RequestView) -> bool {
        match self.pending {
            PendingView::Idle => request is Key || request is Quit || request is Abort,
            PendingView::Partitions(_) | PendingView::TreePartitions { .. } => {
                request is Partitions
            },
            PendingView::RootFiles(_) | PendingView::TreeRootFiles { .. } => request is RootFiles,
            PendingView::PathRange(_) => request == (RequestView::PathRange {
                partition: self.current_partition->0,
            }),
            PendingView::Directory(_) => request == (RequestView::Directory {
                partition: self.current_partition->0,
                path: self.current_path,
            }),
            PendingView::ColumnRange { partition, .. } => request == (RequestView::PathRange {
                partition,
            }),
            PendingView::ColumnRows { partition, path, .. } => {
                request == (RequestView::Directory { partition, path })
            },
            PendingView::FilePreview { .. } | PendingView::ListPreview => request is Preview,
            PendingView::Pattern { value } => request == (RequestView::Glob { pattern: value }),
            PendingView::Size => request is Size,
            PendingView::PagerDown { .. } | PendingView::PagerTop | PendingView::PagerBottom => {
                request == (RequestView::Lines {
                    path: self.file_preview->0.path,
                    offset: self.file_preview->0.file_offset,
                })
            },
        }
    }
}

} // verus!
