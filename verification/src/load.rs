//! Loading the list: which requests a load makes, what their replies change, and
//! where the selection goes.

use vstd::prelude::*;

use crate::app::{App, AppView, Landing, LandingView, Pending, PendingView, Request, RequestView,
    ViewMode};
use crate::entry::{
    component_entries, file_entries, listing, make_parent_entry, merge_files, merged_listing,
    parent_entry, partition_entries, position_named, position_of, push_components,
    push_partitions, ComponentRow, EntryView, FileRow, PartitionRow, SortMode,
};
use crate::filters::{opt_text, FiltersView, InputMode, QueryFilters};
use crate::root::{discover_partition_root, partition_root_of};
use crate::text::{decimal, decimal_of};

verus! {

/// An optional text of the same characters.
pub fn clone_text(s: &Option<String>) -> (r: Option<String>)
    ensures
        r == *s,
{
    match s {
        Some(t) => Some(t.clone()),
        None => None,
    }
}

/// The status of a loaded list of partitions.
pub open spec fn partitions_status(count: nat, elapsed: Seq<char>) -> Seq<char> {
    decimal(count) + " entries loaded in "@ + elapsed + "s"@
}

/// The status of a loaded directory.
pub open spec fn directory_status(count: nat, elapsed: Seq<char>, filtered: bool) -> Seq<char> {
    decimal(count) + " entries in "@ + elapsed + "s"@ + (if filtered {
        " (filtered)"@
    } else {
        ""@
    })
}

/// Where the selection goes in a list that has been loaded.
pub open spec fn landing_place(
    landing: LandingView,
    selected: Option<usize>,
    entries: Seq<EntryView>,
) -> Option<usize> {
    let first = if entries.len() > 0 {
        Some(0usize)
    } else {
        selected
    };
    match landing {
        LandingView::Start => first,
        LandingView::Keep => match selected {
            Some(i) => if i >= entries.len() && entries.len() > 0 {
                Some((entries.len() - 1) as usize)
            } else {
                selected
            },
            None => None,
        },
        LandingView::First => Some(0usize),
        LandingView::Named(name) => match name {
            Some(n) => match position_named(entries, n) {
                Some(i) => Some(i),
                None => first,
            },
            None => first,
        },
    }
}

impl AppView {
    /// The browser at the start of the program, before anything is loaded.
    pub open spec fn initial(
        partition: Option<Seq<char>>,
        filters: FiltersView,
        sort_mode: SortMode,
    ) -> AppView {
        AppView {
            partition_root: Seq::empty(),
            current_path: Seq::empty(),
            current_partition: partition,
            entries: Seq::empty(),
            selected: None,
            loading: false,
            status: Seq::empty(),
            filters,
            sort_mode,
            input_mode: InputMode::Normal,
            input_buffer: Seq::empty(),
            pending_sort: sort_mode,
            view_mode: ViewMode::List,
            columns: Seq::empty(),
            active_column: 0,
            file_preview: None,
            preview_focused: false,
            list_preview: None,
            pending: PendingView::Idle,
        }
    }

    /// Waiting for a key.
    pub open spec fn idle(self) -> (AppView, RequestView) {
        (AppView { pending: PendingView::Idle, ..self }, RequestView::Key)
    }

    /// A failure, in the status.
    pub open spec fn failed(self, error: Seq<char>) -> (AppView, RequestView) {
        AppView { status: "Error: "@ + error, ..self }.idle()
    }

    /// A failure of a load: it ends the program at the start, and is told in the
    /// status later.
    pub open spec fn load_failed(self, landing: LandingView, error: Seq<char>) -> (
        AppView,
        RequestView,
    ) {
        let s = AppView { loading: false, ..self };
        if landing is Start {
            (AppView { pending: PendingView::Idle, ..s }, RequestView::Abort { error })
        } else {
            s.failed(error)
        }
    }

    /// The list is loaded, and the selection put in its place.
    pub open spec fn landed(self, landing: LandingView) -> (AppView, RequestView) {
        AppView {
            loading: false,
            selected: landing_place(landing, self.selected, self.entries),
            ..self
        }.idle()
    }

    /// The load of the list of partitions begins.
    pub open spec fn partitions_load(self, landing: LandingView) -> (AppView, RequestView) {
        (
            AppView {
                loading: true,
                entries: Seq::empty(),
                pending: PendingView::Partitions(landing),
                ..self
            },
            RequestView::Partitions,
        )
    }

    /// The partitions have been read: they are listed, and the files outside of any
    /// come next.
    pub open spec fn partitions_read(
        self,
        landing: LandingView,
        rows: Seq<PartitionRow>,
        error: Option<Seq<char>>,
    ) -> (AppView, RequestView) {
        let s = AppView { entries: self.entries + partition_entries(rows), ..self };
        match error {
            Some(e) => s.load_failed(landing, e),
            None => (
                AppView { pending: PendingView::RootFiles(landing), ..s },
                RequestView::RootFiles,
            ),
        }
    }

    /// The files outside of any partition have been read: the list is loaded.
    pub open spec fn root_files_read(
        self,
        landing: LandingView,
        rows: Seq<FileRow>,
        error: Option<Seq<char>>,
        elapsed: Seq<char>,
    ) -> (AppView, RequestView) {
        match error {
            Some(e) => self.load_failed(landing, e),
            None => {
                let entries = merged_listing(self.entries, file_entries(rows), self.sort_mode);
                AppView {
                    entries,
                    status: partitions_status(entries.len(), elapsed),
                    ..self
                }.landed(landing)
            },
        }
    }

    /// The rows of the current directory are asked for; the list holds the way up
    /// only.
    pub open spec fn directory_asked(self, landing: LandingView) -> (AppView, RequestView) {
        (
            AppView {
                entries: seq![parent_entry()],
                pending: PendingView::Directory(landing),
                ..self
            },
            RequestView::Directory {
                partition: self.current_partition->0,
                path: self.current_path,
            },
        )
    }

    /// The load of the current directory begins, with the root of its partition
    /// where that is not known yet.
    pub open spec fn directory_load(self, landing: LandingView) -> (AppView, RequestView) {
        let s = AppView { loading: true, ..self };
        if self.partition_root.len() == 0 {
            (
                AppView { pending: PendingView::PathRange(landing), ..s },
                RequestView::PathRange { partition: self.current_partition->0 },
            )
        } else {
            s.directory_asked(landing)
        }
    }

    /// The first and the last path of the partition have been read: its root is known,
    /// and is the current directory.
    pub open spec fn path_range_read(
        self,
        landing: LandingView,
        first: Option<Seq<char>>,
        last: Option<Seq<char>>,
        error: Option<Seq<char>>,
    ) -> (AppView, RequestView) {
        match error {
            Some(e) => self.load_failed(landing, e),
            None => AppView {
                partition_root: partition_root_of(first, last),
                current_path: partition_root_of(first, last),
                ..self
            }.directory_asked(landing),
        }
    }

    /// The rows of the current directory have been read: the list is loaded.
    pub open spec fn directory_read(
        self,
        landing: LandingView,
        rows: Seq<ComponentRow>,
        error: Option<Seq<char>>,
        elapsed: Seq<char>,
    ) -> (AppView, RequestView) {
        let s = AppView {
            entries: self.entries + component_entries(rows, self.current_path),
            ..self
        };
        match error {
            Some(e) => s.load_failed(landing, e),
            None => AppView {
                status: directory_status(s.entries.len(), elapsed, self.filters.active()),
                ..s
            }.landed(landing),
        }
    }

    /// The load of the list where it stands begins.
    pub open spec fn list_load(self, landing: LandingView) -> (AppView, RequestView) {
        if self.current_partition is None {
            self.partitions_load(landing)
        } else {
            self.directory_load(landing)
        }
    }
}

impl App {
    /// The browser at the start of the program, in the list of partitions or in one
    /// of them, and the first request of its load.
    pub fn new(initial_partition: Option<String>, filters: QueryFilters, sort_mode: SortMode) -> (r:
        (App, Request))
        ensures
            r.0@ == AppView::initial(opt_text(initial_partition), filters@, sort_mode).list_load(
                LandingView::Start,
            ).0,
            r.1@ == AppView::initial(opt_text(initial_partition), filters@, sort_mode).list_load(
                LandingView::Start,
            ).1,
            r.0@.wf(),
            r.0@.asks(r.1@),
    {
        let mut app = App {
            partition_root: String::new(),
            current_path: String::new(),
            current_partition: initial_partition,
            entries: Vec::new(),
            selected: None,
            loading: false,
            status: String::new(),
            filters,
            sort_mode,
            input_mode: InputMode::Normal,
            input_buffer: String::new(),
            pending_sort: sort_mode,
            view_mode: ViewMode::List,
            columns: Vec::new(),
            active_column: 0,
            file_preview: None,
            preview_focused: false,
            list_preview: None,
            pending: Pending::Idle,
        };
        assert(app@ =~= AppView::initial(opt_text(initial_partition), filters@, sort_mode));
        let request = app.load_list(Landing::Start);
        (app, request)
    }

    /// Waits for a key.
    pub fn wait(&mut self) -> (r: Request)
        ensures
            final(self)@ == old(self)@.idle().0,
            r@ == old(self)@.idle().1,
    {
        self.pending = Pending::Idle;
        Request::Key
    }

    /// Tells a failure in the status.
    pub fn fail(&mut self, error: &str) -> (r: Request)
        ensures
            final(self)@ == old(self)@.failed(error@).0,
            r@ == old(self)@.failed(error@).1,
    {
        let mut status = "Error: ".to_owned();
        status.append(error);
        self.status = status;
        self.wait()
    }

    /// Ends the program with the failure of a load at its start, or tells it in the
    /// status.
    pub fn fail_load(&mut self, landing: &Landing, error: &str) -> (r: Request)
        ensures
            final(self)@ == old(self)@.load_failed(landing@, error@).0,
            r@ == old(self)@.load_failed(landing@, error@).1,
    {
        self.loading = false;
        match landing {
            Landing::Start => {
                self.pending = Pending::Idle;
                Request::Abort { error: error.to_owned() }
            },
            _ => self.fail(error),
        }
    }

    /// Puts the selection in its place in a list that has been loaded.
    pub fn land(&mut self, landing: &Landing) -> (r: Request)
        ensures
            final(self)@ == old(self)@.landed(landing@).0,
            r@ == old(self)@.landed(landing@).1,
    {
        self.loading = false;
        match landing {
            Landing::Start => {
                if self.entries.len() > 0 {
                    self.selected = Some(0);
                }
            },
            Landing::Keep => {
                if let Some(idx) = self.selected {
                    if idx >= self.entries.len() && self.entries.len() > 0 {
                        self.selected = Some(self.entries.len() - 1);
                    }
                }
            },
            Landing::First => {
                self.selected = Some(0);
            },
            Landing::Named(name) => {
                let place = match name {
                    Some(n) => position_of(&self.entries, n.as_str()),
                    None => None,
                };
                match place {
                    Some(idx) => {
                        self.selected = Some(idx);
                    },
                    None => {
                        if self.entries.len() > 0 {
                            self.selected = Some(0);
                        }
                    },
                }
            },
        }
        self.wait()
    }

    /// Begins to load the list of partitions.
    pub fn load_partitions(&mut self, landing: Landing) -> (r: Request)
        ensures
            final(self)@ == old(self)@.partitions_load(landing@).0,
            r@ == old(self)@.partitions_load(landing@).1,
    {
        self.loading = true;
        self.entries = Vec::new();
        self.pending = Pending::Partitions(landing);
        assert(listing(self.entries@) =~= Seq::<EntryView>::empty());
        Request::Partitions
    }

    /// Lists the partitions that have been read.
    pub fn take_partitions(
        &mut self,
        landing: Landing,
        rows: &Vec<PartitionRow>,
        error: &Option<String>,
    ) -> (r: Request)
        ensures
            final(self)@ == old(self)@.partitions_read(landing@, rows@, opt_text(*error)).0,
            r@ == old(self)@.partitions_read(landing@, rows@, opt_text(*error)).1,
    {
        push_partitions(&mut self.entries, rows);
        match error {
            Some(e) => self.fail_load(&landing, e.as_str()),
            None => {
                self.pending = Pending::RootFiles(landing);
                Request::RootFiles
            },
        }
    }

    /// Merges the files that have been read from outside of any partition.
    pub fn take_root_files(
        &mut self,
        landing: Landing,
        rows: &Vec<FileRow>,
        error: &Option<String>,
        elapsed: &str,
    ) -> (r: Request)
        ensures
            final(self)@ == old(self)@.root_files_read(
                landing@,
                rows@,
                opt_text(*error),
                elapsed@,
            ).0,
            r@ == old(self)@.root_files_read(landing@, rows@, opt_text(*error), elapsed@).1,
    {
        match error {
            Some(e) => self.fail_load(&landing, e.as_str()),
            None => {
                merge_files(&mut self.entries, rows, self.sort_mode);
                let mut status = decimal_of(self.entries.len() as u64);
                status.append(" entries loaded in ");
                status.append(elapsed);
                status.append("s");
                self.status = status;
                self.land(&landing)
            },
        }
    }

    /// Asks for the rows of the current directory.
    fn ask_directory(&mut self, landing: Landing) -> (r: Request)
        requires
            old(self)@.current_partition is Some,
        ensures
            final(self)@ == old(self)@.directory_asked(landing@).0,
            r@ == old(self)@.directory_asked(landing@).1,
    {
        let partition = match &self.current_partition {
            Some(p) => p.clone(),
            None => String::new(),
        };
        let mut entries = Vec::new();
        entries.push(make_parent_entry());
        assert(listing(entries@) =~= seq![parent_entry()]);
        self.entries = entries;
        self.pending = Pending::Directory(landing);
        Request::Directory { partition, path: self.current_path.clone() }
    }

    /// Begins to load the current directory.
    pub fn load_directory(&mut self, landing: Landing) -> (r: Request)
        requires
            old(self)@.current_partition is Some,
        ensures
            final(self)@ == old(self)@.directory_load(landing@).0,
            r@ == old(self)@.directory_load(landing@).1,
    {
        self.loading = true;
        let unknown = self.partition_root.as_str().is_empty();
        if unknown {
            let partition = match &self.current_partition {
                Some(p) => p.clone(),
                None => String::new(),
            };
            self.pending = Pending::PathRange(landing);
            Request::PathRange { partition }
        } else {
            self.ask_directory(landing)
        }
    }

    /// Takes the root of the current partition from its first and its last path.
    pub fn take_path_range(
        &mut self,
        landing: Landing,
        first: &Option<String>,
        last: &Option<String>,
        error: &Option<String>,
    ) -> (r: Request)
        requires
            old(self)@.current_partition is Some,
        ensures
            final(self)@ == old(self)@.path_range_read(
                landing@,
                opt_text(*first),
                opt_text(*last),
                opt_text(*error),
            ).0,
            r@ == old(self)@.path_range_read(
                landing@,
                opt_text(*first),
                opt_text(*last),
                opt_text(*error),
            ).1,
    {
        match error {
            Some(e) => self.fail_load(&landing, e.as_str()),
            None => {
                let root = discover_partition_root(first, last);
                self.current_path = root.clone();
                self.partition_root = root;
                self.ask_directory(landing)
            },
        }
    }

    /// Lists the rows of the current directory that have been read.
    pub fn take_directory(
        &mut self,
        landing: Landing,
        rows: &Vec<ComponentRow>,
        error: &Option<String>,
        elapsed: &str,
    ) -> (r: Request)
        ensures
            final(self)@ == old(self)@.directory_read(
                landing@,
                rows@,
                opt_text(*error),
                elapsed@,
            ).0,
            r@ == old(self)@.directory_read(landing@, rows@, opt_text(*error), elapsed@).1,
    {
        push_components(&mut self.entries, rows, self.current_path.as_str());
        match error {
            Some(e) => self.fail_load(&landing, e.as_str()),
            None => {
                let mut status = decimal_of(self.entries.len() as u64);
                status.append(" entries in ");
                status.append(elapsed);
                status.append("s");
                status.append(if self.filters.is_active() {
                    " (filtered)"
                } else {
                    ""
                });
                self.status = status;
                self.land(&landing)
            },
        }
    }

    /// Begins to load the list where it stands.
    pub fn load_list(&mut self, landing: Landing) -> (r: Request)
        ensures
            final(self)@ == old(self)@.list_load(landing@).0,
            r@ == old(self)@.list_load(landing@).1,
    {
        if self.current_partition.is_none() {
            self.load_partitions(landing)
        } else {
            self.load_directory(landing)
        }
    }
}

} // verus!
