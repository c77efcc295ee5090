//! The list: moving through it, into directories and out of them, and looking at
//! a file over it.

use vstd::prelude::*;

use crate::app::{App, AppView, Landing, LandingView, Pending, PendingView, Request, RequestView};
use crate::entry::{child_path, join_path, list_preview_entry, previewed};
use crate::filters::InputMode;
use crate::preview::{FilePreview, PreviewView};
use crate::text::{before_last, before_last_of, same};
use crate::tree::{next_place, place_above, place_below, prev_place};

verus! {

impl AppView {
    /// One entry down.
    pub open spec fn next(self) -> AppView {
        if self.entries.len() == 0 {
            self
        } else {
            AppView { selected: Some(next_place(self.selected, self.entries.len())), ..self }
        }
    }

    /// One entry up.
    pub open spec fn prev(self) -> AppView {
        if self.entries.len() == 0 {
            self
        } else {
            AppView { selected: Some(prev_place(self.selected)), ..self }
        }
    }

    /// To the first entry.
    pub open spec fn first(self) -> AppView {
        if self.entries.len() == 0 {
            self
        } else {
            AppView { selected: Some(0), ..self }
        }
    }

    /// To the last entry.
    pub open spec fn last(self) -> AppView {
        if self.entries.len() == 0 {
            self
        } else {
            AppView { selected: Some((self.entries.len() - 1) as usize), ..self }
        }
    }

    /// Whether the selected place, where there is one, has an entry.
    pub open spec fn selection_stands(self) -> bool {
        self.selected matches Some(i) ==> i < self.entries.len()
    }

    /// Into the selected partition or directory, or up where that is selected.
    /// Nothing happens on a file.
    pub open spec fn entered(self) -> (AppView, RequestView) {
        match self.selected {
            Some(i) => {
                let e = self.entries[i as int];
                if !e.is_dir {
                    self.idle()
                } else if e.name == ".."@ {
                    self.gone_up()
                } else if self.current_partition is None {
                    AppView {
                        current_partition: Some(e.name),
                        partition_root: Seq::empty(),
                        current_path: Seq::empty(),
                        ..self
                    }.directory_load(LandingView::First)
                } else {
                    AppView { current_path: child_path(self.current_path, e.name), ..self }.directory_load(
                        LandingView::First,
                    )
                }
            },
            None => self.idle(),
        }
    }

    /// Up to the directory above, or from the root of a partition to the list of
    /// partitions, above which there is nothing.
    pub open spec fn gone_up(self) -> (AppView, RequestView) {
        if self.current_partition is None {
            self.idle()
        } else if self.current_path == self.partition_root || self.current_path.len() == 0 {
            AppView {
                current_partition: None,
                partition_root: Seq::empty(),
                current_path: Seq::empty(),
                ..self
            }.partitions_load(LandingView::First)
        } else {
            AppView {
                current_path: match before_last(self.current_path, '/') {
                    Some(dir) => dir,
                    None => Seq::empty(),
                },
                ..self
            }.directory_load(LandingView::First)
        }
    }

    /// The selected file is to be opened over the list. Nothing happens on anything
    /// else.
    pub open spec fn list_preview_opened(self) -> (AppView, RequestView) {
        match previewed(self.entries, self.selected) {
            Some(e) => (
                AppView { pending: PendingView::ListPreview, ..self },
                RequestView::Preview { path: e.path, size: e.total_size, atime: e.latest_atime },
            ),
            None => self.idle(),
        }
    }

    /// The file to open over the list has been read.
    pub open spec fn list_preview_read(self, preview: PreviewView) -> (AppView, RequestView) {
        AppView {
            list_preview: Some(preview),
            input_mode: InputMode::ListPreview,
            ..self
        }.idle()
    }

    /// The file over the list is closed.
    pub open spec fn list_preview_closed(self) -> AppView {
        AppView { list_preview: None, input_mode: InputMode::Normal, ..self }
    }
}

impl App {
    /// Moves the selection down.
    pub fn select_next(&mut self)
        ensures
            final(self)@ == old(self)@.next(),
    {
        if self.entries.len() > 0 {
            self.selected = Some(place_below(self.selected, self.entries.len()));
        }
    }

    /// Moves the selection up.
    pub fn select_prev(&mut self)
        ensures
            final(self)@ == old(self)@.prev(),
    {
        if self.entries.len() > 0 {
            self.selected = Some(place_above(self.selected));
        }
    }

    /// Moves the selection to the first entry.
    pub fn select_first(&mut self)
        ensures
            final(self)@ == old(self)@.first(),
    {
        if self.entries.len() > 0 {
            self.selected = Some(0);
        }
    }

    /// Moves the selection to the last entry.
    pub fn select_last(&mut self)
        ensures
            final(self)@ == old(self)@.last(),
    {
        if self.entries.len() > 0 {
            self.selected = Some(self.entries.len() - 1);
        }
    }

    /// Enters the selected partition or directory, or goes up.
    pub fn enter_selected(&mut self) -> (r: Request)
        requires
            old(self)@.selection_stands(),
        ensures
            final(self)@ == old(self)@.entered().0,
            r@ == old(self)@.entered().1,
    {
        let idx: usize = match self.selected {
            Some(idx) => idx,
            None => {
                return self.wait();
            },
        };
        let entry = &self.entries[idx];
        assert(entry@ == old(self)@.entries[idx as int]);
        if !entry.is_dir {
            return self.wait();
        }
        if same(entry.name.as_str(), "..") {
            return self.go_up();
        }
        if self.current_partition.is_none() {
            self.current_partition = Some(entry.name.clone());
            self.partition_root = String::new();
            self.current_path = String::new();
        } else {
            self.current_path = join_path(self.current_path.as_str(), entry.name.as_str());
        }
        self.load_directory(Landing::First)
    }

    /// Goes up.
    pub fn go_up(&mut self) -> (r: Request)
        ensures
            final(self)@ == old(self)@.gone_up().0,
            r@ == old(self)@.gone_up().1,
    {
        if self.current_partition.is_none() {
            return self.wait();
        }
        if same(self.current_path.as_str(), self.partition_root.as_str())
            || self.current_path.as_str().is_empty() {
            self.current_partition = None;
            self.partition_root = String::new();
            self.current_path = String::new();
            self.load_partitions(Landing::First)
        } else {
            self.current_path = match before_last_of(self.current_path.as_str(), '/') {
                Some(dir) => dir,
                None => String::new(),
            };
            self.load_directory(Landing::First)
        }
    }

    /// Asks for the selected file, to open it over the list.
    pub fn open_list_preview(&mut self) -> (r: Request)
        ensures
            final(self)@ == old(self)@.list_preview_opened().0,
            r@ == old(self)@.list_preview_opened().1,
    {
        match list_preview_entry(self.entries.as_slice(), self.selected) {
            Some(entry) => {
                let path = entry.path.clone();
                let size: i64 = entry.total_size;
                let atime: i64 = entry.latest_atime;
                self.pending = Pending::ListPreview;
                Request::Preview { path, size, atime }
            },
            None => self.wait(),
        }
    }

    /// Opens a file over the list.
    pub fn take_list_preview(&mut self, preview: FilePreview) -> (r: Request)
        ensures
            final(self)@ == old(self)@.list_preview_read(preview@).0,
            r@ == old(self)@.list_preview_read(preview@).1,
    {
        self.list_preview = Some(preview);
        self.input_mode = InputMode::ListPreview;
        self.wait()
    }

    /// Closes the file over the list.
    pub fn close_list_preview(&mut self)
        ensures
            final(self)@ == old(self)@.list_preview_closed(),
    {
        self.list_preview = None;
        self.input_mode = InputMode::Normal;
    }
}

} // verus!
