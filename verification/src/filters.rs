//! The filters of a listing and the ways of entering them.

use vstd::prelude::*;

verus! {

/// Which files a listing counts. Times are seconds since the epoch.
#[derive(Debug)]
pub struct QueryFilters {
    /// Regular expression that a path must match
    pub pattern: Option<String>,
    /// The pattern as it was entered
    pub pattern_display: Option<String>,
    pub older_than: Option<i64>,
    pub newer_than: Option<i64>,
    pub min_size: Option<i64>,
    pub max_size: Option<i64>,
}

/// Filters with their texts as characters.
#[verifier::ext_equal]
pub struct FiltersView {
    pub pattern: Option<Seq<char>>,
    pub pattern_display: Option<Seq<char>>,
    pub older_than: Option<i64>,
    pub newer_than: Option<i64>,
    pub min_size: Option<i64>,
    pub max_size: Option<i64>,
}

/// An optional text as characters.
pub open spec fn opt_text(s: Option<String>) -> Option<Seq<char>> {
    match s {
        Some(t) => Some(t@),
        None => None,
    }
}

impl View for QueryFilters {
    type V = FiltersView;

    open spec fn view(&self) -> FiltersView {
        FiltersView {
            pattern: opt_text(self.pattern),
            pattern_display: opt_text(self.pattern_display),
            older_than: self.older_than,
            newer_than: self.newer_than,
            min_size: self.min_size,
            max_size: self.max_size,
        }
    }
}

impl FiltersView {
    /// Filters that let every file pass.
    pub open spec fn none() -> FiltersView {
        FiltersView {
            pattern: None,
            pattern_display: None,
            older_than: None,
            newer_than: None,
            min_size: None,
            max_size: None,
        }
    }

    /// Whether some filter is set.
    pub open spec fn active(self) -> bool {
        self.pattern is Some || self.older_than is Some || self.newer_than is Some
            || self.min_size is Some || self.max_size is Some
    }
}

impl QueryFilters {
    /// Filters that let every file pass.
    pub fn new() -> (r: QueryFilters)
        ensures
            r@ == FiltersView::none(),
    {
        QueryFilters {
            pattern: None,
            pattern_display: None,
            older_than: None,
            newer_than: None,
            min_size: None,
            max_size: None,
        }
    }

    /// Whether some filter is set.
    pub fn is_active(&self) -> (r: bool)
        ensures
            r == self@.active(),
    {
        self.pattern.is_some() || self.older_than.is_some() || self.newer_than.is_some()
            || self.min_size.is_some() || self.max_size.is_some()
    }

    /// Takes every filter away.
    pub fn clear(&mut self)
        ensures
            final(self)@ == FiltersView::none(),
    {
        *self = QueryFilters::new();
    }
}

/// What the keyboard is for at the moment.
#[derive(Clone, Copy, Debug, PartialEq, Eq, Structural)]
pub enum InputMode {
    /// Moving around
    Normal,
    /// Entering a pattern filter
    Pattern,
    /// Entering an older-than filter in days
    OlderThan,
    /// Entering a newer-than filter in days
    NewerThan,
    /// Entering a minimum size
    MinSize,
    /// Entering a maximum size
    MaxSize,
    /// Choosing an order
    SortSelect,
    /// Looking at a file over the list
    ListPreview,
}

/// The prompt of an input mode; empty for the modes that enter no text.
pub open spec fn prompt_text(m: InputMode) -> Seq<char> {
    match m {
        InputMode::Normal => ""@,
        InputMode::Pattern => "Pattern (glob): "@,
        InputMode::OlderThan => "Older than (days): "@,
        InputMode::NewerThan => "Newer than (days): "@,
        InputMode::MinSize => "Min size (e.g., 1M): "@,
        InputMode::MaxSize => "Max size (e.g., 1G): "@,
        InputMode::SortSelect => ""@,
        InputMode::ListPreview => ""@,
    }
}

impl InputMode {
    /// The prompt of an input mode.
    pub fn prompt(&self) -> (r: &'static str)
        ensures
            r@ == prompt_text(*self),
    {
        match self {
            InputMode::Normal => "",
            InputMode::Pattern => "Pattern (glob): ",
            InputMode::OlderThan => "Older than (days): ",
            InputMode::NewerThan => "Newer than (days): ",
            InputMode::MinSize => "Min size (e.g., 1M): ",
            InputMode::MaxSize => "Max size (e.g., 1G): ",
            InputMode::SortSelect | InputMode::ListPreview => "",
        }
    }

    /// Whether this mode takes text.
    pub open spec fn is_entry(self) -> bool {
        self == InputMode::Pattern || self == InputMode::OlderThan || self == InputMode::NewerThan
            || self == InputMode::MinSize || self == InputMode::MaxSize
    }
}

} // verus!
