//! Choosing an order and entering filters.

use vstd::prelude::*;

use crate::app::{App, AppView, Pending, PendingView, Request, RequestView};
use crate::entry::{next_sort, prev_sort};
use crate::filters::{opt_text, FiltersView, InputMode};
use crate::text::{parse_u64, parsed_u64, trim, trim_of};

verus! {

/// A count of days as the signed number of the same bits.
pub open spec fn signed_days(days: u64) -> int {
    if days > i64::MAX {
        days - 0x1_0000_0000_0000_0000
    } else {
        days as int
    }
}

/// The time that lies `days` days before `now`, in seconds.
pub open spec fn age_cutoff(days: u64, now: i64) -> int {
    now - signed_days(days) * 86400
}

/// Whether that time, and the distance to it, can be told in seconds.
pub open spec fn age_fits(days: u64, now: i64) -> bool {
    &&& i64::MIN <= signed_days(days) * 86400 <= i64::MAX
    &&& i64::MIN <= age_cutoff(days, now) <= i64::MAX
}

/// The time that lies `days` days before `now`; none where it cannot be told.
pub fn age_cutoff_of(days: u64, now: i64) -> (r: Option<i64>)
    ensures
        r is Some <==> age_fits(days, now),
        r matches Some(t) ==> t == age_cutoff(days, now),
{
    let signed: i128 = if days > i64::MAX as u64 {
        days as i128 - 0x1_0000_0000_0000_0000
    } else {
        days as i128
    };
    let distance: i128 = signed * 86400;
    let cutoff: i128 = now as i128 - distance;
    let low: i128 = i64::MIN as i128;
    let high: i128 = i64::MAX as i128;
    if low <= distance && distance <= high && low <= cutoff && cutoff <= high {
        Some(cutoff as i64)
    } else {
        None
    }
}

impl AppView {
    /// An order is to be chosen, beginning with the present one.
    pub open spec fn sort_started(self) -> AppView {
        AppView { pending_sort: self.sort_mode, input_mode: InputMode::SortSelect, ..self }
    }

    /// The chosen order takes effect.
    pub open spec fn sort_confirmed(self) -> (AppView, RequestView) {
        AppView { sort_mode: self.pending_sort, input_mode: InputMode::Normal, ..self }.reloaded()
    }

    /// The order stays as it was.
    pub open spec fn sort_cancelled(self) -> AppView {
        AppView { pending_sort: self.sort_mode, input_mode: InputMode::Normal, ..self }
    }

    /// A filter is to be entered.
    pub open spec fn input_started(self, mode: InputMode) -> AppView {
        AppView { input_mode: mode, input_buffer: Seq::empty(), ..self }
    }

    /// Nothing is being entered.
    pub open spec fn input_closed(self) -> AppView {
        AppView { input_mode: InputMode::Normal, input_buffer: Seq::empty(), ..self }
    }

    /// The filters have changed.
    pub open spec fn refiltered(self, filters: FiltersView) -> (AppView, RequestView) {
        AppView { filters, ..self }.input_closed().reloaded()
    }

    /// The text that was entered is refused.
    pub open spec fn input_refused(self, status: Seq<char>) -> (AppView, RequestView) {
        AppView { status, ..self }.input_closed().idle()
    }

    /// The text that was entered, without the white space around it.
    pub open spec fn input_value(self) -> Seq<char> {
        trim(self.input_buffer)
    }

    /// Whether the entered number of days gives a time.
    pub open spec fn days_fit(self, now: i64) -> bool {
        parsed_u64(self.input_value()) matches Some(days) ==> age_fits(days, now)
    }

    /// The text that was entered becomes a filter; without any, the filter is taken
    /// away. Patterns and sizes are asked for first.
    pub open spec fn input_confirmed(self, now: i64) -> (AppView, RequestView) {
        let value = self.input_value();
        let none = value.len() == 0;
        let days = parsed_u64(value);
        let refused = self.input_refused("Invalid number: "@ + value);
        match self.input_mode {
            InputMode::Pattern => if none {
                self.refiltered(FiltersView { pattern: None, pattern_display: None, ..self.filters })
            } else {
                (
                    AppView { pending: PendingView::Pattern { value }, ..self },
                    RequestView::Glob { pattern: value },
                )
            },
            InputMode::OlderThan => if none {
                self.refiltered(FiltersView { older_than: None, ..self.filters })
            } else {
                match days {
                    Some(d) => self.refiltered(
                        FiltersView { older_than: Some(age_cutoff(d, now) as i64), ..self.filters },
                    ),
                    None => refused,
                }
            },
            InputMode::NewerThan => if none {
                self.refiltered(FiltersView { newer_than: None, ..self.filters })
            } else {
                match days {
                    Some(d) => self.refiltered(
                        FiltersView { newer_than: Some(age_cutoff(d, now) as i64), ..self.filters },
                    ),
                    None => refused,
                }
            },
            InputMode::MinSize => if none {
                self.refiltered(FiltersView { min_size: None, ..self.filters })
            } else {
                (
                    AppView { pending: PendingView::Size, ..self },
                    RequestView::Size { text: value },
                )
            },
            InputMode::MaxSize => if none {
                self.refiltered(FiltersView { max_size: None, ..self.filters })
            } else {
                (
                    AppView { pending: PendingView::Size, ..self },
                    RequestView::Size { text: value },
                )
            },
            InputMode::Normal | InputMode::SortSelect | InputMode::ListPreview => {
                self.refiltered(self.filters)
            },
        }
    }

    /// The entered pattern has been turned into a regular expression, or not.
    pub open spec fn pattern_read(
        self,
        value: Seq<char>,
        regex: Seq<char>,
        error: Option<Seq<char>>,
    ) -> (AppView, RequestView) {
        match error {
            Some(e) => self.input_refused("Invalid pattern: "@ + e),
            None => self.refiltered(
                FiltersView {
                    pattern: Some(regex),
                    pattern_display: Some(value),
                    ..self.filters
                },
            ),
        }
    }

    /// The entered size has been turned into a number, or not.
    pub open spec fn size_read(self, size: i64, error: Option<Seq<char>>) -> (AppView, RequestView) {
        match error {
            Some(e) => self.input_refused(e),
            None => if self.input_mode == InputMode::MinSize {
                self.refiltered(FiltersView { min_size: Some(size), ..self.filters })
            } else {
                self.refiltered(FiltersView { max_size: Some(size), ..self.filters })
            },
        }
    }

    /// Every filter is taken away.
    pub open spec fn unfiltered(self) -> (AppView, RequestView) {
        AppView { filters: FiltersView::none(), ..self }.reloaded()
    }
}

impl App {
    /// Begins to choose an order.
    pub fn start_sort_select(&mut self)
        ensures
            final(self)@ == old(self)@.sort_started(),
    {
        self.pending_sort = self.sort_mode;
        self.input_mode = InputMode::SortSelect;
    }

    /// Goes on to the next order.
    pub fn sort_select_next(&mut self)
        ensures
            final(self)@ == (AppView {
                pending_sort: next_sort(old(self)@.pending_sort),
                ..old(self)@
            }),
    {
        self.pending_sort = self.pending_sort.next();
    }

    /// Goes back to the previous order.
    pub fn sort_select_prev(&mut self)
        ensures
            final(self)@ == (AppView {
                pending_sort: prev_sort(old(self)@.pending_sort),
                ..old(self)@
            }),
    {
        self.pending_sort = self.pending_sort.prev();
    }

    /// Takes the chosen order and loads again.
    pub fn confirm_sort(&mut self) -> (r: Request)
        ensures
            final(self)@ == old(self)@.sort_confirmed().0,
            r@ == old(self)@.sort_confirmed().1,
    {
        self.sort_mode = self.pending_sort;
        self.input_mode = InputMode::Normal;
        self.reload()
    }

    /// Leaves the order as it was.
    pub fn cancel_sort(&mut self)
        ensures
            final(self)@ == old(self)@.sort_cancelled(),
    {
        self.pending_sort = self.sort_mode;
        self.input_mode = InputMode::Normal;
    }

    /// Begins to enter a filter.
    pub fn start_input(&mut self, mode: InputMode)
        ensures
            final(self)@ == old(self)@.input_started(mode),
    {
        self.input_mode = mode;
        self.input_buffer = String::new();
    }

    /// Enters nothing.
    pub fn cancel_input(&mut self)
        ensures
            final(self)@ == old(self)@.input_closed(),
    {
        self.input_mode = InputMode::Normal;
        self.input_buffer = String::new();
    }

    fn refuse_input(&mut self, status: String) -> (r: Request)
        ensures
            final(self)@ == old(self)@.input_refused(status@).0,
            r@ == old(self)@.input_refused(status@).1,
    {
        self.status = status;
        self.cancel_input();
        self.wait()
    }

    fn finish_input(&mut self) -> (r: Request)
        ensures
            final(self)@ == old(self)@.refiltered(old(self)@.filters).0,
            r@ == old(self)@.refiltered(old(self)@.filters).1,
    {
        self.cancel_input();
        self.reload()
    }

    /// Makes a filter of the text that was entered. `now` is the present time, in
    /// seconds since the epoch.
    pub fn confirm_input(&mut self, now: i64) -> (r: Request)
        requires
            old(self).input_mode == InputMode::OlderThan || old(self).input_mode
                == InputMode::NewerThan ==> old(self)@.days_fit(now),
        ensures
            final(self)@ == old(self)@.input_confirmed(now).0,
            r@ == old(self)@.input_confirmed(now).1,
    {
        let value = trim_of(self.input_buffer.as_str());
        let none = value.as_str().is_empty();
        let mode = self.input_mode;
        match mode {
            InputMode::Pattern => {
                if none {
                    self.filters.pattern = None;
                    self.filters.pattern_display = None;
                } else {
                    self.pending = Pending::Pattern { value: value.clone() };
                    return Request::Glob { pattern: value };
                }
            },
            InputMode::OlderThan | InputMode::NewerThan => {
                let cutoff = if none {
                    None
                } else {
                    match parse_u64(value.as_str()) {
                        Some(days) => age_cutoff_of(days, now),
                        None => {
                            let mut status = "Invalid number: ".to_owned();
                            status.append(value.as_str());
                            return self.refuse_input(status);
                        },
                    }
                };
                if mode == InputMode::OlderThan {
                    self.filters.older_than = cutoff;
                } else {
                    self.filters.newer_than = cutoff;
                }
            },
            InputMode::MinSize | InputMode::MaxSize => {
                if !none {
                    self.pending = Pending::Size;
                    return Request::Size { text: value };
                }
                if mode == InputMode::MinSize {
                    self.filters.min_size = None;
                } else {
                    self.filters.max_size = None;
                }
            },
            InputMode::Normal | InputMode::SortSelect | InputMode::ListPreview => {},
        }
        self.finish_input()
    }

    /// Takes the regular expression of the entered pattern, or why there is none.
    pub fn take_pattern(&mut self, value: String, regex: String, error: &Option<String>) -> (r:
        Request)
        ensures
            final(self)@ == old(self)@.pattern_read(value@, regex@, opt_text(*error)).0,
            r@ == old(self)@.pattern_read(value@, regex@, opt_text(*error)).1,
    {
        match error {
            Some(e) => {
                let mut status = "Invalid pattern: ".to_owned();
                status.append(e.as_str());
                self.refuse_input(status)
            },
            None => {
                self.filters.pattern = Some(regex);
                self.filters.pattern_display = Some(value);
                self.finish_input()
            },
        }
    }

    /// Takes the number of the entered size, or why there is none.
    pub fn take_size(&mut self, size: i64, error: &Option<String>) -> (r: Request)
        ensures
            final(self)@ == old(self)@.size_read(size, opt_text(*error)).0,
            r@ == old(self)@.size_read(size, opt_text(*error)).1,
    {
        match error {
            Some(e) => self.refuse_input(e.clone()),
            None => {
                if self.input_mode == InputMode::MinSize {
                    self.filters.min_size = Some(size);
                } else {
                    self.filters.max_size = Some(size);
                }
                self.finish_input()
            },
        }
    }

    /// Takes every filter away and loads again.
    pub fn clear_filters(&mut self) -> (r: Request)
        ensures
            final(self)@ == old(self)@.unfiltered().0,
            r@ == old(self)@.unfiltered().1,
    {
        self.filters.clear();
        self.reload()
    }
}

} // verus!
