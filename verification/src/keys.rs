//! What a key does.

use vstd::prelude::*;

use crate::app::{App, AppView, Pending, PendingView, Request, RequestView, ViewMode};
use crate::entry::{next_sort, prev_sort};
use crate::filters::InputMode;
use crate::input::age_cutoff_of;
use crate::preview::{last_line, PreviewView};
use crate::soundness::law_key_keeps_state;
use crate::text::{parse_u64, trim_of};

verus! {

/// The keys.
#[derive(Clone, Copy, Debug, PartialEq, Eq, Structural)]
pub enum Key {
    Esc,
    Enter,
    Backspace,
    Up,
    Down,
    Left,
    Right,
    Char(char),
    /// Any other key
    Other,
}

impl AppView {
    /// With another file preview.
    pub open spec fn with_preview(self, preview: PreviewView) -> AppView {
        AppView { file_preview: Some(preview), ..self }
    }

    /// More lines of the previewed file are asked for.
    pub open spec fn lines_asked(self, pending: PendingView) -> (AppView, RequestView) {
        (
            AppView { pending, ..self },
            RequestView::Lines {
                path: self.file_preview->0.path,
                offset: self.file_preview->0.file_offset,
            },
        )
    }

    /// The previewed file is scrolled down by `step` lines, and read on before that
    /// near the end of its window.
    pub open spec fn pager_down(self, step: int) -> (AppView, RequestView) {
        match self.file_preview {
            Some(p) => if p.unfinished() && p.near_end(step) {
                self.lines_asked(PendingView::PagerDown { step })
            } else {
                self.with_preview(p.scrolled_down(step)).idle()
            },
            None => self.idle(),
        }
    }

    /// The previewed file is scrolled up by `step` lines.
    pub open spec fn pager_up(self, step: int) -> (AppView, RequestView) {
        match self.file_preview {
            Some(p) => self.with_preview(p.scrolled_up(step)).idle(),
            None => self.idle(),
        }
    }

    /// The previewed file is scrolled to its first line, and read from the start
    /// again where that line has left the window.
    pub open spec fn pager_top(self) -> (AppView, RequestView) {
        match self.file_preview {
            Some(p) => if p.first_line_number > 0 {
                self.with_preview(p.rewound()).lines_asked(PendingView::PagerTop)
            } else {
                self.with_preview(p.scrolled_to(0)).idle()
            },
            None => self.idle(),
        }
    }

    /// The previewed file is scrolled to its last line, and read to its end before
    /// that.
    pub open spec fn pager_bottom(self) -> (AppView, RequestView) {
        match self.file_preview {
            Some(p) => if !p.eof_reached {
                self.lines_asked(PendingView::PagerBottom)
            } else {
                self.with_preview(p.scrolled_to(last_line(p.total_lines_loaded))).idle()
            },
            None => self.idle(),
        }
    }

    /// A key while an order is chosen.
    pub open spec fn sort_key(self, key: Key) -> (AppView, RequestView) {
        match key {
            Key::Esc => self.sort_cancelled().idle(),
            Key::Enter => self.sort_confirmed(),
            Key::Up | Key::Left => AppView {
                pending_sort: prev_sort(self.pending_sort),
                ..self
            }.idle(),
            Key::Down | Key::Right => AppView {
                pending_sort: next_sort(self.pending_sort),
                ..self
            }.idle(),
            Key::Char(c) => if c == ' ' {
                self.sort_confirmed()
            } else if c == 'k' {
                AppView { pending_sort: prev_sort(self.pending_sort), ..self }.idle()
            } else if c == 'j' || c == 's' {
                AppView { pending_sort: next_sort(self.pending_sort), ..self }.idle()
            } else {
                self.idle()
            },
            Key::Backspace | Key::Other => self.idle(),
        }
    }

    /// A key while a file lies over the list.
    pub open spec fn list_preview_key(self, key: Key) -> (AppView, RequestView) {
        if key == Key::Esc || key == Key::Char(' ') || key == Key::Char('q') {
            self.list_preview_closed().idle()
        } else {
            self.idle()
        }
    }

    /// A key while a filter is entered.
    pub open spec fn input_key(self, key: Key, now: i64) -> (AppView, RequestView) {
        match key {
            Key::Esc => self.input_closed().idle(),
            Key::Enter => self.input_confirmed(now),
            Key::Backspace => AppView {
                input_buffer: if self.input_buffer.len() > 0 {
                    self.input_buffer.drop_last()
                } else {
                    self.input_buffer
                },
                ..self
            }.idle(),
            Key::Char(c) => AppView { input_buffer: self.input_buffer.push(c), ..self }.idle(),
            Key::Up | Key::Down | Key::Left | Key::Right | Key::Other => self.idle(),
        }
    }

    /// A key while a file is scrolled.
    pub open spec fn pager_key(self, key: Key) -> (AppView, RequestView) {
        match key {
            Key::Down => self.pager_down(1),
            Key::Up => self.pager_up(1),
            Key::Esc | Key::Left => AppView { preview_focused: false, ..self }.idle(),
            Key::Char(c) => if c == 'j' {
                self.pager_down(1)
            } else if c == 'k' {
                self.pager_up(1)
            } else if c == 'g' {
                self.pager_top()
            } else if c == 'G' {
                self.pager_bottom()
            } else if c == 'd' {
                self.pager_down(20)
            } else if c == 'u' {
                self.pager_up(20)
            } else if c == 'q' || c == ' ' {
                AppView { preview_focused: false, ..self }.idle()
            } else {
                self.idle()
            },
            Key::Enter | Key::Backspace | Key::Right | Key::Other => self.idle(),
        }
    }

    /// A key that moves through the list.
    pub open spec fn list_key(self, key: Key) -> (AppView, RequestView) {
        match key {
            Key::Down => self.next().idle(),
            Key::Up => self.prev().idle(),
            Key::Enter | Key::Right => self.entered(),
            Key::Left | Key::Backspace => self.gone_up(),
            Key::Char(c) => if c == 'j' {
                self.next().idle()
            } else if c == 'k' {
                self.prev().idle()
            } else if c == 'g' {
                self.first().idle()
            } else if c == 'G' {
                self.last().idle()
            } else if c == ' ' {
                self.list_preview_opened()
            } else {
                self.idle()
            },
            Key::Esc | Key::Other => self.idle(),
        }
    }

    /// Into the previewed file, or else into the column to the right.
    pub open spec fn tree_into(self) -> (AppView, RequestView) {
        if self.file_preview is Some {
            AppView { preview_focused: true, ..self }.idle()
        } else {
            self.tree_to_right()
        }
    }

    /// A key that moves through the tree.
    pub open spec fn tree_key(self, key: Key) -> (AppView, RequestView) {
        match key {
            Key::Down => self.tree_next(),
            Key::Up => self.tree_prev(),
            Key::Right | Key::Enter => self.tree_into(),
            Key::Left | Key::Backspace => self.tree_to_left(),
            Key::Char(c) => if c == 'j' {
                self.tree_next()
            } else if c == 'k' {
                self.tree_prev()
            } else if c == 'g' {
                self.tree_first()
            } else if c == 'G' {
                self.tree_last()
            } else if c == ' ' {
                self.tree_into()
            } else {
                self.idle()
            },
            Key::Esc | Key::Other => self.idle(),
        }
    }

    /// A key that moves around.
    pub open spec fn moving_key(self, key: Key) -> (AppView, RequestView) {
        match self.view_mode {
            ViewMode::List => self.list_key(key),
            ViewMode::Tree => self.tree_key(key),
        }
    }

    /// A key while nothing else has the keyboard.
    pub open spec fn normal_key(self, key: Key) -> (AppView, RequestView) {
        match key {
            Key::Esc => (self, RequestView::Quit),
            Key::Char(c) => if c == 'q' {
                (self, RequestView::Quit)
            } else if c == 't' {
                self.view_toggled()
            } else if c == 's' {
                self.sort_started().idle()
            } else if c == '/' {
                self.input_started(InputMode::Pattern).idle()
            } else if c == 'o' {
                self.input_started(InputMode::OlderThan).idle()
            } else if c == 'n' {
                self.input_started(InputMode::NewerThan).idle()
            } else if c == '>' {
                self.input_started(InputMode::MinSize).idle()
            } else if c == '<' {
                self.input_started(InputMode::MaxSize).idle()
            } else if c == 'c' {
                self.unfiltered()
            } else {
                self.moving_key(key)
            },
            _ => self.moving_key(key),
        }
    }

    /// What a key does at the time `now`, in seconds since the epoch.
    pub open spec fn pressed(self, key: Key, now: i64) -> (AppView, RequestView) {
        if self.input_mode == InputMode::SortSelect {
            self.sort_key(key)
        } else if self.input_mode == InputMode::ListPreview {
            self.list_preview_key(key)
        } else if self.input_mode != InputMode::Normal {
            self.input_key(key, now)
        } else if self.preview_focused {
            self.pager_key(key)
        } else {
            self.normal_key(key)
        }
    }

    /// Whether the key can be taken: a number of days that is confirmed gives a
    /// time, and what is entered is there.
    pub open spec fn accepts_key(self, key: Key, now: i64) -> bool {
        &&& (self.input_mode == InputMode::OlderThan || self.input_mode == InputMode::NewerThan)
            && key == Key::Enter ==> self.days_fit(now)
        &&& self.input_mode == InputMode::Normal && self.view_mode == ViewMode::List && (key
            == Key::Enter || key == Key::Right) ==> self.selection_stands()
    }
}

impl App {
    fn ask_lines(&mut self, pending: Pending) -> (r: Request)
        requires
            old(self).file_preview is Some,
        ensures
            final(self)@ == old(self)@.lines_asked(pending@).0,
            r@ == old(self)@.lines_asked(pending@).1,
    {
        self.pending = pending;
        match &self.file_preview {
            Some(p) => Request::Lines { path: p.path.clone(), offset: p.file_offset },
            None => Request::Key,
        }
    }

    /// Scrolls the previewed file down.
    pub fn scroll_preview_down(&mut self, step: usize) -> (r: Request)
        requires
            old(self)@.previews_wf(),
        ensures
            final(self)@ == old(self)@.pager_down(step as int).0,
            r@ == old(self)@.pager_down(step as int).1,
    {
        let wants = match &self.file_preview {
            Some(p) => p.wants_lines(step),
            None => false,
        };
        if wants {
            return self.ask_lines(Pending::PagerDown { step });
        }
        match &mut self.file_preview {
            Some(p) => {
                p.scroll_down(step);
            },
            None => {},
        }
        self.wait()
    }

    /// Scrolls the previewed file up.
    pub fn scroll_preview_up(&mut self, step: usize) -> (r: Request)
        requires
            old(self)@.previews_wf(),
        ensures
            final(self)@ == old(self)@.pager_up(step as int).0,
            r@ == old(self)@.pager_up(step as int).1,
    {
        match &mut self.file_preview {
            Some(p) => {
                p.scroll_up(step);
            },
            None => {},
        }
        self.wait()
    }

    /// Scrolls the previewed file to its first line, and reads it again from the
    /// start where that line has left the window.
    pub fn preview_reload_from_start(&mut self) -> (r: Request)
        requires
            old(self)@.previews_wf(),
        ensures
            final(self)@ == old(self)@.pager_top().0,
            r@ == old(self)@.pager_top().1,
    {
        let mut again = false;
        match &mut self.file_preview {
            Some(p) => {
                if p.first_line_number > 0 {
                    p.rewind();
                    again = true;
                } else {
                    p.scroll_to_top();
                }
            },
            None => {},
        }
        if again {
            self.ask_lines(Pending::PagerTop)
        } else {
            self.wait()
        }
    }

    /// Scrolls the previewed file to its last line, and reads it to its end before
    /// that.
    pub fn preview_load_to_eof(&mut self) -> (r: Request)
        requires
            old(self)@.previews_wf(),
        ensures
            final(self)@ == old(self)@.pager_bottom().0,
            r@ == old(self)@.pager_bottom().1,
    {
        let mut more = false;
        match &mut self.file_preview {
            Some(p) => {
                if !p.eof_reached {
                    more = true;
                } else {
                    p.scroll_to_bottom();
                }
            },
            None => {},
        }
        if more {
            self.ask_lines(Pending::PagerBottom)
        } else {
            self.wait()
        }
    }

    fn press_in_sort(&mut self, key: Key) -> (r: Request)
        ensures
            final(self)@ == old(self)@.sort_key(key).0,
            r@ == old(self)@.sort_key(key).1,
    {
        match key {
            Key::Esc => {
                self.cancel_sort();
                self.wait()
            },
            Key::Enter | Key::Char(' ') => self.confirm_sort(),
            Key::Up | Key::Char('k') | Key::Left => {
                self.sort_select_prev();
                self.wait()
            },
            Key::Down | Key::Char('j') | Key::Right | Key::Char('s') => {
                self.sort_select_next();
                self.wait()
            },
            _ => self.wait(),
        }
    }

    fn press_in_list_preview(&mut self, key: Key) -> (r: Request)
        ensures
            final(self)@ == old(self)@.list_preview_key(key).0,
            r@ == old(self)@.list_preview_key(key).1,
    {
        match key {
            Key::Esc | Key::Char(' ') | Key::Char('q') => {
                self.close_list_preview();
                self.wait()
            },
            _ => self.wait(),
        }
    }

    fn press_in_input(&mut self, key: Key, now: i64) -> (r: Request)
        requires
            old(self)@.accepts_key(key, now),
        ensures
            final(self)@ == old(self)@.input_key(key, now).0,
            r@ == old(self)@.input_key(key, now).1,
    {
        match key {
            Key::Esc => {
                self.cancel_input();
                self.wait()
            },
            Key::Enter => self.confirm_input(now),
            Key::Backspace => {
                let _last = self.input_buffer.pop();
                self.wait()
            },
            Key::Char(c) => {
                self.input_buffer.push(c);
                self.wait()
            },
            _ => self.wait(),
        }
    }

    fn press_in_pager(&mut self, key: Key) -> (r: Request)
        requires
            old(self)@.previews_wf(),
        ensures
            final(self)@ == old(self)@.pager_key(key).0,
            r@ == old(self)@.pager_key(key).1,
    {
        match key {
            Key::Char('j') | Key::Down => self.scroll_preview_down(1),
            Key::Char('k') | Key::Up => self.scroll_preview_up(1),
            Key::Char('g') => self.preview_reload_from_start(),
            Key::Char('G') => self.preview_load_to_eof(),
            Key::Char('d') => self.scroll_preview_down(20),
            Key::Char('u') => self.scroll_preview_up(20),
            Key::Esc | Key::Left | Key::Char('q') | Key::Char(' ') => {
                self.preview_focused = false;
                self.wait()
            },
            _ => self.wait(),
        }
    }

    fn press_in_list(&mut self, key: Key) -> (r: Request)
        requires
            key == Key::Enter || key == Key::Right ==> old(self)@.selection_stands(),
        ensures
            final(self)@ == old(self)@.list_key(key).0,
            r@ == old(self)@.list_key(key).1,
    {
        match key {
            Key::Down | Key::Char('j') => {
                self.select_next();
                self.wait()
            },
            Key::Up | Key::Char('k') => {
                self.select_prev();
                self.wait()
            },
            Key::Char('g') => {
                self.select_first();
                self.wait()
            },
            Key::Char('G') => {
                self.select_last();
                self.wait()
            },
            Key::Enter | Key::Right => self.enter_selected(),
            Key::Char(' ') => self.open_list_preview(),
            Key::Left | Key::Backspace => self.go_up(),
            _ => self.wait(),
        }
    }

    fn press_in_tree(&mut self, key: Key) -> (r: Request)
        requires
            old(self)@.tree_wf(),
        ensures
            final(self)@ == old(self)@.tree_key(key).0,
            r@ == old(self)@.tree_key(key).1,
    {
        match key {
            Key::Down | Key::Char('j') => self.tree_select_next(),
            Key::Up | Key::Char('k') => self.tree_select_prev(),
            Key::Char('g') => self.tree_select_first(),
            Key::Char('G') => self.tree_select_last(),
            Key::Right | Key::Enter | Key::Char(' ') => {
                if self.file_preview.is_some() {
                    self.preview_focused = true;
                    self.wait()
                } else {
                    self.tree_right()
                }
            },
            Key::Left | Key::Backspace => self.tree_left(),
            _ => self.wait(),
        }
    }

    fn press_in_normal(&mut self, key: Key) -> (r: Request)
        requires
            old(self)@.tree_wf(),
            old(self).view_mode == ViewMode::List && (key == Key::Enter || key == Key::Right)
                ==> old(self)@.selection_stands(),
        ensures
            final(self)@ == old(self)@.normal_key(key).0,
            r@ == old(self)@.normal_key(key).1,
    {
        match key {
            Key::Char('q') | Key::Esc => Request::Quit,
            Key::Char('t') => self.toggle_view_mode(),
            Key::Char('s') => {
                self.start_sort_select();
                self.wait()
            },
            Key::Char('/') => {
                self.start_input(InputMode::Pattern);
                self.wait()
            },
            Key::Char('o') => {
                self.start_input(InputMode::OlderThan);
                self.wait()
            },
            Key::Char('n') => {
                self.start_input(InputMode::NewerThan);
                self.wait()
            },
            Key::Char('>') => {
                self.start_input(InputMode::MinSize);
                self.wait()
            },
            Key::Char('<') => {
                self.start_input(InputMode::MaxSize);
                self.wait()
            },
            Key::Char('c') => self.clear_filters(),
            _ => match self.view_mode {
                ViewMode::List => self.press_in_list(key),
                ViewMode::Tree => self.press_in_tree(key),
            },
        }
    }

    /// Whether the key can be taken.
    pub fn takes_key(&self, key: Key, now: i64) -> (r: bool)
        ensures
            r == self@.accepts_key(key, now),
    {
        let confirms = key == Key::Enter && (self.input_mode == InputMode::OlderThan
            || self.input_mode == InputMode::NewerThan);
        if confirms {
            let value = trim_of(self.input_buffer.as_str());
            return match parse_u64(value.as_str()) {
                Some(days) => age_cutoff_of(days, now).is_some(),
                None => true,
            };
        }
        let enters = self.input_mode == InputMode::Normal && self.view_mode == ViewMode::List && (
        key == Key::Enter || key == Key::Right);
        if enters {
            return match self.selected {
                Some(i) => i < self.entries.len(),
                None => true,
            };
        }
        true
    }

    /// Does what a key does. `now` is the present time, in seconds since the epoch.
    pub fn press(&mut self, key: Key, now: i64) -> (r: Request)
        requires
            old(self)@.wf(),
            old(self)@.pending is Idle,
            old(self)@.accepts_key(key, now),
        ensures
            final(self)@ == old(self)@.pressed(key, now).0,
            r@ == old(self)@.pressed(key, now).1,
            final(self)@.wf(),
            final(self)@.asks(r@),
    {
        proof {
            law_key_keeps_state(self@, key, now);
        }
        if self.input_mode == InputMode::SortSelect {
            self.press_in_sort(key)
        } else if self.input_mode == InputMode::ListPreview {
            self.press_in_list_preview(key)
        } else if self.input_mode != InputMode::Normal {
            self.press_in_input(key, now)
        } else if self.preview_focused {
            self.press_in_pager(key)
        } else {
            self.press_in_normal(key)
        }
    }
}

} // verus!
