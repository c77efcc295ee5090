//! The status bar, and the screen as a whole.

use vstd::prelude::*;

use crate::app::{App, AppView, ColumnView, ViewMode};
use crate::entry::{sort_at, sort_label, SortMode};
use crate::filters::{prompt_text, InputMode};
use crate::format::{atime_text, file_count_text, format_atime, format_file_count};
use crate::layout::{screen_divided, split_screen, Area};
use crate::render::{
    filter_suffix, filter_suffix_of, pane_texts, Captions, CaptionsView, Hue, Ink, LineView, Pane,
    PaneView, TextLine, Weight,
};
use crate::table::caption_texts;
use crate::text::after_last_of;

verus! {

/// An order among those to choose from, marked where it is the chosen one.
pub open spec fn sort_choice(m: SortMode, chosen: SortMode) -> Seq<char> {
    if m == chosen {
        "▶ "@ + sort_label(m) + " ◀"@
    } else {
        "  "@ + sort_label(m) + "  "@
    }
}

/// The first `n` orders to choose from.
pub open spec fn sort_choices(n: nat, chosen: SortMode) -> Seq<char>
    decreases n,
{
    if n == 0 {
        Seq::empty()
    } else {
        sort_choices((n - 1) as nat, chosen) + sort_choice(sort_at(n - 1), chosen)
    }
}

/// The titles of the first `n` columns, joined.
pub open spec fn breadcrumb(columns: Seq<ColumnView>, n: nat) -> Seq<char>
    decreases n,
{
    if n == 0 {
        Seq::empty()
    } else if n == 1 {
        columns[0].title
    } else {
        breadcrumb(columns, (n - 1) as nat) + " > "@ + columns[n - 1].title
    }
}

impl AppView {
    /// Where the browser is, in the status bar: in the tree the path of columns and
    /// the selected entry, in the list the last status.
    pub open spec fn context(self, captions: CaptionsView, now: i64) -> Seq<char> {
        if self.view_mode == ViewMode::Tree && self.columns.len() > 0 {
            let crumbs = breadcrumb(self.columns, (self.active_column + 1) as nat);
            match self.active().selection() {
                Some(e) => {
                    let c = captions.columns[self.active_column][self.active().selected->0 as int];
                    crumbs + " │ "@ + c.size + " │ "@ + file_count_text(
                        e.file_count as int,
                        c.scaled_count,
                    ) + " │ "@ + atime_text(e.latest_atime as int, now as int)
                },
                None => crumbs,
            }
        } else {
            self.status
        }
    }

    /// Whether the status bar tells where the browser is.
    pub open spec fn tells_context(self) -> bool {
        self.input_mode == InputMode::Normal && !self.preview_focused
    }

    /// Whether the status bar can be shown: an entry that it speaks of has a caption
    /// and an age.
    pub open spec fn can_show_status(self, captions: CaptionsView) -> bool {
        self.tells_context() && self.view_mode == ViewMode::Tree && self.columns.len() > 0
            && self.active().selection() is Some ==> {
            &&& self.active().selection()->0.latest_atime >= 0
            &&& self.active_column < captions.columns.len()
            &&& self.active().selected->0 < captions.columns[self.active_column].len()
        }
    }

    /// The text of the status bar.
    pub open spec fn status_text(self, captions: CaptionsView, now: i64) -> Seq<char> {
        if self.input_mode == InputMode::SortSelect {
            " Sort: "@ + sort_choices(7, self.pending_sort)
                + "  (s/→:next  ←:prev  Enter:apply  Esc:cancel)"@
        } else if self.input_mode == InputMode::ListPreview {
            match self.list_preview {
                Some(p) => " "@ + p.file_name() + " │ "@ + p.type_description
                    + " │ Esc/Space: close"@,
                None => " Esc/Space: close"@,
            }
        } else if self.input_mode != InputMode::Normal {
            " "@ + prompt_text(self.input_mode) + self.input_buffer
        } else if self.preview_focused {
            match self.file_preview {
                Some(p) => " ▶ "@ + p.file_name() + " │ "@ + p.type_description
                    + " │ jk↑↓:scroll d/u:page g/G:top/bottom Esc/←/q/␣:back"@,
                None => " Esc:back"@,
            }
        } else {
            " "@ + self.context(captions, now) + filter_suffix(captions.filters) + " │ sort:"@
                + sort_label(self.sort_mode) + " mode:"@ + (match self.view_mode {
                ViewMode::List => "list"@,
                ViewMode::Tree => "tree"@,
            }) + " │ q:quit jk↑↓:nav ←→:cd /:pattern s:sort t:mode c:clear"@
        }
    }

    /// The status bar.
    pub open spec fn status_line(self, captions: CaptionsView, now: i64) -> LineView {
        LineView {
            text: self.status_text(captions, now),
            ink: if self.input_mode == InputMode::SortSelect {
                Ink { hue: Hue::Yellow, weight: Weight::Bold }
            } else if self.input_mode != InputMode::Normal {
                Ink { hue: Hue::Plain, weight: Weight::Bold }
            } else {
                Ink { hue: Hue::Plain, weight: Weight::Dim }
            },
        }
    }
}

impl App {
    fn sort_choices_text(&self) -> (r: String)
        ensures
            r@ == sort_choices(7, self.pending_sort),
    {
        let all = SortMode::all();
        let mut s = String::new();
        let mut i: usize = 0;
        while i < all.len()
            invariant
                i <= all@.len(),
                all@ == Seq::new(7, |i: int| sort_at(i)),
                s@ == sort_choices(i as nat, self.pending_sort),
            decreases all@.len() - i,
        {
            let m = all[i];
            let chosen = m == self.pending_sort;
            let mut choice = (if chosen {
                "▶ "
            } else {
                "  "
            }).to_owned();
            choice.append(m.label());
            choice.append(if chosen {
                " ◀"
            } else {
                "  "
            });
            s.append(choice.as_str());
            i += 1;
        }
        s
    }

    fn breadcrumb_text(&self) -> (r: String)
        requires
            self@.active_column < self@.columns.len(),
        ensures
            r@ == breadcrumb(self@.columns, (self@.active_column + 1) as nat),
    {
        let mut s = self.columns[0].title.clone();
        let mut i: usize = 0;
        while i < self.active_column
            invariant
                i <= self.active_column < self.columns@.len(),
                s@ == breadcrumb(self@.columns, (i + 1) as nat),
            decreases self.active_column - i,
        {
            i += 1;
            s.append(" > ");
            s.append(self.columns[i].title.as_str());
            assert(self@.columns[i as int] == self.columns@[i as int]@);
        }
        s
    }

    fn context_text(&self, captions: &Captions, now: i64) -> (r: String)
        requires
            self@.tree_wf(),
            self@.tells_context(),
            self@.can_show_status(captions@),
        ensures
            r@ == self@.context(captions@, now),
    {
        if self.view_mode == ViewMode::Tree && self.columns.len() > 0 {
            let mut s = self.breadcrumb_text();
            let column = &self.columns[self.active_column];
            assert(column@ == self@.active());
            if let Some(idx) = column.selected {
                if idx < column.entries.len() {
                    let entry = &column.entries[idx];
                    assert(self@.active().selection() == Some(entry@));
                    let words = &captions.columns[self.active_column];
                    assert(caption_texts(words@) == captions@.columns[self.active_column as int]);
                    let caption = &words[idx];
                    assert(caption@ == caption_texts(words@)[idx as int]);
                    s.append(" │ ");
                    s.append(caption.size.as_str());
                    s.append(" │ ");
                    s.append(
                        format_file_count(
                            entry.file_count,
                            caption.scaled_count.as_str(),
                        ).as_str(),
                    );
                    s.append(" │ ");
                    s.append(format_atime(entry.latest_atime, now).as_str());
                }
            }
            s
        } else {
            self.status.clone()
        }
    }

    fn status_shows(&self, captions: &Captions) -> (r: bool)
        requires
            self@.tree_wf(),
        ensures
            r == self@.can_show_status(captions@),
    {
        if self.input_mode == InputMode::Normal && !self.preview_focused && self.view_mode
            == ViewMode::Tree && self.columns.len() > 0 {
            let column = &self.columns[self.active_column];
            assert(column@ == self@.active());
            if let Some(idx) = column.selected {
                if idx < column.entries.len() {
                    assert(self@.active().selection() == Some(column.entries@[idx as int]@));
                    if column.entries[idx].latest_atime < 0 || self.active_column
                        >= captions.columns.len() {
                        return false;
                    }
                    let words = &captions.columns[self.active_column];
                    assert(caption_texts(words@) == captions@.columns[self.active_column as int]);
                    return idx < words.len();
                }
            }
        }
        true
    }

    /// The status bar; none where it cannot be shown.
    pub fn render_status_bar(&self, captions: &Captions, now: i64) -> (r: Option<TextLine>)
        requires
            self@.tree_wf(),
        ensures
            r is Some <==> self@.can_show_status(captions@),
            r matches Some(line) ==> line@ == self@.status_line(captions@, now),
    {
        if !self.status_shows(captions) {
            return None;
        }
        let text = if self.input_mode == InputMode::SortSelect {
            let mut s = " Sort: ".to_owned();
            s.append(self.sort_choices_text().as_str());
            s.append("  (s/→:next  ←:prev  Enter:apply  Esc:cancel)");
            s
        } else if self.input_mode == InputMode::ListPreview {
            match &self.list_preview {
                Some(p) => {
                    let mut s = " ".to_owned();
                    s.append(after_last_of(p.path.as_str(), '/').as_str());
                    s.append(" │ ");
                    s.append(p.type_description.as_str());
                    s.append(" │ Esc/Space: close");
                    s
                },
                None => " Esc/Space: close".to_owned(),
            }
        } else if self.input_mode != InputMode::Normal {
            let mut s = " ".to_owned();
            s.append(self.input_mode.prompt());
            s.append(self.input_buffer.as_str());
            s
        } else if self.preview_focused {
            match &self.file_preview {
                Some(p) => {
                    let mut s = " ▶ ".to_owned();
                    s.append(after_last_of(p.path.as_str(), '/').as_str());
                    s.append(" │ ");
                    s.append(p.type_description.as_str());
                    s.append(" │ jk↑↓:scroll d/u:page g/G:top/bottom Esc/←/q/␣:back");
                    s
                },
                None => " Esc:back".to_owned(),
            }
        } else {
            let mut s = " ".to_owned();
            s.append(self.context_text(captions, now).as_str());
            s.append(filter_suffix_of(captions.filters.as_str()).as_str());
            s.append(" │ sort:");
            s.append(self.sort_mode.label());
            s.append(" mode:");
            s.append(match self.view_mode {
                ViewMode::List => "list",
                ViewMode::Tree => "tree",
            });
            s.append(" │ q:quit jk↑↓:nav ←→:cd /:pattern s:sort t:mode c:clear");
            s
        };
        let ink = if self.input_mode == InputMode::SortSelect {
            Ink { hue: Hue::Yellow, weight: Weight::Bold }
        } else if self.input_mode != InputMode::Normal {
            Ink { hue: Hue::Plain, weight: Weight::Bold }
        } else {
            Ink { hue: Hue::Plain, weight: Weight::Dim }
        };
        Some(TextLine { text, ink })
    }
}

/// What is on the screen. Panes are drawn in their order, later ones over earlier
/// ones.
#[derive(Debug)]
pub struct Scene {
    pub panes: Vec<Pane>,
    pub status: TextLine,
    pub status_area: Area,
}

/// A scene with its texts as characters.
#[verifier::ext_equal]
pub struct SceneView {
    pub panes: Seq<PaneView>,
    pub status: LineView,
    pub status_area: Area,
}

impl View for Scene {
    type V = SceneView;

    open spec fn view(&self) -> SceneView {
        SceneView {
            panes: pane_texts(self.panes@),
            status: self.status@,
            status_area: self.status_area,
        }
    }
}

/// The areas of a screen: that of the content, that of the status bar, that of a
/// file over the list, and those of the panes of the tree.
pub struct Frame {
    pub content: Area,
    pub bar: Area,
    pub overlay: Area,
    pub columns: Seq<Area>,
}

impl AppView {
    /// Whether the areas can be those of a screen of that area.
    pub open spec fn arranged(self, frame: Frame, area: Area) -> bool {
        &&& screen_divided(area, frame.content, frame.bar)
        &&& self.view_mode == ViewMode::List ==> self.overlay_divided(frame.content, frame.overlay)
        &&& self.view_mode == ViewMode::Tree ==> self.tree_divided(frame.content, frame.columns)
    }

    /// Whether the screen can be shown on `width` cells.
    pub open spec fn can_show_scene(self, captions: CaptionsView, width: u16) -> bool {
        &&& self.can_show_status(captions)
        &&& match self.view_mode {
            ViewMode::List => self.can_show_list(captions) && self.can_show_overlay(),
            ViewMode::Tree => self.can_show_tree(captions, width),
        }
    }

    /// The screen in these areas: the list and a file over it, or the tree, and the
    /// status bar.
    pub open spec fn scene(self, captions: CaptionsView, now: i64, frame: Frame) -> SceneView {
        SceneView {
            panes: match self.view_mode {
                ViewMode::List => seq![self.list_pane(captions, now, frame.content)]
                    + self.overlay_panes(captions, now, frame.overlay),
                ViewMode::Tree => self.tree_panes(
                    captions,
                    now,
                    frame.content.width,
                    frame.columns,
                ),
            },
            status: self.status_line(captions, now),
            status_area: frame.bar,
        }
    }
}

impl App {
    /// The panes of the list: its own, and that of a file over it; none where they
    /// cannot be shown.
    fn list_panes(&self, captions: &Captions, now: i64, content: Area) -> (r: Option<Vec<Pane>>)
        requires
            self@.place_wf(),
        ensures
            r is Some <==> self@.can_show_list(captions@) && self@.can_show_overlay(),
            r matches Some(panes) ==> exists|overlay: Area| #[trigger]
                self@.overlay_divided(content, overlay) && pane_texts(panes@) == seq![
                    self@.list_pane(captions@, now, content),
                ] + self@.overlay_panes(captions@, now, overlay),
    {
        let shown = match &self.list_preview {
            Some(p) => p.atime >= 0,
            None => true,
        };
        if !shown {
            return None;
        }
        let overlay = self.overlay_area(content);
        let list = match self.render_list_content(captions, now, content) {
            Some(list) => list,
            None => {
                return None;
            },
        };
        let mut panes: Vec<Pane> = Vec::new();
        panes.push(list);
        match self.render_list_preview_overlay(captions, now, overlay) {
            Some(pane) => {
                panes.push(pane);
                assert(pane_texts(panes@) =~= seq![list@] + seq![pane@]);
            },
            None => {
                assert(pane_texts(panes@) =~= seq![list@] + self@.overlay_panes(
                    captions@,
                    now,
                    overlay,
                ));
            },
        }
        Some(panes)
    }

    /// What is on a screen of that area at the time `now`; none where an age or a
    /// caption is missing.
    pub fn ui(&self, captions: &Captions, now: i64, area: Area) -> (r: Option<Scene>)
        requires
            self@.sound(),
        ensures
            r is Some <==> self@.can_show_scene(captions@, area.width),
            r matches Some(s) ==> exists|frame: Frame| #[trigger]
                self@.arranged(frame, area) && s@ == self@.scene(captions@, now, frame),
    {
        let (content, bar) = split_screen(area);
        let ghost mut frame = Frame { content, bar, overlay: content, columns: Seq::empty() };
        let panes = match self.view_mode {
            ViewMode::List => {
                let panes = self.list_panes(captions, now, content);
                proof {
                    if panes is Some {
                        frame.overlay = choose|overlay: Area| #[trigger]
                            self@.overlay_divided(content, overlay) && pane_texts(panes->0@) == seq![
                                self@.list_pane(captions@, now, content),
                            ] + self@.overlay_panes(captions@, now, overlay);
                    }
                }
                panes
            },
            ViewMode::Tree => {
                let panes = self.render_tree_content(captions, now, content);
                proof {
                    if panes is Some {
                        frame.columns = choose|areas: Seq<Area>| #[trigger]
                            self@.tree_divided(content, areas) && pane_texts(panes->0@)
                                == self@.tree_panes(captions@, now, content.width, areas);
                    }
                }
                panes
            },
        };
        match (panes, self.render_status_bar(captions, now)) {
            (Some(panes), Some(status)) => {
                let scene = Scene { panes, status, status_area: bar };
                assert(self@.arranged(frame, area));
                assert(scene@ == self@.scene(captions@, now, frame));
                Some(scene)
            },
            _ => None,
        }
    }
}

} // verus!
