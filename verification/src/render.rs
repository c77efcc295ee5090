//! What is on the screen: panes of rows or lines, and the status bar.

use vstd::prelude::*;

use crate::app::{App, AppView, Column};
use crate::format::{atime_text, format_atime, truncate_to_chars, truncated};
use crate::layout::{
    bordered, cells_less, centered, centered_rect, column_parts, divided, first_pane, inner_area,
    inside, pane_count, panes_shown, split_columns, visible_panes, Area, Axis,
};
use crate::preview::{FilePreview, PreviewView};
use crate::table::{can_show, caption_texts, rows, table_rows, Caption, CaptionView, Shape};
use crate::text::{after_last, after_last_of, decimal, decimal_of, texts};

verus! {

/// A colour.
#[derive(Clone, Copy, Debug, PartialEq, Eq, Structural)]
pub enum Hue {
    /// That of the terminal
    Plain,
    Blue,
    Cyan,
    Green,
    Yellow,
    Gray,
}

/// A weight of text.
#[derive(Clone, Copy, Debug, PartialEq, Eq, Structural)]
pub enum Weight {
    Normal,
    Bold,
    Italic,
    Dim,
}

/// How a text looks.
#[derive(Clone, Copy, Debug, PartialEq, Eq, Structural)]
pub struct Ink {
    pub hue: Hue,
    pub weight: Weight,
}

/// A line of text.
#[derive(Debug)]
pub struct TextLine {
    pub text: String,
    pub ink: Ink,
}

/// A line with its text as characters.
#[verifier::ext_equal]
pub struct LineView {
    pub text: Seq<char>,
    pub ink: Ink,
}

impl View for TextLine {
    type V = LineView;

    open spec fn view(&self) -> LineView {
        LineView { text: self.text@, ink: self.ink }
    }
}

/// Lines with their texts as characters.
pub open spec fn line_texts(lines: Seq<TextLine>) -> Seq<LineView> {
    lines.map_values(|l: TextLine| l@)
}

/// What a pane shows inside its border.
#[derive(Debug)]
pub enum Body {
    /// Rows, one of which may be selected
    Rows { rows: Vec<String>, selected: Option<usize> },
    /// Lines of text, on cleared ground
    Lines { lines: Vec<TextLine> },
}

/// A body with its texts as characters.
#[verifier::ext_equal]
pub enum BodyView {
    Rows { rows: Seq<Seq<char>>, selected: Option<usize> },
    Lines { lines: Seq<LineView> },
}

impl View for Body {
    type V = BodyView;

    open spec fn view(&self) -> BodyView {
        match self {
            Body::Rows { rows, selected } => BodyView::Rows {
                rows: texts(rows@),
                selected: *selected,
            },
            Body::Lines { lines } => BodyView::Lines { lines: line_texts(lines@) },
        }
    }
}

/// A pane: a border with a title, and a body in it.
#[derive(Debug)]
pub struct Pane {
    pub area: Area,
    pub title: String,
    pub title_ink: Ink,
    pub border: Hue,
    pub body: Body,
}

/// A pane with its texts as characters.
#[verifier::ext_equal]
pub struct PaneView {
    pub area: Area,
    pub title: Seq<char>,
    pub title_ink: Ink,
    pub border: Hue,
    pub body: BodyView,
}

impl View for Pane {
    type V = PaneView;

    open spec fn view(&self) -> PaneView {
        PaneView {
            area: self.area,
            title: self.title@,
            title_ink: self.title_ink,
            border: self.border,
            body: self.body@,
        }
    }
}

/// Panes with their texts as characters.
pub open spec fn pane_texts(panes: Seq<Pane>) -> Seq<PaneView> {
    panes.map_values(|p: Pane| p@)
}

/// What is shown that is not told from the state here: the captions of the list
/// and of each column, the sizes of the previewed files in words, and the filters
/// in words.
#[derive(Debug)]
pub struct Captions {
    pub list: Vec<Caption>,
    pub columns: Vec<Vec<Caption>>,
    pub file_size: String,
    pub overlay_size: String,
    pub filters: String,
}

/// Captions with their texts as characters.
#[verifier::ext_equal]
pub struct CaptionsView {
    pub list: Seq<CaptionView>,
    pub columns: Seq<Seq<CaptionView>>,
    pub file_size: Seq<char>,
    pub overlay_size: Seq<char>,
    pub filters: Seq<char>,
}

impl View for Captions {
    type V = CaptionsView;

    open spec fn view(&self) -> CaptionsView {
        CaptionsView {
            list: caption_texts(self.list@),
            columns: self.columns@.map_values(|c: Vec<Caption>| caption_texts(c@)),
            file_size: self.file_size@,
            overlay_size: self.overlay_size@,
            filters: self.filters@,
        }
    }
}

/// Ink of a hue in normal weight.
pub open spec fn ink(hue: Hue) -> Ink {
    Ink { hue, weight: Weight::Normal }
}

/// Ink of a hue in bold.
pub open spec fn bold(hue: Hue) -> Ink {
    Ink { hue, weight: Weight::Bold }
}

/// Ink of a hue in normal weight.
fn ink_of(hue: Hue) -> (r: Ink)
    ensures
        r == ink(hue),
{
    Ink { hue, weight: Weight::Normal }
}

/// Ink of a hue in bold.
fn bold_of(hue: Hue) -> (r: Ink)
    ensures
        r == bold(hue),
{
    Ink { hue, weight: Weight::Bold }
}

/// A title with a space on each side.
pub open spec fn spaced(title: Seq<char>) -> Seq<char> {
    " "@ + title + " "@
}

/// A title with a space on each side.
fn spaced_of(title: &str) -> (r: String)
    ensures
        r@ == spaced(title@),
{
    let mut s = " ".to_owned();
    s.append(title);
    s.append(" ");
    s
}

/// The filters behind a space, where there are any.
pub open spec fn filter_suffix(filters: Seq<char>) -> Seq<char> {
    if filters.len() == 0 {
        Seq::empty()
    } else {
        " "@ + filters
    }
}

/// The filters behind a space, where there are any.
pub fn filter_suffix_of(filters: &str) -> (r: String)
    ensures
        r@ == filter_suffix(filters@),
{
    if filters.is_empty() {
        String::new()
    } else {
        let mut s = " ".to_owned();
        s.append(filters);
        s
    }
}

impl AppView {
    /// The title of the list: the place, whether it is being loaded, and the
    /// filters.
    pub open spec fn list_title(self, filters: Seq<char>) -> Seq<char> {
        let loading = if self.loading {
            " (loading...)"@
        } else {
            ""@
        };
        match self.current_partition {
            Some(partition) => " "@ + partition + self.below_root() + loading + filter_suffix(
                filters,
            ) + " "@,
            None => " Partitions"@ + loading + filter_suffix(filters) + " "@,
        }
    }

    /// Whether the list can be shown.
    pub open spec fn can_show_list(self, captions: CaptionsView) -> bool {
        can_show(self.entries, captions.list, Shape::List)
    }

    /// The pane of the list.
    pub open spec fn list_pane(self, captions: CaptionsView, now: i64, area: Area) -> PaneView {
        PaneView {
            area,
            title: self.list_title(captions.filters),
            title_ink: ink(Hue::Plain),
            border: Hue::Plain,
            body: BodyView::Rows {
                rows: rows(self.entries, captions.list, now, area.width, Shape::List),
                selected: self.selected,
            },
        }
    }
}

impl App {
    /// The title of the list.
    fn list_title_text(&self, filters: &str) -> (r: String)
        requires
            self@.place_wf(),
        ensures
            r@ == self@.list_title(filters@),
    {
        let mut s = match &self.current_partition {
            Some(partition) => {
                let mut s = " ".to_owned();
                s.append(partition.as_str());
                s.append(self.path_below_root().as_str());
                s
            },
            None => " Partitions".to_owned(),
        };
        s.append(if self.loading {
            " (loading...)"
        } else {
            ""
        });
        s.append(filter_suffix_of(filters).as_str());
        s.append(" ");
        s
    }

    /// The pane of the list; none where it cannot be shown.
    pub fn render_list_content(&self, captions: &Captions, now: i64, area: Area) -> (r: Option<Pane>)
        requires
            self@.place_wf(),
        ensures
            r is Some <==> self@.can_show_list(captions@),
            r matches Some(pane) ==> pane@ == self@.list_pane(captions@, now, area),
    {
        match table_rows(&self.entries, &captions.list, now, area.width, Shape::List) {
            Some(rows) => Some(
                Pane {
                    area,
                    title: self.list_title_text(captions.filters.as_str()),
                    title_ink: ink_of(Hue::Plain),
                    border: Hue::Plain,
                    body: Body::Rows { rows, selected: self.selected },
                },
            ),
            None => None,
        }
    }
}

/// Lines on the type, the size and the last access of a file, and an empty one.
pub open spec fn header(p: PreviewView, size: Seq<char>, now: i64) -> Seq<LineView> {
    seq![
        LineView { text: "  Type: "@ + p.type_description, ink: ink(Hue::Yellow) },
        LineView { text: "  Size: "@ + size, ink: ink(Hue::Green) },
        LineView {
            text: "  Atime: "@ + atime_text(p.atime as int, now as int),
            ink: ink(Hue::Cyan),
        },
        LineView { text: Seq::empty(), ink: ink(Hue::Plain) },
    ]
}

/// How many lines of a file fit below its header.
pub open spec fn content_height(inner_height: int) -> int {
    if inner_height > 4 {
        inner_height - 4
    } else {
        0
    }
}

/// A line of a file, behind two spaces.
pub open spec fn indented(line: Seq<char>) -> Seq<char> {
    "  "@ + line
}

/// What is said in place of the lines of a binary file.
pub open spec fn binary_line() -> LineView {
    LineView {
        text: "  (binary file — no preview)"@,
        ink: Ink { hue: Hue::Gray, weight: Weight::Italic },
    }
}

impl PreviewView {
    /// The number of the line at the top of the pane, which is never before the
    /// window.
    pub open spec fn top_line(self) -> int {
        if self.scroll_offset < self.first_line_number {
            self.first_line_number
        } else {
            self.scroll_offset
        }
    }

    /// How many lines the pane shows where `room` fit.
    pub open spec fn lines_shown(self, room: int) -> int {
        let left = self.total_lines_loaded - self.top_line();
        if room < left {
            room
        } else {
            left
        }
    }

    /// How far down the file the pane is, in hundredths.
    pub open spec fn percent(self, room: int) -> int {
        let p = self.top_line() * 100 / (self.total_lines_loaded - room);
        if p < 100 {
            p
        } else {
            100
        }
    }

    /// The line that tells how far down the file the pane is.
    pub open spec fn indicator(self, room: int) -> LineView {
        LineView {
            text: "  ── "@ + decimal(self.percent(room) as nat) + "% ("@ + decimal(
                (self.top_line() + 1) as nat,
            ) + "/"@ + decimal(self.total_lines_loaded as nat) + " lines) ("@ + (
            if self.eof_reached {
                "EOF"@
            } else {
                "..."@
            }) + ") ──"@,
            ink: ink(Hue::Gray),
        }
    }

    /// The lines of the pane of the file, of that height inside its border.
    pub open spec fn pane_lines(self, size: Seq<char>, now: i64, inner_height: int) -> Seq<
        LineView,
    > {
        let room = content_height(inner_height);
        if self.is_text && self.lines.len() > 0 {
            header(self, size, now) + Seq::new(
                self.lines_shown(room) as nat,
                |i: int| LineView {
                    text: indented(self.lines[self.top_line() - self.first_line_number + i]),
                    ink: ink(Hue::Plain),
                },
            ) + (if self.total_lines_loaded > room {
                seq![self.indicator(room)]
            } else {
                Seq::empty()
            })
        } else if !self.is_text {
            header(self, size, now) + seq![binary_line()]
        } else {
            header(self, size, now)
        }
    }

    /// The lines of the file over the list, in an area of that size.
    pub open spec fn overlay_lines(self, size: Seq<char>, now: i64, inner: Area) -> Seq<LineView> {
        let room = content_height(inner.height as int);
        let shown = if self.lines.len() < room {
            self.lines.len() as int
        } else {
            room
        };
        let top = header(self, size, now).map_values(
            |l: LineView| LineView { text: truncated(l.text, inner.width as int), ink: l.ink },
        );
        if self.is_text && self.lines.len() > 0 {
            top + Seq::new(
                shown as nat,
                |i: int| LineView {
                    text: truncated(indented(self.lines[i]), inner.width as int),
                    ink: ink(Hue::Plain),
                },
            )
        } else if !self.is_text {
            top + seq![binary_line()]
        } else {
            top
        }
    }

    /// The name of the file.
    pub open spec fn file_name(self) -> Seq<char> {
        after_last(self.path, '/')
    }
}

fn header_of(p: &FilePreview, size: &str, now: i64) -> (r: Vec<TextLine>)
    requires
        p.atime >= 0,
    ensures
        line_texts(r@) == header(p@, size@, now),
{
    let mut kind = "  Type: ".to_owned();
    kind.append(p.type_description.as_str());
    let mut length = "  Size: ".to_owned();
    length.append(size);
    let mut age = "  Atime: ".to_owned();
    age.append(format_atime(p.atime, now).as_str());
    let mut lines: Vec<TextLine> = Vec::new();
    lines.push(TextLine { text: kind, ink: ink_of(Hue::Yellow) });
    lines.push(TextLine { text: length, ink: ink_of(Hue::Green) });
    lines.push(TextLine { text: age, ink: ink_of(Hue::Cyan) });
    lines.push(TextLine { text: String::new(), ink: ink_of(Hue::Plain) });
    assert(line_texts(lines@) =~= header(p@, size@, now));
    lines
}

fn indented_of(line: &str) -> (r: String)
    ensures
        r@ == indented(line@),
{
    let mut s = "  ".to_owned();
    s.append(line);
    s
}

fn binary_line_of() -> (r: TextLine)
    ensures
        r@ == binary_line(),
{
    TextLine {
        text: "  (binary file — no preview)".to_owned(),
        ink: Ink { hue: Hue::Gray, weight: Weight::Italic },
    }
}

fn content_height_of(inner_height: usize) -> (r: usize)
    ensures
        r == content_height(inner_height as int),
{
    if inner_height > 4 {
        inner_height - 4
    } else {
        0
    }
}

impl FilePreview {
    fn indicator_line(&self, room: usize) -> (r: TextLine)
        requires
            self@.wf(),
            self.lines@.len() > 0,
            self.total_lines_loaded > room,
        ensures
            r@ == self@.indicator(room as int),
    {
        let top: usize = if self.scroll_offset < self.first_line_number {
            self.first_line_number
        } else {
            self.scroll_offset
        };
        let total: usize = self.total_lines_loaded;
        assert(self@.lines.len() == self.lines@.len());
        let far: u128 = top as u128 * 100;
        let scrollable: u128 = (total - room) as u128;
        let share: u128 = far / scrollable;
        let percent: u64 = if share < 100 {
            share as u64
        } else {
            100
        };
        assert(percent == self@.percent(room as int));
        let mut text = "  ── ".to_owned();
        text.append(decimal_of(percent).as_str());
        text.append("% (");
        text.append(decimal_of(top as u64 + 1).as_str());
        text.append("/");
        text.append(decimal_of(total as u64).as_str());
        text.append(" lines) (");
        text.append(if self.eof_reached {
            "EOF"
        } else {
            "..."
        });
        text.append(") ──");
        TextLine { text, ink: ink_of(Hue::Gray) }
    }

    /// The lines of the pane of the file.
    pub fn pane_text(&self, size: &str, now: i64, inner_height: usize) -> (r: Vec<TextLine>)
        requires
            self@.wf(),
            self.atime >= 0,
        ensures
            line_texts(r@) == self@.pane_lines(size@, now, inner_height as int),
    {
        let mut lines = header_of(self, size, now);
        let ghost top_lines = header(self@, size@, now);
        assert(self@.lines.len() == self.lines@.len());
        if self.is_text && self.lines.len() > 0 {
            let room: usize = content_height_of(inner_height);
            let top: usize = if self.scroll_offset < self.first_line_number {
                self.first_line_number
            } else {
                self.scroll_offset
            };
            let from: usize = top - self.first_line_number;
            let held: usize = self.lines.len();
            let left: usize = held - from;
            let count: usize = if room < left {
                room
            } else {
                left
            };
            let ghost all = Seq::new(
                count as nat,
                |i: int| LineView {
                    text: indented(self@.lines[from + i]),
                    ink: ink(Hue::Plain),
                },
            );
            assert(count == self@.lines_shown(room as int));
            let mut i: usize = 0;
            assert(line_texts(lines@) =~= top_lines + all.take(0));
            while i < count
                invariant
                    i <= count,
                    from + count <= held,
                    held == self.lines@.len(),
                    all.len() == count,
                    all == Seq::new(
                        count as nat,
                        |i: int| LineView {
                            text: indented(self@.lines[from + i]),
                            ink: ink(Hue::Plain),
                        },
                    ),
                    line_texts(lines@) == top_lines + all.take(i as int),
                decreases count - i,
            {
                let text = indented_of(self.lines[from + i].as_str());
                let line = TextLine { text, ink: ink_of(Hue::Plain) };
                let ghost before = lines@;
                lines.push(line);
                proof {
                    assert(all[i as int] == line@);
                    assert(line_texts(lines@) =~= line_texts(before).push(line@));
                    assert(top_lines + all.take(i + 1) =~= (top_lines + all.take(i as int)).push(
                        all[i as int],
                    ));
                }
                i += 1;
            }
            assert(all.take(i as int) =~= all);
            assert(all =~= Seq::new(
                self@.lines_shown(room as int) as nat,
                |i: int| LineView {
                    text: indented(self@.lines[self@.top_line() - self@.first_line_number + i]),
                    ink: ink(Hue::Plain),
                },
            ));
            if self.total_lines_loaded > room {
                let line = self.indicator_line(room);
                let ghost before = lines@;
                lines.push(line);
                assert(line_texts(lines@) =~= line_texts(before).push(line@));
                assert(line_texts(lines@) =~= top_lines + all + seq![line@]);
            } else {
                assert(line_texts(lines@) =~= top_lines + all + Seq::<LineView>::empty());
            }
        } else if !self.is_text {
            let line = binary_line_of();
            let ghost before = lines@;
            lines.push(line);
            assert(line_texts(lines@) =~= line_texts(before).push(line@));
            assert(line_texts(lines@) =~= top_lines + seq![line@]);
        }
        lines
    }

    /// The lines of the file over the list.
    pub fn overlay_text(&self, size: &str, now: i64, inner: Area) -> (r: Vec<TextLine>)
        requires
            self.atime >= 0,
        ensures
            line_texts(r@) == self@.overlay_lines(size@, now, inner),
    {
        let whole = header_of(self, size, now);
        let width: usize = inner.width as usize;
        let ghost full = header(self@, size@, now);
        let ghost cut = full.map_values(
            |l: LineView| LineView { text: truncated(l.text, inner.width as int), ink: l.ink },
        );
        let mut lines: Vec<TextLine> = Vec::new();
        let mut i: usize = 0;
        assert(line_texts(lines@) =~= cut.take(0));
        assert(line_texts(whole@).len() == whole@.len());
        while i < whole.len()
            invariant
                i <= whole@.len(),
                whole@.len() == full.len(),
                line_texts(whole@) == full,
                width == inner.width,
                cut == full.map_values(
                    |l: LineView|
                        LineView { text: truncated(l.text, inner.width as int), ink: l.ink },
                ),
                line_texts(lines@) == cut.take(i as int),
            decreases whole@.len() - i,
        {
            let text = truncate_to_chars(whole[i].text.as_str(), width);
            let line = TextLine { text, ink: whole[i].ink };
            let ghost before = lines@;
            lines.push(line);
            proof {
                assert(full[i as int] == whole@[i as int]@);
                assert(line_texts(lines@) =~= line_texts(before).push(line@));
                assert(cut.take(i + 1) =~= cut.take(i as int).push(cut[i as int]));
            }
            i += 1;
        }
        assert(cut.take(i as int) =~= cut);
        assert(self@.lines.len() == self.lines@.len());
        if self.is_text && self.lines.len() > 0 {
            let room: usize = content_height_of(inner.height as usize);
            let count: usize = if self.lines.len() < room {
                self.lines.len()
            } else {
                room
            };
            let ghost all = Seq::new(
                count as nat,
                |i: int| LineView {
                    text: truncated(indented(self@.lines[i]), inner.width as int),
                    ink: ink(Hue::Plain),
                },
            );
            let mut k: usize = 0;
            assert(line_texts(lines@) =~= cut + all.take(0));
            while k < count
                invariant
                    k <= count <= self.lines@.len(),
                    width == inner.width,
                    all.len() == count,
                    all == Seq::new(
                        count as nat,
                        |i: int| LineView {
                            text: truncated(indented(self@.lines[i]), inner.width as int),
                            ink: ink(Hue::Plain),
                        },
                    ),
                    line_texts(lines@) == cut + all.take(k as int),
                decreases count - k,
            {
                let text = truncate_to_chars(indented_of(self.lines[k].as_str()).as_str(), width);
                let line = TextLine { text, ink: ink_of(Hue::Plain) };
                let ghost before = lines@;
                lines.push(line);
                proof {
                    assert(all[k as int] == line@);
                    assert(line_texts(lines@) =~= line_texts(before).push(line@));
                    assert(cut + all.take(k + 1) =~= (cut + all.take(k as int)).push(all[k as int]));
                }
                k += 1;
            }
            assert(all.take(k as int) =~= all);
        } else if !self.is_text {
            let line = binary_line_of();
            let ghost before = lines@;
            lines.push(line);
            assert(line_texts(lines@) =~= line_texts(before).push(line@));
            assert(line_texts(lines@) =~= cut + seq![line@]);
        }
        lines
    }
}

impl AppView {
    /// Whether the pane of the file can be shown.
    pub open spec fn can_show_file(self) -> bool {
        self.file_preview matches Some(p) ==> p.atime >= 0
    }

    /// The pane of the file that is selected in the tree, or an empty one.
    pub open spec fn file_pane(self, captions: CaptionsView, now: i64, area: Area) -> PaneView {
        let hue = if self.preview_focused {
            Hue::Blue
        } else {
            Hue::Cyan
        };
        match self.file_preview {
            Some(p) => PaneView {
                area,
                title: spaced(p.file_name()),
                title_ink: if self.preview_focused {
                    bold(hue)
                } else {
                    ink(hue)
                },
                border: hue,
                body: BodyView::Lines {
                    lines: p.pane_lines(captions.file_size, now, cells_less(area.height, 2)),
                },
            },
            None => PaneView {
                area,
                title: " Preview "@,
                title_ink: ink(Hue::Gray),
                border: Hue::Gray,
                body: BodyView::Lines { lines: Seq::empty() },
            },
        }
    }

    /// Whether the file over the list can be shown.
    pub open spec fn can_show_overlay(self) -> bool {
        self.list_preview matches Some(p) ==> p.atime >= 0
    }

    /// Whether a file over the list, where there is one, can take this area.
    pub open spec fn overlay_divided(self, content: Area, overlay: Area) -> bool {
        self.list_preview is Some ==> centered(80, 70, content, overlay)
    }

    /// The panes of the file over the list: none, or one.
    pub open spec fn overlay_panes(self, captions: CaptionsView, now: i64, overlay: Area) -> Seq<
        PaneView,
    > {
        match self.list_preview {
            Some(p) => seq![
                PaneView {
                    area: overlay,
                    title: spaced(p.file_name()),
                    title_ink: bold(Hue::Cyan),
                    border: Hue::Cyan,
                    body: BodyView::Lines {
                        lines: p.overlay_lines(captions.overlay_size, now, bordered(overlay)),
                    },
                },
            ],
            None => Seq::empty(),
        }
    }

    /// The hue of the border of column `i`.
    pub open spec fn column_hue(self, i: int) -> Hue {
        if i == self.active_column {
            Hue::Blue
        } else if i == self.active_column + 1 {
            Hue::Cyan
        } else {
            Hue::Gray
        }
    }

    /// Whether pane `i` of the tree can be shown.
    pub open spec fn can_show_pane(self, captions: CaptionsView, i: int) -> bool {
        if i < self.columns.len() {
            i < captions.columns.len() && can_show(
                self.columns[i].entries,
                captions.columns[i],
                Shape::Column,
            )
        } else {
            self.can_show_file()
        }
    }

    /// The pane of column `i` of the tree.
    pub open spec fn column_pane(self, captions: CaptionsView, now: i64, i: int, area: Area) -> PaneView {
        PaneView {
            area,
            title: spaced(self.columns[i].title),
            title_ink: if i == self.active_column {
                bold(Hue::Blue)
            } else {
                ink(Hue::Gray)
            },
            border: self.column_hue(i),
            body: BodyView::Rows {
                rows: rows(
                    self.columns[i].entries,
                    captions.columns[i],
                    now,
                    area.width,
                    Shape::Column,
                ),
                selected: self.columns[i].selected,
            },
        }
    }

    /// Pane `i` of the tree: a column, or the file behind the last.
    pub open spec fn tree_pane(self, captions: CaptionsView, now: i64, i: int, area: Area) -> PaneView {
        if i < self.columns.len() {
            self.column_pane(captions, now, i, area)
        } else {
            self.file_pane(captions, now, area)
        }
    }

    /// The first pane of the tree that is shown on `width` cells.
    pub open spec fn tree_start(self, width: u16) -> int {
        first_pane(
            self.columns.len() as int,
            self.active_column,
            self.file_preview is Some,
            width,
        )
    }

    /// How many panes of the tree are shown on `width` cells.
    pub open spec fn tree_count(self, width: u16) -> int {
        if self.columns.len() == 0 {
            0
        } else {
            panes_shown(pane_count(self.columns.len() as int, self.file_preview is Some), width)
        }
    }

    /// Whether these areas can be those of the panes of the tree: none where there are
    /// no columns, and otherwise of equal width.
    pub open spec fn tree_divided(self, area: Area, areas: Seq<Area>) -> bool {
        if self.columns.len() == 0 {
            areas.len() == 0
        } else {
            divided(Axis::Across, column_parts(self.tree_count(area.width)), area, areas)
        }
    }

    /// Whether the panes of the tree that are shown on `width` cells can be shown.
    pub open spec fn can_show_tree(self, captions: CaptionsView, width: u16) -> bool {
        forall|i: int|
            self.tree_start(width) <= i < self.tree_start(width) + self.tree_count(width)
                ==> #[trigger] self.can_show_pane(captions, i)
    }

    /// The panes of the tree in these areas, out of `width` cells.
    pub open spec fn tree_panes(
        self,
        captions: CaptionsView,
        now: i64,
        width: u16,
        areas: Seq<Area>,
    ) -> Seq<PaneView> {
        Seq::new(
            areas.len(),
            |i: int| self.tree_pane(captions, now, self.tree_start(width) + i, areas[i]),
        )
    }
}

impl App {
    /// The pane of the file that is selected in the tree, or an empty one; none
    /// where it cannot be shown.
    pub fn render_file_preview_pane(&self, captions: &Captions, now: i64, area: Area) -> (r: Option<
        Pane,
    >)
        requires
            self@.previews_wf(),
        ensures
            r is Some <==> self@.can_show_file(),
            r matches Some(pane) ==> pane@ == self@.file_pane(captions@, now, area),
    {
        match &self.file_preview {
            Some(p) => {
                if p.atime < 0 {
                    return None;
                }
                let hue = if self.preview_focused {
                    Hue::Blue
                } else {
                    Hue::Cyan
                };
                let inner_height: usize = if area.height > 2 {
                    (area.height - 2) as usize
                } else {
                    0
                };
                let lines = p.pane_text(captions.file_size.as_str(), now, inner_height);
                Some(
                    Pane {
                        area,
                        title: spaced_of(after_last_of(p.path.as_str(), '/').as_str()),
                        title_ink: if self.preview_focused {
                            bold_of(hue)
                        } else {
                            ink_of(hue)
                        },
                        border: hue,
                        body: Body::Lines { lines },
                    },
                )
            },
            None => {
                let lines: Vec<TextLine> = Vec::new();
                assert(line_texts(lines@) =~= Seq::<LineView>::empty());
                Some(
                    Pane {
                        area,
                        title: " Preview ".to_owned(),
                        title_ink: ink_of(Hue::Gray),
                        border: Hue::Gray,
                        body: Body::Lines { lines },
                    },
                )
            },
        }
    }

    /// The pane of the file over the list, in the area that it takes.
    pub fn render_list_preview_overlay(&self, captions: &Captions, now: i64, overlay: Area) -> (r:
        Option<Pane>)
        requires
            self@.can_show_overlay(),
        ensures
            r is Some <==> self.list_preview is Some,
            r matches Some(pane) ==> pane.area == overlay && self@.overlay_panes(
                captions@,
                now,
                overlay,
            ) == seq![pane@],
    {
        match &self.list_preview {
            Some(p) => {
                let inner = inner_area(overlay);
                let lines = p.overlay_text(captions.overlay_size.as_str(), now, inner);
                Some(
                    Pane {
                        area: overlay,
                        title: spaced_of(after_last_of(p.path.as_str(), '/').as_str()),
                        title_ink: bold_of(Hue::Cyan),
                        border: Hue::Cyan,
                        body: Body::Lines { lines },
                    },
                )
            },
            None => None,
        }
    }

    /// The area of a file over the list, where there is one: in the middle of the
    /// area of the list.
    pub fn overlay_area(&self, content: Area) -> (r: Area)
        ensures
            self@.overlay_divided(content, r),
            self.list_preview is None ==> r == content,
            inside(r, content),
    {
        if self.list_preview.is_some() {
            centered_rect(80, 70, content)
        } else {
            content
        }
    }

    fn column_pane_of(&self, captions: &Captions, now: i64, i: usize, area: Area) -> (r: Option<Pane>)
        requires
            i < self@.columns.len(),
        ensures
            r is Some <==> self@.can_show_pane(captions@, i as int),
            r matches Some(pane) ==> pane@ == self@.column_pane(captions@, now, i as int, area),
    {
        if i >= captions.columns.len() {
            return None;
        }
        let column = &self.columns[i];
        assert(column@ == self@.columns[i as int]);
        assert(caption_texts(captions.columns@[i as int]@) == captions@.columns[i as int]);
        let active = i == self.active_column;
        match table_rows(&column.entries, &captions.columns[i], now, area.width, Shape::Column) {
            Some(rows) => Some(
                Pane {
                    area,
                    title: spaced_of(column.title.as_str()),
                    title_ink: if active {
                        bold_of(Hue::Blue)
                    } else {
                        ink_of(Hue::Gray)
                    },
                    border: if active {
                        Hue::Blue
                    } else if i > 0 && i - 1 == self.active_column {
                        Hue::Cyan
                    } else {
                        Hue::Gray
                    },
                    body: Body::Rows { rows, selected: column.selected },
                },
            ),
            None => None,
        }
    }

    /// The panes of the tree in the areas of its columns, out of `width` cells;
    /// none where they cannot be shown.
    pub fn tree_panes_in(&self, captions: &Captions, now: i64, width: u16, areas: &Vec<Area>) -> (r:
        Option<Vec<Pane>>)
        requires
            self@.sound(),
            areas@.len() == self@.tree_count(width),
        ensures
            r is Some <==> self@.can_show_tree(captions@, width),
            r matches Some(panes) ==> pane_texts(panes@) == self@.tree_panes(
                captions@,
                now,
                width,
                areas@,
            ),
    {
        let mut panes: Vec<Pane> = Vec::new();
        if self.columns.len() == 0 {
            assert(pane_texts(panes@) =~= self@.tree_panes(captions@, now, width, areas@));
            return Some(panes);
        }
        let (start, _shown) = visible_panes(
            self.columns.len(),
            self.active_column,
            self.file_preview.is_some(),
            width,
        );
        let ghost all = self@.tree_panes(captions@, now, width, areas@);
        assert(pane_texts(panes@) =~= all.take(0));
        let mut i: usize = 0;
        let count: usize = self.columns.len();
        while i < areas.len()
            invariant
                i <= areas@.len(),
                count == self@.columns.len(),
                self@.sound(),
                start == self@.tree_start(width),
                start + areas@.len() <= count + 1,
                all == self@.tree_panes(captions@, now, width, areas@),
                areas@.len() == self@.tree_count(width),
                forall|k: int| start <= k < start + i ==> #[trigger] self@.can_show_pane(captions@, k),
                pane_texts(panes@) == all.take(i as int),
            decreases areas@.len() - i,
        {
            let index: usize = start + i;
            let shown = if index < self.columns.len() {
                self.column_pane_of(captions, now, index, areas[i])
            } else {
                self.render_file_preview_pane(captions, now, areas[i])
            };
            match shown {
                Some(pane) => {
                    let ghost before = panes@;
                    panes.push(pane);
                    proof {
                        assert(all[i as int] == pane@);
                        assert(pane_texts(panes@) =~= pane_texts(before).push(pane@));
                        assert(all.take(i + 1) =~= all.take(i as int).push(all[i as int]));
                    }
                },
                None => {
                    assert(!self@.can_show_pane(captions@, index as int));
                    return None;
                },
            }
            i += 1;
        }
        assert(all.take(i as int) =~= all);
        Some(panes)
    }

    /// The panes of the tree, side by side; none where they cannot be shown.
    pub fn render_tree_content(&self, captions: &Captions, now: i64, area: Area) -> (r: Option<
        Vec<Pane>,
    >)
        requires
            self@.sound(),
        ensures
            r is Some <==> self@.can_show_tree(captions@, area.width),
            r matches Some(panes) ==> exists|areas: Seq<Area>| #[trigger]
                self@.tree_divided(area, areas) && pane_texts(panes@) == self@.tree_panes(
                    captions@,
                    now,
                    area.width,
                    areas,
                ),
    {
        if self.columns.len() == 0 {
            let areas: Vec<Area> = Vec::new();
            assert(self@.tree_divided(area, areas@));
            return self.tree_panes_in(captions, now, area.width, &areas);
        }
        let (_start, shown) = visible_panes(
            self.columns.len(),
            self.active_column,
            self.file_preview.is_some(),
            area.width,
        );
        let areas = split_columns(shown, area);
        assert(self@.tree_divided(area, areas@));
        self.tree_panes_in(captions, now, area.width, &areas)
    }
}

} // verus!
