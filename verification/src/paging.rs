//! What a previewed file looks like on the screen, and how the keys page through
//! it.

use vstd::prelude::*;

use crate::ansi::stripped;
use crate::app::{AppView, Reply, RequestView};
use crate::filetype::content_kind;
use crate::format::{atime_text, truncated};
use crate::keys::Key;
use crate::layout::Area;
use crate::preview::{without_newline, PreviewView};
use crate::reading::file_lines;
use crate::render::{Hue, Weight};
use crate::text::{decimal, texts};

verus! {

/// How many lines of a file there is room for in a pane of that height.
pub open spec fn room_below_header(inner_height: int) -> int {
    if inner_height > 4 {
        inner_height - 4
    } else {
        0
    }
}

/// The number of the line at the top of the pane: the one that was scrolled to, or
/// the first that is still held.
pub open spec fn line_at_top(p: PreviewView) -> int {
    if p.scroll_offset > p.first_line_number {
        p.scroll_offset
    } else {
        p.first_line_number
    }
}

/// The pane of a text tells its type, its size and its last access, and below an
/// empty line shows it from the line on that was scrolled to, as far as there is
/// room. Where the text has more lines than there is room for, a line below tells
/// the number of the line at the top, and how far that is on the way from the first
/// line to where the last page begins, in hundredths.
pub proof fn law_pane_of_text(p: PreviewView, size: Seq<char>, now: i64, inner_height: int)
    requires
        p.wf(),
        p.is_text,
        p.lines.len() > 0,
    ensures
        ({
            let r = p.pane_lines(size, now, inner_height);
            let room = room_below_header(inner_height);
            let top = line_at_top(p);
            let total = p.total_lines_loaded;
            let left = total - top;
            let shown = if room < left {
                room
            } else {
                left
            };
            &&& r.len() == 4 + shown + (if total > room {
                1int
            } else {
                0
            })
            &&& r[0].text == "  Type: "@ + p.type_description
            &&& r[1].text == "  Size: "@ + size
            &&& r[2].text == "  Atime: "@ + atime_text(p.atime as int, now as int)
            &&& r[3].text.len() == 0
            &&& forall|k: int|
                0 <= k < shown ==> (#[trigger] r[4 + k]).text == "  "@ + p.lines[top
                    - p.first_line_number + k]
            &&& total > room ==> exists|percent: nat|
                {
                    &&& percent <= 100
                    &&& top >= total - room ==> percent == 100
                    &&& top < total - room ==> percent * (total - room) <= top * 100 && top * 100 < (
                    percent + 1) * (total - room)
                    &&& r.last().text == "  ── "@ + #[trigger] decimal(percent) + "% ("@ + decimal(
                        (top + 1) as nat,
                    ) + "/"@ + decimal(total as nat) + " lines) ("@ + (if p.eof_reached {
                        "EOF"@
                    } else {
                        "..."@
                    }) + ") ──"@
                }
        }),
{
    let room = room_below_header(inner_height);
    let top = line_at_top(p);
    let total = p.total_lines_loaded;
    let r = p.pane_lines(size, now, inner_height);
    if total > room {
        let d = total - room;
        let whole = top * 100 / d;
        let percent = p.percent(room) as nat;
        assert(whole * d <= top * 100 < (whole + 1) * d && whole >= 0) by (nonlinear_arith)
            requires
                whole == top * 100 / d,
                d > 0,
                top >= 0,
        ;
        if top >= d {
            assert(whole >= 100) by (nonlinear_arith)
                requires
                    whole == top * 100 / d,
                    d > 0,
                    top >= d,
            ;
        } else {
            assert(whole < 100) by (nonlinear_arith)
                requires
                    whole == top * 100 / d,
                    d > 0,
                    0 <= top < d,
            ;
        }
        assert(r.last() == p.indicator(room));
        assert(decimal(percent) == decimal(p.percent(room) as nat));
    }
}

/// Scrolled down by one line, the pane shows at each place what it showed one place
/// below.
pub proof fn law_pane_scrolls(p: PreviewView, size: Seq<char>, now: i64, inner_height: int, k: int)
    requires
        p.wf(),
        p.is_text,
        p.first_line_number <= p.scroll_offset,
        p.scroll_offset + 1 < p.total_lines_loaded,
        0 <= k,
        k + 1 < room_below_header(inner_height),
        p.scroll_offset + 1 + k < p.total_lines_loaded,
    ensures
        ({
            let q = PreviewView { scroll_offset: p.scroll_offset + 1, ..p };
            q.pane_lines(size, now, inner_height)[4 + k].text == p.pane_lines(
                size,
                now,
                inner_height,
            )[4 + k + 1].text
        }),
{
    let q = PreviewView { scroll_offset: p.scroll_offset + 1, ..p };
    law_pane_of_text(p, size, now, inner_height);
    law_pane_of_text(q, size, now, inner_height);
    assert(4 + k + 1 == 4 + (k + 1));
}

/// The pane of a preview that shows a file shows the lines of that file from the
/// scroll position on, without their ends and their escape sequences.
pub proof fn law_pane_shows_file(
    p: PreviewView,
    content: Seq<u8>,
    size: Seq<char>,
    now: i64,
    inner_height: int,
    k: int,
)
    requires
        p.shows(content),
        p.first_line_number <= p.scroll_offset,
        0 <= k < room_below_header(inner_height),
        p.scroll_offset + k < p.total_lines_loaded,
    ensures
        p.pane_lines(size, now, inner_height)[4 + k].text == "  "@ + stripped(
            without_newline(file_lines(content)[p.scroll_offset + k]),
        ),
{
    law_pane_of_text(p, size, now, inner_height);
}

/// The pane of a binary file says so below what it tells of it, and the pane of a
/// text without lines says no more.
pub proof fn law_pane_without_lines(p: PreviewView, size: Seq<char>, now: i64, inner_height: int)
    requires
        !p.is_text || p.lines.len() == 0,
    ensures
        ({
            let r = p.pane_lines(size, now, inner_height);
            &&& r[0].text == "  Type: "@ + p.type_description
            &&& r[1].text == "  Size: "@ + size
            &&& r[2].text == "  Atime: "@ + atime_text(p.atime as int, now as int)
            &&& r[3].text.len() == 0
            &&& p.is_text ==> r.len() == 4
            &&& !p.is_text ==> r.len() == 5 && r[4].text == "  (binary file — no preview)"@
        }),
{
}

/// A file over the list shows its first lines, as many as there is room for, each
/// cut to the width, below its type, its size and its last access.
pub proof fn law_overlay_of_text(p: PreviewView, size: Seq<char>, now: i64, inner: Area)
    ensures
        ({
            let r = p.overlay_lines(size, now, inner);
            let room = room_below_header(inner.height as int);
            let shown = if p.lines.len() < room {
                p.lines.len() as int
            } else {
                room
            };
            let w = inner.width as int;
            &&& r[0].text == truncated("  Type: "@ + p.type_description, w)
            &&& r[1].text == truncated("  Size: "@ + size, w)
            &&& r[2].text == truncated("  Atime: "@ + atime_text(p.atime as int, now as int), w)
            &&& r[3].text.len() == 0
            &&& p.is_text ==> r.len() == 4 + (if p.lines.len() > 0 {
                shown
            } else {
                0
            })
            &&& p.is_text ==> forall|k: int|
                0 <= k < shown ==> (#[trigger] r[4 + k]).text == truncated("  "@ + p.lines[k], w)
            &&& !p.is_text ==> r.len() == 5 && r[4].text == "  (binary file — no preview)"@
        }),
{
}

impl AppView {
    /// Whether the keyboard pages through a file.
    pub open spec fn paging(self) -> bool {
        &&& self.wf()
        &&& self.pending is Idle
        &&& self.preview_focused
    }
}

/// How many lines a key pages down.
pub open spec fn lines_down(key: Key) -> int {
    if key == Key::Char('d') {
        20
    } else {
        1
    }
}

/// Paging down goes one line further with `j` and Down, and twenty with `d`, but not
/// past the last line that was read. Before that, more of the file is asked for, if
/// there is any, where less than 40 lines of what was read would be left below.
pub proof fn law_paging_down(s: AppView, key: Key, now: i64)
    requires
        s.paging(),
        key == Key::Char('j') || key == Key::Down || key == Key::Char('d'),
    ensures
        ({
            let p = s.file_preview->0;
            let r = s.pressed(key, now);
            let step = lines_down(key);
            let asks = p.is_text && !p.eof_reached && p.scroll_offset + step + 40
                >= p.total_lines_loaded;
            &&& asks ==> {
                &&& r.1 == (RequestView::Lines { path: p.path, offset: p.file_offset })
                &&& r.0.file_preview == s.file_preview
            }
            &&& !asks ==> {
                let n = r.0.file_preview->0.scroll_offset;
                &&& r.1 is Key
                &&& r.0 == s.with_preview(PreviewView { scroll_offset: n, ..p })
                &&& p.scroll_offset + step < p.total_lines_loaded ==> n == p.scroll_offset + step
                &&& p.scroll_offset + step >= p.total_lines_loaded && p.total_lines_loaded > 0 ==> n
                    == p.total_lines_loaded - 1
                &&& p.total_lines_loaded == 0 ==> n == 0
            }
        }),
{
}

/// When the lines that paging down asked for are there, it goes as far as it was
/// meant to, but not past the last line that was read.
pub proof fn law_paging_down_goes_on(s: AppView, key: Key, now: i64, reply: Reply)
    requires
        s.paging(),
        key == Key::Char('j') || key == Key::Down || key == Key::Char('d'),
        s.pressed(key, now).1 is Lines,
        s.pressed(key, now).0.accepts(reply),
    ensures
        ({
            let p = s.file_preview->0;
            let r = s.pressed(key, now).0.answered(reply);
            let q = r.0.file_preview->0;
            let step = lines_down(key);
            &&& r.1 is Key
            &&& q.total_lines_loaded == p.total_lines_loaded + reply->batch.lines@.len()
            &&& q.eof_reached == reply->batch.ended
            &&& p.scroll_offset + step < q.total_lines_loaded ==> q.scroll_offset == p.scroll_offset
                + step
            &&& p.scroll_offset + step >= q.total_lines_loaded && q.total_lines_loaded > 0
                ==> q.scroll_offset == q.total_lines_loaded - 1
        }),
{
}

/// Paging up goes one line back with `k` and Up, and twenty with `u`, but not past
/// the first line that is still held. Nothing is asked for.
pub proof fn law_paging_up(s: AppView, key: Key, now: i64)
    requires
        s.paging(),
        key == Key::Char('k') || key == Key::Up || key == Key::Char('u'),
    ensures
        ({
            let p = s.file_preview->0;
            let r = s.pressed(key, now);
            let n = r.0.file_preview->0.scroll_offset;
            let step = if key == Key::Char('u') {
                20int
            } else {
                1
            };
            &&& r.1 is Key
            &&& r.0 == s.with_preview(PreviewView { scroll_offset: n, ..p })
            &&& p.scroll_offset - step >= p.first_line_number ==> n == p.scroll_offset - step
            &&& p.scroll_offset - step < p.first_line_number ==> n == p.first_line_number
        }),
{
}

/// The key `g` goes to the first line of the file. Where that is no longer held, the
/// file is asked for from its start, and what was read of it is forgotten.
pub proof fn law_paging_to_top(s: AppView, now: i64)
    requires
        s.paging(),
    ensures
        ({
            let p = s.file_preview->0;
            let r = s.pressed(Key::Char('g'), now);
            let q = r.0.file_preview->0;
            &&& q.scroll_offset == 0
            &&& p.first_line_number == 0 ==> r.1 is Key && q == (PreviewView {
                scroll_offset: 0,
                ..p
            })
            &&& p.first_line_number > 0 ==> {
                &&& r.1 == (RequestView::Lines { path: p.path, offset: 0 })
                &&& q.lines.len() == 0
                &&& q.total_lines_loaded == 0
                &&& q.first_line_number == 0
            }
        }),
{
}

/// The lines that are read again from the start are the ones that are then held.
pub proof fn law_top_is_read(s: AppView, now: i64, reply: Reply)
    requires
        s.paging(),
        s.file_preview->0.first_line_number > 0,
        s.pressed(Key::Char('g'), now).0.accepts(reply),
        reply->batch.lines@.len() <= 100_000,
    ensures
        ({
            let r = s.pressed(Key::Char('g'), now).0.answered(reply);
            let q = r.0.file_preview->0;
            &&& r.1 is Key
            &&& q.scroll_offset == 0
            &&& q.first_line_number == 0
            &&& q.lines.len() == reply->batch.lines@.len()
            &&& forall|i: int|
                0 <= i < q.lines.len() ==> (#[trigger] q.lines[i]) == stripped(
                    without_newline(reply->batch.lines@[i]@),
                )
            &&& q.file_offset == reply->batch.bytes
        }),
{
    let t = s.pressed(Key::Char('g'), now).0;
    let p = t.file_preview->0;
    let q = t.answered(reply).0.file_preview->0;
    let raw = texts(reply->batch.lines@);
    assert(p.lines =~= Seq::<Seq<char>>::empty());
    assert forall|i: int| 0 <= i < q.lines.len() implies (#[trigger] q.lines[i]) == stripped(
        without_newline(reply->batch.lines@[i]@),
    ) by {
        assert(raw[i] == reply->batch.lines@[i]@);
    }
}

/// The key `G` goes to the last line of the file, and asks for the rest of the file
/// first, if there is any.
pub proof fn law_paging_to_bottom(s: AppView, now: i64)
    requires
        s.paging(),
    ensures
        ({
            let p = s.file_preview->0;
            let r = s.pressed(Key::Char('G'), now);
            let n = r.0.file_preview->0.scroll_offset;
            &&& !p.eof_reached ==> r.1 == (RequestView::Lines {
                path: p.path,
                offset: p.file_offset,
            }) && r.0.file_preview == s.file_preview
            &&& p.eof_reached ==> {
                &&& r.1 is Key
                &&& r.0 == s.with_preview(PreviewView { scroll_offset: n, ..p })
                &&& p.total_lines_loaded > 0 ==> n == p.total_lines_loaded - 1
                &&& p.total_lines_loaded == 0 ==> n == 0
            }
        }),
{
}

/// A line is shown without its line feed, and without a carriage return before that;
/// a line that has no line feed is shown whole.
pub proof fn law_line_ends(line: Seq<char>)
    ensures
        !line.contains('\n') ==> without_newline(line) == line,
        line.len() == 0 || line.last() != '\r' ==> without_newline(line.push('\n')) == line,
        without_newline(line.push('\r').push('\n')) == line,
{
    assert(line.push('\n').drop_last() =~= line);
    assert(line.push('\r').push('\n').drop_last() =~= line.push('\r'));
    assert(line.push('\r').drop_last() =~= line);
    if line.len() > 0 {
        assert(line.contains(line.last()));
    }
}

/// A file is previewed under its own path, with the size and the access time that
/// were given, as what its first bytes tell; one of which nothing can be read is told
/// to be unreadable, and is never shown as text.
pub proof fn law_previewing(
    path: Seq<char>,
    size: i64,
    atime: i64,
    sniff: Seq<u8>,
    magic: Option<(Seq<char>, Seq<char>)>,
)
    ensures
        ({
            let p = PreviewView::sniffed(path, size, atime, sniff, magic);
            &&& p.path == path
            &&& p.size == size
            &&& p.atime == atime
            &&& p.lines.len() == 0
            &&& p.first_line_number == 0
            &&& p.total_lines_loaded == 0
            &&& p.file_offset == 0
            &&& p.scroll_offset == 0
            &&& p.eof_reached == !p.is_text
            &&& sniff.len() == 0 ==> p.type_description == "(unreadable)"@ && !p.is_text
            &&& sniff.len() > 0 ==> (p.type_description, p.is_text) == content_kind(
                sniff,
                path,
                magic,
            )
        }),
{
}

/// The type of a file is yellow, its size green and its last access cyan, in the pane
/// and over the list; its lines are plain, and what is said of a binary file, or of
/// how far down a text is, is gray.
pub proof fn law_inks_of_file(
    p: PreviewView,
    size: Seq<char>,
    now: i64,
    inner_height: int,
    inner: Area,
    k: int,
)
    requires
        p.wf(),
    ensures
        ({
            let r = p.pane_lines(size, now, inner_height);
            let o = p.overlay_lines(size, now, inner);
            &&& r[0].ink.hue == Hue::Yellow && o[0].ink.hue == Hue::Yellow
            &&& r[1].ink.hue == Hue::Green && o[1].ink.hue == Hue::Green
            &&& r[2].ink.hue == Hue::Cyan && o[2].ink.hue == Hue::Cyan
            &&& !p.is_text ==> r[4].ink.hue == Hue::Gray && r[4].ink.weight == Weight::Italic
                && o[4].ink == r[4].ink
            &&& p.is_text && 4 <= k < o.len() ==> o[k].ink.hue == Hue::Plain && o[k].ink.weight
                == Weight::Normal
            &&& p.is_text && p.lines.len() > 0 && p.total_lines_loaded <= room_below_header(
                inner_height,
            ) && 4 <= k < r.len() ==> r[k].ink.hue == Hue::Plain
            &&& p.is_text && p.lines.len() > 0 && p.total_lines_loaded > room_below_header(
                inner_height,
            ) ==> r.last().ink.hue == Hue::Gray && (4 <= k < r.len() - 1 ==> r[k].ink.hue
                == Hue::Plain)
        }),
{
}

} // verus!
