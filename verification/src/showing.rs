//! What the screen shows: each row of its own entry, each pane of its own column,
//! and where the browser is.

use vstd::prelude::*;

use crate::app::{AppView, ColumnView, ViewMode};
use crate::entry::{sort_label, EntryView, SortMode};
use crate::filters::{prompt_text, InputMode};
use crate::format::{atime_text, file_count_text};
use crate::layout::{
    can_split, centered, column_parts, divided, middle_parts, pane_count, panes_shown,
    panes_wanted, screen_divided, screen_parts, Area, Axis, Part,
};
use crate::render::{BodyView, CaptionsView, Hue, Ink, Weight};
use crate::status::{breadcrumb, sort_choices, Frame};
use crate::table::{fitted, rows, table, widest, CaptionView, Shape};
use crate::text::{byte_len, left_aligned, right_aligned};

verus! {

/// Text with spaces behind it begins with the text, and text with spaces before it
/// ends with the text; both take the width, or the text alone where that is longer.
pub proof fn law_aligning(s: Seq<char>, width: nat)
    ensures
        ({
            let l = left_aligned(s, width as int);
            let r = right_aligned(s, width as int);
            let n = if width > s.len() {
                width
            } else {
                s.len()
            };
            &&& l.len() == n
            &&& r.len() == n
            &&& l.take(s.len() as int) == s
            &&& r.skip(n - s.len()) == s
            &&& forall|i: int| s.len() <= i < n ==> l[i] == ' '
            &&& forall|i: int| 0 <= i < n - s.len() ==> r[i] == ' '
        }),
{
    let l = left_aligned(s, width as int);
    let r = right_aligned(s, width as int);
    assert(l.take(s.len() as int) =~= s);
    assert(r.skip(r.len() - s.len()) =~= s);
}

/// The widths of the columns of a table: enough for every cell, and for the least.
pub open spec fn wide_enough(cells: Seq<Seq<char>>, least: nat, width: nat) -> bool {
    &&& least <= width
    &&& forall|i: int| 0 <= i < cells.len() ==> byte_len(#[trigger] cells[i]) <= width
    &&& width == least || exists|i: int| 0 <= i < cells.len() && byte_len(cells[i]) == width
}

/// A column is just wide enough.
pub proof fn law_width(cells: Seq<Seq<char>>, least: nat)
    ensures
        wide_enough(cells, least, widest(cells, least)),
    decreases cells.len(),
{
    if cells.len() > 0 {
        let t = cells.drop_last();
        law_width(t, least);
        let w = widest(cells, least);
        assert forall|i: int| 0 <= i < cells.len() implies byte_len(#[trigger] cells[i]) <= w by {
            if i < t.len() {
                assert(byte_len(t[i]) <= widest(t, least));
            }
        }
        if w != least {
            if byte_len(cells.last()) == w {
                assert(byte_len(cells[cells.len() - 1]) == w);
            } else {
                let i = choose|i: int| 0 <= i < t.len() && byte_len(t[i]) == w;
                assert(byte_len(cells[i]) == w);
            }
        }
    }
}

/// Whether an entry is shown as the way up, with nothing beside its name.
pub open spec fn is_way_up(e: EntryView, shape: Shape) -> bool {
    shape == Shape::List && e.name == ".."@
}

/// What a row shows of its entry, between its columns: the name behind the mark of a
/// directory, of the way up or of a file, then its own size, its own file count and
/// its own last access, each at the right of its column.
pub open spec fn row_of(
    e: EntryView,
    c: CaptionView,
    now: i64,
    shape: Shape,
    room: int,
    size_width: nat,
    count_width: nat,
    age_width: nat,
) -> Seq<char> {
    let mark = if is_way_up(e, shape) {
        "◂ "@
    } else if e.is_dir {
        "▸ "@
    } else {
        "  "@
    };
    let size = if is_way_up(e, shape) {
        Seq::empty()
    } else {
        c.size
    };
    let count = if is_way_up(e, shape) {
        Seq::empty()
    } else {
        file_count_text(e.file_count as int, c.scaled_count)
    };
    let age = if is_way_up(e, shape) {
        Seq::empty()
    } else {
        atime_text(e.latest_atime as int, now as int)
    };
    left_aligned(fitted(mark + e.name, room, shape), room) + "  "@ + right_aligned(
        size,
        size_width as int,
    ) + "  "@ + right_aligned(count, count_width as int) + "  "@ + right_aligned(
        age,
        age_width as int,
    )
}

/// Row `i` is the row of entry `i`, with the caption of that entry and no other. The
/// columns are as wide in one row as in any other.
pub proof fn law_row_of_its_entry(
    entries: Seq<EntryView>,
    captions: Seq<CaptionView>,
    now: i64,
    width: u16,
    shape: Shape,
    i: int,
)
    requires
        0 <= i < entries.len(),
    ensures
        ({
            let t = table(entries, captions, now, shape);
            let (sw, cw, aw) = t.widths(shape);
            rows(entries, captions, now, width, shape)[i] == row_of(
                entries[i],
                captions[i],
                now,
                shape,
                t.name_room(width, shape),
                sw,
                cw,
                aw,
            )
        }),
        rows(entries, captions, now, width, shape).len() == entries.len(),
{
}

proof fn lemma_same_width(a: Seq<Seq<char>>, b: Seq<Seq<char>>, least: nat)
    requires
        a.len() == b.len(),
        forall|i: int| 0 <= i < a.len() ==> byte_len(#[trigger] a[i]) == byte_len(b[i]),
    ensures
        widest(a, least) == widest(b, least),
    decreases a.len(),
{
    if a.len() > 0 {
        assert forall|i: int| 0 <= i < a.drop_last().len() implies byte_len(
            #[trigger] a.drop_last()[i],
        ) == byte_len(b.drop_last()[i]) by {
            assert(byte_len(a[i]) == byte_len(b[i]));
        }
        lemma_same_width(a.drop_last(), b.drop_last(), least);
        assert(byte_len(a[a.len() - 1]) == byte_len(b[b.len() - 1]));
    }
}

/// Another size for one entry, of the same length, changes the row of that entry and
/// of no other: there the new size stands where the old one stood.
pub proof fn law_size_in_its_own_row(
    entries: Seq<EntryView>,
    captions: Seq<CaptionView>,
    now: i64,
    width: u16,
    shape: Shape,
    j: int,
    size: Seq<char>,
)
    requires
        captions.len() == entries.len(),
        0 <= j < entries.len(),
        byte_len(size) == byte_len(captions[j].size),
    ensures
        ({
            let other = captions.update(
                j,
                CaptionView { size, scaled_count: captions[j].scaled_count },
            );
            let a = rows(entries, captions, now, width, shape);
            let b = rows(entries, other, now, width, shape);
            &&& forall|i: int| 0 <= i < entries.len() && i != j ==> a[i] == b[i]
            &&& !is_way_up(entries[j], shape) && size.len() == captions[j].size.len() && size
                != captions[j].size ==> a[j] != b[j]
        }),
{
    let other = captions.update(j, CaptionView { size, scaled_count: captions[j].scaled_count });
    let t = table(entries, captions, now, shape);
    let u = table(entries, other, now, shape);
    lemma_same_width(t.sizes, u.sizes, crate::table::least_widths(shape).0);
    assert(t.counts =~= u.counts);
    assert(t.ages =~= u.ages);
    assert(t.names =~= u.names);
    let a = rows(entries, captions, now, width, shape);
    let b = rows(entries, other, now, width, shape);
    if a[j] == b[j] && !is_way_up(entries[j], shape) && size.len() == captions[j].size.len() {
        let sw = t.widths(shape).0 as int;
        let room = t.name_room(width, shape);
        let head = left_aligned(fitted(t.names[j], room, shape), room) + "  "@;
        let x = right_aligned(captions[j].size, sw);
        let y = right_aligned(size, sw);
        assert(x.len() == y.len());
        let n = head.len() as int;
        let m = n + x.len();
        assert(x =~= a[j].subrange(n, m));
        assert(y =~= b[j].subrange(n, m));
        law_aligning(size, sw as nat);
        law_aligning(captions[j].size, sw as nat);
    }
}

/// The columns of a table are just wide enough for what they show, and for 10, 8 and
/// 12 characters in the list, or 6 each in a column of the tree. The names have the
/// rest of the width, less two cells for the border, two for the mark of the
/// selection, and two before each of the other columns.
pub proof fn law_table_widths(
    entries: Seq<EntryView>,
    captions: Seq<CaptionView>,
    now: i64,
    width: u16,
    shape: Shape,
)
    ensures
        ({
            let t = table(entries, captions, now, shape);
            let (sw, cw, aw) = t.widths(shape);
            let room = t.name_room(width, shape);
            let sizes = Seq::new(
                entries.len(),
                |i: int|
                    if is_way_up(entries[i], shape) {
                        Seq::empty()
                    } else {
                        captions[i].size
                    },
            );
            let counts = Seq::new(
                entries.len(),
                |i: int|
                    if is_way_up(entries[i], shape) {
                        Seq::empty()
                    } else {
                        file_count_text(entries[i].file_count as int, captions[i].scaled_count)
                    },
            );
            let ages = Seq::new(
                entries.len(),
                |i: int|
                    if is_way_up(entries[i], shape) {
                        Seq::empty()
                    } else {
                        atime_text(entries[i].latest_atime as int, now as int)
                    },
            );
            &&& shape == Shape::List ==> wide_enough(sizes, 10, sw) && wide_enough(counts, 8, cw)
                && wide_enough(ages, 12, aw)
            &&& shape == Shape::Column ==> wide_enough(sizes, 6, sw) && wide_enough(counts, 6, cw)
                && wide_enough(ages, 6, aw)
            &&& room >= 0
            &&& room > 0 ==> 2 + 2 + room + 2 + sw + 2 + cw + 2 + aw == width
            &&& room == 0 ==> 2 + 2 + 2 + sw + 2 + cw + 2 + aw >= width
        }),
{
    let t = table(entries, captions, now, shape);
    let sizes = Seq::new(
        entries.len(),
        |i: int|
            if is_way_up(entries[i], shape) {
                Seq::empty()
            } else {
                captions[i].size
            },
    );
    let counts = Seq::new(
        entries.len(),
        |i: int|
            if is_way_up(entries[i], shape) {
                Seq::empty()
            } else {
                file_count_text(entries[i].file_count as int, captions[i].scaled_count)
            },
    );
    let ages = Seq::new(
        entries.len(),
        |i: int|
            if is_way_up(entries[i], shape) {
                Seq::empty()
            } else {
                atime_text(entries[i].latest_atime as int, now as int)
            },
    );
    assert(t.sizes =~= sizes);
    assert(t.counts =~= counts);
    assert(t.ages =~= ages);
    let (a, b, c) = crate::table::least_widths(shape);
    law_width(sizes, a);
    law_width(counts, b);
    law_width(ages, c);
}

/// The pane of the list shows a row for each entry, and the selection. Its title is
/// the partition with the path below its root, or says that partitions are shown;
/// behind it stands whether the list is being loaded, and the filters.
pub proof fn law_list_pane(
    s: AppView,
    captions: CaptionsView,
    now: i64,
    area: Area,
    below: Seq<char>,
)
    requires
        s.current_path == s.partition_root + below,
    ensures
        ({
            let p = s.list_pane(captions, now, area);
            let behind = (if s.loading {
                " (loading...)"@
            } else {
                ""@
            }) + (if captions.filters.len() > 0 {
                " "@ + captions.filters
            } else {
                Seq::empty()
            }) + " "@;
            &&& p.area == area
            &&& p.body == (BodyView::Rows {
                rows: rows(s.entries, captions.list, now, area.width, Shape::List),
                selected: s.selected,
            })
            &&& s.current_partition matches Some(partition) ==> p.title == " "@ + partition + below
                + behind
            &&& s.current_partition is None ==> p.title == " Partitions"@ + behind
        }),
{
    assert(s.current_path.skip(s.partition_root.len() as int) =~= below);
    let p = s.list_pane(captions, now, area);
    let behind = (if s.loading {
        " (loading...)"@
    } else {
        ""@
    }) + (if captions.filters.len() > 0 {
        " "@ + captions.filters
    } else {
        Seq::empty()
    }) + " "@;
    if let Some(partition) = s.current_partition {
        assert(p.title =~= " "@ + partition + below + behind);
    } else {
        assert(p.title =~= " Partitions"@ + behind);
    }
}

/// The panes of the tree stand side by side, each in the area of its own: the one in
/// area `k` is that of the `k`-th column behind the first one shown, with its title,
/// its rows and its selection, and behind the last column that of the previewed
/// file. The active column is blue, what is beside it cyan, and the others gray.
pub proof fn law_tree_panes(
    s: AppView,
    captions: CaptionsView,
    now: i64,
    width: u16,
    areas: Seq<Area>,
    k: int,
)
    requires
        0 <= k < areas.len(),
    ensures
        ({
            let i = s.tree_start(width) + k;
            let p = s.tree_panes(captions, now, width, areas)[k];
            &&& s.tree_panes(captions, now, width, areas).len() == areas.len()
            &&& p.area == areas[k]
            &&& i < s.columns.len() ==> {
                &&& p.title == " "@ + s.columns[i].title + " "@
                &&& p.body == (BodyView::Rows {
                    rows: rows(
                        s.columns[i].entries,
                        captions.columns[i],
                        now,
                        areas[k].width,
                        Shape::Column,
                    ),
                    selected: s.columns[i].selected,
                })
                &&& i == s.active_column ==> p.border == Hue::Blue && p.title_ink == (Ink {
                    hue: Hue::Blue,
                    weight: Weight::Bold,
                })
                &&& i == s.active_column + 1 ==> p.border == Hue::Cyan
                &&& i != s.active_column && i != s.active_column + 1 ==> p.border == Hue::Gray
                &&& i != s.active_column ==> p.title_ink == (Ink {
                    hue: Hue::Gray,
                    weight: Weight::Normal,
                })
            }
            &&& i >= s.columns.len() ==> p == s.file_pane(captions, now, areas[k])
        }),
{
}

/// The pane of the previewed file is named like the file, and shows it as high as
/// the pane is within its border. It is blue while the keyboard pages through it,
/// and cyan before that.
pub proof fn law_file_pane(s: AppView, captions: CaptionsView, now: i64, area: Area)
    requires
        s.file_preview is Some,
    ensures
        ({
            let p = s.file_pane(captions, now, area);
            let f = s.file_preview->0;
            let high = if area.height > 2 {
                area.height - 2
            } else {
                0
            };
            &&& p.area == area
            &&& p.title == " "@ + crate::text::after_last(f.path, '/') + " "@
            &&& p.body == (BodyView::Lines { lines: f.pane_lines(captions.file_size, now, high) })
            &&& s.preview_focused ==> p.border == Hue::Blue && p.title_ink == (Ink {
                hue: Hue::Blue,
                weight: Weight::Bold,
            })
            &&& !s.preview_focused ==> p.border == Hue::Cyan && p.title_ink == (Ink {
                hue: Hue::Cyan,
                weight: Weight::Normal,
            })
        }),
{
}

/// Over the list lies the pane of the file that was opened, named like the file and
/// cut to its area within the border, and nothing where none was opened.
pub proof fn law_overlay_pane(s: AppView, captions: CaptionsView, now: i64, overlay: Area)
    ensures
        ({
            let panes = s.overlay_panes(captions, now, overlay);
            &&& s.list_preview is None ==> panes.len() == 0
            &&& s.list_preview matches Some(f) ==> {
                &&& panes.len() == 1
                &&& panes[0].area == overlay
                &&& panes[0].title == " "@ + crate::text::after_last(f.path, '/') + " "@
                &&& panes[0].border == Hue::Cyan
                &&& panes[0].body == (BodyView::Lines {
                    lines: f.overlay_lines(
                        captions.overlay_size,
                        now,
                        crate::layout::bordered(overlay),
                    ),
                })
            }
        }),
{
}

/// The screen holds the list with a file over it, or the tree, in the content, and
/// the status in the bar.
pub proof fn law_scene(s: AppView, captions: CaptionsView, now: i64, frame: Frame)
    ensures
        ({
            let r = s.scene(captions, now, frame);
            &&& r.status_area == frame.bar
            &&& r.status.text == s.status_text(captions, now)
            &&& s.view_mode == ViewMode::List ==> {
                &&& r.panes.len() > 0
                &&& r.panes[0] == s.list_pane(captions, now, frame.content)
                &&& r.panes.skip(1) == s.overlay_panes(captions, now, frame.overlay)
            }
            &&& s.view_mode == ViewMode::Tree ==> r.panes == s.tree_panes(
                captions,
                now,
                frame.content.width,
                frame.columns,
            )
        }),
{
    let r = s.scene(captions, now, frame);
    if s.view_mode == ViewMode::List {
        assert(r.panes.skip(1) =~= s.overlay_panes(captions, now, frame.overlay));
    }
}

/// The titles of the columns up to the active one are joined in their order.
pub proof fn law_breadcrumb(columns: Seq<ColumnView>, n: nat)
    ensures
        breadcrumb(columns, 1) == columns[0].title,
        n > 0 ==> breadcrumb(columns, n + 1) == breadcrumb(columns, n) + " > "@
            + columns[n as int].title,
{
}

/// What the status bar says while keys move: in the list the last status, in the
/// tree the titles up to the active column and the size, the file count and the
/// last access of the entry that is selected there; then the filters, the order and
/// the view.
pub proof fn law_status_of_moving(s: AppView, captions: CaptionsView, now: i64)
    requires
        s.wf(),
        s.input_mode == InputMode::Normal,
        !s.preview_focused,
    ensures
        ({
            let c = s.columns[s.active_column];
            let crumbs = breadcrumb(s.columns, (s.active_column + 1) as nat);
            let in_tree = s.view_mode == ViewMode::Tree && s.columns.len() > 0;
            let i = c.selected->0 as int;
            let where_it_is = if !in_tree {
                s.status
            } else if c.selected is Some && i < c.entries.len() {
                crumbs + " │ "@ + captions.columns[s.active_column][i].size + " │ "@
                    + file_count_text(
                    c.entries[i].file_count as int,
                    captions.columns[s.active_column][i].scaled_count,
                ) + " │ "@ + atime_text(c.entries[i].latest_atime as int, now as int)
            } else {
                crumbs
            };
            let filters = if captions.filters.len() > 0 {
                " "@ + captions.filters
            } else {
                Seq::empty()
            };
            let view = if s.view_mode == ViewMode::List {
                "list"@
            } else {
                "tree"@
            };
            s.status_text(captions, now) == " "@ + where_it_is + filters + " │ sort:"@ + sort_label(
                s.sort_mode,
            ) + " mode:"@ + view
                + " │ q:quit jk↑↓:nav ←→:cd /:pattern s:sort t:mode c:clear"@
        }),
{
}

/// What the status bar says while something else has the keyboard: the prompt and
/// what was entered, the orders to choose from, or the file that is looked at.
pub proof fn law_status_of_entering(s: AppView, captions: CaptionsView, now: i64)
    requires
        s.wf(),
    ensures
        s.input_mode.is_entry() ==> s.status_text(captions, now) == " "@ + prompt_text(s.input_mode)
            + s.input_buffer,
        s.input_mode == InputMode::SortSelect ==> s.status_text(captions, now) == " Sort: "@
            + sort_choices(7, s.pending_sort)
            + "  (s/→:next  ←:prev  Enter:apply  Esc:cancel)"@,
        s.input_mode == InputMode::ListPreview ==> s.status_text(captions, now) == " "@
            + crate::text::after_last(s.list_preview->0.path, '/') + " │ "@
            + s.list_preview->0.type_description + " │ Esc/Space: close"@,
        s.preview_focused ==> s.status_text(captions, now) == " ▶ "@ + crate::text::after_last(
            s.file_preview->0.path,
            '/',
        ) + " │ "@ + s.file_preview->0.type_description
            + " │ jk↑↓:scroll d/u:page g/G:top/bottom Esc/←/q/␣:back"@,
{
}

/// The orders to choose from stand in their cycle, and the one that is chosen, and
/// no other, between marks.
pub proof fn law_sort_choices(chosen: SortMode)
    ensures
        sort_choices(7, chosen) == choice_text(SortMode::Name, "name"@, chosen) + choice_text(
            SortMode::SizeDesc,
            "size-desc"@,
            chosen,
        ) + choice_text(SortMode::SizeAsc, "size-asc"@, chosen) + choice_text(
            SortMode::CountDesc,
            "count-desc"@,
            chosen,
        ) + choice_text(SortMode::CountAsc, "count-asc"@, chosen) + choice_text(
            SortMode::AgeDesc,
            "age-desc"@,
            chosen,
        ) + choice_text(SortMode::AgeAsc, "age-asc"@, chosen),
{
    reveal_with_fuel(sort_choices, 8);
    let a = choice_text(SortMode::Name, "name"@, chosen);
    assert(sort_choices(1, chosen) =~= a);
}

/// An order between marks where it is the chosen one, and between spaces otherwise.
pub open spec fn choice_text(mode: SortMode, label: Seq<char>, chosen: SortMode) -> Seq<char> {
    if mode == chosen {
        "▶ "@ + label + " ◀"@
    } else {
        "  "@ + label + "  "@
    }
}

/// The orders are called as on the command line.
pub proof fn law_sort_labels(mode: SortMode)
    ensures
        sort_label(mode) == match mode {
            SortMode::Name => "name"@,
            SortMode::SizeDesc => "size-desc"@,
            SortMode::SizeAsc => "size-asc"@,
            SortMode::CountDesc => "count-desc"@,
            SortMode::CountAsc => "count-asc"@,
            SortMode::AgeDesc => "age-desc"@,
            SortMode::AgeAsc => "age-asc"@,
        },
{
}

/// As many panes of the tree are shown as there are, but no more than five, and no
/// more than have twenty cells each; at least one.
pub proof fn law_panes_shown(panes: int, width: u16)
    requires
        panes >= 1,
    ensures
        ({
            let n = panes_shown(panes, width);
            &&& 1 <= n <= panes
            &&& n <= 5
            &&& n > 1 ==> n * 20 <= width
            &&& n < panes && n < 5 ==> (n + 1) * 20 > width
        }),
{
}

/// The previewed file is a pane behind the columns, and what is beside the active
/// column is wanted with it.
pub proof fn law_panes_wanted(columns: int, active: int, file: bool)
    requires
        0 <= active < columns,
    ensures
        pane_count(columns, file) == columns + (if file {
            1int
        } else {
            0
        }),
        panes_wanted(columns, active, file) == (if file || active + 1 < columns {
            2int
        } else {
            1
        }),
{
}

/// The parts that the screen is divided into: the content above one line of status;
/// for what lies in the middle, equal margins on both sides that leave so many
/// hundredths; for the columns of the tree, equal parts of the whole.
pub proof fn law_parts(percent: int, count: int, i: int)
    requires
        0 <= percent <= 100,
        0 <= i < count <= 5,
    ensures
        screen_parts() == seq![Part::Min(1), Part::Length(1)],
        middle_parts(percent).len() == 3,
        middle_parts(percent)[0] == middle_parts(percent)[2],
        middle_parts(percent)[1] == Part::Percentage(percent as u16),
        middle_parts(percent)[0] matches Part::Percentage(margin) && 99 <= percent + 2 * margin
            <= 100,
        column_parts(count).len() == count,
        column_parts(count)[i] == Part::Ratio(1, count as u32),
{
}

/// The status bar is dim while keys move, bold while something else has the keyboard,
/// and yellow while an order is chosen.
pub proof fn law_status_ink(s: AppView, captions: CaptionsView, now: i64)
    ensures
        ({
            let i = s.status_line(captions, now).ink;
            &&& i.hue == Hue::Yellow <==> s.input_mode == InputMode::SortSelect
            &&& i.weight == Weight::Dim <==> s.input_mode == InputMode::Normal
            &&& i.weight == Weight::Bold <==> s.input_mode != InputMode::Normal
            &&& s.input_mode != InputMode::SortSelect ==> i.hue == Hue::Plain
        }),
{
}

/// The screen can be shown wherever every entry on it has a caption and an age that is
/// not before the epoch, and so has a file that is shown.
pub proof fn law_can_show(s: AppView, captions: CaptionsView, width: u16)
    requires
        s.wf(),
        captions.list.len() == s.entries.len(),
        captions.columns.len() == s.columns.len(),
        forall|i: int|
            0 <= i < s.columns.len() ==> (#[trigger] captions.columns[i]).len()
                == s.columns[i].entries.len(),
        forall|i: int| 0 <= i < s.entries.len() ==> (#[trigger] s.entries[i]).latest_atime >= 0,
        forall|i: int, j: int|
            0 <= i < s.columns.len() && 0 <= j < s.columns[i].entries.len() ==> (
            #[trigger] s.columns[i].entries[j]).latest_atime >= 0,
        s.file_preview matches Some(p) ==> p.atime >= 0,
        s.list_preview matches Some(p) ==> p.atime >= 0,
    ensures
        s.can_show_scene(captions, width),
{
    if s.columns.len() > 0 {
        crate::layout::law_active_column_shown(
            s.columns.len() as int,
            s.active_column,
            s.file_preview is Some,
            width,
        );
    }
    assert forall|i: int|
        s.tree_start(width) <= i < s.tree_start(width) + s.tree_count(
            width,
        ) implies #[trigger] s.can_show_pane(captions, i) by {
        if i < s.columns.len() {
            assert(captions.columns[i].len() == s.columns[i].entries.len());
            assert forall|j: int| 0 <= j < s.columns[i].entries.len() implies crate::table::has_age(
                #[trigger] s.columns[i].entries[j],
                Shape::Column,
            ) by {}
        }
    }
    if s.columns.len() > 0 {
        assert(captions.columns[s.active_column].len() == s.columns[s.active_column].entries.len());
    }
}

/// The content is the first of the parts of the screen and the status bar the second,
/// and what lies in the middle is the second of three parts each way.
pub proof fn law_places_on_screen(
    area: Area,
    content: Area,
    bar: Area,
    percent_x: int,
    percent_y: int,
    middle: Area,
)
    ensures
        screen_divided(area, content, bar) ==> exists|parts: Seq<Area>| #[trigger]
            can_split(Axis::Down, screen_parts(), area, parts) && parts.len() == 2 && content
                == parts[0] && bar == parts[1],
        centered(percent_x, percent_y, area, middle) ==> exists|high: Seq<Area>, wide: Seq<Area>| #[trigger]
            can_split(Axis::Down, middle_parts(percent_y), area, high) && #[trigger] can_split(
                Axis::Across,
                middle_parts(percent_x),
                high[1],
                wide,
            ) && middle == wide[1],
{
    if screen_divided(area, content, bar) {
        let parts = choose|areas: Seq<Area>| #[trigger]
            divided(Axis::Down, screen_parts(), area, areas) && content == areas[0] && bar
                == areas[1];
        assert(can_split(Axis::Down, screen_parts(), area, parts));
    }
    if centered(percent_x, percent_y, area, middle) {
        let (high, wide): (Seq<Area>, Seq<Area>) = choose|rows: Seq<Area>, columns: Seq<Area>|
            #![trigger divided(Axis::Down, middle_parts(percent_y), area, rows), divided(Axis::Across, middle_parts(percent_x), rows[1], columns)]
            divided(Axis::Down, middle_parts(percent_y), area, rows) && divided(
                Axis::Across,
                middle_parts(percent_x),
                rows[1],
                columns,
            ) && middle == columns[1];
        assert(can_split(Axis::Down, middle_parts(percent_y), area, high));
        assert(can_split(Axis::Across, middle_parts(percent_x), high[1], wide));
    }
}

/// Each filter has a prompt of its own, and nothing else has one.
pub proof fn law_prompts(mode: InputMode)
    ensures
        prompt_text(mode) == match mode {
            InputMode::Pattern => "Pattern (glob): "@,
            InputMode::OlderThan => "Older than (days): "@,
            InputMode::NewerThan => "Newer than (days): "@,
            InputMode::MinSize => "Min size (e.g., 1M): "@,
            InputMode::MaxSize => "Max size (e.g., 1G): "@,
            _ => ""@,
        },
{
}

} // verus!
