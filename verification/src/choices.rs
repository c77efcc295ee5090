//! What choosing an order and entering filters comes to: a load of what is shown,
//! with the order and the filters that were chosen.

use vstd::prelude::*;

use crate::app::{AppView, LandingView, PendingView, Reply, RequestView, ViewMode};
use crate::entry::SortMode;
use crate::filters::{FiltersView, InputMode};
use crate::keys::Key;
use crate::text::{decimal, parsed_u64, trim};
use crate::wording::law_parse_decimal;

verus! {

/// Whether `after` and `request` are a load of what `before` shows: in the tree of
/// all of it, from the partitions on; in the list of the place where it stands, with
/// the selection kept.
pub open spec fn loads_again(before: AppView, after: AppView, request: RequestView) -> bool {
    &&& after.view_mode == before.view_mode
    &&& after.current_partition == before.current_partition
    &&& after.partition_root == before.partition_root
    &&& after.current_path == before.current_path
    &&& match before.view_mode {
        ViewMode::Tree => {
            &&& request is Partitions
            &&& after.columns.len() == 0
            &&& after.pending == (PendingView::TreePartitions { from_list: false })
        },
        ViewMode::List => {
            &&& after.loading
            &&& after.selected == before.selected
            &&& after.pending == PendingView::Partitions(LandingView::Keep) || after.pending
                == PendingView::PathRange(LandingView::Keep) || after.pending
                == PendingView::Directory(LandingView::Keep)
            &&& match before.current_partition {
                None => request is Partitions && after.entries.len() == 0,
                Some(p) => if before.partition_root.len() > 0 {
                    request == (RequestView::Directory { partition: p, path: before.current_path })
                } else {
                    request == (RequestView::PathRange { partition: p })
                },
            }
        },
    }
}

/// A load asks for something, and never for a key.
pub proof fn law_loads_ask(before: AppView, after: AppView, request: RequestView)
    requires
        loads_again(before, after, request),
    ensures
        request is Partitions || request is PathRange || request is Directory,
        !(request is Key),
{
}

/// The key `s` begins to choose an order, with the present one; nothing else
/// changes.
pub proof fn law_choosing_begins(s: AppView, now: i64)
    requires
        s.at_rest(),
    ensures
        s.pressed(Key::Char('s'), now) == (
            AppView { input_mode: InputMode::SortSelect, pending_sort: s.sort_mode, ..s },
            RequestView::Key,
        ),
{
}

/// While an order is chosen, Down, `j`, `s` and Right go on to the next, and Up, `k`
/// and Left back to the one before, round a cycle that begins with the name and
/// goes by size, count and age, each falling and then rising. A step on and a step
/// back lead to the same order, and nothing but the choice changes.
pub proof fn law_choosing(s: AppView, on: Key, back: Key, now: i64)
    requires
        s.wf(),
        s.pending is Idle,
        s.input_mode == InputMode::SortSelect,
        on == Key::Down || on == Key::Char('j') || on == Key::Char('s') || on == Key::Right,
        back == Key::Up || back == Key::Char('k') || back == Key::Left,
    ensures
        ({
            let r = s.pressed(on, now);
            let l = s.pressed(back, now);
            &&& r.1 is Key
            &&& l.1 is Key
            &&& r.0 == (AppView { pending_sort: r.0.pending_sort, ..s })
            &&& l.0 == (AppView { pending_sort: l.0.pending_sort, ..s })
            &&& r.0.pressed(back, now).0 == s
            &&& l.0.pressed(on, now).0 == s
            &&& r.0.pending_sort == match s.pending_sort {
                SortMode::Name => SortMode::SizeDesc,
                SortMode::SizeDesc => SortMode::SizeAsc,
                SortMode::SizeAsc => SortMode::CountDesc,
                SortMode::CountDesc => SortMode::CountAsc,
                SortMode::CountAsc => SortMode::AgeDesc,
                SortMode::AgeDesc => SortMode::AgeAsc,
                SortMode::AgeAsc => SortMode::Name,
            }
        }),
{
}

/// Enter and Space take the chosen order, and what is shown is loaded again in it.
pub proof fn law_choosing_ends(s: AppView, key: Key, now: i64)
    requires
        s.wf(),
        s.pending is Idle,
        s.input_mode == InputMode::SortSelect,
        key == Key::Enter || key == Key::Char(' '),
    ensures
        ({
            let r = s.pressed(key, now);
            &&& r.0.sort_mode == s.pending_sort
            &&& r.0.input_mode == InputMode::Normal
            &&& r.0.filters == s.filters
            &&& loads_again(s, r.0, r.1)
        }),
{
}

/// The keys `/`, `o`, `n`, `>` and `<` begin to enter a pattern, a least and a
/// greatest age, and a least and a greatest size, with no text; nothing else
/// changes.
pub proof fn law_entry_begins(s: AppView, key: Key, now: i64)
    requires
        s.at_rest(),
        key == Key::Char('/') || key == Key::Char('o') || key == Key::Char('n') || key == Key::Char(
            '>',
        ) || key == Key::Char('<'),
    ensures
        ({
            let r = s.pressed(key, now);
            &&& r.1 is Key
            &&& r.0 == (AppView {
                input_mode: r.0.input_mode,
                input_buffer: Seq::empty(),
                ..s
            })
            &&& key == Key::Char('/') ==> r.0.input_mode == InputMode::Pattern
            &&& key == Key::Char('o') ==> r.0.input_mode == InputMode::OlderThan
            &&& key == Key::Char('n') ==> r.0.input_mode == InputMode::NewerThan
            &&& key == Key::Char('>') ==> r.0.input_mode == InputMode::MinSize
            &&& key == Key::Char('<') ==> r.0.input_mode == InputMode::MaxSize
        }),
{
}

/// While a filter is entered, a character comes behind the text, and Backspace takes
/// the last one off again; nothing else changes.
pub proof fn law_typing(s: AppView, c: char, now: i64)
    requires
        s.wf(),
        s.pending is Idle,
        s.input_mode.is_entry(),
    ensures
        ({
            let r = s.pressed(Key::Char(c), now);
            &&& r == (AppView { input_buffer: s.input_buffer.push(c), ..s }, RequestView::Key)
            &&& r.0.pressed(Key::Backspace, now) == (s, RequestView::Key)
            &&& s.input_buffer.len() == 0 ==> s.pressed(Key::Backspace, now) == (
                s,
                RequestView::Key,
            )
        }),
{
    assert(s.input_buffer.push(c).drop_last() =~= s.input_buffer);
}

/// With no text entered, Enter takes the filter away that was being entered, leaves
/// the others, and loads again.
pub proof fn law_entering_nothing(s: AppView, now: i64)
    requires
        s.wf(),
        s.pending is Idle,
        s.input_mode.is_entry(),
        trim(s.input_buffer).len() == 0,
    ensures
        ({
            let r = s.pressed(Key::Enter, now);
            let f = s.filters;
            &&& s.input_mode == InputMode::Pattern ==> r.0.filters == (FiltersView {
                pattern: None,
                pattern_display: None,
                ..f
            })
            &&& s.input_mode == InputMode::OlderThan ==> r.0.filters == (FiltersView {
                older_than: None,
                ..f
            })
            &&& s.input_mode == InputMode::NewerThan ==> r.0.filters == (FiltersView {
                newer_than: None,
                ..f
            })
            &&& s.input_mode == InputMode::MinSize ==> r.0.filters == (FiltersView {
                min_size: None,
                ..f
            })
            &&& s.input_mode == InputMode::MaxSize ==> r.0.filters == (FiltersView {
                max_size: None,
                ..f
            })
            &&& r.0.sort_mode == s.sort_mode
            &&& r.0.input_mode == InputMode::Normal
            &&& loads_again(s, r.0, r.1)
        }),
{
}

/// With a number of days entered, Enter sets the age filter that was being entered
/// to the time that lies so many days before now, leaves the others, and loads
/// again. White space around the number does not matter.
pub proof fn law_entering_days(s: AppView, days: u64, now: i64)
    requires
        s.wf(),
        s.pending is Idle,
        s.input_mode == InputMode::OlderThan || s.input_mode == InputMode::NewerThan,
        trim(s.input_buffer) == decimal(days as nat),
        days <= 36500,
        now >= 0,
    ensures
        ({
            let r = s.pressed(Key::Enter, now);
            let f = s.filters;
            let g = r.0.filters;
            &&& s.input_mode == InputMode::OlderThan ==> g == (FiltersView {
                older_than: g.older_than,
                ..f
            }) && g.older_than is Some && g.older_than->0 + days * 24 * 60 * 60 == now
            &&& s.input_mode == InputMode::NewerThan ==> g == (FiltersView {
                newer_than: g.newer_than,
                ..f
            }) && g.newer_than is Some && g.newer_than->0 + days * 24 * 60 * 60 == now
            &&& r.0.sort_mode == s.sort_mode
            &&& r.0.input_mode == InputMode::Normal
            &&& loads_again(s, r.0, r.1)
        }),
{
    law_parse_decimal(days);
    assert(trim(s.input_buffer).len() > 0);
}

/// Days with a character among them that is no digit are refused: the status says
/// so, no filter changes, and nothing is loaded.
pub proof fn law_entering_no_days(s: AppView, i: int, now: i64)
    requires
        s.wf(),
        s.pending is Idle,
        s.input_mode == InputMode::OlderThan || s.input_mode == InputMode::NewerThan,
        0 <= i < trim(s.input_buffer).len(),
        !('0' <= trim(s.input_buffer)[i] <= '9'),
        i > 0 || trim(s.input_buffer)[i] != '+',
    ensures
        s.pressed(Key::Enter, now) == (
            AppView {
                status: "Invalid number: "@ + trim(s.input_buffer),
                input_mode: InputMode::Normal,
                input_buffer: Seq::empty(),
                ..s
            },
            RequestView::Key,
        ),
{
    let value = trim(s.input_buffer);
    if value[0] == '+' {
        assert(value.skip(1)[i - 1] == value[i]);
    }
    assert(parsed_u64(value) is None);
}

/// A pattern or a size that is entered is asked about first, without the white
/// space around it.
pub proof fn law_entering_text(s: AppView, now: i64)
    requires
        s.wf(),
        s.pending is Idle,
        s.input_mode == InputMode::Pattern || s.input_mode == InputMode::MinSize || s.input_mode
            == InputMode::MaxSize,
        trim(s.input_buffer).len() > 0,
    ensures
        ({
            let r = s.pressed(Key::Enter, now);
            &&& r.0.filters == s.filters
            &&& r.0.input_mode == s.input_mode
            &&& s.input_mode == InputMode::Pattern ==> r.1 == (RequestView::Glob {
                pattern: trim(s.input_buffer),
            })
            &&& s.input_mode != InputMode::Pattern ==> r.1 == (RequestView::Size {
                text: trim(s.input_buffer),
            })
        }),
{
}

/// The regular expression of an entered pattern becomes the filter, beside the
/// pattern as it was entered; the others stay, and what is shown is loaded again.
pub proof fn law_pattern_set(s: AppView, now: i64, reply: Reply)
    requires
        s.wf(),
        s.pending is Idle,
        s.input_mode == InputMode::Pattern,
        trim(s.input_buffer).len() > 0,
        reply is Glob,
        reply->Glob_error is None,
    ensures
        ({
            let r = s.pressed(Key::Enter, now).0.answered(reply);
            &&& r.0.filters == (FiltersView {
                pattern: Some(reply->regex@),
                pattern_display: Some(trim(s.input_buffer)),
                ..s.filters
            })
            &&& r.0.sort_mode == s.sort_mode
            &&& r.0.input_mode == InputMode::Normal
            &&& loads_again(s, r.0, r.1)
        }),
{
}

/// The number of an entered size becomes the filter that was being entered; the
/// others stay, and what is shown is loaded again.
pub proof fn law_size_set(s: AppView, now: i64, reply: Reply)
    requires
        s.wf(),
        s.pending is Idle,
        s.input_mode == InputMode::MinSize || s.input_mode == InputMode::MaxSize,
        trim(s.input_buffer).len() > 0,
        reply is Size,
        reply->Size_error is None,
    ensures
        ({
            let r = s.pressed(Key::Enter, now).0.answered(reply);
            &&& s.input_mode == InputMode::MinSize ==> r.0.filters == (FiltersView {
                min_size: Some(reply->size),
                ..s.filters
            })
            &&& s.input_mode == InputMode::MaxSize ==> r.0.filters == (FiltersView {
                max_size: Some(reply->size),
                ..s.filters
            })
            &&& r.0.sort_mode == s.sort_mode
            &&& r.0.input_mode == InputMode::Normal
            &&& loads_again(s, r.0, r.1)
        }),
{
}

/// The key `c` takes every filter away and loads again.
pub proof fn law_clearing(s: AppView, now: i64)
    requires
        s.at_rest(),
    ensures
        ({
            let r = s.pressed(Key::Char('c'), now);
            let f = r.0.filters;
            &&& f.pattern is None
            &&& f.pattern_display is None
            &&& f.older_than is None
            &&& f.newer_than is None
            &&& f.min_size is None
            &&& f.max_size is None
            &&& r.0.sort_mode == s.sort_mode
            &&& loads_again(s, r.0, r.1)
        }),
{
}

/// Filters are active as soon as one of them is set, and the text of a pattern alone
/// sets none.
pub proof fn law_active_filters(f: FiltersView)
    ensures
        f.active() <==> !(f.pattern is None && f.older_than is None && f.newer_than is None
            && f.min_size is None && f.max_size is None),
{
}

/// At the start of the program the partitions are asked for, or the paths of the
/// partition that it starts in; the order and the filters are those given.
pub proof fn law_starting(partition: Option<Seq<char>>, filters: FiltersView, sort_mode: SortMode)
    ensures
        ({
            let r = AppView::initial(partition, filters, sort_mode).list_load(LandingView::Start);
            &&& r.0.current_partition == partition
            &&& r.0.filters == filters
            &&& r.0.sort_mode == sort_mode
            &&& r.0.view_mode == ViewMode::List
            &&& r.0.input_mode == InputMode::Normal
            &&& r.0.loading
            &&& r.0.selected is None
            &&& r.0.entries.len() == 0
            &&& partition is None ==> r.1 is Partitions
            &&& partition is None ==> r.0.pending == PendingView::Partitions(LandingView::Start)
            &&& partition matches Some(p) ==> r.1 == (RequestView::PathRange { partition: p })
            &&& partition is Some ==> r.0.pending == PendingView::PathRange(LandingView::Start)
        }),
{
}

/// While an order is chosen or a filter is entered, the keys that have no meaning
/// there do nothing.
pub proof fn law_keys_without_meaning(s: AppView, key: Key, now: i64)
    requires
        s.wf(),
        s.pending is Idle,
        s.input_mode == InputMode::SortSelect ==> key == Key::Other || key == Key::Backspace || (
        key matches Key::Char(c) && c != ' ' && c != 'j' && c != 'k' && c != 's'),
        s.input_mode.is_entry() ==> key == Key::Other || key == Key::Up || key == Key::Down || key
            == Key::Left || key == Key::Right,
        s.input_mode == InputMode::SortSelect || s.input_mode.is_entry(),
    ensures
        s.pressed(key, now) == (s, RequestView::Key),
{
}

/// Every key can be taken but Enter and Right, and these too wherever there is
/// something to enter, or a number of days to confirm that lies in the last hundred
/// years.
pub proof fn law_keys_are_taken(s: AppView, key: Key, days: u64, now: i64)
    requires
        s.wf(),
        s.pending is Idle,
        key == Key::Enter || key == Key::Right ==> {
            ||| s.view_mode == ViewMode::Tree && s.input_mode == InputMode::Normal
            ||| s.input_mode == InputMode::Normal && (s.selected is None || s.selected->0
                < s.entries.len())
            ||| s.input_mode == InputMode::SortSelect || s.input_mode == InputMode::ListPreview
            ||| s.input_mode == InputMode::Pattern || s.input_mode == InputMode::MinSize
                || s.input_mode == InputMode::MaxSize
            ||| s.input_mode.is_entry() && now >= 0 && days <= 36500 && trim(s.input_buffer)
                == decimal(days as nat)
            ||| s.input_mode.is_entry() && trim(s.input_buffer).len() == 0
        },
    ensures
        s.accepts_key(key, now),
{
    law_parse_decimal(days);
}

} // verus!
