//! The rows of a list or a column: name, size, file count and last access.

use vstd::prelude::*;

use crate::entry::{listing, DirEntry, EntryView};
use crate::format::{atime_text, file_count_text, format_atime, format_file_count};
use crate::text::{
    align_left, align_right, byte_len, byte_len_of, chars_within, cut_within, left_aligned,
    lemma_byte_len, lemma_chars_within, right_aligned, same, texts,
};

verus! {

/// What a row shows that is not told from its entry here: the size in words, and
/// the file count in its unit, to one decimal.
#[derive(Debug)]
pub struct Caption {
    pub size: String,
    pub scaled_count: String,
}

/// A caption with its texts as characters.
#[verifier::ext_equal]
pub struct CaptionView {
    pub size: Seq<char>,
    pub scaled_count: Seq<char>,
}

impl View for Caption {
    type V = CaptionView;

    open spec fn view(&self) -> CaptionView {
        CaptionView { size: self.size@, scaled_count: self.scaled_count@ }
    }
}

/// Captions with their texts as characters.
pub open spec fn caption_texts(captions: Seq<Caption>) -> Seq<CaptionView> {
    captions.map_values(|c: Caption| c@)
}

/// Where rows are shown.
#[derive(Clone, Copy, Debug, PartialEq, Eq, Structural)]
pub enum Shape {
    /// In the list, where the way up has a mark of its own and nothing else
    List,
    /// In a column of the tree
    Column,
}

/// Whether the entry is shown as the way up.
pub open spec fn shown_as_up(e: EntryView, shape: Shape) -> bool {
    shape == Shape::List && e.name == ".."@
}

/// The name of an entry behind its mark.
pub open spec fn marked_name(e: EntryView, shape: Shape) -> Seq<char> {
    if shown_as_up(e, shape) {
        "◂ "@ + e.name
    } else if e.is_dir {
        "▸ "@ + e.name
    } else {
        "  "@ + e.name
    }
}

/// The size of an entry.
pub open spec fn size_cell(e: EntryView, c: CaptionView, shape: Shape) -> Seq<char> {
    if shown_as_up(e, shape) {
        Seq::empty()
    } else {
        c.size
    }
}

/// The file count of an entry.
pub open spec fn count_cell(e: EntryView, c: CaptionView, shape: Shape) -> Seq<char> {
    if shown_as_up(e, shape) {
        Seq::empty()
    } else {
        file_count_text(e.file_count as int, c.scaled_count)
    }
}

/// The last access of an entry.
pub open spec fn age_cell(e: EntryView, now: i64, shape: Shape) -> Seq<char> {
    if shown_as_up(e, shape) {
        Seq::empty()
    } else {
        atime_text(e.latest_atime as int, now as int)
    }
}

/// The bytes of the longest of the texts, or `least` where none is longer.
pub open spec fn widest(cells: Seq<Seq<char>>, least: nat) -> nat
    decreases cells.len(),
{
    if cells.len() == 0 {
        least
    } else {
        let rest = widest(cells.drop_last(), least);
        if byte_len(cells.last()) > rest {
            byte_len(cells.last())
        } else {
            rest
        }
    }
}

/// The bytes of the longest of the texts, or `least` where none is longer.
fn widest_of(cells: &Vec<String>, least: usize) -> (r: usize)
    ensures
        r == widest(texts(cells@), least as nat),
{
    let ghost all = texts(cells@);
    let mut r: usize = least;
    let mut i: usize = 0;
    while i < cells.len()
        invariant
            i <= cells@.len(),
            all == texts(cells@),
            r == widest(all.take(i as int), least as nat),
        decreases cells@.len() - i,
    {
        assert(all.take(i + 1).drop_last() =~= all.take(i as int));
        assert(all.take(i + 1).last() == cells@[i as int]@);
        let n: usize = byte_len_of(cells[i].as_str());
        if n > r {
            r = n;
        }
        i += 1;
    }
    assert(all.take(i as int) =~= all);
    r
}

/// The least widths of the columns behind the names.
pub open spec fn least_widths(shape: Shape) -> (nat, nat, nat) {
    match shape {
        Shape::List => (10, 8, 12),
        Shape::Column => (6, 6, 6),
    }
}

/// The columns of a table.
#[verifier::ext_equal]
pub struct TableView {
    pub names: Seq<Seq<char>>,
    pub sizes: Seq<Seq<char>>,
    pub counts: Seq<Seq<char>>,
    pub ages: Seq<Seq<char>>,
}

/// The columns of a table of entries.
pub open spec fn table(
    entries: Seq<EntryView>,
    captions: Seq<CaptionView>,
    now: i64,
    shape: Shape,
) -> TableView {
    TableView {
        names: Seq::new(entries.len(), |i: int| marked_name(entries[i], shape)),
        sizes: Seq::new(entries.len(), |i: int| size_cell(entries[i], captions[i], shape)),
        counts: Seq::new(entries.len(), |i: int| count_cell(entries[i], captions[i], shape)),
        ages: Seq::new(entries.len(), |i: int| age_cell(entries[i], now, shape)),
    }
}

impl TableView {
    /// The widths of the columns behind the names.
    pub open spec fn widths(self, shape: Shape) -> (nat, nat, nat) {
        let (size, count, age) = least_widths(shape);
        (widest(self.sizes, size), widest(self.counts, count), widest(self.ages, age))
    }

    /// What is left for the names on `width` cells: two go to the border, two to
    /// the mark of the selection, and two before each of the other columns.
    pub open spec fn name_room(self, width: u16, shape: Shape) -> int {
        let (size, count, age) = self.widths(shape);
        let left = width - 10 - size - count - age;
        if left > 0 {
            left
        } else {
            0
        }
    }

    /// Row `i` on `width` cells.
    pub open spec fn row(self, i: int, width: u16, shape: Shape) -> Seq<char> {
        let (size, count, age) = self.widths(shape);
        let room = self.name_room(width, shape);
        left_aligned(fitted(self.names[i], room, shape), room) + "  "@ + right_aligned(
            self.sizes[i],
            size as int,
        ) + "  "@ + right_aligned(self.counts[i], count as int) + "  "@ + right_aligned(
            self.ages[i],
            age as int,
        )
    }
}

/// Whether a name is cut to fit its room, which is counted in bytes. In a column of
/// room one it is not.
pub open spec fn is_cut(name: Seq<char>, room: int, shape: Shape) -> bool {
    byte_len(name) > room && (shape == Shape::List || room > 1)
}

/// A name fitted into its room: cut between characters, with an ellipsis in place of
/// the last byte of the room, where it is too long. A name that has no room at all
/// leaves an ellipsis in the list, and nothing in a column.
pub open spec fn fitted(name: Seq<char>, room: int, shape: Shape) -> Seq<char> {
    if is_cut(name, room, shape) {
        name.take(chars_within(name, room - 1)) + "…"@
    } else if shape == Shape::Column && room == 0 {
        Seq::empty()
    } else {
        name
    }
}

/// Whether the last access of an entry can be told.
pub open spec fn has_age(e: EntryView, shape: Shape) -> bool {
    shown_as_up(e, shape) || e.latest_atime >= 0
}

/// Whether the entries can be shown: each has a caption and an age.
pub open spec fn can_show(
    entries: Seq<EntryView>,
    captions: Seq<CaptionView>,
    shape: Shape,
) -> bool {
    &&& captions.len() == entries.len()
    &&& forall|i: int| 0 <= i < entries.len() ==> has_age(#[trigger] entries[i], shape)
}

/// The rows of the entries on `width` cells.
pub open spec fn rows(
    entries: Seq<EntryView>,
    captions: Seq<CaptionView>,
    now: i64,
    width: u16,
    shape: Shape,
) -> Seq<Seq<char>> {
    Seq::new(
        entries.len(),
        |i: int| table(entries, captions, now, shape).row(i, width, shape),
    )
}

/// The columns of a table.
struct Table {
    names: Vec<String>,
    sizes: Vec<String>,
    counts: Vec<String>,
    ages: Vec<String>,
}

impl Table {
    spec fn view(&self) -> TableView {
        TableView {
            names: texts(self.names@),
            sizes: texts(self.sizes@),
            counts: texts(self.counts@),
            ages: texts(self.ages@),
        }
    }
}

fn is_up(e: &DirEntry, shape: Shape) -> (r: bool)
    ensures
        r == shown_as_up(e@, shape),
{
    shape == Shape::List && same(e.name.as_str(), "..")
}

fn ages_told(entries: &Vec<DirEntry>, shape: Shape) -> (r: bool)
    ensures
        r == forall|i: int|
            0 <= i < listing(entries@).len() ==> has_age(#[trigger] listing(entries@)[i], shape),
{
    let ghost all = listing(entries@);
    let mut i: usize = 0;
    while i < entries.len()
        invariant
            i <= entries@.len(),
            all == listing(entries@),
            forall|k: int| 0 <= k < i ==> has_age(#[trigger] all[k], shape),
        decreases entries@.len() - i,
    {
        assert(all[i as int] == entries@[i as int]@);
        if !is_up(&entries[i], shape) && entries[i].latest_atime < 0 {
            assert(!has_age(all[i as int], shape));
            return false;
        }
        i += 1;
    }
    true
}

fn table_of(entries: &Vec<DirEntry>, captions: &Vec<Caption>, now: i64, shape: Shape) -> (r: Table)
    requires
        captions@.len() == entries@.len(),
        forall|i: int|
            0 <= i < listing(entries@).len() ==> has_age(#[trigger] listing(entries@)[i], shape),
    ensures
        r.view() == table(listing(entries@), caption_texts(captions@), now, shape),
{
    let ghost all = listing(entries@);
    let ghost words = caption_texts(captions@);
    let ghost whole = table(all, words, now, shape);
    let mut t = Table {
        names: Vec::new(),
        sizes: Vec::new(),
        counts: Vec::new(),
        ages: Vec::new(),
    };
    let mut i: usize = 0;
    while i < entries.len()
        invariant
            i <= entries@.len(),
            captions@.len() == entries@.len(),
            all == listing(entries@),
            words == caption_texts(captions@),
            whole == table(all, words, now, shape),
            forall|k: int| 0 <= k < all.len() ==> has_age(#[trigger] all[k], shape),
            texts(t.names@) == whole.names.take(i as int),
            texts(t.sizes@) == whole.sizes.take(i as int),
            texts(t.counts@) == whole.counts.take(i as int),
            texts(t.ages@) == whole.ages.take(i as int),
        decreases entries@.len() - i,
    {
        let e = &entries[i];
        let c = &captions[i];
        assert(all[i as int] == e@);
        assert(has_age(all[i as int], shape));
        assert(words[i as int] == c@);
        let up = is_up(e, shape);
        let mut name = (if up {
            "◂ "
        } else if e.is_dir {
            "▸ "
        } else {
            "  "
        }).to_owned();
        name.append(e.name.as_str());
        let size = if up {
            String::new()
        } else {
            c.size.clone()
        };
        let count = if up {
            String::new()
        } else {
            format_file_count(e.file_count, c.scaled_count.as_str())
        };
        let age = if up {
            String::new()
        } else {
            format_atime(e.latest_atime, now)
        };
        let ghost before = t.view();
        t.names.push(name);
        t.sizes.push(size);
        t.counts.push(count);
        t.ages.push(age);
        proof {
            assert(texts(t.names@) =~= before.names.push(whole.names[i as int]));
            assert(texts(t.sizes@) =~= before.sizes.push(whole.sizes[i as int]));
            assert(texts(t.counts@) =~= before.counts.push(whole.counts[i as int]));
            assert(texts(t.ages@) =~= before.ages.push(whole.ages[i as int]));
            assert(whole.names.take(i + 1) =~= before.names.push(whole.names[i as int]));
            assert(whole.sizes.take(i + 1) =~= before.sizes.push(whole.sizes[i as int]));
            assert(whole.counts.take(i + 1) =~= before.counts.push(whole.counts[i as int]));
            assert(whole.ages.take(i + 1) =~= before.ages.push(whole.ages[i as int]));
        }
        i += 1;
    }
    assert(t.view() =~= whole);
    t
}

/// A name fitted into its room.
fn fit(name: &str, room: usize, shape: Shape) -> (r: String)
    ensures
        r@ == fitted(name@, room as int, shape),
{
    if byte_len_of(name) > room && (shape == Shape::List || room > 1) {
        let mut r = if room > 0 {
            cut_within(name, room - 1)
        } else {
            String::new()
        };
        assert(room == 0 ==> r@ =~= name@.take(chars_within(name@, room - 1)));
        r.append("…");
        r
    } else if shape == Shape::Column && room == 0 {
        String::new()
    } else {
        name.to_owned()
    }
}

fn less(a: usize, b: usize) -> (r: usize)
    ensures
        r == if a > b {
            a - b
        } else {
            0
        },
{
    if a > b {
        a - b
    } else {
        0
    }
}

/// The rows of the entries on `width` cells; none where they cannot be shown.
pub fn table_rows(
    entries: &Vec<DirEntry>,
    captions: &Vec<Caption>,
    now: i64,
    width: u16,
    shape: Shape,
) -> (r: Option<Vec<String>>)
    ensures
        r is Some <==> can_show(listing(entries@), caption_texts(captions@), shape),
        r matches Some(lines) ==> texts(lines@) == rows(
            listing(entries@),
            caption_texts(captions@),
            now,
            width,
            shape,
        ),
{
    if captions.len() != entries.len() {
        return None;
    }
    if !ages_told(entries, shape) {
        return None;
    }
    let t = table_of(entries, captions, now, shape);
    let ghost all = listing(entries@);
    let ghost words = caption_texts(captions@);
    let ghost whole = table(all, words, now, shape);
    let (least_size, least_count, least_age): (usize, usize, usize) = match shape {
        Shape::List => (10, 8, 12),
        Shape::Column => (6, 6, 6),
    };
    let size_width: usize = widest_of(&t.sizes, least_size);
    let count_width: usize = widest_of(&t.counts, least_count);
    let age_width: usize = widest_of(&t.ages, least_age);
    let room: usize = less(less(less(less(width as usize, 10), size_width), count_width), age_width);
    assert(room == whole.name_room(width, shape));
    let mut lines: Vec<String> = Vec::new();
    let mut i: usize = 0;
    while i < entries.len()
        invariant
            i <= entries@.len(),
            all == listing(entries@),
            words == caption_texts(captions@),
            words.len() == all.len(),
            whole == table(all, words, now, shape),
            t.view() == whole,
            (size_width as nat, count_width as nat, age_width as nat) == whole.widths(shape),
            room == whole.name_room(width, shape),
            texts(lines@) == rows(all, words, now, width, shape).take(i as int),
        decreases entries@.len() - i,
    {
        assert(texts(t.names@).len() == whole.names.len());
        assert(texts(t.sizes@).len() == whole.sizes.len());
        assert(texts(t.counts@).len() == whole.counts.len());
        assert(texts(t.ages@).len() == whole.ages.len());
        assert(whole.names[i as int] == t.names@[i as int]@);
        assert(whole.sizes[i as int] == t.sizes@[i as int]@);
        assert(whole.counts[i as int] == t.counts@[i as int]@);
        assert(whole.ages[i as int] == t.ages@[i as int]@);
        let name = fit(t.names[i].as_str(), room, shape);
        let mut line = align_left(name.as_str(), room);
        line.append("  ");
        line.append(align_right(t.sizes[i].as_str(), size_width).as_str());
        line.append("  ");
        line.append(align_right(t.counts[i].as_str(), count_width).as_str());
        line.append("  ");
        line.append(align_right(t.ages[i].as_str(), age_width).as_str());
        assert(line@ == whole.row(i as int, width, shape));
        let ghost before = lines@;
        lines.push(line);
        proof {
            assert(texts(lines@) =~= texts(before).push(line@));
            assert(rows(all, words, now, width, shape).take(i + 1) =~= texts(before).push(line@));
        }
        i += 1;
    }
    assert(texts(lines@) =~= rows(all, words, now, width, shape));
    Some(lines)
}

proof fn lemma_widest(cells: Seq<Seq<char>>, least: nat, i: int)
    requires
        0 <= i < cells.len(),
    ensures
        byte_len(cells[i]) <= widest(cells, least),
    decreases cells.len(),
{
    if i < cells.len() - 1 {
        lemma_widest(cells.drop_last(), least, i);
    }
}

/// A name that is too long for its room ends in an ellipsis behind as many of its
/// characters as fit before it, and a name that is not too long stays as it is.
/// Either way it then takes no more characters than there is room for, if there is
/// any. In a column of room one a name stays whole.
pub proof fn law_names_fit(name: Seq<char>, room: nat, shape: Shape)
    requires
        shape == Shape::Column ==> room > 1,
    ensures
        ({
            let r = fitted(name, room as int, shape);
            let kept = r.len() - 1;
            &&& byte_len(name) <= room ==> r == name
            &&& byte_len(name) > room ==> {
                &&& r.len() > 0
                &&& r.last() == '…'
                &&& kept < name.len()
                &&& r.drop_last() == name.take(kept)
                &&& kept > 0 ==> byte_len(name.take(kept)) < room
                &&& byte_len(name.take(kept + 1)) >= room
            }
            &&& room > 0 ==> r.len() <= room
        }),
{
    reveal_strlit("…");
    lemma_byte_len(name);
    lemma_chars_within(name, room - 1);
    let k = chars_within(name, room - 1);
    lemma_byte_len(name.take(k));
    let r = fitted(name, room as int, shape);
    if byte_len(name) > room {
        assert(r.drop_last() =~= name.take(k));
        if k == name.len() {
            assert(name.take(k) =~= name);
        }
    }
}

/// A name that has no room leaves an ellipsis in the list, and nothing in a column; in
/// a column of room one it stays whole.
pub proof fn law_names_without_room(name: Seq<char>)
    requires
        name.len() > 0,
    ensures
        fitted(name, 0, Shape::List) == "…"@,
        fitted(name, 0, Shape::Column).len() == 0,
        fitted(name, 1, Shape::Column) == name,
{
    lemma_byte_len(name);
    lemma_chars_within(name, -1);
    assert(fitted(name, 0, Shape::List) =~= "…"@) by {
        vstd::utf8::char_is_scalar(name[0]);
    }
}

/// The columns of a table line up: its rows all have the same number of
/// characters, and fill the width between the border and the mark of the selection
/// where names have room. A list without room for names, or a column with room for
/// one character of them, would break this.
pub proof fn law_rows_line_up(
    entries: Seq<EntryView>,
    captions: Seq<CaptionView>,
    now: i64,
    width: u16,
    shape: Shape,
    i: int,
)
    requires
        0 <= i < entries.len(),
        can_show(entries, captions, shape),
        shape == Shape::List ==> table(entries, captions, now, shape).name_room(width, shape) > 0,
        shape == Shape::Column ==> table(entries, captions, now, shape).name_room(width, shape)
            != 1,
    ensures
        ({
            let t = table(entries, captions, now, shape);
            let room = t.name_room(width, shape);
            let (size, count, age) = t.widths(shape);
            &&& rows(entries, captions, now, width, shape)[i].len() == room + size + count + age + 6
            &&& room > 0 ==> rows(entries, captions, now, width, shape)[i].len() == width - 4
        }),
{
    let t = table(entries, captions, now, shape);
    let room = t.name_room(width, shape);
    let (least_size, least_count, least_age) = least_widths(shape);
    if room > 0 {
        law_names_fit(t.names[i], room as nat, shape);
    }
    lemma_widest(t.sizes, least_size, i);
    lemma_widest(t.counts, least_count, i);
    lemma_widest(t.ages, least_age, i);
    lemma_byte_len(t.sizes[i]);
    lemma_byte_len(t.counts[i]);
    lemma_byte_len(t.ages[i]);
    reveal_strlit("  ");
}

} // verus!
