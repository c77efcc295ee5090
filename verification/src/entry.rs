//! Entries of the listing, the orders they are shown in, and the rows they are
//! made from.

use vstd::prelude::*;
use vstd::utf8::encode_utf8;

use crate::text::{
    after_last, after_last_of, bytes_less, lemma_bytes_less_total, lemma_bytes_less_transitive, same,
    text_less,
};

verus! {

/// A directory, partition or file in a listing.
#[derive(Debug)]
pub struct DirEntry {
    pub name: String,
    pub path: String,
    pub is_dir: bool,
    pub total_size: i64,
    pub file_count: i64,
    pub latest_atime: i64,
}

/// A listing entry with its texts as characters.
#[verifier::ext_equal]
pub struct EntryView {
    pub name: Seq<char>,
    pub path: Seq<char>,
    pub is_dir: bool,
    pub total_size: i64,
    pub file_count: i64,
    pub latest_atime: i64,
}

impl View for DirEntry {
    type V = EntryView;

    open spec fn view(&self) -> EntryView {
        EntryView {
            name: self.name@,
            path: self.path@,
            is_dir: self.is_dir,
            total_size: self.total_size,
            file_count: self.file_count,
            latest_atime: self.latest_atime,
        }
    }
}

impl Clone for DirEntry {
    fn clone(&self) -> (r: Self)
        ensures
            r == *self,
    {
        DirEntry {
            name: self.name.clone(),
            path: self.path.clone(),
            is_dir: self.is_dir,
            total_size: self.total_size,
            file_count: self.file_count,
            latest_atime: self.latest_atime,
        }
    }
}

/// A listing with its texts as characters.
pub open spec fn listing(entries: Seq<DirEntry>) -> Seq<EntryView> {
    entries.map_values(|e: DirEntry| e@)
}

/// The entry that the file preview of the list opens on: the selected one, where
/// there is one and it is a file.
pub open spec fn previewed(entries: Seq<EntryView>, selected: Option<usize>) -> Option<EntryView> {
    match selected {
        Some(i) => if i < entries.len() && !entries[i as int].is_dir {
            Some(entries[i as int])
        } else {
            None
        },
        None => None,
    }
}

/// The entry that the file preview of the list opens on. Directories are left
/// out: they have no text to show.
pub fn list_preview_entry(entries: &[DirEntry], selected: Option<usize>) -> (r: Option<&DirEntry>)
    ensures
        r is Some <==> previewed(listing(entries@), selected) is Some,
        r matches Some(e) ==> previewed(listing(entries@), selected) == Some(e@) && *e
            == entries@[selected->0 as int],
{
    match selected {
        Some(idx) => {
            if idx < entries.len() {
                let entry = &entries[idx];
                if entry.is_dir {
                    None
                } else {
                    Some(entry)
                }
            } else {
                None
            }
        },
        None => None,
    }
}

/// Whether `i` is the first entry named `name`.
pub open spec fn is_first_named(entries: Seq<EntryView>, name: Seq<char>, i: int) -> bool {
    &&& 0 <= i < entries.len()
    &&& entries[i].name == name
    &&& forall|k: int| 0 <= k < i ==> (#[trigger] entries[k]).name != name
}

/// The position of the first entry named `name`.
pub open spec fn position_named(entries: Seq<EntryView>, name: Seq<char>) -> Option<usize>
    decreases entries.len(),
{
    if entries.len() == 0 {
        None
    } else {
        match position_named(entries.drop_last(), name) {
            Some(i) => Some(i),
            None => if entries.last().name == name {
                Some((entries.len() - 1) as usize)
            } else {
                None
            },
        }
    }
}

/// `position_named` finds the first entry of that name, if there is one.
pub proof fn lemma_position_named(entries: Seq<EntryView>, name: Seq<char>)
    requires
        entries.len() <= usize::MAX,
    ensures
        position_named(entries, name) matches Some(i) ==> is_first_named(entries, name, i as int),
        position_named(entries, name) is None ==> forall|k: int|
            0 <= k < entries.len() ==> (#[trigger] entries[k]).name != name,
    decreases entries.len(),
{
    if entries.len() > 0 {
        let t = entries.drop_last();
        lemma_position_named(t, name);
        assert forall|k: int| 0 <= k < t.len() implies t[k] == entries[k] by {}
        if position_named(t, name) is None {
            assert forall|k: int| 0 <= k < entries.len() - 1 implies (#[trigger] entries[k]).name
                != name by {
                assert(t[k].name != name);
            }
        }
    }
}

/// The position of the first entry named `name`.
pub fn position_of(entries: &Vec<DirEntry>, name: &str) -> (r: Option<usize>)
    ensures
        r == position_named(listing(entries@), name@),
        r matches Some(i) ==> i < entries@.len(),
{
    let ghost all = listing(entries@);
    let mut i: usize = 0;
    assert(all.take(0) =~= Seq::<EntryView>::empty());
    while i < entries.len()
        invariant
            i <= entries@.len(),
            all == listing(entries@),
            position_named(all.take(i as int), name@) is None,
        decreases entries@.len() - i,
    {
        assert(all.take(i + 1).drop_last() =~= all.take(i as int));
        if same(entries[i].name.as_str(), name) {
            proof {
                lemma_position_stays(all, name@, i + 1);
            }
            return Some(i);
        }
        i += 1;
    }
    assert(all.take(i as int) =~= all);
    None
}

proof fn lemma_position_stays(entries: Seq<EntryView>, name: Seq<char>, n: int)
    requires
        0 <= n <= entries.len(),
        position_named(entries.take(n), name) is Some,
    ensures
        position_named(entries, name) == position_named(entries.take(n), name),
    decreases entries.len() - n,
{
    if n < entries.len() {
        assert(entries.take(n + 1).drop_last() =~= entries.take(n));
        lemma_position_stays(entries, name, n + 1);
    } else {
        assert(entries.take(n) =~= entries);
    }
}

/// The orders of a listing.
#[derive(Clone, Copy, Debug, PartialEq, Eq, Structural)]
pub enum SortMode {
    /// Directories first, then by name
    Name,
    SizeDesc,
    SizeAsc,
    CountDesc,
    CountAsc,
    /// Oldest access first
    AgeDesc,
    /// Newest access first
    AgeAsc,
}

/// The place of an order in the cycle of orders.
pub open spec fn sort_rank(m: SortMode) -> int {
    match m {
        SortMode::Name => 0,
        SortMode::SizeDesc => 1,
        SortMode::SizeAsc => 2,
        SortMode::CountDesc => 3,
        SortMode::CountAsc => 4,
        SortMode::AgeDesc => 5,
        SortMode::AgeAsc => 6,
    }
}

/// The order at place `i` of the cycle of orders.
pub open spec fn sort_at(i: int) -> SortMode {
    if i == 0 {
        SortMode::Name
    } else if i == 1 {
        SortMode::SizeDesc
    } else if i == 2 {
        SortMode::SizeAsc
    } else if i == 3 {
        SortMode::CountDesc
    } else if i == 4 {
        SortMode::CountAsc
    } else if i == 5 {
        SortMode::AgeDesc
    } else {
        SortMode::AgeAsc
    }
}

/// The order behind `m` in the cycle.
pub open spec fn next_sort(m: SortMode) -> SortMode {
    sort_at((sort_rank(m) + 1) % 7)
}

/// The order before `m` in the cycle.
pub open spec fn prev_sort(m: SortMode) -> SortMode {
    sort_at((sort_rank(m) + 6) % 7)
}

/// The name of an order.
pub open spec fn sort_label(m: SortMode) -> Seq<char> {
    match m {
        SortMode::Name => "name"@,
        SortMode::SizeDesc => "size-desc"@,
        SortMode::SizeAsc => "size-asc"@,
        SortMode::CountDesc => "count-desc"@,
        SortMode::CountAsc => "count-asc"@,
        SortMode::AgeDesc => "age-desc"@,
        SortMode::AgeAsc => "age-asc"@,
    }
}

impl SortMode {
    /// Every order, in the cycle's order.
    pub fn all() -> (r: Vec<SortMode>)
        ensures
            r@ == Seq::new(7, |i: int| sort_at(i)),
    {
        let mut v: Vec<SortMode> = Vec::new();
        v.push(SortMode::Name);
        v.push(SortMode::SizeDesc);
        v.push(SortMode::SizeAsc);
        v.push(SortMode::CountDesc);
        v.push(SortMode::CountAsc);
        v.push(SortMode::AgeDesc);
        v.push(SortMode::AgeAsc);
        assert(v@ =~= Seq::new(7, |i: int| sort_at(i)));
        v
    }

    /// The order behind this one in the cycle.
    pub fn next(self) -> (r: SortMode)
        ensures
            r == next_sort(self),
    {
        match self {
            SortMode::Name => SortMode::SizeDesc,
            SortMode::SizeDesc => SortMode::SizeAsc,
            SortMode::SizeAsc => SortMode::CountDesc,
            SortMode::CountDesc => SortMode::CountAsc,
            SortMode::CountAsc => SortMode::AgeDesc,
            SortMode::AgeDesc => SortMode::AgeAsc,
            SortMode::AgeAsc => SortMode::Name,
        }
    }

    /// The order before this one in the cycle.
    pub fn prev(self) -> (r: SortMode)
        ensures
            r == prev_sort(self),
    {
        match self {
            SortMode::Name => SortMode::AgeAsc,
            SortMode::SizeDesc => SortMode::Name,
            SortMode::SizeAsc => SortMode::SizeDesc,
            SortMode::CountDesc => SortMode::SizeAsc,
            SortMode::CountAsc => SortMode::CountDesc,
            SortMode::AgeDesc => SortMode::CountAsc,
            SortMode::AgeAsc => SortMode::AgeDesc,
        }
    }

    /// The name of this order.
    pub fn label(self) -> (r: &'static str)
        ensures
            r@ == sort_label(self),
    {
        match self {
            SortMode::Name => "name",
            SortMode::SizeDesc => "size-desc",
            SortMode::SizeAsc => "size-asc",
            SortMode::CountDesc => "count-desc",
            SortMode::CountAsc => "count-asc",
            SortMode::AgeDesc => "age-desc",
            SortMode::AgeAsc => "age-asc",
        }
    }
}

/// A step forth and a step back in the cycle of orders cancel out, and every
/// order comes round again.
pub proof fn law_sort_cycle(m: SortMode)
    ensures
        prev_sort(next_sort(m)) == m,
        next_sort(prev_sort(m)) == m,
        next_sort(m) != m,
        next_sort(next_sort(next_sort(next_sort(next_sort(next_sort(next_sort(m))))))) == m,
{
}

/// Whether entry `a` comes before entry `b` in the order `mode`, whatever their
/// places were.
pub open spec fn precedes(a: EntryView, b: EntryView, mode: SortMode) -> bool {
    match mode {
        SortMode::Name => (a.is_dir && !b.is_dir) || (a.is_dir == b.is_dir && bytes_less(
            encode_utf8(a.name),
            encode_utf8(b.name),
        )),
        SortMode::SizeDesc => a.total_size > b.total_size,
        SortMode::SizeAsc => a.total_size < b.total_size,
        SortMode::CountDesc => a.file_count > b.file_count,
        SortMode::CountAsc => a.file_count < b.file_count,
        SortMode::AgeDesc => a.latest_atime < b.latest_atime,
        SortMode::AgeAsc => a.latest_atime > b.latest_atime,
    }
}

/// A sorted listing with `e` put in: behind everything that it does not come
/// before.
pub open spec fn inserted(sorted: Seq<EntryView>, e: EntryView, mode: SortMode) -> Seq<EntryView>
    decreases sorted.len(),
{
    if sorted.len() > 0 && precedes(e, sorted.last(), mode) {
        inserted(sorted.drop_last(), e, mode).push(sorted.last())
    } else {
        sorted.push(e)
    }
}

/// A listing in the order `mode`; entries that the order does not tell apart
/// stay in the order they were in.
pub open spec fn sorted_listing(entries: Seq<EntryView>, mode: SortMode) -> Seq<EntryView>
    decreases entries.len(),
{
    if entries.len() == 0 {
        Seq::empty()
    } else {
        inserted(sorted_listing(entries.drop_last(), mode), entries.last(), mode)
    }
}

fn comes_before(a: &DirEntry, b: &DirEntry, mode: SortMode) -> (r: bool)
    ensures
        r == precedes(a@, b@, mode),
{
    match mode {
        SortMode::Name => (a.is_dir && !b.is_dir) || (a.is_dir == b.is_dir && text_less(
            a.name.as_str(),
            b.name.as_str(),
        )),
        SortMode::SizeDesc => a.total_size > b.total_size,
        SortMode::SizeAsc => a.total_size < b.total_size,
        SortMode::CountDesc => a.file_count > b.file_count,
        SortMode::CountAsc => a.file_count < b.file_count,
        SortMode::AgeDesc => a.latest_atime < b.latest_atime,
        SortMode::AgeAsc => a.latest_atime > b.latest_atime,
    }
}

/// Two listings merged from their ends. Of entries that the order does not tell
/// apart, those of `a` come first.
spec fn merged(a: Seq<EntryView>, b: Seq<EntryView>, mode: SortMode) -> Seq<EntryView>
    decreases a.len() + b.len(),
{
    if a.len() == 0 {
        b
    } else if b.len() == 0 {
        a
    } else if precedes(b.last(), a.last(), mode) {
        merged(a.drop_last(), b, mode).push(a.last())
    } else {
        merged(a, b.drop_last(), mode).push(b.last())
    }
}

proof fn lemma_merged_inserted(a: Seq<EntryView>, b: Seq<EntryView>, e: EntryView, mode: SortMode)
    ensures
        merged(a, inserted(b, e, mode), mode) == inserted(merged(a, b, mode), e, mode),
    decreases a.len() + b.len(),
{
    let m = merged(a, b, mode);
    let bi = inserted(b, e, mode);
    if a.len() > 0 {
        if b.len() > 0 && precedes(e, b.last(), mode) {
            assert(bi.drop_last() =~= inserted(b.drop_last(), e, mode));
            assert(bi.last() == b.last());
            lemma_precedes(a.last(), b.last(), e, mode);
            lemma_precedes(a.last(), e, b.last(), mode);
            lemma_precedes(e, a.last(), b.last(), mode);
            if precedes(b.last(), a.last(), mode) {
                lemma_merged_inserted(a.drop_last(), b, e, mode);
                assert(m.drop_last() =~= merged(a.drop_last(), b, mode));
            } else {
                lemma_merged_inserted(a, b.drop_last(), e, mode);
                assert(m.drop_last() =~= merged(a, b.drop_last(), mode));
            }
        } else {
            assert(bi.drop_last() =~= b);
            assert(bi.last() == e);
            if precedes(e, a.last(), mode) {
                lemma_merged_inserted(a.drop_last(), b, e, mode);
                if b.len() > 0 {
                    lemma_precedes(e, b.last(), a.last(), mode);
                    assert(m.drop_last() =~= merged(a.drop_last(), b, mode));
                } else {
                    assert(merged(a.drop_last(), b, mode) =~= a.drop_last());
                }
            } else {
                assert(merged(a, bi, mode) == m.push(e));
            }
        }
    }
}

proof fn lemma_sorted_halves(a: Seq<EntryView>, b: Seq<EntryView>, mode: SortMode)
    ensures
        sorted_listing(a + b, mode) == merged(
            sorted_listing(a, mode),
            sorted_listing(b, mode),
            mode,
        ),
    decreases b.len(),
{
    if b.len() == 0 {
        assert(a + b =~= a);
    } else {
        assert((a + b).drop_last() =~= a + b.drop_last());
        lemma_sorted_halves(a, b.drop_last(), mode);
        lemma_merged_inserted(
            sorted_listing(a, mode),
            sorted_listing(b.drop_last(), mode),
            b.last(),
            mode,
        );
    }
}

/// Takes the later one of the two last entries, or the last of `b` where the order
/// does not tell them apart.
fn take_last(a: &mut Vec<DirEntry>, b: &mut Vec<DirEntry>, mode: SortMode) -> (r: DirEntry)
    requires
        old(a)@.len() + old(b)@.len() > 0,
    ensures
        final(a)@.len() + final(b)@.len() + 1 == old(a)@.len() + old(b)@.len(),
        merged(listing(old(a)@), listing(old(b)@), mode) == merged(
            listing(final(a)@),
            listing(final(b)@),
            mode,
        ).push(r@),
{
    let n: usize = a.len();
    let m: usize = b.len();
    assert(listing(a@).len() == n && listing(b@).len() == m);
    if n > 0 && (m == 0 || comes_before(&b[m - 1], &a[n - 1], mode)) {
        let r = a.remove(n - 1);
        proof {
            assert(listing(a@) =~= listing(old(a)@).drop_last());
            if m == 0 {
                assert(listing(old(a)@) =~= listing(a@).push(r@));
                assert(merged(listing(a@), listing(b@), mode) =~= listing(a@));
            }
        }
        r
    } else {
        let r = b.remove(m - 1);
        proof {
            assert(listing(b@) =~= listing(old(b)@).drop_last());
            if n == 0 {
                assert(listing(old(b)@) =~= listing(b@).push(r@));
            }
        }
        r
    }
}

fn merge(a: Vec<DirEntry>, b: Vec<DirEntry>, mode: SortMode) -> (r: Vec<DirEntry>)
    ensures
        listing(r@) == merged(listing(a@), listing(b@), mode),
{
    let ghost whole = merged(listing(a@), listing(b@), mode);
    let mut a = a;
    let mut b = b;
    let mut tail: Vec<DirEntry> = Vec::new();
    assert(merged(listing(a@), listing(b@), mode) + listing(tail@).reverse() =~= whole);
    while a.len() > 0 || b.len() > 0
        invariant
            merged(listing(a@), listing(b@), mode) + listing(tail@).reverse() == whole,
        decreases a@.len() + b@.len(),
    {
        let e = take_last(&mut a, &mut b, mode);
        let ghost before = tail@;
        tail.push(e);
        assert(listing(tail@).reverse() =~= seq![e@] + listing(before).reverse());
        assert(merged(listing(a@), listing(b@), mode) + listing(tail@).reverse() =~= merged(
            listing(a@),
            listing(b@),
            mode,
        ).push(e@) + listing(before).reverse());
    }
    assert(merged(listing(a@), listing(b@), mode) =~= Seq::<EntryView>::empty());
    assert(listing(tail@).reverse() =~= whole);
    let mut r: Vec<DirEntry> = Vec::new();
    assert(listing(r@) + listing(tail@).reverse() =~= whole);
    while tail.len() > 0
        invariant
            listing(r@) + listing(tail@).reverse() == whole,
        decreases tail@.len(),
    {
        let ghost rest = tail@;
        let last: usize = tail.len() - 1;
        let e = tail.remove(last);
        assert(rest =~= tail@.push(e));
        let ghost before = r@;
        r.push(e);
        assert(listing(r@) =~= listing(before).push(e@));
        assert(listing(tail@.push(e)).reverse() =~= seq![e@] + listing(tail@).reverse());
        assert(listing(r@) + listing(tail@).reverse() =~= listing(before) + listing(
            tail@.push(e),
        ).reverse());
    }
    assert(listing(r@) =~= whole);
    r
}

/// Puts the entries in the order `mode`; entries that the order does not tell
/// apart keep their order.
pub fn sort_entries(entries: &mut Vec<DirEntry>, mode: SortMode)
    ensures
        listing(final(entries)@) == sorted_listing(listing(old(entries)@), mode),
    decreases old(entries)@.len(),
{
    let n: usize = entries.len();
    let ghost all = listing(entries@);
    if n < 2 {
        proof {
            assert(all.len() == n);
            reveal_with_fuel(sorted_listing, 3);
            if n == 1 {
                assert(all.drop_last() =~= Seq::<EntryView>::empty());
            }
            assert(sorted_listing(all, mode) =~= all);
        }
        return;
    }
    let mut right = entries.split_off(n / 2);
    let mut left: Vec<DirEntry> = Vec::new();
    std::mem::swap(entries, &mut left);
    proof {
        assert(listing(left@) + listing(right@) =~= all);
        lemma_sorted_halves(listing(left@), listing(right@), mode);
    }
    sort_entries(&mut left, mode);
    sort_entries(&mut right, mode);
    *entries = merge(left, right, mode);
}

/// Each order is a strict one: nothing comes before itself, no two entries come
/// before each other, and not coming before carries over.
pub proof fn lemma_precedes(a: EntryView, b: EntryView, c: EntryView, mode: SortMode)
    ensures
        !precedes(a, a, mode),
        precedes(a, b, mode) ==> !precedes(b, a, mode),
        !precedes(a, b, mode) && !precedes(b, c, mode) ==> !precedes(a, c, mode),
{
    if mode == SortMode::Name {
        let x = encode_utf8(a.name);
        let y = encode_utf8(b.name);
        let z = encode_utf8(c.name);
        lemma_bytes_less_total(x, y);
        lemma_bytes_less_total(y, z);
        lemma_bytes_less_total(x, z);
        lemma_bytes_less_total(x, x);
        if bytes_less(x, z) && bytes_less(z, y) {
            lemma_bytes_less_transitive(x, z, y);
        }
    }
}

/// Whether no entry of the listing comes before an earlier one.
pub open spec fn in_order(entries: Seq<EntryView>, mode: SortMode) -> bool {
    forall|i: int, j: int|
        0 <= i < j < entries.len() ==> !precedes(
            #[trigger] entries[j],
            #[trigger] entries[i],
            mode,
        )
}

proof fn lemma_inserted_members(sorted: Seq<EntryView>, e: EntryView, mode: SortMode)
    ensures
        inserted(sorted, e, mode).len() == sorted.len() + 1,
        forall|i: int|
            0 <= i <= sorted.len() ==> #[trigger] inserted(sorted, e, mode)[i] == e
                || sorted.contains(inserted(sorted, e, mode)[i]),
        inserted(sorted, e, mode).to_multiset() == sorted.to_multiset().insert(e),
    decreases sorted.len(),
{
    broadcast use vstd::seq_lib::group_to_multiset_ensures;
    broadcast use vstd::multiset::group_multiset_axioms;

    let r = inserted(sorted, e, mode);
    if sorted.len() > 0 && precedes(e, sorted.last(), mode) {
        let t = sorted.drop_last();
        let q = inserted(t, e, mode);
        lemma_inserted_members(t, e, mode);
        assert forall|i: int| 0 <= i <= sorted.len() implies #[trigger] r[i] == e
            || sorted.contains(r[i]) by {
            if i < q.len() {
                assert(r[i] == q[i]);
                if q[i] != e {
                    assert(t.contains(q[i]));
                    let k = choose|k: int| 0 <= k < t.len() && t[k] == q[i];
                    assert(sorted[k] == q[i]);
                }
            } else {
                assert(r[i] == sorted.last());
                assert(sorted.contains(sorted.last()));
            }
        }
        assert(t.push(sorted.last()) =~= sorted);
        assert(r.to_multiset() =~= q.to_multiset().insert(sorted.last()));
        assert(r.to_multiset() =~= sorted.to_multiset().insert(e));
    } else {
        assert forall|i: int| 0 <= i <= sorted.len() implies #[trigger] r[i] == e
            || sorted.contains(r[i]) by {
            if i < sorted.len() {
                assert(r[i] == sorted[i]);
            }
        }
    }
}

proof fn lemma_inserted_in_order(sorted: Seq<EntryView>, e: EntryView, mode: SortMode)
    requires
        in_order(sorted, mode),
    ensures
        in_order(inserted(sorted, e, mode), mode),
    decreases sorted.len(),
{
    let r = inserted(sorted, e, mode);
    if sorted.len() > 0 && precedes(e, sorted.last(), mode) {
        let t = sorted.drop_last();
        let q = inserted(t, e, mode);
        let last = sorted.last();
        assert forall|i: int, j: int| 0 <= i < j < t.len() implies !precedes(
            #[trigger] t[j],
            #[trigger] t[i],
            mode,
        ) by {
            assert(!precedes(sorted[j], sorted[i], mode));
        }
        lemma_inserted_in_order(t, e, mode);
        lemma_inserted_members(t, e, mode);
        assert forall|i: int, j: int| 0 <= i < j < r.len() implies !precedes(
            #[trigger] r[j],
            #[trigger] r[i],
            mode,
        ) by {
            if j < q.len() {
                assert(r[j] == q[j] && r[i] == q[i]);
            } else {
                assert(r[j] == last && r[i] == q[i]);
                if q[i] == e {
                    lemma_precedes(e, last, last, mode);
                } else {
                    assert(t.contains(q[i]));
                    let k = choose|k: int| 0 <= k < t.len() && t[k] == q[i];
                    assert(!precedes(sorted[sorted.len() - 1], sorted[k], mode));
                }
            }
        }
    } else {
        assert forall|i: int, j: int| 0 <= i < j < r.len() implies !precedes(
            #[trigger] r[j],
            #[trigger] r[i],
            mode,
        ) by {
            if j < sorted.len() {
                assert(r[j] == sorted[j] && r[i] == sorted[i]);
            } else {
                assert(r[j] == e && r[i] == sorted[i]);
                if i < sorted.len() - 1 {
                    assert(!precedes(sorted[sorted.len() - 1], sorted[i], mode));
                    lemma_precedes(e, sorted.last(), sorted[i], mode);
                }
            }
        }
    }
}

/// Sorting gives the same entries, each as often as before, with none in front
/// of one that comes before it.
pub proof fn law_sorted(entries: Seq<EntryView>, mode: SortMode)
    ensures
        sorted_listing(entries, mode).len() == entries.len(),
        sorted_listing(entries, mode).to_multiset() == entries.to_multiset(),
        in_order(sorted_listing(entries, mode), mode),
    decreases entries.len(),
{
    broadcast use vstd::seq_lib::group_to_multiset_ensures;
    broadcast use vstd::multiset::group_multiset_axioms;

    if entries.len() > 0 {
        let t = entries.drop_last();
        law_sorted(t, mode);
        lemma_inserted_members(sorted_listing(t, mode), entries.last(), mode);
        lemma_inserted_in_order(sorted_listing(t, mode), entries.last(), mode);
        assert(t.push(entries.last()) =~= entries);
    } else {
        assert(entries =~= Seq::<EntryView>::empty());
    }
}

/// The entries of a listing that the order does not tell apart from `k`, in
/// their order.
pub open spec fn tied_with(entries: Seq<EntryView>, k: EntryView, mode: SortMode) -> Seq<
    EntryView,
> {
    entries.filter(|e: EntryView| !precedes(e, k, mode) && !precedes(k, e, mode))
}

proof fn lemma_tied_push(entries: Seq<EntryView>, e: EntryView, k: EntryView, mode: SortMode)
    ensures
        tied_with(entries.push(e), k, mode) == if !precedes(e, k, mode) && !precedes(k, e, mode) {
            tied_with(entries, k, mode).push(e)
        } else {
            tied_with(entries, k, mode)
        },
{
    reveal(Seq::filter);
    assert(entries.push(e).drop_last() =~= entries);
}

proof fn lemma_inserted_tied(sorted: Seq<EntryView>, e: EntryView, k: EntryView, mode: SortMode)
    ensures
        tied_with(inserted(sorted, e, mode), k, mode) == tied_with(sorted.push(e), k, mode),
    decreases sorted.len(),
{
    if sorted.len() > 0 && precedes(e, sorted.last(), mode) {
        let t = sorted.drop_last();
        let last = sorted.last();
        lemma_inserted_tied(t, e, k, mode);
        lemma_tied_push(inserted(t, e, mode), last, k, mode);
        lemma_tied_push(t, e, k, mode);
        lemma_tied_push(sorted, e, k, mode);
        lemma_tied_push(t, last, k, mode);
        assert(t.push(last) =~= sorted);
        lemma_precedes(e, k, last, mode);
    }
}

/// Sorting is stable: entries that the order does not tell apart keep the order
/// they were in.
pub proof fn law_sorted_stable(entries: Seq<EntryView>, k: EntryView, mode: SortMode)
    ensures
        tied_with(sorted_listing(entries, mode), k, mode) == tied_with(entries, k, mode),
    decreases entries.len(),
{
    if entries.len() > 0 {
        let t = entries.drop_last();
        let q = sorted_listing(t, mode);
        law_sorted_stable(t, k, mode);
        lemma_inserted_tied(q, entries.last(), k, mode);
        lemma_tied_push(q, entries.last(), k, mode);
        lemma_tied_push(t, entries.last(), k, mode);
        assert(t.push(entries.last()) =~= entries);
    } else {
        assert(entries =~= Seq::<EntryView>::empty());
    }
}

/// A listing that is in order stays as it is.
pub proof fn law_sorting_in_order(entries: Seq<EntryView>, mode: SortMode)
    requires
        in_order(entries, mode),
    ensures
        sorted_listing(entries, mode) == entries,
    decreases entries.len(),
{
    if entries.len() > 0 {
        let t = entries.drop_last();
        assert forall|i: int, j: int| 0 <= i < j < t.len() implies !precedes(
            #[trigger] t[j],
            #[trigger] t[i],
            mode,
        ) by {
            assert(!precedes(entries[j], entries[i], mode));
        }
        law_sorting_in_order(t, mode);
        if t.len() > 0 {
            assert(t.last() == entries[entries.len() - 2]);
            assert(!precedes(entries[entries.len() - 1], entries[entries.len() - 2], mode));
        }
        assert(t.push(entries.last()) =~= entries);
    } else {
        assert(entries =~= Seq::<EntryView>::empty());
    }
}

/// A row of the partition query: a top-level directory of the index.
#[derive(Debug)]
pub struct PartitionRow {
    pub name: String,
    pub total_size: i64,
    pub latest_atime: i64,
    pub file_count: i64,
}

impl PartitionRow {
    /// The entry of a partition.
    pub open spec fn entry(self) -> EntryView {
        EntryView {
            name: self.name@,
            path: self.name@,
            is_dir: true,
            total_size: self.total_size,
            file_count: self.file_count,
            latest_atime: self.latest_atime,
        }
    }

    /// The entry of a partition.
    pub fn to_entry(&self) -> (r: DirEntry)
        ensures
            r@ == self.entry(),
    {
        DirEntry {
            name: self.name.clone(),
            path: self.name.clone(),
            is_dir: true,
            total_size: self.total_size,
            file_count: self.file_count,
            latest_atime: self.latest_atime,
        }
    }
}

/// A row of the query for files that stand in no partition.
#[derive(Debug)]
pub struct FileRow {
    pub path: String,
    pub size: i64,
    pub atime: i64,
}

impl FileRow {
    /// The entry of a file, named by the last part of its path.
    pub open spec fn entry(self) -> EntryView {
        EntryView {
            name: after_last(self.path@, '/'),
            path: self.path@,
            is_dir: false,
            total_size: self.size,
            file_count: 1,
            latest_atime: self.atime,
        }
    }

    /// The entry of a file, named by the last part of its path.
    pub fn to_entry(&self) -> (r: DirEntry)
        ensures
            r@ == self.entry(),
    {
        DirEntry {
            name: after_last_of(self.path.as_str(), '/'),
            path: self.path.clone(),
            is_dir: false,
            total_size: self.size,
            file_count: 1,
            latest_atime: self.atime,
        }
    }
}

/// A row of the directory query: a name in a directory, with what stands below.
#[derive(Debug)]
pub struct ComponentRow {
    pub component: String,
    pub is_dir: bool,
    pub total_size: i64,
    pub file_count: i64,
    pub latest_atime: i64,
}

/// The path of `name` in the directory `dir`.
pub open spec fn child_path(dir: Seq<char>, name: Seq<char>) -> Seq<char> {
    dir + "/"@ + name
}

/// The path of `name` in the directory `dir`.
pub fn join_path(dir: &str, name: &str) -> (r: String)
    ensures
        r@ == child_path(dir@, name@),
{
    let mut s = dir.to_owned();
    s.append("/");
    s.append(name);
    s
}

impl ComponentRow {
    /// The entry of a name in the directory `dir`.
    pub open spec fn entry(self, dir: Seq<char>) -> EntryView {
        EntryView {
            name: self.component@,
            path: child_path(dir, self.component@),
            is_dir: self.is_dir,
            total_size: self.total_size,
            file_count: self.file_count,
            latest_atime: self.latest_atime,
        }
    }

    /// The entry of a name in the directory `dir`.
    pub fn to_entry(&self, dir: &str) -> (r: DirEntry)
        ensures
            r@ == self.entry(dir@),
    {
        DirEntry {
            name: self.component.clone(),
            path: join_path(dir, self.component.as_str()),
            is_dir: self.is_dir,
            total_size: self.total_size,
            file_count: self.file_count,
            latest_atime: self.latest_atime,
        }
    }
}

/// The entry that leads back up.
pub open spec fn parent_entry() -> EntryView {
    EntryView {
        name: ".."@,
        path: ".."@,
        is_dir: true,
        total_size: 0,
        file_count: 0,
        latest_atime: 0,
    }
}

/// The entry that leads back up.
pub fn make_parent_entry() -> (r: DirEntry)
    ensures
        r@ == parent_entry(),
{
    DirEntry {
        name: "..".to_owned(),
        path: "..".to_owned(),
        is_dir: true,
        total_size: 0,
        file_count: 0,
        latest_atime: 0,
    }
}

/// The entries of partition rows.
pub open spec fn partition_entries(rows: Seq<PartitionRow>) -> Seq<EntryView> {
    rows.map_values(|r: PartitionRow| r.entry())
}

/// The entries of file rows.
pub open spec fn file_entries(rows: Seq<FileRow>) -> Seq<EntryView> {
    rows.map_values(|r: FileRow| r.entry())
}

/// The entries of directory rows in the directory `dir`.
pub open spec fn component_entries(rows: Seq<ComponentRow>, dir: Seq<char>) -> Seq<EntryView> {
    rows.map_values(|r: ComponentRow| r.entry(dir))
}

/// Adds the entries of partition rows.
pub fn push_partitions(entries: &mut Vec<DirEntry>, rows: &Vec<PartitionRow>)
    ensures
        listing(final(entries)@) == listing(old(entries)@) + partition_entries(rows@),
{
    let mut i: usize = 0;
    assert(listing(entries@) =~= listing(old(entries)@) + partition_entries(rows@.take(0)));
    while i < rows.len()
        invariant
            i <= rows@.len(),
            listing(entries@) == listing(old(entries)@) + partition_entries(rows@.take(i as int)),
        decreases rows@.len() - i,
    {
        let ghost before = entries@;
        let e = rows[i].to_entry();
        entries.push(e);
        proof {
            assert(listing(entries@) =~= listing(before).push(e@));
            assert(partition_entries(rows@.take(i + 1)) =~= partition_entries(
                rows@.take(i as int),
            ).push(e@));
            assert(listing(entries@) =~= listing(old(entries)@) + partition_entries(
                rows@.take(i + 1),
            ));
        }
        i += 1;
    }
    assert(rows@.take(i as int) =~= rows@);
}

/// Adds the entries of file rows.
pub fn push_files(entries: &mut Vec<DirEntry>, rows: &Vec<FileRow>)
    ensures
        listing(final(entries)@) == listing(old(entries)@) + file_entries(rows@),
{
    let mut i: usize = 0;
    assert(listing(entries@) =~= listing(old(entries)@) + file_entries(rows@.take(0)));
    while i < rows.len()
        invariant
            i <= rows@.len(),
            listing(entries@) == listing(old(entries)@) + file_entries(rows@.take(i as int)),
        decreases rows@.len() - i,
    {
        let ghost before = entries@;
        let e = rows[i].to_entry();
        entries.push(e);
        proof {
            assert(listing(entries@) =~= listing(before).push(e@));
            assert(file_entries(rows@.take(i + 1)) =~= file_entries(rows@.take(i as int)).push(
                e@,
            ));
            assert(listing(entries@) =~= listing(old(entries)@) + file_entries(rows@.take(i + 1)));
        }
        i += 1;
    }
    assert(rows@.take(i as int) =~= rows@);
}

/// Adds the entries of directory rows in the directory `dir`.
pub fn push_components(entries: &mut Vec<DirEntry>, rows: &Vec<ComponentRow>, dir: &str)
    ensures
        listing(final(entries)@) == listing(old(entries)@) + component_entries(rows@, dir@),
{
    let mut i: usize = 0;
    assert(listing(entries@) =~= listing(old(entries)@) + component_entries(rows@.take(0), dir@));
    while i < rows.len()
        invariant
            i <= rows@.len(),
            listing(entries@) == listing(old(entries)@) + component_entries(
                rows@.take(i as int),
                dir@,
            ),
        decreases rows@.len() - i,
    {
        let ghost before = entries@;
        let e = rows[i].to_entry(dir);
        entries.push(e);
        proof {
            assert(listing(entries@) =~= listing(before).push(e@));
            assert(component_entries(rows@.take(i + 1), dir@) =~= component_entries(
                rows@.take(i as int),
                dir@,
            ).push(e@));
            assert(listing(entries@) =~= listing(old(entries)@) + component_entries(
                rows@.take(i + 1),
                dir@,
            ));
        }
        i += 1;
    }
    assert(rows@.take(i as int) =~= rows@);
}

/// The partition list: the partitions as they came, and where files stand
/// outside of any, those files among them in the order `mode`.
pub open spec fn merged_listing(
    partitions: Seq<EntryView>,
    files: Seq<EntryView>,
    mode: SortMode,
) -> Seq<EntryView> {
    if files.len() == 0 {
        partitions
    } else {
        sorted_listing(partitions + files, mode)
    }
}

/// Merges the files that stand outside of any partition into the partition list.
pub fn merge_files(entries: &mut Vec<DirEntry>, rows: &Vec<FileRow>, mode: SortMode)
    ensures
        listing(final(entries)@) == merged_listing(
            listing(old(entries)@),
            file_entries(rows@),
            mode,
        ),
{
    if rows.len() > 0 {
        push_files(entries, rows);
        sort_entries(entries, mode);
    }
}

} // verus!
