//! Text as sequences of characters: searching, trimming, splitting, numbers,
//! padding, cutting to a number of bytes, and order by bytes.

use vstd::prelude::*;
use vstd::utf8::{decode_utf8, encode_scalar, encode_utf8, valid_utf8};

verus! {

/// `String::push` appends one character.
pub assume_specification[ String::push ](s: &mut String, c: char)
    ensures
        final(s)@ == old(s)@.push(c),
;

/// `String::pop` removes the last character and hands it out, or leaves an
/// empty string alone.
pub assume_specification[ String::pop ](s: &mut String) -> (r: Option<char>)
    ensures
        old(s)@.len() == 0 ==> r is None && final(s)@ == old(s)@,
        old(s)@.len() > 0 ==> r == Some(old(s)@.last()) && final(s)@ == old(s)@.drop_last(),
;

/// `std::str::from_utf8` reads bytes as text: it succeeds exactly on valid
/// UTF-8, and gives the characters that the bytes encode.
#[verifier::external_body]
pub(crate) fn utf8_text(bytes: &[u8]) -> (r: Option<&str>)
    ensures
        r is Some <==> valid_utf8(bytes@),
        r matches Some(s) ==> s@ == decode_utf8(bytes@),
{
    std::str::from_utf8(bytes).ok()
}

/// The characters of `s`, one per element.
pub fn chars_of(s: &str) -> (r: Vec<char>)
    ensures
        r@ == s@,
{
    let mut v: Vec<char> = Vec::new();
    for c in it: s.chars()
        invariant
            v@ == it.seq().take(it.index() as int),
            it.seq() == s@,
    {
        v.push(c);
    }
    v
}

/// The characters `from..to` as a string.
pub fn string_of(chars: &Vec<char>, from: usize, to: usize) -> (r: String)
    requires
        from <= to <= chars@.len(),
    ensures
        r@ == chars@.subrange(from as int, to as int),
{
    let mut s = String::new();
    let mut i: usize = from;
    while i < to
        invariant
            from <= i <= to <= chars@.len(),
            s@ == chars@.subrange(from as int, i as int),
        decreases to - i,
    {
        s.push(chars[i]);
        i += 1;
        assert(chars@.subrange(from as int, i as int) == chars@.subrange(
            from as int,
            i - 1,
        ).push(chars@[i - 1]));
    }
    s
}

/// Whether two byte slices hold the same bytes.
pub fn same_bytes(a: &[u8], b: &[u8]) -> (r: bool)
    ensures
        r == (a@ == b@),
{
    if a.len() != b.len() {
        return false;
    }
    let mut i: usize = 0;
    while i < a.len()
        invariant
            i <= a@.len(),
            a@.len() == b@.len(),
            forall|k: int| 0 <= k < i ==> a@[k] == b@[k],
        decreases a@.len() - i,
    {
        if a[i] != b[i] {
            return false;
        }
        i += 1;
    }
    assert(a@ =~= b@);
    true
}

/// Whether two strings hold the same characters.
pub fn same(a: &str, b: &str) -> (r: bool)
    ensures
        r == (a@ == b@),
{
    proof {
        vstd::utf8::encode_utf8_decode_utf8(a@);
        vstd::utf8::encode_utf8_decode_utf8(b@);
    }
    same_bytes(a.as_bytes(), b.as_bytes())
}

/// Whether `s` begins with `p`.
pub open spec fn starts(s: Seq<char>, p: Seq<char>) -> bool {
    &&& p.len() <= s.len()
    &&& s.take(p.len() as int) == p
}

/// Whether `s` begins with `p`.
pub fn starts_with(s: &str, p: &str) -> (r: bool)
    ensures
        r == starts(s@, p@),
{
    let a = chars_of(s);
    let b = chars_of(p);
    if b.len() > a.len() {
        return false;
    }
    let mut i: usize = 0;
    while i < b.len()
        invariant
            i <= b@.len() <= a@.len(),
            forall|k: int| 0 <= k < i ==> a@[k] == b@[k],
            a@ == s@,
            b@ == p@,
        decreases b@.len() - i,
    {
        if a[i] != b[i] {
            assert(s@.take(p@.len() as int)[i as int] != p@[i as int]);
            return false;
        }
        i += 1;
    }
    assert(s@.take(p@.len() as int) =~= p@);
    true
}

/// Whether `p` occurs in `s`.
pub open spec fn occurs(s: Seq<char>, p: Seq<char>) -> bool {
    exists|i: int| 0 <= i <= s.len() - p.len() && #[trigger] s.subrange(i, i + p.len()) == p
}

/// Whether `p` occurs in `s`.
pub fn contains(s: &str, p: &str) -> (r: bool)
    ensures
        r == occurs(s@, p@),
{
    let a = chars_of(s);
    let b = chars_of(p);
    let n: usize = a.len();
    let m: usize = b.len();
    if m > n {
        return false;
    }
    let mut i: usize = 0;
    while i <= n - m
        invariant
            i <= n - m + 1,
            m <= n,
            n == a@.len(),
            m == b@.len(),
            a@ == s@,
            b@ == p@,
            forall|k: int| 0 <= k < i ==> #[trigger] s@.subrange(k, k + p@.len()) != p@,
        decreases n - m + 1 - i,
    {
        let mut j: usize = 0;
        while j < m && a[i + j] == b[j]
            invariant
                j <= m,
                i <= n - m,
                n == a@.len(),
                m == b@.len(),
                forall|k: int| 0 <= k < j ==> a@[i + k] == b@[k],
            decreases m - j,
        {
            j += 1;
        }
        if j == m {
            assert(s@.subrange(i as int, i + p@.len()) =~= p@);
            return true;
        }
        assert(s@.subrange(i as int, i + p@.len())[j as int] != p@[j as int]);
        if i == n - m {
            return false;
        }
        i += 1;
    }
    false
}

/// The Unicode `White_Space` property.
pub open spec fn white(c: char) -> bool {
    ||| '\u{9}' <= c <= '\u{D}'
    ||| c == '\u{20}'
    ||| c == '\u{85}'
    ||| c == '\u{A0}'
    ||| c == '\u{1680}'
    ||| '\u{2000}' <= c <= '\u{200A}'
    ||| c == '\u{2028}'
    ||| c == '\u{2029}'
    ||| c == '\u{202F}'
    ||| c == '\u{205F}'
    ||| c == '\u{3000}'
}

/// Whether `c` is white space.
pub fn is_white(c: char) -> (r: bool)
    ensures
        r == white(c),
{
    ('\u{9}' <= c && c <= '\u{D}') || c == '\u{20}' || c == '\u{85}' || c == '\u{A0}' || c
        == '\u{1680}' || ('\u{2000}' <= c && c <= '\u{200A}') || c == '\u{2028}' || c == '\u{2029}'
        || c == '\u{202F}' || c == '\u{205F}' || c == '\u{3000}'
}

/// How many leading characters of `s` are white space.
pub open spec fn leading_white(s: Seq<char>) -> int
    decreases s.len(),
{
    if s.len() > 0 && white(s[0]) {
        1 + leading_white(s.drop_first())
    } else {
        0
    }
}

/// How many characters of `s` are left when the white space at its end is gone.
pub open spec fn without_trailing_white(s: Seq<char>) -> int
    decreases s.len(),
{
    if s.len() > 0 && white(s.last()) {
        without_trailing_white(s.drop_last())
    } else {
        s.len() as int
    }
}

/// `s` without the white space at its start.
pub open spec fn trim_start(s: Seq<char>) -> Seq<char> {
    s.skip(leading_white(s))
}

/// `s` without the white space at its end.
pub open spec fn trim_end(s: Seq<char>) -> Seq<char> {
    s.take(without_trailing_white(s))
}

/// `s` without the white space at either end.
pub open spec fn trim(s: Seq<char>) -> Seq<char> {
    trim_end(trim_start(s))
}

proof fn lemma_leading_white_bounds(s: Seq<char>)
    ensures
        0 <= leading_white(s) <= s.len(),
        leading_white(s) < s.len() ==> !white(s[leading_white(s)]),
    decreases s.len(),
{
    if s.len() > 0 && white(s[0]) {
        lemma_leading_white_bounds(s.drop_first());
    }
}

proof fn lemma_trailing_white_bounds(s: Seq<char>)
    ensures
        0 <= without_trailing_white(s) <= s.len(),
        without_trailing_white(s) > 0 ==> !white(s[without_trailing_white(s) - 1]),
    decreases s.len(),
{
    if s.len() > 0 && white(s.last()) {
        lemma_trailing_white_bounds(s.drop_last());
    }
}

/// A trimmed text is empty, or begins and ends with something to see.
pub proof fn law_trim_edges(s: Seq<char>)
    ensures
        trim(s).len() <= s.len(),
        trim(s).len() > 0 ==> !white(trim(s)[0]) && !white(trim(s).last()),
{
    lemma_leading_white_bounds(s);
    let t = trim_start(s);
    lemma_trailing_white_bounds(t);
}

fn count_leading_white(chars: &Vec<char>) -> (n: usize)
    ensures
        n == leading_white(chars@),
        n <= chars@.len(),
{
    let mut i: usize = 0;
    assert(chars@.skip(0) =~= chars@);
    while i < chars.len() && is_white(chars[i])
        invariant
            i <= chars@.len(),
            leading_white(chars@) == i + leading_white(chars@.skip(i as int)),
        decreases chars@.len() - i,
    {
        assert(chars@.skip(i as int).drop_first() =~= chars@.skip(i + 1));
        i += 1;
    }
    i
}

/// `s` without the white space at its start.
pub fn trim_start_of(s: &str) -> (r: String)
    ensures
        r@ == trim_start(s@),
{
    let chars = chars_of(s);
    let from = count_leading_white(&chars);
    let r = string_of(&chars, from, chars.len());
    assert(r@ =~= trim_start(s@));
    r
}

/// `s` without the white space at either end.
pub fn trim_of(s: &str) -> (r: String)
    ensures
        r@ == trim(s@),
{
    let chars = chars_of(s);
    let from = count_leading_white(&chars);
    let ghost t = trim_start(s@);
    let mut to: usize = chars.len();
    assert(t.take(t.len() as int) =~= t);
    while to > from && is_white(chars[to - 1])
        invariant
            from <= to <= chars@.len(),
            t == chars@.skip(from as int),
            without_trailing_white(t) == without_trailing_white(t.take(to - from)),
        decreases to,
    {
        assert(t.take(to - from).drop_last() =~= t.take(to - from - 1));
        to -= 1;
    }
    let r = string_of(&chars, from, to);
    assert(r@ =~= trim(s@));
    r
}

/// How many leading characters of `s` are not white space.
pub open spec fn first_word_len(s: Seq<char>) -> int
    decreases s.len(),
{
    if s.len() > 0 && !white(s[0]) {
        1 + first_word_len(s.drop_first())
    } else {
        0
    }
}

/// The text before the first white space of `s`.
pub open spec fn first_word(s: Seq<char>) -> Seq<char> {
    s.take(first_word_len(s))
}

/// The text after the last white space of `s`.
pub open spec fn last_word(s: Seq<char>) -> Seq<char>
    decreases s.len(),
{
    if s.len() == 0 || white(s.last()) {
        Seq::empty()
    } else {
        last_word(s.drop_last()).push(s.last())
    }
}

/// The text before the first white space of `s`.
pub fn first_word_of(s: &str) -> (r: String)
    ensures
        r@ == first_word(s@),
{
    let chars = chars_of(s);
    let mut i: usize = 0;
    assert(chars@.skip(0) =~= chars@);
    while i < chars.len() && !is_white(chars[i])
        invariant
            i <= chars@.len(),
            first_word_len(chars@) == i + first_word_len(chars@.skip(i as int)),
        decreases chars@.len() - i,
    {
        assert(chars@.skip(i as int).drop_first() =~= chars@.skip(i + 1));
        i += 1;
    }
    string_of(&chars, 0, i)
}

/// The text after the last white space of `s`.
pub fn last_word_of(s: &str) -> (r: String)
    ensures
        r@ == last_word(s@),
{
    let chars = chars_of(s);
    let mut from: usize = chars.len();
    assert(chars@.take(chars@.len() as int) =~= chars@);
    while from > 0 && !is_white(chars[from - 1])
        invariant
            from <= chars@.len(),
            last_word(chars@) == last_word(chars@.take(from as int)) + chars@.skip(from as int),
        decreases from,
    {
        assert(chars@.take(from as int).drop_last() =~= chars@.take(from - 1));
        assert(last_word(chars@.take(from - 1)).push(chars@[from - 1]) + chars@.skip(from as int)
            =~= last_word(chars@.take(from - 1)) + chars@.skip(from - 1));
        from -= 1;
    }
    let r = string_of(&chars, from, chars.len());
    assert(r@ =~= Seq::<char>::empty() + chars@.skip(from as int));
    r
}

/// The position of the last `c` in `s`.
pub open spec fn rfind(s: Seq<char>, c: char) -> Option<int>
    decreases s.len(),
{
    if s.len() == 0 {
        None
    } else if s.last() == c {
        Some(s.len() - 1)
    } else {
        rfind(s.drop_last(), c)
    }
}

/// The text after the last `c` of `s`: all of `s` where it has none.
pub open spec fn after_last(s: Seq<char>, c: char) -> Seq<char> {
    match rfind(s, c) {
        Some(i) => s.skip(i + 1),
        None => s,
    }
}

/// The text before the last `c` of `s`, if it has one.
pub open spec fn before_last(s: Seq<char>, c: char) -> Option<Seq<char>> {
    match rfind(s, c) {
        Some(i) => Some(s.take(i)),
        None => None,
    }
}

/// `rfind` is the one position of `c` that no other follows.
pub proof fn lemma_rfind(s: Seq<char>, c: char)
    ensures
        rfind(s, c) matches Some(i) ==> 0 <= i < s.len() && s[i] == c && forall|k: int|
            i < k < s.len() ==> s[k] != c,
        rfind(s, c) is None ==> forall|k: int| 0 <= k < s.len() ==> s[k] != c,
    decreases s.len(),
{
    if s.len() > 0 && s.last() != c {
        lemma_rfind(s.drop_last(), c);
        let t = s.drop_last();
        assert forall|k: int| 0 <= k < s.len() - 1 implies s[k] == t[k] by {}
    }
}

/// Behind a text that lacks `c`, the `c` in front of it is the last one.
pub proof fn lemma_rfind_join(a: Seq<char>, c: char, b: Seq<char>)
    requires
        !b.contains(c),
    ensures
        rfind(a.push(c) + b, c) == Some(a.len() as int),
        before_last(a.push(c) + b, c) == Some(a),
        after_last(a.push(c) + b, c) == b,
{
    let s = a.push(c) + b;
    lemma_rfind(s, c);
    assert(s[a.len() as int] == c);
    match rfind(s, c) {
        Some(i) => {
            if i > a.len() {
                assert(s[i] == b[i - a.len() - 1]);
            }
        },
        None => {},
    }
    assert(s.take(a.len() as int) =~= a);
    assert(s.skip(a.len() as int + 1) =~= b);
}

fn find_last(chars: &Vec<char>, c: char) -> (r: Option<usize>)
    ensures
        r is Some <==> rfind(chars@, c) is Some,
        r matches Some(i) ==> rfind(chars@, c) == Some(i as int) && i < chars@.len(),
{
    let mut n: usize = chars.len();
    assert(chars@.take(chars@.len() as int) =~= chars@);
    while n > 0
        invariant
            n <= chars@.len(),
            rfind(chars@, c) == rfind(chars@.take(n as int), c),
        decreases n,
    {
        assert(chars@.take(n as int).drop_last() =~= chars@.take(n - 1));
        if chars[n - 1] == c {
            return Some(n - 1);
        }
        n -= 1;
    }
    None
}

/// The text after the last `c` of `s`: all of `s` where it has none.
pub fn after_last_of(s: &str, c: char) -> (r: String)
    ensures
        r@ == after_last(s@, c),
{
    let chars = chars_of(s);
    let n: usize = chars.len();
    match find_last(&chars, c) {
        Some(i) => string_of(&chars, i + 1, n),
        None => s.to_owned(),
    }
}

/// The text before the last `c` of `s`, if it has one.
pub fn before_last_of(s: &str, c: char) -> (r: Option<String>)
    ensures
        r is Some <==> before_last(s@, c) is Some,
        r matches Some(t) ==> before_last(s@, c) == Some(t@),
{
    let chars = chars_of(s);
    match find_last(&chars, c) {
        Some(i) => Some(string_of(&chars, 0, i)),
        None => None,
    }
}

/// How many characters stand before the first `c` of `s`.
pub open spec fn until(s: Seq<char>, c: char) -> int
    decreases s.len(),
{
    if s.len() > 0 && s[0] != c {
        1 + until(s.drop_first(), c)
    } else {
        0
    }
}

/// `until` reaches the first `c`, or the end.
pub proof fn lemma_until(s: Seq<char>, c: char)
    ensures
        0 <= until(s, c) <= s.len(),
        until(s, c) < s.len() ==> s[until(s, c)] == c,
        forall|k: int| 0 <= k < until(s, c) ==> s[k] != c,
    decreases s.len(),
{
    if s.len() > 0 && s[0] != c {
        let t = s.drop_first();
        lemma_until(t, c);
        assert forall|k: int| 0 <= k < until(s, c) implies s[k] != c by {
            if k > 0 {
                assert(s[k] == t[k - 1]);
            }
        }
    }
}

/// The pieces of `s` between its `c`s: one more than there are `c`s.
pub open spec fn split(s: Seq<char>, c: char) -> Seq<Seq<char>>
    decreases s.len(),
    via split_decreases
{
    let n = until(s, c);
    if n < s.len() {
        seq![s.take(n)] + split(s.skip(n + 1), c)
    } else {
        seq![s]
    }
}

#[via_fn]
proof fn split_decreases(s: Seq<char>, c: char) {
    lemma_until(s, c);
}

/// The texts of a list of strings.
pub open spec fn texts(s: Seq<String>) -> Seq<Seq<char>> {
    s.map_values(|t: String| t@)
}

/// The pieces of `s` between its `c`s.
pub fn split_of(s: &str, c: char) -> (r: Vec<String>)
    ensures
        texts(r@) == split(s@, c),
        r@.len() > 0,
{
    let chars = chars_of(s);
    let mut r: Vec<String> = Vec::new();
    let mut from: usize = 0;
    let mut i: usize = 0;
    assert(chars@.skip(0) =~= chars@);
    assert(texts(r@) =~= Seq::<Seq<char>>::empty());
    assert(split(s@, c) =~= texts(r@) + split(chars@, c));
    while i < chars.len()
        invariant
            from <= i <= chars@.len(),
            chars@ == s@,
            split(s@, c) == texts(r@) + split(chars@.skip(from as int), c),
            until(chars@.skip(from as int), c) == i - from + until(chars@.skip(i as int), c),
        decreases chars@.len() - i,
    {
        let ghost rest = chars@.skip(i as int);
        proof {
            lemma_until(rest, c);
            assert(rest.drop_first() =~= chars@.skip(i + 1));
        }
        if chars[i] == c {
            let piece = string_of(&chars, from, i);
            let ghost before = r@;
            r.push(piece);
            proof {
                let t = chars@.skip(from as int);
                assert(until(t, c) == i - from);
                assert(t.take(i - from) =~= piece@);
                assert(t.skip(i - from + 1) =~= chars@.skip(i + 1));
                assert(texts(r@) =~= texts(before).push(piece@));
                assert(texts(before) + split(t, c) =~= texts(r@) + split(chars@.skip(i + 1), c));
            }
            from = i + 1;
        }
        i += 1;
    }
    let piece = string_of(&chars, from, chars.len());
    let ghost before = r@;
    r.push(piece);
    proof {
        let t = chars@.skip(from as int);
        assert(chars@.skip(i as int) =~= Seq::<char>::empty());
        assert(piece@ =~= t);
        assert(texts(r@) =~= texts(before) + seq![t]);
    }
    r
}

/// The pieces of `path` between its slashes that are not empty.
pub open spec fn components(path: Seq<char>) -> Seq<Seq<char>> {
    split(path, '/').filter(|p: Seq<char>| p.len() > 0)
}

/// The pieces of `path` between its slashes that are not empty.
pub fn components_of(path: &str) -> (r: Vec<String>)
    ensures
        texts(r@) == components(path@),
{
    let pieces = split_of(path, '/');
    let mut r: Vec<String> = Vec::new();
    let mut i: usize = 0;
    let ghost all = split(path@, '/');
    let ghost kept = |p: Seq<char>| p.len() > 0;
    assert(all.take(0).filter(kept) =~= Seq::empty()) by {
        reveal(Seq::filter);
    }
    assert(texts(r@) =~= Seq::<Seq<char>>::empty());
    while i < pieces.len()
        invariant
            i <= pieces@.len(),
            all == texts(pieces@),
            kept == (|p: Seq<char>| p.len() > 0),
            texts(r@) == all.take(i as int).filter(kept),
        decreases pieces@.len() - i,
    {
        let piece = pieces[i].clone();
        proof {
            reveal(Seq::filter);
            assert(all.take(i + 1).drop_last() =~= all.take(i as int));
            assert(all.take(i + 1).last() == piece@);
        }
        if !piece.as_str().is_empty() {
            let ghost before = r@;
            r.push(piece);
            assert(texts(r@) =~= texts(before).push(piece@));
        }
        i += 1;
    }
    assert(all.take(all.len() as int) =~= all);
    r
}

/// A letter `A` to `Z` becomes `a` to `z`; anything else stays.
pub open spec fn lower(c: char) -> char {
    if 'A' <= c <= 'Z' {
        ((c as u32 + 32) as u32) as char
    } else {
        c
    }
}

/// `s` with its ASCII letters in lower case.
pub open spec fn ascii_lower(s: Seq<char>) -> Seq<char> {
    s.map_values(|c: char| lower(c))
}

/// `s` with its ASCII letters in lower case.
pub fn ascii_lower_of(s: &str) -> (r: String)
    ensures
        r@ == ascii_lower(s@),
{
    let chars = chars_of(s);
    let mut r = String::new();
    let mut i: usize = 0;
    while i < chars.len()
        invariant
            i <= chars@.len(),
            r@ == ascii_lower(chars@.take(i as int)),
        decreases chars@.len() - i,
    {
        let c = chars[i];
        let l: char = if 'A' <= c && c <= 'Z' {
            ((c as u8) + 32) as char
        } else {
            c
        };
        r.push(l);
        assert(ascii_lower(chars@.take(i + 1)) =~= ascii_lower(chars@.take(i as int)).push(
            lower(chars@[i as int]),
        ));
        i += 1;
    }
    assert(chars@.take(chars@.len() as int) =~= s@);
    r
}

/// The decimal digit `d`.
pub open spec fn digit(d: nat) -> char {
    ((48 + d) as u32) as char
}

/// `n` in decimal.
pub open spec fn decimal(n: nat) -> Seq<char>
    decreases n,
{
    if n < 10 {
        seq![digit(n)]
    } else {
        decimal(n / 10).push(digit(n % 10))
    }
}

/// `n` in decimal, with a minus sign in front where it is negative.
pub open spec fn signed_decimal(n: int) -> Seq<char> {
    if n < 0 {
        seq!['-'] + decimal((-n) as nat)
    } else {
        decimal(n as nat)
    }
}

/// `n` in decimal.
pub fn decimal_of(n: u64) -> (r: String)
    ensures
        r@ == decimal(n as nat),
    decreases n,
{
    let mut s = if n < 10 {
        String::new()
    } else {
        decimal_of(n / 10)
    };
    let d: u8 = 48 + (n % 10) as u8;
    s.push(d as char);
    assert(Seq::<char>::empty().push(digit((n % 10) as nat)) =~= seq![digit((n % 10) as nat)]);
    s
}

/// `n` in decimal, with a minus sign in front where it is negative.
pub fn signed_decimal_of(n: i64) -> (r: String)
    ensures
        r@ == signed_decimal(n as int),
{
    if n < 0 {
        let m: u64 = (-(n + 1)) as u64 + 1;
        let mut s = String::new();
        s.push('-');
        let d = decimal_of(m);
        s.append(d.as_str());
        assert(Seq::<char>::empty().push('-') =~= seq!['-']);
        s
    } else {
        decimal_of(n as u64)
    }
}

/// The number that a row of decimal digits writes.
pub open spec fn digits_value(s: Seq<char>) -> nat
    decreases s.len(),
{
    if s.len() == 0 {
        0
    } else {
        10 * digits_value(s.drop_last()) + ((s.last() as u32 - 48) as nat)
    }
}

/// Whether `s` is a row of decimal digits.
pub open spec fn all_digits(s: Seq<char>) -> bool {
    forall|i: int| 0 <= i < s.len() ==> '0' <= #[trigger] s[i] <= '9'
}

/// `s` without one leading plus sign.
pub open spec fn unsigned_part(s: Seq<char>) -> Seq<char> {
    if s.len() > 0 && s[0] == '+' {
        s.skip(1)
    } else {
        s
    }
}

/// The number that `s` writes: decimal digits, at least one, behind at most one
/// plus sign, and no more than fits in 64 bits.
pub open spec fn parsed_u64(s: Seq<char>) -> Option<u64> {
    let d = unsigned_part(s);
    if d.len() > 0 && all_digits(d) && digits_value(d) <= u64::MAX {
        Some(digits_value(d) as u64)
    } else {
        None
    }
}

proof fn lemma_digits_value_grows(s: Seq<char>, n: int)
    requires
        0 <= n <= s.len(),
    ensures
        digits_value(s.take(n)) <= digits_value(s),
    decreases s.len() - n,
{
    if n < s.len() {
        lemma_digits_value_grows(s, n + 1);
        assert(s.take(n + 1).drop_last() =~= s.take(n));
    } else {
        assert(s.take(n) =~= s);
    }
}

/// The number that `s` writes, if it writes one.
pub fn parse_u64(s: &str) -> (r: Option<u64>)
    ensures
        r == parsed_u64(s@),
{
    let chars = chars_of(s);
    let from: usize = if chars.len() > 0 && chars[0] == '+' {
        1
    } else {
        0
    };
    let ghost d = unsigned_part(s@);
    assert(d =~= chars@.skip(from as int));
    if from == chars.len() {
        return None;
    }
    let mut n: u64 = 0;
    let mut i: usize = from;
    assert(d.take(0) =~= Seq::<char>::empty());
    while i < chars.len()
        invariant
            from <= i <= chars@.len(),
            from <= 1,
            from < chars@.len(),
            d == chars@.skip(from as int),
            d == unsigned_part(s@),
            all_digits(d.take(i - from)),
            n == digits_value(d.take(i - from)),
        decreases chars@.len() - i,
    {
        let c = chars[i];
        let ghost k = i - from;
        assert(d.take(k + 1).drop_last() =~= d.take(k));
        assert(d[k] == c);
        if !('0' <= c && c <= '9') {
            return None;
        }
        let v: u64 = (c as u8 - 48) as u64;
        proof {
            assert forall|j: int| 0 <= j < k + 1 implies '0' <= #[trigger] d.take(k + 1)[j]
                <= '9' by {
                if j < k {
                    assert(d.take(k)[j] == d.take(k + 1)[j]);
                }
            }
            lemma_digits_value_grows(d, k + 1);
            assert(digits_value(d.take(k + 1)) == 10 * n + v);
        }
        if n > (u64::MAX - v) / 10 {
            return None;
        }
        n = n * 10 + v;
        i += 1;
    }
    assert(d.take(d.len() as int) =~= d);
    Some(n)
}

/// `n` spaces.
pub open spec fn spaces(n: int) -> Seq<char> {
    Seq::new(
        if n > 0 {
            n as nat
        } else {
            0
        },
        |i: int| ' ',
    )
}

/// `s` with spaces behind it up to `width` characters.
pub open spec fn left_aligned(s: Seq<char>, width: int) -> Seq<char> {
    s + spaces(width - s.len())
}

/// `s` with spaces before it up to `width` characters.
pub open spec fn right_aligned(s: Seq<char>, width: int) -> Seq<char> {
    spaces(width - s.len()) + s
}

fn spaces_of(n: usize) -> (r: String)
    ensures
        r@ == spaces(n as int),
{
    let mut s = String::new();
    let mut i: usize = 0;
    assert(s@ =~= spaces(0));
    while i < n
        invariant
            i <= n,
            s@ == spaces(i as int),
        decreases n - i,
    {
        s.push(' ');
        i += 1;
        assert(s@ =~= spaces(i as int));
    }
    s
}

fn missing(s: &str, width: usize) -> (r: usize)
    ensures
        s@.len() <= width ==> r == width - s@.len(),
        s@.len() > width ==> r == 0,
{
    let n: usize = chars_of(s).len();
    if n < width {
        width - n
    } else {
        0
    }
}

/// `s` with spaces behind it up to `width` characters.
pub fn align_left(s: &str, width: usize) -> (r: String)
    ensures
        r@ == left_aligned(s@, width as int),
{
    let mut r = s.to_owned();
    let gap = spaces_of(missing(s, width));
    r.append(gap.as_str());
    assert(r@ =~= left_aligned(s@, width as int));
    r
}

/// `s` with spaces before it up to `width` characters.
pub fn align_right(s: &str, width: usize) -> (r: String)
    ensures
        r@ == right_aligned(s@, width as int),
{
    let mut r = spaces_of(missing(s, width));
    r.append(s);
    assert(r@ =~= right_aligned(s@, width as int));
    r
}

/// The bytes that `s` takes in UTF-8.
pub open spec fn byte_len(s: Seq<char>) -> nat {
    encode_utf8(s).len()
}

/// The bytes that `s` takes in UTF-8.
pub fn byte_len_of(s: &str) -> (r: usize)
    ensures
        r == byte_len(s@),
{
    s.as_bytes().len()
}

/// A text takes at least one byte for each character.
pub proof fn lemma_byte_len(s: Seq<char>)
    ensures
        s.len() <= byte_len(s),
    decreases s.len(),
{
    if s.len() > 0 {
        lemma_byte_len(s.drop_first());
        vstd::utf8::char_is_scalar(s[0]);
        assert(vstd::utf8::encode_scalar(s[0] as u32).len() >= 1);
        assert(encode_utf8(s) =~= vstd::utf8::encode_scalar(s[0] as u32) + encode_utf8(
            s.drop_first(),
        ));
    }
}

/// Encoding two texts joined gives their encodings joined.
pub proof fn lemma_encode_join(a: Seq<char>, b: Seq<char>)
    ensures
        encode_utf8(a + b) == encode_utf8(a) + encode_utf8(b),
        byte_len(a + b) == byte_len(a) + byte_len(b),
    decreases a.len(),
{
    if a.len() == 0 {
        assert(a + b =~= b);
        assert(encode_utf8(a) =~= Seq::<u8>::empty());
        assert(encode_utf8(a) + encode_utf8(b) =~= encode_utf8(b));
    } else {
        lemma_encode_join(a.drop_first(), b);
        assert((a + b).drop_first() =~= a.drop_first() + b);
        assert((a + b)[0] == a[0]);
        let head = vstd::utf8::encode_scalar(a[0] as u32);
        assert(encode_utf8(a + b) =~= head + encode_utf8((a + b).drop_first()));
        assert(encode_utf8(a) =~= head + encode_utf8(a.drop_first()));
        assert(encode_utf8(a + b) =~= encode_utf8(a) + encode_utf8(b));
    }
}

/// The bytes that a character takes in UTF-8.
pub open spec fn char_bytes(c: char) -> int {
    encode_scalar(c as u32).len() as int
}

fn char_bytes_of(c: char) -> (r: usize)
    ensures
        r == char_bytes(c),
        1 <= r <= 4,
{
    proof {
        vstd::utf8::char_is_scalar(c);
    }
    let v: u32 = c as u32;
    if v < 0x80 {
        1
    } else if v < 0x800 {
        2
    } else if v < 0x10000 {
        3
    } else {
        4
    }
}

/// How many characters of `s`, from its start on, take no more than `n` bytes
/// together.
pub open spec fn chars_within(s: Seq<char>, n: int) -> int
    decreases s.len(),
{
    if s.len() > 0 && char_bytes(s[0]) <= n {
        1 + chars_within(s.drop_first(), n - char_bytes(s[0]))
    } else {
        0
    }
}

/// Those characters take no more than `n` bytes, and one more would.
pub proof fn lemma_chars_within(s: Seq<char>, n: int)
    ensures
        0 <= chars_within(s, n) <= s.len(),
        chars_within(s, n) > 0 ==> byte_len(s.take(chars_within(s, n))) <= n,
        chars_within(s, n) < s.len() ==> byte_len(s.take(chars_within(s, n) + 1)) > n,
    decreases s.len(),
{
    if s.len() > 0 {
        let t = s.drop_first();
        let w = char_bytes(s[0]);
        lemma_byte_len_front(s, 1);
        assert(t.take(0) =~= Seq::<char>::empty());
        assert(encode_utf8(t.take(0)) =~= Seq::<u8>::empty());
        if w <= n {
            lemma_chars_within(t, n - w);
            let k = chars_within(s, n);
            lemma_byte_len_front(s, k);
            if k < s.len() {
                lemma_byte_len_front(s, k + 1);
            }
        }
    }
}

proof fn lemma_byte_len_front(s: Seq<char>, k: int)
    requires
        0 < k <= s.len(),
    ensures
        byte_len(s.take(k)) == char_bytes(s[0]) + byte_len(s.drop_first().take(k - 1)),
{
    let t = s.take(k);
    assert(t.drop_first() =~= s.drop_first().take(k - 1));
    assert(encode_utf8(t) =~= encode_scalar(t[0] as u32) + encode_utf8(t.drop_first()));
}

/// Where a character ends at byte `n`, the cut is there.
pub proof fn law_cut_at_boundary(s: Seq<char>, k: int, n: int)
    requires
        0 <= k <= s.len(),
        byte_len(s.take(k)) == n,
    ensures
        chars_within(s, n) == k,
    decreases s.len(),
{
    if k == 0 {
        assert(encode_utf8(s.take(0)) =~= Seq::<u8>::empty());
        if s.len() > 0 {
            vstd::utf8::char_is_scalar(s[0]);
        }
    } else {
        lemma_byte_len_front(s, k);
        law_cut_at_boundary(s.drop_first(), k - 1, n - char_bytes(s[0]));
    }
}

/// As much of `s` as takes no more than `n` bytes, cut between characters.
pub fn cut_within(s: &str, n: usize) -> (r: String)
    ensures
        r@ == s@.take(chars_within(s@, n as int)),
{
    let chars = chars_of(s);
    let mut left: usize = n;
    let mut i: usize = 0;
    assert(chars@.skip(0) =~= chars@);
    while i < chars.len() && char_bytes_of(chars[i]) <= left
        invariant
            i <= chars@.len(),
            chars@ == s@,
            chars_within(s@, n as int) == i + chars_within(chars@.skip(i as int), left as int),
        decreases chars@.len() - i,
    {
        assert(chars@.skip(i as int).drop_first() =~= chars@.skip(i + 1));
        left = left - char_bytes_of(chars[i]);
        i += 1;
    }
    let r = string_of(&chars, 0, i);
    assert(r@ =~= s@.take(chars_within(s@, n as int)));
    r
}

/// Whether `a` comes before `b` when strings are ordered by their bytes.
pub open spec fn bytes_less(a: Seq<u8>, b: Seq<u8>) -> bool
    decreases a.len(),
{
    if b.len() == 0 {
        false
    } else if a.len() == 0 {
        true
    } else if a[0] != b[0] {
        a[0] < b[0]
    } else {
        bytes_less(a.drop_first(), b.drop_first())
    }
}

/// Whether `a` comes before `b` when strings are ordered by their bytes.
pub fn text_less(a: &str, b: &str) -> (r: bool)
    ensures
        r == bytes_less(encode_utf8(a@), encode_utf8(b@)),
{
    let x = a.as_bytes();
    let y = b.as_bytes();
    let mut i: usize = 0;
    assert(x@.skip(0) =~= x@);
    assert(y@.skip(0) =~= y@);
    while i < x.len() && i < y.len() && x[i] == y[i]
        invariant
            i <= x@.len(),
            i <= y@.len(),
            bytes_less(x@, y@) == bytes_less(x@.skip(i as int), y@.skip(i as int)),
        decreases x@.len() - i,
    {
        assert(x@.skip(i as int).drop_first() =~= x@.skip(i + 1));
        assert(y@.skip(i as int).drop_first() =~= y@.skip(i + 1));
        i += 1;
    }
    if i == y.len() {
        false
    } else if i == x.len() {
        true
    } else {
        x[i] < y[i]
    }
}

/// The order by bytes is strict and total: of two texts, neither comes before
/// the other only where they are the same.
pub proof fn lemma_bytes_less_total(a: Seq<u8>, b: Seq<u8>)
    ensures
        !bytes_less(a, a),
        bytes_less(a, b) ==> !bytes_less(b, a),
        !bytes_less(a, b) && !bytes_less(b, a) ==> a == b,
    decreases a.len(),
{
    if a.len() > 0 && b.len() > 0 {
        lemma_bytes_less_total(a.drop_first(), b.drop_first());
        if a[0] == b[0] {
            assert(seq![a[0]] + a.drop_first() =~= a);
            assert(seq![b[0]] + b.drop_first() =~= b);
        }
    }
    if a.len() > 0 {
        lemma_bytes_less_total(a.drop_first(), a.drop_first());
    }
    if a.len() == 0 && b.len() == 0 {
        assert(a =~= b);
    }
}

/// The order by bytes is transitive.
pub proof fn lemma_bytes_less_transitive(a: Seq<u8>, b: Seq<u8>, c: Seq<u8>)
    requires
        bytes_less(a, b),
        bytes_less(b, c),
    ensures
        bytes_less(a, c),
    decreases a.len(),
{
    if a.len() > 0 && b.len() > 0 && c.len() > 0 && a[0] == b[0] && b[0] == c[0] {
        lemma_bytes_less_transitive(a.drop_first(), b.drop_first(), c.drop_first());
    }
}

} // verus!
