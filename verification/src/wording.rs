//! What texts and numbers say, told by how they can be read back.

use vstd::prelude::*;

use crate::ansi::{csi_len, escape_len, osc_len, stripped, BEL, ESC};
use crate::format::{atime_text, count_unit, file_count_text};
use crate::text::{
    after_last, all_digits, ascii_lower, before_last, components, decimal, digit, digits_value,
    first_word, first_word_len, last_word, leading_white, lemma_rfind, lemma_until, occurs,
    parsed_u64, signed_decimal, split, starts, trim, until, white, without_trailing_white,
};

verus! {

proof fn lemma_digit(d: nat)
    requires
        d < 10,
    ensures
        '0' <= digit(d) <= '9',
        digit(d) as u32 == 48 + d,
{
}

proof fn lemma_decimal(n: nat)
    ensures
        decimal(n).len() > 0,
        all_digits(decimal(n)),
        digits_value(decimal(n)) == n,
    decreases n,
{
    reveal_with_fuel(digits_value, 2);
    lemma_digit(n % 10);
    if n >= 10 {
        let t = decimal(n / 10);
        lemma_decimal(n / 10);
        assert(decimal(n).drop_last() =~= t);
        assert forall|i: int| 0 <= i < decimal(n).len() implies '0' <= #[trigger] decimal(n)[i]
            <= '9' by {
            if i < t.len() {
                assert(t[i] == decimal(n)[i]);
            }
        }
    } else {
        assert(decimal(n).drop_last() =~= Seq::<char>::empty());
    }
}

/// A number in decimal reads back as that number, with a plus sign before it or
/// without.
pub proof fn law_parse_decimal(n: u64)
    ensures
        parsed_u64(decimal(n as nat)) == Some(n),
        parsed_u64(seq!['+'] + decimal(n as nat)) == Some(n),
        decimal(n as nat).len() > 0,
{
    lemma_decimal(n as nat);
    let d = decimal(n as nat);
    assert('0' <= d[0] <= '9');
    assert((seq!['+'] + d).skip(1) =~= d);
}

/// Two numbers in decimal are the same text only if they are the same number.
pub proof fn law_decimal_tells_apart(a: nat, b: nat)
    ensures
        decimal(a) == decimal(b) ==> a == b,
        signed_decimal(a as int) == decimal(a),
        b > 0 ==> signed_decimal(-(b as int)) == seq!['-'] + decimal(b),
{
    lemma_decimal(a);
    lemma_decimal(b);
}

/// A file count is told in full below a thousand, and from there on in thousands,
/// millions or billions, as it was scaled.
pub proof fn law_file_count_words(count: int, scaled: Seq<char>)
    ensures
        count == 1 ==> file_count_text(count, scaled) == "1 file"@,
        0 <= count < 1_000 && count != 1 ==> file_count_text(count, scaled) == decimal(count as nat)
            + " files"@,
        count < 0 ==> file_count_text(count, scaled) == seq!['-'] + decimal((-count) as nat)
            + " files"@,
        1_000 <= count < 1_000_000 ==> file_count_text(count, scaled) == scaled + "K"@ + " files"@,
        1_000_000 <= count < 1_000_000_000 ==> file_count_text(count, scaled) == scaled + "M"@
            + " files"@,
        1_000_000_000 <= count ==> file_count_text(count, scaled) == scaled + "B"@ + " files"@,
{
}

/// A file count is scaled by the largest of a thousand, a million and a billion that
/// is not larger than it.
pub proof fn law_count_scale(count: int)
    ensures
        count_unit(count) is None <==> count < 1_000,
        count_unit(count) matches Some(u) ==> {
            &&& u.0 <= count
            &&& u.0 == 1_000 || u.0 == 1_000_000 || u.0 == 1_000_000_000
            &&& u.0 < 1_000_000_000 ==> count < 1_000 * u.0
        },
{
}

/// An access time is told by the whole days, months of 30 days or years of 365 days
/// since, in the largest of these that is at least one; there is nothing to tell of
/// no time, and one that is still to come is told as that.
pub proof fn law_age_words(atime: int, now: int)
    ensures
        ({
            let t = atime_text(atime, now);
            let day = 24 * 60 * 60int;
            let since = now - atime;
            &&& atime == 0 ==> t.len() == 0
            &&& atime != 0 && now < atime ==> t == "future"@
            &&& atime != 0 && 0 <= since < day ==> t == "today"@
            &&& atime != 0 && day <= since < 2 * day ==> t == "1 day ago"@
            &&& atime != 0 && 2 * day <= since < 30 * day ==> exists|n: nat|
                t == #[trigger] decimal(n) + " days ago"@ && n * day <= since < (n + 1) * day
            &&& atime != 0 && 30 * day <= since < 60 * day ==> t == "1 month ago"@
            &&& atime != 0 && 60 * day <= since < 365 * day ==> exists|n: nat|
                t == #[trigger] decimal(n) + " months ago"@ && n * 30 * day <= since < (n + 1) * 30
                    * day
            &&& atime != 0 && 365 * day <= since < 730 * day ==> t == "1 year ago"@
            &&& atime != 0 && 730 * day <= since ==> exists|n: nat|
                t == #[trigger] decimal(n) + " years ago"@ && n * 365 * day <= since < (n + 1) * 365
                    * day
        }),
{
    let since = now - atime;
    if atime != 0 && since >= 0 {
        let days = since / 86400;
        assert(days * 86400 <= since < (days + 1) * 86400);
        let months = days / 30;
        let years = days / 365;
        assert(months * 30 <= days < (months + 1) * 30);
        assert(years * 365 <= days < (years + 1) * 365);
        if 2 <= days < 30 {
            assert(atime_text(atime, now) == decimal(days as nat) + " days ago"@);
        } else if 60 <= days < 365 {
            assert(atime_text(atime, now) == decimal(months as nat) + " months ago"@);
        } else if days >= 730 {
            assert(atime_text(atime, now) == decimal(years as nat) + " years ago"@);
        }
    }
}

/// Trimming takes off just the white space around a text.
pub proof fn law_trim(before: Seq<char>, s: Seq<char>, behind: Seq<char>)
    requires
        forall|i: int| 0 <= i < before.len() ==> white(#[trigger] before[i]),
        forall|i: int| 0 <= i < behind.len() ==> white(#[trigger] behind[i]),
        s.len() > 0 ==> !white(s[0]) && !white(s.last()),
        s.len() == 0 ==> behind.len() == 0,
    ensures
        trim(before + s + behind) == s,
{
    let whole = before + s + behind;
    lemma_leading(before, s + behind);
    assert(whole =~= before + (s + behind));
    let rest = whole.skip(before.len() as int);
    assert(rest =~= s + behind);
    lemma_trailing(s, behind);
    assert(rest.take(s.len() as int) =~= s);
}

/// White space at the start of a text is all of it that comes before something else.
pub proof fn lemma_leading(a: Seq<char>, b: Seq<char>)
    requires
        forall|i: int| 0 <= i < a.len() ==> white(#[trigger] a[i]),
        b.len() > 0 ==> !white(b[0]),
    ensures
        leading_white(a + b) == a.len(),
    decreases a.len(),
{
    let s = a + b;
    if a.len() > 0 {
        assert(white(a[0]));
        assert(s.drop_first() =~= a.drop_first() + b);
        assert forall|i: int| 0 <= i < a.drop_first().len() implies white(
            #[trigger] a.drop_first()[i],
        ) by {
            assert(white(a[i + 1]));
        }
        lemma_leading(a.drop_first(), b);
    } else {
        assert(s =~= b);
    }
}

proof fn lemma_trailing(a: Seq<char>, b: Seq<char>)
    requires
        forall|i: int| 0 <= i < b.len() ==> white(#[trigger] b[i]),
        a.len() > 0 ==> !white(a.last()),
    ensures
        without_trailing_white(a + b) == a.len(),
    decreases b.len(),
{
    let s = a + b;
    if b.len() > 0 {
        assert(white(b[b.len() - 1]));
        assert(s.last() == b.last());
        assert(s.drop_last() =~= a + b.drop_last());
        assert forall|i: int| 0 <= i < b.drop_last().len() implies white(
            #[trigger] b.drop_last()[i],
        ) by {
            assert(white(b[i]));
        }
        lemma_trailing(a, b.drop_last());
    } else {
        assert(s =~= a);
    }
}

/// The first word of a text ends before its first white space, and the last word
/// begins behind its last.
pub proof fn law_words(first: Seq<char>, space: char, rest: Seq<char>, last: Seq<char>)
    requires
        white(space),
        forall|i: int| 0 <= i < first.len() ==> !white(#[trigger] first[i]),
        forall|i: int| 0 <= i < last.len() ==> !white(#[trigger] last[i]),
    ensures
        first_word(first + seq![space] + rest) == first,
        first_word(first) == first,
        last_word(rest + seq![space] + last) == last,
        last_word(last) == last,
{
    lemma_first_word(first, seq![space] + rest);
    assert(first + seq![space] + rest =~= first + (seq![space] + rest));
    assert((first + (seq![space] + rest)).take(first.len() as int) =~= first);
    lemma_first_word(first, Seq::empty());
    assert(first + Seq::<char>::empty() =~= first);
    assert(first.take(first.len() as int) =~= first);
    lemma_last_word(rest.push(space), last);
    assert(rest + seq![space] + last =~= rest.push(space) + last);
    lemma_last_word(Seq::empty(), last);
    assert(Seq::<char>::empty() + last =~= last);
}

proof fn lemma_first_word(a: Seq<char>, b: Seq<char>)
    requires
        forall|i: int| 0 <= i < a.len() ==> !white(#[trigger] a[i]),
        b.len() > 0 ==> white(b[0]),
    ensures
        first_word_len(a + b) == a.len(),
    decreases a.len(),
{
    let s = a + b;
    if a.len() > 0 {
        assert(!white(a[0]));
        assert(s.drop_first() =~= a.drop_first() + b);
        assert forall|i: int| 0 <= i < a.drop_first().len() implies !white(
            #[trigger] a.drop_first()[i],
        ) by {
            assert(!white(a[i + 1]));
        }
        lemma_first_word(a.drop_first(), b);
    } else {
        assert(s =~= b);
    }
}

proof fn lemma_last_word(a: Seq<char>, b: Seq<char>)
    requires
        forall|i: int| 0 <= i < b.len() ==> !white(#[trigger] b[i]),
        a.len() > 0 ==> white(a.last()),
    ensures
        last_word(a + b) == b,
    decreases b.len(),
{
    let s = a + b;
    if b.len() > 0 {
        assert(!white(b[b.len() - 1]));
        assert(s.last() == b.last());
        assert(s.drop_last() =~= a + b.drop_last());
        assert forall|i: int| 0 <= i < b.drop_last().len() implies !white(
            #[trigger] b.drop_last()[i],
        ) by {
            assert(!white(b[i]));
        }
        lemma_last_word(a, b.drop_last());
        assert(b.drop_last().push(b.last()) =~= b);
    } else {
        assert(s =~= a);
        assert(last_word(s) =~= b);
    }
}

/// A text without the character has no part before it, and is all behind it.
pub proof fn law_without_separator(s: Seq<char>, c: char)
    requires
        !s.contains(c),
    ensures
        after_last(s, c) == s,
        before_last(s, c) is None,
{
    lemma_rfind(s, c);
    if let Some(i) = crate::text::rfind(s, c) {
        assert(s.contains(s[i]));
    }
}

/// A text begins with another, or holds it, exactly where the one can be put together
/// from the other.
pub proof fn law_parts_of_text(s: Seq<char>, p: Seq<char>, a: Seq<char>, b: Seq<char>)
    ensures
        starts(p + b, p),
        occurs(a + p + b, p),
        starts(s, p) ==> s == p + s.skip(p.len() as int),
        p.len() > s.len() ==> !starts(s, p) && !occurs(s, p),
{
    assert((p + b).take(p.len() as int) =~= p);
    let whole = a + p + b;
    assert(whole.subrange(a.len() as int, (a.len() + p.len()) as int) =~= p);
    assert(whole.skip(a.len() as int).take(p.len() as int) =~= p);
    assert(whole.skip(a.len() as int) =~= p + b);
    if starts(s, p) {
        assert(s =~= p + s.skip(p.len() as int));
    }
}

/// Lower case letters take the place of the capitals from A to Z, and nothing else
/// changes.
pub proof fn law_lower_case(s: Seq<char>, i: int)
    requires
        0 <= i < s.len(),
    ensures
        ascii_lower(s).len() == s.len(),
        'A' <= s[i] <= 'Z' ==> ascii_lower(s)[i] as u32 == s[i] as u32 + 32,
        !('A' <= s[i] <= 'Z') ==> ascii_lower(s)[i] == s[i],
{
}

proof fn lemma_csi(params: Seq<char>, end: char, rest: Seq<char>)
    requires
        forall|i: int| 0 <= i < params.len() ==> !('\u{40}' <= #[trigger] params[i] <= '\u{7E}'),
        '\u{40}' <= end <= '\u{7E}',
    ensures
        csi_len(params.push(end) + rest) == params.len() + 1,
    decreases params.len(),
{
    let s = params.push(end) + rest;
    if params.len() > 0 {
        let t = params.drop_first();
        assert(!('\u{40}' <= params[0] <= '\u{7E}'));
        assert forall|i: int| 0 <= i < t.len() implies !('\u{40}' <= #[trigger] t[i]
            <= '\u{7E}') by {
            assert(t[i] == params[i + 1]);
        }
        lemma_csi(t, end, rest);
        assert(s.drop_first() =~= t.push(end) + rest);
    } else {
        assert(s[0] == end);
    }
}

proof fn lemma_osc(body: Seq<char>, end: Seq<char>, rest: Seq<char>)
    requires
        !body.contains(BEL),
        !body.contains(ESC),
        end == seq![BEL] || end == seq![ESC, '\\'],
    ensures
        osc_len(body + end + rest) == body.len() + end.len(),
    decreases body.len(),
{
    let s = body + end + rest;
    if body.len() > 0 {
        let t = body.drop_first();
        assert(body.contains(body[0]));
        assert forall|i: int| 0 <= i < t.len() implies t[i] != BEL && t[i] != ESC by {
            assert(body.contains(body[i + 1]));
        }
        lemma_osc(t, end, rest);
        assert(s.drop_first() =~= t + end + rest);
    } else {
        assert(s =~= end + rest);
        assert(s[0] == end[0]);
        if end.len() == 2 {
            assert(s[1] == end[1]);
        }
    }
}

/// A control sequence is taken out through its final character, and what follows is
/// read as if it had not been there.
pub proof fn law_control_sequence(params: Seq<char>, end: char, rest: Seq<char>)
    requires
        forall|i: int| 0 <= i < params.len() ==> !('\u{40}' <= #[trigger] params[i] <= '\u{7E}'),
        '\u{40}' <= end <= '\u{7E}',
    ensures
        stripped(seq![ESC, '['] + params.push(end) + rest) == stripped(rest),
{
    let s = seq![ESC, '['] + params.push(end) + rest;
    lemma_csi(params, end, rest);
    assert(s.skip(2) =~= params.push(end) + rest);
    assert(s.skip(escape_len(s)) =~= rest);
}

/// An operating system command is taken out through the bell, or the escape and the
/// backslash, that ends it, and what follows is read as if it had not been there.
pub proof fn law_system_command(body: Seq<char>, end: Seq<char>, rest: Seq<char>)
    requires
        !body.contains(BEL),
        !body.contains(ESC),
        end == seq![BEL] || end == seq![ESC, '\\'],
    ensures
        stripped(seq![ESC, ']'] + body + end + rest) == stripped(rest),
{
    let s = seq![ESC, ']'] + body + end + rest;
    lemma_osc(body, end, rest);
    assert(s.skip(2) =~= body + end + rest);
    assert(s.skip(escape_len(s)) =~= rest);
}

/// Any other escape is taken out with the one character behind it, if there is one.
pub proof fn law_short_escape(c: char, rest: Seq<char>)
    requires
        c != '[',
        c != ']',
    ensures
        stripped(seq![ESC, c] + rest) == stripped(rest),
        stripped(seq![ESC]) == Seq::<char>::empty(),
{
    let s = seq![ESC, c] + rest;
    assert(s.skip(escape_len(s)) =~= rest);
    let e = seq![ESC];
    assert(e.skip(escape_len(e)) =~= Seq::<char>::empty());
    assert(stripped(Seq::<char>::empty()) =~= Seq::<char>::empty());
}

/// Pieces with a character between them.
pub open spec fn joined_by(pieces: Seq<Seq<char>>, c: char) -> Seq<char>
    decreases pieces.len(),
{
    if pieces.len() == 0 {
        Seq::empty()
    } else if pieces.len() == 1 {
        pieces[0]
    } else {
        pieces[0].push(c) + joined_by(pieces.drop_first(), c)
    }
}

/// The pieces of a text, joined again by what they were split at, are that text, and
/// none of them has it in it.
pub proof fn law_split(s: Seq<char>, c: char)
    ensures
        split(s, c).len() > 0,
        joined_by(split(s, c), c) == s,
        forall|i: int| 0 <= i < split(s, c).len() ==> !(#[trigger] split(s, c)[i]).contains(c),
    decreases s.len(),
{
    lemma_until(s, c);
    let n = until(s, c);
    let pieces = split(s, c);
    if n < s.len() {
        let rest = s.skip(n + 1);
        law_split(rest, c);
        assert(pieces.drop_first() =~= split(rest, c));
        assert(s =~= s.take(n).push(c) + rest);
        assert forall|i: int| 0 <= i < pieces.len() implies !(#[trigger] pieces[i]).contains(c) by {
            if i > 0 {
                assert(pieces[i] == split(rest, c)[i - 1]);
            } else {
                assert(pieces[0] == s.take(n));
            }
        }
    } else {
        assert(pieces[0] == s);
    }
}

/// The names of a path are its pieces between slashes that are not empty.
pub proof fn law_names_of_path(path: Seq<char>)
    ensures
        forall|i: int|
            0 <= i < components(path).len() ==> (#[trigger] components(path)[i]).len() > 0
                && !components(path)[i].contains('/'),
{
    let all = split(path, '/');
    let kept = |p: Seq<char>| p.len() > 0;
    law_split(path, '/');
    assert forall|i: int| 0 <= i < components(path).len() implies (
    #[trigger] components(path)[i]).len() > 0 && !components(path)[i].contains('/') by {
        let x = components(path)[i];
        all.lemma_filter_pred(kept, i);
        assert(all.filter(kept).contains(x));
        all.lemma_filter_contains_rev(kept, x);
        assert(all.contains(x));
        let j = choose|j: int| 0 <= j < all.len() && all[j] == x;
        assert(!all[j].contains('/'));
    }
}

} // verus!
