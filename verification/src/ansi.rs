//! Terminal escape sequences, and text without them.

use vstd::prelude::*;

use crate::text::chars_of;

verus! {

/// The escape character.
pub const ESC: char = '\u{1B}';

/// The bell character.
pub const BEL: char = '\u{7}';

/// Whether `c` ends a control sequence.
pub open spec fn csi_final(c: char) -> bool {
    '\u{40}' <= c <= '\u{7E}'
}

/// How much of `s` the rest of a control sequence takes: through its final
/// character, or all of `s` where none comes.
pub open spec fn csi_len(s: Seq<char>) -> int
    decreases s.len(),
{
    if s.len() == 0 {
        0
    } else if csi_final(s[0]) {
        1
    } else {
        1 + csi_len(s.drop_first())
    }
}

/// How much of `s` the rest of an operating system command takes: through a
/// bell, or an escape and the backslash behind it, or all of `s` where neither
/// comes.
pub open spec fn osc_len(s: Seq<char>) -> int
    decreases s.len(),
{
    if s.len() == 0 {
        0
    } else if s[0] == BEL {
        1
    } else if s[0] == ESC {
        if s.len() > 1 && s[1] == '\\' {
            2
        } else {
            1
        }
    } else {
        1 + osc_len(s.drop_first())
    }
}

/// How many characters the escape sequence at the start of `s` takes.
pub open spec fn escape_len(s: Seq<char>) -> int {
    if s.len() < 2 {
        s.len() as int
    } else if s[1] == '[' {
        2 + csi_len(s.skip(2))
    } else if s[1] == ']' {
        2 + osc_len(s.skip(2))
    } else {
        2
    }
}

/// `s` without its escape sequences.
pub open spec fn stripped(s: Seq<char>) -> Seq<char>
    decreases s.len(),
    via stripped_decreases
{
    if s.len() == 0 {
        Seq::empty()
    } else if s[0] == ESC {
        stripped(s.skip(escape_len(s)))
    } else {
        seq![s[0]] + stripped(s.drop_first())
    }
}

proof fn lemma_csi_bounds(s: Seq<char>)
    ensures
        0 <= csi_len(s) <= s.len(),
    decreases s.len(),
{
    if s.len() > 0 && !csi_final(s[0]) {
        lemma_csi_bounds(s.drop_first());
    }
}

proof fn lemma_osc_bounds(s: Seq<char>)
    ensures
        0 <= osc_len(s) <= s.len(),
    decreases s.len(),
{
    if s.len() > 0 && s[0] != BEL && s[0] != ESC {
        lemma_osc_bounds(s.drop_first());
    }
}

proof fn lemma_escape_bounds(s: Seq<char>)
    requires
        s.len() > 0,
    ensures
        1 <= escape_len(s) <= s.len(),
{
    if s.len() >= 2 {
        lemma_csi_bounds(s.skip(2));
        lemma_osc_bounds(s.skip(2));
    }
}

#[via_fn]
proof fn stripped_decreases(s: Seq<char>) {
    if s.len() > 0 {
        lemma_escape_bounds(s);
    }
}

fn skip_csi(chars: &Vec<char>, from: usize) -> (to: usize)
    requires
        from <= chars@.len(),
    ensures
        to == from + csi_len(chars@.skip(from as int)),
        from <= to <= chars@.len(),
{
    let mut i: usize = from;
    while i < chars.len()
        invariant
            from <= i <= chars@.len(),
            from + csi_len(chars@.skip(from as int)) == i + csi_len(chars@.skip(i as int)),
        decreases chars@.len() - i,
    {
        assert(chars@.skip(i as int).drop_first() =~= chars@.skip(i + 1));
        let c = chars[i];
        i += 1;
        if '\u{40}' <= c && c <= '\u{7E}' {
            return i;
        }
    }
    i
}

fn skip_osc(chars: &Vec<char>, from: usize) -> (to: usize)
    requires
        from <= chars@.len(),
    ensures
        to == from + osc_len(chars@.skip(from as int)),
        from <= to <= chars@.len(),
{
    let mut i: usize = from;
    let n: usize = chars.len();
    while i < n
        invariant
            from <= i <= n,
            n == chars@.len(),
            from + osc_len(chars@.skip(from as int)) == i + osc_len(chars@.skip(i as int)),
        decreases n - i,
    {
        assert(chars@.skip(i as int).drop_first() =~= chars@.skip(i + 1));
        let c = chars[i];
        i += 1;
        if c == BEL {
            return i;
        }
        if c == ESC {
            if i < n && chars[i] == '\\' {
                i += 1;
            }
            return i;
        }
    }
    i
}

/// `s` without its escape sequences: control sequences, operating system
/// commands, and an escape with the one character behind it.
pub fn strip_ansi(s: &str) -> (r: String)
    ensures
        r@ == stripped(s@),
{
    let chars = chars_of(s);
    let n: usize = chars.len();
    let mut out = String::new();
    let mut i: usize = 0;
    assert(chars@.skip(0) =~= chars@);
    assert(stripped(s@) =~= out@ + stripped(chars@));
    while i < n
        invariant
            i <= n,
            n == chars@.len(),
            stripped(s@) == out@ + stripped(chars@.skip(i as int)),
        decreases n - i,
    {
        let ghost rest = chars@.skip(i as int);
        let c = chars[i];
        if c == ESC {
            proof {
                lemma_escape_bounds(rest);
                assert(rest.skip(escape_len(rest)) =~= chars@.skip(i + escape_len(rest)));
                if rest.len() >= 2 {
                    assert(rest.skip(2) =~= chars@.skip(i + 2));
                }
            }
            if i + 1 == n {
                i = n;
            } else if chars[i + 1] == '[' {
                i = skip_csi(&chars, i + 2);
            } else if chars[i + 1] == ']' {
                i = skip_osc(&chars, i + 2);
            } else {
                i += 2;
            }
        } else {
            let ghost before = out@;
            out.push(c);
            assert(rest.drop_first() =~= chars@.skip(i + 1));
            assert(before + (seq![c] + stripped(chars@.skip(i + 1))) =~= out@ + stripped(
                chars@.skip(i + 1),
            ));
            i += 1;
        }
    }
    assert(chars@.skip(n as int) =~= Seq::<char>::empty());
    assert(out@ + Seq::<char>::empty() =~= out@);
    out
}

/// What is left holds no escape character, so it cannot start a sequence on the
/// terminal, and it is no longer than the text was.
pub proof fn law_stripped_is_clean(s: Seq<char>)
    ensures
        !stripped(s).contains(ESC),
        stripped(s).len() <= s.len(),
    decreases s.len(),
{
    if s.len() > 0 {
        if s[0] == ESC {
            lemma_escape_bounds(s);
            law_stripped_is_clean(s.skip(escape_len(s)));
        } else {
            law_stripped_is_clean(s.drop_first());
            let t = stripped(s.drop_first());
            assert forall|i: int| 0 <= i < stripped(s).len() implies stripped(s)[i] != ESC by {
                if i > 0 {
                    assert(stripped(s)[i] == t[i - 1]);
                    assert(t.contains(t[i - 1]));
                }
            }
        }
    }
}

/// Text without an escape character stays as it is.
pub proof fn law_stripped_keeps_plain_text(s: Seq<char>)
    requires
        !s.contains(ESC),
    ensures
        stripped(s) == s,
    decreases s.len(),
{
    if s.len() > 0 {
        assert(s.contains(s[0]));
        let t = s.drop_first();
        assert forall|i: int| 0 <= i < t.len() implies t[i] != ESC by {
            assert(s.contains(s[i + 1]));
        }
        law_stripped_keeps_plain_text(t);
        assert(seq![s[0]] + t =~= s);
    } else {
        assert(s =~= Seq::<char>::empty());
    }
}

/// Stripping twice is stripping once.
pub proof fn law_stripped_once(s: Seq<char>)
    ensures
        stripped(stripped(s)) == stripped(s),
{
    law_stripped_is_clean(s);
    law_stripped_keeps_plain_text(stripped(s));
}

/// Plain text in front of anything is kept, and does not change what is made of
/// the rest.
pub proof fn law_stripped_behind_plain_text(a: Seq<char>, b: Seq<char>)
    requires
        !a.contains(ESC),
    ensures
        stripped(a + b) == a + stripped(b),
    decreases a.len(),
{
    if a.len() > 0 {
        assert(a.contains(a[0]));
        let t = a.drop_first();
        assert forall|i: int| 0 <= i < t.len() implies t[i] != ESC by {
            assert(a.contains(a[i + 1]));
        }
        law_stripped_behind_plain_text(t, b);
        assert((a + b).drop_first() =~= t + b);
        assert(seq![a[0]] + (t + stripped(b)) =~= a + stripped(b));
    } else {
        assert(a + b =~= b);
        assert(a + stripped(b) =~= stripped(b));
    }
}

} // verus!
