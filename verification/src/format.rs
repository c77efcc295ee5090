//! Counts, ages and cut-off texts for display.

use vstd::prelude::*;

use crate::text::{chars_of, decimal, decimal_of, signed_decimal, signed_decimal_of, string_of};

verus! {

/// The unit in which a file count is shown, with its letter; `None` for a count
/// that is shown in full.
pub open spec fn count_unit(count: int) -> Option<(u64, Seq<char>)> {
    if count >= 1_000_000_000 {
        Some((1_000_000_000u64, "B"@))
    } else if count >= 1_000_000 {
        Some((1_000_000u64, "M"@))
    } else if count >= 1_000 {
        Some((1_000u64, "K"@))
    } else {
        None
    }
}

/// A file count in words. `scaled` is the count in its unit, to one decimal.
pub open spec fn file_count_text(count: int, scaled: Seq<char>) -> Seq<char> {
    match count_unit(count) {
        Some((_, letter)) => scaled + letter + " files"@,
        None => if count == 1 {
            "1 file"@
        } else {
            signed_decimal(count) + " files"@
        },
    }
}

/// The number by which a file count is divided for display, if it is scaled.
pub fn file_count_divisor(count: i64) -> (r: Option<u64>)
    ensures
        r is Some <==> count_unit(count as int) is Some,
        r matches Some(d) ==> d == (count_unit(count as int)->0).0,
{
    if count >= 1_000_000_000 {
        Some(1_000_000_000)
    } else if count >= 1_000_000 {
        Some(1_000_000)
    } else if count >= 1_000 {
        Some(1_000)
    } else {
        None
    }
}

/// A file count with a K, M or B behind it from a thousand on. `scaled` is the
/// count divided by its unit, to one decimal; it is not looked at below.
pub fn format_file_count(count: i64, scaled: &str) -> (r: String)
    ensures
        r@ == file_count_text(count as int, scaled@),
{
    if count >= 1_000 {
        let letter = if count >= 1_000_000_000 {
            "B"
        } else if count >= 1_000_000 {
            "M"
        } else {
            "K"
        };
        let mut s = scaled.to_owned();
        s.append(letter);
        s.append(" files");
        s
    } else if count == 1 {
        "1 file".to_owned()
    } else {
        let mut s = signed_decimal_of(count);
        s.append(" files");
        s
    }
}

/// An age of so many days in words.
pub open spec fn days_text(days: nat) -> Seq<char> {
    if days == 0 {
        "today"@
    } else if days == 1 {
        "1 day ago"@
    } else if days < 30 {
        decimal(days) + " days ago"@
    } else if days < 60 {
        "1 month ago"@
    } else if days < 365 {
        decimal(days / 30) + " months ago"@
    } else if days < 730 {
        "1 year ago"@
    } else {
        decimal(days / 365) + " years ago"@
    }
}

/// An access time in words, seen at `now`: nothing where there is none.
pub open spec fn atime_text(atime: int, now: int) -> Seq<char> {
    if atime == 0 {
        Seq::empty()
    } else if now < atime {
        "future"@
    } else {
        days_text(((now - atime) / 86400) as nat)
    }
}

/// How long ago an access time was, both in seconds since the epoch.
pub fn format_atime(atime: i64, now: i64) -> (r: String)
    requires
        atime >= 0,
    ensures
        r@ == atime_text(atime as int, now as int),
{
    if atime == 0 {
        return String::new();
    }
    if now < atime {
        return "future".to_owned();
    }
    let days: u64 = (now - atime) as u64 / 86400;
    if days == 0 {
        "today".to_owned()
    } else if days == 1 {
        "1 day ago".to_owned()
    } else if days < 30 {
        let mut s = decimal_of(days);
        s.append(" days ago");
        s
    } else if days < 365 {
        let months: u64 = days / 30;
        if months == 1 {
            "1 month ago".to_owned()
        } else {
            let mut s = decimal_of(months);
            s.append(" months ago");
            s
        }
    } else {
        let years: u64 = days / 365;
        if years == 1 {
            "1 year ago".to_owned()
        } else {
            let mut s = decimal_of(years);
            s.append(" years ago");
            s
        }
    }
}

/// `s` in at most `max` characters: all of it where it fits, otherwise its
/// beginning with an ellipsis for the last character.
pub open spec fn truncated(s: Seq<char>, max: int) -> Seq<char> {
    if max <= 0 {
        Seq::empty()
    } else if s.len() <= max {
        s
    } else {
        s.take(max - 1).push('…')
    }
}

/// `s` cut on a character boundary so that it takes at most `max` characters.
pub fn truncate_to_chars(s: &str, max: usize) -> (r: String)
    ensures
        r@ == truncated(s@, max as int),
{
    if max == 0 {
        return String::new();
    }
    let chars = chars_of(s);
    if chars.len() <= max {
        return s.to_owned();
    }
    let mut out = string_of(&chars, 0, max - 1);
    out.push('…');
    out
}

/// A text that is too long ends in an ellipsis behind its own beginning, and takes all
/// of its room.
pub proof fn law_truncated_begins(s: Seq<char>, max: nat)
    requires
        0 < max < s.len(),
    ensures
        ({
            let t = truncated(s, max as int);
            &&& t.len() == max
            &&& t.last() == '…'
            &&& forall|i: int| 0 <= i < max - 1 ==> t[i] == s[i]
        }),
{
}

/// A truncated text never takes more than its room, a text that fits stays as it
/// is, and truncating again to the same room changes nothing.
pub proof fn law_truncated_fits(s: Seq<char>, max: nat)
    ensures
        truncated(s, max as int).len() <= max,
        s.len() <= max ==> truncated(s, max as int) == s,
        truncated(truncated(s, max as int), max as int) == truncated(s, max as int),
{
    if max == 0 {
        assert(truncated(s, 0) =~= Seq::<char>::empty());
        if s.len() == 0 {
            assert(s =~= Seq::<char>::empty());
        }
    }
}

} // verus!
