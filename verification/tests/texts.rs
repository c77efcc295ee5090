use xdu_view::ansi::strip_ansi;
use xdu_view::filters::{InputMode, QueryFilters};
use xdu_view::format::{file_count_divisor, format_atime, format_file_count, truncate_to_chars};
use xdu_view::input::age_cutoff_of;
use xdu_view::text::{
    after_last_of, align_left, align_right, ascii_lower_of, before_last_of,
    components_of, contains, cut_within, decimal_of, first_word_of, is_white, last_word_of, parse_u64,
    signed_decimal_of, split_of, starts_with, text_less, trim_of, trim_start_of,
};

const SAMPLES: [&str; 12] = [
    "", " ", "a", "  a b  ", "\u{3000}x\u{a0}", "a/b//c/", "/", "+12", "-3", "é…x", "  ", "0099",
];

#[test]
fn white_space_is_that_of_unicode() {
    for n in 0..=0x10FFFFu32 {
        if let Some(c) = char::from_u32(n) {
            assert_eq!(is_white(c), c.is_whitespace(), "{n:x}");
        }
    }
}

#[test]
fn trimming_and_words() {
    for s in SAMPLES {
        assert_eq!(trim_of(s), s.trim());
        assert_eq!(trim_start_of(s), s.trim_start());
        let t = s.trim();
        assert_eq!(first_word_of(t), s.split_whitespace().next().unwrap_or(""));
        assert_eq!(last_word_of(t), s.split_whitespace().last().unwrap_or(""));
    }
}

#[test]
fn splitting() {
    for s in SAMPLES {
        assert_eq!(split_of(s, '/'), s.split('/').collect::<Vec<_>>());
        let parts: Vec<&str> = s.split('/').filter(|c| !c.is_empty()).collect();
        assert_eq!(components_of(s), parts);
        assert_eq!(after_last_of(s, '/'), s.rsplit('/').next().unwrap());
        assert_eq!(before_last_of(s, '/'), s.rfind('/').map(|i| s[..i].to_string()));
    }
}

#[test]
fn finding() {
    for s in SAMPLES {
        for p in ["", "a", "b", "/c", "…", "  "] {
            assert_eq!(starts_with(s, p), s.starts_with(p));
            assert_eq!(contains(s, p), s.contains(p));
        }
    }
}

#[test]
fn ordering_by_bytes() {
    for a in SAMPLES {
        for b in SAMPLES {
            assert_eq!(text_less(a, b), a < b);
        }
    }
}

#[test]
fn lower_case_letters() {
    assert_eq!(ascii_lower_of("AbZÉ[@"), "abzÉ[@");
}

#[test]
fn numbers_in_words() {
    for n in [0u64, 7, 10, 1234567890, u64::MAX] {
        assert_eq!(decimal_of(n), n.to_string());
    }
    for n in [0i64, -1, 42, i64::MIN, i64::MAX] {
        assert_eq!(signed_decimal_of(n), n.to_string());
    }
}

#[test]
fn parsing_numbers() {
    let more = ["18446744073709551615", "18446744073709551616", "+", "1_0", "٣", "12 ", "+007"];
    for s in SAMPLES.iter().chain(more.iter()) {
        assert_eq!(parse_u64(s), s.parse::<u64>().ok(), "{s}");
    }
}

#[test]
fn aligning_by_characters() {
    for s in SAMPLES {
        for w in [0usize, 3, 8] {
            assert_eq!(align_left(s, w), format!("{s:<w$}"));
            assert_eq!(align_right(s, w), format!("{s:>w$}"));
        }
    }
}

#[test]
fn cutting_to_bytes() {
    let s = "▸ aé😀";
    let cuts = ["", "", "", "▸", "▸ ", "▸ a", "▸ a", "▸ aé", "▸ aé", "▸ aé", "▸ aé", s, s];
    for (n, expected) in cuts.iter().enumerate() {
        assert_eq!(cut_within(s, n), *expected);
        if n <= s.len() && s.is_char_boundary(n) {
            assert_eq!(cut_within(s, n), &s[..n]);
        }
    }
}

#[test]
fn truncating_to_characters() {
    assert_eq!(truncate_to_chars("hello", 0), "");
    assert_eq!(truncate_to_chars("hello", 1), "…");
    assert_eq!(truncate_to_chars("hello", 4), "hel…");
    assert_eq!(truncate_to_chars("hello", 5), "hello");
    assert_eq!(truncate_to_chars("héllö!", 5), "héll…");
    assert_eq!(truncate_to_chars(&truncate_to_chars("hello", 4), 4), "hel…");
}

#[test]
fn file_counts() {
    assert_eq!(format_file_count(0, "?"), "0 files");
    assert_eq!(format_file_count(1, "?"), "1 file");
    assert_eq!(format_file_count(999, "?"), "999 files");
    assert_eq!(format_file_count(-5, "?"), "-5 files");
    assert_eq!(format_file_count(4200, "4.2"), "4.2K files");
    assert_eq!(format_file_count(1_000_000, "1.0"), "1.0M files");
    assert_eq!(format_file_count(2_500_000_000, "2.5"), "2.5B files");
    assert_eq!(file_count_divisor(999), None);
    assert_eq!(file_count_divisor(1000), Some(1000));
    assert_eq!(file_count_divisor(1_000_000), Some(1_000_000));
    assert_eq!(file_count_divisor(1_000_000_000), Some(1_000_000_000));
}

#[test]
fn ages() {
    let day = 86400;
    let now = 1_700_000_000;
    assert_eq!(format_atime(0, now), "");
    assert_eq!(format_atime(now + 1, now), "future");
    assert_eq!(format_atime(now, now), "today");
    assert_eq!(format_atime(now - day + 1, now), "today");
    assert_eq!(format_atime(now - day, now), "1 day ago");
    assert_eq!(format_atime(now - 3 * day, now), "3 days ago");
    assert_eq!(format_atime(now - 29 * day, now), "29 days ago");
    assert_eq!(format_atime(now - 30 * day, now), "1 month ago");
    assert_eq!(format_atime(now - 59 * day, now), "1 month ago");
    assert_eq!(format_atime(now - 60 * day, now), "2 months ago");
    assert_eq!(format_atime(now - 364 * day, now), "12 months ago");
    assert_eq!(format_atime(now - 365 * day, now), "1 year ago");
    assert_eq!(format_atime(now - 729 * day, now), "1 year ago");
    assert_eq!(format_atime(now - 730 * day, now), "2 years ago");
}

#[test]
fn cutoffs() {
    assert_eq!(age_cutoff_of(0, 100), Some(100));
    assert_eq!(age_cutoff_of(30, 10_000_000), Some(10_000_000 - 30 * 86400));
    assert_eq!(age_cutoff_of(u64::MAX, 100), Some(100 + 86400));
    assert_eq!(age_cutoff_of(i64::MAX as u64, 100), None);
    assert_eq!(age_cutoff_of(106_751_991_167_300, 0), Some(-9_223_372_036_854_720_000));
    assert_eq!(age_cutoff_of(106_751_991_167_301, 0), None);
}

#[test]
fn escape_sequences_are_stripped() {
    assert_eq!(strip_ansi("plain"), "plain");
    assert_eq!(strip_ansi("\u{1b}[31mred\u{1b}[0m"), "red");
    assert_eq!(strip_ansi("a\u{1b}[1;2"), "a");
    assert_eq!(strip_ansi("\u{1b}]0;title\u{7}b"), "b");
    assert_eq!(strip_ansi("\u{1b}]0;title\u{1b}\\b"), "b");
    assert_eq!(strip_ansi("\u{1b}]0;x\u{1b}yb"), "yb");
    assert_eq!(strip_ansi("\u{1b}(Bx"), "Bx");
    assert_eq!(strip_ansi("end\u{1b}"), "end");
    let once = strip_ansi("x\u{1b}[2Jy\u{1b}");
    assert_eq!(strip_ansi(&once), once);
}

#[test]
fn prompts() {
    assert_eq!(InputMode::Normal.prompt(), "");
    assert_eq!(InputMode::Pattern.prompt(), "Pattern (glob): ");
    assert_eq!(InputMode::OlderThan.prompt(), "Older than (days): ");
    assert_eq!(InputMode::NewerThan.prompt(), "Newer than (days): ");
    assert_eq!(InputMode::MinSize.prompt(), "Min size (e.g., 1M): ");
    assert_eq!(InputMode::MaxSize.prompt(), "Max size (e.g., 1G): ");
    assert_eq!(InputMode::SortSelect.prompt(), "");
    assert_eq!(InputMode::ListPreview.prompt(), "");
}

#[test]
fn filters_are_active_until_cleared() {
    let mut f = QueryFilters::new();
    assert!(!f.is_active());
    f.pattern_display = Some("*".to_string());
    assert!(!f.is_active());
    f.min_size = Some(0);
    assert!(f.is_active());
    f.clear();
    assert!(!f.is_active() && f.pattern_display.is_none());
}
