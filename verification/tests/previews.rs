use xdu_view::preview::{
    load_file_preview, ChunkRead, FilePreview, LineBatch, CHUNK_BYTES, MAX_BUFFER_LINES, SNIFF_SIZE,
};

fn text_preview() -> FilePreview {
    load_file_preview("/d/a.txt", 5, 6, b"hello\nworld\n")
}

fn batch(lines: &[&str], ended: bool) -> LineBatch {
    let mut b = LineBatch::new();
    for l in lines {
        b.push(l.to_string());
    }
    if ended {
        b.end();
    }
    b
}

fn shown(p: &FilePreview) -> Vec<String> {
    p.lines.iter().cloned().collect()
}

#[test]
fn sizes_of_reading() {
    assert_eq!((MAX_BUFFER_LINES, CHUNK_BYTES, SNIFF_SIZE), (100_000, 65_536, 8192));
}

#[test]
fn unreadable_files() {
    let p = load_file_preview("/d/a.txt", 5, 6, b"");
    assert_eq!(p.type_description, "(unreadable)");
    assert!(!p.is_text && p.eof_reached && p.lines.is_empty());
    assert_eq!((p.size, p.atime, p.path.as_str()), (5, 6, "/d/a.txt"));
}

#[test]
fn binary_files_have_nothing_to_read() {
    let p = load_file_preview("/d/x", 4, 0, &[0xFF, 0xFE, 0x80, 0x81]);
    assert!(!p.is_text && p.eof_reached);
    assert!(p.is_sound());
}

#[test]
fn a_short_first_chunk_is_the_file() {
    let mut p = text_preview();
    assert_eq!(p.type_description, "Plain text, UTF-8");
    assert!(p.is_text && !p.eof_reached);
    p.load_first_chunk(ChunkRead::Bytes(b"hello\nwor\x1b[1mld\n".to_vec()));
    assert_eq!(shown(&p), ["hello", "world", ""]);
    assert!(p.eof_reached);
    assert_eq!((p.total_lines_loaded, p.first_line_number, p.scroll_offset), (3, 0, 0));
    assert_eq!(p.file_offset, 16);
}

#[test]
fn a_full_first_chunk_leaves_its_last_piece() {
    let mut bytes = vec![b'a'; CHUNK_BYTES];
    bytes[9] = b'\n';
    bytes[CHUNK_BYTES - 4] = b'\n';
    let mut p = text_preview();
    p.load_first_chunk(ChunkRead::Bytes(bytes));
    assert_eq!(p.lines.len(), 2);
    assert!(!p.eof_reached);
    assert_eq!(p.file_offset, CHUNK_BYTES as u64 - 3);
}

#[test]
fn a_first_chunk_that_ends_inside_a_character_keeps_its_lines() {
    let mut bytes = vec![b'a'; CHUNK_BYTES];
    bytes[9] = b'\n';
    bytes[CHUNK_BYTES - 1] = 0xC3;
    let mut p = text_preview();
    p.load_first_chunk(ChunkRead::Bytes(bytes));
    assert_eq!(shown(&p), ["aaaaaaaaa"]);
    assert!(!p.eof_reached);
    assert_eq!((p.file_offset, p.total_lines_loaded), (10, 1));
    let mut bytes = vec![b'a'; CHUNK_BYTES];
    bytes[CHUNK_BYTES - 1] = 0xC3;
    let mut p = text_preview();
    p.load_first_chunk(ChunkRead::Bytes(bytes));
    assert!(p.lines.is_empty() && !p.eof_reached && p.file_offset == 0);
    for end in [&[0xC3][..], &[0xE0], &[0xE0, 0xA0], &[0xED, 0x9F], &[0xF0, 0x9F, 0x98], &[0xF4]] {
        let p = with_end(end);
        assert_eq!((p.lines.len(), p.file_offset, p.eof_reached), (1, 10, false));
    }
}

/// The preview of a full chunk with one line feed and that end.
fn with_end(end: &[u8]) -> FilePreview {
    let mut bytes = vec![b'a'; CHUNK_BYTES];
    bytes[9] = b'\n';
    bytes[CHUNK_BYTES - end.len()..].copy_from_slice(end);
    let mut p = text_preview();
    p.load_first_chunk(ChunkRead::Bytes(bytes));
    p
}

#[test]
fn a_first_chunk_that_is_no_text_has_no_lines() {
    let bad = [
        &[0xFF][..],
        &[0x80],
        &[0xC3, b'a'],
        &[0xC0],
        &[0xE0, 0x80],
        &[0xED, 0xA0],
        &[0xF0, 0x80],
        &[0xF4, 0x90],
        &[0xF5],
    ];
    for end in bad {
        let p = with_end(end);
        assert!(p.lines.is_empty() && !p.eof_reached && p.file_offset == CHUNK_BYTES as u64);
    }
    let mut bytes = vec![b'a'; CHUNK_BYTES];
    bytes[3] = 0xFF;
    bytes[9] = b'\n';
    let mut p = text_preview();
    p.load_first_chunk(ChunkRead::Bytes(bytes));
    assert!(p.lines.is_empty() && !p.eof_reached && p.file_offset == CHUNK_BYTES as u64);
}

#[test]
fn a_file_is_read_to_its_end() {
    let mut text = String::new();
    for i in 0..120_000 {
        text.push_str(&format!("é{i}\n"));
    }
    text.push_str("\u{1b}[1mlast");
    let bytes = text.as_bytes();
    let mut p = load_file_preview("/d/a.txt", 1, 1, &bytes[..SNIFF_SIZE - 1]);
    assert!(p.is_text);
    p.load_first_chunk(ChunkRead::Bytes(bytes[..CHUNK_BYTES].to_vec()));
    while !p.eof_reached {
        let mut rest = &text[p.file_offset as usize..];
        let mut b = LineBatch::new();
        while b.wants_more() {
            let n = rest.find('\n').map_or(rest.len(), |i| i + 1);
            if n == 0 {
                b.end();
            } else {
                b.push(rest[..n].to_string());
                rest = &rest[n..];
            }
        }
        p.preview_load_more_lines(&b);
    }
    assert_eq!(p.total_lines_loaded, text.lines().count());
    assert_eq!(p.lines.len(), MAX_BUFFER_LINES);
    assert_eq!(p.first_line_number, p.total_lines_loaded - MAX_BUFFER_LINES);
    for (i, line) in text.lines().skip(p.first_line_number).enumerate() {
        assert_eq!(p.lines[i], line.replace("\u{1b}[1m", ""));
    }
}

#[test]
fn first_chunks_without_lines() {
    let mut p = text_preview();
    p.load_first_chunk(ChunkRead::Unopened);
    assert!(!p.eof_reached && p.lines.is_empty());
    let mut p = text_preview();
    p.load_first_chunk(ChunkRead::Failed);
    assert!(p.eof_reached);
    let mut p = text_preview();
    p.load_first_chunk(ChunkRead::Bytes(Vec::new()));
    assert!(p.eof_reached && p.file_offset == 0);
    let mut p = text_preview();
    p.load_first_chunk(ChunkRead::Bytes(vec![b'a', 0xFF]));
    assert!(p.eof_reached && p.lines.is_empty() && p.file_offset == 2);
}

#[test]
fn batches_of_lines() {
    let mut b = LineBatch::new();
    assert!(b.wants_more());
    b.push("é\n".to_string());
    assert_eq!(b.bytes, 3);
    b.push("x".repeat(CHUNK_BYTES));
    assert!(!b.wants_more());
    let mut b = LineBatch::new();
    b.end();
    assert!(!b.wants_more());
}

#[test]
fn line_ends_and_escapes_are_taken_off() {
    let mut p = text_preview();
    p.preview_load_more_lines(&batch(&["a\n", "b\r\n", "\n", "\x1b[31mc\x1b[0m\r"], false));
    assert_eq!(shown(&p), ["a", "b", "", "c\r"]);
    assert_eq!((p.total_lines_loaded, p.file_offset), (4, 17));
    assert!(!p.eof_reached);
}

#[test]
fn two_batches_give_what_one_gives() {
    let mut one = text_preview();
    one.preview_load_more_lines(&batch(&["a\n", "b\n", "c"], true));
    let mut two = text_preview();
    two.preview_load_more_lines(&batch(&["a\n"], false));
    two.preview_load_more_lines(&batch(&["b\n", "c"], true));
    assert_eq!(shown(&one), shown(&two));
    assert_eq!(one.file_offset, two.file_offset);
    assert!(one.eof_reached && two.eof_reached);
    two.preview_load_more_lines(&batch(&["d\n"], false));
    assert_eq!(shown(&two), ["a", "b", "c"]);
}

#[test]
fn the_window_slides() {
    let mut p = text_preview();
    let lines: Vec<String> = (0..MAX_BUFFER_LINES + 5).map(|i| format!("{i}\n")).collect();
    let mut b = LineBatch::new();
    for l in lines {
        b.push(l);
    }
    p.preview_load_more_lines(&b);
    assert_eq!(p.lines.len(), MAX_BUFFER_LINES);
    assert_eq!((p.first_line_number, p.total_lines_loaded), (5, MAX_BUFFER_LINES + 5));
    assert_eq!(p.lines[0], "5");
    assert!(p.is_sound());
    p.scroll_up(1);
    assert_eq!(p.scroll_offset, 5);
    p.rewind();
    assert_eq!((p.first_line_number, p.total_lines_loaded, p.file_offset), (0, 0, 0));
    assert!(!p.eof_reached && p.lines.is_empty());
}

#[test]
fn scrolling() {
    let mut p = text_preview();
    p.preview_load_more_lines(&batch(&["l\n"; 100], false));
    assert!(!p.wants_lines(1));
    p.scroll_down(58);
    assert!(!p.wants_lines(1));
    assert!(p.wants_lines(2) && p.wants_lines(20) && p.wants_lines(usize::MAX));
    p.scroll_up(20);
    assert_eq!(p.scroll_offset, 38);
    p.scroll_down(1000);
    assert_eq!(p.scroll_offset, 99);
    p.scroll_to_top();
    assert_eq!(p.scroll_offset, 0);
    p.scroll_up(1);
    assert_eq!(p.scroll_offset, 0);
    p.scroll_to_bottom();
    assert_eq!(p.scroll_offset, 99);
    p.preview_load_more_lines(&batch(&[], true));
    assert!(!p.wants_lines(20));
}

#[test]
fn soundness_is_told() {
    let mut p = text_preview();
    assert!(p.is_sound());
    p.scroll_offset = 1;
    assert!(!p.is_sound());
    p.scroll_offset = 0;
    p.total_lines_loaded = usize::MAX;
    assert!(!p.is_sound());
    assert!(!p.can_take(&batch(&["x"], false)));
    assert!(p.can_take(&batch(&[], false)));
}
