//! The preview of a file: what it is, and a sliding window over its lines.

use std::collections::VecDeque;

use vstd::prelude::*;
use vstd::utf8::{decode_utf8, encode_utf8, valid_utf8};

use crate::ansi::{law_stripped_is_clean, strip_ansi, stripped, ESC};
use crate::encoding::{begins_text, can_begin_text, lemma_begun_text};
use crate::filetype::{content_kind, detect_file_type, magic_kind};
use crate::text::{
    byte_len, byte_len_of, lemma_byte_len, lemma_until, split, split_of, texts,
    until, utf8_text,
};

verus! {

/// How many lines the window holds at most.
pub const MAX_BUFFER_LINES: usize = 100_000;

/// How many bytes one reading step takes from the file.
pub const CHUNK_BYTES: usize = 65_536;

/// How many bytes of a file its type is told from.
pub const SNIFF_SIZE: usize = 8192;

/// What is known of a previewed file.
#[derive(Debug)]
pub struct FilePreview {
    /// Full file path on disk
    pub path: String,
    /// File size from the index
    pub size: i64,
    /// Access time from the index
    pub atime: i64,
    /// What the file holds, in words
    pub type_description: String,
    /// Whether the file is shown as text
    pub is_text: bool,
    /// A window of its lines (none for a binary file)
    pub lines: VecDeque<String>,
    /// Number of the first line of the window
    pub first_line_number: usize,
    /// Lines read so far
    pub total_lines_loaded: usize,
    /// Byte position where the last reading step stopped
    pub file_offset: u64,
    /// Whether nothing is left to read
    pub eof_reached: bool,
    /// Number of the line at the top of the pane
    pub scroll_offset: usize,
}

/// A file preview with its texts as characters and its numbers unbounded.
#[verifier::ext_equal]
pub struct PreviewView {
    pub path: Seq<char>,
    pub size: i64,
    pub atime: i64,
    pub type_description: Seq<char>,
    pub is_text: bool,
    pub lines: Seq<Seq<char>>,
    pub first_line_number: int,
    pub total_lines_loaded: int,
    pub file_offset: int,
    pub eof_reached: bool,
    pub scroll_offset: int,
}

impl View for FilePreview {
    type V = PreviewView;

    open spec fn view(&self) -> PreviewView {
        PreviewView {
            path: self.path@,
            size: self.size,
            atime: self.atime,
            type_description: self.type_description@,
            is_text: self.is_text,
            lines: texts(self.lines@),
            first_line_number: self.first_line_number as int,
            total_lines_loaded: self.total_lines_loaded as int,
            file_offset: self.file_offset as int,
            eof_reached: self.eof_reached,
            scroll_offset: self.scroll_offset as int,
        }
    }
}

/// The last line number that can be scrolled to.
pub open spec fn last_line(total: int) -> int {
    if total > 0 {
        total - 1
    } else {
        0
    }
}

impl PreviewView {
    /// The window ends with the last line read, it is never over its size, and it
    /// is full once a line has left it. A binary file has no lines and nothing
    /// left to read. The scroll position is a line that was read.
    pub open spec fn wf(self) -> bool {
        &&& self.first_line_number >= 0
        &&& self.first_line_number + self.lines.len() == self.total_lines_loaded
        &&& self.lines.len() <= MAX_BUFFER_LINES
        &&& self.first_line_number > 0 ==> self.lines.len() == MAX_BUFFER_LINES
        &&& !self.is_text ==> self.eof_reached && self.lines.len() == 0
        &&& 0 <= self.scroll_offset <= last_line(self.total_lines_loaded)
        &&& self.file_offset >= 0
    }

    /// The preview of a file before any line is read.
    pub open spec fn fresh(
        path: Seq<char>,
        size: i64,
        atime: i64,
        description: Seq<char>,
        is_text: bool,
    ) -> PreviewView {
        PreviewView {
            path,
            size,
            atime,
            type_description: description,
            is_text,
            lines: Seq::empty(),
            first_line_number: 0,
            total_lines_loaded: 0,
            file_offset: 0,
            eof_reached: !is_text,
            scroll_offset: 0,
        }
    }

    /// The preview of a file whose first bytes are `sniff`: of a type that they
    /// tell, or unreadable where there are none.
    pub open spec fn sniffed(
        path: Seq<char>,
        size: i64,
        atime: i64,
        sniff: Seq<u8>,
        magic: Option<(Seq<char>, Seq<char>)>,
    ) -> PreviewView {
        if sniff.len() == 0 {
            PreviewView::fresh(path, size, atime, "(unreadable)"@, false)
        } else {
            let (description, is_text) = content_kind(sniff, path, magic);
            PreviewView::fresh(path, size, atime, description, is_text)
        }
    }
}

impl FilePreview {
    /// The preview of a file of a known type, before any line is read.
    pub fn new(path: &str, size: i64, atime: i64, type_description: String, is_text: bool) -> (r:
        FilePreview)
        ensures
            r@ == PreviewView::fresh(path@, size, atime, type_description@, is_text),
            r@.wf(),
    {
        let r = FilePreview {
            path: path.to_owned(),
            size,
            atime,
            type_description,
            is_text,
            lines: VecDeque::new(),
            first_line_number: 0,
            total_lines_loaded: 0,
            file_offset: 0,
            eof_reached: !is_text,
            scroll_offset: 0,
        };
        assert(r@.lines =~= Seq::<Seq<char>>::empty());
        r
    }
}

/// The preview of a file, from its path, its size and access time in the index,
/// and its first bytes. Lines are read later.
pub fn load_file_preview(path: &str, size: i64, atime: i64, sniff: &[u8]) -> (r: FilePreview)
    ensures
        r@ == PreviewView::sniffed(path@, size, atime, sniff@, magic_kind(sniff@)),
        r@.wf(),
{
    if sniff.len() == 0 {
        return FilePreview::new(path, size, atime, "(unreadable)".to_owned(), false);
    }
    let (type_description, is_text) = detect_file_type(sniff, path);
    FilePreview::new(path, size, atime, type_description, is_text)
}

/// What came of reading the first chunk of a text file.
#[derive(Debug)]
pub enum ChunkRead {
    /// The file could not be opened
    Unopened,
    /// The file could not be read
    Failed,
    /// The bytes that were read, none at the end of the file
    Bytes(Vec<u8>),
}

/// Lines without their escape sequences.
pub open spec fn clean_lines(lines: Seq<Seq<char>>) -> Seq<Seq<char>> {
    lines.map_values(|l: Seq<char>| stripped(l))
}

/// The position behind the last line feed of the bytes, or their start.
pub open spec fn behind_last_feed(bytes: Seq<u8>) -> int
    decreases bytes.len(),
{
    if bytes.len() == 0 {
        0
    } else if bytes.last() == 10 {
        bytes.len() as int
    } else {
        behind_last_feed(bytes.drop_last())
    }
}

/// Behind that position there is no line feed, and before it is one, unless it is
/// the start.
pub proof fn lemma_behind_last_feed(bytes: Seq<u8>)
    ensures
        0 <= behind_last_feed(bytes) <= bytes.len(),
        behind_last_feed(bytes) > 0 ==> bytes[behind_last_feed(bytes) - 1] == 10,
        forall|i: int| behind_last_feed(bytes) <= i < bytes.len() ==> bytes[i] != 10,
    decreases bytes.len(),
{
    if bytes.len() > 0 && bytes.last() != 10 {
        let t = bytes.drop_last();
        lemma_behind_last_feed(t);
        assert forall|i: int| behind_last_feed(bytes) <= i < bytes.len() implies bytes[i] != 10 by {
            if i < t.len() {
                assert(t[i] != 10);
            }
        }
    }
}

fn find_behind_last_feed(bytes: &[u8]) -> (r: usize)
    ensures
        r == behind_last_feed(bytes@),
        r <= bytes@.len(),
{
    let mut n: usize = bytes.len();
    assert(bytes@.take(n as int) =~= bytes@);
    while n > 0 && bytes[n - 1] != 10
        invariant
            n <= bytes@.len(),
            behind_last_feed(bytes@) == behind_last_feed(bytes@.take(n as int)),
        decreases n,
    {
        assert(bytes@.take(n as int).drop_last() =~= bytes@.take(n - 1));
        n -= 1;
    }
    assert(n > 0 ==> bytes@.take(n as int).last() == 10);
    n
}

impl PreviewView {
    /// The preview with its first chunk read. A chunk that is shorter than asked
    /// for ends the file. Otherwise what stands behind its last line feed is left
    /// for the next reading step: it may end inside a character. A chunk that is not
    /// UTF-8 otherwise gives no lines.
    pub open spec fn with_first_chunk(self, read: ChunkRead) -> PreviewView {
        match read {
            ChunkRead::Unopened => self,
            ChunkRead::Failed => PreviewView { eof_reached: true, ..self },
            ChunkRead::Bytes(bytes) => {
                let eof = bytes@.len() < CHUNK_BYTES;
                let taken = if eof {
                    bytes@.len() as int
                } else {
                    behind_last_feed(bytes@)
                };
                let readable = if eof {
                    valid_utf8(bytes@)
                } else {
                    begins_text(bytes@)
                };
                if bytes@.len() == 0 {
                    PreviewView { eof_reached: true, ..self }
                } else if readable {
                    let pieces = split(decode_utf8(bytes@.take(taken)), '\n');
                    let lines = if eof {
                        pieces
                    } else {
                        pieces.drop_last()
                    };
                    PreviewView {
                        lines: clean_lines(lines),
                        total_lines_loaded: lines.len() as int,
                        file_offset: taken,
                        eof_reached: eof,
                        ..self
                    }
                } else {
                    PreviewView {
                        file_offset: bytes@.len() as int,
                        eof_reached: eof,
                        ..self
                    }
                }
            },
        }
    }
}

/// A text splits into at least one piece and at most one more than it has
/// characters.
pub proof fn lemma_split_bounds(s: Seq<char>, c: char)
    ensures
        1 <= split(s, c).len() <= s.len() + 1,
    decreases s.len(),
{
    lemma_until(s, c);
    let n = until(s, c);
    if n < s.len() {
        lemma_split_bounds(s.skip(n + 1), c);
    }
}

impl FilePreview {
    /// Takes in what came of reading the first chunk of a text file. A preview of
    /// a binary file has no chunk to take in.
    pub fn load_first_chunk(&mut self, read: ChunkRead)
        requires
            old(self).is_text,
            old(self)@ == PreviewView::fresh(
                old(self)@.path,
                old(self).size,
                old(self).atime,
                old(self)@.type_description,
                true,
            ),
            read matches ChunkRead::Bytes(b) ==> b@.len() <= CHUNK_BYTES,
        ensures
            final(self)@ == old(self)@.with_first_chunk(read),
            final(self)@.wf(),
    {
        match read {
            ChunkRead::Unopened => {},
            ChunkRead::Failed => {
                self.eof_reached = true;
            },
            ChunkRead::Bytes(buf) => {
                let n: usize = buf.len();
                if n == 0 {
                    self.eof_reached = true;
                    return;
                }
                self.file_offset = n as u64;
                let eof = n < CHUNK_BYTES;
                self.eof_reached = eof;
                let taken: usize = if eof {
                    n
                } else {
                    find_behind_last_feed(buf.as_slice())
                };
                let part = vstd::slice::slice_subrange(buf.as_slice(), 0, taken);
                assert(part@ =~= buf@.take(taken as int));
                if !eof && !can_begin_text(buf.as_slice()) {
                    return;
                }
                proof {
                    if eof {
                        assert(part@ =~= buf@);
                    } else {
                        lemma_behind_last_feed(buf@);
                        lemma_begun_text(buf@, taken as int);
                    }
                }
                match utf8_text(part) {
                    Some(text) => {
                        proof {
                            vstd::utf8::decode_utf8_encode_utf8(part@);
                            assert(encode_utf8(text@) == part@);
                            lemma_byte_len(text@);
                            lemma_split_bounds(text@, '\n');
                        }
                        let pieces = split_of(text, '\n');
                        let ghost all = texts(pieces@);
                        let last: usize = pieces.len() - 1;
                        let count: usize = if eof {
                            last + 1
                        } else {
                            last
                        };
                        let mut lines: VecDeque<String> = VecDeque::new();
                        let mut i: usize = 0;
                        assert(texts(lines@) =~= clean_lines(all.take(0)));
                        while i < count
                            invariant
                                i <= count <= pieces@.len(),
                                all == texts(pieces@),
                                lines@.len() == i,
                                texts(lines@) == clean_lines(all.take(i as int)),
                            decreases count - i,
                        {
                            let ghost before = lines@;
                            let line = strip_ansi(pieces[i].as_str());
                            lines.push_back(line);
                            proof {
                                assert(texts(lines@) =~= texts(before).push(line@));
                                assert(clean_lines(all.take(i + 1)) =~= clean_lines(
                                    all.take(i as int),
                                ).push(stripped(all[i as int])));
                            }
                            i += 1;
                        }
                        self.file_offset = taken as u64;
                        self.lines = lines;
                        self.total_lines_loaded = count;
                        proof {
                            if eof {
                                assert(all.take(count as int) =~= all);
                            } else {
                                assert(all.take(count as int) =~= all.drop_last());
                            }
                            assert(self@.lines =~= texts(lines@));
                        }
                    },
                    None => {},
                }
            },
        }
    }
}

/// Lines on their way from a file into its preview: as they were read, each with
/// its line feed.
#[derive(Debug)]
pub struct LineBatch {
    pub lines: Vec<String>,
    /// Bytes of the lines
    pub bytes: u64,
    /// Whether nothing more can be read
    pub ended: bool,
}

/// The bytes of a list of texts.
pub open spec fn total_bytes(lines: Seq<Seq<char>>) -> nat
    decreases lines.len(),
{
    if lines.len() == 0 {
        0
    } else {
        total_bytes(lines.drop_last()) + byte_len(lines.last())
    }
}

impl LineBatch {
    /// The batch counts its bytes.
    pub open spec fn wf(self) -> bool {
        self.bytes == total_bytes(texts(self.lines@))
    }

    /// Whether the batch takes another line.
    pub open spec fn open_ended(self) -> bool {
        !self.ended && self.bytes < CHUNK_BYTES
    }

    /// A batch without lines.
    pub fn new() -> (r: LineBatch)
        ensures
            r.wf(),
            texts(r.lines@) == Seq::<Seq<char>>::empty(),
            r.bytes == 0,
            !r.ended,
    {
        let r = LineBatch { lines: Vec::new(), bytes: 0, ended: false };
        assert(texts(r.lines@) =~= Seq::<Seq<char>>::empty());
        r
    }

    /// Whether the batch takes another line: until a chunk is full, or nothing
    /// more can be read.
    pub fn wants_more(&self) -> (r: bool)
        ensures
            r == self.open_ended(),
    {
        !self.ended && self.bytes < CHUNK_BYTES as u64
    }

    /// Adds a line.
    pub fn push(&mut self, line: String)
        requires
            old(self).wf(),
            old(self).bytes + byte_len(line@) <= u64::MAX,
        ensures
            final(self).wf(),
            texts(final(self).lines@) == texts(old(self).lines@).push(line@),
            final(self).bytes == old(self).bytes + byte_len(line@),
            final(self).ended == old(self).ended,
    {
        let n: usize = byte_len_of(line.as_str());
        self.bytes = self.bytes + n as u64;
        self.lines.push(line);
        proof {
            assert(texts(self.lines@) =~= texts(old(self).lines@).push(line@));
            assert(texts(self.lines@).drop_last() =~= texts(old(self).lines@));
        }
    }

    /// Notes that nothing more can be read: the file has ended, or failed.
    pub fn end(&mut self)
        ensures
            *final(self) == (LineBatch { ended: true, ..*old(self) }),
    {
        self.ended = true;
    }
}

/// A line without its line feed and the carriage return before it.
pub open spec fn without_newline(line: Seq<char>) -> Seq<char> {
    if line.len() > 0 && line.last() == '\n' {
        let l = line.drop_last();
        if l.len() > 0 && l.last() == '\r' {
            l.drop_last()
        } else {
            l
        }
    } else {
        line
    }
}

/// Lines as they are shown: without their ends and their escape sequences.
pub open spec fn shown_lines(lines: Seq<Seq<char>>) -> Seq<Seq<char>> {
    lines.map_values(|l: Seq<char>| stripped(without_newline(l)))
}

/// How many lines leave the window when it would hold `n`.
pub open spec fn evicted(n: int) -> int {
    if n > MAX_BUFFER_LINES {
        n - MAX_BUFFER_LINES
    } else {
        0
    }
}

impl PreviewView {
    /// Whether there is something to read.
    pub open spec fn unfinished(self) -> bool {
        self.is_text && !self.eof_reached
    }

    /// The preview with a batch of lines added at the end of its window, which
    /// loses as many at its front as it has over its size.
    pub open spec fn with_lines(self, lines: Seq<Seq<char>>, bytes: int, ended: bool) -> PreviewView {
        if self.unfinished() {
            let all = self.lines + shown_lines(lines);
            let gone = evicted(all.len() as int);
            PreviewView {
                lines: all.skip(gone),
                first_line_number: self.first_line_number + gone,
                total_lines_loaded: self.total_lines_loaded + lines.len(),
                file_offset: self.file_offset + bytes,
                eof_reached: ended,
                ..self
            }
        } else {
            self
        }
    }

    /// The preview with a batch added.
    pub open spec fn with_batch(self, batch: LineBatch) -> PreviewView {
        self.with_lines(texts(batch.lines@), batch.bytes as int, batch.ended)
    }

    /// Whether the counters of the preview can take the batch.
    pub open spec fn has_room(self, batch: LineBatch) -> bool {
        &&& self.total_lines_loaded + batch.lines@.len() <= usize::MAX
        &&& self.file_offset + batch.bytes <= u64::MAX
    }

    /// The preview set back to before its first line.
    pub open spec fn rewound(self) -> PreviewView {
        PreviewView {
            lines: Seq::empty(),
            first_line_number: 0,
            total_lines_loaded: 0,
            file_offset: 0,
            eof_reached: false,
            scroll_offset: 0,
            ..self
        }
    }

    /// Whether `step` lines further down comes within 40 lines of the end of the
    /// window.
    pub open spec fn near_end(self, step: int) -> bool {
        self.scroll_offset + step + 40 >= self.first_line_number + self.lines.len()
    }

    /// Scrolled down by `step` lines, to the last line read at most.
    pub open spec fn scrolled_down(self, step: int) -> PreviewView {
        let last = last_line(self.total_lines_loaded);
        PreviewView {
            scroll_offset: if self.scroll_offset + step < last {
                self.scroll_offset + step
            } else {
                last
            },
            ..self
        }
    }

    /// Scrolled up by `step` lines, to the start of the window at most.
    pub open spec fn scrolled_up(self, step: int) -> PreviewView {
        let up = if self.scroll_offset > step {
            self.scroll_offset - step
        } else {
            0
        };
        PreviewView {
            scroll_offset: if up < self.first_line_number {
                self.first_line_number
            } else {
                up
            },
            ..self
        }
    }

    /// Scrolled to line `n`.
    pub open spec fn scrolled_to(self, n: int) -> PreviewView {
        PreviewView { scroll_offset: n, ..self }
    }
}

fn clean_line(line: &str) -> (r: String)
    ensures
        r@ == stripped(without_newline(line@)),
{
    let mut s = line.to_owned();
    match s.pop() {
        Some(c) => {
            if c == '\n' {
                match s.pop() {
                    Some(d) => {
                        if d != '\r' {
                            s.push(d);
                            assert(s@ =~= line@.drop_last());
                        }
                    },
                    None => {},
                }
            } else {
                s.push(c);
                assert(s@ =~= line@);
            }
        },
        None => {},
    }
    strip_ansi(s.as_str())
}

impl FilePreview {
    /// Whether the preview is well formed.
    pub fn is_sound(&self) -> (r: bool)
        ensures
            r == self@.wf(),
    {
        let held: usize = self.lines.len();
        let total: usize = self.total_lines_loaded;
        let last: usize = if total > 0 {
            total - 1
        } else {
            0
        };
        held <= total && total - held == self.first_line_number && held <= MAX_BUFFER_LINES && (
        self.first_line_number == 0 || held == MAX_BUFFER_LINES) && (self.is_text || (
        self.eof_reached && held == 0)) && self.scroll_offset <= last
    }

    /// Whether the counters of the preview can take the batch.
    pub fn can_take(&self, batch: &LineBatch) -> (r: bool)
        ensures
            r == self@.has_room(*batch),
    {
        batch.lines.len() <= usize::MAX - self.total_lines_loaded && batch.bytes <= u64::MAX
            - self.file_offset
    }

    /// Adds a batch of lines, unless nothing is left to read.
    pub fn preview_load_more_lines(&mut self, batch: &LineBatch)
        requires
            old(self)@.wf(),
            old(self)@.has_room(*batch),
        ensures
            final(self)@ == old(self)@.with_batch(*batch),
            final(self)@.wf(),
    {
        if self.eof_reached || !self.is_text {
            return;
        }
        let ghost start = self@;
        let ghost raw = texts(batch.lines@);
        let mut i: usize = 0;
        assert(start.lines + shown_lines(raw.take(0)) =~= start.lines);
        assert(start.lines.skip(0) =~= start.lines);
        while i < batch.lines.len()
            invariant
                i <= batch.lines@.len(),
                raw == texts(batch.lines@),
                start == old(self)@,
                start.wf(),
                start.has_room(*batch),
                start.is_text,
                self@ == (PreviewView {
                    lines: (start.lines + shown_lines(raw.take(i as int))).skip(
                        evicted(start.lines.len() + i),
                    ),
                    first_line_number: start.first_line_number + evicted(start.lines.len() + i),
                    total_lines_loaded: start.total_lines_loaded + i,
                    ..start
                }),
                shown_lines(raw.take(i as int)).len() == i,
            decreases batch.lines@.len() - i,
        {
            let ghost window = start.lines + shown_lines(raw.take(i as int));
            let ghost next = start.lines + shown_lines(raw.take(i + 1));
            let ghost k = start.lines.len() + i;
            let line = clean_line(batch.lines[i].as_str());
            let ghost before = self.lines@;
            self.lines.push_back(line);
            proof {
                assert(shown_lines(raw.take(i + 1)) =~= shown_lines(raw.take(i as int)).push(line@));
                assert(next =~= window.push(line@));
                assert(texts(self.lines@) =~= texts(before).push(line@));
                assert(texts(self.lines@) =~= next.skip(evicted(k)));
            }
            self.total_lines_loaded = self.total_lines_loaded + 1;
            if self.lines.len() > MAX_BUFFER_LINES {
                let ghost full = self.lines@;
                let _gone = self.lines.pop_front();
                self.first_line_number = self.first_line_number + 1;
                assert(texts(self.lines@) =~= texts(full).drop_first());
                assert(texts(self.lines@) =~= next.skip(evicted(k + 1)));
            }
            assert(self@.lines =~= next.skip(evicted(k + 1)));
            i += 1;
        }
        assert(raw.take(i as int) =~= raw);
        self.file_offset = self.file_offset + batch.bytes;
        self.eof_reached = batch.ended;
    }

    /// Goes back to before the first line.
    pub fn rewind(&mut self)
        requires
            old(self)@.wf(),
            old(self).is_text,
        ensures
            final(self)@ == old(self)@.rewound(),
            final(self)@.wf(),
    {
        self.lines.clear();
        self.first_line_number = 0;
        self.total_lines_loaded = 0;
        self.file_offset = 0;
        self.eof_reached = false;
        self.scroll_offset = 0;
        assert(self@.lines =~= Seq::<Seq<char>>::empty());
    }

    /// Whether scrolling down by `step` lines calls for more of the file.
    pub fn wants_lines(&self, step: usize) -> (r: bool)
        requires
            self@.wf(),
        ensures
            r == (self@.unfinished() && self@.near_end(step as int)),
    {
        let loaded: usize = self.total_lines_loaded;
        let near = loaded <= 40 || step >= loaded - 40 || self.scroll_offset >= loaded - 40 - step;
        self.is_text && !self.eof_reached && near
    }

    /// Scrolls down by `step` lines, to the last line read at most.
    pub fn scroll_down(&mut self, step: usize)
        requires
            old(self)@.wf(),
        ensures
            final(self)@ == old(self)@.scrolled_down(step as int),
            final(self)@.wf(),
    {
        let last: usize = if self.total_lines_loaded > 0 {
            self.total_lines_loaded - 1
        } else {
            0
        };
        if step < last - self.scroll_offset {
            self.scroll_offset = self.scroll_offset + step;
        } else {
            self.scroll_offset = last;
        }
    }

    /// Scrolls up by `step` lines, to the start of the window at most.
    pub fn scroll_up(&mut self, step: usize)
        requires
            old(self)@.wf(),
        ensures
            final(self)@ == old(self)@.scrolled_up(step as int),
            final(self)@.wf(),
    {
        if self.scroll_offset > step {
            self.scroll_offset = self.scroll_offset - step;
        } else {
            self.scroll_offset = 0;
        }
        if self.scroll_offset < self.first_line_number {
            self.scroll_offset = self.first_line_number;
        }
    }

    /// Scrolls to the first line.
    pub fn scroll_to_top(&mut self)
        requires
            old(self)@.wf(),
        ensures
            final(self)@ == old(self)@.scrolled_to(0),
            final(self)@.wf(),
    {
        self.scroll_offset = 0;
    }

    /// Scrolls to the last line read.
    pub fn scroll_to_bottom(&mut self)
        requires
            old(self)@.wf(),
        ensures
            final(self)@ == old(self)@.scrolled_to(last_line(old(self)@.total_lines_loaded)),
            final(self)@.wf(),
    {
        self.scroll_offset = if self.total_lines_loaded > 0 {
            self.total_lines_loaded - 1
        } else {
            0
        };
    }
}

/// Lines with a line feed behind each.
pub open spec fn with_feeds(lines: Seq<Seq<char>>) -> Seq<char>
    decreases lines.len(),
{
    if lines.len() == 0 {
        Seq::empty()
    } else {
        lines[0].push('\n') + with_feeds(lines.drop_first())
    }
}

proof fn lemma_split_whole(s: Seq<char>)
    ensures
        split(s, '\n').len() > 0,
        s == with_feeds(split(s, '\n').drop_last()) + split(s, '\n').last(),
        !split(s, '\n').last().contains('\n'),
    decreases s.len(),
{
    lemma_until(s, '\n');
    let n = until(s, '\n');
    let pieces = split(s, '\n');
    if n < s.len() {
        let rest = s.skip(n + 1);
        lemma_split_whole(rest);
        let later = split(rest, '\n');
        assert(pieces.drop_last().drop_first() =~= later.drop_last());
        assert(pieces.last() == later.last());
        assert(pieces.drop_last()[0] == s.take(n));
        assert(s =~= s.take(n).push('\n') + rest);
        assert(s =~= with_feeds(pieces.drop_last()) + pieces.last());
    } else {
        assert(pieces.drop_last() =~= Seq::<Seq<char>>::empty());
        assert(s =~= with_feeds(pieces.drop_last()) + pieces.last());
    }
}

/// A first chunk that does not end the file is taken up to its last line feed, and
/// reading goes on just behind it: no byte is left out, and none is shown twice,
/// wherever the chunk ends.
pub proof fn law_first_chunk(p: PreviewView, bytes: Vec<u8>)
    requires
        bytes@.len() == CHUNK_BYTES,
        begins_text(bytes@),
    ensures
        ({
            let n = behind_last_feed(bytes@);
            let text = decode_utf8(bytes@.take(n));
            let pieces = split(text, '\n');
            let r = p.with_first_chunk(ChunkRead::Bytes(bytes));
            &&& valid_utf8(bytes@.take(n))
            &&& n > 0 ==> bytes@[n - 1] == 10
            &&& forall|i: int| n <= i < bytes@.len() ==> bytes@[i] != 10
            &&& text == with_feeds(pieces.drop_last()) + pieces.last()
            &&& !pieces.last().contains('\n')
            &&& r.lines == clean_lines(pieces.drop_last())
            &&& r.total_lines_loaded == r.lines.len()
            &&& r.file_offset == n
            &&& !r.eof_reached
        }),
{
    lemma_behind_last_feed(bytes@);
    lemma_begun_text(bytes@, behind_last_feed(bytes@));
    lemma_split_whole(decode_utf8(bytes@.take(behind_last_feed(bytes@))));
}

/// A text that fits into the first chunk is read whole at once: its lines, joined by
/// line feeds, make it up, and nothing is left to read.
pub proof fn law_short_text(p: PreviewView, bytes: Vec<u8>)
    requires
        0 < bytes@.len() < CHUNK_BYTES,
        valid_utf8(bytes@),
    ensures
        ({
            let text = decode_utf8(bytes@);
            let pieces = split(text, '\n');
            let r = p.with_first_chunk(ChunkRead::Bytes(bytes));
            &&& text == with_feeds(pieces.drop_last()) + pieces.last()
            &&& r.lines == clean_lines(pieces)
            &&& r.total_lines_loaded == pieces.len()
            &&& r.file_offset == bytes@.len()
            &&& r.eof_reached
        }),
{
    assert(bytes@.take(bytes@.len() as int) =~= bytes@);
    lemma_split_whole(decode_utf8(bytes@));
}

/// Reading a file in two batches gives what one batch of all the lines gives, as
/// long as the first has not reached the end.
pub proof fn law_batches_join(
    p: PreviewView,
    a: Seq<Seq<char>>,
    b: Seq<Seq<char>>,
    a_bytes: int,
    b_bytes: int,
    ended: bool,
)
    requires
        p.wf(),
    ensures
        p.with_lines(a, a_bytes, false).with_lines(b, b_bytes, ended) == p.with_lines(
            a + b,
            a_bytes + b_bytes,
            ended,
        ),
{
    if p.unfinished() {
        let one = p.lines + shown_lines(a);
        let both = p.lines + shown_lines(a + b);
        let gone = evicted(one.len() as int);
        let q = p.with_lines(a, a_bytes, false);
        assert(shown_lines(a + b) =~= shown_lines(a) + shown_lines(b));
        assert(both =~= one + shown_lines(b));
        let again = q.lines + shown_lines(b);
        assert(again =~= both.skip(gone));
        assert(again.skip(evicted(again.len() as int)) =~= both.skip(evicted(both.len() as int)));
        assert(q.with_lines(b, b_bytes, ended).lines =~= p.with_lines(
            a + b,
            a_bytes + b_bytes,
            ended,
        ).lines);
    }
}

/// Going back to before the first line makes a text preview what it was before
/// any line was read.
pub proof fn law_rewound_is_fresh(p: PreviewView)
    requires
        p.is_text,
    ensures
        p.rewound() == PreviewView::fresh(p.path, p.size, p.atime, p.type_description, true),
{
}

/// Scrolling keeps to the lines that were read, and never leaves the window by
/// its front.
pub proof fn law_scrolling(p: PreviewView, step: nat)
    requires
        p.wf(),
    ensures
        p.scrolled_down(step as int).wf(),
        p.scrolled_up(step as int).wf(),
        p.scrolled_down(step as int).scroll_offset >= p.scroll_offset,
        p.scrolled_up(step as int).scroll_offset >= p.first_line_number,
        p.scroll_offset + step <= last_line(p.total_lines_loaded) && p.scroll_offset
            >= p.first_line_number ==> p.scrolled_down(step as int).scrolled_up(step as int) == p,
{
}

/// Whether no line of the window has an escape character in it.
pub open spec fn free_of_escapes(lines: Seq<Seq<char>>) -> bool {
    forall|i: int| 0 <= i < lines.len() ==> !(#[trigger] lines[i]).contains(ESC)
}

/// A batch keeps the window: it ends with the last line read, is not over its size,
/// and is free of escape characters. The counters never go back, and nothing else
/// changes; nothing changes at all where there is nothing to read.
pub proof fn law_window(p: PreviewView, batch: LineBatch)
    requires
        p.first_line_number + p.lines.len() == p.total_lines_loaded,
        p.lines.len() <= MAX_BUFFER_LINES,
        free_of_escapes(p.lines),
    ensures
        ({
            let r = p.with_batch(batch);
            &&& r.first_line_number + r.lines.len() == r.total_lines_loaded
            &&& r.lines.len() <= MAX_BUFFER_LINES
            &&& free_of_escapes(r.lines)
            &&& r.total_lines_loaded >= p.total_lines_loaded
            &&& r.file_offset >= p.file_offset
            &&& r == (PreviewView {
                lines: r.lines,
                first_line_number: r.first_line_number,
                total_lines_loaded: r.total_lines_loaded,
                file_offset: r.file_offset,
                eof_reached: r.eof_reached,
                ..p
            })
            &&& p.eof_reached || !p.is_text ==> r == p
        }),
{
    let raw = texts(batch.lines@);
    let added = shown_lines(raw);
    let r = p.with_batch(batch);
    assert forall|i: int| 0 <= i < r.lines.len() implies !(#[trigger] r.lines[i]).contains(ESC) by {
        if p.unfinished() {
            let all = p.lines + added;
            let k = i + evicted(all.len() as int);
            assert(r.lines[i] == all[k]);
            if k < p.lines.len() {
                assert(!p.lines[k].contains(ESC));
            } else {
                law_stripped_is_clean(without_newline(raw[k - p.lines.len()]));
            }
        } else {
            assert(!p.lines[i].contains(ESC));
        }
    }
}

/// The lines of a first chunk are free of escape characters.
pub proof fn law_first_lines_are_clean(p: PreviewView, read: ChunkRead)
    requires
        free_of_escapes(p.lines),
    ensures
        free_of_escapes(p.with_first_chunk(read).lines),
{
    let r = p.with_first_chunk(read);
    if let ChunkRead::Bytes(bytes) = read {
        let eof = bytes@.len() < CHUNK_BYTES;
        let taken = if eof {
            bytes@.len() as int
        } else {
            behind_last_feed(bytes@)
        };
        let pieces = split(decode_utf8(bytes@.take(taken)), '\n');
        let lines = if eof {
            pieces
        } else {
            pieces.drop_last()
        };
        let readable = if eof {
            valid_utf8(bytes@)
        } else {
            begins_text(bytes@)
        };
        if bytes@.len() > 0 && readable {
            assert forall|i: int| 0 <= i < r.lines.len() implies !(#[trigger] r.lines[i]).contains(
                ESC,
            ) by {
                assert(r.lines[i] == stripped(lines[i]));
                law_stripped_is_clean(lines[i]);
            }
        }
    }
}

/// A batch leaves a well-formed preview well formed.
pub proof fn lemma_with_lines_wf(
    p: PreviewView,
    lines: Seq<Seq<char>>,
    bytes: int,
    ended: bool,
)
    requires
        p.wf(),
        bytes >= 0,
    ensures
        p.with_lines(lines, bytes, ended).wf(),
{
}

} // verus!
