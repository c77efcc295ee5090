//! What reading a file through gives: each of its lines once.

use vstd::prelude::*;
use vstd::utf8::{decode_utf8, encode_utf8, valid_utf8};

use crate::encoding::{begins_text, lemma_feed_boundary};
use crate::preview::{
    behind_last_feed, lemma_behind_last_feed, lemma_with_lines_wf, shown_lines,
    total_bytes, without_newline, ChunkRead, LineBatch, PreviewView, CHUNK_BYTES, MAX_BUFFER_LINES,
};
use crate::text::{byte_len, lemma_encode_join, lemma_until, split, texts, until};

verus! {

/// The lines of a text, each with its line feed; the last one may lack it.
pub open spec fn raw_lines(text: Seq<char>) -> Seq<Seq<char>>
    decreases text.len(),
    via raw_lines_decreases
{
    let n = until(text, '\n');
    if n < text.len() {
        seq![text.take(n + 1)] + raw_lines(text.skip(n + 1))
    } else if text.len() > 0 {
        seq![text]
    } else {
        Seq::empty()
    }
}

#[via_fn]
proof fn raw_lines_decreases(text: Seq<char>) {
    lemma_until(text, '\n');
}

/// Texts joined.
pub open spec fn joined_up(lines: Seq<Seq<char>>) -> Seq<char>
    decreases lines.len(),
{
    if lines.len() == 0 {
        Seq::empty()
    } else {
        lines[0] + joined_up(lines.drop_first())
    }
}

proof fn lemma_joined_take(lines: Seq<Seq<char>>, n: int)
    requires
        0 < n <= lines.len(),
    ensures
        joined_up(lines.take(n)) == lines[0] + joined_up(lines.drop_first().take(n - 1)),
{
    assert(lines.take(n).drop_first() =~= lines.drop_first().take(n - 1));
}

/// The lines of a text make up that text. Behind the first `k` of them stand the
/// others.
pub proof fn lemma_raw_lines(text: Seq<char>, k: int)
    requires
        0 <= k <= raw_lines(text).len(),
    ensures
        joined_up(raw_lines(text).take(k)).len() <= text.len(),
        text.take(joined_up(raw_lines(text).take(k)).len() as int) == joined_up(
            raw_lines(text).take(k),
        ),
        raw_lines(text.skip(joined_up(raw_lines(text).take(k)).len() as int)) == raw_lines(
            text,
        ).skip(k),
    decreases text.len(),
{
    let all = raw_lines(text);
    lemma_until(text, '\n');
    let n = until(text, '\n');
    if k == 0 {
        assert(joined_up(all.take(0)) =~= Seq::<char>::empty());
        assert(text.take(0) =~= Seq::<char>::empty());
        assert(text.skip(0) =~= text);
        assert(all.skip(0) =~= all);
    } else if n < text.len() {
        let rest = text.skip(n + 1);
        let others = raw_lines(rest);
        assert(all.drop_first() =~= others);
        lemma_joined_take(all, k);
        lemma_raw_lines(rest, k - 1);
        let a = joined_up(all.take(k));
        let b = joined_up(others.take(k - 1));
        assert(a =~= text.take(n + 1) + b);
        assert(text.take(a.len() as int) =~= a) by {
            assert(rest.take(b.len() as int) == b);
            assert forall|i: int| 0 <= i < a.len() implies text[i] == a[i] by {
                if i > n {
                    assert(rest.take(b.len() as int)[i - n - 1] == b[i - n - 1]);
                }
            }
        }
        assert(text.skip(a.len() as int) =~= rest.skip(b.len() as int));
        assert(all.skip(k) =~= others.skip(k - 1));
    } else {
        assert(all =~= seq![text]);
        lemma_joined_take(all, 1);
        assert(all.drop_first().take(0) =~= Seq::<Seq<char>>::empty());
        assert(joined_up(all.take(1)) =~= text);
        assert(text.take(text.len() as int) =~= text);
        assert(raw_lines(text.skip(text.len() as int)) =~= all.skip(1));
    }
}

/// Behind a line feed the lines begin anew.
proof fn lemma_raw_join(a: Seq<char>, b: Seq<char>)
    requires
        a.len() > 0 ==> a.last() == '\n',
    ensures
        raw_lines(a + b) == raw_lines(a) + raw_lines(b),
    decreases a.len(),
{
    let s = a + b;
    if a.len() == 0 {
        assert(s =~= b);
        lemma_until(a, '\n');
        assert(raw_lines(a) + raw_lines(b) =~= raw_lines(b));
    } else {
        lemma_until(a, '\n');
        lemma_until(s, '\n');
        let n = until(a, '\n');
        let m = until(s, '\n');
        assert(n < a.len()) by {
            if n == a.len() {
                assert(a[a.len() - 1] != '\n');
            }
        }
        assert(m == n) by {
            if m < n {
                assert(s[m] == a[m]);
            }
            if n < m {
                assert(s[n] == a[n]);
            }
        }
        let rest = a.skip(n + 1);
        assert(rest.len() > 0 ==> rest.last() == a.last());
        lemma_raw_join(rest, b);
        assert(s.skip(n + 1) =~= rest + b);
        assert(s.take(n + 1) =~= a.take(n + 1));
        assert(raw_lines(s) =~= raw_lines(a) + raw_lines(b));
    }
}

/// Of text that ends in a line feed, the lines are the pieces between the feeds,
/// each with its feed.
proof fn lemma_raw_pieces(text: Seq<char>)
    requires
        text.len() > 0 ==> text.last() == '\n',
    ensures
        split(text, '\n').len() > 0,
        raw_lines(text).len() == split(text, '\n').len() - 1,
        forall|i: int|
            0 <= i < raw_lines(text).len() ==> #[trigger] raw_lines(text)[i] == split(
                text,
                '\n',
            )[i].push('\n'),
        joined_up(raw_lines(text)) == text,
    decreases text.len(),
{
    lemma_until(text, '\n');
    let n = until(text, '\n');
    let all = raw_lines(text);
    let pieces = split(text, '\n');
    if text.len() > 0 {
        assert(n < text.len()) by {
            if n == text.len() {
                assert(text[text.len() - 1] != '\n');
            }
        }
        let rest = text.skip(n + 1);
        assert(rest.len() > 0 ==> rest.last() == text.last());
        lemma_raw_pieces(rest);
        assert(all[0] =~= pieces[0].push('\n'));
        assert forall|i: int| 0 <= i < all.len() implies #[trigger] all[i] == pieces[i].push(
            '\n',
        ) by {
            if i > 0 {
                assert(all[i] == raw_lines(rest)[i - 1]);
                assert(pieces[i] == split(rest, '\n')[i - 1]);
            }
        }
        assert(all.drop_first() =~= raw_lines(rest));
        assert(joined_up(all) =~= text);
    } else {
        assert(joined_up(all) =~= text);
    }
}

proof fn lemma_raw_members(text: Seq<char>, i: int, c: char)
    requires
        0 <= i < raw_lines(text).len(),
        !text.contains(c),
    ensures
        !raw_lines(text)[i].contains(c),
    decreases text.len(),
{
    lemma_until(text, '\n');
    let n = until(text, '\n');
    let line = raw_lines(text)[i];
    if n < text.len() {
        let rest = text.skip(n + 1);
        if i == 0 {
            assert forall|j: int| 0 <= j < line.len() implies line[j] != c by {
                assert(line[j] == text[j]);
                assert(text.contains(text[j]));
            }
        } else {
            assert forall|j: int| 0 <= j < rest.len() implies rest[j] != c by {
                assert(rest[j] == text[n + 1 + j]);
                assert(text.contains(text[n + 1 + j]));
            }
            lemma_raw_members(rest, i - 1, c);
        }
    } else {
        assert(line == text);
    }
}

/// The lines of a file, each with its line feed.
pub open spec fn file_lines(content: Seq<u8>) -> Seq<Seq<char>> {
    raw_lines(decode_utf8(content))
}

impl PreviewView {
    /// Whether the preview shows the file as far as it has been read: the lines that
    /// were counted are the first ones of the file, the window holds the last of
    /// them, and reading goes on behind them.
    pub open spec fn shows(self, content: Seq<u8>) -> bool {
        let all = file_lines(content);
        let n = self.total_lines_loaded;
        &&& self.wf()
        &&& self.is_text
        &&& n <= all.len()
        &&& self.lines == shown_lines(all.take(n)).skip(self.first_line_number)
        &&& self.file_offset == byte_len(joined_up(all.take(n)))
        &&& self.eof_reached ==> n == all.len()
    }

    /// The preview with batches added one after the other.
    pub open spec fn with_batches(self, batches: Seq<LineBatch>) -> PreviewView
        decreases batches.len(),
    {
        if batches.len() == 0 {
            self
        } else {
            self.with_batch(batches[0]).with_batches(batches.drop_first())
        }
    }
}

/// Whether the batch holds the lines of the file that begin at byte `offset`, and
/// all that are left where it says that nothing more can be read.
pub open spec fn reads_on(content: Seq<u8>, offset: int, batch: LineBatch) -> bool {
    let rest = file_lines(content.skip(offset));
    &&& batch.wf()
    &&& batch.lines@.len() <= rest.len()
    &&& texts(batch.lines@) == rest.take(batch.lines@.len() as int)
    &&& batch.ended ==> batch.lines@.len() == rest.len()
}

/// Whether the batches read the file on from where the preview stopped, up to its
/// end.
pub open spec fn reads_through(p: PreviewView, content: Seq<u8>, batches: Seq<LineBatch>) -> bool
    decreases batches.len(),
{
    if batches.len() == 0 {
        p.eof_reached
    } else {
        &&& p.unfinished()
        &&& reads_on(content, p.file_offset, batches[0])
        &&& reads_through(p.with_batch(batches[0]), content, batches.drop_first())
    }
}

/// A preview that has read the first chunk of a longer text shows its first lines.
/// A carriage return before a line feed, which stays in the first chunk and is
/// taken off later, would break this.
pub proof fn law_first_chunk_shows(p: PreviewView, content: Seq<u8>, bytes: Vec<u8>)
    requires
        p == PreviewView::fresh(p.path, p.size, p.atime, p.type_description, true),
        valid_utf8(content),
        content.len() >= CHUNK_BYTES,
        bytes@ == content.take(CHUNK_BYTES as int),
        !decode_utf8(content).contains('\r'),
    ensures
        ({
            let r = p.with_first_chunk(ChunkRead::Bytes(bytes));
            &&& r.shows(content)
            &&& r.unfinished()
            &&& r.first_line_number == 0
            &&& r.file_offset > 0 ==> content[r.file_offset - 1] == 10
        }),
{
    let n = behind_last_feed(bytes@);
    lemma_behind_last_feed(bytes@);
    assert(bytes@ + content.skip(CHUNK_BYTES as int) =~= content);
    assert(begins_text(bytes@));
    assert(bytes@.take(n) =~= content.take(n));
    lemma_feed_boundary(content, n);
    let text = decode_utf8(content);
    let a = decode_utf8(content.take(n));
    let b = decode_utf8(content.skip(n));
    assert(n == 0 ==> content.take(n) =~= Seq::<u8>::empty());
    lemma_raw_join(a, b);
    lemma_raw_pieces(a);
    let pieces = split(a, '\n');
    let all = raw_lines(text);
    let mine = raw_lines(a);
    let k = mine.len() as int;
    assert(all.take(k) =~= mine);
    let r = p.with_first_chunk(ChunkRead::Bytes(bytes));
    assert(r.lines =~= shown_lines(all.take(k)).skip(0)) by {
        assert forall|i: int| 0 <= i < k implies r.lines[i] == shown_lines(mine)[i] by {
            lemma_raw_members(text, i, '\r');
            assert(all[i] == mine[i]);
            assert(mine[i] == pieces[i].push('\n'));
            assert(mine[i].drop_last() =~= pieces[i]);
            if pieces[i].len() > 0 {
                assert(mine[i][pieces[i].len() - 1] == pieces[i].last());
                assert(mine[i].contains(mine[i][pieces[i].len() - 1]));
            }
            assert(without_newline(mine[i]) == pieces[i]);
        }
    }
    vstd::utf8::decode_utf8_encode_utf8(content.take(n));
    assert(r.file_offset == byte_len(joined_up(all.take(k))));
    assert(a.len() <= CHUNK_BYTES) by {
        crate::text::lemma_byte_len(a);
    }
    crate::preview::lemma_split_bounds(a, '\n');
}

proof fn lemma_total_bytes(lines: Seq<Seq<char>>)
    ensures
        total_bytes(lines) == byte_len(joined_up(lines)),
    decreases lines.len(),
{
    if lines.len() > 0 {
        lemma_total_bytes(lines.drop_last());
        lemma_joined_push(lines.drop_last(), lines.last());
        assert(lines.drop_last().push(lines.last()) =~= lines);
        lemma_encode_join(joined_up(lines.drop_last()), lines.last());
    } else {
        assert(encode_utf8(joined_up(lines)) =~= Seq::<u8>::empty());
    }
}

proof fn lemma_joined_push(lines: Seq<Seq<char>>, line: Seq<char>)
    ensures
        joined_up(lines.push(line)) == joined_up(lines) + line,
    decreases lines.len(),
{
    let s = lines.push(line);
    if lines.len() > 0 {
        assert(s.drop_first() =~= lines.drop_first().push(line));
        lemma_joined_push(lines.drop_first(), line);
        assert(joined_up(s) =~= joined_up(lines) + line);
    } else {
        assert(s.drop_first() =~= Seq::<Seq<char>>::empty());
        assert(joined_up(s.drop_first()) =~= Seq::<char>::empty());
        assert(joined_up(s) =~= joined_up(lines) + line);
    }
}

proof fn lemma_joined_two(a: Seq<Seq<char>>, b: Seq<Seq<char>>)
    ensures
        joined_up(a + b) == joined_up(a) + joined_up(b),
    decreases a.len(),
{
    if a.len() > 0 {
        assert((a + b).drop_first() =~= a.drop_first() + b);
        lemma_joined_two(a.drop_first(), b);
        assert(joined_up(a + b) =~= joined_up(a) + joined_up(b));
    } else {
        assert(a + b =~= b);
        assert(joined_up(a) + joined_up(b) =~= joined_up(b));
    }
}

/// The bytes behind the first `k` lines of a file are those of the other lines.
proof fn lemma_content_behind(content: Seq<u8>, k: int)
    requires
        valid_utf8(content),
        0 <= k <= file_lines(content).len(),
    ensures
        byte_len(joined_up(file_lines(content).take(k))) <= content.len(),
        file_lines(content.skip(byte_len(joined_up(file_lines(content).take(k))) as int))
            == file_lines(content).skip(k),
{
    let text = decode_utf8(content);
    let a = joined_up(file_lines(content).take(k));
    let b = text.skip(a.len() as int);
    lemma_raw_lines(text, k);
    assert(text =~= a + b);
    vstd::utf8::decode_utf8_encode_utf8(content);
    lemma_encode_join(a, b);
    assert(content.skip(byte_len(a) as int) =~= encode_utf8(b));
    vstd::utf8::encode_utf8_decode_utf8(b);
}

/// A batch that reads the file on leaves a preview that shows it, further on.
pub proof fn law_batch_shows(p: PreviewView, content: Seq<u8>, batch: LineBatch)
    requires
        valid_utf8(content),
        p.shows(content),
        p.unfinished(),
        reads_on(content, p.file_offset, batch),
    ensures
        p.with_batch(batch).shows(content),
        p.with_batch(batch).total_lines_loaded == p.total_lines_loaded + batch.lines@.len(),
        p.with_batch(batch).eof_reached == batch.ended,
{
    let all = file_lines(content);
    let k = p.total_lines_loaded;
    let raw = texts(batch.lines@);
    let m = raw.len() as int;
    lemma_content_behind(content, k);
    assert(raw == all.skip(k).take(m));
    let r = p.with_batch(batch);
    lemma_with_lines_wf(p, raw, batch.bytes as int, batch.ended);
    assert(all.take(k + m) =~= all.take(k) + raw);
    let first = p.first_line_number;
    let shown = shown_lines(all.take(k + m));
    assert(shown =~= shown_lines(all.take(k)) + shown_lines(raw));
    assert(p.lines + shown_lines(raw) =~= shown.skip(first));
    assert(r.lines =~= shown.skip(r.first_line_number));
    lemma_total_bytes(raw);
    lemma_joined_two(all.take(k), raw);
    lemma_encode_join(joined_up(all.take(k)), joined_up(raw));
}

proof fn lemma_batches_show(p: PreviewView, content: Seq<u8>, batches: Seq<LineBatch>)
    requires
        valid_utf8(content),
        p.shows(content),
        reads_through(p, content, batches),
    ensures
        p.with_batches(batches).shows(content),
        p.with_batches(batches).eof_reached,
    decreases batches.len(),
{
    if batches.len() > 0 {
        law_batch_shows(p, content, batches[0]);
        lemma_batches_show(p.with_batch(batches[0]), content, batches.drop_first());
    }
}

/// Reading a text file to its end, by its first chunk and then by batches that each
/// go on where the one before stopped, gives every line once: all are counted, and
/// the window holds the last ones, as many as it can, none lost and none doubled.
pub proof fn law_read_to_end(
    p: PreviewView,
    content: Seq<u8>,
    bytes: Vec<u8>,
    batches: Seq<LineBatch>,
)
    requires
        p == PreviewView::fresh(p.path, p.size, p.atime, p.type_description, true),
        valid_utf8(content),
        content.len() >= CHUNK_BYTES,
        bytes@ == content.take(CHUNK_BYTES as int),
        !decode_utf8(content).contains('\r'),
        reads_through(p.with_first_chunk(ChunkRead::Bytes(bytes)), content, batches),
    ensures
        ({
            let r = p.with_first_chunk(ChunkRead::Bytes(bytes)).with_batches(batches);
            let all = file_lines(content);
            &&& r.eof_reached
            &&& r.total_lines_loaded == all.len()
            &&& r.lines.len() == (if all.len() < MAX_BUFFER_LINES {
                all.len()
            } else {
                MAX_BUFFER_LINES as nat
            })
            &&& r.first_line_number == all.len() - r.lines.len()
            &&& r.lines == shown_lines(all).skip(r.first_line_number)
        }),
{
    law_first_chunk_shows(p, content, bytes);
    let q = p.with_first_chunk(ChunkRead::Bytes(bytes));
    lemma_batches_show(q, content, batches);
    let all = file_lines(content);
    assert(all.take(all.len() as int) =~= all);
}

} // verus!
