//! Bytes of UTF-8 that end before the text does.

use vstd::prelude::*;
use vstd::utf8::{
    codepoint_width_2, codepoint_width_3, codepoint_width_4, decode_utf8, encode_utf8,
    is_continuation_byte, is_leading_byte_width_2, is_leading_byte_width_3,
    is_leading_byte_width_4, length_of_first_scalar, pop_first_scalar, valid_first_scalar,
    valid_utf8,
};

use crate::text::{lemma_encode_join, utf8_text};

verus! {

/// Whether some text in UTF-8 begins with the bytes: they are UTF-8 themselves, but
/// that they may end inside a character.
pub open spec fn begins_text(bytes: Seq<u8>) -> bool {
    exists|tail: Seq<u8>| #[trigger] valid_utf8(bytes + tail)
}

/// The byte `b`, `n` times.
pub open spec fn repeated(b: u8, n: nat) -> Seq<u8> {
    Seq::new(n, |i: int| b)
}

/// Whether the bytes are UTF-8 with `n` bytes of the lowest or of the highest kind
/// behind them.
spec fn completed_by(bytes: Seq<u8>, n: nat) -> bool {
    valid_utf8(bytes + repeated(0x80, n)) || valid_utf8(bytes + repeated(0xBF, n))
}

/// The numbers that leading bytes and continuation bytes encode together.
proof fn lemma_codepoints(a: u8, b: u8, c: u8, d: u8)
    requires
        is_continuation_byte(b),
    ensures
        is_leading_byte_width_2(a) ==> codepoint_width_2(a, b) == (a - 0xC0) * 64 + (b - 0x80),
        is_leading_byte_width_3(a) && is_continuation_byte(c) ==> codepoint_width_3(a, b, c) == (a
            - 0xE0) * 4096 + (b - 0x80) * 64 + (c - 0x80),
        is_leading_byte_width_4(a) && is_continuation_byte(c) && is_continuation_byte(d)
            ==> codepoint_width_4(a, b, c, d) == (a - 0xF0) * 262144 + (b - 0x80) * 4096 + (c
            - 0x80) * 64 + (d - 0x80),
{
    assert(0xC0 <= a <= 0xDF ==> (a & 0x1F) == a - 0xC0) by (bit_vector);
    assert(0xE0 <= a <= 0xEF ==> (a & 0x0F) == a - 0xE0) by (bit_vector);
    assert(0xF0 <= a <= 0xF7 ==> (a & 0x07) == a - 0xF0) by (bit_vector);
    assert(0x80 <= b <= 0xBF ==> (b & 0x3F) == b - 0x80) by (bit_vector);
    assert(0x80 <= c <= 0xBF ==> (c & 0x3F) == c - 0x80) by (bit_vector);
    assert(0x80 <= d <= 0xBF ==> (d & 0x3F) == d - 0x80) by (bit_vector);
    let x2 = (a & 0x1F) as u32;
    let x3 = (a & 0x0F) as u32;
    let x4 = (a & 0x07) as u32;
    let y = (b & 0x3F) as u32;
    let z = (c & 0x3F) as u32;
    let u = (d & 0x3F) as u32;
    assert(x2 < 32 && y < 64 ==> ((x2 << 6) | y) == x2 * 64 + y) by (bit_vector);
    assert(x3 < 16 && y < 64 && z < 64 ==> ((x3 << 12) | (y << 6) | z) == x3 * 4096 + y * 64 + z)
        by (bit_vector);
    assert(x4 < 8 && y < 64 && z < 64 && u < 64 ==> ((x4 << 18) | (y << 12) | (z << 6) | u) == x4
        * 262144 + y * 4096 + z * 64 + u) by (bit_vector);
}

/// The last character of a text that begins with the bytes, where it ends behind
/// them, can be completed by bytes that are all of the lowest kind or all of the
/// highest.
proof fn lemma_completed_character(bytes: Seq<u8>, tail: Seq<u8>)
    requires
        bytes.len() > 0,
        valid_first_scalar(bytes + tail),
        length_of_first_scalar(bytes + tail) > bytes.len(),
    ensures
        completed_by(bytes, (length_of_first_scalar(bytes + tail) - bytes.len()) as nat),
{
    let s = bytes + tail;
    let w = length_of_first_scalar(s);
    let n = (w - bytes.len()) as nat;
    let low = bytes + repeated(0x80, n);
    let high = bytes + repeated(0xBF, n);
    let b0 = s[0];
    let b1 = s[1];
    let b2 = s[2];
    let b3 = s[3];
    assert(low[0] == b0 && high[0] == b0);
    assert(pop_first_scalar(low) =~= Seq::<u8>::empty());
    assert(pop_first_scalar(high) =~= Seq::<u8>::empty());
    assert(valid_utf8(Seq::<u8>::empty()));
    assert forall|i: int| 0 <= i < bytes.len() implies low[i] == s[i] && high[i] == s[i] by {}
    assert forall|i: int| bytes.len() <= i < w implies low[i] == 0x80 && high[i] == 0xBF by {}
    lemma_codepoints(b0, b1, b2, b3);
    lemma_codepoints(low[0], low[1], low[2], low[3]);
    lemma_codepoints(high[0], high[1], high[2], high[3]);
    assert(valid_first_scalar(low) || valid_first_scalar(high));
}

proof fn lemma_completed(bytes: Seq<u8>, tail: Seq<u8>)
    requires
        valid_utf8(bytes + tail),
    ensures
        completed_by(bytes, 0) || completed_by(bytes, 1) || completed_by(bytes, 2) || completed_by(
            bytes,
            3,
        ),
    decreases bytes.len(),
{
    let s = bytes + tail;
    if bytes.len() == 0 {
        assert(bytes + repeated(0x80, 0) =~= Seq::<u8>::empty());
    } else {
        let w = length_of_first_scalar(s);
        if w > bytes.len() {
            lemma_completed_character(bytes, tail);
        } else {
            let first = bytes.take(w);
            let rest = bytes.skip(w);
            assert(pop_first_scalar(s) =~= rest + tail);
            lemma_completed(rest, tail);
            assert(valid_first_scalar(first));
            assert(pop_first_scalar(first) =~= Seq::<u8>::empty());
            assert(valid_utf8(Seq::<u8>::empty()));
            assert(valid_utf8(first));
            assert forall|n: nat| #[trigger] completed_by(rest, n) implies completed_by(
                bytes,
                n,
            ) by {
                let low = repeated(0x80, n);
                let high = repeated(0xBF, n);
                assert(bytes + low =~= first + (rest + low));
                assert(bytes + high =~= first + (rest + high));
                if valid_utf8(rest + low) {
                    vstd::utf8::valid_utf8_concat(first, rest + low);
                } else {
                    vstd::utf8::valid_utf8_concat(first, rest + high);
                }
            }
        }
    }
}

fn is_completed_by(bytes: &[u8], b: u8, n: usize) -> (r: bool)
    ensures
        r == valid_utf8(bytes@ + repeated(b, n as nat)),
{
    let mut all: Vec<u8> = Vec::new();
    let mut k: usize = 0;
    while k < bytes.len()
        invariant
            k <= bytes@.len(),
            all@ == bytes@.take(k as int),
        decreases bytes@.len() - k,
    {
        all.push(bytes[k]);
        k += 1;
        assert(all@ =~= bytes@.take(k as int));
    }
    assert(all@ =~= bytes@);
    let mut i: usize = 0;
    assert(bytes@ + repeated(b, 0) =~= bytes@);
    while i < n
        invariant
            i <= n,
            all@ == bytes@ + repeated(b, i as nat),
        decreases n - i,
    {
        all.push(b);
        i += 1;
        assert(all@ =~= bytes@ + repeated(b, i as nat));
    }
    utf8_text(all.as_slice()).is_some()
}

/// Whether some text in UTF-8 begins with the bytes.
pub fn can_begin_text(bytes: &[u8]) -> (r: bool)
    ensures
        r == begins_text(bytes@),
{
    proof {
        if begins_text(bytes@) {
            let tail = choose|tail: Seq<u8>| #[trigger] valid_utf8(bytes@ + tail);
            lemma_completed(bytes@, tail);
        }
    }
    let mut n: usize = 0;
    while n <= 3
        invariant
            n <= 4,
            forall|k: nat| k < n ==> !#[trigger] completed_by(bytes@, k),
        decreases 4 - n,
    {
        if is_completed_by(bytes, 0x80, n) || is_completed_by(bytes, 0xBF, n) {
            return true;
        }
        assert(!completed_by(bytes@, n as nat));
        n += 1;
    }
    false
}

/// Bytes that text begins with are UTF-8 up to any line feed in them.
pub proof fn lemma_begun_text(bytes: Seq<u8>, n: int)
    requires
        begins_text(bytes),
        0 <= n <= bytes.len(),
        n > 0 ==> bytes[n - 1] == 10,
    ensures
        valid_utf8(bytes.take(n)),
{
    let tail = choose|tail: Seq<u8>| #[trigger] valid_utf8(bytes + tail);
    lemma_feed_boundary(bytes + tail, n);
    assert((bytes + tail).take(n) =~= bytes.take(n));
}

/// Bytes that are UTF-8 are so before and behind a line feed.
pub proof fn lemma_feed_boundary(content: Seq<u8>, n: int)
    requires
        valid_utf8(content),
        0 <= n <= content.len(),
        n > 0 ==> content[n - 1] == 10,
    ensures
        valid_utf8(content.take(n)),
        valid_utf8(content.skip(n)),
        decode_utf8(content) == decode_utf8(content.take(n)) + decode_utf8(content.skip(n)),
        n > 0 ==> decode_utf8(content.take(n)).len() > 0 && decode_utf8(content.take(n)).last()
            == '\n',
{
    if n == 0 {
        assert(content.take(0) =~= Seq::<u8>::empty());
        assert(content.skip(0) =~= content);
        assert(decode_utf8(content.take(0)) + decode_utf8(content) =~= decode_utf8(content));
    } else {
        let a = content.subrange(0, n - 1);
        let b = content.subrange(n - 1, content.len() as int);
        let feed = seq![10u8];
        assert(!vstd::utf8::is_continuation_byte(10u8)) by {
            assert(10u8 & 0xC0u8 != 0x80u8) by (bit_vector);
        }
        vstd::utf8::is_char_boundary_iff_not_is_continuation_byte(content, n - 1);
        vstd::utf8::valid_utf8_split(content, n - 1);
        assert(b[0] == 10);
        assert(vstd::utf8::is_leading_byte_width_1(10u8)) by {
            assert(10u8 & 0x80u8 == 0u8) by (bit_vector);
        }
        assert(vstd::utf8::pop_first_scalar(b) =~= content.skip(n));
        assert(valid_utf8(content.skip(n)));
        lemma_feed_alone();
        vstd::utf8::valid_utf8_concat(a, feed);
        assert(content.take(n) =~= a + feed);
        let x = decode_utf8(a);
        let y = decode_utf8(content.skip(n));
        vstd::utf8::decode_utf8_encode_utf8(a);
        vstd::utf8::decode_utf8_encode_utf8(content.skip(n));
        let t = x.push('\n');
        lemma_encode_join(x, seq!['\n']);
        assert(t =~= x + seq!['\n']);
        assert(encode_utf8(t) == content.take(n));
        vstd::utf8::encode_utf8_decode_utf8(t);
        lemma_encode_join(t, y);
        assert(content =~= content.take(n) + content.skip(n));
        vstd::utf8::encode_utf8_decode_utf8(t + y);
    }
}

proof fn lemma_feed_alone()
    ensures
        encode_utf8(seq!['\n']) == seq![10u8],
        valid_utf8(seq![10u8]),
{
    let s = seq!['\n'];
    vstd::utf8::encode_utf8_valid_utf8(s);
    assert(s.drop_first() =~= Seq::<char>::empty());
    assert(encode_utf8(s.drop_first()) =~= Seq::<u8>::empty());
    assert(('\n' as u32) == 10u32);
    assert(vstd::utf8::encode_scalar(10u32) =~= seq![10u8]) by {
        assert((10u32 & 0x7Fu32) as u8 == 10u8) by (bit_vector);
    }
    assert(encode_utf8(s) =~= seq![10u8]);
}

} // verus!
