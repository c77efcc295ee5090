//! The root of a partition: the directory that all of its paths are in.

use vstd::prelude::*;
use vstd::utf8::encode_utf8;

use crate::filters::opt_text;
use crate::text::{
    before_last, before_last_of, bytes_less, chars_of, lemma_rfind, rfind, starts, string_of,
};

verus! {

/// Whether the path lies in the directory `dir` or below it.
pub open spec fn is_in(path: Seq<char>, dir: Seq<char>) -> bool {
    starts(path, dir + "/"@)
}

/// How many characters two texts have in common from their start on.
pub open spec fn shared(a: Seq<char>, b: Seq<char>) -> int
    decreases a.len(),
{
    if a.len() > 0 && b.len() > 0 && a[0] == b[0] {
        1 + shared(a.drop_first(), b.drop_first())
    } else {
        0
    }
}

proof fn lemma_shared(a: Seq<char>, b: Seq<char>)
    ensures
        0 <= shared(a, b) <= a.len(),
        shared(a, b) <= b.len(),
        a.take(shared(a, b)) == b.take(shared(a, b)),
        forall|n: int|
            0 <= n <= a.len() && n <= b.len() && #[trigger] a.take(n) == b.take(n) ==> n <= shared(
                a,
                b,
            ),
    decreases a.len(),
{
    if a.len() > 0 && b.len() > 0 && a[0] == b[0] {
        let s = a.drop_first();
        let t = b.drop_first();
        lemma_shared(s, t);
        let k = shared(a, b);
        assert forall|i: int| 0 <= i < k implies a[i] == b[i] by {
            if i > 0 {
                assert(s.take(k - 1)[i - 1] == t.take(k - 1)[i - 1]);
            }
        }
        assert(a.take(k) =~= b.take(k));
        assert forall|n: int|
            0 <= n <= a.len() && n <= b.len() && #[trigger] a.take(n) == b.take(n) implies n <= k by {
            if n > 0 {
                assert(s.take(n - 1) =~= a.take(n).drop_first());
                assert(t.take(n - 1) =~= b.take(n).drop_first());
            }
        }
    } else {
        assert(a.take(0) =~= b.take(0));
        assert forall|n: int|
            0 <= n <= a.len() && n <= b.len() && #[trigger] a.take(n) == b.take(n) implies n <= 0 by {
            if n > 0 {
                assert(a.take(n)[0] == b.take(n)[0]);
            }
        }
    }
}

/// The deepest directory that both paths are in; nothing where there is none.
pub open spec fn common_directory(a: Seq<char>, b: Seq<char>) -> Seq<char> {
    match before_last(a.take(shared(a, b)), '/') {
        Some(dir) => dir,
        None => Seq::empty(),
    }
}

/// The root of a partition, told from its first and its last path; nothing where
/// it has no paths.
pub open spec fn partition_root_of(first: Option<Seq<char>>, last: Option<Seq<char>>) -> Seq<char> {
    match (first, last) {
        (Some(a), Some(b)) => common_directory(a, b),
        _ => Seq::empty(),
    }
}

/// The common directory of two paths is one that both are in, and none that both
/// are in is deeper, as soon as both are in any.
pub proof fn law_common_directory(a: Seq<char>, b: Seq<char>, dir: Seq<char>)
    requires
        is_in(a, dir),
        is_in(b, dir),
    ensures
        is_in(a, common_directory(a, b)),
        is_in(b, common_directory(a, b)),
        dir.len() <= common_directory(a, b).len(),
        is_in(common_directory(a, b) + "/"@, dir),
{
    reveal_strlit("/");
    lemma_shared(a, b);
    let c = a.take(shared(a, b));
    let n = dir.len() as int;
    let stem = dir + "/"@;
    assert(a.take(n + 1) =~= stem);
    assert(b.take(n + 1) =~= stem);
    assert(n + 1 <= shared(a, b));
    assert(c[n] == stem[n]);
    lemma_rfind(c, '/');
    let i = rfind(c, '/')->0;
    assert(i >= n);
    let r = c.take(i);
    assert(r + "/"@ =~= c.take(i + 1));
    assert(a.take(i + 1) =~= c.take(i + 1));
    assert(b.take(i + 1) =~= b.take(shared(a, b)).take(i + 1));
    assert((r + "/"@).take(n + 1) =~= stem);
}

/// The root of a partition, told from its first and its last path.
pub fn discover_partition_root(first: &Option<String>, last: &Option<String>) -> (r: String)
    ensures
        r@ == partition_root_of(opt_text(*first), opt_text(*last)),
        first matches Some(a) ==> last matches Some(b) ==> forall|dir: Seq<char>|
            #[trigger] is_in(a@, dir) && is_in(b@, dir) ==> is_in(a@, r@) && is_in(b@, r@)
                && dir.len() <= r@.len(),
{
    match (first, last) {
        (Some(a), Some(b)) => {
            let x = chars_of(a.as_str());
            let y = chars_of(b.as_str());
            let mut n: usize = 0;
            assert(x@.skip(0) =~= x@);
            assert(y@.skip(0) =~= y@);
            while n < x.len() && n < y.len() && x[n] == y[n]
                invariant
                    n <= x@.len(),
                    n <= y@.len(),
                    shared(x@, y@) == n + shared(x@.skip(n as int), y@.skip(n as int)),
                decreases x@.len() - n,
            {
                assert(x@.skip(n as int).drop_first() =~= x@.skip(n + 1));
                assert(y@.skip(n as int).drop_first() =~= y@.skip(n + 1));
                n += 1;
            }
            let common = string_of(&x, 0, n);
            assert(common@ =~= a@.take(shared(a@, b@)));
            let r = match before_last_of(common.as_str(), '/') {
                Some(dir) => dir,
                None => String::new(),
            };
            proof {
                assert forall|dir: Seq<char>| #[trigger]
                    is_in(a@, dir) && is_in(b@, dir) implies is_in(a@, r@) && is_in(b@, r@)
                    && dir.len() <= r@.len() by {
                    law_common_directory(a@, b@, dir);
                }
            }
            r
        },
        _ => String::new(),
    }
}

proof fn lemma_between(prefix: Seq<u8>, a: Seq<u8>, x: Seq<u8>, b: Seq<u8>)
    requires
        prefix.len() <= a.len(),
        prefix.len() <= b.len(),
        a.take(prefix.len() as int) == prefix,
        b.take(prefix.len() as int) == prefix,
        !bytes_less(x, a),
        !bytes_less(b, x),
    ensures
        prefix.len() <= x.len(),
        x.take(prefix.len() as int) == prefix,
    decreases prefix.len(),
{
    if prefix.len() > 0 {
        let n = prefix.len() as int;
        assert(a[0] == a.take(n)[0]);
        assert(b[0] == b.take(n)[0]);
        assert(x.len() > 0);
        assert(x[0] == prefix[0]);
        let rest = prefix.drop_first();
        assert(a.drop_first().take(n - 1) =~= a.take(n).drop_first());
        assert(b.drop_first().take(n - 1) =~= b.take(n).drop_first());
        lemma_between(rest, a.drop_first(), x.drop_first(), b.drop_first());
        assert forall|i: int| 0 <= i < n implies x[i] == prefix[i] by {
            if i > 0 {
                assert(x.drop_first().take(n - 1)[i - 1] == rest[i - 1]);
            }
        }
        assert(x.take(n) =~= prefix);
    } else {
        assert(x.take(0) =~= prefix);
    }
}

/// Text begins with another where its bytes do.
pub proof fn lemma_byte_prefix(s: Seq<char>, p: Seq<char>)
    requires
        encode_utf8(p).len() <= encode_utf8(s).len(),
        encode_utf8(s).take(encode_utf8(p).len() as int) == encode_utf8(p),
    ensures
        starts(s, p),
    decreases p.len(),
{
    let x = encode_utf8(s);
    let y = encode_utf8(p);
    if p.len() > 0 {
        vstd::utf8::encode_utf8_first_scalar(p);
        let n = vstd::utf8::length_of_first_scalar(y);
        assert(y.len() >= n >= 1);
        assert(s.len() > 0);
        vstd::utf8::encode_utf8_first_scalar(s);
        assert forall|i: int| 0 <= i < y.len() implies x[i] == y[i] by {
            assert(x.take(y.len() as int)[i] == y[i]);
        }
        assert(vstd::utf8::length_of_first_scalar(x) == n);
        assert(s[0] == p[0]) by {
            vstd::utf8::char_u32_cast(s[0], s[0] as u32);
            vstd::utf8::char_u32_cast(p[0], p[0] as u32);
        }
        let s1 = s.drop_first();
        let p1 = p.drop_first();
        let head = vstd::utf8::encode_scalar(p[0] as u32);
        assert(x =~= head + encode_utf8(s1));
        assert(y =~= head + encode_utf8(p1));
        let m = encode_utf8(p1).len() as int;
        assert forall|i: int| 0 <= i < m implies encode_utf8(s1)[i] == encode_utf8(p1)[i] by {
            assert(x[head.len() + i] == y[head.len() + i]);
        }
        assert(encode_utf8(s1).take(m) =~= encode_utf8(p1));
        lemma_byte_prefix(s1, p1);
        assert forall|i: int| 0 <= i < p.len() implies s[i] == p[i] by {
            if i > 0 {
                assert(s1.take(p1.len() as int)[i - 1] == p1[i - 1]);
            }
        }
        assert(s.take(p.len() as int) =~= p);
    } else {
        assert(s.take(0) =~= p);
    }
}

/// The root of a partition is common to all of its paths: whatever lies between
/// the first and the last in the order of their bytes is in it. Two paths without
/// a directory in common, such as `a` and `b`, would break this.
pub proof fn law_root_is_common(first: Seq<char>, last: Seq<char>, path: Seq<char>, dir: Seq<char>)
    requires
        is_in(first, dir),
        is_in(last, dir),
        !bytes_less(encode_utf8(path), encode_utf8(first)),
        !bytes_less(encode_utf8(last), encode_utf8(path)),
    ensures
        is_in(path, partition_root_of(Some(first), Some(last))),
{
    law_common_directory(first, last, dir);
    let stem = common_directory(first, last) + "/"@;
    lemma_encoded_prefix(first, stem);
    lemma_encoded_prefix(last, stem);
    lemma_between(
        encode_utf8(stem),
        encode_utf8(first),
        encode_utf8(path),
        encode_utf8(last),
    );
    lemma_byte_prefix(path, stem);
}

proof fn lemma_encoded_prefix(s: Seq<char>, p: Seq<char>)
    requires
        starts(s, p),
    ensures
        encode_utf8(p).len() <= encode_utf8(s).len(),
        encode_utf8(s).take(encode_utf8(p).len() as int) == encode_utf8(p),
{
    let rest = s.skip(p.len() as int);
    assert(s =~= p + rest);
    crate::text::lemma_encode_join(p, rest);
    assert(encode_utf8(s).take(encode_utf8(p).len() as int) =~= encode_utf8(p));
}

} // verus!
