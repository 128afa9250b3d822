//! The order of paths by code point is the order of their bytes: sorting a
//! listing by the one is sorting it by the other.

use vstd::prelude::*;
use vstd::utf8::{char_is_scalar, encode_scalar, encode_utf8, is_scalar};

use crate::path::{differ_at, lemma_path_order_is_total, path_before};

verus! {

/// `k` is the first position at which `a` and `b` differ, where the end of
/// `a` counts as differing from a byte of `b`.
pub open spec fn bytes_differ_at(a: Seq<u8>, b: Seq<u8>, k: int) -> bool {
    &&& 0 <= k <= a.len()
    &&& k < b.len()
    &&& a.take(k) == b.take(k)
    &&& k < a.len() ==> a[k] != b[k]
}

/// The lexicographic order of byte strings: `a` comes strictly before `b`
/// when `a` is a proper prefix of `b`, or when at the first position where
/// the two differ `a` holds the smaller byte.
pub open spec fn bytes_before(a: Seq<u8>, b: Seq<u8>) -> bool {
    exists|k: int| #[trigger] bytes_differ_at(a, b, k) && (k < a.len() ==> a[k] < b[k])
}

/// The encodings of two scalars differ at `at`, within both, and that of
/// the first holds the smaller byte there.
spec fn smaller_at(x: Seq<u8>, y: Seq<u8>, at: int) -> bool {
    &&& 0 <= at < x.len()
    &&& at < y.len()
    &&& x.take(at) == y.take(at)
    &&& x[at] < y[at]
}

/// The smaller of two scalars has the encoding that comes first, and the
/// two encodings differ before either ends.
proof fn lemma_scalar_order_is_byte_order(s: u32, t: u32)
    requires
        is_scalar(s),
        is_scalar(t),
        s < t,
    ensures
        exists|at: int| smaller_at(encode_scalar(s), encode_scalar(t), at),
{
    let x = encode_scalar(s);
    let y = encode_scalar(t);
    assert(x.take(0) == y.take(0));
    if s <= 0x7F {
        assert((s & 0x7F) as u8 == s) by (bit_vector)
            requires
                s <= 0x7F,
        ;
        if t <= 0x7F {
            assert((t & 0x7F) as u8 == t) by (bit_vector)
                requires
                    t <= 0x7F,
            ;
        } else {
            lemma_leading_byte_is_high(t);
        }
        assert(smaller_at(x, y, 0));
    } else if s <= 0x7FF {
        if t <= 0x7FF {
            assert({
                let x0 = 0xC0u8 | ((s >> 6) & 0x1F) as u8;
                let y0 = 0xC0u8 | ((t >> 6) & 0x1F) as u8;
                let x1 = 0x80u8 | (s & 0x3F) as u8;
                let y1 = 0x80u8 | (t & 0x3F) as u8;
                x0 < y0 || (x0 == y0 && x1 < y1)
            }) by (bit_vector)
                requires
                    0x80 <= s < t <= 0x7FF,
            ;
            if x[0] < y[0] {
                assert(smaller_at(x, y, 0));
            } else {
                assert(x.take(1) == y.take(1));
                assert(smaller_at(x, y, 1));
            }
        } else {
            lemma_leading_byte_is_high(s);
            lemma_leading_byte_is_high(t);
            assert(smaller_at(x, y, 0));
        }
    } else if s <= 0xFFFF {
        if t <= 0xFFFF {
            assert({
                let x0 = 0xE0u8 | ((s >> 12) & 0x0F) as u8;
                let y0 = 0xE0u8 | ((t >> 12) & 0x0F) as u8;
                let x1 = 0x80u8 | ((s >> 6) & 0x3F) as u8;
                let y1 = 0x80u8 | ((t >> 6) & 0x3F) as u8;
                let x2 = 0x80u8 | (s & 0x3F) as u8;
                let y2 = 0x80u8 | (t & 0x3F) as u8;
                x0 < y0 || (x0 == y0 && (x1 < y1 || (x1 == y1 && x2 < y2)))
            }) by (bit_vector)
                requires
                    0x800 <= s < t <= 0xFFFF,
            ;
            if x[0] < y[0] {
                assert(smaller_at(x, y, 0));
            } else if x[1] < y[1] {
                assert(x.take(1) == y.take(1));
                assert(smaller_at(x, y, 1));
            } else {
                assert(x.take(2) == y.take(2));
                assert(smaller_at(x, y, 2));
            }
        } else {
            lemma_leading_byte_is_high(s);
            lemma_leading_byte_is_high(t);
            assert(smaller_at(x, y, 0));
        }
    } else {
        assert({
            let x0 = 0xF0u8 | ((s >> 18) & 0x7) as u8;
            let y0 = 0xF0u8 | ((t >> 18) & 0x7) as u8;
            let x1 = 0x80u8 | ((s >> 12) & 0x3F) as u8;
            let y1 = 0x80u8 | ((t >> 12) & 0x3F) as u8;
            let x2 = 0x80u8 | ((s >> 6) & 0x3F) as u8;
            let y2 = 0x80u8 | ((t >> 6) & 0x3F) as u8;
            let x3 = 0x80u8 | (s & 0x3F) as u8;
            let y3 = 0x80u8 | (t & 0x3F) as u8;
            x0 < y0 || (x0 == y0 && (x1 < y1 || (x1 == y1 && (x2 < y2 || (x2 == y2 && x3 < y3)))))
        }) by (bit_vector)
            requires
                0x10000 <= s < t <= 0x10FFFF,
        ;
        if x[0] < y[0] {
            assert(smaller_at(x, y, 0));
        } else if x[1] < y[1] {
            assert(x.take(1) == y.take(1));
            assert(smaller_at(x, y, 1));
        } else if x[2] < y[2] {
            assert(x.take(2) == y.take(2));
            assert(smaller_at(x, y, 2));
        } else {
            assert(x.take(3) == y.take(3));
            assert(smaller_at(x, y, 3));
        }
    }
}

/// The first byte of a longer encoding is above the first byte of every
/// shorter one.
proof fn lemma_leading_byte_is_high(s: u32)
    requires
        is_scalar(s),
        s > 0x7F,
    ensures
        0x80 <= s <= 0x7FF ==> 0xC0 <= encode_scalar(s)[0] <= 0xDF,
        0x800 <= s <= 0xFFFF ==> 0xE0 <= encode_scalar(s)[0] <= 0xEF,
        0x10000 <= s ==> 0xF0 <= encode_scalar(s)[0],
{
    assert(0xC0 <= (0xC0u8 | ((s >> 6) & 0x1F) as u8) <= 0xDF) by (bit_vector);
    assert(0xE0 <= (0xE0u8 | ((s >> 12) & 0x0F) as u8) <= 0xEF) by (bit_vector);
    assert(0xF0 <= (0xF0u8 | ((s >> 18) & 0x7) as u8)) by (bit_vector);
}

/// The encoding of two texts joined is the two encodings joined.
proof fn lemma_encoding_of_joined(a: Seq<char>, b: Seq<char>)
    ensures
        encode_utf8(a + b) == encode_utf8(a) + encode_utf8(b),
    decreases a.len(),
{
    if a.len() == 0 {
        assert(a + b == b);
    } else {
        lemma_encoding_of_joined(a.drop_first(), b);
        assert((a + b).drop_first() == a.drop_first() + b);
    }
}

/// A path that comes before another by code point comes before it by byte.
proof fn lemma_code_point_order_gives_byte_order(a: Seq<char>, b: Seq<char>)
    requires
        path_before(a, b),
    ensures
        bytes_before(encode_utf8(a), encode_utf8(b)),
{
    let k = choose|k: int| #[trigger]
        differ_at(a, b, k) && (k < a.len() ==> (a[k] as u32) < (b[k] as u32));
    let shared = a.take(k);
    let head = encode_utf8(shared);
    let rest_a = a.skip(k);
    let rest_b = b.skip(k);
    assert(a == shared + rest_a);
    assert(b == shared + rest_b);
    lemma_encoding_of_joined(shared, rest_a);
    lemma_encoding_of_joined(shared, rest_b);
    let x = encode_scalar(rest_b[0] as u32);
    assert(x.len() >= 1);
    if k == a.len() {
        assert(encode_utf8(rest_a).len() == 0);
        let at = head.len() as int;
        assert(encode_utf8(a).take(at) == encode_utf8(b).take(at));
        assert(bytes_differ_at(encode_utf8(a), encode_utf8(b), at));
    } else {
        let s = rest_a[0] as u32;
        let t = rest_b[0] as u32;
        char_is_scalar(rest_a[0]);
        char_is_scalar(rest_b[0]);
        lemma_scalar_order_is_byte_order(s, t);
        let j = choose|j: int| smaller_at(encode_scalar(s), encode_scalar(t), j);
        let at = head.len() + j;
        let ea = encode_utf8(a);
        let eb = encode_utf8(b);
        assert(ea.take(at) == head + encode_scalar(s).take(j));
        assert(eb.take(at) == head + encode_scalar(t).take(j));
        assert(bytes_differ_at(ea, eb, at));
    }
}

/// Of two byte strings, at most one comes before the other.
proof fn lemma_bytes_before_is_asymmetric(a: Seq<u8>, b: Seq<u8>)
    requires
        bytes_before(a, b),
    ensures
        !bytes_before(b, a),
{
    if bytes_before(b, a) {
        let i = choose|k: int| #[trigger] bytes_differ_at(a, b, k) && (k < a.len() ==> a[k] < b[k]);
        let j = choose|k: int| #[trigger] bytes_differ_at(b, a, k) && (k < b.len() ==> b[k] < a[k]);
        if i < j {
            assert(b.take(j)[i] == a.take(j)[i]);
        }
        if j < i {
            assert(a.take(i)[j] == b.take(i)[j]);
        }
    }
}

/// One path comes before another by code point exactly when its bytes come
/// before the bytes of the other.
pub proof fn lemma_path_order_is_byte_order(a: Seq<char>, b: Seq<char>)
    ensures
        path_before(a, b) <==> bytes_before(encode_utf8(a), encode_utf8(b)),
{
    if path_before(a, b) {
        lemma_code_point_order_gives_byte_order(a, b);
    }
    if bytes_before(encode_utf8(a), encode_utf8(b)) {
        lemma_path_order_is_total(a, b);
        if path_before(b, a) {
            lemma_code_point_order_gives_byte_order(b, a);
            lemma_bytes_before_is_asymmetric(encode_utf8(a), encode_utf8(b));
        }
    }
}

} // verus!
