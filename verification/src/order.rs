//! Orderings used to rank runs and repositories: integers, pairs of
//! integers, and text compared by its UTF-8 bytes as std does.

use vstd::prelude::*;
use core::cmp::Ordering;
use vstd::utf8::{encode_utf8, is_ascii_chars};
use crate::num::{code, idx, len_int, low_byte, wide};

verus! {

/// `o` with `Less` and `Greater` exchanged, as `Ordering::reverse` does.
pub open spec fn flipped(o: Ordering) -> Ordering {
    match o {
        Ordering::Less => Ordering::Greater,
        Ordering::Equal => Ordering::Equal,
        Ordering::Greater => Ordering::Less,
    }
}

/// `first`, unless it is `Equal`, in which case `second`: the
/// lexicographic combination, as `Ordering::then` computes it.
pub open spec fn then_order(first: Ordering, second: Ordering) -> Ordering {
    match first {
        Ordering::Equal => second,
        _ => first,
    }
}

/// The order of two integers.
pub open spec fn int_order(a: int, b: int) -> Ordering {
    if a < b {
        Ordering::Less
    } else if a == b {
        Ordering::Equal
    } else {
        Ordering::Greater
    }
}

/// The order of pairs of integers: by the first component, then the second,
/// as std orders tuples.
pub open spec fn pair_order(a: (int, int), b: (int, int)) -> Ordering {
    then_order(int_order(a.0, b.0), int_order(a.1, b.1))
}

/// Lexicographic order of byte sequences, as std's `Ord` for byte slices:
/// the first differing byte decides, and a proper prefix comes first.
pub open spec fn bytes_order(a: Seq<u8>, b: Seq<u8>) -> Ordering
    decreases a.len(),
{
    if a.len() == 0 {
        if b.len() == 0 {
            Ordering::Equal
        } else {
            Ordering::Less
        }
    } else if b.len() == 0 {
        Ordering::Greater
    } else if a[0] < b[0] {
        Ordering::Less
    } else if a[0] > b[0] {
        Ordering::Greater
    } else {
        bytes_order(a.drop_first(), b.drop_first())
    }
}

/// The order std's `Ord for str` gives two strings: their UTF-8 bytes
/// compared lexicographically.
pub open spec fn text_order(a: Seq<char>, b: Seq<char>) -> Ordering {
    bytes_order(encode_utf8(a), encode_utf8(b))
}

/// Pair `a` is not after pair `b` in lexicographic order.
pub open spec fn pair_le(a: (int, int), b: (int, int)) -> bool {
    a.0 < b.0 || (a.0 == b.0 && a.1 <= b.1)
}

/// `pair_le` is what `pair_order` calls "not after".
pub proof fn lemma_pair_order_le(a: (int, int), b: (int, int))
    ensures
        not_after(pair_order(a, b)) <==> pair_le(a, b),
        (pair_order(a, b) == Ordering::Equal) <==> a == b,
        pair_order(b, a) == flipped(pair_order(a, b)),
{
}

/// `a` does not come after `b` under `o`.
pub open spec fn not_after(o: Ordering) -> bool {
    o != Ordering::Greater
}

/// Comparing in the other direction gives the flipped result.
pub proof fn lemma_bytes_order_flip(a: Seq<u8>, b: Seq<u8>)
    ensures
        bytes_order(b, a) == flipped(bytes_order(a, b)),
    decreases a.len(),
{
    if a.len() > 0 && b.len() > 0 && a[0] == b[0] {
        lemma_bytes_order_flip(a.drop_first(), b.drop_first());
    }
}

/// Two byte sequences are `Equal` exactly when they are the same.
pub proof fn lemma_bytes_order_equal(a: Seq<u8>, b: Seq<u8>)
    ensures
        (bytes_order(a, b) == Ordering::Equal) <==> a == b,
    decreases a.len(),
{
    if a.len() == 0 && b.len() == 0 {
        assert(a =~= b);
    }
    if a.len() > 0 && b.len() > 0 && a[0] == b[0] {
        lemma_bytes_order_equal(a.drop_first(), b.drop_first());
        if a.drop_first() == b.drop_first() {
            assert(a =~= seq![a[0]] + a.drop_first());
            assert(b =~= seq![b[0]] + b.drop_first());
        }
    }
}

/// The byte order is transitive, for `Less` and for "not after".
pub proof fn lemma_bytes_order_transitive(a: Seq<u8>, b: Seq<u8>, c: Seq<u8>)
    ensures
        bytes_order(a, b) == Ordering::Less && bytes_order(b, c) == Ordering::Less
            ==> bytes_order(a, c) == Ordering::Less,
        not_after(bytes_order(a, b)) && not_after(bytes_order(b, c)) ==> not_after(
            bytes_order(a, c),
        ),
    decreases a.len(),
{
    if a.len() > 0 && b.len() > 0 && c.len() > 0 {
        lemma_bytes_order_transitive(a.drop_first(), b.drop_first(), c.drop_first());
    }
}

/// Comparing text in the other direction gives the flipped result.
pub proof fn lemma_text_order_flip(a: Seq<char>, b: Seq<char>)
    ensures
        text_order(b, a) == flipped(text_order(a, b)),
{
    lemma_bytes_order_flip(encode_utf8(a), encode_utf8(b));
}

/// Two texts are `Equal` exactly when they are the same.
pub proof fn lemma_text_order_equal(a: Seq<char>, b: Seq<char>)
    ensures
        (text_order(a, b) == Ordering::Equal) <==> a == b,
{
    lemma_bytes_order_equal(encode_utf8(a), encode_utf8(b));
    vstd::utf8::encode_utf8_decode_utf8(a);
    vstd::utf8::encode_utf8_decode_utf8(b);
}

/// The text order is transitive, for `Less` and for "not after".
pub proof fn lemma_text_order_transitive(a: Seq<char>, b: Seq<char>, c: Seq<char>)
    ensures
        text_order(a, b) == Ordering::Less && text_order(b, c) == Ordering::Less
            ==> text_order(a, c) == Ordering::Less,
        not_after(text_order(a, b)) && not_after(text_order(b, c)) ==> not_after(
            text_order(a, c),
        ),
{
    lemma_bytes_order_transitive(encode_utf8(a), encode_utf8(b), encode_utf8(c));
}

/// A proper prefix of a byte sequence comes before it.
pub proof fn lemma_bytes_order_prefix(a: Seq<u8>, b: Seq<u8>)
    requires
        a.len() < b.len(),
        a == b.take(len_int(a.len())),
    ensures
        bytes_order(a, b) == Ordering::Less,
    decreases a.len(),
{
    if a.len() > 0 {
        assert(a[0] == b[0]);
        assert(a.drop_first() =~= b.drop_first().take(a.len() - 1));
        lemma_bytes_order_prefix(a.drop_first(), b.drop_first());
    }
}

/// Of two byte sequences that agree before position `i`, the one with the
/// smaller byte at `i` comes first.
pub proof fn lemma_bytes_order_first_difference(a: Seq<u8>, b: Seq<u8>, i: int)
    requires
        0 <= i < a.len(),
        i < b.len(),
        a.take(i) == b.take(i),
        a[i] < b[i],
    ensures
        bytes_order(a, b) == Ordering::Less,
    decreases i,
{
    if i > 0 {
        assert(a.take(i)[0] == a[0]);
        assert(b.take(i)[0] == b[0]);
        assert(a[0] == b[0]);
        assert(a.drop_first().take(i - 1) =~= a.take(i).drop_first());
        assert(b.drop_first().take(i - 1) =~= b.take(i).drop_first());
        lemma_bytes_order_first_difference(a.drop_first(), b.drop_first(), i - 1);
    }
}

/// The UTF-8 encoding of two texts written one after the other is the
/// encoding of the first followed by that of the second.
pub proof fn lemma_encode_utf8_concat(a: Seq<char>, c: Seq<char>)
    ensures
        encode_utf8(a + c) == encode_utf8(a) + encode_utf8(c),
    decreases a.len(),
{
    if a.len() == 0 {
        assert(a + c =~= c);
    } else {
        lemma_encode_utf8_concat(a.drop_first(), c);
        assert((a + c).drop_first() =~= a.drop_first() + c);
        assert((a + c)[0] == a[0]);
        assert(encode_utf8(a + c) =~= encode_utf8(a) + encode_utf8(c));
    }
}

/// A text comes before every longer text that begins with it.
pub proof fn lemma_text_order_prefix(a: Seq<char>, b: Seq<char>)
    requires
        a.len() < b.len(),
        a == b.take(len_int(a.len())),
    ensures
        text_order(a, b) == Ordering::Less,
{
    let rest = b.skip(len_int(a.len()));
    assert(b =~= a + rest);
    lemma_encode_utf8_concat(a, rest);
    assert(encode_utf8(rest).len() > 0) by {
        assert(rest.len() > 0);
        reveal_with_fuel(encode_utf8, 2);
    }
    let ea = encode_utf8(a);
    let eb = encode_utf8(b);
    assert(ea =~= eb.take(len_int(ea.len())));
    lemma_bytes_order_prefix(ea, eb);
}

/// Of two ASCII texts that agree before position `i`, the one with the
/// smaller character at `i` comes first.
pub proof fn lemma_text_order_ascii_first_difference(a: Seq<char>, b: Seq<char>, i: int)
    requires
        is_ascii_chars(a),
        is_ascii_chars(b),
        0 <= i < a.len(),
        i < b.len(),
        a.take(i) == b.take(i),
        a[i] < b[i],
    ensures
        text_order(a, b) == Ordering::Less,
{
    vstd::utf8::is_ascii_chars_encode_utf8(a);
    vstd::utf8::is_ascii_chars_encode_utf8(b);
    vstd::utf8::is_ascii_chars_nat_bound(a);
    vstd::utf8::is_ascii_chars_nat_bound(b);
    let ea = encode_utf8(a);
    let eb = encode_utf8(b);
    assert forall|k: int| 0 <= k < i implies ea[k] == eb[k] by {
        assert(a.take(i)[k] == a[k]);
        assert(b.take(i)[k] == b[k]);
        assert(a[k] == b[k]);
    }
    assert(ea.len() == a.len() && eb.len() == b.len());
    assert(ea.take(i) =~= eb.take(i));
    assert(ea[i] == low_byte(a[i]));
    assert(eb[i] == low_byte(b[i]));
    assert(code(a[i]) < 128 && code(b[i]) < 128);
    assert(ea[i] < eb[i]);
    lemma_bytes_order_first_difference(ea, eb, i);
}

/// Pairs of texts compared by the first text, then the second: comparing
/// the other way flips the result.
pub proof fn lemma_text_pair_flip(a1: Seq<char>, a2: Seq<char>, b1: Seq<char>, b2: Seq<char>)
    ensures
        then_order(text_order(b1, a1), text_order(b2, a2)) == flipped(
            then_order(text_order(a1, b1), text_order(a2, b2)),
        ),
{
    lemma_text_order_flip(a1, b1);
    lemma_text_order_flip(a2, b2);
}

/// Pairs of texts compared by the first text, then the second: "not after"
/// is transitive.
pub proof fn lemma_text_pair_transitive(
    a1: Seq<char>,
    a2: Seq<char>,
    b1: Seq<char>,
    b2: Seq<char>,
    c1: Seq<char>,
    c2: Seq<char>,
)
    ensures
        not_after(then_order(text_order(a1, b1), text_order(a2, b2))) && not_after(
            then_order(text_order(b1, c1), text_order(b2, c2)),
        ) ==> not_after(then_order(text_order(a1, c1), text_order(a2, c2))),
{
    lemma_text_order_equal(a1, b1);
    lemma_text_order_equal(b1, c1);
    lemma_text_order_equal(a1, c1);
    lemma_text_order_transitive(a1, b1, c1);
    lemma_text_order_transitive(a2, b2, c2);
}

/// Compares two strings as std's `Ord for str` does.
pub fn compare_str(a: &str, b: &str) -> (r: Ordering)
    ensures
        r == text_order(a@, b@),
{
    let x = a.as_bytes();
    let y = b.as_bytes();
    let mut i: usize = 0;
    assert(x@.skip(0) =~= x@);
    assert(y@.skip(0) =~= y@);
    while i < x.len() && i < y.len()
        invariant
            x@ == encode_utf8(a@),
            y@ == encode_utf8(b@),
            i <= x@.len(),
            i <= y@.len(),
            bytes_order(x@, y@) == bytes_order(x@.skip(idx(i)), y@.skip(idx(i))),
        decreases x@.len() - i,
    {
        if x[i] < y[i] {
            return Ordering::Less;
        }
        if x[i] > y[i] {
            return Ordering::Greater;
        }
        assert(x@.skip(idx(i)).drop_first() =~= x@.skip(i + 1));
        assert(y@.skip(idx(i)).drop_first() =~= y@.skip(i + 1));
        i = i + 1;
    }
    if x.len() == y.len() {
        Ordering::Equal
    } else if i == x.len() {
        Ordering::Less
    } else {
        Ordering::Greater
    }
}

/// Compares two pairs of integers lexicographically.
pub fn compare_pair(a: (i128, i128), b: (i128, i128)) -> (r: Ordering)
    ensures
        r == pair_order((wide(a.0), wide(a.1)), (wide(b.0), wide(b.1))),
{
    if a.0 < b.0 {
        Ordering::Less
    } else if a.0 > b.0 {
        Ordering::Greater
    } else if a.1 < b.1 {
        Ordering::Less
    } else if a.1 > b.1 {
        Ordering::Greater
    } else {
        Ordering::Equal
    }
}

} // verus!
