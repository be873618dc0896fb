//! Character-level text helpers: splitting, prefixes and byte order.

use vstd::prelude::*;

verus! {

/// Appends `c` to `s`.
///
/// Trusted: calls `String::push`, which std documents as appending the
/// given char to the end of the string.
#[verifier::external_body]
fn push_char(s: &mut String, c: char)
    ensures
        final(s)@ == old(s)@.push(c),
{
    s.push(c);
}

/// The characters of `s`, in order.
pub fn chars_of(s: &str) -> (r: Vec<char>)
    ensures
        r@ == s@,
{
    let mut r: Vec<char> = Vec::new();
    for c in it: s.chars()
        invariant
            r@ == it.seq().take(it.index() as int),
            it.seq() == s@,
    {
        r.push(c);
    }
    r
}


/// The segments of `segs` written one after another with `sep` between
/// neighbours.
pub open spec fn join(segs: Seq<Seq<char>>, sep: char) -> Seq<char>
    decreases segs.len(),
{
    if segs.len() == 0 {
        seq![]
    } else if segs.len() == 1 {
        segs[0]
    } else {
        join(segs.drop_last(), sep) + seq![sep] + segs.last()
    }
}

/// The views of a sequence of strings.
pub open spec fn views(v: Seq<String>) -> Seq<Seq<char>> {
    v.map_values(|x: String| x@)
}

/// Extending the last segment by `c` extends the joined text by `c`.
proof fn lemma_join_extend_last(prefix: Seq<Seq<char>>, last: Seq<char>, c: char, sep: char)
    ensures
        join(prefix.push(last.push(c)), sep) == join(prefix.push(last), sep).push(c),
{
    let a = prefix.push(last.push(c));
    let b = prefix.push(last);
    assert(a.drop_last() =~= prefix);
    assert(b.drop_last() =~= prefix);
    if prefix.len() == 0 {
        assert(join(a, sep) == last.push(c));
        assert(join(b, sep) == last);
    } else {
        assert(join(a, sep) =~= join(b, sep).push(c));
    }
}

/// Adding an empty segment after `segs` appends `sep` to the joined text.
proof fn lemma_join_new_segment(segs: Seq<Seq<char>>, sep: char)
    requires
        segs.len() >= 1,
    ensures
        join(segs.push(seq![]), sep) == join(segs, sep).push(sep),
{
    let a = segs.push(seq![]);
    assert(a.drop_last() =~= segs);
    assert(join(a, sep) =~= join(segs, sep).push(sep));
}

/// The string holding `cs[lo..hi]`.
pub fn string_from_chars(cs: &Vec<char>, lo: usize, hi: usize) -> (r: String)
    requires
        lo <= hi <= cs@.len(),
    ensures
        r@ == cs@.subrange(lo as int, hi as int),
{
    let mut r = String::new();
    let mut i = lo;
    while i < hi
        invariant
            lo <= i <= hi <= cs@.len(),
            r@ == cs@.subrange(lo as int, i as int),
        decreases hi - i,
    {
        push_char(&mut r, cs[i]);
        assert(cs@.subrange(lo as int, i + 1) =~= cs@.subrange(lo as int, i as int).push(cs@[i as int]));
        i = i + 1;
    }
    r
}

/// `s` cut at every `sep`, as `str::split` with a one-character pattern
/// does: the pieces never hold `sep`, there is at least one, and joining
/// them with `sep` gives back `s`.
pub fn split_on(s: &str, sep: char) -> (r: Vec<String>)
    ensures
        r@.len() >= 1,
        join(views(r@), sep) == s@,
        forall|i: int| 0 <= i < r@.len() ==> !(#[trigger] r@[i])@.contains(sep),
{
    let cs = chars_of(s);
    let mut segs: Vec<String> = Vec::new();
    let mut cur = String::new();
    let n = cs.len();
    for i in 0..n
        invariant
            n == cs@.len(),
            cs@ == s@,
            join(views(segs@).push(cur@), sep) == cs@.take(i as int),
            forall|k: int| 0 <= k < segs@.len() ==> !(#[trigger] segs@[k])@.contains(sep),
            !cur@.contains(sep),
    {
        let c = cs[i];
        let ghost before = views(segs@);
        if c == sep {
            proof {
                lemma_join_new_segment(before.push(cur@), sep);
            }
            segs.push(cur);
            cur = String::new();
            assert(views(segs@) =~= before.push(segs@.last()@));
            assert(views(segs@).push(cur@) =~= before.push(segs@.last()@).push(seq![]));
        } else {
            proof {
                lemma_join_extend_last(before, cur@, c, sep);
            }
            let ghost old_cur = cur@;
            push_char(&mut cur, c);
            assert(views(segs@) =~= before);
            assert forall|x: char| cur@.contains(x) implies x != sep by {
                let j = choose|j: int| 0 <= j < cur@.len() && cur@[j] == x;
                if j < old_cur.len() {
                    assert(old_cur[j] == x);
                }
            }
        }
        assert(cs@.take(i + 1) =~= cs@.take(i as int).push(c));
    }
    let ghost before = views(segs@);
    segs.push(cur);
    assert(views(segs@) =~= before.push(segs@.last()@));
    assert(cs@.take(n as int) =~= cs@);
    segs
}

/// `s` split at the first `sep`: the part before it, which holds no `sep`,
/// and the part after it. `None` when `s` holds no `sep`.
pub fn split_once(s: &str, sep: char) -> (r: Option<(String, String)>)
    ensures
        r is None <==> !s@.contains(sep),
        r matches Some((a, b)) ==> s@ == a@ + seq![sep] + b@ && !a@.contains(sep),
{
    let cs = chars_of(s);
    let n = cs.len();
    let mut i: usize = 0;
    while i < n
        invariant
            n == cs@.len(),
            cs@ == s@,
            i <= n,
            forall|k: int| 0 <= k < i ==> cs@[k] != sep,
        decreases n - i,
    {
        if cs[i] == sep {
            let a = string_from_chars(&cs, 0, i);
            let b = string_from_chars(&cs, i + 1, n);
            assert(cs@ =~= a@ + seq![sep] + b@);
            assert forall|x: char| a@.contains(x) implies x != sep by {
                let j = choose|j: int| 0 <= j < a@.len() && a@[j] == x;
                assert(cs@[j] == x);
            }
            return Some((a, b));
        }
        i = i + 1;
    }
    assert forall|x: char| s@.contains(x) implies x != sep by {
        let j = choose|j: int| 0 <= j < s@.len() && s@[j] == x;
        assert(cs@[j] == x);
    }
    None
}

/// `s` without its leading `prefix`, or `None` when `s` does not begin
/// with `prefix`.
pub fn strip_prefix(s: &str, prefix: &str) -> (r: Option<String>)
    ensures
        r is Some <==> prefix@.is_prefix_of(s@),
        r matches Some(t) ==> t@ == s@.skip(prefix@.len() as int),
{
    let cs = chars_of(s);
    let ps = chars_of(prefix);
    if ps.len() > cs.len() {
        return None;
    }
    let mut i: usize = 0;
    while i < ps.len()
        invariant
            cs@ == s@,
            ps@ == prefix@,
            ps@.len() <= cs@.len(),
            i <= ps@.len(),
            forall|k: int| 0 <= k < i ==> ps@[k] == cs@[k],
        decreases ps@.len() - i,
    {
        if ps[i] != cs[i] {
            return None;
        }
        i = i + 1;
    }
    let t = string_from_chars(&cs, ps.len(), cs.len());
    assert(t@ =~= s@.skip(prefix@.len() as int));
    Some(t)
}

} // verus!
