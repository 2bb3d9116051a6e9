//! Occurrence of a sequence inside another, and how it survives
//! concatenation.
use vstd::prelude::*;
use crate::render::concat;

verus! {

/// `x` occurs in `s` starting at index `off`.
pub open spec fn occurs_at<T>(s: Seq<T>, x: Seq<T>, off: int) -> bool {
    0 <= off && off + x.len() <= s.len() && s.subrange(off, off + x.len()) == x
}

/// `x` occurs somewhere in `s` as a contiguous piece.
pub open spec fn occurs<T>(s: Seq<T>, x: Seq<T>) -> bool {
    exists|off: int| #[trigger] occurs_at(s, x, off)
}

/// Every sequence occurs in itself.
pub proof fn lemma_occurs_self<T>(x: Seq<T>)
    ensures
        occurs(x, x),
{
    assert(x.subrange(0, x.len() as int) =~= x);
    assert(occurs_at(x, x, 0));
}

/// What occurs in `s` occurs in `a + s`.
pub proof fn lemma_occurs_left<T>(a: Seq<T>, s: Seq<T>, x: Seq<T>)
    requires
        occurs(s, x),
    ensures
        occurs(a + s, x),
{
    let off = choose|off: int| #[trigger] occurs_at(s, x, off);
    assert((a + s).subrange(off + a.len(), off + a.len() + x.len()) =~= s.subrange(
        off,
        off + x.len(),
    ));
    assert(occurs_at(a + s, x, off + a.len()));
}

/// What occurs in `s` occurs in `s + b`.
pub proof fn lemma_occurs_right<T>(s: Seq<T>, b: Seq<T>, x: Seq<T>)
    requires
        occurs(s, x),
    ensures
        occurs(s + b, x),
{
    let off = choose|off: int| #[trigger] occurs_at(s, x, off);
    assert((s + b).subrange(off, off + x.len()) =~= s.subrange(off, off + x.len()));
    assert(occurs_at(s + b, x, off));
}

/// What occurs in `y`, which occurs in `s`, occurs in `s`.
pub proof fn lemma_occurs_trans<T>(s: Seq<T>, y: Seq<T>, x: Seq<T>)
    requires
        occurs(s, y),
        occurs(y, x),
    ensures
        occurs(s, x),
{
    let o1 = choose|off: int| #[trigger] occurs_at(s, y, off);
    let o2 = choose|off: int| #[trigger] occurs_at(y, x, off);
    assert(s.subrange(o1 + o2, o1 + o2 + x.len()) =~= y.subrange(o2, o2 + x.len()));
    assert(occurs_at(s, x, o1 + o2));
}

/// What occurs in `x` occurs in `a + x + c`.
pub proof fn lemma_occurs_in_sum<T>(a: Seq<T>, x: Seq<T>, c: Seq<T>, t: Seq<T>)
    requires
        occurs(x, t),
    ensures
        occurs(a + x + c, t),
{
    lemma_occurs_left(a, x, t);
    lemma_occurs_right(a + x, c, t);
}

/// `x` occurs in `a + x + c`.
pub proof fn lemma_occurs_between<T>(a: Seq<T>, x: Seq<T>, c: Seq<T>)
    ensures
        occurs(a + x + c, x),
{
    lemma_occurs_self(x);
    lemma_occurs_in_sum(a, x, c, x);
}

/// Every part occurs in the concatenation of the parts.
pub proof fn lemma_concat_occurs(parts: Seq<Seq<char>>, k: int)
    requires
        0 <= k < parts.len(),
    ensures
        occurs(concat(parts), parts[k]),
    decreases parts.len(),
{
    let front = parts.drop_last();
    if k == parts.len() - 1 {
        lemma_occurs_self(parts[k]);
        lemma_occurs_left(concat(front), parts.last(), parts[k]);
    } else {
        assert(front[k] == parts[k]);
        lemma_concat_occurs(front, k);
        lemma_occurs_right(concat(front), parts.last(), parts[k]);
    }
}

/// The concatenation splits around any of its parts, so the parts come out
/// in order.
pub proof fn lemma_concat_split(parts: Seq<Seq<char>>, k: int)
    requires
        0 <= k < parts.len(),
    ensures
        concat(parts) == concat(parts.take(k)) + parts[k] + concat(parts.skip(k + 1)),
    decreases parts.len(),
{
    let front = parts.drop_last();
    if k == parts.len() - 1 {
        assert(front =~= parts.take(k));
        assert(parts.skip(k + 1) =~= Seq::<Seq<char>>::empty());
        assert(concat(parts.skip(k + 1)) == Seq::<char>::empty());
        assert(concat(parts) =~= concat(parts.take(k)) + parts[k] + concat(parts.skip(k + 1)));
    } else {
        lemma_concat_split(front, k);
        assert(front.take(k) =~= parts.take(k));
        assert(front[k] == parts[k]);
        let rest = parts.skip(k + 1);
        assert(rest.drop_last() =~= front.skip(k + 1));
        assert(rest.last() == parts.last());
        assert(rest.len() > 0);
        assert(concat(rest) == concat(rest.drop_last()) + rest.last());
        assert(concat(parts) =~= concat(parts.take(k)) + parts[k] + concat(rest));
    }
}

/// `x` and then `y` occur in `s`, the first ending before the second starts.
pub open spec fn occurs_in_order<T>(s: Seq<T>, x: Seq<T>, y: Seq<T>) -> bool {
    exists|o1: int, o2: int|
        #![trigger occurs_at(s, x, o1), occurs_at(s, y, o2)]
        occurs_at(s, x, o1) && occurs_at(s, y, o2) && o1 + x.len() <= o2
}

/// What occurs in order in `s` occurs in order in `a + s + c`.
pub proof fn lemma_in_order_in_sum<T>(a: Seq<T>, s: Seq<T>, c: Seq<T>, x: Seq<T>, y: Seq<T>)
    requires
        occurs_in_order(s, x, y),
    ensures
        occurs_in_order(a + s + c, x, y),
{
    let (o1, o2) = choose|o1: int, o2: int|
        #![trigger occurs_at(s, x, o1), occurs_at(s, y, o2)]
        occurs_at(s, x, o1) && occurs_at(s, y, o2) && o1 + x.len() <= o2;
    let t = a + s + c;
    assert(t.subrange(o1 + a.len(), o1 + a.len() + x.len()) =~= s.subrange(o1, o1 + x.len()));
    assert(t.subrange(o2 + a.len(), o2 + a.len() + y.len()) =~= s.subrange(o2, o2 + y.len()));
    assert(occurs_at(t, x, o1 + a.len()));
    assert(occurs_at(t, y, o2 + a.len()));
}

/// Of two parts, the earlier one comes first in the concatenation.
pub proof fn lemma_concat_in_order(parts: Seq<Seq<char>>, k: int, j: int)
    requires
        0 <= k < j < parts.len(),
    ensures
        occurs_in_order(concat(parts), parts[k], parts[j]),
{
    lemma_concat_split(parts, k);
    let a = concat(parts.take(k));
    let rest = parts.skip(k + 1);
    let m = j - k - 1;
    assert(rest[m] == parts[j]);
    lemma_concat_split(rest, m);
    let b = concat(rest.take(m));
    let c = concat(rest.skip(m + 1));
    let x = parts[k];
    let y = parts[j];
    let s = concat(parts);
    assert(s =~= a + x + b + y + c);
    let o1 = a.len() as int;
    let o2 = (a.len() + x.len() + b.len()) as int;
    assert(s.subrange(o1, o1 + x.len()) =~= x);
    assert(s.subrange(o2, o2 + y.len()) =~= y);
    assert(occurs_at(s, x, o1));
    assert(occurs_at(s, y, o2));
}

} // verus!
