//! Stable ordering of lists by a key, the largest key first: what the standard
//! library's stable sorts give when asked for descending order.

use vstd::prelude::*;

verus! {

/// The items whose key is `c`.
pub open spec fn key_is<A>(key: spec_fn(A) -> int, c: int) -> spec_fn(A) -> bool {
    |y: A| key(y) == c
}

/// Whether `out` holds the items of `input` ordered by `key` from the largest to
/// the smallest, items of equal key in the order they have in `input`. At most
/// one list is so related to a given input (see [`law_stable_order_is_unique`]).
pub open spec fn stably_sorted_desc<A>(out: Seq<A>, input: Seq<A>, key: spec_fn(A) -> int) -> bool {
    &&& forall|i: int, j: int| 0 <= i < j < out.len() ==> key(out[i]) >= key(out[j])
    &&& forall|c: int| #[trigger] out.filter(key_is(key, c)) == input.filter(key_is(key, c))
}

/// A list in which no item passes `pred` filters to nothing.
proof fn lemma_filter_none<A>(s: Seq<A>, pred: spec_fn(A) -> bool)
    requires
        forall|i: int| 0 <= i < s.len() ==> !pred(s[i]),
    ensures
        s.filter(pred) == Seq::<A>::empty(),
{
    broadcast use vstd::seq_lib::group_filter_ensures;
    if s.filter(pred).len() > 0 {
        let e = s.filter(pred)[0];
        assert(pred(e));
        assert(s.filter(pred).contains(e));
        s.lemma_filter_contains_rev(pred, e);
        let i = choose|i: int| 0 <= i < s.len() && s[i] == e;
        assert(!pred(s[i]));
    }
    assert(s.filter(pred) =~= Seq::<A>::empty());
}

/// Inserting `x` at the first place whose key is below that of `x` keeps a
/// stably sorted list stably sorted, as if `x` had come last in the input.
pub proof fn lemma_insert_keeps_stable<A>(out: Seq<A>, input: Seq<A>, key: spec_fn(A) -> int, p: int, x: A)
    requires
        stably_sorted_desc(out, input, key),
        0 <= p <= out.len(),
        forall|i: int| 0 <= i < p ==> key(out[i]) >= key(x),
        p < out.len() ==> key(out[p]) < key(x),
    ensures
        stably_sorted_desc(out.insert(p, x), input.push(x), key),
{
    let r = out.insert(p, x);
    assert forall|i: int, j: int| 0 <= i < j < r.len() implies key(r[i]) >= key(r[j]) by {
        if j < p {
            assert(key(out[i]) >= key(out[j]));
        } else if j == p {
        } else if i < p {
            assert(key(out[p]) >= key(out[j - 1]) || j - 1 == p);
        } else if i == p {
            assert(key(out[p]) >= key(out[j - 1]) || j - 1 == p);
        } else {
            assert(key(out[i - 1]) >= key(out[j - 1]));
        }
    }
    let a = out.subrange(0, p);
    let b = out.subrange(p, out.len() as int);
    assert(out =~= a + b);
    assert(r =~= a.push(x) + b);
    assert forall|c: int| #[trigger] r.filter(key_is(key, c)) == input.push(x).filter(key_is(key, c)) by {
        let pred = key_is(key, c);
        Seq::filter_distributes_over_add(a, b, pred);
        Seq::filter_distributes_over_add(a.push(x), b, pred);
        a.lemma_filter_push(x, pred);
        input.lemma_filter_push(x, pred);
        assert(out.filter(pred) == input.filter(pred));
        if key(x) == c {
            assert forall|i: int| 0 <= i < b.len() implies !pred(b[i]) by {
                if i > 0 {
                    assert(key(out[p]) >= key(out[p + i]));
                }
            }
            lemma_filter_none(b, pred);
            assert(a.filter(pred) + Seq::<A>::empty() =~= a.filter(pred));
            assert(a.filter(pred).push(x) + Seq::<A>::empty() =~= a.filter(pred).push(x));
        }
    }
}

/// Filtering a non-empty list: its first item, when it passes, then the rest.
proof fn lemma_filter_first<A>(s: Seq<A>, pred: spec_fn(A) -> bool)
    requires
        s.len() > 0,
    ensures
        s.filter(pred) == if pred(s[0]) { seq![s[0]] + s.drop_first().filter(pred) } else { s.drop_first().filter(pred) },
{
    broadcast use vstd::seq_lib::group_filter_ensures;
    assert(s =~= seq![s[0]] + s.drop_first());
    Seq::filter_distributes_over_add(seq![s[0]], s.drop_first(), pred);
    assert(seq![s[0]] =~= Seq::<A>::empty().push(s[0]));
    Seq::<A>::empty().lemma_filter_push(s[0], pred);
    assert(Seq::<A>::empty().filter(pred) =~= Seq::<A>::empty());
    if pred(s[0]) {
        assert(Seq::<A>::empty().push(s[0]) =~= seq![s[0]]);
    } else {
        assert(Seq::<A>::empty() + s.drop_first().filter(pred) =~= s.drop_first().filter(pred));
    }
}

/// Two lists ordered by a key, the largest first, that hold the same items of
/// each key in the same order are equal.
proof fn lemma_same_groups_same_list<A>(o1: Seq<A>, o2: Seq<A>, key: spec_fn(A) -> int)
    requires
        forall|i: int, j: int| 0 <= i < j < o1.len() ==> key(o1[i]) >= key(o1[j]),
        forall|i: int, j: int| 0 <= i < j < o2.len() ==> key(o2[i]) >= key(o2[j]),
        forall|c: int| #[trigger] o1.filter(key_is(key, c)) == o2.filter(key_is(key, c)),
    ensures
        o1 == o2,
    decreases o1.len(),
{
    broadcast use vstd::seq_lib::group_filter_ensures;
    if o1.len() == 0 && o2.len() == 0 {
        assert(o1 =~= o2);
    } else if o1.len() == 0 || o2.len() == 0 {
        let (full, empty) = if o1.len() == 0 { (o2, o1) } else { (o1, o2) };
        let c = key(full[0]);
        assert(full.filter(key_is(key, c)).contains(full[0]));
        assert(empty.filter(key_is(key, c)).len() <= empty.len());
        assert(o1.filter(key_is(key, c)) == o2.filter(key_is(key, c)));
    } else {
        let a = o1[0];
        let b = o2[0];
        let ca = key(a);
        let cb = key(b);
        assert(o1.filter(key_is(key, ca)).contains(a));
        assert(o1.filter(key_is(key, ca)) == o2.filter(key_is(key, ca)));
        o2.lemma_filter_contains_rev(key_is(key, ca), a);
        let ja = choose|j: int| 0 <= j < o2.len() && o2[j] == a;
        assert(key(o2[0]) >= key(o2[ja]) || ja == 0);
        assert(o2.filter(key_is(key, cb)).contains(b));
        assert(o1.filter(key_is(key, cb)) == o2.filter(key_is(key, cb)));
        o1.lemma_filter_contains_rev(key_is(key, cb), b);
        let jb = choose|j: int| 0 <= j < o1.len() && o1[j] == b;
        assert(key(o1[0]) >= key(o1[jb]) || jb == 0);
        assert(ca == cb);
        lemma_filter_first(o1, key_is(key, ca));
        lemma_filter_first(o2, key_is(key, ca));
        assert(o1.filter(key_is(key, ca))[0] == a);
        assert(o2.filter(key_is(key, ca))[0] == b);
        assert(a == b);
        let r1 = o1.drop_first();
        let r2 = o2.drop_first();
        assert forall|c: int| #[trigger] r1.filter(key_is(key, c)) == r2.filter(key_is(key, c)) by {
            lemma_filter_first(o1, key_is(key, c));
            lemma_filter_first(o2, key_is(key, c));
            assert(o1.filter(key_is(key, c)) == o2.filter(key_is(key, c)));
            if c == ca {
                assert(r1.filter(key_is(key, c)) =~= o1.filter(key_is(key, c)).drop_first());
                assert(r2.filter(key_is(key, c)) =~= o2.filter(key_is(key, c)).drop_first());
            }
        }
        assert forall|i: int, j: int| 0 <= i < j < r1.len() implies key(r1[i]) >= key(r1[j]) by {
            assert(key(o1[i + 1]) >= key(o1[j + 1]));
        }
        assert forall|i: int, j: int| 0 <= i < j < r2.len() implies key(r2[i]) >= key(r2[j]) by {
            assert(key(o2[i + 1]) >= key(o2[j + 1]));
        }
        lemma_same_groups_same_list(r1, r2, key);
        assert(o1 =~= seq![a] + r1);
        assert(o2 =~= seq![b] + r2);
    }
}

/// A stable descending order is unique: two lists stably sorted by the same key
/// from the same input are equal.
pub proof fn law_stable_order_is_unique<A>(o1: Seq<A>, o2: Seq<A>, input: Seq<A>, key: spec_fn(A) -> int)
    requires
        stably_sorted_desc(o1, input, key),
        stably_sorted_desc(o2, input, key),
    ensures
        o1 == o2,
{
    assert forall|c: int| #[trigger] o1.filter(key_is(key, c)) == o2.filter(key_is(key, c)) by {
        assert(o1.filter(key_is(key, c)) == input.filter(key_is(key, c)));
        assert(o2.filter(key_is(key, c)) == input.filter(key_is(key, c)));
    }
    lemma_same_groups_same_list(o1, o2, key);
}

/// The empty list is stably sorted from the empty input.
pub proof fn lemma_empty_is_stable<A>(key: spec_fn(A) -> int)
    ensures
        stably_sorted_desc(Seq::<A>::empty(), Seq::<A>::empty(), key),
{
    assert forall|c: int| #[trigger] Seq::<A>::empty().filter(key_is(key, c)) == Seq::<A>::empty().filter(key_is(key, c)) by {}
}

} // verus!
