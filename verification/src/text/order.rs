//! The order of text, and sorting by a key.

use vstd::prelude::*;

use crate::text::{chars, pairs, texts};

verus! {

/// True when `a` comes before `b` in the order of their code points.
pub open spec fn before(a: Seq<char>, b: Seq<char>) -> bool
    decreases a.len(),
{
    if b.len() == 0 {
        false
    } else if a.len() == 0 {
        true
    } else if a[0] == b[0] {
        before(a.drop_first(), b.drop_first())
    } else {
        a[0] < b[0]
    }
}

/// The order is total: of two different texts one comes first.
pub proof fn before_total(a: Seq<char>, b: Seq<char>)
    ensures
        a != b ==> before(a, b) || before(b, a),
        !before(a, a),
        before(a, b) ==> !before(b, a),
    decreases a.len(),
{
    if a.len() > 0 && b.len() > 0 {
        before_total(a.drop_first(), b.drop_first());
        before_total(a.drop_first(), a.drop_first());
        if a[0] == b[0] {
            if a.drop_first() == b.drop_first() {
                assert(a =~= seq![a[0]] + a.drop_first());
                assert(b =~= seq![b[0]] + b.drop_first());
            }
        }
    } else if a.len() == 0 && b.len() == 0 {
        assert(a =~= b);
    } else if a.len() > 0 {
        before_total(a.drop_first(), a.drop_first());
    }
}

/// The order is transitive.
pub proof fn before_transitive(a: Seq<char>, b: Seq<char>, c: Seq<char>)
    requires
        before(a, b),
        before(b, c),
    ensures
        before(a, c),
    decreases a.len(),
{
    if a.len() > 0 && b.len() > 0 && c.len() > 0 && a[0] == b[0] && b[0] == c[0] {
        before_transitive(a.drop_first(), b.drop_first(), c.drop_first());
    }
}

/// Whether `a` comes before `b` in the order of their code points.
pub fn comes_before(a: &str, b: &str) -> (r: bool)
    ensures
        r == before(a@, b@),
{
    let v = chars(a);
    let w = chars(b);
    let mut i: usize = 0;
    proof {
        assert(v@.skip(0) =~= v@);
        assert(w@.skip(0) =~= w@);
    }
    while i < v.len() && i < w.len()
        invariant
            i <= v@.len(),
            i <= w@.len(),
            before(v@.skip(i as int), w@.skip(i as int)) == before(a@, b@),
        decreases v.len() - i,
    {
        if v[i] != w[i] {
            return v[i] < w[i];
        }
        proof {
            assert(v@.skip(i as int).drop_first() =~= v@.skip(i + 1));
            assert(w@.skip(i as int).drop_first() =~= w@.skip(i + 1));
        }
        i += 1;
    }
    i < w.len()
}

/// `list` with `item` put after every entry whose key does not come after its own.
pub open spec fn insert_by_key<T>(list: Seq<(Seq<char>, T)>, item: (Seq<char>, T)) -> Seq<
    (Seq<char>, T),
>
    decreases list.len(),
{
    if list.len() > 0 && before(item.0, list.last().0) {
        insert_by_key(list.drop_last(), item).push(list.last())
    } else {
        list.push(item)
    }
}

/// The entries in the order of their keys; equal keys keep their order.
pub open spec fn sorted_by_key<T>(list: Seq<(Seq<char>, T)>) -> Seq<(Seq<char>, T)>
    decreases list.len(),
{
    if list.len() == 0 {
        seq![]
    } else {
        insert_by_key(sorted_by_key(list.drop_last()), list.last())
    }
}

/// No entry's key comes after the key of a later one.
pub open spec fn ordered<T>(list: Seq<(Seq<char>, T)>) -> bool {
    forall|i: int, j: int|
        0 <= i < j < list.len() ==> !before(#[trigger] list[j].0, #[trigger] list[i].0)
}

proof fn lemma_insert<T>(list: Seq<(Seq<char>, T)>, item: (Seq<char>, T))
    requires
        ordered(list),
    ensures
        ordered(insert_by_key(list, item)),
        insert_by_key(list, item).to_multiset() == list.to_multiset().insert(item),
        insert_by_key(list, item).len() == list.len() + 1,
    decreases list.len(),
{
    let out = insert_by_key(list, item);
    broadcast use vstd::seq_lib::group_to_multiset_ensures;

    if list.len() > 0 && before(item.0, list.last().0) {
        let rest = list.drop_last();
        lemma_insert(rest, item);
        let head = insert_by_key(rest, item);
        assert(list =~= rest.push(list.last()));
        assert(rest.to_multiset().insert(list.last()) == list.to_multiset());
        assert(head.push(list.last()).to_multiset() =~= head.to_multiset().insert(list.last()));
        assert(out.to_multiset() =~= list.to_multiset().insert(item));
        assert forall|i: int, j: int| 0 <= i < j < out.len() implies !before(
            #[trigger] out[j].0,
            #[trigger] out[i].0,
        ) by {
            if j == out.len() - 1 {
                let e = head[i];
                assert(head.to_multiset().count(e) > 0);
                if e == item {
                    before_total(item.0, list.last().0);
                } else {
                    assert(rest.to_multiset().count(e) > 0);
                    assert(rest.contains(e));
                    let k = choose|k: int| 0 <= k < rest.len() && rest[k] == e;
                    assert(list[k] == e);
                    assert(!before(list[list.len() - 1].0, list[k].0));
                }
            }
        }
    } else {
        assert forall|i: int, j: int| 0 <= i < j < out.len() implies !before(
            #[trigger] out[j].0,
            #[trigger] out[i].0,
        ) by {
            if j == out.len() - 1 && before(item.0, list[i].0) {
                let last = list.last();
                if i < list.len() - 1 {
                    assert(!before(list[list.len() - 1].0, list[i].0));
                    if last.0 != list[i].0 {
                        before_total(last.0, list[i].0);
                        before_transitive(item.0, list[i].0, last.0);
                    }
                }
            }
        }
    }
}

/// Sorting keeps every entry and puts the keys in order.
pub proof fn sorting_orders_and_keeps<T>(list: Seq<(Seq<char>, T)>)
    ensures
        ordered(sorted_by_key(list)),
        sorted_by_key(list).to_multiset() == list.to_multiset(),
        sorted_by_key(list).len() == list.len(),
    decreases list.len(),
{
    broadcast use vstd::seq_lib::group_to_multiset_ensures;

    if list.len() > 0 {
        sorting_orders_and_keeps(list.drop_last());
        lemma_insert(sorted_by_key(list.drop_last()), list.last());
        assert(list =~= list.drop_last().push(list.last()));
    } else {
        assert(list =~= Seq::empty());
    }
}

/// True when entries of one key are the same entry.
pub open spec fn keyed_once<T>(list: Seq<(Seq<char>, T)>) -> bool {
    forall|i: int, j: int|
        0 <= i < list.len() && 0 <= j < list.len() && (#[trigger] list[i]).0 == (
        #[trigger] list[j]).0 ==> list[i] == list[j]
}

proof fn lemma_same_order<T>(s: Seq<(Seq<char>, T)>, t: Seq<(Seq<char>, T)>)
    requires
        ordered(s),
        ordered(t),
        keyed_once(s),
        s.to_multiset() == t.to_multiset(),
    ensures
        s == t,
    decreases s.len(),
{
    broadcast use vstd::seq_lib::group_to_multiset_ensures;

    assert(s.len() == s.to_multiset().len());
    assert(t.len() == t.to_multiset().len());
    if s.len() == 0 {
        assert(s =~= t);
    } else {
        let a = s.last();
        let b = t.last();
        assert(s.to_multiset().count(a) > 0);
        assert(t.to_multiset().count(b) > 0);
        assert(t.contains(a));
        assert(s.contains(b));
        let m = choose|m: int| 0 <= m < t.len() && t[m] == a;
        let k = choose|k: int| 0 <= k < s.len() && s[k] == b;
        if m < t.len() - 1 {
            assert(!before(t[t.len() - 1].0, t[m].0));
        } else {
            before_total(a.0, a.0);
        }
        if k < s.len() - 1 {
            assert(!before(s[s.len() - 1].0, s[k].0));
        } else {
            before_total(b.0, b.0);
        }
        before_total(a.0, b.0);
        assert(a.0 == b.0);
        assert(s[s.len() - 1].0 == s[k].0);
        assert(a == b);
        let s1 = s.drop_last();
        let t1 = t.drop_last();
        assert(s =~= s1.push(a));
        assert(t =~= t1.push(a));
        assert(s1.to_multiset() =~= s.to_multiset().remove(a));
        assert(t1.to_multiset() =~= t.to_multiset().remove(a));
        assert forall|i: int, j: int|
            0 <= i < s1.len() && 0 <= j < s1.len() && (#[trigger] s1[i]).0 == (
            #[trigger] s1[j]).0 implies s1[i] == s1[j] by {
            assert(s[i] == s1[i]);
            assert(s[j] == s1[j]);
        }
        assert forall|i: int, j: int| 0 <= i < j < s1.len() implies !before(
            #[trigger] s1[j].0,
            #[trigger] s1[i].0,
        ) by {
            assert(!before(s[j].0, s[i].0));
        }
        assert forall|i: int, j: int| 0 <= i < j < t1.len() implies !before(
            #[trigger] t1[j].0,
            #[trigger] t1[i].0,
        ) by {
            assert(!before(t[j].0, t[i].0));
        }
        lemma_same_order(s1, t1);
        assert(s =~= t);
    }
}

/// Sorting forgets the order that the entries came in, where no two entries
/// share a key.
pub proof fn sorting_forgets_the_order<T>(a: Seq<(Seq<char>, T)>, b: Seq<(Seq<char>, T)>)
    requires
        keyed_once(a),
        a.to_multiset() == b.to_multiset(),
    ensures
        sorted_by_key(a) == sorted_by_key(b),
{
    broadcast use vstd::seq_lib::group_to_multiset_ensures;

    sorting_orders_and_keeps(a);
    sorting_orders_and_keeps(b);
    let s = sorted_by_key(a);
    assert forall|i: int, j: int|
        0 <= i < s.len() && 0 <= j < s.len() && (#[trigger] s[i]).0 == (
        #[trigger] s[j]).0 implies s[i] == s[j] by {
        assert(s.to_multiset().count(s[i]) > 0);
        assert(s.to_multiset().count(s[j]) > 0);
        assert(a.contains(s[i]));
        assert(a.contains(s[j]));
        let m = choose|m: int| 0 <= m < a.len() && a[m] == s[i];
        let k = choose|k: int| 0 <= k < a.len() && a[k] == s[j];
        assert(a[m].0 == a[k].0);
    }
    lemma_same_order(s, sorted_by_key(b));
}

/// The entries in the order of their keys; equal keys keep their order.
pub fn sort_by_key(list: &Vec<(String, String)>) -> (r: Vec<(String, String)>)
    ensures
        pairs(r@) == sorted_by_key(pairs(list@)),
{
    let mut out: Vec<(String, String)> = Vec::new();
    let ghost all = pairs(list@);
    let mut i: usize = 0;
    assert(pairs(out@) =~= sorted_by_key(all.take(0)));
    while i < list.len()
        invariant
            i <= list@.len(),
            all == pairs(list@),
            pairs(out@) == sorted_by_key(all.take(i as int)),
        decreases list.len() - i,
    {
        let item = (list[i].0.clone(), list[i].1.clone());
        let ghost pair = (item.0@, item.1@);
        let ghost base = pairs(out@);
        let mut at: usize = out.len();
        assert(base.take(at as int) =~= base);
        assert(insert_by_key(base.take(at as int), pair) + base.skip(at as int) =~= insert_by_key(
            base,
            pair,
        ));
        while at > 0 && comes_before(item.0.as_str(), out[at - 1].0.as_str())
            invariant
                at <= out@.len(),
                base == pairs(out@),
                pair == (item.0@, item.1@),
                insert_by_key(base.take(at as int), pair) + base.skip(at as int) == insert_by_key(
                    base,
                    pair,
                ),
            decreases at,
        {
            proof {
                let b = base.take(at as int);
                assert(b.drop_last() =~= base.take(at - 1));
                assert(b.last() == base[at - 1]);
                assert(insert_by_key(base.take(at - 1), pair).push(base[at - 1]) + base.skip(
                    at as int,
                ) =~= insert_by_key(base.take(at - 1), pair) + base.skip(at - 1));
            }
            at -= 1;
        }
        proof {
            let b = base.take(at as int);
            if at > 0 {
                assert(b.last() == base[at - 1]);
            }
            assert(insert_by_key(b, pair) == b.push(pair));
            assert(all.take(i + 1).drop_last() =~= all.take(i as int));
            assert(all.take(i + 1).last() == pair);
        }
        out.insert(at, item);
        assert(pairs(out@) =~= base.take(at as int).push(pair) + base.skip(at as int));
        i += 1;
    }
    assert(all.take(list@.len() as int) =~= all);
    out
}

/// Keys with the position each stands at.
pub open spec fn numbered(keys: Seq<Seq<char>>) -> Seq<(Seq<char>, int)> {
    Seq::new(keys.len(), |i: int| (keys[i], i))
}

/// The model of keys with positions.
pub open spec fn placed(list: Seq<(String, usize)>) -> Seq<(Seq<char>, int)> {
    Seq::new(list.len(), |i: int| (list[i].0@, list[i].1 as int))
}

/// The positions of some keys in the order of the keys; equal keys keep their
/// order.
pub fn order_by_key(keys: &Vec<String>) -> (r: Vec<(String, usize)>)
    ensures
        placed(r@) == sorted_by_key(numbered(texts(keys@))),
{
    let mut out: Vec<(String, usize)> = Vec::new();
    let ghost all = numbered(texts(keys@));
    let mut i: usize = 0;
    assert(placed(out@) =~= sorted_by_key(all.take(0)));
    while i < keys.len()
        invariant
            i <= keys@.len(),
            all == numbered(texts(keys@)),
            placed(out@) == sorted_by_key(all.take(i as int)),
        decreases keys.len() - i,
    {
        let item = (keys[i].clone(), i);
        let ghost pair = (item.0@, item.1 as int);
        let ghost base = placed(out@);
        let mut at: usize = out.len();
        assert(base.take(at as int) =~= base);
        assert(insert_by_key(base.take(at as int), pair) + base.skip(at as int) =~= insert_by_key(
            base,
            pair,
        ));
        while at > 0 && comes_before(item.0.as_str(), out[at - 1].0.as_str())
            invariant
                at <= out@.len(),
                base == placed(out@),
                pair == (item.0@, item.1 as int),
                insert_by_key(base.take(at as int), pair) + base.skip(at as int) == insert_by_key(
                    base,
                    pair,
                ),
            decreases at,
        {
            proof {
                let b = base.take(at as int);
                assert(b.drop_last() =~= base.take(at - 1));
                assert(b.last() == base[at - 1]);
                assert(insert_by_key(base.take(at - 1), pair).push(base[at - 1]) + base.skip(
                    at as int,
                ) =~= insert_by_key(base.take(at - 1), pair) + base.skip(at - 1));
            }
            at -= 1;
        }
        proof {
            let b = base.take(at as int);
            if at > 0 {
                assert(b.last() == base[at - 1]);
            }
            assert(insert_by_key(b, pair) == b.push(pair));
            assert(all.take(i + 1).drop_last() =~= all.take(i as int));
            assert(all.take(i + 1).last() == pair);
        }
        out.insert(at, item);
        assert(placed(out@) =~= base.take(at as int).push(pair) + base.skip(at as int));
        i += 1;
    }
    assert(all.take(keys@.len() as int) =~= all);
    out
}

} // verus!
