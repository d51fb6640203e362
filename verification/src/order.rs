//! Putting things in order by a number that each of them has.

use vstd::prelude::*;

verus! {

/// A pair put into pairs in rising order, behind those with a number no larger than its own.
pub open spec fn put_in<T>(s: Seq<(u128, T)>, x: (u128, T)) -> Seq<(u128, T)>
    decreases s.len(),
{
    if s.len() == 0 {
        seq![x]
    } else if s.last().0 <= x.0 {
        s.push(x)
    } else {
        put_in(s.drop_last(), x).push(s.last())
    }
}

/// Pairs put in rising order of their numbers; those with one number keep their order.
pub open spec fn in_order<T>(s: Seq<(u128, T)>) -> Seq<(u128, T)>
    decreases s.len(),
{
    if s.len() == 0 {
        Seq::empty()
    } else {
        put_in(in_order(s.drop_last()), s.last())
    }
}

/// Whether pairs are in rising order.
pub open spec fn rising<T>(s: Seq<(u128, T)>) -> bool {
    forall|i: int, j: int| 0 <= i <= j < s.len() ==> (#[trigger] s[i]).0 <= (#[trigger] s[j]).0
}

/// Putting a pair in keeps the order and adds that pair alone.
proof fn lemma_put_in<T>(s: Seq<(u128, T)>, x: (u128, T))
    requires
        rising(s),
    ensures
        rising(put_in(s, x)),
        put_in(s, x).len() == s.len() + 1,
        put_in(s, x).to_multiset() =~= s.to_multiset().insert(x),
        forall|i: int| 0 <= i < put_in(s, x).len() ==> (#[trigger] put_in(s, x)[i] == x || s.contains(put_in(s, x)[i])),
    decreases s.len(),
{
    broadcast use vstd::seq_lib::group_to_multiset_ensures;

    if s.len() == 0 {
        assert(put_in(s, x) =~= s.push(x));
    } else if s.last().0 <= x.0 {
        assert forall|i: int, j: int| 0 <= i <= j < s.push(x).len() implies (#[trigger] s.push(x)[i]).0 <= (#[trigger] s.push(x)[j]).0 by {
            if i < s.len() {
                assert(s[i].0 <= s[s.len() - 1].0);
            }
        }
        assert forall|i: int| 0 <= i < s.push(x).len() implies (#[trigger] s.push(x)[i] == x || s.contains(s.push(x)[i])) by {
            if i < s.len() {
                assert(s.push(x)[i] == s[i]);
            }
        }
    } else {
        let t = s.drop_last();
        lemma_put_in(t, x);
        let r = put_in(t, x);
        let all = r.push(s.last());
        assert(s =~= t.push(s.last()));
        assert forall|i: int| 0 <= i < r.len() implies (#[trigger] r[i]).0 <= s.last().0 by {
            if r[i] != x {
                let k = choose|k: int| 0 <= k < t.len() && t[k] == r[i];
                assert(s[k] == r[i]);
                assert(s[k].0 <= s[s.len() - 1].0);
            }
        }
        assert forall|i: int, j: int| 0 <= i <= j < all.len() implies (#[trigger] all[i]).0 <= (#[trigger] all[j]).0 by {
            if j < r.len() {
                assert(all[i] == r[i] && all[j] == r[j]);
            } else if i < r.len() {
                assert(all[i] == r[i]);
            }
        }
        assert forall|i: int| 0 <= i < all.len() implies (#[trigger] all[i] == x || s.contains(all[i])) by {
            if i < r.len() {
                assert(all[i] == r[i]);
                if r[i] != x {
                    let k = choose|k: int| 0 <= k < t.len() && t[k] == r[i];
                    assert(s[k] == all[i]);
                }
            } else {
                assert(s[s.len() - 1] == all[i]);
            }
        }
        assert(all.to_multiset() =~= r.to_multiset().insert(s.last()));
        assert(s.to_multiset() =~= t.to_multiset().insert(s.last()));
    }
}

/// Pairs put in order are in rising order, and are the same pairs as before.
pub proof fn law_in_order<T>(s: Seq<(u128, T)>)
    ensures
        rising(in_order(s)),
        in_order(s).len() == s.len(),
        in_order(s).to_multiset() =~= s.to_multiset(),
    decreases s.len(),
{
    broadcast use vstd::seq_lib::group_to_multiset_ensures;

    if s.len() > 0 {
        law_in_order(s.drop_last());
        lemma_put_in(in_order(s.drop_last()), s.last());
        assert(s =~= s.drop_last().push(s.last()));
    } else {
        assert(in_order(s) =~= s);
    }
}

/// A pair whose number is no smaller than any other, put in order last, comes last.
pub proof fn law_newest_comes_last<T>(s: Seq<(u128, T)>, x: (u128, T))
    requires
        forall|i: int| 0 <= i < s.len() ==> (#[trigger] s[i]).0 <= x.0,
    ensures
        in_order(s.push(x)) == in_order(s).push(x),
{
    broadcast use vstd::seq_lib::group_to_multiset_ensures;

    assert(s.push(x).drop_last() =~= s);
    let t = in_order(s);
    law_in_order(s);
    if t.len() > 0 {
        assert(t.to_multiset().count(t.last()) > 0);
        assert(s.to_multiset().count(t.last()) > 0);
        assert(s.contains(t.last()));
    } else {
        assert(t.push(x) =~= seq![x]);
    }
}

/// Puts pairs in rising order of their numbers.
pub fn sort_stable<T>(v: Vec<(u128, T)>) -> (r: Vec<(u128, T)>)
    ensures
        r@ == in_order(v@),
{
    let mut rest = v;
    let mut back: Vec<(u128, T)> = Vec::new();
    let ghost all = v@;
    // Take the pairs off from behind, so that they can be put in from the front.
    while rest.len() > 0
        invariant
            all == rest@ + back@.reverse(),
        decreases rest@.len(),
    {
        let ghost before = rest@;
        let x = rest.pop().unwrap();
        let ghost b = back@;
        back.push(x);
        proof {
            assert(before =~= rest@.push(x));
            assert(back@.reverse() =~= seq![x] + b.reverse());
            assert(rest@ + back@.reverse() =~= before + b.reverse());
        }
    }
    proof {
        assert(all =~= back@.reverse());
    }
    let mut out: Vec<(u128, T)> = Vec::new();
    while back.len() > 0
        invariant
            back@.len() <= all.len(),
            all.subrange(all.len() - back@.len(), all.len() as int) == back@.reverse(),
            out@ == in_order(all.take(all.len() - back@.len())),
        decreases back@.len(),
    {
        let ghost n = all.len() - back@.len();
        let ghost b = back@;
        let x = back.pop().unwrap();
        proof {
            assert(b.reverse()[0] == x);
            assert(all[n] == all.subrange(n, all.len() as int)[0]);
            assert(all.take(n + 1).drop_last() =~= all.take(n));
            assert(all.take(n + 1).last() == x);
            assert(all.subrange(n + 1, all.len() as int) =~= all.subrange(n, all.len() as int).subrange(1, b.len() as int));
            assert(back@.reverse() =~= b.reverse().subrange(1, b.len() as int));
        }
        insert_in(&mut out, x);
    }
    proof {
        assert(all.take(all.len() as int) =~= all);
    }
    out
}

/// Puts a pair into pairs that are in order.
fn insert_in<T>(out: &mut Vec<(u128, T)>, x: (u128, T))
    ensures
        final(out)@ == put_in(old(out)@, x),
{
    let mut at: usize = out.len();
    let ghost s = out@;
    proof {
        assert(s.take(s.len() as int) =~= s);
        assert(put_in(s, x) =~= put_in(s.take(at as int), x) + s.subrange(at as int, s.len() as int));
    }
    while at > 0 && out[at - 1].0 > x.0
        invariant
            at <= s.len(),
            out@ == s,
            put_in(s, x) == put_in(s.take(at as int), x) + s.subrange(at as int, s.len() as int),
        decreases at,
    {
        proof {
            let t = s.take(at as int);
            assert(t.drop_last() =~= s.take(at - 1));
            assert(t.last() == s[at - 1]);
            assert(put_in(s.take(at - 1), x).push(s[at - 1]) + s.subrange(at as int, s.len() as int) =~= put_in(s.take(at - 1), x) + s.subrange(at - 1, s.len() as int));
        }
        at = at - 1;
    }
    out.insert(at, x);
    proof {
        let t = s.take(at as int);
        if at > 0 {
            assert(t.last() == s[at - 1]);
        } else {
            assert(t =~= Seq::empty());
        }
        assert(put_in(t, x) =~= t.push(x));
        assert(out@ =~= t.push(x) + s.subrange(at as int, s.len() as int));
    }
}

/// Pairs with the same numbers and other things beside them.
pub open spec fn relabel<T, U>(s: Seq<(u128, T)>, f: spec_fn(T) -> U) -> Seq<(u128, U)> {
    s.map_values(|p: (u128, T)| (p.0, f(p.1)))
}

/// Putting a pair in does not look at what stands beside the numbers.
proof fn lemma_put_in_relabel<T, U>(s: Seq<(u128, T)>, x: (u128, T), f: spec_fn(T) -> U)
    ensures
        put_in(relabel(s, f), (x.0, f(x.1))) == relabel(put_in(s, x), f),
    decreases s.len(),
{
    if s.len() == 0 {
        assert(put_in(relabel(s, f), (x.0, f(x.1))) =~= relabel(put_in(s, x), f));
    } else if s.last().0 <= x.0 {
        assert(relabel(s, f).last().0 == s.last().0);
        assert(relabel(s.push(x), f) =~= relabel(s, f).push((x.0, f(x.1))));
    } else {
        let t = s.drop_last();
        lemma_put_in_relabel(t, x, f);
        assert(relabel(s, f).drop_last() =~= relabel(t, f));
        assert(relabel(put_in(t, x).push(s.last()), f) =~= relabel(put_in(t, x), f).push((s.last().0, f(s.last().1))));
    }
}

/// Putting pairs in order does not look at what stands beside the numbers.
pub proof fn lemma_order_relabel<T, U>(s: Seq<(u128, T)>, f: spec_fn(T) -> U)
    ensures
        in_order(relabel(s, f)) == relabel(in_order(s), f),
    decreases s.len(),
{
    if s.len() == 0 {
        assert(in_order(relabel(s, f)) =~= relabel(in_order(s), f));
    } else {
        lemma_order_relabel(s.drop_last(), f);
        assert(relabel(s, f).drop_last() =~= relabel(s.drop_last(), f));
        lemma_put_in_relabel(in_order(s.drop_last()), s.last(), f);
    }
}

} // verus!
