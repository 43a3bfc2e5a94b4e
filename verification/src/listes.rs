//! Lists: keeping the items that a test accepts, and sorting by age.

use vstd::prelude::*;

verus! {

/// Keeps the items that are marked in `garde`, in their order.
pub fn retenir<T>(v: &mut Vec<T>, garde: &Vec<bool>, Ghost(p): Ghost<spec_fn(T) -> bool>)
    requires
        garde@.len() == old(v)@.len(),
        forall|i: int| 0 <= i < garde@.len() ==> #[trigger] garde@[i] == p(old(v)@[i]),
    ensures
        final(v)@ == old(v)@.filter(p),
{
    let ghost avant = v@;
    let mut vus: usize = 0;
    let mut i: usize = 0;
    let n: usize = v.len();
    proof {
        reveal(Seq::filter);
        assert(avant.take(0).filter(p) + avant.skip(0) =~= avant);
    }
    while vus < n
        invariant
            avant == old(v)@,
            n == avant.len() == garde@.len(),
            forall|k: int| 0 <= k < n ==> #[trigger] garde@[k] == p(avant[k]),
            i <= vus <= n,
            i == avant.take(vus as int).filter(p).len(),
            v@ == avant.take(vus as int).filter(p) + avant.skip(vus as int),
        decreases n - vus,
    {
        proof {
            reveal(Seq::filter);
            assert(avant.take(vus + 1).drop_last() =~= avant.take(vus as int));
            assert(avant.take(vus + 1).last() == avant[vus as int]);
        }
        if garde[vus] {
            assert(v@ =~= avant.take(vus + 1).filter(p) + avant.skip(vus + 1));
            i += 1;
        } else {
            v.remove(i);
            assert(v@ =~= avant.take(vus + 1).filter(p) + avant.skip(vus + 1));
        }
        vus += 1;
    }
    assert(avant.take(n as int) =~= avant);
    assert(v@ =~= avant.filter(p));
}

/// What a filtered list holds: the accepted items of the list it came from,
/// and all of them.
pub proof fn lemme_filtre<T>(s: Seq<T>, p: spec_fn(T) -> bool)
    ensures
        forall|x: T| #[trigger] s.filter(p).contains(x) <==> s.contains(x) && p(x),
        s.filter(p).len() <= s.len(),
        forall|i: int| 0 <= i < s.filter(p).len() ==> p(#[trigger] s.filter(p)[i]),
    decreases s.len(),
{
    reveal(Seq::filter);
    if s.len() > 0 {
        let d = s.drop_last();
        lemme_filtre(d, p);
        let f = s.filter(p);
        assert forall|x: T| #[trigger] f.contains(x) <==> s.contains(x) && p(x) by {
            if f.contains(x) {
                let i = choose|i: int| 0 <= i < f.len() && f[i] == x;
                if i < d.filter(p).len() {
                    assert(d.filter(p)[i] == x);
                    assert(d.filter(p).contains(x));
                    let j = choose|j: int| 0 <= j < d.len() && d[j] == x;
                    assert(s[j] == x);
                } else {
                    assert(x == s.last());
                    assert(s[s.len() - 1] == x);
                }
            }
            if s.contains(x) && p(x) {
                let j = choose|j: int| 0 <= j < s.len() && s[j] == x;
                if j < d.len() {
                    assert(d[j] == x);
                    assert(d.contains(x));
                    assert(d.filter(p).contains(x));
                    let i = choose|i: int| 0 <= i < d.filter(p).len() && d.filter(p)[i] == x;
                    assert(f[i] == x);
                } else {
                    assert(f[f.len() - 1] == x);
                }
            }
        }
    }
}

/// Where the items of a filtered list stood in the list it came from: at places
/// that go up, and at all those whose item is accepted.
pub proof fn lemme_filtre_places<T>(s: Seq<T>, p: spec_fn(T) -> bool) -> (places: Seq<int>)
    ensures
        places.len() == s.filter(p).len(),
        forall|k: int|
            0 <= k < places.len() ==> 0 <= #[trigger] places[k] < s.len() && s.filter(p)[k]
                == s[places[k]] && p(s[places[k]]),
        forall|k: int, l: int|
            0 <= k < l < places.len() ==> #[trigger] places[k] < #[trigger] places[l],
        forall|i: int| 0 <= i < s.len() && p(#[trigger] s[i]) ==> places.contains(i),
    decreases s.len(),
{
    reveal(Seq::filter);
    if s.len() == 0 {
        Seq::empty()
    } else {
        let d = s.drop_last();
        let n = d.len() as int;
        let avant = lemme_filtre_places(d, p);
        if p(s.last()) {
            let places = avant.push(n);
            assert(s.filter(p) == d.filter(p).push(s.last()));
            assert forall|i: int| 0 <= i < s.len() && p(#[trigger] s[i]) implies places.contains(
                i,
            ) by {
                if i < n {
                    assert(d[i] == s[i]);
                    assert(avant.contains(i));
                    let k = choose|k: int| 0 <= k < avant.len() && avant[k] == i;
                    assert(places[k] == i);
                } else {
                    assert(places[avant.len() as int] == i);
                }
            }
            assert forall|k: int| 0 <= k < places.len() implies 0 <= #[trigger] places[k] < s.len()
                && s.filter(p)[k] == s[places[k]] && p(s[places[k]]) by {
                if k < avant.len() {
                    assert(places[k] == avant[k]);
                    assert(d[avant[k]] == s[avant[k]]);
                }
            }
            places
        } else {
            assert(s.filter(p) == d.filter(p));
            assert forall|i: int| 0 <= i < s.len() && p(#[trigger] s[i]) implies avant.contains(
                i,
            ) by {
                assert(d[i] == s[i]);
            }
            assert forall|k: int| 0 <= k < avant.len() implies 0 <= #[trigger] avant[k] < s.len()
                && s.filter(p)[k] == s[avant[k]] && p(s[avant[k]]) by {
                assert(d[avant[k]] == s[avant[k]]);
            }
            avant
        }
    }
}

/// `a` is listed before `b`: it is older, or as old and stood first.
pub open spec fn plus_vieux(dates: Seq<u128>, a: int, b: int) -> bool {
    dates[a] < dates[b] || (dates[a] == dates[b] && a < b)
}

/// Places that list every date once, the oldest first.
pub open spec fn par_age_de(dates: Seq<u128>, r: Seq<usize>) -> bool {
    &&& r.len() == dates.len()
    &&& forall|i: int| 0 <= i < r.len() ==> (#[trigger] r[i]) < dates.len()
    &&& forall|i: int, j: int|
        0 <= i < j < r.len() ==> plus_vieux(
            dates,
            (#[trigger] r[i]) as int,
            (#[trigger] r[j]) as int,
        )
}

/// The places of the dates, the oldest first.
pub fn par_age(dates: &Vec<u128>) -> (r: Vec<usize>)
    ensures
        par_age_de(dates@, r@),
{
    let mut r: Vec<usize> = Vec::new();
    let mut n: usize = 0;
    while n < dates.len()
        invariant
            n <= dates@.len(),
            r@.len() == n,
            forall|i: int| 0 <= i < n ==> (#[trigger] r@[i]) < n,
            forall|i: int, j: int|
                0 <= i < j < n ==> plus_vieux(
                    dates@,
                    (#[trigger] r@[i]) as int,
                    (#[trigger] r@[j]) as int,
                ),
        decreases dates@.len() - n,
    {
        let mut p: usize = 0;
        while p < r.len() && dates[r[p]] <= dates[n]
            invariant
                n < dates@.len(),
                r@.len() == n,
                p <= n,
                forall|i: int| 0 <= i < n ==> (#[trigger] r@[i]) < n,
                forall|i: int|
                    0 <= i < p ==> dates@[(#[trigger] r@[i]) as int] <= dates@[n as int],
            decreases r@.len() - p,
        {
            p += 1;
        }
        let ghost avant = r@;
        r.insert(p, n);
        assert(r@ == avant.insert(p as int, n));
        assert forall|i: int| 0 <= i < n + 1 implies (#[trigger] r@[i]) < n + 1 by {
            if i < p {
                assert(r@[i] == avant[i]);
            } else if i > p {
                assert(r@[i] == avant[i - 1]);
            }
        }
        assert forall|i: int, j: int| 0 <= i < j < n + 1 implies plus_vieux(
            dates@,
            (#[trigger] r@[i]) as int,
            (#[trigger] r@[j]) as int,
        ) by {
            if j < p {
                assert(r@[i] == avant[i] && r@[j] == avant[j]);
            } else if j == p {
                assert(r@[i] == avant[i] && r@[j] == n);
            } else if i == p {
                assert(r@[i] == n && r@[j] == avant[j - 1]);
                assert(dates@[avant[p as int] as int] > dates@[n as int]);
                if j - 1 > p {
                    assert(plus_vieux(dates@, avant[p as int] as int, avant[j - 1] as int));
                }
            } else if i < p {
                assert(r@[i] == avant[i] && r@[j] == avant[j - 1]);
            } else {
                assert(r@[i] == avant[i - 1] && r@[j] == avant[j - 1]);
            }
        }
        n += 1;
    }
    r
}

} // verus!
