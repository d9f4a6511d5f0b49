//! Filtering with a predicate that can fail.
use vstd::prelude::*;

verus! {

/// The outcome of filtering `s` when the predicate's verdicts on its items
/// were `v`: each kept item as `Ok`, each error in its place as `Err`,
/// dropped items left out; order is kept.
pub open spec fn apply_verdicts<T, E>(s: Seq<T>, v: Seq<Result<bool, E>>) -> Seq<Result<T, E>>
    decreases s.len(),
{
    if s.len() == 0 || v.len() == 0 {
        seq![]
    } else {
        let pre = apply_verdicts(s.drop_last(), v.drop_last());
        match v.last() {
            Ok(true) => pre.push(Ok(s.last())),
            Ok(false) => pre,
            Err(e) => pre.push(Err(e)),
        }
    }
}

/// Filters `items` with `predicate`, which is called once on each item in
/// order; an error is kept in the item's place.
pub fn try_filter<T, E, P: Fn(&T) -> Result<bool, E>>(items: Vec<T>, predicate: P) -> (r: Vec<Result<T, E>>)
    requires
        forall|x: &T| predicate.requires((x,)),
    ensures
        exists|v: Seq<Result<bool, E>>|
            v.len() == items@.len() && (forall|i: int|
                0 <= i < v.len() ==> predicate.ensures((&items@[i],), #[trigger] v[i]))
                && r@ == apply_verdicts(items@, v),
{
    let ghost all = items@;
    let ghost mut v: Seq<Result<bool, E>> = seq![];
    let mut rest = items;
    let mut r: Vec<Result<T, E>> = Vec::new();
    let mut k: usize = 0;
    let n = rest.len();
    while rest.len() > 0
        invariant
            forall|x: &T| predicate.requires((x,)),
            rest@ == all.subrange(k as int, all.len() as int),
            k <= all.len(),
            all.len() == n,
            v.len() == k,
            forall|i: int| 0 <= i < v.len() ==> predicate.ensures((&all[i],), #[trigger] v[i]),
            r@ == apply_verdicts(all.subrange(0, k as int), v),
        decreases rest@.len(),
    {
        let item = rest.remove(0);
        assert(item == all[k as int]);
        let verdict = predicate(&item);
        let ghost v0 = v;
        proof {
            v = v.push(verdict);
            assert(all.subrange(0, k + 1).drop_last() =~= all.subrange(0, k as int));
            assert(v.drop_last() =~= v0);
        }
        assert(rest@ =~= all.subrange(k + 1, all.len() as int));
        match verdict {
            Ok(true) => r.push(Ok(item)),
            Ok(false) => {},
            Err(e) => r.push(Err(e)),
        }
        k = k + 1;
    }
    assert(all.subrange(0, all.len() as int) =~= all);
    r
}

} // verus!
