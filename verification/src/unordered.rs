//! Multiset reconciliation for unordered collection fields.
//!
//! Diffing two collections decomposes their difference into the items to
//! add and the items to remove, counting multiplicities rather than
//! positions: an element present on both sides only contributes the
//! surplus instances. Patching consumes each removed entry against at
//! most one matching element and then appends the added items.

use vstd::prelude::*;
use vstd::multiset::Multiset;
use vstd::seq_lib::group_to_multiset_ensures;

verus! {

/// Index of some element of `v` equal to `x`, if any.
fn find_match(v: &Vec<i64>, x: i64) -> (r: Option<usize>)
    ensures
        match r {
            Option::Some(j) => j < v@.len() && v@[j as int] == x,
            Option::None => !v@.contains(x),
        },
{
    let n = v.len();
    for j in 0..n
        invariant
            n == v@.len(),
            forall|k: int| 0 <= k < j ==> v@[k] != x,
    {
        if v[j] == x {
            return Some(j);
        }
    }
    None
}

/// An element-for-element copy of `v`.
fn copy_items(v: &Vec<i64>) -> (r: Vec<i64>)
    ensures
        r@ == v@,
{
    let n = v.len();
    let mut r: Vec<i64> = Vec::new();
    for i in 0..n
        invariant
            n == v@.len(),
            r@ == v@.subrange(0, i as int),
    {
        r.push(v[i]);
        proof {
            assert(r@ =~= v@.subrange(0, i + 1));
        }
    }
    proof {
        assert(v@.subrange(0, n as int) =~= v@);
    }
    r
}

/// Diff two unordered collections. Returns `(added, removed)`: the items
/// of `new_items` left after cancelling one matching old element against
/// each, and the items of `old_items` that found no match. As multisets
/// these are exactly the two clamped differences, so matched pairs never
/// appear on either side.
pub fn diff_unordered(old_items: &Vec<i64>, new_items: &Vec<i64>) -> (r: (Vec<i64>, Vec<i64>))
    ensures
        r.0@.to_multiset() == new_items@.to_multiset().sub(old_items@.to_multiset()),
        r.1@.to_multiset() == old_items@.to_multiset().sub(new_items@.to_multiset()),
{
    broadcast use group_to_multiset_ensures;

    let mut working = copy_items(new_items);
    let mut removed: Vec<i64> = Vec::new();
    let n = old_items.len();
    for idx in 0..n
        invariant
            n == old_items@.len(),
            working@.to_multiset().add(old_items@.subrange(0, idx as int).to_multiset())
                == new_items@.to_multiset().add(removed@.to_multiset()),
            forall|x: i64|
                removed@.to_multiset().count(x) > 0 ==> working@.to_multiset().count(x) == 0,
    {
        broadcast use group_to_multiset_ensures;

        let e = old_items[idx];
        let ghost prefix = old_items@.subrange(0, idx as int);
        proof {
            assert(old_items@.subrange(0, idx + 1) =~= prefix.push(e));
        }
        match find_match(&working, e) {
            Some(j) => {
                let ghost w0 = working@;
                working.remove(j);
                proof {
                    assert(w0.to_multiset().count(e) > 0);
                    assert(working@.to_multiset() == w0.to_multiset().remove(e));
                    assert(working@.to_multiset().add(prefix.push(e).to_multiset())
                        =~= w0.to_multiset().add(prefix.to_multiset()));
                }
            },
            None => {
                let ghost r0 = removed@;
                removed.push(e);
                proof {
                    assert(working@.to_multiset().count(e) == 0);
                    let wm = working@.to_multiset();
                    let pm = prefix.to_multiset();
                    let nm = new_items@.to_multiset();
                    let r0m = r0.to_multiset();
                    assert(prefix.push(e).to_multiset() == pm.insert(e));
                    assert(removed@.to_multiset() == r0m.insert(e));
                    assert forall|x: i64|
                        wm.add(pm.insert(e)).count(x) == nm.add(r0m.insert(e)).count(x) by {
                        assert(wm.add(pm).count(x) == nm.add(r0m).count(x));
                        assert(pm.insert(e).count(x) == pm.count(x) + if x == e {
                            1nat
                        } else {
                            0nat
                        });
                        assert(r0m.insert(e).count(x) == r0m.count(x) + if x == e {
                            1nat
                        } else {
                            0nat
                        });
                    }
                    assert(wm.add(pm.insert(e)) =~= nm.add(r0m.insert(e)));
                }
            },
        }
    }
    proof {
        assert(old_items@.subrange(0, n as int) =~= old_items@);
        let w = working@.to_multiset();
        let rm = removed@.to_multiset();
        let om = old_items@.to_multiset();
        let nm = new_items@.to_multiset();
        assert forall|x: i64| w.count(x) == nm.sub(om).count(x) && rm.count(x) == om.sub(nm).count(
            x,
        ) by {
            assert(w.add(om).count(x) == nm.add(rm).count(x));
        }
        assert(w =~= nm.sub(om));
        assert(rm =~= om.sub(nm));
    }
    (working, removed)
}

/// Patch an unordered collection: each entry of `removed` consumes at
/// most one matching element of `items`, then every entry of `added` is
/// appended. The result's multiset is the clamped difference plus the
/// additions.
pub fn apply_unordered(items: Vec<i64>, added: &Vec<i64>, removed: &Vec<i64>) -> (r: Vec<i64>)
    ensures
        r@.to_multiset() == items@.to_multiset().sub(removed@.to_multiset()).add(
            added@.to_multiset(),
        ),
{
    broadcast use group_to_multiset_ensures;

    let mut pending = copy_items(removed);
    let mut kept: Vec<i64> = Vec::new();
    let n = items.len();
    for idx in 0..n
        invariant
            n == items@.len(),
            kept@.to_multiset().add(removed@.to_multiset()) == items@.subrange(
                0,
                idx as int,
            ).to_multiset().add(pending@.to_multiset()),
            forall|x: i64|
                kept@.to_multiset().count(x) > 0 ==> pending@.to_multiset().count(x) == 0,
    {
        broadcast use group_to_multiset_ensures;

        let e = items[idx];
        let ghost prefix = items@.subrange(0, idx as int);
        proof {
            assert(items@.subrange(0, idx + 1) =~= prefix.push(e));
        }
        match find_match(&pending, e) {
            Some(j) => {
                let ghost p0 = pending@;
                pending.remove(j);
                proof {
                    assert(p0.to_multiset().count(e) > 0);
                    assert(pending@.to_multiset() == p0.to_multiset().remove(e));
                    assert(prefix.push(e).to_multiset().add(pending@.to_multiset())
                        =~= prefix.to_multiset().add(p0.to_multiset()));
                }
            },
            None => {
                let ghost k0 = kept@;
                kept.push(e);
                proof {
                    assert(pending@.to_multiset().count(e) == 0);
                    let k0m = k0.to_multiset();
                    let pm = prefix.to_multiset();
                    let dm = pending@.to_multiset();
                    let rm = removed@.to_multiset();
                    assert(prefix.push(e).to_multiset() == pm.insert(e));
                    assert(kept@.to_multiset() == k0m.insert(e));
                    assert forall|x: i64|
                        k0m.insert(e).add(rm).count(x) == pm.insert(e).add(dm).count(x) by {
                        assert(k0m.add(rm).count(x) == pm.add(dm).count(x));
                        assert(pm.insert(e).count(x) == pm.count(x) + if x == e {
                            1nat
                        } else {
                            0nat
                        });
                        assert(k0m.insert(e).count(x) == k0m.count(x) + if x == e {
                            1nat
                        } else {
                            0nat
                        });
                    }
                    assert(k0m.insert(e).add(rm) =~= pm.insert(e).add(dm));
                }
            },
        }
    }
    proof {
        assert(items@.subrange(0, n as int) =~= items@);
        let k = kept@.to_multiset();
        let p = pending@.to_multiset();
        let im = items@.to_multiset();
        let rm = removed@.to_multiset();
        assert forall|x: i64| k.count(x) == im.sub(rm).count(x) by {
            assert(k.add(rm).count(x) == im.add(p).count(x));
        }
        assert(k =~= im.sub(rm));
    }
    let mut result = kept;
    let m = added.len();
    for i in 0..m
        invariant
            m == added@.len(),
            result@.to_multiset() == items@.to_multiset().sub(removed@.to_multiset()).add(
                added@.subrange(0, i as int).to_multiset(),
            ),
    {
        broadcast use group_to_multiset_ensures;

        let ghost pre = added@.subrange(0, i as int);
        let ghost r0 = result@;
        result.push(added[i]);
        proof {
            assert(added@.subrange(0, i + 1) =~= pre.push(added@[i as int]));
            assert(r0.push(added@[i as int]).to_multiset() =~= items@.to_multiset().sub(
                removed@.to_multiset(),
            ).add(pre.push(added@[i as int]).to_multiset()));
        }
    }
    proof {
        assert(added@.subrange(0, m as int) =~= added@);
    }
    result
}

/// The two clamped differences of a pair of multisets are both empty
/// exactly when the multisets are equal: diffing reports no additions and
/// no removals iff the collections hold the same elements with the same
/// multiplicities.
pub proof fn lemma_diff_empty_iff_same(a: Multiset<i64>, b: Multiset<i64>)
    ensures
        (a.sub(b).len() == 0 && b.sub(a).len() == 0) <==> a == b,
{
    if a.sub(b).len() == 0 && b.sub(a).len() == 0 {
        assert forall|x: i64| a.count(x) == b.count(x) by {
            assert(a.sub(b).count(x) <= a.sub(b).len());
            assert(b.sub(a).count(x) <= b.sub(a).len());
        }
        assert(a =~= b);
    }
    if a == b {
        assert(a.sub(b) =~= Multiset::<i64>::empty());
        assert(b.sub(a) =~= Multiset::<i64>::empty());
    }
}

} // verus!
