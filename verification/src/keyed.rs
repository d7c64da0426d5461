//! Ordered maps keyed by 64-bit ids.
use std::collections::BTreeMap;
use vstd::prelude::*;
use vstd::std_specs::btree::spec_keys_iter;
use vstd::std_specs::iter::IteratorSpec;

verus! {

/// Inserts `v` at `k`.
pub fn id_map_insert<V>(m: &mut BTreeMap<i64, V>, k: i64, v: V)
    ensures
        final(m)@ == old(m)@.insert(k, v),
{
    broadcast use vstd::laws_cmp::group_laws_cmp;

    m.insert(k, v);
}

/// The value at `k`, if any.
pub fn id_map_get<V>(m: &BTreeMap<i64, V>, k: i64) -> (r: Option<&V>)
    ensures
        match r {
            Some(v) => m@.contains_key(k) && m@[k] == *v,
            None => !m@.contains_key(k),
        },
{
    broadcast use vstd::laws_cmp::group_laws_cmp;

    m.get(&k)
}

proof fn lemma_take_all<T>(s: Seq<T>)
    ensures
        s.take(s.len() as int) == s,
{
    assert(s.take(s.len() as int) =~= s);
}

/// The keys of `m`, in increasing order.
pub fn id_map_keys<V>(m: &BTreeMap<i64, V>) -> (r: Vec<i64>)
    ensures
        r@.to_set() == m@.dom(),
        r@.no_duplicates(),
        forall|i: int, j: int| 0 <= i < j < r@.len() ==> r@[i] < r@[j],
{
    broadcast use vstd::laws_cmp::group_laws_cmp;
    broadcast use vstd::std_specs::btree::group_btree_axioms;

    let ghost keys = spec_keys_iter(m).remaining();
    let mut out: Vec<i64> = Vec::new();
    for k in it: m.keys()
        invariant
            it.seq() == keys,
            out@ == keys.take(it.index()).map_values(|x: &i64| *x),
    {
        proof {
            assert(keys.take(it.index() + 1) =~= keys.take(it.index()).push(keys[it.index()]));
        }
        out.push(*k);
        proof {
            assert(out@ =~= keys.take(it.index() + 1).map_values(|x: &i64| *x));
        }
    }
    proof {
        lemma_take_all(keys);
    }
    assert(out@ =~= keys.unref());
    assert forall|i: int, j: int| 0 <= i < j < out@.len() implies out@[i] < out@[j] by {
        assert(vstd::laws_cmp::obeys_cmp::<&i64>());
        assert(vstd::std_specs::btree::increasing_seq(keys));
        assert(vstd::std_specs::cmp::OrdSpec::cmp_spec(&keys[i], &keys[j]) is Less);
    }
    out
}

} // verus!

verus! {

/// The value of the first pair whose name is `k`.
pub open spec fn assoc_get<V>(list: Seq<(String, V)>, k: Seq<char>) -> Option<V>
    decreases list.len(),
{
    if list.len() == 0 {
        None
    } else if list[0].0@ == k {
        Some(list[0].1)
    } else {
        assoc_get(list.drop_first(), k)
    }
}

/// Where the first pair named `k` stands.
pub open spec fn assoc_index<V>(list: Seq<(String, V)>, k: Seq<char>) -> Option<int>
    decreases list.len(),
{
    if list.len() == 0 {
        None
    } else if list[0].0@ == k {
        Some(0)
    } else {
        match assoc_index(list.drop_first(), k) {
            Some(i) => Some(i + 1),
            None => None,
        }
    }
}

pub proof fn lemma_assoc_index<V>(list: Seq<(String, V)>, k: Seq<char>)
    ensures
        match assoc_index(list, k) {
            Some(i) => 0 <= i < list.len() && list[i].0@ == k && assoc_get(list, k) == Some(
                list[i].1,
            ) && forall|j: int| 0 <= j < i ==> (#[trigger] list[j]).0@ != k,
            None => assoc_get(list, k) is None && forall|j: int|
                0 <= j < list.len() ==> (#[trigger] list[j]).0@ != k,
        },
    decreases list.len(),
{
    if list.len() > 0 {
        lemma_assoc_index(list.drop_first(), k);
        assert forall|j: int| 1 <= j < list.len() implies list[j] == list.drop_first()[j - 1] by {}
    }
}

/// The first pair named `k`, found from the front.
pub fn assoc_find<V>(list: &Vec<(String, V)>, k: &String) -> (r: Option<usize>)
    ensures
        match r {
            Some(i) => i < list@.len() && assoc_index(list@, k@) == Some(i as int) && assoc_get(
                list@,
                k@,
            ) == Some(list@[i as int].1),
            None => assoc_index(list@, k@) is None && assoc_get(list@, k@) is None,
        },
{
    proof {
        lemma_assoc_index(list@, k@);
    }
    let n = list.len();
    let mut i: usize = 0;
    while i < n
        invariant
            n == list@.len(),
            i <= n,
            forall|j: int| 0 <= j < i ==> (#[trigger] list@[j]).0@ != k@,
        decreases n - i,
    {
        if list[i].0 == *k {
            proof {
                lemma_assoc_index(list@, k@);
                if let Some(x) = assoc_index(list@, k@) {
                    assert(x == i);
                }
            }
            return Some(i);
        }
        i = i + 1;
    }
    None
}

/// The list with the first pair named like `name` given the value `v`, or with the
/// pair added at the end.
pub open spec fn assoc_put<V>(list: Seq<(String, V)>, name: String, v: V) -> Seq<(String, V)> {
    match assoc_index(list, name@) {
        Some(i) => list.update(i, (name, v)),
        None => list.push((name, v)),
    }
}

/// Reading a list after `assoc_put`.
pub proof fn lemma_assoc_put<V>(list: Seq<(String, V)>, name: String, v: V)
    ensures
        forall|k2: Seq<char>| #![trigger assoc_get(assoc_put(list, name, v), k2)]
            assoc_get(assoc_put(list, name, v), k2) == if k2 == name@ {
                Some(v)
            } else {
                assoc_get(list, k2)
            },
    decreases list.len(),
{
    let nl = assoc_put(list, name, v);
    assert forall|k2: Seq<char>| #![trigger assoc_get(nl, k2)]
        assoc_get(nl, k2) == if k2 == name@ {
            Some(v)
        } else {
            assoc_get(list, k2)
        } by {
        if list.len() == 0 {
            assert(nl[0] == (name, v));
            assert(nl.drop_first() =~= Seq::<(String, V)>::empty());
            assert(assoc_get(Seq::<(String, V)>::empty(), k2) is None);
        } else if list[0].0@ == name@ {
            assert(nl[0] == (name, v));
            assert(nl.drop_first() =~= list.drop_first());
        } else {
            lemma_assoc_put(list.drop_first(), name, v);
            lemma_assoc_index(list.drop_first(), name@);
            match assoc_index(list.drop_first(), name@) {
                Some(i) => {
                    assert(nl == list.update(i + 1, (name, v)));
                    assert(nl.drop_first() =~= list.drop_first().update(i, (name, v)));
                },
                None => {
                    assert(nl == list.push((name, v)));
                    assert(nl.drop_first() =~= list.drop_first().push((name, v)));
                },
            }
            assert(nl.drop_first() == assoc_put(list.drop_first(), name, v));
            assert(nl[0] == list[0]);
            assert(assoc_get(nl.drop_first(), k2) == if k2 == name@ {
                Some(v)
            } else {
                assoc_get(list.drop_first(), k2)
            });
        }
    }
}

/// Sets the value named `k`: the first pair so named gets `v`, or a pair is added.
pub fn assoc_set<V>(list: &mut Vec<(String, V)>, k: String, v: V)
    ensures
        final(list)@ == assoc_put(old(list)@, k, v),
{
    proof {
        lemma_assoc_index(list@, k@);
    }
    match assoc_find(list, &k) {
        Some(i) => {
            list.set(i, (k, v));
        },
        None => {
            list.push((k, v));
        },
    }
}

/// Strictly increasing ids.
pub open spec fn increasing(s: Seq<i64>) -> bool {
    forall|i: int, j: int| 0 <= i < j < s.len() ==> s[i] < s[j]
}

/// The members of a set of ids, in increasing order.
pub open spec fn sorted_ids(ids: Set<i64>) -> Seq<i64> {
    choose|s: Seq<i64>| s.to_set() == ids && increasing(s)
}

/// Two increasing sequences of the same ids are one sequence.
pub proof fn lemma_increasing_unique(a: Seq<i64>, b: Seq<i64>)
    requires
        increasing(a),
        increasing(b),
        a.to_set() == b.to_set(),
    ensures
        a == b,
    decreases a.len(),
{
    if a.len() == 0 {
        if b.len() > 0 {
            assert(b.to_set().contains(b[0]));
        }
        assert(a =~= b);
    } else {
        assert(a.to_set().contains(a[0]));
        assert(b.len() > 0);
        assert(b.to_set().contains(b[0]));
        let j = choose|j: int| 0 <= j < b.len() && b[j] == a[0];
        let k = choose|k: int| 0 <= k < a.len() && a[k] == b[0];
        assert(b[0] <= b[j]);
        assert(a[0] <= a[k]);
        assert(a[0] == b[0]);
        assert forall|x: i64| a.drop_first().to_set().contains(x) == b.drop_first().to_set().contains(x) by {
            if a.drop_first().to_set().contains(x) {
                let i = choose|i: int| 0 <= i < a.drop_first().len() && a.drop_first()[i] == x;
                assert(a[i + 1] == x);
                assert(a.to_set().contains(x));
                let m = choose|m: int| 0 <= m < b.len() && b[m] == x;
                assert(m != 0);
                assert(b.drop_first()[m - 1] == x);
            }
            if b.drop_first().to_set().contains(x) {
                let i = choose|i: int| 0 <= i < b.drop_first().len() && b.drop_first()[i] == x;
                assert(b[i + 1] == x);
                assert(b.to_set().contains(x));
                let m = choose|m: int| 0 <= m < a.len() && a[m] == x;
                assert(m != 0);
                assert(a.drop_first()[m - 1] == x);
            }
        }
        assert(a.drop_first().to_set() =~= b.drop_first().to_set());
        lemma_increasing_unique(a.drop_first(), b.drop_first());
        assert(a =~= seq![a[0]] + a.drop_first());
        assert(b =~= seq![b[0]] + b.drop_first());
    }
}

/// An increasing sequence is the sorted list of its ids.
pub proof fn lemma_sorted_ids(s: Seq<i64>)
    requires
        increasing(s),
    ensures
        sorted_ids(s.to_set()) == s,
{
    let t = sorted_ids(s.to_set());
    assert(t.to_set() == s.to_set() && increasing(t));
    lemma_increasing_unique(t, s);
}

} // verus!
