//! The grouping engine: one function that partitions a sequence of items by
//! the key that stands beside each of them, generic in the key.

use vstd::prelude::*;

verus! {

/// How one key stands to another in the order of its type.
#[derive(Clone, Copy, Debug, PartialEq, Eq)]
pub enum Rank {
    Before,
    Same,
    After,
}

/// A type whose values can serve as the key of a grouped view.
///
/// Two keys are the same key when their models are equal; `precedes` is a
/// strict total order on the models.
pub trait GroupKey: Sized {
    type Model;

    spec fn model(&self) -> Self::Model;

    spec fn precedes(a: Self::Model, b: Self::Model) -> bool;

    proof fn order_laws(a: Self::Model, b: Self::Model, c: Self::Model)
        ensures
            !Self::precedes(a, a),
            Self::precedes(a, b) && Self::precedes(b, c) ==> Self::precedes(a, c),
            a == b || Self::precedes(a, b) || Self::precedes(b, a),
    ;

    fn rank(&self, other: &Self) -> (r: Rank)
        ensures
            (r == Rank::Before) == Self::precedes(self.model(), other.model()),
            (r == Rank::Same) == (self.model() == other.model()),
    ;

    fn duplicate(&self) -> (r: Self)
        ensures
            r.model() == self.model(),
    ;
}

/// The models of a sequence of keys.
pub open spec fn key_models<K: GroupKey>(keys: Seq<K>) -> Seq<K::Model> {
    Seq::new(keys.len(), |i: int| keys[i].model())
}

/// The items whose key is `k`, in the order in which they stand in `items`.
/// `keys[i]` is the key of `items[i]`.
pub open spec fn members<M, T>(keys: Seq<M>, items: Seq<T>, k: M) -> Seq<T>
    decreases items.len(),
{
    if items.len() == 0 || keys.len() != items.len() {
        Seq::empty()
    } else {
        let init = members(keys.drop_last(), items.drop_last(), k);
        if keys.last() == k {
            init.push(items.last())
        } else {
            init
        }
    }
}

/// The keys of a view ascend strictly.
pub open spec fn ascending<K: GroupKey, T>(view: Seq<(K, Vec<T>)>) -> bool {
    forall|i: int, j: int|
        0 <= i < j < view.len() ==> K::precedes(
            (#[trigger] view[i]).0.model(),
            (#[trigger] view[j]).0.model(),
        )
}

/// Some bucket of the view has the key `k`.
pub open spec fn has_bucket<K: GroupKey, T>(view: Seq<(K, Vec<T>)>, k: K::Model) -> bool {
    exists|i: int| 0 <= i < view.len() && (#[trigger] view[i]).0.model() == k
}

/// `view` is the grouped view of `items` under `keys`: its keys ascend
/// strictly, they are exactly the keys that occur, and each bucket holds the
/// items of its key in the order in which they stand in `items`.
pub open spec fn is_grouping<K: GroupKey, T>(
    view: Seq<(K, Vec<T>)>,
    keys: Seq<K::Model>,
    items: Seq<T>,
) -> bool {
    &&& ascending(view)
    &&& forall|i: int|
        0 <= i < view.len() ==> keys.contains((#[trigger] view[i]).0.model()) && view[i].1@
            == members(keys, items, view[i].0.model())
    &&& forall|j: int| 0 <= j < keys.len() ==> has_bucket(view, #[trigger] keys[j])
}

/// The items beside the keys equal to `key`, in order.
pub fn collect_members<K: GroupKey, T: Copy>(keys: &Vec<K>, items: &[T], key: &K) -> (r: Vec<T>)
    requires
        keys.len() == items.len(),
    ensures
        r@ == members(key_models(keys@), items@, key.model()),
{
    let mut r: Vec<T> = Vec::new();
    let mut j: usize = 0;
    while j < items.len()
        invariant
            keys.len() == items.len(),
            j <= items.len(),
            r@ == members(key_models(keys@).take(j as int), items@.take(j as int), key.model()),
        decreases items.len() - j,
    {
        proof {
            let km = key_models(keys@);
            assert(km.take(j + 1).drop_last() =~= km.take(j as int));
            assert(items@.take(j + 1).drop_last() =~= items@.take(j as int));
            assert(km.take(j + 1).last() == keys@[j as int].model());
            assert(items@.take(j + 1).last() == items@[j as int]);
        }
        match keys[j].rank(key) {
            Rank::Same => {
                r.push(items[j]);
            },
            _ => {},
        }
        j = j + 1;
    }
    proof {
        assert(key_models(keys@).take(j as int) =~= key_models(keys@));
        assert(items@.take(j as int) =~= items@);
    }
    r
}

/// Groups `items` by the keys beside them: `keys[i]` is the key of
/// `items[i]`. The buckets come in ascending order of their keys, and within
/// a bucket the items keep their relative order.
pub fn group_by_keys<K: GroupKey, T: Copy>(keys: &Vec<K>, items: &[T]) -> (view: Vec<(K, Vec<T>)>)
    requires
        keys.len() == items.len(),
    ensures
        is_grouping(view@, key_models(keys@), items@),
{
    let mut view: Vec<(K, Vec<T>)> = Vec::new();
    let mut i: usize = 0;
    while i < keys.len()
        invariant
            keys.len() == items.len(),
            i <= keys.len(),
            ascending(view@),
            forall|p: int|
                0 <= p < view.len() ==> key_models(keys@).contains((#[trigger] view@[p]).0.model())
                    && view@[p].1@ == members(key_models(keys@), items@, view@[p].0.model()),
            forall|j: int| 0 <= j < i ==> has_bucket(view@, #[trigger] key_models(keys@)[j]),
        decreases keys.len() - i,
    {
        let ghost km = key_models(keys@);
        let ghost k = keys@[i as int].model();
        let mut p: usize = 0;
        let mut found = false;
        let mut scanning = true;
        while scanning && p < view.len()
            invariant
                p <= view.len(),
                i < keys.len(),
                k == keys@[i as int].model(),
                forall|q: int| 0 <= q < p ==> K::precedes((#[trigger] view@[q]).0.model(), k),
                found ==> p < view.len() && view@[p as int].0.model() == k,
                !scanning && !found ==> p < view.len() && K::precedes(k, view@[p as int].0.model()),
                scanning ==> !found,
            decreases view.len() - p + (if scanning { 1int } else { 0int }),
        {
            match view[p].0.rank(&keys[i]) {
                Rank::Before => {
                    p = p + 1;
                },
                Rank::Same => {
                    found = true;
                    scanning = false;
                },
                Rank::After => {
                    proof {
                        K::order_laws(k, view@[p as int].0.model(), k);
                    }
                    scanning = false;
                },
            }
        }
        if found {
            assert(has_bucket(view@, km[i as int]));
        } else {
            let bucket = collect_members(keys, items, &keys[i]);
            let key = keys[i].duplicate();
            let ghost before = view@;
            view.insert(p, (key, bucket));
            proof {
                let after = view@;
                assert(km[i as int] == k);
                assert(after[p as int].0.model() == k);
                assert forall|a: int, b: int| 0 <= a < b < after.len() implies K::precedes(
                    (#[trigger] after[a]).0.model(),
                    (#[trigger] after[b]).0.model(),
                ) by {
                    if b < p {
                        assert(after[a] == before[a] && after[b] == before[b]);
                    } else if b == p {
                        assert(after[a] == before[a]);
                    } else if a == p {
                        assert(after[b] == before[b - 1]);
                        K::order_laws(k, before[p as int].0.model(), before[b - 1].0.model());
                    } else if a < p {
                        assert(after[a] == before[a] && after[b] == before[b - 1]);
                    } else {
                        assert(after[a] == before[a - 1] && after[b] == before[b - 1]);
                    }
                }
                assert forall|q: int| 0 <= q < after.len() implies km.contains(
                    (#[trigger] after[q]).0.model(),
                ) && after[q].1@ == members(km, items@, after[q].0.model()) by {
                    if q < p {
                        assert(after[q] == before[q]);
                    } else if q == p {
                        assert(km[i as int] == k);
                    } else {
                        assert(after[q] == before[q - 1]);
                    }
                }
                assert forall|j: int| 0 <= j < i + 1 implies has_bucket(after, #[trigger] km[j]) by {
                    if j < i {
                        assert(has_bucket(before, km[j]));
                        let w = choose|w: int| 0 <= w < before.len() && (#[trigger] before[w]).0.model() == km[j];
                        if w < p {
                            assert(after[w] == before[w]);
                        } else {
                            assert(after[w + 1] == before[w]);
                        }
                    } else {
                        assert(after[p as int].0.model() == km[j]);
                    }
                }
            }
        }
        i = i + 1;
    }
    view
}

/// Every item stands among the members of its own key.
pub proof fn lemma_members_complete<M, T>(keys: Seq<M>, items: Seq<T>, j: int)
    requires
        keys.len() == items.len(),
        0 <= j < items.len(),
    ensures
        members(keys, items, keys[j]).contains(items[j]),
    decreases items.len(),
{
    let init = members(keys.drop_last(), items.drop_last(), keys[j]);
    if j == items.len() - 1 {
        assert(init.push(items.last())[init.len() as int] == items[j]);
    } else {
        lemma_members_complete(keys.drop_last(), items.drop_last(), j);
        let at = choose|at: int| 0 <= at < init.len() && init[at] == items.drop_last()[j];
        if keys.last() == keys[j] {
            assert(init.push(items.last())[at] == items[j]);
        }
    }
}

/// Every member of a key is an item that stands beside that key.
pub proof fn lemma_members_sound<M, T>(keys: Seq<M>, items: Seq<T>, k: M, x: T)
    requires
        members(keys, items, k).contains(x),
    ensures
        stands_beside(keys, items, k, x),
    decreases items.len(),
{
    if items.len() > 0 && keys.len() == items.len() {
        let init = members(keys.drop_last(), items.drop_last(), k);
        let at = choose|at: int| 0 <= at < members(keys, items, k).len() && members(keys, items, k)[at] == x;
        if keys.last() == k && at == init.len() {
            assert(keys[items.len() - 1] == k && items[items.len() - 1] == x);
        } else {
            assert(init[at] == x);
            lemma_members_sound(keys.drop_last(), items.drop_last(), k, x);
            let j = choose|j: int|
                0 <= j < items.drop_last().len() && #[trigger] keys.drop_last()[j] == k
                    && items.drop_last()[j] == x;
            assert(keys[j] == k && items[j] == x);
        }
    }
}

/// The item `x` stands beside the key `k`.
pub open spec fn stands_beside<M, T>(keys: Seq<M>, items: Seq<T>, k: M, x: T) -> bool {
    exists|j: int| 0 <= j < items.len() && #[trigger] keys[j] == k && items[j] == x
}

/// The bucket of the key `k` holds the item `x`.
pub open spec fn holds<K: GroupKey, T>(view: Seq<(K, Vec<T>)>, k: K::Model, x: T) -> bool {
    exists|i: int|
        0 <= i < view.len() && (#[trigger] view[i]).0.model() == k && view[i].1@.contains(x)
}

/// A grouped view partitions the items: every item lies in the bucket of
/// its key, and a bucket holds nothing but items of its key.
pub proof fn lemma_grouping_partitions<K: GroupKey, T>(
    view: Seq<(K, Vec<T>)>,
    keys: Seq<K::Model>,
    items: Seq<T>,
)
    requires
        keys.len() == items.len(),
        is_grouping(view, keys, items),
    ensures
        forall|j: int| 0 <= j < items.len() ==> holds(view, keys[j], #[trigger] items[j]),
        forall|i: int, at: int|
            0 <= i < view.len() && 0 <= at < view[i].1@.len() ==> stands_beside(
                keys,
                items,
                view[i].0.model(),
                #[trigger] view[i].1@[at],
            ),
{
    assert forall|j: int| 0 <= j < items.len() implies holds(view, keys[j], #[trigger] items[j]) by {
        assert(has_bucket(view, keys[j]));
        let i = choose|i: int| 0 <= i < view.len() && (#[trigger] view[i]).0.model() == keys[j];
        lemma_members_complete(keys, items, j);
        assert(view[i].1@.contains(items[j]));
    }
    assert forall|i: int, at: int|
        0 <= i < view.len() && 0 <= at < view[i].1@.len() implies stands_beside(
        keys,
        items,
        view[i].0.model(),
        #[trigger] view[i].1@[at],
    ) by {
        let bucket = view[i].1@;
        assert(keys.contains(view[i].0.model()));
        assert(bucket.contains(bucket[at]));
        lemma_members_sound(keys, items, view[i].0.model(), bucket[at]);
    }
}

/// The keys of a view, as models.
pub open spec fn view_keys<K: GroupKey, T>(view: Seq<(K, Vec<T>)>) -> Seq<K::Model> {
    Seq::new(view.len(), |i: int| view[i].0.model())
}

/// The keys of a sequence ascend strictly.
pub open spec fn strictly_ascending<K: GroupKey>(s: Seq<K::Model>) -> bool {
    forall|i: int, j: int| 0 <= i < j < s.len() ==> K::precedes(#[trigger] s[i], #[trigger] s[j])
}

/// Two strictly ascending sequences with the same elements are the same
/// sequence.
pub proof fn lemma_ascending_unique<K: GroupKey>(a: Seq<K::Model>, b: Seq<K::Model>)
    requires
        strictly_ascending::<K>(a),
        strictly_ascending::<K>(b),
        forall|x: K::Model| a.contains(x) <==> b.contains(x),
    ensures
        a == b,
    decreases a.len(),
{
    if a.len() == 0 {
        if b.len() > 0 {
            assert(b.contains(b[0]));
            assert(a.contains(b[0]));
        }
        assert(a =~= b);
    } else {
        assert(a.contains(a[0]));
        assert(b.contains(a[0]));
        let x = a.last();
        let y = b.last();
        assert(a.contains(x));
        assert(b.contains(x));
        assert(b.contains(y));
        assert(a.contains(y));
        let jb = choose|j: int| 0 <= j < b.len() && b[j] == x;
        let ia = choose|i: int| 0 <= i < a.len() && a[i] == y;
        K::order_laws(y, x, y);
        assert(x == y) by {
            if ia < a.len() - 1 && jb < b.len() - 1 {
                assert(K::precedes(a[ia], a[a.len() - 1]));
                assert(K::precedes(b[jb], b[b.len() - 1]));
            }
        }
        let a1 = a.drop_last();
        let b1 = b.drop_last();
        assert forall|z: K::Model| a1.contains(z) <==> b1.contains(z) by {
            K::order_laws(z, z, z);
            if a1.contains(z) {
                let i = choose|i: int| 0 <= i < a1.len() && a1[i] == z;
                assert(K::precedes(a[i], a[a.len() - 1]));
                assert(a.contains(z));
                assert(b.contains(z));
                let j = choose|j: int| 0 <= j < b.len() && b[j] == z;
                assert(b1[j] == z);
            }
            if b1.contains(z) {
                let j = choose|j: int| 0 <= j < b1.len() && b1[j] == z;
                assert(K::precedes(b[j], b[b.len() - 1]));
                assert(b.contains(z));
                assert(a.contains(z));
                let i = choose|i: int| 0 <= i < a.len() && a[i] == z;
                assert(a1[i] == z);
            }
        }
        assert(strictly_ascending::<K>(a1)) by {
            assert forall|i: int, j: int| 0 <= i < j < a1.len() implies K::precedes(
                #[trigger] a1[i],
                #[trigger] a1[j],
            ) by {
                assert(K::precedes(a[i], a[j]));
            }
        }
        assert(strictly_ascending::<K>(b1)) by {
            assert forall|i: int, j: int| 0 <= i < j < b1.len() implies K::precedes(
                #[trigger] b1[i],
                #[trigger] b1[j],
            ) by {
                assert(K::precedes(b[i], b[j]));
            }
        }
        lemma_ascending_unique::<K>(a1, b1);
        assert(a =~= a1.push(x));
        assert(b =~= b1.push(y));
    }
}

/// Grouping is a function of the keys and the items: two grouped views of
/// the same items under the same keys have the same keys in the same order,
/// and under each key the same items in the same order.
pub proof fn lemma_grouping_unique<K: GroupKey, T>(
    first: Seq<(K, Vec<T>)>,
    second: Seq<(K, Vec<T>)>,
    keys: Seq<K::Model>,
    items: Seq<T>,
)
    requires
        is_grouping(first, keys, items),
        is_grouping(second, keys, items),
    ensures
        first.len() == second.len(),
        forall|i: int|
            0 <= i < first.len() ==> (#[trigger] first[i]).0.model() == second[i].0.model()
                && first[i].1@ == second[i].1@,
{
    let a = view_keys(first);
    let b = view_keys(second);
    assert(strictly_ascending::<K>(a)) by {
        assert forall|i: int, j: int| 0 <= i < j < a.len() implies K::precedes(
            #[trigger] a[i],
            #[trigger] a[j],
        ) by {
            assert(K::precedes(first[i].0.model(), first[j].0.model()));
        }
    }
    assert(strictly_ascending::<K>(b)) by {
        assert forall|i: int, j: int| 0 <= i < j < b.len() implies K::precedes(
            #[trigger] b[i],
            #[trigger] b[j],
        ) by {
            assert(K::precedes(second[i].0.model(), second[j].0.model()));
        }
    }
    assert forall|x: K::Model| a.contains(x) <==> b.contains(x) by {
        if a.contains(x) {
            let i = choose|i: int| 0 <= i < a.len() && a[i] == x;
            assert(keys.contains(first[i].0.model()));
            let j = choose|j: int| 0 <= j < keys.len() && keys[j] == x;
            assert(has_bucket(second, keys[j]));
            let w = choose|w: int| 0 <= w < second.len() && (#[trigger] second[w]).0.model() == x;
            assert(b[w] == x);
        }
        if b.contains(x) {
            let i = choose|i: int| 0 <= i < b.len() && b[i] == x;
            assert(keys.contains(second[i].0.model()));
            let j = choose|j: int| 0 <= j < keys.len() && keys[j] == x;
            assert(has_bucket(first, keys[j]));
            let w = choose|w: int| 0 <= w < first.len() && (#[trigger] first[w]).0.model() == x;
            assert(a[w] == x);
        }
    }
    lemma_ascending_unique::<K>(a, b);
    assert forall|i: int| 0 <= i < first.len() implies (#[trigger] first[i]).0.model()
        == second[i].0.model() && first[i].1@ == second[i].1@ by {
        assert(a[i] == b[i]);
    }
}

} // verus!
