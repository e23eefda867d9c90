//! Removing several entries of a list at once, by position.

use vstd::prelude::*;

verus! {

/// The positions that `list` names.
pub open spec fn positions(list: Seq<usize>) -> Set<int> {
    Set::new(|i: int| exists|k: int| 0 <= k < list.len() && #[trigger] list[k] == i)
}

/// `list` names positions below `bound`, each greater than the one before.
pub open spec fn ascending_below(list: Seq<usize>, bound: int) -> bool {
    &&& forall|j: int, k: int| 0 <= j < k < list.len() ==> list[j] < list[k]
    &&& forall|k: int| 0 <= k < list.len() ==> #[trigger] list[k] < bound
}

/// `s` without the entries at the positions in `removed`; the others stay in
/// their order.
pub open spec fn without<T>(s: Seq<T>, removed: Set<int>) -> Seq<T>
    decreases s.len(),
{
    if s.len() == 0 {
        s
    } else if removed.contains(s.len() - 1) {
        without(s.drop_last(), removed)
    } else {
        without(s.drop_last(), removed).push(s.last())
    }
}

/// Removing nothing leaves the list as it is.
pub proof fn lemma_without_nothing<T>(s: Seq<T>, removed: Set<int>)
    requires
        forall|i: int| 0 <= i < s.len() ==> !removed.contains(i),
    ensures
        without(s, removed) == s,
    decreases s.len(),
{
    if s.len() > 0 {
        lemma_without_nothing(s.drop_last(), removed);
        assert(s.drop_last().push(s.last()) == s);
    }
}

/// Positions at or after `m` do not touch the first `m` entries.
pub proof fn lemma_without_keeps_prefix<T>(s: Seq<T>, removed: Set<int>, m: int)
    requires
        0 <= m <= s.len(),
        forall|i: int| removed.contains(i) ==> m <= i,
    ensures
        without(s, removed).len() >= m,
        without(s, removed).subrange(0, m) == s.subrange(0, m),
    decreases s.len(),
{
    if s.len() == m {
        lemma_without_nothing(s, removed);
    } else {
        lemma_without_keeps_prefix(s.drop_last(), removed, m);
        let kept = without(s.drop_last(), removed);
        assert(s.drop_last().subrange(0, m) == s.subrange(0, m));
        if !removed.contains(s.len() - 1) {
            assert(kept.push(s.last()).subrange(0, m) == kept.subrange(0, m));
        }
    }
}

/// Removing one more entry, at a position before all those removed so far,
/// is removing it from what was left.
pub proof fn lemma_without_one_more<T>(s: Seq<T>, removed: Set<int>, j: int)
    requires
        0 <= j < s.len(),
        forall|i: int| removed.contains(i) ==> j < i,
    ensures
        j < without(s, removed).len(),
        without(s, removed.insert(j)) == without(s, removed).remove(j),
    decreases s.len(),
{
    let last = s.len() - 1;
    let front = s.drop_last();
    lemma_without_keeps_prefix(s, removed, j + 1);
    if last == j {
        lemma_without_nothing(front, removed);
        lemma_without_nothing(front, removed.insert(j));
        assert(front.push(s.last()).remove(j) == front);
    } else {
        lemma_without_one_more(front, removed, j);
        let a = without(front, removed);
        if !removed.contains(last) {
            assert(a.remove(j).push(s.last()) == a.push(s.last()).remove(j));
        }
    }
}

/// Every entry that is left was in the list.
pub proof fn lemma_without_is_part<T>(s: Seq<T>, removed: Set<int>, k: int)
    requires
        0 <= k < without(s, removed).len(),
    ensures
        exists|i: int|
            0 <= i < s.len() && !removed.contains(i) && #[trigger] s[i] == without(s, removed)[k],
    decreases s.len(),
{
    let last = s.len() - 1;
    let front = s.drop_last();
    if removed.contains(last) || k < without(front, removed).len() {
        lemma_without_is_part(front, removed, k);
        let i = choose|i: int|
            0 <= i < front.len() && !removed.contains(i) && #[trigger] front[i] == without(
                front,
                removed,
            )[k];
        assert(s[i] == front[i]);
    } else {
        assert(s[last] == without(s, removed)[k]);
    }
}

/// Every entry at a position that is not removed is left.
pub proof fn lemma_without_keeps_others<T>(s: Seq<T>, removed: Set<int>, i: int)
    requires
        0 <= i < s.len(),
        !removed.contains(i),
    ensures
        exists|k: int|
            0 <= k < without(s, removed).len() && #[trigger] without(s, removed)[k] == s[i],
    decreases s.len(),
{
    let front = s.drop_last();
    let kept = without(front, removed);
    if i == s.len() - 1 {
        assert(without(s, removed)[kept.len() as int] == s[i]);
    } else {
        lemma_without_keeps_others(front, removed, i);
        let k = choose|k: int| 0 <= k < kept.len() && #[trigger] kept[k] == front[i];
        assert(without(s, removed)[k] == s[i]);
    }
}

/// What is left is as long as the list less the positions removed from it.
pub proof fn lemma_without_len<T>(s: Seq<T>, list: Seq<usize>)
    requires
        ascending_below(list, s.len() as int),
    ensures
        without(s, positions(list)).len() == s.len() - list.len(),
    decreases list.len(),
{
    if list.len() == 0 {
        lemma_without_nothing(s, positions(list));
    } else {
        let rest = list.drop_first();
        let j = list[0] as int;
        assert forall|i: int| positions(rest).contains(i) implies j < i by {
            let k = choose|k: int| 0 <= k < rest.len() && #[trigger] rest[k] == i;
            assert(rest[k] == list[k + 1]);
        }
        assert forall|k: int| 0 <= k < rest.len() implies #[trigger] rest[k] < s.len() by {
            assert(rest[k] == list[k + 1]);
        }
        assert forall|a: int, b: int| 0 <= a < b < rest.len() implies rest[a] < rest[b] by {
            assert(rest[a] == list[a + 1]);
            assert(rest[b] == list[b + 1]);
        }
        lemma_without_len(s, rest);
        lemma_without_one_more(s, positions(rest), j);
        lemma_positions_first(list);
    }
}

/// The positions of a list are its first one and those of the rest.
pub proof fn lemma_positions_first(list: Seq<usize>)
    requires
        list.len() > 0,
    ensures
        positions(list) == positions(list.drop_first()).insert(list[0] as int),
{
    let rest = list.drop_first();
    assert forall|i: int| positions(list).contains(i) implies positions(rest).insert(
        list[0] as int,
    ).contains(i) by {
        let k = choose|k: int| 0 <= k < list.len() && #[trigger] list[k] == i;
        if k > 0 {
            assert(rest[k - 1] == list[k]);
        }
    }
    assert forall|i: int| positions(rest).insert(list[0] as int).contains(i) implies positions(
        list,
    ).contains(i) by {
        if i != list[0] as int {
            let k = choose|k: int| 0 <= k < rest.len() && #[trigger] rest[k] == i;
            assert(list[k + 1] == rest[k]);
        }
    }
}

/// Entries that differ by `key` still do once some are removed.
pub proof fn lemma_without_keeps_distinct<T, K>(s: Seq<T>, removed: Set<int>, key: spec_fn(T) -> K)
    requires
        forall|i: int, j: int| 0 <= i < j < s.len() ==> key(s[i]) != key(s[j]),
    ensures
        forall|i: int, j: int|
            0 <= i < j < without(s, removed).len() ==> key(without(s, removed)[i]) != key(
                without(s, removed)[j],
            ),
    decreases s.len(),
{
    if s.len() > 0 {
        let front = s.drop_last();
        let kept = without(front, removed);
        lemma_without_keeps_distinct(front, removed, key);
        if !removed.contains(s.len() - 1) {
            assert forall|i: int, j: int| 0 <= i < j < kept.len() + 1 implies key(
                kept.push(s.last())[i],
            ) != key(kept.push(s.last())[j]) by {
                if j == kept.len() {
                    lemma_without_is_part(front, removed, i);
                }
            }
        }
    }
}

/// Removing entries and then mapping what is left is mapping first and then
/// removing.
pub proof fn lemma_without_map<T, U>(s: Seq<T>, removed: Set<int>, f: spec_fn(T) -> U)
    ensures
        without(s, removed).map_values(f) == without(s.map_values(f), removed),
    decreases s.len(),
{
    if s.len() > 0 {
        lemma_without_map(s.drop_last(), removed, f);
        assert(s.map_values(f).drop_last() == s.drop_last().map_values(f));
        let kept = without(s.drop_last(), removed);
        assert(kept.push(s.last()).map_values(f) == kept.map_values(f).push(f(s.last())));
    } else {
        assert(s.map_values(f) == Seq::<U>::empty());
        assert(without(s, removed).map_values(f) == Seq::<U>::empty());
    }
}

/// The positions that the end of a list names, from `k` on, are its `k`-th
/// and those after it.
pub proof fn lemma_positions_from(list: Seq<usize>, k: int)
    requires
        0 <= k < list.len(),
    ensures
        positions(list.subrange(k, list.len() as int)) == positions(
            list.subrange(k + 1, list.len() as int),
        ).insert(list[k] as int),
{
    let tail = list.subrange(k, list.len() as int);
    lemma_positions_first(tail);
    assert(tail.drop_first() == list.subrange(k + 1, list.len() as int));
}

/// Tells whether `list` names positions below `bound`, each greater than the
/// one before.
pub fn is_ascending_below(list: &Vec<usize>, bound: usize) -> (b: bool)
    ensures
        b == ascending_below(list@, bound as int),
{
    let mut k: usize = 0;
    while k < list.len()
        invariant
            k <= list.len(),
            forall|a: int, b: int| 0 <= a < b < k ==> list[a] < list[b],
            forall|a: int| 0 <= a < k ==> #[trigger] list[a] < bound,
        decreases list.len() - k,
    {
        if list[k] >= bound {
            return false;
        }
        if k > 0 && list[k - 1] >= list[k] {
            return false;
        }
        k = k + 1;
    }
    true
}

} // verus!
