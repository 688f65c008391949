//! Taking several items out of a sequence at once, and putting them back.

use vstd::prelude::*;

verus! {

/// Each index is greater than the one before it.
pub open spec fn increasing(idxs: Seq<usize>) -> bool {
    forall|i: int, j: int| 0 <= i < j < idxs.len() ==> idxs[i] < idxs[j]
}

/// A set of indices that a sequence of length `hi` has, none below `lo`:
/// not empty, and listed from the least to the greatest.
pub open spec fn indices_within(idxs: Seq<usize>, lo: int, hi: int) -> bool {
    idxs.len() > 0 && increasing(idxs) && lo <= idxs[0] && idxs.last() < hi
}

/// The items at the given indices.
pub open spec fn pick<T>(s: Seq<T>, idxs: Seq<usize>) -> Seq<T> {
    Seq::new(idxs.len(), |k: int| s[idxs[k] as int])
}

/// The sequence without the items at the given indices. The greatest index
/// goes first, so that each index means what it meant at the start.
pub open spec fn remove_all<T>(s: Seq<T>, idxs: Seq<usize>) -> Seq<T>
    decreases idxs.len(),
{
    if idxs.len() == 0 {
        s
    } else {
        remove_all(s.remove(idxs.last() as int), idxs.drop_last())
    }
}

/// The sequence with `items[k]` put in at index `idxs[k]`, from the least
/// index to the greatest.
pub open spec fn insert_all<T>(s: Seq<T>, idxs: Seq<usize>, items: Seq<T>) -> Seq<T>
    decreases idxs.len(),
{
    if idxs.len() == 0 {
        s
    } else {
        insert_all(s, idxs.drop_last(), items.drop_last()).insert(
            idxs.last() as int,
            items.last(),
        )
    }
}

/// Each index is a place where the sequence, grown by the items before it,
/// can take an item.
pub open spec fn insertable(idxs: Seq<usize>, len: int) -> bool {
    forall|k: int| 0 <= k < idxs.len() ==> (#[trigger] idxs[k]) <= len + k
}

/// Each index is such a place, and none lies below `lo`.
pub open spec fn insert_points(idxs: Seq<usize>, lo: int, len: int) -> bool {
    forall|k: int| 0 <= k < idxs.len() ==> lo <= (#[trigger] idxs[k]) <= len + k
}

/// Removing shortens the sequence by the number of indices and leaves what
/// stands before the least of them.
pub proof fn lemma_remove_all_shape<T>(s: Seq<T>, idxs: Seq<usize>)
    requires
        indices_within(idxs, 0, s.len() as int),
    ensures
        remove_all(s, idxs).len() == s.len() - idxs.len(),
        forall|i: int| 0 <= i < idxs[0] ==> remove_all(s, idxs)[i] == s[i],
    decreases idxs.len(),
{
    let rest = idxs.drop_last();
    let cut = s.remove(idxs.last() as int);
    if rest.len() > 0 {
        assert(rest.last() == idxs[idxs.len() - 2]);
        assert(rest[0] == idxs[0]);
        lemma_remove_all_shape(cut, rest);
    } else {
        assert(remove_all(cut, rest) == cut);
    }
    assert forall|i: int| 0 <= i < idxs[0] implies remove_all(s, idxs)[i] == s[i] by {
        assert(idxs[0] <= idxs.last());
        assert(cut[i] == s[i]);
        assert(remove_all(cut, rest)[i] == cut[i]);
    }
}

/// Inserting lengthens the sequence by the number of items.
pub proof fn lemma_insert_all_len<T>(s: Seq<T>, idxs: Seq<usize>, items: Seq<T>)
    requires
        idxs.len() == items.len(),
        insertable(idxs, s.len() as int),
    ensures
        insert_all(s, idxs, items).len() == s.len() + idxs.len(),
    decreases idxs.len(),
{
    if idxs.len() > 0 {
        let rest = idxs.drop_last();
        assert forall|k: int| 0 <= k < rest.len() implies (#[trigger] rest[k]) <= s.len() + k by {
            assert(rest[k] == idxs[k]);
        }
        lemma_insert_all_len(s, rest, items.drop_last());
    }
}

/// Indices that were taken out in order can be put back in order.
pub proof fn lemma_removed_insertable(idxs: Seq<usize>, len: int)
    requires
        indices_within(idxs, 0, len),
    ensures
        insertable(idxs, len - idxs.len()),
{
    assert forall|k: int| 0 <= k < idxs.len() implies (#[trigger] idxs[k]) <= len - idxs.len()
        + k by {
        lemma_increasing_gap(idxs, k, idxs.len() - 1);
    }
}

/// Increasing indices lie at least as far apart as their places.
pub proof fn lemma_increasing_gap(idxs: Seq<usize>, i: int, j: int)
    requires
        increasing(idxs),
        0 <= i <= j < idxs.len(),
    ensures
        idxs[j] - idxs[i] >= j - i,
    decreases j - i,
{
    if i < j {
        lemma_increasing_gap(idxs, i, j - 1);
    }
}

/// Putting back what was taken out gives the sequence that one began with.
pub proof fn lemma_insert_all_remove_all<T>(s: Seq<T>, idxs: Seq<usize>)
    requires
        indices_within(idxs, 0, s.len() as int),
    ensures
        insert_all(remove_all(s, idxs), idxs, pick(s, idxs)) == s,
    decreases idxs.len(),
{
    let last = idxs.last() as int;
    let rest = idxs.drop_last();
    let cut = s.remove(last);
    assert(pick(s, idxs).drop_last() =~= pick(cut, rest));
    if rest.len() > 0 {
        assert(rest.last() == idxs[idxs.len() - 2]);
        lemma_insert_all_remove_all(cut, rest);
    } else {
        assert(remove_all(cut, rest) == cut);
        assert(insert_all(cut, rest, pick(cut, rest)) == cut);
    }
    assert(insert_all(remove_all(cut, rest), rest, pick(cut, rest)) == cut);
    assert(cut.insert(last, s[last]) =~= s);
}

/// Taking out again what was put in gives the sequence that one began with.
pub proof fn lemma_remove_all_insert_all<T>(s: Seq<T>, idxs: Seq<usize>, items: Seq<T>)
    requires
        idxs.len() == items.len(),
        insertable(idxs, s.len() as int),
    ensures
        remove_all(insert_all(s, idxs, items), idxs) == s,
    decreases idxs.len(),
{
    if idxs.len() > 0 {
        let rest = idxs.drop_last();
        assert forall|k: int| 0 <= k < rest.len() implies (#[trigger] rest[k]) <= s.len() + k by {
            assert(rest[k] == idxs[k]);
        }
        lemma_insert_all_len(s, rest, items.drop_last());
        lemma_remove_all_insert_all(s, rest, items.drop_last());
        let grown = insert_all(s, rest, items.drop_last());
        assert(grown.insert(idxs.last() as int, items.last()).remove(idxs.last() as int)
            =~= grown);
    }
}

/// Mapping each item commutes with taking items out.
pub proof fn lemma_map_remove_all<T, U>(s: Seq<T>, idxs: Seq<usize>, f: spec_fn(T) -> U)
    requires
        indices_within(idxs, 0, s.len() as int),
    ensures
        remove_all(s.map_values(f), idxs) == remove_all(s, idxs).map_values(f),
        pick(s.map_values(f), idxs) == pick(s, idxs).map_values(f),
    decreases idxs.len(),
{
    let rest = idxs.drop_last();
    let cut = s.remove(idxs.last() as int);
    assert(s.map_values(f).remove(idxs.last() as int) =~= cut.map_values(f));
    if rest.len() > 0 {
        assert(rest.last() == idxs[idxs.len() - 2]);
        lemma_map_remove_all(cut, rest, f);
    } else {
        assert(remove_all(cut, rest) == cut);
        assert(remove_all(cut.map_values(f), rest) == cut.map_values(f));
    }
    assert forall|k: int| 0 <= k < idxs.len() implies 0 <= (#[trigger] idxs[k]) < s.len() by {
        if k < idxs.len() - 1 {
            assert(idxs[k] < idxs[idxs.len() - 1]);
        }
    }
    assert(pick(s.map_values(f), idxs) =~= pick(s, idxs).map_values(f));
}

/// Mapping each item commutes with putting items in.
pub proof fn lemma_map_insert_all<T, U>(
    s: Seq<T>,
    idxs: Seq<usize>,
    items: Seq<T>,
    f: spec_fn(T) -> U,
)
    requires
        idxs.len() == items.len(),
        insertable(idxs, s.len() as int),
    ensures
        insert_all(s.map_values(f), idxs, items.map_values(f)) == insert_all(
            s,
            idxs,
            items,
        ).map_values(f),
    decreases idxs.len(),
{
    if idxs.len() > 0 {
        let rest = idxs.drop_last();
        assert forall|k: int| 0 <= k < rest.len() implies (#[trigger] rest[k]) <= s.len() + k by {
            assert(rest[k] == idxs[k]);
        }
        lemma_insert_all_len(s, rest, items.drop_last());
        lemma_map_insert_all(s, rest, items.drop_last(), f);
        assert(items.map_values(f).drop_last() =~= items.drop_last().map_values(f));
        let grown = insert_all(s, rest, items.drop_last());
        assert(grown.map_values(f).insert(idxs.last() as int, f(items.last()))
            =~= grown.insert(idxs.last() as int, items.last()).map_values(f));
    }
}

/// What holds of every item still holds of those that are left.
pub proof fn lemma_remove_all_keeps<T>(s: Seq<T>, idxs: Seq<usize>, p: spec_fn(T) -> bool)
    requires
        indices_within(idxs, 0, s.len() as int),
        forall|i: int| 0 <= i < s.len() ==> p(#[trigger] s[i]),
    ensures
        forall|i: int|
            0 <= i < remove_all(s, idxs).len() ==> p(#[trigger] remove_all(s, idxs)[i]),
    decreases idxs.len(),
{
    let rest = idxs.drop_last();
    let cut = s.remove(idxs.last() as int);
    assert forall|i: int| 0 <= i < cut.len() implies p(#[trigger] cut[i]) by {
        if i < idxs.last() {
            assert(cut[i] == s[i]);
        } else {
            assert(cut[i] == s[i + 1]);
        }
    }
    assert(cut.len() == s.len() - 1);
    if rest.len() > 0 {
        assert(rest.last() == idxs[idxs.len() - 2]);
        lemma_remove_all_keeps(cut, rest, p);
        assert(remove_all(s, idxs) == remove_all(cut, rest));
        assert forall|i: int| 0 <= i < remove_all(s, idxs).len() implies p(
            #[trigger] remove_all(s, idxs)[i],
        ) by {
            assert(p(remove_all(cut, rest)[i]));
        }
    } else {
        assert(remove_all(cut, rest) == cut);
        assert forall|i: int| 0 <= i < remove_all(s, idxs).len() implies p(
            #[trigger] remove_all(s, idxs)[i],
        ) by {
            assert(p(cut[i]));
        }
    }
}

/// What holds of every item, old and new, holds of all after the insertion.
pub proof fn lemma_insert_all_keeps<T>(
    s: Seq<T>,
    idxs: Seq<usize>,
    items: Seq<T>,
    p: spec_fn(T) -> bool,
)
    requires
        idxs.len() == items.len(),
        insertable(idxs, s.len() as int),
        forall|i: int| 0 <= i < s.len() ==> p(#[trigger] s[i]),
        forall|i: int| 0 <= i < items.len() ==> p(#[trigger] items[i]),
    ensures
        forall|i: int|
            0 <= i < insert_all(s, idxs, items).len() ==> p(
                #[trigger] insert_all(s, idxs, items)[i],
            ),
    decreases idxs.len(),
{
    if idxs.len() > 0 {
        let rest = idxs.drop_last();
        assert forall|k: int| 0 <= k < rest.len() implies (#[trigger] rest[k]) <= s.len() + k by {
            assert(rest[k] == idxs[k]);
        }
        assert forall|i: int| 0 <= i < items.drop_last().len() implies p(
            #[trigger] items.drop_last()[i],
        ) by {
            assert(items.drop_last()[i] == items[i]);
        }
        lemma_insert_all_len(s, rest, items.drop_last());
        lemma_insert_all_keeps(s, rest, items.drop_last(), p);
        let grown = insert_all(s, rest, items.drop_last());
        let at = idxs.last() as int;
        assert forall|i: int| 0 <= i < grown.len() + 1 implies p(
            #[trigger] grown.insert(at, items.last())[i],
        ) by {
            if i < at {
                assert(grown.insert(at, items.last())[i] == grown[i]);
            } else if i == at {
                assert(grown.insert(at, items.last())[i] == items[items.len() - 1]);
            } else {
                assert(grown.insert(at, items.last())[i] == grown[i - 1]);
            }
        }
    }
}

/// Insertions behind the first item leave the first item where it is.
pub proof fn lemma_insert_all_head<T>(s: Seq<T>, idxs: Seq<usize>, items: Seq<T>)
    requires
        idxs.len() == items.len(),
        s.len() > 0,
        insert_points(idxs, 1, s.len() as int),
    ensures
        insert_all(s, idxs, items)[0] == s[0],
    decreases idxs.len(),
{
    if idxs.len() > 0 {
        let rest = idxs.drop_last();
        assert forall|k: int| 0 <= k < rest.len() implies 1 <= (#[trigger] rest[k]) <= s.len()
            + k by {
            assert(rest[k] == idxs[k]);
        }
        lemma_insert_all_len(s, rest, items.drop_last());
        lemma_insert_all_head(s, rest, items.drop_last());
    }
}

/// Whether each index is a place for an insertion, none below `lo`, in a
/// sequence of length `len`.
pub fn check_insert_points(idxs: &Vec<usize>, lo: usize, len: usize) -> (ok: bool)
    ensures
        ok == insert_points(idxs@, lo as int, len as int),
{
    let mut k: usize = 0;
    while k < idxs.len()
        invariant
            0 <= k <= idxs.len(),
            forall|j: int| 0 <= j < k ==> lo <= (#[trigger] idxs[j]) <= len + j,
        decreases idxs.len() - k,
    {
        let at = idxs[k];
        if at < lo || (at > k && at - k > len) {
            assert(!(lo <= idxs[k as int] <= len + k));
            return false;
        }
        k += 1;
    }
    true
}

/// Whether the indices are a set that a sequence of length `hi` has, none
/// below `lo`.
pub fn check_indices(idxs: &Vec<usize>, lo: usize, hi: usize) -> (ok: bool)
    ensures
        ok == indices_within(idxs@, lo as int, hi as int),
{
    let n = idxs.len();
    if n == 0 || idxs[0] < lo || idxs[n - 1] >= hi {
        return false;
    }
    let mut k: usize = 1;
    while k < n
        invariant
            n == idxs.len(),
            1 <= k <= n,
            forall|i: int, j: int| 0 <= i < j < k ==> idxs[i] < idxs[j],
        decreases n - k,
    {
        if idxs[k - 1] >= idxs[k] {
            return false;
        }
        assert forall|i: int, j: int| 0 <= i < j < k + 1 implies idxs[i] < idxs[j] by {
            if j == k && i < k - 1 {
                assert(idxs[i] < idxs[k - 1]);
            }
        }
        k += 1;
    }
    true
}

/// Takes the items at the given indices out of `v` and returns them in the
/// order of the indices.
pub fn remove_indices<T>(v: &mut Vec<T>, idxs: &Vec<usize>) -> (removed: Vec<T>)
    requires
        indices_within(idxs@, 0, old(v).len() as int),
    ensures
        final(v)@ == remove_all(old(v)@, idxs@),
        removed@ == pick(old(v)@, idxs@),
{
    let n = idxs.len();
    let mut backwards: Vec<T> = Vec::new();
    let mut k: usize = n;
    assert(idxs@.take(n as int) == idxs@);
    while k > 0
        invariant
            n == idxs.len(),
            0 <= k <= n,
            increasing(idxs@),
            v.len() == old(v).len() - (n - k),
            k > 0 ==> idxs[k - 1] < v.len(),
            remove_all(old(v)@, idxs@) == remove_all(v@, idxs@.take(k as int)),
            forall|i: int| 0 <= i < v.len() && (k > 0 ==> i <= idxs[k - 1]) && (k == 0 ==> false)
                ==> v[i] == old(v)[i],
            backwards.len() == n - k,
            forall|j: int| 0 <= j < n - k ==> backwards[j] == old(v)[idxs[n - 1 - j] as int],
        decreases k,
    {
        let at = idxs[k - 1];
        assert(idxs@.take(k as int).drop_last() == idxs@.take(k - 1));
        assert(idxs@.take(k as int).last() == at);
        if k > 1 {
            assert(idxs[k - 2] < idxs[k - 1]);
        }
        let item = v.remove(at);
        backwards.push(item);
        k -= 1;
    }
    assert(idxs@.take(0) =~= Seq::<usize>::empty());
    let mut removed: Vec<T> = Vec::new();
    while backwards.len() > 0
        invariant
            n == idxs.len(),
            backwards.len() <= n,
            removed.len() == n - backwards.len(),
            forall|j: int| 0 <= j < backwards.len() ==> backwards[j] == old(v)[idxs[n - 1 - j] as int],
            forall|j: int| 0 <= j < removed.len() ==> removed[j] == old(v)[idxs[j] as int],
        decreases backwards.len(),
    {
        let item = backwards.pop().unwrap();
        removed.push(item);
    }
    assert(removed@ =~= pick(old(v)@, idxs@));
    removed
}

/// Puts `items[k]` into `v` at index `idxs[k]`, from the first to the last.
pub fn insert_indices<T>(v: &mut Vec<T>, idxs: &Vec<usize>, items: Vec<T>)
    requires
        idxs.len() == items.len(),
        insertable(idxs@, old(v).len() as int),
    ensures
        final(v)@ == insert_all(old(v)@, idxs@, items@),
{
    let n = idxs.len();
    let mut k: usize = 0;
    for item in it: items
        invariant
            n == idxs.len(),
            n == items.len(),
            it.seq() == items@,
            k == it.index(),
            insertable(idxs@, old(v).len() as int),
            v.len() == old(v).len() + k,
            v@ == insert_all(old(v)@, idxs@.take(k as int), items@.take(k as int)),
    {
        assert(idxs@.take(k + 1).drop_last() == idxs@.take(k as int));
        assert(items@.take(k + 1).drop_last() == items@.take(k as int));
        assert(idxs[k as int] <= old(v).len() + k);
        v.insert(idxs[k], item);
        k += 1;
    }
    assert(idxs@.take(n as int) == idxs@);
    assert(items@.take(n as int) == items@);
}

} // verus!
