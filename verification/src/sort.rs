//! The order of the list: a stable sort by one column, in either direction.
//!
//! A sort is described by the permutation it applies. Position `i` of the
//! sorted list holds entry `p[i]` of the list as it was, and `p` puts the
//! entries in the order of their keys, entries with equal keys in the order in
//! which they stood before. There is exactly one such permutation.

use crate::app::SortDirection;
use crate::op::{is_indexed_entry, ItemListEntry};
use crate::text::{
    chars_less,
    chars_lt,
    lemma_lt_asymmetric,
    lemma_lt_irreflexive,
    lemma_lt_total,
    lemma_lt_transitive,
    lowercase_of,
    str_eq,
    to_chars,
    to_lowercase,
};
use vstd::prelude::*;

verus! {

/// The columns that the list can be sorted by.
#[derive(Debug, Clone, Copy, PartialEq, Eq, Structural)]
pub enum SortField {
    Id,
    Title,
    UpdatedAt,
}

/// The column that a header names, if it names one.
pub open spec fn field_of_header(header: Seq<char>) -> Option<SortField> {
    if header == "id"@ {
        Some(SortField::Id)
    } else if header == "title"@ {
        Some(SortField::Title)
    } else if header == "updated_at"@ {
        Some(SortField::UpdatedAt)
    } else {
        None
    }
}

/// The column and direction that a sort by `header` and `direction` goes by:
/// a header that names no column stands for the title, ascending.
pub open spec fn effective_sort(header: Seq<char>, direction: SortDirection) -> (
    SortField,
    SortDirection,
) {
    match field_of_header(header) {
        Some(field) => (field, direction),
        None => (SortField::Title, SortDirection::Ascending),
    }
}

/// What an entry is sorted by in a column: the id and the time of the last
/// change as they are, the title without regard to case.
pub open spec fn sort_key(item: ItemListEntry, field: SortField) -> Seq<char> {
    match field {
        SortField::Id => item.id@,
        SortField::Title => lowercase_of(item.title@),
        SortField::UpdatedAt => item.updated_at@,
    }
}

/// The keys of all entries, in the order of the entries.
pub open spec fn keys_of(items: Seq<ItemListEntry>, field: SortField) -> Seq<Seq<char>> {
    Seq::new(items.len(), |i: int| sort_key(items[i], field))
}

/// A key `a` has to stand before a key `b`: it is the smaller one when sorting
/// upward, the larger one when sorting downward.
pub open spec fn before(a: Seq<char>, b: Seq<char>, direction: SortDirection) -> bool {
    match direction {
        SortDirection::Ascending => chars_lt(a, b),
        SortDirection::Descending => chars_lt(b, a),
    }
}

/// The other direction.
pub open spec fn opposite(direction: SortDirection) -> SortDirection {
    match direction {
        SortDirection::Ascending => SortDirection::Descending,
        SortDirection::Descending => SortDirection::Ascending,
    }
}

/// Entry `a` has to stand before entry `b`: by its key, or, where the keys are
/// equal, because it stood before `b` already.
pub open spec fn in_order(keys: Seq<Seq<char>>, direction: SortDirection, a: int, b: int) -> bool {
    before(keys[a], keys[b], direction) || (keys[a] == keys[b] && a < b)
}

/// `p` holds each of the numbers `0..p.len()` exactly once.
pub open spec fn is_permutation(p: Seq<int>) -> bool {
    &&& forall|i: int| 0 <= i < p.len() ==> 0 <= #[trigger] p[i] < p.len()
    &&& forall|i: int, j: int| 0 <= i < j < p.len() ==> p[i] != p[j]
    &&& forall|a: int| 0 <= a < p.len() ==> #[trigger] p.contains(a)
}

/// `p` is the permutation that sorts entries with these keys.
pub open spec fn is_sorting_permutation(
    p: Seq<int>,
    keys: Seq<Seq<char>>,
    direction: SortDirection,
) -> bool {
    &&& p.len() == keys.len()
    &&& is_permutation(p)
    &&& forall|i: int, j: int|
        0 <= i < j < p.len() ==> in_order(keys, direction, #[trigger] p[i], #[trigger] p[j])
}

/// The permutation that sorts entries with these keys.
pub open spec fn sorting_permutation(keys: Seq<Seq<char>>, direction: SortDirection) -> Seq<int> {
    choose|p: Seq<int>| is_sorting_permutation(p, keys, direction)
}

/// The sequence that holds at each position `i` the element `s[p[i]]`.
pub open spec fn permuted<T>(s: Seq<T>, p: Seq<int>) -> Seq<T> {
    Seq::new(p.len(), |i: int| s[p[i]])
}

/// `out` holds the entries of `items` in the order of their keys, entries with
/// equal keys in the order that they have in `items`.
pub open spec fn is_stable_sort(
    out: Seq<ItemListEntry>,
    items: Seq<ItemListEntry>,
    field: SortField,
    direction: SortDirection,
) -> bool {
    exists|p: Seq<int>|
        #[trigger] is_sorting_permutation(p, keys_of(items, field), direction) && out == permuted(
            items,
            p,
        )
}

/// The entries of `items`, sorted by a column in a direction.
pub open spec fn stable_sorted(
    items: Seq<ItemListEntry>,
    field: SortField,
    direction: SortDirection,
) -> Seq<ItemListEntry> {
    permuted(items, sorting_permutation(keys_of(items, field), direction))
}

/// `out` holds, in sorted order, the entries of `items`, each with its search
/// term derived from its title: position `i` of `out` holds such a copy of the
/// entry that the sort of `items` puts at position `i`.
pub open spec fn is_sorted_indexing(
    out: Seq<ItemListEntry>,
    items: Seq<ItemListEntry>,
    field: SortField,
    direction: SortDirection,
) -> bool {
    let p = sorting_permutation(keys_of(items, field), direction);
    &&& out.len() == items.len()
    &&& forall|i: int| 0 <= i < out.len() ==> is_indexed_entry(items[p[i]], #[trigger] out[i])
}

/// No two positions of `s` are out of order: the later one never has a key
/// that has to stand before the key of the earlier one.
pub open spec fn is_ordered(
    s: Seq<ItemListEntry>,
    field: SortField,
    direction: SortDirection,
) -> bool {
    forall|i: int, j: int|
        0 <= i < j < s.len() ==> !before(
            sort_key(#[trigger] s[j], field),
            sort_key(#[trigger] s[i], field),
            direction,
        )
}

/// No two entries of `s` have the same key.
pub open spec fn has_no_ties(s: Seq<ItemListEntry>, field: SortField) -> bool {
    forall|i: int, j: int|
        0 <= i < j < s.len() ==> sort_key(#[trigger] s[i], field) != sort_key(
            #[trigger] s[j],
            field,
        )
}

proof fn lemma_before_strict(a: Seq<char>, b: Seq<char>, direction: SortDirection)
    ensures
        !before(a, a, direction),
        !(before(a, b, direction) && before(b, a, direction)),
{
    lemma_lt_irreflexive(a);
    if chars_lt(a, b) {
        lemma_lt_asymmetric(a, b);
    }
}

proof fn lemma_before_transitive(
    a: Seq<char>,
    b: Seq<char>,
    c: Seq<char>,
    direction: SortDirection,
)
    requires
        before(a, b, direction),
        before(b, c, direction),
    ensures
        before(a, c, direction),
{
    match direction {
        SortDirection::Ascending => lemma_lt_transitive(a, b, c),
        SortDirection::Descending => lemma_lt_transitive(c, b, a),
    }
}

proof fn lemma_before_total(a: Seq<char>, b: Seq<char>, direction: SortDirection)
    requires
        a != b,
    ensures
        before(a, b, direction) || before(b, a, direction),
{
    lemma_lt_total(a, b);
}

proof fn lemma_in_order_asymmetric(
    keys: Seq<Seq<char>>,
    direction: SortDirection,
    a: int,
    b: int,
)
    ensures
        !(in_order(keys, direction, a, b) && in_order(keys, direction, b, a)),
{
    lemma_before_strict(keys[a], keys[b], direction);
    lemma_before_strict(keys[b], keys[a], direction);
}

proof fn lemma_same_prefix(
    p: Seq<int>,
    q: Seq<int>,
    keys: Seq<Seq<char>>,
    direction: SortDirection,
    n: int,
)
    requires
        is_sorting_permutation(p, keys, direction),
        is_sorting_permutation(q, keys, direction),
        0 <= n <= keys.len(),
    ensures
        forall|k: int| 0 <= k < n ==> p[k] == q[k],
    decreases n,
{
    if n > 0 {
        lemma_same_prefix(p, q, keys, direction, n - 1);
        let i = n - 1;
        let a = p[i];
        let b = q[i];
        if a != b {
            assert(q.contains(a));
            let j = choose|j: int| 0 <= j < q.len() && q[j] == a;
            if j < i {
                assert(p[j] == q[j]);
            }
            assert(in_order(keys, direction, q[i], q[j]));
            assert(p.contains(b));
            let h = choose|h: int| 0 <= h < p.len() && p[h] == b;
            if h < i {
                assert(p[h] == q[h]);
            }
            assert(in_order(keys, direction, p[i], p[h]));
            lemma_in_order_asymmetric(keys, direction, a, b);
        }
    }
}

/// Entries with given keys are sorted by one permutation only.
pub proof fn lemma_sorting_permutation_unique(
    p: Seq<int>,
    q: Seq<int>,
    keys: Seq<Seq<char>>,
    direction: SortDirection,
)
    requires
        is_sorting_permutation(p, keys, direction),
        is_sorting_permutation(q, keys, direction),
    ensures
        p == q,
{
    lemma_same_prefix(p, q, keys, direction, keys.len() as int);
    assert(p =~= q);
}

proof fn lemma_insert_keeps_sorted(
    p: Seq<int>,
    keys: Seq<Seq<char>>,
    direction: SortDirection,
    k: int,
)
    requires
        keys.len() >= 1,
        is_sorting_permutation(p, keys.drop_last(), direction),
        0 <= k <= p.len(),
        forall|j: int| k <= j < p.len() ==> before(keys.last(), keys[#[trigger] p[j]], direction),
        k > 0 ==> !before(keys.last(), keys[p[k - 1]], direction),
    ensures
        is_sorting_permutation(p.insert(k, keys.len() - 1), keys, direction),
{
    let x = keys.len() - 1;
    let q = p.insert(k, x);
    let short = keys.drop_last();
    assert forall|i: int| 0 <= i < q.len() implies 0 <= #[trigger] q[i] < q.len() by {
        if i < k {
            assert(q[i] == p[i]);
        } else if i > k {
            assert(q[i] == p[i - 1]);
        }
    }
    assert forall|i: int, j: int| 0 <= i < j < q.len() implies q[i] != q[j] by {
        let pi = if i < k {
            p[i]
        } else if i == k {
            x
        } else {
            p[i - 1]
        };
        let pj = if j < k {
            p[j]
        } else if j == k {
            x
        } else {
            p[j - 1]
        };
        assert(q[i] == pi && q[j] == pj);
    }
    assert forall|a: int| 0 <= a < q.len() implies #[trigger] q.contains(a) by {
        if a == x {
            assert(q[k] == a);
        } else {
            assert(p.contains(a));
            let i = choose|i: int| 0 <= i < p.len() && p[i] == a;
            if i < k {
                assert(q[i] == a);
            } else {
                assert(q[i + 1] == a);
            }
        }
    }
    assert forall|i: int, j: int| 0 <= i < j < q.len() implies in_order(
        keys,
        direction,
        #[trigger] q[i],
        #[trigger] q[j],
    ) by {
        if i == k {
            assert(q[j] == p[j - 1]);
            assert(before(keys.last(), keys[p[j - 1]], direction));
        } else if j == k {
            assert(q[i] == p[i]);
            let last = p[k - 1];
            assert(0 <= p[i] < x && 0 <= last < x);
            if keys[last] != keys[x] {
                lemma_before_total(keys[last], keys[x], direction);
            }
            if i < k - 1 {
                assert(in_order(short, direction, p[i], p[k - 1]));
                assert(short[p[i]] == keys[p[i]] && short[last] == keys[last]);
                if before(keys[p[i]], keys[last], direction) && before(
                    keys[last],
                    keys[x],
                    direction,
                ) {
                    lemma_before_transitive(keys[p[i]], keys[last], keys[x], direction);
                }
            }
        } else {
            let i0 = if i < k {
                i
            } else {
                i - 1
            };
            let j0 = if j < k {
                j
            } else {
                j - 1
            };
            assert(q[i] == p[i0] && q[j] == p[j0]);
            assert(in_order(short, direction, p[i0], p[j0]));
            assert(0 <= p[i0] < x && 0 <= p[j0] < x);
            assert(short[p[i0]] == keys[p[i0]] && short[p[j0]] == keys[p[j0]]);
        }
    }
}

proof fn lemma_find_slot(
    p: Seq<int>,
    keys: Seq<Seq<char>>,
    direction: SortDirection,
    k: int,
) -> (r: int)
    requires
        keys.len() >= 1,
        0 <= k <= p.len(),
        forall|j: int| k <= j < p.len() ==> before(keys.last(), keys[#[trigger] p[j]], direction),
    ensures
        0 <= r <= k,
        forall|j: int| r <= j < p.len() ==> before(keys.last(), keys[#[trigger] p[j]], direction),
        r > 0 ==> !before(keys.last(), keys[p[r - 1]], direction),
    decreases k,
{
    if k > 0 && before(keys.last(), keys[p[k - 1]], direction) {
        lemma_find_slot(p, keys, direction, k - 1)
    } else {
        k
    }
}

/// Entries with any keys are sorted by some permutation, so
/// `sorting_permutation` sorts them.
pub proof fn lemma_sorting_permutation_exists(keys: Seq<Seq<char>>, direction: SortDirection)
    ensures
        is_sorting_permutation(sorting_permutation(keys, direction), keys, direction),
    decreases keys.len(),
{
    if keys.len() == 0 {
        assert(is_sorting_permutation(Seq::<int>::empty(), keys, direction));
    } else {
        let short = keys.drop_last();
        lemma_sorting_permutation_exists(short, direction);
        let p = sorting_permutation(short, direction);
        let k = lemma_find_slot(p, keys, direction, p.len() as int);
        lemma_insert_keeps_sorted(p, keys, direction, k);
        assert(is_sorting_permutation(p.insert(k, keys.len() - 1), keys, direction));
    }
}

/// `stable_sorted` is a stable sort, and the only one: it holds the entries of
/// `items`, each as often as `items` does, in the order of their keys, with
/// equal keys in the order that they had.
pub proof fn lemma_stable_sorted_is_the_stable_sort(
    out: Seq<ItemListEntry>,
    items: Seq<ItemListEntry>,
    field: SortField,
    direction: SortDirection,
)
    ensures
        is_stable_sort(stable_sorted(items, field, direction), items, field, direction),
        is_stable_sort(out, items, field, direction) ==> out == stable_sorted(
            items,
            field,
            direction,
        ),
        stable_sorted(items, field, direction).len() == items.len(),
        is_ordered(stable_sorted(items, field, direction), field, direction),
{
    let keys = keys_of(items, field);
    lemma_sorting_permutation_exists(keys, direction);
    let q = sorting_permutation(keys, direction);
    if is_stable_sort(out, items, field, direction) {
        let p = choose|p: Seq<int>|
            #[trigger] is_sorting_permutation(p, keys, direction) && out == permuted(items, p);
        lemma_sorting_permutation_unique(p, q, keys, direction);
    }
    let sorted = stable_sorted(items, field, direction);
    assert forall|i: int, j: int| 0 <= i < j < sorted.len() implies !before(
        sort_key(#[trigger] sorted[j], field),
        sort_key(#[trigger] sorted[i], field),
        direction,
    ) by {
        assert(in_order(keys, direction, q[i], q[j]));
        lemma_before_strict(keys[q[i]], keys[q[j]], direction);
    }
}

/// Where no two entries have the same key, the sorted list is in strict
/// order: of any two positions the earlier one holds the key that has to stand
/// before the other.
pub proof fn lemma_sort_without_ties_is_strict(
    items: Seq<ItemListEntry>,
    field: SortField,
    direction: SortDirection,
)
    requires
        has_no_ties(items, field),
    ensures
        forall|i: int, j: int|
            0 <= i < j < items.len() ==> before(
                sort_key(#[trigger] stable_sorted(items, field, direction)[i], field),
                sort_key(#[trigger] stable_sorted(items, field, direction)[j], field),
                direction,
            ),
{
    let keys = keys_of(items, field);
    lemma_sorting_permutation_exists(keys, direction);
    let p = sorting_permutation(keys, direction);
    let sorted = stable_sorted(items, field, direction);
    assert forall|i: int, j: int| 0 <= i < j < items.len() implies before(
        sort_key(#[trigger] sorted[i], field),
        sort_key(#[trigger] sorted[j], field),
        direction,
    ) by {
        assert(in_order(keys, direction, p[i], p[j]));
        if p[i] < p[j] {
            assert(sort_key(items[p[i]], field) != sort_key(items[p[j]], field));
        } else {
            assert(sort_key(items[p[j]], field) != sort_key(items[p[i]], field));
        }
    }
}

/// A list that is in order already stays as it is when it is sorted, so
/// sorting twice gives what sorting once gives.
pub proof fn lemma_sort_is_idempotent(
    items: Seq<ItemListEntry>,
    field: SortField,
    direction: SortDirection,
)
    ensures
        is_ordered(items, field, direction) ==> stable_sorted(items, field, direction) == items,
        stable_sorted(stable_sorted(items, field, direction), field, direction) == stable_sorted(
            items,
            field,
            direction,
        ),
{
    lemma_stable_sorted_is_the_stable_sort(items, items, field, direction);
    if is_ordered(items, field, direction) {
        lemma_ordered_is_fixed(items, field, direction);
    }
    let once = stable_sorted(items, field, direction);
    lemma_ordered_is_fixed(once, field, direction);
}

proof fn lemma_ordered_is_fixed(
    items: Seq<ItemListEntry>,
    field: SortField,
    direction: SortDirection,
)
    requires
        is_ordered(items, field, direction),
    ensures
        stable_sorted(items, field, direction) == items,
{
    let keys = keys_of(items, field);
    let id = Seq::new(items.len(), |i: int| i);
    assert forall|a: int| 0 <= a < id.len() implies #[trigger] id.contains(a) by {
        assert(id[a] == a);
    }
    assert forall|i: int, j: int| 0 <= i < j < id.len() implies in_order(
        keys,
        direction,
        #[trigger] id[i],
        #[trigger] id[j],
    ) by {
        assert(!before(sort_key(items[j], field), sort_key(items[i], field), direction));
        if keys[i] != keys[j] {
            lemma_before_total(keys[i], keys[j], direction);
        }
    }
    assert(is_sorting_permutation(id, keys, direction));
    assert(permuted(items, id) =~= items);
    lemma_stable_sorted_is_the_stable_sort(items, items, field, direction);
}

/// Where no two entries have the same key, sorting downward what was sorted
/// upward gives exactly the reverse, and the other way round.
pub proof fn lemma_opposite_sort_reverses(
    items: Seq<ItemListEntry>,
    field: SortField,
    direction: SortDirection,
)
    requires
        has_no_ties(items, field),
    ensures
        stable_sorted(
            stable_sorted(items, field, direction),
            field,
            opposite(direction),
        ) == stable_sorted(items, field, direction).reverse(),
        stable_sorted(items, field, opposite(direction)) == stable_sorted(
            items,
            field,
            direction,
        ).reverse(),
{
    let other = opposite(direction);
    let keys = keys_of(items, field);
    let sorted = stable_sorted(items, field, direction);
    let n = sorted.len() as int;
    lemma_stable_sorted_is_the_stable_sort(sorted, items, field, direction);
    let p = sorting_permutation(keys, direction);
    lemma_sorting_permutation_exists(keys, direction);
    // The reverse of the sorted list, as a sort of the sorted list.
    let skeys = keys_of(sorted, field);
    let r = Seq::new(sorted.len(), |i: int| n - 1 - i);
    assert forall|a: int| 0 <= a < r.len() implies #[trigger] r.contains(a) by {
        assert(r[n - 1 - a] == a);
    }
    assert forall|i: int, j: int| 0 <= i < j < r.len() implies in_order(
        skeys,
        other,
        #[trigger] r[i],
        #[trigger] r[j],
    ) by {
        let hi = n - 1 - i;
        let lo = n - 1 - j;
        assert(in_order(keys, direction, p[lo], p[hi]));
        assert(keys[p[lo]] != keys[p[hi]]) by {
            if p[lo] < p[hi] {
                assert(sort_key(items[p[lo]], field) != sort_key(items[p[hi]], field));
            } else {
                assert(sort_key(items[p[hi]], field) != sort_key(items[p[lo]], field));
            }
        }
        assert(skeys[hi] == keys[p[hi]] && skeys[lo] == keys[p[lo]]);
    }
    assert(is_sorting_permutation(r, skeys, other));
    assert(permuted(sorted, r) =~= sorted.reverse());
    lemma_stable_sorted_is_the_stable_sort(sorted.reverse(), sorted, field, other);
    // The reverse of the sorted list, as a sort of the list itself.
    let pr = Seq::new(sorted.len(), |i: int| p[n - 1 - i]);
    assert forall|a: int| 0 <= a < pr.len() implies #[trigger] pr.contains(a) by {
        assert(p.contains(a));
        let i = choose|i: int| 0 <= i < p.len() && p[i] == a;
        assert(pr[n - 1 - i] == a);
    }
    assert forall|i: int, j: int| 0 <= i < j < pr.len() implies in_order(
        keys,
        other,
        #[trigger] pr[i],
        #[trigger] pr[j],
    ) by {
        let hi = n - 1 - i;
        let lo = n - 1 - j;
        assert(in_order(keys, direction, p[lo], p[hi]));
        assert(keys[p[lo]] != keys[p[hi]]) by {
            if p[lo] < p[hi] {
                assert(sort_key(items[p[lo]], field) != sort_key(items[p[hi]], field));
            } else {
                assert(sort_key(items[p[hi]], field) != sort_key(items[p[lo]], field));
            }
        }
    }
    assert(is_sorting_permutation(pr, keys, other));
    assert(permuted(items, pr) =~= sorted.reverse());
    lemma_stable_sorted_is_the_stable_sort(sorted.reverse(), items, field, other);
}

/// The column that a header names, if it names one.
pub fn field_of(header: &str) -> (r: Option<SortField>)
    ensures
        r == field_of_header(header@),
{
    if str_eq(header, "id") {
        Some(SortField::Id)
    } else if str_eq(header, "title") {
        Some(SortField::Title)
    } else if str_eq(header, "updated_at") {
        Some(SortField::UpdatedAt)
    } else {
        None
    }
}

/// The key of an entry in a column.
pub fn key_of(item: &ItemListEntry, field: SortField) -> (key: Vec<char>)
    ensures
        key@ == sort_key(*item, field),
{
    match field {
        SortField::Id => to_chars(item.id.as_str()),
        SortField::Title => {
            let lower = to_lowercase(item.title.as_str());
            to_chars(lower.as_str())
        },
        SortField::UpdatedAt => to_chars(item.updated_at.as_str()),
    }
}

/// Whether a key has to stand before another.
pub fn stands_before(a: &Vec<char>, b: &Vec<char>, direction: SortDirection) -> (r: bool)
    ensures
        r == before(a@, b@, direction),
{
    match direction {
        SortDirection::Ascending => chars_less(a, b),
        SortDirection::Descending => chars_less(b, a),
    }
}

/// Sorts the entries by a column in a direction. The sort is stable: entries
/// with equal keys keep the order that they had.
pub fn sort_items(items: Vec<ItemListEntry>, field: SortField, direction: SortDirection) -> (out:
    Vec<ItemListEntry>)
    ensures
        out@ == stable_sorted(items@, field, direction),
        is_stable_sort(out@, items@, field, direction),
{
    let ghost keys = keys_of(items@, field);
    let ghost mut p: Seq<int> = Seq::empty();
    let mut out: Vec<ItemListEntry> = Vec::new();
    let mut out_keys: Vec<Vec<char>> = Vec::new();
    assert(keys.take(0) =~= Seq::<Seq<char>>::empty());
    for item in it: items
        invariant
            it.seq() == items@,
            keys == keys_of(items@, field),
            p.len() == it.index(),
            out@.len() == it.index(),
            out_keys@.len() == it.index(),
            is_sorting_permutation(p, keys.take(it.index() as int), direction),
            out@ == permuted(items@, p),
            forall|i: int| 0 <= i < out_keys@.len() ==> (#[trigger] out_keys@[i])@ == keys[p[i]],
    {
        let ghost idx = it.index() as int;
        let key = key_of(&item, field);
        assert(key@ == keys[idx]);
        let mut k: usize = out.len();
        while k > 0
            invariant
                0 <= k <= out_keys@.len(),
                out_keys@.len() == p.len(),
                forall|j: int| k <= j < out_keys@.len() ==> before(key@, out_keys@[j]@, direction),
            ensures
                0 <= k <= out_keys@.len(),
                forall|j: int| k <= j < out_keys@.len() ==> before(key@, out_keys@[j]@, direction),
                k > 0 ==> !before(key@, out_keys@[k - 1]@, direction),
            decreases k,
        {
            if !stands_before(&key, &out_keys[k - 1], direction) {
                break;
            }
            k -= 1;
        }
        proof {
            let upto = keys.take(idx + 1);
            assert(upto.drop_last() =~= keys.take(idx));
            assert(upto.last() == key@);
            assert forall|j: int| k <= j < p.len() implies before(
                upto.last(),
                upto[#[trigger] p[j]],
                direction,
            ) by {
                assert(out_keys@[j]@ == keys[p[j]]);
            }
            if k > 0 {
                assert(out_keys@[k - 1]@ == keys[p[k - 1]]);
            }
            lemma_insert_keeps_sorted(p, upto, direction, k as int);
            assert(permuted(items@, p.insert(k as int, idx)) =~= out@.insert(k as int, item));
            p = p.insert(k as int, idx);
        }
        out.insert(k, item);
        out_keys.insert(k, key);
    }
    proof {
        assert(keys.take(items@.len() as int) =~= keys);
        lemma_stable_sorted_is_the_stable_sort(out@, items@, field, direction);
    }
    out
}

} // verus!
