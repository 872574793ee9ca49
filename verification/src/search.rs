//! The search: the positions of the entries whose search term holds a
//! pattern.

use crate::op::ItemListEntry;
use crate::text::{contains, is_infix, to_chars};
use vstd::prelude::*;

verus! {

/// Entry `i` of `items` matches the pattern: its search term holds it.
pub open spec fn is_match(items: Seq<ItemListEntry>, pattern: Seq<char>, i: int) -> bool {
    is_infix(items[i].index_term@, pattern)
}

/// The positions below `n` of the entries that match, in rising order.
pub open spec fn matches_upto(items: Seq<ItemListEntry>, pattern: Seq<char>, n: int) -> Seq<usize>
    decreases n,
{
    if n <= 0 {
        Seq::empty()
    } else if is_match(items, pattern, n - 1) {
        matches_upto(items, pattern, n - 1).push((n - 1) as usize)
    } else {
        matches_upto(items, pattern, n - 1)
    }
}

/// The positions of the entries that match, in rising order.
pub open spec fn matches_of(items: Seq<ItemListEntry>, pattern: Seq<char>) -> Seq<usize> {
    matches_upto(items, pattern, items.len() as int)
}

/// `found` holds the positions below `n` of the entries that match, each
/// once, in rising order, and no other position.
pub open spec fn holds_matches(
    found: Seq<usize>,
    items: Seq<ItemListEntry>,
    pattern: Seq<char>,
    n: int,
) -> bool {
    &&& forall|k: int|
        0 <= k < found.len() ==> (#[trigger] found[k]) < n && is_match(
            items,
            pattern,
            found[k] as int,
        )
    &&& forall|j: int, k: int| 0 <= j < k < found.len() ==> found[j] < found[k]
    &&& forall|i: int| 0 <= i < n && is_match(items, pattern, i) ==> found.contains(i as usize)
}

proof fn lemma_matches_upto(items: Seq<ItemListEntry>, pattern: Seq<char>, n: int)
    requires
        0 <= n <= items.len() <= usize::MAX,
    ensures
        matches_upto(items, pattern, n).len() <= n,
        holds_matches(matches_upto(items, pattern, n), items, pattern, n),
    decreases n,
{
    if n > 0 {
        lemma_matches_upto(items, pattern, n - 1);
        let short = matches_upto(items, pattern, n - 1);
        let full = matches_upto(items, pattern, n);
        assert forall|i: int| 0 <= i < n && is_match(items, pattern, i) implies full.contains(
            i as usize,
        ) by {
            if i == n - 1 {
                assert(full[full.len() - 1] == i as usize);
            } else {
                assert(short.contains(i as usize));
                let k = choose|k: int| 0 <= k < short.len() && short[k] == i as usize;
                assert(full[k] == i as usize);
            }
        }
    }
}

/// What a search finds: positions inside the list, in strictly rising order,
/// each of an entry that matches, and every entry that matches among them.
pub proof fn lemma_matches_of(items: Seq<ItemListEntry>, pattern: Seq<char>)
    requires
        items.len() <= usize::MAX,
    ensures
        matches_of(items, pattern).len() <= items.len(),
        holds_matches(matches_of(items, pattern), items, pattern, items.len() as int),
{
    lemma_matches_upto(items, pattern, items.len() as int);
}

proof fn lemma_empty_pattern_upto(items: Seq<ItemListEntry>, n: int)
    requires
        0 <= n <= items.len() <= usize::MAX,
    ensures
        matches_upto(items, Seq::empty(), n) == Seq::new(n as nat, |i: int| i as usize),
    decreases n,
{
    if n > 0 {
        lemma_empty_pattern_upto(items, n - 1);
        assert(crate::text::occurs_at(items[n - 1].index_term@, Seq::empty(), 0));
        assert(matches_upto(items, Seq::empty(), n) =~= Seq::new(n as nat, |i: int| i as usize));
    } else {
        assert(matches_upto(items, Seq::empty(), n) =~= Seq::new(n as nat, |i: int| i as usize));
    }
}

/// The empty pattern matches every entry: a search for it finds all positions.
pub proof fn lemma_empty_pattern_matches_all(items: Seq<ItemListEntry>)
    requires
        items.len() <= usize::MAX,
    ensures
        matches_of(items, Seq::empty()) == Seq::new(items.len(), |i: int| i as usize),
{
    lemma_empty_pattern_upto(items, items.len() as int);
}

/// Finds the positions of the entries whose search term holds the pattern, in
/// rising order. The empty pattern finds every position.
pub fn compute_matches(items: &Vec<ItemListEntry>, pattern: &str) -> (found: Vec<usize>)
    ensures
        found@ == matches_of(items@, pattern@),
        holds_matches(found@, items@, pattern@, items@.len() as int),
        pattern@.len() == 0 ==> found@ == Seq::new(items@.len(), |i: int| i as usize),
{
    let needle = to_chars(pattern);
    let mut found: Vec<usize> = Vec::new();
    let mut i: usize = 0;
    while i < items.len()
        invariant
            i <= items@.len(),
            needle@ == pattern@,
            found@ == matches_upto(items@, pattern@, i as int),
        decreases items@.len() - i,
    {
        if contains(&items[i].index_term, &needle) {
            found.push(i);
        }
        i += 1;
    }
    proof {
        lemma_matches_of(items@, pattern@);
        if pattern@.len() == 0 {
            assert(pattern@ =~= Seq::<char>::empty());
            lemma_empty_pattern_matches_all(items@);
        }
    }
    found
}

} // verus!
