//! Cursor arithmetic over a list whose length is only known at run time.
//!
//! Two policies are offered. Under the wrapping policy the cursor goes round:
//! one step past the last entry is the first entry. It serves single steps and
//! the cycling through search matches, and every move can be taken back. Under
//! the clamping policy the cursor stops at the first and the last entry. It
//! serves jumps to an absolute position and jumps by a page, and a move that
//! was stopped at a boundary cannot be taken back.

use vstd::arithmetic::div_mod::{
    lemma_add_mod_noop,
    lemma_add_mod_noop_right,
    lemma_mod_add_multiples_vanish,
    lemma_mod_bound,
    lemma_small_mod,
    lemma_sub_mod_noop,
};
use vstd::prelude::*;

verus! {

/// The index after `idx` in a list of `max` entries, going back to the first
/// entry after the last one.
pub open spec fn inc_or_wrap_spec(idx: int, max: int) -> int {
    if max == 0 || idx >= max - 1 {
        0
    } else {
        idx + 1
    }
}

/// The index before `idx` in a list of `max` entries, going to the last entry
/// from the first one.
pub open spec fn dec_or_wrap_spec(idx: int, max: int) -> int {
    if max == 0 {
        0
    } else if idx == 0 {
        max - 1
    } else {
        idx - 1
    }
}

/// Where the cursor stands after `n` wrapping steps forward from `current` in
/// a list of `length` entries.
pub open spec fn advance_spec(current: int, n: int, length: int) -> int {
    if length <= 0 {
        0
    } else {
        (current + n) % length
    }
}

/// Where the cursor stands after `n` wrapping steps backward from `current` in
/// a list of `length` entries.
pub open spec fn retreat_spec(current: int, n: int, length: int) -> int {
    if length <= 0 {
        0
    } else {
        (current - n) % length
    }
}

/// The index of the last entry of a list of `length` entries, 0 for the empty
/// list.
pub open spec fn max_index_spec(length: int) -> int {
    if length <= 0 {
        0
    } else {
        length - 1
    }
}

/// The position in `0..=max_index` nearest to `i`.
pub open spec fn clamp_index_spec(i: int, max_index: int) -> int {
    if i < 0 {
        0
    } else if i > max_index {
        max_index
    } else {
        i
    }
}

/// Where the cursor stands after a move by `n` entries forward that stops at
/// the last entry.
pub open spec fn advance_clamped_spec(current: int, n: int, length: int) -> int {
    clamp_index_spec(current + n, max_index_spec(length))
}

/// Where the cursor stands after a move by `n` entries backward that stops at
/// the first entry.
pub open spec fn retreat_clamped_spec(current: int, n: int, length: int) -> int {
    clamp_index_spec(current - n, max_index_spec(length))
}

/// The position that a cursor stands for: `None` counts as the first entry.
pub open spec fn cursor_spec(current: Option<usize>) -> int {
    match current {
        Some(i) => i as int,
        None => 0,
    }
}

/// One step forward with wrap-around. An empty list gives 0.
pub fn inc_or_wrap(idx: usize, max: usize) -> (r: usize)
    ensures
        r == inc_or_wrap_spec(idx as int, max as int),
        max == 0 ==> r == 0,
        max > 0 ==> r < max,
{
    if max == 0 || idx >= max - 1 {
        0
    } else {
        idx + 1
    }
}

/// One step backward with wrap-around. An empty list gives 0.
pub fn dec_or_wrap(idx: usize, max: usize) -> (r: usize)
    ensures
        r == dec_or_wrap_spec(idx as int, max as int),
        max == 0 ==> r == 0,
        max > 0 && idx < max ==> r < max,
{
    if max == 0 {
        0
    } else if idx == 0 {
        max - 1
    } else {
        idx - 1
    }
}

/// `n` steps forward with wrap-around, from the first entry where nothing is
/// selected yet. An empty list gives 0.
pub fn advance(current: Option<usize>, n: usize, length: usize) -> (r: usize)
    ensures
        r == advance_spec(cursor_spec(current), n as int, length as int),
        length == 0 ==> r == 0,
        length > 0 ==> r < length,
{
    if length == 0 {
        return 0;
    }
    let cur: usize = match current {
        Some(i) => i,
        None => 0,
    };
    let a: usize = cur % length;
    let b: usize = n % length;
    proof {
        lemma_add_mod_noop(cur as int, n as int, length as int);
        lemma_mod_bound(cur as int + n as int, length as int);
        if a + b >= length {
            lemma_mod_add_multiples_vanish(a + b - length, length as int);
            lemma_small_mod((a + b - length) as nat, length as nat);
        } else {
            lemma_small_mod((a + b) as nat, length as nat);
        }
    }
    if a >= length - b {
        a - (length - b)
    } else {
        a + b
    }
}

/// `n` steps backward with wrap-around, from the first entry where nothing is
/// selected yet. An empty list gives 0.
pub fn retreat(current: Option<usize>, n: usize, length: usize) -> (r: usize)
    ensures
        r == retreat_spec(cursor_spec(current), n as int, length as int),
        length == 0 ==> r == 0,
        length > 0 ==> r < length,
{
    if length == 0 {
        return 0;
    }
    let cur: usize = match current {
        Some(i) => i,
        None => 0,
    };
    let a: usize = cur % length;
    let b: usize = n % length;
    proof {
        lemma_sub_mod_noop(cur as int, n as int, length as int);
        lemma_mod_bound(cur as int - n as int, length as int);
        if a >= b {
            lemma_small_mod((a - b) as nat, length as nat);
        } else {
            lemma_mod_add_multiples_vanish(a - b, length as int);
            lemma_small_mod((length + a - b) as nat, length as nat);
        }
    }
    if a >= b {
        a - b
    } else {
        length - (b - a)
    }
}

/// The index of the last entry, 0 for the empty list.
pub fn max_index(length: usize) -> (r: usize)
    ensures
        r == max_index_spec(length as int),
{
    if length == 0 {
        0
    } else {
        length - 1
    }
}

/// The position in `0..=max_index` nearest to `i`.
pub fn clamp_index(i: i32, max_index: usize) -> (r: usize)
    ensures
        r == clamp_index_spec(i as int, max_index as int),
        r <= max_index,
{
    if i < 0 {
        0
    } else {
        let iu: usize = i as usize;
        if iu > max_index {
            max_index
        } else {
            iu
        }
    }
}

/// A move by `n` entries forward that stops at the last entry. An empty list
/// gives 0.
pub fn advance_clamped(current: Option<usize>, n: usize, length: usize) -> (r: usize)
    ensures
        r == advance_clamped_spec(cursor_spec(current), n as int, length as int),
        length == 0 ==> r == 0,
        length > 0 ==> r < length,
{
    let last = max_index(length);
    let cur: usize = match current {
        Some(i) => i,
        None => 0,
    };
    if cur > last || n > last - cur {
        last
    } else {
        cur + n
    }
}

/// A move by `n` entries backward that stops at the first entry. An empty list
/// gives 0.
pub fn retreat_clamped(current: Option<usize>, n: usize, length: usize) -> (r: usize)
    ensures
        r == retreat_clamped_spec(cursor_spec(current), n as int, length as int),
        length == 0 ==> r == 0,
        length > 0 ==> r < length,
{
    let last = max_index(length);
    let cur: usize = match current {
        Some(i) => i,
        None => 0,
    };
    if cur < n {
        0
    } else if cur - n > last {
        last
    } else {
        cur - n
    }
}

/// On an empty list every move, in either direction and under either policy,
/// ends at index 0.
pub proof fn lemma_empty_list_stays_at_zero(current: int, n: int)
    ensures
        inc_or_wrap_spec(current, 0) == 0,
        dec_or_wrap_spec(current, 0) == 0,
        advance_spec(current, n, 0) == 0,
        retreat_spec(current, n, 0) == 0,
        advance_clamped_spec(current, n, 0) == 0,
        retreat_clamped_spec(current, n, 0) == 0,
{
}

/// Inside the list a single wrapping step is `advance` or `retreat` by one.
pub proof fn lemma_single_step(i: int, length: int)
    requires
        0 <= i < length,
    ensures
        inc_or_wrap_spec(i, length) == advance_spec(i, 1, length),
        dec_or_wrap_spec(i, length) == retreat_spec(i, 1, length),
{
    if i + 1 < length {
        lemma_small_mod((i + 1) as nat, length as nat);
    } else {
        lemma_mod_add_multiples_vanish(0, length);
        lemma_small_mod(0, length as nat);
    }
    if i >= 1 {
        lemma_small_mod((i - 1) as nat, length as nat);
    } else {
        lemma_mod_add_multiples_vanish(-1, length);
        lemma_small_mod((length - 1) as nat, length as nat);
    }
}

/// `advance` by `n + 1` is `advance` by `n` followed by one wrapping step, and
/// likewise for `retreat`: a move by `n` is a single step taken `n` times.
pub proof fn lemma_moves_are_repeated_steps(i: int, n: int, length: int)
    requires
        0 <= i < length,
        0 <= n,
    ensures
        advance_spec(i, n + 1, length) == inc_or_wrap_spec(advance_spec(i, n, length), length),
        retreat_spec(i, n + 1, length) == dec_or_wrap_spec(retreat_spec(i, n, length), length),
{
    let a = advance_spec(i, n, length);
    let r = retreat_spec(i, n, length);
    lemma_mod_bound(i + n, length);
    lemma_mod_bound(i - n, length);
    lemma_single_step(a, length);
    lemma_single_step(r, length);
    lemma_add_mod_noop_right(1, i + n, length);
    assert(1 + (i + n) % length == a + 1);
    assert(1 + (i + n) == i + (n + 1));
    lemma_sub_mod_noop(i - n, 1, length);
    lemma_sub_mod_noop(r, 1, length);
    lemma_small_mod(r as nat, length as nat);
    assert(i - n - 1 == i - (n + 1));
}

/// Under the wrapping policy every move can be taken back: from an index
/// inside a non-empty list, `advance` and then `retreat` by the same count
/// comes back to it, and so does `retreat` and then `advance`.
pub proof fn lemma_wrap_round_trip(i: int, n: int, length: int)
    requires
        length >= 1,
        0 <= i < length,
    ensures
        retreat_spec(advance_spec(i, n, length), n, length) == i,
        advance_spec(retreat_spec(i, n, length), n, length) == i,
{
    lemma_small_mod(i as nat, length as nat);
    lemma_sub_mod_noop(i + n, n, length);
    lemma_sub_mod_noop((i + n) % length, n, length);
    lemma_small_mod(((i + n) % length) as nat, length as nat);
    lemma_mod_bound(i + n, length);
    assert(i + n - n == i);
    lemma_add_mod_noop(i - n, n, length);
    lemma_add_mod_noop((i - n) % length, n, length);
    lemma_small_mod(((i - n) % length) as nat, length as nat);
    lemma_mod_bound(i - n, length);
    assert(i - n + n == i);
}

/// Under the clamping policy a move can be taken back exactly when it was not
/// stopped at a boundary, or when it started at the boundary that the way back
/// is stopped at.
pub proof fn lemma_clamp_round_trip(i: int, n: int, length: int)
    requires
        length >= 1,
        0 <= i < length,
        0 <= n,
    ensures
        retreat_clamped_spec(advance_clamped_spec(i, n, length), n, length) == i <==> (i + n
            <= length - 1 || i == 0),
        advance_clamped_spec(retreat_clamped_spec(i, n, length), n, length) == i <==> (i - n >= 0
            || i == length - 1),
{
}

} // verus!
