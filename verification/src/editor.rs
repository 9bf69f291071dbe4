//! Moving through lists and editing the search query.
//!
//! The query is a sequence of characters and its cursor a character
//! position in it (between two characters, or at either end).
use vstd::prelude::*;

use crate::text::{is_white_space, is_whitespace};

verus! {

/// How many rows a page key moves.
pub const PAGE_SIZE: usize = 10;

/// The cursor of a menu after moving up: one up, or from the top to the bottom.
pub open spec fn previous_of(cursor: usize, length: usize) -> usize {
    if length > 0 {
        if cursor == 0 {
            (length - 1) as usize
        } else {
            (cursor - 1) as usize
        }
    } else {
        cursor
    }
}

/// The cursor of a menu after moving down: one down, or from the bottom to the top.
pub open spec fn next_of(cursor: usize, length: usize) -> usize {
    if length > 0 {
        ((cursor + 1) % (length as int)) as usize
    } else {
        cursor
    }
}

/// The cursor of a list after scrolling up (towards higher positions),
/// stopping at the last entry.
pub open spec fn scroll_up_of(cursor: usize, length: usize) -> usize {
    if length > 0 {
        let raised = if cursor < usize::MAX {
            cursor + 1
        } else {
            cursor as int
        };
        if raised < length - 1 {
            raised as usize
        } else {
            (length - 1) as usize
        }
    } else {
        cursor
    }
}

/// The cursor of a list after scrolling down (towards position 0), stopping
/// at the first entry and within the list.
pub open spec fn scroll_down_of(cursor: usize, length: usize) -> usize {
    if length > 0 {
        let lowered = if cursor > 0 {
            cursor - 1
        } else {
            0
        };
        if lowered < length - 1 {
            lowered as usize
        } else {
            (length - 1) as usize
        }
    } else {
        cursor
    }
}

/// Moves a menu cursor up, wrapping from the top to the bottom.
pub fn previous(cursor: &mut usize, length: usize)
    ensures
        *final(cursor) == previous_of(*old(cursor), length),
{
    if length > 0 {
        *cursor = if *cursor == 0 {
            length - 1
        } else {
            *cursor - 1
        };
    }
}

/// Moves a menu cursor down, wrapping from the bottom to the top.
pub fn next(cursor: &mut usize, length: usize)
    requires
        *old(cursor) < usize::MAX,
    ensures
        *final(cursor) == next_of(*old(cursor), length),
{
    if length > 0 {
        *cursor = (*cursor + 1) % length;
    }
}

/// Moves a list cursor one entry up, staying on the list.
pub fn scroll_up(cursor: &mut usize, length: usize)
    ensures
        *final(cursor) == scroll_up_of(*old(cursor), length),
{
    if length > 0 {
        let raised = (*cursor).saturating_add(1);
        *cursor = if raised < length - 1 {
            raised
        } else {
            length - 1
        };
    }
}

/// Moves a list cursor one entry down, staying on the list.
pub fn scroll_down(cursor: &mut usize, length: usize)
    ensures
        *final(cursor) == scroll_down_of(*old(cursor), length),
{
    if length > 0 {
        let lowered = (*cursor).saturating_sub(1);
        *cursor = if lowered < length - 1 {
            lowered
        } else {
            length - 1
        };
    }
}

/// Moving up and then down in a menu brings the cursor back.
pub proof fn lemma_menu_moves_undo(cursor: usize, length: usize)
    requires
        cursor < length,
    ensures
        next_of(previous_of(cursor, length), length) == cursor,
        previous_of(next_of(cursor, length), length) == cursor,
{
    if cursor + 1 < length {
        vstd::arithmetic::div_mod::lemma_small_mod((cursor + 1) as nat, length as nat);
    } else {
        assert((length as int) % (length as int) == 0) by (nonlinear_arith)
            requires
                length > 0,
        ;
    }
    if cursor > 0 {
        vstd::arithmetic::div_mod::lemma_small_mod(cursor as nat, length as nat);
    } else {
        assert((length as int) % (length as int) == 0) by (nonlinear_arith)
            requires
                length > 0,
        ;
    }
}

/// Scrolling keeps the cursor on the list, whatever it was before.
pub proof fn lemma_scroll_stays_within(cursor: usize, length: usize)
    requires
        length > 0,
    ensures
        scroll_up_of(cursor, length) < length,
        scroll_down_of(cursor, length) < length,
{
}

// ---------------------------------------------------------------------------
// Query editing
// ---------------------------------------------------------------------------
/// The position reached from `c` by moving left over white space.
pub open spec fn back_over_space(q: Seq<char>, c: int) -> int
    decreases c,
{
    if c > 0 && c <= q.len() && is_white_space(q[c - 1]) {
        back_over_space(q, c - 1)
    } else {
        c
    }
}

/// The position reached from `c` by moving left over non-white-space.
pub open spec fn back_over_word(q: Seq<char>, c: int) -> int
    decreases c,
{
    if c > 0 && c <= q.len() && !is_white_space(q[c - 1]) {
        back_over_word(q, c - 1)
    } else {
        c
    }
}

/// The position reached from `c` by moving right over white space.
pub open spec fn forward_over_space(q: Seq<char>, c: int) -> int
    decreases q.len() - c,
{
    if 0 <= c < q.len() && is_white_space(q[c]) {
        forward_over_space(q, c + 1)
    } else {
        c
    }
}

/// The position reached from `c` by moving right over non-white-space.
pub open spec fn forward_over_word(q: Seq<char>, c: int) -> int
    decreases q.len() - c,
{
    if 0 <= c < q.len() && !is_white_space(q[c]) {
        forward_over_word(q, c + 1)
    } else {
        c
    }
}

/// The start of the word before the cursor: left over white space, then
/// over the word.
pub open spec fn word_left_of(q: Seq<char>, c: int) -> int {
    back_over_word(q, back_over_space(q, c))
}

/// The end of the word after the cursor: right over white space, then over
/// the word.
pub open spec fn word_right_of(q: Seq<char>, c: int) -> int {
    forward_over_word(q, forward_over_space(q, c))
}

proof fn lemma_back_bounds(q: Seq<char>, c: int)
    requires
        0 <= c <= q.len(),
    ensures
        0 <= back_over_space(q, c) <= c,
        0 <= back_over_word(q, c) <= c,
    decreases c,
{
    if c > 0 {
        lemma_back_bounds(q, c - 1);
    }
}

proof fn lemma_forward_bounds(q: Seq<char>, c: int)
    requires
        0 <= c <= q.len(),
    ensures
        c <= forward_over_space(q, c) <= q.len(),
        c <= forward_over_word(q, c) <= q.len(),
    decreases q.len() - c,
{
    if c < q.len() {
        lemma_forward_bounds(q, c + 1);
    }
}

/// The word moves keep the cursor within the query, left moves at or
/// before it and right moves at or after it.
pub proof fn lemma_word_moves_bounds(q: Seq<char>, c: int)
    requires
        0 <= c <= q.len(),
    ensures
        0 <= word_left_of(q, c) <= c,
        c <= word_right_of(q, c) <= q.len(),
{
    lemma_back_bounds(q, c);
    lemma_back_bounds(q, back_over_space(q, c));
    lemma_forward_bounds(q, c);
    lemma_forward_bounds(q, forward_over_space(q, c));
}

/// The start of the word before `cursor` in `query`.
pub fn word_left(query: &[char], cursor: usize) -> (r: usize)
    requires
        cursor <= query@.len(),
    ensures
        r == word_left_of(query@, cursor as int),
        r <= cursor,
{
    let ghost q = query@;
    let mut c = cursor;
    while c > 0 && is_whitespace(query[c - 1])
        invariant
            c <= cursor <= q.len(),
            q == query@,
            back_over_space(q, cursor as int) == back_over_space(q, c as int),
        decreases c,
    {
        c -= 1;
    }
    while c > 0 && !is_whitespace(query[c - 1])
        invariant
            c <= cursor <= q.len(),
            q == query@,
            word_left_of(q, cursor as int) == back_over_word(q, c as int),
        decreases c,
    {
        c -= 1;
    }
    c
}

/// The end of the word after `cursor` in `query`.
pub fn word_right(query: &[char], cursor: usize) -> (r: usize)
    requires
        cursor <= query@.len(),
    ensures
        r == word_right_of(query@, cursor as int),
        cursor <= r <= query@.len(),
{
    let ghost q = query@;
    let mut c = cursor;
    while c < query.len() && is_whitespace(query[c])
        invariant
            cursor <= c <= q.len(),
            q == query@,
            forward_over_space(q, cursor as int) == forward_over_space(q, c as int),
        decreases q.len() - c,
    {
        c += 1;
    }
    while c < query.len() && !is_whitespace(query[c])
        invariant
            cursor <= c <= q.len(),
            q == query@,
            word_right_of(q, cursor as int) == forward_over_word(q, c as int),
        decreases q.len() - c,
    {
        c += 1;
    }
    c
}

/// `q` without its characters from `from` up to `to`.
pub open spec fn cut(q: Seq<char>, from: int, to: int) -> Seq<char> {
    q.take(from) + q.skip(to)
}

/// Removes `query[from..to]`.
pub fn remove_range(query: &mut Vec<char>, from: usize, to: usize)
    requires
        from <= to <= old(query)@.len(),
    ensures
        final(query)@ == cut(old(query)@, from as int, to as int),
{
    let ghost q = query@;
    let mut k: usize = to;
    while k > from
        invariant
            from <= k <= to <= q.len(),
            query@ == cut(q, k as int, to as int),
        decreases k,
    {
        query.remove(k - 1);
        assert(cut(q, k as int, to as int).remove(k - 1) =~= cut(q, k - 1, to as int));
        k -= 1;
    }
}

} // verus!
