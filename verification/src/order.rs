//! The order of strings (by code point, as `str` orders them) and sorting
//! of text lines by it.
use vstd::prelude::*;
use vstd::relations::{sorted_by, total_ordering};

verus! {

/// `a` comes before `b` or equals it, comparing code points from the start;
/// a prefix comes first. This is the order of `str`, since UTF-8 keeps the
/// order of code points.
pub open spec fn str_le(a: Seq<char>, b: Seq<char>) -> bool
    decreases a.len(),
{
    if a.len() == 0 {
        true
    } else if b.len() == 0 {
        false
    } else if a[0] != b[0] {
        (a[0] as u32) < (b[0] as u32)
    } else {
        str_le(a.drop_first(), b.drop_first())
    }
}

/// `str_le` as a relation.
pub open spec fn str_order() -> spec_fn(Seq<char>, Seq<char>) -> bool {
    |a: Seq<char>, b: Seq<char>| str_le(a, b)
}

proof fn lemma_str_le_reflexive(a: Seq<char>)
    ensures
        str_le(a, a),
    decreases a.len(),
{
    if a.len() > 0 {
        lemma_str_le_reflexive(a.drop_first());
    }
}

proof fn lemma_str_le_antisymmetric(a: Seq<char>, b: Seq<char>)
    requires
        str_le(a, b),
        str_le(b, a),
    ensures
        a == b,
    decreases a.len(),
{
    if a.len() > 0 && b.len() > 0 {
        if a[0] == b[0] {
            lemma_str_le_antisymmetric(a.drop_first(), b.drop_first());
            assert(a =~= seq![a[0]] + a.drop_first());
            assert(b =~= seq![b[0]] + b.drop_first());
        } else {
            let x = a[0] as u32;
            let y = b[0] as u32;
            assert(x != y) by {
                if x == y {
                    vstd::utf8::char_u32_cast(a[0], a[0] as u32);
                    vstd::utf8::char_u32_cast(b[0], b[0] as u32);
                    assert(a[0] == b[0]);
                }
            }
        }
    } else {
        assert(a =~= b);
    }
}

proof fn lemma_str_le_transitive(a: Seq<char>, b: Seq<char>, c: Seq<char>)
    requires
        str_le(a, b),
        str_le(b, c),
    ensures
        str_le(a, c),
    decreases a.len(),
{
    if a.len() > 0 && b.len() > 0 && c.len() > 0 {
        if a[0] == b[0] && b[0] == c[0] {
            lemma_str_le_transitive(a.drop_first(), b.drop_first(), c.drop_first());
        } else if a[0] != c[0] {
            assert((a[0] as u32) <= (b[0] as u32));
            assert((b[0] as u32) <= (c[0] as u32));
            assert((a[0] as u32) != (c[0] as u32)) by {
                if (a[0] as u32) == (c[0] as u32) {
                    vstd::utf8::char_u32_cast(a[0], a[0] as u32);
                    vstd::utf8::char_u32_cast(c[0], c[0] as u32);
                    assert(a[0] == c[0]);
                }
            }
        } else {
            // a[0] == c[0] but not both equal b[0]: impossible
            assert((a[0] as u32) <= (b[0] as u32));
            assert((b[0] as u32) <= (c[0] as u32));
            assert((a[0] as u32) == (b[0] as u32));
            vstd::utf8::char_u32_cast(a[0], a[0] as u32);
                    vstd::utf8::char_u32_cast(b[0], b[0] as u32);
                    assert(a[0] == b[0]);
        }
    }
}

proof fn lemma_str_le_connected(a: Seq<char>, b: Seq<char>)
    ensures
        str_le(a, b) || str_le(b, a),
    decreases a.len(),
{
    if a.len() > 0 && b.len() > 0 && a[0] == b[0] {
        lemma_str_le_connected(a.drop_first(), b.drop_first());
    } else if a.len() > 0 && b.len() > 0 {
        assert((a[0] as u32) != (b[0] as u32)) by {
            if (a[0] as u32) == (b[0] as u32) {
                vstd::utf8::char_u32_cast(a[0], a[0] as u32);
                    vstd::utf8::char_u32_cast(b[0], b[0] as u32);
                    assert(a[0] == b[0]);
            }
        }
    }
}

/// The order of strings is a total order.
pub proof fn lemma_str_order_total()
    ensures
        total_ordering(str_order()),
{
    let r = str_order();
    assert forall|x: Seq<char>| #[trigger] r(x, x) by {
        lemma_str_le_reflexive(x);
    }
    assert forall|x: Seq<char>, y: Seq<char>| #[trigger] r(x, y) && #[trigger] r(y, x) implies x
        == y by {
        lemma_str_le_antisymmetric(x, y);
    }
    assert forall|x: Seq<char>, y: Seq<char>, z: Seq<char>| #[trigger] r(x, y) && #[trigger] r(
        y,
        z,
    ) implies r(x, z) by {
        lemma_str_le_transitive(x, y, z);
    }
    assert forall|x: Seq<char>, y: Seq<char>| #[trigger] r(x, y) || #[trigger] r(y, x) by {
        lemma_str_le_connected(x, y);
    }
}

/// Whether `a` comes before `b` or equals it.
pub fn chars_le(a: &[char], b: &[char]) -> (r: bool)
    ensures
        r == str_le(a@, b@),
{
    let mut i: usize = 0;
    assert(a@.skip(0) =~= a@);
    assert(b@.skip(0) =~= b@);
    while i < a.len() && i < b.len()
        invariant
            i <= a@.len(),
            i <= b@.len(),
            str_le(a@, b@) == str_le(a@.skip(i as int), b@.skip(i as int)),
        decreases a@.len() - i,
    {
        if a[i] != b[i] {
            return (a[i] as u32) < (b[i] as u32);
        }
        proof {
            assert(a@.skip(i as int).drop_first() =~= a@.skip(i + 1));
            assert(b@.skip(i as int).drop_first() =~= b@.skip(i + 1));
        }
        i += 1;
    }
    i == a.len()
}

/// The views of a vector of character vectors.
pub open spec fn char_rows(v: Seq<Vec<char>>) -> Seq<Seq<char>> {
    v.map_values(|r: Vec<char>| r@)
}

/// `rows` sorted by the order of strings.
pub fn sort_rows(rows: Vec<Vec<char>>) -> (sorted: Vec<Vec<char>>)
    ensures
        char_rows(sorted@) == char_rows(rows@).sort_by(str_order()),
{
    proof {
        lemma_str_order_total();
    }
    let ghost input = char_rows(rows@);
    let mut sorted: Vec<Vec<char>> = Vec::new();
    let mut i: usize = 0;
    assert(char_rows(sorted@) =~= input.take(0));
    while i < rows.len()
        invariant
            i <= rows@.len(),
            input == char_rows(rows@),
            total_ordering(str_order()),
            sorted_by(char_rows(sorted@), str_order()),
            char_rows(sorted@).to_multiset() == input.take(i as int).to_multiset(),
        decreases rows@.len() - i,
    {
        let x = rows[i].clone();
        assert(x@ == rows@[i as int]@);
        let ghost before = char_rows(sorted@);
        let mut p: usize = 0;
        while p < sorted.len() && chars_le(sorted[p].as_slice(), x.as_slice())
            invariant
                p <= sorted@.len(),
                before == char_rows(sorted@),
                forall|k: int| 0 <= k < p ==> str_le(#[trigger] before[k], x@),
            decreases sorted@.len() - p,
        {
            p += 1;
        }
        sorted.insert(p, x);
        proof {
            let after = char_rows(sorted@);
            assert(after =~= before.insert(p as int, x@));
            let r = str_order();
            assert forall|a: int, b: int| 0 <= a < b < after.len() implies #[trigger] r(
                after[a],
                after[b],
            ) by {
                if b < p {
                    assert(r(before[a], before[b]));
                } else if b == p {
                    assert(str_le(before[a], x@));
                } else if a < p {
                    assert(str_le(before[a], x@));
                    assert(!r(before[p as int], x@));
                    assert(r(x@, before[p as int]));
                    if b - 1 > p {
                        assert(r(before[p as int], before[b - 1]));
                    }
                    assert(r(x@, before[b - 1]));
                } else if a == p {
                    assert(!r(before[p as int], x@));
                    assert(r(x@, before[p as int]));
                    if b - 1 > p {
                        assert(r(before[p as int], before[b - 1]));
                    }
                } else {
                    assert(r(before[a - 1], before[b - 1]));
                }
            }
            assert(input.take(i + 1) =~= input.take(i as int).push(x@));
            assert(input.take(i as int).push(x@) =~= input.take(i as int).insert(i as int, x@));
            vstd::seq_lib::to_multiset_insert(before, p as int, x@);
            vstd::seq_lib::to_multiset_insert(input.take(i as int), i as int, x@);
        }
        i += 1;
    }
    proof {
        assert(input.take(i as int) =~= input);
        input.lemma_sort_by_ensures(str_order());
        vstd::seq_lib::lemma_sorted_unique(char_rows(sorted@), input.sort_by(str_order()), str_order());
    }
    sorted
}

} // verus!
