//! Fuzzy search over package names: which packages match a query, how well,
//! and in what order they are listed.
use vstd::prelude::*;
use vstd::relations::{sorted_by, total_ordering};

use crate::text::{chars_eq_ignore_ascii_case, chars_of, eq_ignore_ascii_case, find_first, find_last, strs};

verus! {

/// The lower-case form of a text, as `str::to_lowercase` gives it (full
/// Unicode case mapping; a character may become several).
pub uninterp spec fn lowercase(s: Seq<char>) -> Seq<char>;

/// `str::to_lowercase`.
#[verifier::external_body]
fn to_lowercase(s: &str) -> (r: String)
    ensures
        r@ == lowercase(s@),
{
    s.to_lowercase()
}

/// The characters of the lower-case form of `s`.
pub fn lowercase_chars(s: &str) -> (r: Vec<char>)
    ensures
        r@ == lowercase(s@),
{
    let l = to_lowercase(s);
    chars_of(l.as_str())
}

/// The part of a package name before its first `/`, if it has one.
pub open spec fn repository_of(candidate: Seq<char>) -> Option<Seq<char>> {
    if exists|i: int| 0 <= i < candidate.len() && candidate[i] == '/' {
        let i = choose|i: int|
            0 <= i < candidate.len() && candidate[i] == '/' && forall|k: int|
                0 <= k < i ==> candidate[k] != '/';
        Some(candidate.take(i))
    } else {
        None
    }
}

/// A package from the AUR: its repository part is `aur`, in any case.
pub open spec fn is_aur(candidate: Seq<char>) -> bool {
    match repository_of(candidate) {
        Some(r) => eq_ignore_ascii_case(r, "aur"@),
        None => false,
    }
}

/// The part of a package name after its last `/` (all of it when it has none).
pub open spec fn package_name_of(candidate: Seq<char>) -> Seq<char> {
    if exists|i: int| 0 <= i < candidate.len() && candidate[i] == '/' {
        let i = choose|i: int|
            0 <= i < candidate.len() && candidate[i] == '/' && forall|k: int|
                i < k < candidate.len() ==> candidate[k] != '/';
        candidate.skip(i + 1)
    } else {
        candidate
    }
}

/// The query names the package exactly: it is not empty and equals the name
/// part up to ASCII case.
pub open spec fn is_exact(query: Seq<char>, candidate: Seq<char>) -> bool {
    query.len() > 0 && eq_ignore_ascii_case(package_name_of(candidate), query)
}

fn is_aur_chars(c: &[char]) -> (b: bool)
    ensures
        b == is_aur(c@),
{
    proof {
        reveal_strlit("aur");
    }
    match find_first(c, '/') {
        Some(i) => {
            let repo = crate::text::slice_chars(c, 0, i);
            assert(repo@ =~= c@.take(i as int));
            proof {
                let j = choose|j: int|
                    0 <= j < c@.len() && c@[j] == '/' && forall|k: int| 0 <= k < j ==> c@[k] != '/';
                assert(j == i as int) by {
                    if j < i {
                    } else if j > i {
                    }
                }
            }
            let aur = chars_of("aur");
            chars_eq_ignore_ascii_case(repo.as_slice(), aur.as_slice())
        },
        None => false,
    }
}

/// Whether a package comes from the AUR (`aur/...`, in any case).
pub fn is_aur_package(candidate: &str) -> (b: bool)
    ensures
        b == is_aur(candidate@),
{
    let c = chars_of(candidate);
    is_aur_chars(c.as_slice())
}

fn is_exact_chars(query: &[char], candidate: &[char]) -> (b: bool)
    ensures
        b == is_exact(query@, candidate@),
{
    if query.len() == 0 {
        return false;
    }
    let name = match find_last(candidate, '/') {
        Some(i) => {
            let len = candidate.len();
            assert(i < len);
            let n = crate::text::slice_chars(candidate, i + 1, len);
            proof {
                let c = candidate@;
                let j = choose|j: int|
                    0 <= j < c.len() && c[j] == '/' && forall|k: int| j < k < c.len() ==> c[k] != '/';
                assert(j == i as int) by {
                    if j < i {
                    } else if j > i {
                    }
                }
                assert(n@ =~= c.skip(i + 1));
            }
            n
        },
        None => crate::text::slice_chars(candidate, 0, candidate.len()),
    };
    assert(candidate@.subrange(0, candidate@.len() as int) =~= candidate@);
    chars_eq_ignore_ascii_case(name.as_slice(), query)
}

/// Whether `query` names the package exactly (its part after the last `/`,
/// up to ASCII case).
pub fn is_exact_package_name(query: &str, candidate: &str) -> (b: bool)
    ensures
        b == is_exact(query@, candidate@),
{
    let q = chars_of(query);
    let c = chars_of(candidate);
    is_exact_chars(q.as_slice(), c.as_slice())
}

// ---------------------------------------------------------------------------
// Scoring
// ---------------------------------------------------------------------------
/// The first position at or after `from` where `c` holds `ch`.
pub open spec fn find_from(c: Seq<char>, from: int, ch: char) -> Option<int>
    decreases c.len() - from,
{
    if from < 0 || from >= c.len() {
        None
    } else if c[from] == ch {
        Some(from)
    } else {
        find_from(c, from + 1, ch)
    }
}

/// A character after which a match counts as the start of a word.
pub open spec fn is_separator(ch: char) -> bool {
    ch == '/' || ch == '-' || ch == '_' || ch == '.'
}

/// What matching one query character at `pos` adds to the score: 10, 15
/// more when it follows the previous match directly, 10 more at the start
/// of the text or of a word, less the position.
pub open spec fn step_score(c: Seq<char>, pos: int, previous: Option<int>) -> int {
    10 + (if previous == Some(pos - 1) {
        15int
    } else {
        0int
    }) + (if pos == 0 || is_separator(c[pos - 1]) {
        10int
    } else {
        0int
    }) - pos
}

/// The score of matching `q` into `c` from position `from`, each query
/// character at the first place it occurs after the previous one; none when
/// some character is not found.
pub open spec fn score_from(q: Seq<char>, c: Seq<char>, from: int, previous: Option<int>, acc: int) -> Option<
    int,
>
    decreases q.len(),
{
    if q.len() == 0 {
        Some(acc)
    } else {
        match find_from(c, from, q[0]) {
            None => None,
            Some(pos) => score_from(
                q.drop_first(),
                c,
                pos + 1,
                Some(pos),
                acc + step_score(c, pos, previous),
            ),
        }
    }
}

/// The fuzzy score of a (lower-case) query against a (lower-case)
/// candidate, none when the query's characters do not all occur in order.
pub open spec fn score_of(q: Seq<char>, c: Seq<char>) -> Option<int> {
    score_from(q, c, 0, None, 0)
}

/// What matching one query character at `pos` adds before the position is
/// taken off: 10, 15 more right after the previous match, 10 more at the
/// start of the text or of a word.
pub open spec fn step_gain(c: Seq<char>, pos: int, previous: Option<int>) -> int {
    step_score(c, pos, previous) + pos
}

/// Whether every value that the running score takes while `q` is matched
/// into `c` from position `from` stays within `i32`: after the additions of
/// each step, the position being taken off, and the score after it.
pub open spec fn partials_fit(q: Seq<char>, c: Seq<char>, from: int, previous: Option<int>, acc: int) -> bool
    decreases q.len(),
{
    if q.len() == 0 {
        true
    } else {
        match find_from(c, from, q[0]) {
            None => true,
            Some(pos) => {
                let raised = acc + step_gain(c, pos, previous);
                &&& raised <= i32::MAX
                &&& pos <= i32::MAX
                &&& raised - pos >= i32::MIN
                &&& partials_fit(q.drop_first(), c, pos + 1, Some(pos), raised - pos)
            },
        }
    }
}

/// Whether the running score of `q` against `c` never leaves `i32`.
pub open spec fn score_stays_in_i32(q: Seq<char>, c: Seq<char>) -> bool {
    partials_fit(q, c, 0, None, 0)
}

/// The score as computed in `i32`: the fuzzy score, unless the running
/// score would leave the range of `i32`, in which case there is none.
pub open spec fn checked_score(q: Seq<char>, c: Seq<char>) -> Option<int> {
    if score_stays_in_i32(q, c) {
        score_of(q, c)
    } else {
        None
    }
}

proof fn lemma_find_from(c: Seq<char>, from: int, ch: char)
    requires
        0 <= from,
    ensures
        match find_from(c, from, ch) {
            Some(p) => from <= p < c.len() && c[p] == ch && forall|k: int|
                from <= k < p ==> c[k] != ch,
            None => forall|k: int| from <= k < c.len() ==> c[k] != ch,
        },
    decreases c.len() - from,
{
    if from < c.len() && c[from] != ch {
        lemma_find_from(c, from + 1, ch);
    }
}

proof fn lemma_find_from_unique(c: Seq<char>, from: int, ch: char, p: int)
    requires
        0 <= from <= p < c.len(),
        c[p] == ch,
        forall|k: int| from <= k < p ==> c[k] != ch,
    ensures
        find_from(c, from, ch) == Some(p),
    decreases p - from,
{
    if from < p {
        lemma_find_from_unique(c, from + 1, ch, p);
    }
}

/// `idx` places the characters of `q` in `c`, in order, at or after `from`:
/// one position per character, increasing, each holding that character.
pub open spec fn embeds_from(q: Seq<char>, c: Seq<char>, from: int, idx: Seq<int>) -> bool {
    &&& idx.len() == q.len()
    &&& forall|i: int| 0 <= i < idx.len() ==> from <= #[trigger] idx[i] < c.len() && c[idx[i]] == q[i]
    &&& forall|i: int, j: int| 0 <= i < j < idx.len() ==> #[trigger] idx[i] < #[trigger] idx[j]
}

/// The characters of `q` occur in `c` in order (not necessarily together).
pub open spec fn occurs_in_order(q: Seq<char>, c: Seq<char>) -> bool {
    exists|idx: Seq<int>| embeds_from(q, c, 0, idx)
}

proof fn lemma_score_from_some(q: Seq<char>, c: Seq<char>, from: int, previous: Option<int>, acc: int)
    requires
        0 <= from,
    ensures
        score_from(q, c, from, previous, acc) is Some <==> exists|idx: Seq<int>|
            embeds_from(q, c, from, idx),
    decreases q.len(),
{
    if q.len() == 0 {
        assert(embeds_from(q, c, from, seq![]));
    } else {
        lemma_find_from(c, from, q[0]);
        match find_from(c, from, q[0]) {
            None => {
                assert forall|idx: Seq<int>| !embeds_from(q, c, from, idx) by {
                    if embeds_from(q, c, from, idx) {
                        assert(from <= idx[0] < c.len() && c[idx[0]] == q[0]);
                    }
                }
            },
            Some(pos) => {
                let rest = q.drop_first();
                let gain = acc + step_score(c, pos, previous);
                lemma_score_from_some(rest, c, pos + 1, Some(pos), gain);
                if score_from(q, c, from, previous, acc) is Some {
                    let idx2 = choose|idx2: Seq<int>| #[trigger] embeds_from(rest, c, pos + 1, idx2);
                    let idx = seq![pos].add(idx2);
                    assert forall|i: int| 0 <= i < idx.len() implies from <= #[trigger] idx[i]
                        < c.len() && c[idx[i]] == q[i] by {
                        if i > 0 {
                            assert(idx[i] == idx2[i - 1]);
                            assert(q[i] == rest[i - 1]);
                        }
                    }
                    assert forall|i: int, j: int| 0 <= i < j < idx.len() implies #[trigger] idx[i]
                        < #[trigger] idx[j] by {
                        assert(idx[j] == idx2[j - 1]);
                        if i > 0 {
                            assert(idx[i] == idx2[i - 1]);
                        }
                    }
                    assert(embeds_from(q, c, from, idx));
                } else {
                    assert forall|idx: Seq<int>| !embeds_from(q, c, from, idx) by {
                        if embeds_from(q, c, from, idx) {
                            assert(from <= idx[0] < c.len() && c[idx[0]] == q[0]);
                            assert(idx[0] >= pos);
                            let idx2 = idx.drop_first();
                            assert forall|i: int| 0 <= i < idx2.len() implies pos + 1 <= #[trigger] idx2[i]
                                < c.len() && c[idx2[i]] == rest[i] by {
                                assert(idx2[i] == idx[i + 1]);
                                assert(idx[0] < idx[i + 1]);
                            }
                            assert forall|i: int, j: int| 0 <= i < j < idx2.len() implies #[trigger] idx2[i]
                                < #[trigger] idx2[j] by {
                                assert(idx2[i] == idx[i + 1]);
                                assert(idx2[j] == idx[j + 1]);
                            }
                            assert(embeds_from(rest, c, pos + 1, idx2));
                        }
                    }
                }
            },
        }
    }
}

/// A query has a fuzzy score against a text exactly when its characters
/// occur in the text in order; the score as computed in `i32` is there
/// exactly when, besides, the running score stays within `i32`.
pub proof fn lemma_score_iff_in_order(q: Seq<char>, c: Seq<char>)
    ensures
        score_of(q, c) is Some <==> occurs_in_order(q, c),
        checked_score(q, c) is Some <==> (occurs_in_order(q, c) && score_stays_in_i32(q, c)),
{
    lemma_score_from_some(q, c, 0, None, 0);
}

/// The fuzzy score of a lower-case query against a lower-case candidate,
/// computed in `i32`: none when the query's characters do not all occur in
/// order, or when the running score would leave the range of `i32`.
pub fn fuzzy_score_lowered(query: &[char], candidate: &[char]) -> (r: Option<i32>)
    ensures
        match r {
            Some(s) => checked_score(query@, candidate@) == Some(s as int),
            None => checked_score(query@, candidate@) is None,
        },
{
    let q = query;
    let c = candidate;
    let ghost qs = q@;
    let ghost cs = c@;
    let n = c.len();
    let mut search_from: usize = 0;
    let mut previous: Option<usize> = None;
    let mut score: i32 = 0;
    let mut k: usize = 0;
    assert(qs.skip(0) =~= qs);
    while k < q.len()
        invariant
            k <= qs.len(),
            qs == q@,
            cs == c@,
            n == cs.len(),
            search_from <= n,
            match previous {
                Some(p) => p < n && search_from == p + 1,
                None => search_from == 0,
            },
            qs == query@,
            cs == candidate@,
            score_of(qs, cs) == score_from(
                qs.skip(k as int),
                cs,
                search_from as int,
                match previous {
                    Some(p) => Some(p as int),
                    None => None,
                },
                score as int,
            ),
            score_stays_in_i32(qs, cs) == partials_fit(
                qs.skip(k as int),
                cs,
                search_from as int,
                match previous {
                    Some(p) => Some(p as int),
                    None => None,
                },
                score as int,
            ),
        decreases qs.len() - k,
    {
        let ch = q[k];
        let mut pos: usize = search_from;
        while pos < n && c[pos] != ch
            invariant
                search_from <= pos <= n,
                n == cs.len(),
                cs == c@,
                forall|m: int| search_from <= m < pos ==> cs[m] != ch,
            decreases n - pos,
        {
            pos += 1;
        }
        let ghost prev_spec = match previous {
            Some(p) => Some(p as int),
            None => None,
        };
        proof {
            assert(qs.skip(k as int)[0] == ch);
            assert(qs.skip(k as int).drop_first() =~= qs.skip(k + 1));
            if pos < n {
                lemma_find_from_unique(cs, search_from as int, ch, pos as int);
            } else {
                lemma_find_from(cs, search_from as int, ch);
                assert(find_from(cs, search_from as int, ch) is None) by {
                    match find_from(cs, search_from as int, ch) {
                        Some(p) => {
                            assert(cs[p] != ch);
                        },
                        None => {},
                    }
                }
            }
        }
        if pos == n {
            return None;
        }
        let mut gain: i64 = 10;
        let adjacent = match previous {
            Some(p) => p + 1 == pos,
            None => false,
        };
        if adjacent {
            gain = gain + 15;
        }
        if pos == 0 || c[pos - 1] == '/' || c[pos - 1] == '-' || c[pos - 1] == '_' || c[pos - 1]
            == '.' {
            gain = gain + 10;
        }
        assert(gain as int == step_gain(cs, pos as int, prev_spec));
        let raised: i64 = score as i64 + gain;
        if raised > 0x7fff_ffff {
            return None;
        }
        if pos > 0x7fff_ffff {
            return None;
        }
        let lowered: i64 = raised - (pos as i64);
        if lowered < -0x8000_0000 {
            return None;
        }
        score = lowered as i32;
        previous = Some(pos);
        search_from = pos + 1;
        k += 1;
    }
    assert(qs.skip(k as int) =~= seq![]);
    Some(score)
}

/// The fuzzy score of an already lower-case query against a package name,
/// which is lowered first; none when the query does not match (or when the
/// running score would leave the range of `i32`).
pub fn fuzzy_score(query: &str, candidate: &str) -> (r: Option<i32>)
    ensures
        match r {
            Some(s) => checked_score(query@, lowercase(candidate@)) == Some(s as int),
            None => checked_score(query@, lowercase(candidate@)) is None,
        },
{
    let q = chars_of(query);
    let c = lowercase_chars(candidate);
    fuzzy_score_lowered(q.as_slice(), c.as_slice())
}

// ---------------------------------------------------------------------------
// Ranking
// ---------------------------------------------------------------------------
/// The positions of the packages whose AUR-ness is `aur`, in order.
pub open spec fn positions_by_aur(ps: Seq<Seq<char>>, aur: bool) -> Seq<int>
    decreases ps.len(),
{
    if ps.len() == 0 {
        seq![]
    } else {
        let r = positions_by_aur(ps.drop_last(), aur);
        if is_aur(ps.last()) == aur {
            r.push(ps.len() - 1)
        } else {
            r
        }
    }
}

/// The matches of a lower-case query, each with its score, in the order of
/// the packages: `lowered[i]` is the lower-case form of package `i`.
pub open spec fn scored(q: Seq<char>, lowered: Seq<Seq<char>>) -> Seq<(int, int)>
    decreases lowered.len(),
{
    if lowered.len() == 0 {
        seq![]
    } else {
        let r = scored(q, lowered.drop_last());
        match checked_score(q, lowered.last()) {
            Some(s) => r.push((lowered.len() - 1, s)),
            None => r,
        }
    }
}

/// The ranking key of a match: non-AUR before AUR, exact names first,
/// higher scores first, then earlier packages.
pub open spec fn rank_le(q: Seq<char>, ps: Seq<Seq<char>>, a: (int, int), b: (int, int)) -> bool {
    let aa = if is_aur(ps[a.0]) {
        1int
    } else {
        0int
    };
    let ab = if is_aur(ps[b.0]) {
        1int
    } else {
        0int
    };
    let ea = if is_exact(q, ps[a.0]) {
        0int
    } else {
        1int
    };
    let eb = if is_exact(q, ps[b.0]) {
        0int
    } else {
        1int
    };
    ||| aa < ab
    ||| aa == ab && ea < eb
    ||| aa == ab && ea == eb && a.1 > b.1
    ||| aa == ab && ea == eb && a.1 == b.1 && a.0 <= b.0
}

/// The ranking order as a relation.
pub open spec fn rank_order(q: Seq<char>, ps: Seq<Seq<char>>) -> spec_fn((int, int), (int, int)) -> bool {
    |a: (int, int), b: (int, int)| rank_le(q, ps, a, b)
}

/// The ranking order is a total order.
pub proof fn lemma_rank_order_total(q: Seq<char>, ps: Seq<Seq<char>>)
    ensures
        total_ordering(rank_order(q, ps)),
{
}

/// The package positions listed for a search: with an empty query all of
/// them, non-AUR packages first; else the matching ones ranked by
/// `rank_le`, the query and the packages taken in lower case for scoring.
pub open spec fn ranked(q: Seq<char>, ps: Seq<Seq<char>>, lowered: Seq<Seq<char>>) -> Seq<int> {
    scored(q, lowered).sort_by(rank_order(q, ps)).map_values(|m: (int, int)| m.0)
}

/// The package positions listed for the query `query` over `ps`.
pub open spec fn search_results(query: Seq<char>, ps: Seq<Seq<char>>) -> Seq<int> {
    if query.len() == 0 {
        positions_by_aur(ps, false) + positions_by_aur(ps, true)
    } else {
        ranked(lowercase(query), ps, ps.map_values(|p: Seq<char>| lowercase(p)))
    }
}

/// The positions as integers.
pub open spec fn positions(v: Seq<usize>) -> Seq<int> {
    v.map_values(|i: usize| i as int)
}

fn by_aur(packages: &[String], aur: bool) -> (r: Vec<usize>)
    ensures
        positions(r@) == positions_by_aur(strs(packages@), aur),
{
    let ghost ps = strs(packages@);
    let mut r: Vec<usize> = Vec::new();
    let mut i: usize = 0;
    assert(ps.take(0) =~= seq![]);
    assert(positions(r@) =~= seq![]);
    while i < packages.len()
        invariant
            i <= packages@.len(),
            ps == strs(packages@),
            positions(r@) == positions_by_aur(ps.take(i as int), aur),
        decreases packages@.len() - i,
    {
        let a = is_aur_package(packages[i].as_str());
        proof {
            assert(ps.take(i + 1).drop_last() =~= ps.take(i as int));
            assert(ps.take(i + 1).last() == packages@[i as int]@);
        }
        if a == aur {
            let ghost before = positions(r@);
            r.push(i);
            assert(positions(r@) =~= before.push(i as int));
        }
        i += 1;
    }
    assert(ps.take(packages@.len() as int) =~= ps);
    r
}

/// A match with what ranks it.
struct Ranked {
    aur: bool,
    exact: bool,
    score: i32,
    index: usize,
}

spec fn ranked_pair(m: Ranked) -> (int, int) {
    (m.index as int, m.score as int)
}

spec fn ranked_pairs(v: Seq<Ranked>) -> Seq<(int, int)> {
    v.map_values(|m: Ranked| ranked_pair(m))
}

spec fn ranked_ok(q: Seq<char>, ps: Seq<Seq<char>>, m: Ranked) -> bool {
    &&& m.index < ps.len()
    &&& m.aur == is_aur(ps[m.index as int])
    &&& m.exact == is_exact(q, ps[m.index as int])
}

fn ranks_before(a: &Ranked, b: &Ranked) -> (r: bool)
    ensures
        r == ({
            let aa = if a.aur {
                1int
            } else {
                0int
            };
            let ab = if b.aur {
                1int
            } else {
                0int
            };
            let ea = if a.exact {
                0int
            } else {
                1int
            };
            let eb = if b.exact {
                0int
            } else {
                1int
            };
            ||| aa < ab
            ||| aa == ab && ea < eb
            ||| aa == ab && ea == eb && a.score > b.score
            ||| aa == ab && ea == eb && a.score == b.score && a.index <= b.index
        }),
{
    if a.aur != b.aur {
        return !a.aur;
    }
    if a.exact != b.exact {
        return a.exact;
    }
    if a.score != b.score {
        return a.score > b.score;
    }
    a.index <= b.index
}

fn insert_ranked(out: &mut Vec<Ranked>, m: Ranked, Ghost(q): Ghost<Seq<char>>, Ghost(ps): Ghost<Seq<Seq<char>>>)
    requires
        ranked_ok(q, ps, m),
        forall|k: int| 0 <= k < old(out)@.len() ==> ranked_ok(q, ps, #[trigger] old(out)@[k]),
        sorted_by(ranked_pairs(old(out)@), rank_order(q, ps)),
    ensures
        forall|k: int| 0 <= k < final(out)@.len() ==> ranked_ok(q, ps, #[trigger] final(out)@[k]),
        sorted_by(ranked_pairs(final(out)@), rank_order(q, ps)),
        ranked_pairs(final(out)@).to_multiset() == ranked_pairs(old(out)@).to_multiset().insert(
            ranked_pair(m),
        ),
{
    let ghost ord = rank_order(q, ps);
    proof {
        lemma_rank_order_total(q, ps);
    }
    let ghost before = ranked_pairs(out@);
    let ghost x = ranked_pair(m);
    let mut p: usize = 0;
    while p < out.len() && ranks_before(&out[p], &m)
        invariant
            p <= out@.len(),
            before == ranked_pairs(out@),
            ranked_ok(q, ps, m),
            forall|k: int| 0 <= k < out@.len() ==> ranked_ok(q, ps, #[trigger] out@[k]),
            x == ranked_pair(m),
            ord == rank_order(q, ps),
            forall|k: int| 0 <= k < p ==> ord(#[trigger] before[k], x),
        decreases out@.len() - p,
    {
        assert(ranked_ok(q, ps, out@[p as int]));
        assert(before[p as int] == ranked_pair(out@[p as int]));
        p += 1;
    }
    proof {
        if p < out@.len() {
            assert(ranked_ok(q, ps, out@[p as int]));
            assert(before[p as int] == ranked_pair(out@[p as int]));
            assert(!ord(before[p as int], x));
        }
    }
    out.insert(p, m);
    proof {
        let after = ranked_pairs(out@);
        assert(after =~= before.insert(p as int, x));
        assert forall|a: int, b: int| 0 <= a < b < after.len() implies #[trigger] ord(
            after[a],
            after[b],
        ) by {
            if b < p {
                assert(ord(before[a], before[b]));
            } else if b == p {
                assert(ord(before[a], x));
            } else if a < p {
                assert(ord(before[a], x));
                assert(ord(x, before[p as int]));
                if b - 1 > p {
                    assert(ord(before[p as int], before[b - 1]));
                }
                assert(ord(x, before[b - 1]));
            } else if a == p {
                assert(ord(x, before[p as int]));
                if b - 1 > p {
                    assert(ord(before[p as int], before[b - 1]));
                }
            } else {
                assert(ord(before[a - 1], before[b - 1]));
            }
        }
        assert forall|k: int| 0 <= k < out@.len() implies ranked_ok(q, ps, #[trigger] out@[k]) by {
            if k > p {
                assert(out@[k] == old(out)@[k - 1]);
            } else if k < p {
                assert(out@[k] == old(out)@[k]);
            }
        }
        vstd::seq_lib::to_multiset_insert(before, p as int, x);
    }
}

proof fn lemma_scored_step(q: Seq<char>, ls: Seq<Seq<char>>, i: int)
    requires
        0 <= i < ls.len(),
    ensures
        scored(q, ls.take(i + 1)) == match checked_score(q, ls[i]) {
            Some(s) => scored(q, ls.take(i)).push((i, s)),
            None => scored(q, ls.take(i)),
        },
{
    assert(ls.take(i + 1).drop_last() =~= ls.take(i));
    assert(ls.take(i + 1).last() == ls[i]);
}

fn make_ranked(query: &[char], package: &String, score: i32, index: usize, Ghost(ps): Ghost<
    Seq<Seq<char>>,
>) -> (m: Ranked)
    requires
        index < ps.len(),
        ps[index as int] == package@,
    ensures
        ranked_ok(query@, ps, m),
        ranked_pair(m) == (index as int, score as int),
{
    let aur = is_aur_package(package.as_str());
    let chars = chars_of(package.as_str());
    let exact = is_exact_chars(query, chars.as_slice());
    Ranked { aur, exact, score, index }
}

/// The positions of the packages that a lower-case query matches, ranked:
/// non-AUR packages first, then exact names, then higher scores, then
/// earlier packages. `lowered[i]` is the lower-case form of package `i`.
pub fn rank_matches(query: &[char], packages: &[String], lowered: &Vec<Vec<char>>) -> (r: Vec<usize>)
    requires
        lowered@.len() == packages@.len(),
    ensures
        positions(r@) == ranked(
            query@,
            strs(packages@),
            lowered@.map_values(|l: Vec<char>| l@),
        ),
{
    let ghost ps = strs(packages@);
    let ghost ls = lowered@.map_values(|l: Vec<char>| l@);
    let ghost q = query@;
    let ghost ord = rank_order(q, ps);
    let mut out: Vec<Ranked> = Vec::new();
    let mut i: usize = 0;
    assert(ls.take(0) =~= seq![]);
    assert(ranked_pairs(out@) =~= seq![]);
    while i < packages.len()
        invariant
            i <= packages@.len(),
            lowered@.len() == packages@.len(),
            ps == strs(packages@),
            ls == lowered@.map_values(|l: Vec<char>| l@),
            q == query@,
            forall|k: int| 0 <= k < out@.len() ==> ranked_ok(q, ps, #[trigger] out@[k]),
            sorted_by(ranked_pairs(out@), rank_order(q, ps)),
            ranked_pairs(out@).to_multiset() == scored(q, ls.take(i as int)).to_multiset(),
        decreases packages@.len() - i,
    {
        let sc = fuzzy_score_lowered(query, lowered[i].as_slice());
        proof {
            assert(ls[i as int] == lowered@[i as int]@);
            lemma_scored_step(q, ls, i as int);
        }
        match sc {
            None => {},
            Some(s) => {
                let m = make_ranked(query, &packages[i], s, i, Ghost(ps));
                let ghost prev = scored(q, ls.take(i as int));
                insert_ranked(&mut out, m, Ghost(q), Ghost(ps));
                proof {
                    let x = ranked_pair(m);
                    assert(prev.push(x) =~= prev.insert(prev.len() as int, x));
                    vstd::seq_lib::to_multiset_insert(prev, prev.len() as int, x);
                }
            },
        }
        i += 1;
    }
    proof {
        lemma_rank_order_total(q, ps);
        assert(ls.take(i as int) =~= ls);
        scored(q, ls).lemma_sort_by_ensures(ord);
        vstd::seq_lib::lemma_sorted_unique(ranked_pairs(out@), scored(q, ls).sort_by(ord), ord);
    }
    let mut r: Vec<usize> = Vec::new();
    let mut k: usize = 0;
    while k < out.len()
        invariant
            k <= out@.len(),
            positions(r@) == ranked_pairs(out@).take(k as int).map_values(|m: (int, int)| m.0),
        decreases out@.len() - k,
    {
        let ghost before = positions(r@);
        r.push(out[k].index);
        assert(positions(r@) =~= before.push(out@[k as int].index as int));
        assert(ranked_pairs(out@).take(k + 1).map_values(|m: (int, int)| m.0) =~= ranked_pairs(
            out@,
        ).take(k as int).map_values(|m: (int, int)| m.0).push(out@[k as int].index as int));
        k += 1;
    }
    assert(ranked_pairs(out@).take(out@.len() as int) =~= ranked_pairs(out@));
    r
}

/// The positions of the packages listed for a search query: with an empty
/// query every package, non-AUR ones first; otherwise the matching
/// packages, ranked.
pub fn fuzzy_matches(query: &str, packages: &[String]) -> (r: Vec<usize>)
    ensures
        positions(r@) == search_results(query@, strs(packages@)),
{
    if query.is_empty() {
        let mut first = by_aur(packages, false);
        let mut second = by_aur(packages, true);
        let ghost a = positions(first@);
        let ghost b = positions(second@);
        first.append(&mut second);
        assert(positions(first@) =~= a + b);
        return first;
    }
    let q = lowercase_chars(query);
    let mut lowered: Vec<Vec<char>> = Vec::new();
    let mut i: usize = 0;
    while i < packages.len()
        invariant
            i <= packages@.len(),
            lowered@.len() == i,
            forall|k: int| 0 <= k < i ==> (#[trigger] lowered@[k])@ == lowercase(packages@[k]@),
        decreases packages@.len() - i,
    {
        lowered.push(lowercase_chars(packages[i].as_str()));
        i += 1;
    }
    assert(lowered@.map_values(|l: Vec<char>| l@) =~= strs(packages@).map_values(
        |p: Seq<char>| lowercase(p),
    ));
    rank_matches(q.as_slice(), packages, &lowered)
}

proof fn lemma_positions_by_aur_in_range(ps: Seq<Seq<char>>, aur: bool)
    ensures
        forall|k: int|
            0 <= k < positions_by_aur(ps, aur).len() ==> 0 <= #[trigger] positions_by_aur(ps, aur)[k]
                < ps.len(),
    decreases ps.len(),
{
    if ps.len() > 0 {
        lemma_positions_by_aur_in_range(ps.drop_last(), aur);
        let r = positions_by_aur(ps.drop_last(), aur);
        assert forall|k: int| 0 <= k < positions_by_aur(ps, aur).len() implies 0
            <= #[trigger] positions_by_aur(ps, aur)[k] < ps.len() by {
            if k < r.len() {
                assert(positions_by_aur(ps, aur)[k] == r[k]);
            }
        }
    }
}

proof fn lemma_scored_in_range(q: Seq<char>, ls: Seq<Seq<char>>)
    ensures
        forall|k: int| 0 <= k < scored(q, ls).len() ==> 0 <= (#[trigger] scored(q, ls)[k]).0 < ls.len(),
    decreases ls.len(),
{
    if ls.len() > 0 {
        lemma_scored_in_range(q, ls.drop_last());
        let r = scored(q, ls.drop_last());
        assert forall|k: int| 0 <= k < scored(q, ls).len() implies 0 <= (
        #[trigger] scored(q, ls)[k]).0 < ls.len() by {
            if k < r.len() {
                assert(scored(q, ls)[k] == r[k]);
            }
        }
    }
}

/// Every position listed for a search is the position of a package.
pub proof fn lemma_search_results_in_range(query: Seq<char>, ps: Seq<Seq<char>>)
    ensures
        forall|k: int|
            0 <= k < search_results(query, ps).len() ==> 0 <= #[trigger] search_results(query, ps)[k]
                < ps.len(),
{
    if query.len() == 0 {
        lemma_positions_by_aur_in_range(ps, false);
        lemma_positions_by_aur_in_range(ps, true);
        let a = positions_by_aur(ps, false);
        let b = positions_by_aur(ps, true);
        assert forall|k: int| 0 <= k < (a + b).len() implies 0 <= #[trigger] (a + b)[k] < ps.len() by {
            if k < a.len() {
                assert((a + b)[k] == a[k]);
            } else {
                assert((a + b)[k] == b[k - a.len()]);
            }
        }
    } else {
        let q = lowercase(query);
        let ls = ps.map_values(|p: Seq<char>| lowercase(p));
        let sc = scored(q, ls);
        let ord = rank_order(q, ps);
        lemma_rank_order_total(q, ps);
        lemma_scored_in_range(q, ls);
        sc.lemma_sort_by_ensures(ord);
        let sorted = sc.sort_by(ord);
        assert forall|k: int| 0 <= k < sorted.len() implies 0 <= (#[trigger] sorted[k]).0 < ps.len() by {
            assert(sorted.contains(sorted[k]));
            assert(sc.contains(sorted[k]));
        }
    }
}

proof fn lemma_positions_by_aur_members(ps: Seq<Seq<char>>, aur: bool)
    ensures
        forall|i: int|
            positions_by_aur(ps, aur).contains(i) <==> (0 <= i < ps.len() && is_aur(ps[i]) == aur),
        forall|a: int, b: int|
            0 <= a < b < positions_by_aur(ps, aur).len() ==> positions_by_aur(ps, aur)[a]
                < positions_by_aur(ps, aur)[b],
        forall|a: int|
            0 <= a < positions_by_aur(ps, aur).len() ==> 0 <= #[trigger] positions_by_aur(ps, aur)[a]
                < ps.len(),
    decreases ps.len(),
{
    if ps.len() > 0 {
        let prev = ps.drop_last();
        lemma_positions_by_aur_members(prev, aur);
        let r = positions_by_aur(prev, aur);
        let full = positions_by_aur(ps, aur);
        assert forall|i: int| full.contains(i) <==> (0 <= i < ps.len() && is_aur(ps[i]) == aur) by {
            if 0 <= i < prev.len() {
                assert(prev[i] == ps[i]);
            }
            if r.contains(i) && full != r {
                let k = choose|k: int| 0 <= k < r.len() && r[k] == i;
                assert(full[k] == i);
            }
            if full.contains(i) {
                let k = choose|k: int| 0 <= k < full.len() && full[k] == i;
                if k < r.len() {
                    assert(r[k] == i);
                }
            }
            if i == ps.len() - 1 && is_aur(ps[i]) == aur {
                assert(full[r.len() as int] == i);
            }
        }
        assert forall|a: int, b: int| 0 <= a < b < full.len() implies full[a] < full[b] by {
            if b < r.len() {
                assert(full[a] == r[a] && full[b] == r[b]);
            } else {
                assert(full[a] == r[a]);
            }
        }
        assert forall|a: int| 0 <= a < full.len() implies 0 <= #[trigger] full[a] < ps.len() by {
            if a < r.len() {
                assert(full[a] == r[a]);
            }
        }
    }
}

proof fn lemma_scored_members(q: Seq<char>, ls: Seq<Seq<char>>)
    ensures
        forall|m: (int, int)|
            scored(q, ls).contains(m) <==> (0 <= m.0 < ls.len() && checked_score(q, ls[m.0])
                == Some(m.1)),
        forall|a: int, b: int|
            0 <= a < b < scored(q, ls).len() ==> scored(q, ls)[a].0 < scored(q, ls)[b].0,
        forall|a: int| 0 <= a < scored(q, ls).len() ==> 0 <= (#[trigger] scored(q, ls)[a]).0 < ls.len(),
    decreases ls.len(),
{
    if ls.len() > 0 {
        let prev = ls.drop_last();
        lemma_scored_members(q, prev);
        let r = scored(q, prev);
        let full = scored(q, ls);
        assert forall|m: (int, int)| full.contains(m) <==> (0 <= m.0 < ls.len() && checked_score(
            q,
            ls[m.0],
        ) == Some(m.1)) by {
            if 0 <= m.0 < prev.len() {
                assert(prev[m.0] == ls[m.0]);
            }
            if r.contains(m) && full != r {
                let k = choose|k: int| 0 <= k < r.len() && r[k] == m;
                assert(full[k] == m);
            }
            if full.contains(m) {
                let k = choose|k: int| 0 <= k < full.len() && full[k] == m;
                if k < r.len() {
                    assert(r[k] == m);
                }
            }
            if m.0 == ls.len() - 1 && checked_score(q, ls[m.0]) == Some(m.1) {
                assert(full[r.len() as int] == m);
            }
        }
        assert forall|a: int, b: int| 0 <= a < b < full.len() implies full[a].0 < full[b].0 by {
            if b < r.len() {
                assert(full[a] == r[a] && full[b] == r[b]);
            } else {
                assert(full[a] == r[a]);
            }
        }
        assert forall|a: int| 0 <= a < full.len() implies 0 <= (#[trigger] full[a]).0 < ls.len() by {
            if a < r.len() {
                assert(full[a] == r[a]);
            }
        }
    }
}

/// In the listing for any query, AUR packages always come after the others.
pub proof fn lemma_aur_packages_follow(query: Seq<char>, ps: Seq<Seq<char>>)
    ensures
        forall|i: int, j: int|
            0 <= i < j < search_results(query, ps).len() && is_aur(ps[search_results(query, ps)[i]])
                ==> is_aur(ps[search_results(query, ps)[j]]),
{
    let r = search_results(query, ps);
    if query.len() == 0 {
        let a = positions_by_aur(ps, false);
        let b = positions_by_aur(ps, true);
        lemma_positions_by_aur_members(ps, false);
        lemma_positions_by_aur_members(ps, true);
        assert forall|i: int, j: int| 0 <= i < j < r.len() && is_aur(ps[r[i]]) implies is_aur(
            ps[r[j]],
        ) by {
            if i < a.len() {
                assert(r[i] == a[i]);
                assert(a.contains(a[i]));
            }
            if j >= a.len() {
                assert(r[j] == b[j - a.len()]);
                assert(b.contains(b[j - a.len()]));
            } else {
                assert(r[j] == a[j]);
            }
        }
    } else {
        let q = lowercase(query);
        let ls = ps.map_values(|p: Seq<char>| lowercase(p));
        let ord = rank_order(q, ps);
        lemma_rank_order_total(q, ps);
        scored(q, ls).lemma_sort_by_ensures(ord);
        let sorted = scored(q, ls).sort_by(ord);
        assert forall|i: int, j: int| 0 <= i < j < r.len() && is_aur(ps[r[i]]) implies is_aur(
            ps[r[j]],
        ) by {
            assert(ord(sorted[i], sorted[j]));
            assert(r[i] == sorted[i].0 && r[j] == sorted[j].0);
        }
    }
}

/// Among packages on the same side of the AUR divide, a package whose name
/// the query names exactly is listed before those it does not.
pub proof fn lemma_exact_names_first(query: Seq<char>, ps: Seq<Seq<char>>)
    requires
        query.len() > 0,
    ensures
        forall|i: int, j: int|
            0 <= i < j < search_results(query, ps).len() && is_aur(ps[search_results(query, ps)[i]])
                == is_aur(ps[search_results(query, ps)[j]]) && is_exact(
                lowercase(query),
                ps[search_results(query, ps)[j]],
            ) ==> is_exact(lowercase(query), ps[search_results(query, ps)[i]]),
{
    let r = search_results(query, ps);
    let q = lowercase(query);
    let ls = ps.map_values(|p: Seq<char>| lowercase(p));
    let ord = rank_order(q, ps);
    lemma_rank_order_total(q, ps);
    scored(q, ls).lemma_sort_by_ensures(ord);
    let sorted = scored(q, ls).sort_by(ord);
    assert forall|i: int, j: int|
        0 <= i < j < r.len() && is_aur(ps[r[i]]) == is_aur(ps[r[j]]) && is_exact(q, ps[r[j]]) implies is_exact(
        q,
        ps[r[i]],
    ) by {
        assert(ord(sorted[i], sorted[j]));
        assert(r[i] == sorted[i].0 && r[j] == sorted[j].0);
    }
}

/// A search lists each matching package exactly once and nothing else:
/// with an empty query every package, otherwise those whose lower-case
/// name the lower-case query matches.
pub proof fn lemma_search_lists_the_matches(query: Seq<char>, ps: Seq<Seq<char>>)
    ensures
        forall|i: int|
            search_results(query, ps).contains(i) <==> (0 <= i < ps.len() && (query.len() == 0
                || checked_score(lowercase(query), lowercase(ps[i])) is Some)),
        search_results(query, ps).no_duplicates(),
{
    broadcast use vstd::seq_lib::group_to_multiset_ensures;

    let r = search_results(query, ps);
    if query.len() == 0 {
        let a = positions_by_aur(ps, false);
        let b = positions_by_aur(ps, true);
        lemma_positions_by_aur_members(ps, false);
        lemma_positions_by_aur_members(ps, true);
        assert forall|i: int| r.contains(i) <==> (0 <= i < ps.len()) by {
            if r.contains(i) {
                let k = choose|k: int| 0 <= k < r.len() && r[k] == i;
                if k < a.len() {
                    assert(r[k] == a[k]);
                    assert(a.contains(i));
                } else {
                    assert(r[k] == b[k - a.len()]);
                    assert(b.contains(i));
                }
            }
            if 0 <= i < ps.len() {
                if is_aur(ps[i]) {
                    assert(b.contains(i));
                    let k = choose|k: int| 0 <= k < b.len() && b[k] == i;
                    assert(r[a.len() + k] == i);
                } else {
                    assert(a.contains(i));
                    let k = choose|k: int| 0 <= k < a.len() && a[k] == i;
                    assert(r[k] == i);
                }
            }
        }
        assert forall|x: int, y: int| 0 <= x < r.len() && 0 <= y < r.len() && x != y implies r[x]
            != r[y] by {
            if x < a.len() && y < a.len() {
                assert(r[x] == a[x] && r[y] == a[y]);
            } else if x >= a.len() && y >= a.len() {
                assert(r[x] == b[x - a.len()] && r[y] == b[y - a.len()]);
            } else if x < a.len() {
                assert(r[x] == a[x] && r[y] == b[y - a.len()]);
                assert(a.contains(a[x]) && b.contains(b[y - a.len()]));
            } else {
                assert(r[y] == a[y] && r[x] == b[x - a.len()]);
                assert(a.contains(a[y]) && b.contains(b[x - a.len()]));
            }
        }
    } else {
        let q = lowercase(query);
        let ls = ps.map_values(|p: Seq<char>| lowercase(p));
        let sc = scored(q, ls);
        let ord = rank_order(q, ps);
        lemma_rank_order_total(q, ps);
        lemma_scored_members(q, ls);
        sc.lemma_sort_by_ensures(ord);
        let sorted = sc.sort_by(ord);
        assert forall|m: (int, int)| sorted.contains(m) <==> sc.contains(m) by {
            assert(sorted.contains(m) <==> sorted.to_multiset().count(m) > 0);
            assert(sc.contains(m) <==> sc.to_multiset().count(m) > 0);
        }
        assert forall|i: int| r.contains(i) <==> (0 <= i < ps.len() && checked_score(
            q,
            lowercase(ps[i]),
        ) is Some) by {
            if r.contains(i) {
                let k = choose|k: int| 0 <= k < r.len() && r[k] == i;
                assert(sorted.contains(sorted[k]));
                assert(sc.contains(sorted[k]));
            }
            if 0 <= i < ps.len() && checked_score(q, lowercase(ps[i])) is Some {
                let m = (i, checked_score(q, ls[i])->0);
                assert(sc.contains(m));
                assert(sorted.contains(m));
                let k = choose|k: int| 0 <= k < sorted.len() && sorted[k] == m;
                assert(r[k] == i);
            }
        }
        assert(sc.no_duplicates()) by {
            assert forall|x: int, y: int| 0 <= x < sc.len() && 0 <= y < sc.len() && x != y implies sc[x]
                != sc[y] by {
                if x < y {
                    assert(sc[x].0 < sc[y].0);
                } else {
                    assert(sc[y].0 < sc[x].0);
                }
            }
        }
        sc.lemma_multiset_has_no_duplicates();
        assert forall|x: int, y: int| 0 <= x < r.len() && 0 <= y < r.len() && x != y implies r[x]
            != r[y] by {
            assert(sorted.contains(sorted[x]) && sorted.contains(sorted[y]));
            assert(sc.contains(sorted[x]) && sc.contains(sorted[y]));
            if r[x] == r[y] {
                assert(sorted[x].1 == sorted[y].1);
                assert(sorted[x] == sorted[y]);
                let m = sorted[x];
                assert(sorted.remove(x).contains(m)) by {
                    if y < x {
                        assert(sorted.remove(x)[y] == m);
                    } else {
                        assert(sorted.remove(x)[y - 1] == m);
                    }
                }
                assert(sorted.remove(x).to_multiset() =~= sorted.to_multiset().remove(m));
                assert(sorted.to_multiset().count(m) == 1);
                assert(sorted.remove(x).to_multiset().count(m) == 0);
            }
        }
    }
}

} // verus!
