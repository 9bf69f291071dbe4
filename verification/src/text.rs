//! Character and line handling shared by the package and cache code.
//!
//! Text is handled as sequences of `char`; the spec functions here describe
//! what splitting a text into lines, trimming and splitting into words mean.
use vstd::prelude::*;

verus! {

/// The characters with the Unicode `White_Space` property.
pub open spec fn is_white_space(c: char) -> bool {
    let x = c as u32;
    ||| 0x09 <= x <= 0x0d
    ||| x == 0x20
    ||| x == 0x85
    ||| x == 0xa0
    ||| x == 0x1680
    ||| 0x2000 <= x <= 0x200a
    ||| x == 0x2028
    ||| x == 0x2029
    ||| x == 0x202f
    ||| x == 0x205f
    ||| x == 0x3000
}

/// The characters of the Unicode general category `Cc`.
pub open spec fn is_control_char(c: char) -> bool {
    let x = c as u32;
    x <= 0x1f || (0x7f <= x && x <= 0x9f)
}

/// Whether `c` is a Unicode white-space character.
pub fn is_whitespace(c: char) -> (b: bool)
    ensures
        b == is_white_space(c),
{
    let x = c as u32;
    (0x09 <= x && x <= 0x0d) || x == 0x20 || x == 0x85 || x == 0xa0 || x == 0x1680 || (0x2000
        <= x && x <= 0x200a) || x == 0x2028 || x == 0x2029 || x == 0x202f || x == 0x205f || x
        == 0x3000
}

/// Whether `c` is a control character.
pub fn is_control(c: char) -> (b: bool)
    ensures
        b == is_control_char(c),
{
    let x = c as u32;
    x <= 0x1f || (0x7f <= x && x <= 0x9f)
}

/// The characters of `s`, in order.
pub fn chars_of(s: &str) -> (v: Vec<char>)
    ensures
        v@ == s@,
{
    broadcast use vstd::string::axiom_spec_iter;

    let mut v: Vec<char> = Vec::new();
    for c in it: s.chars()
        invariant
            v@ == it.seq().take(it.index() as int),
            it.seq() == s@,
    {
        v.push(c);
    }
    v
}

/// `String::push`: appends one character.
#[verifier::external_body]
pub(crate) fn push_char(s: &mut String, c: char)
    ensures
        final(s)@ == old(s)@.push(c),
{
    s.push(c);
}

/// Appends a string slice.
pub(crate) fn push_str(s: &mut String, t: &str)
    ensures
        final(s)@ == old(s)@ + t@,
{
    s.append(t);
}

/// The string made of the given characters.
pub fn string_of(v: &[char]) -> (s: String)
    ensures
        s@ == v@,
{
    let mut s = String::new();
    let mut i: usize = 0;
    while i < v.len()
        invariant
            i <= v@.len(),
            s@ == v@.take(i as int),
        decreases v@.len() - i,
    {
        push_char(&mut s, v[i]);
        assert(v@.take(i + 1) =~= v@.take(i as int).push(v@[i as int]));
        i += 1;
    }
    assert(v@.take(v@.len() as int) =~= v@);
    s
}

/// A string slice copied into an owned string.
pub fn owned(t: &str) -> (s: String)
    ensures
        s@ == t@,
{
    t.to_owned()
}

/// `a` followed by `b`, as a new string.
pub fn concat(a: &str, b: &str) -> (s: String)
    ensures
        s@ == a@ + b@,
{
    let mut s = a.to_owned();
    push_str(&mut s, b);
    s
}

// ---------------------------------------------------------------------------
// Trimming
// ---------------------------------------------------------------------------
/// `s` without its leading white space.
pub open spec fn trim_start(s: Seq<char>) -> Seq<char>
    decreases s.len(),
{
    if s.len() > 0 && is_white_space(s[0]) {
        trim_start(s.drop_first())
    } else {
        s
    }
}

/// `s` without its trailing white space.
pub open spec fn trim_end(s: Seq<char>) -> Seq<char>
    decreases s.len(),
{
    if s.len() > 0 && is_white_space(s.last()) {
        trim_end(s.drop_last())
    } else {
        s
    }
}

/// `s` without leading and trailing white space (`str::trim`).
pub open spec fn trim(s: Seq<char>) -> Seq<char> {
    trim_end(trim_start(s))
}

/// A text that trimming leaves as it is.
pub open spec fn is_trimmed(s: Seq<char>) -> bool {
    s.len() > 0 ==> !is_white_space(s[0]) && !is_white_space(s.last())
}

proof fn lemma_trim_start_skip(s: Seq<char>, i: int)
    requires
        0 <= i < s.len(),
        is_white_space(s[i]),
    ensures
        trim_start(s.skip(i)) == trim_start(s.skip(i + 1)),
{
    assert(s.skip(i).drop_first() =~= s.skip(i + 1));
}

proof fn lemma_trim_end_take(s: Seq<char>, j: int)
    requires
        0 < j <= s.len(),
        is_white_space(s[j - 1]),
    ensures
        trim_end(s.take(j)) == trim_end(s.take(j - 1)),
{
    assert(s.take(j).drop_last() =~= s.take(j - 1));
}

/// Trimming a text that has nothing to trim gives it back.
pub proof fn lemma_trim_trimmed(s: Seq<char>)
    requires
        is_trimmed(s),
    ensures
        trim(s) == s,
{
}

/// The characters of `s` with white space removed at both ends.
pub fn trim_chars(s: &[char]) -> (t: Vec<char>)
    ensures
        t@ == trim(s@),
{
    let mut i: usize = 0;
    assert(s@.skip(0) =~= s@);
    while i < s.len() && is_whitespace(s[i])
        invariant
            i <= s@.len(),
            trim_start(s@) == trim_start(s@.skip(i as int)),
        decreases s@.len() - i,
    {
        proof {
            lemma_trim_start_skip(s@, i as int);
        }
        i += 1;
    }
    assert(trim_start(s@) == s@.skip(i as int));
    let ghost u = s@.skip(i as int);
    let mut j: usize = s.len();
    assert(u.take(j - i) =~= u);
    while j > i && is_whitespace(s[j - 1])
        invariant
            i <= j <= s@.len(),
            u == s@.skip(i as int),
            trim_end(u) == trim_end(u.take(j - i)),
        decreases j,
    {
        proof {
            assert(u[j - i - 1] == s@[j - 1]);
            lemma_trim_end_take(u, j - i);
        }
        j -= 1;
    }
    assert(u.take(j - i) =~= s@.subrange(i as int, j as int));
    let mut t: Vec<char> = Vec::new();
    let mut k: usize = i;
    while k < j
        invariant
            i <= k <= j <= s@.len(),
            t@ == s@.subrange(i as int, k as int),
        decreases j - k,
    {
        t.push(s[k]);
        assert(s@.subrange(i as int, k + 1) =~= s@.subrange(i as int, k as int).push(s@[k as int]));
        k += 1;
    }
    t
}

// ---------------------------------------------------------------------------
// Words
// ---------------------------------------------------------------------------
/// The number of characters before the first white space in `s`.
pub open spec fn word_len(s: Seq<char>) -> nat
    decreases s.len(),
{
    if s.len() == 0 || is_white_space(s[0]) {
        0
    } else {
        1 + word_len(s.drop_first())
    }
}

/// The white-space separated words of `s` (`str::split_whitespace`).
pub open spec fn words(s: Seq<char>) -> Seq<Seq<char>>
    decreases s.len(),
{
    if s.len() == 0 {
        seq![]
    } else if is_white_space(s[0]) {
        words(s.drop_first())
    } else {
        let n = word_len(s);
        proof {
            lemma_word_len_bound(s);
            reveal_with_fuel(word_len, 2);
        }
        seq![s.take(n as int)] + words(s.skip(n as int))
    }
}

/// The word at the start of a text is no longer than the text, holds no
/// white space, and is followed by white space or the end of the text.
pub proof fn lemma_word_len_bound(s: Seq<char>)
    ensures
        word_len(s) <= s.len(),
        forall|k: int| 0 <= k < word_len(s) ==> !is_white_space(#[trigger] s[k]),
        word_len(s) < s.len() ==> is_white_space(s[word_len(s) as int]),
    decreases s.len(),
{
    if s.len() > 0 && !is_white_space(s[0]) {
        lemma_word_len_bound(s.drop_first());
        assert forall|k: int| 0 <= k < word_len(s) implies !is_white_space(#[trigger] s[k]) by {
            if k > 0 {
                assert(s[k] == s.drop_first()[k - 1]);
            }
        }
    }
}

proof fn lemma_word_len_step(s: Seq<char>, i: int)
    requires
        0 <= i < s.len(),
        !is_white_space(s[i]),
    ensures
        word_len(s.skip(i)) == 1 + word_len(s.skip(i + 1)),
{
    assert(s.skip(i).drop_first() =~= s.skip(i + 1));
}

proof fn lemma_words_skip_space(s: Seq<char>, i: int)
    requires
        0 <= i < s.len(),
        is_white_space(s[i]),
    ensures
        words(s.skip(i)) == words(s.skip(i + 1)),
{
    assert(s.skip(i).drop_first() =~= s.skip(i + 1));
}

/// Every word of a text is non-empty and holds no white space.
pub proof fn lemma_words_are_words(s: Seq<char>)
    ensures
        forall|k: int|
            0 <= k < words(s).len() ==> (#[trigger] words(s)[k]).len() > 0 && forall|m: int|
                0 <= m < words(s)[k].len() ==> !is_white_space(#[trigger] words(s)[k][m]),
    decreases s.len(),
{
    if s.len() == 0 {
    } else if is_white_space(s[0]) {
        lemma_words_are_words(s.drop_first());
        assert(words(s) == words(s.drop_first()));
    } else {
        let n = word_len(s);
        lemma_word_len_bound(s);
        assert(n > 0) by {
            reveal_with_fuel(word_len, 2);
        }
        lemma_words_are_words(s.skip(n as int));
        let w = words(s);
        assert forall|k: int| 0 <= k < w.len() implies (#[trigger] w[k]).len() > 0 && forall|m: int|
            0 <= m < w[k].len() ==> !is_white_space(#[trigger] w[k][m]) by {
            if k == 0 {
                assert(w[0] == s.take(n as int));
                assert forall|m: int| 0 <= m < w[k].len() implies !is_white_space(
                    #[trigger] w[k][m],
                ) by {
                    assert(w[k][m] == s[m]);
                }
            } else {
                let r = words(s.skip(n as int));
                assert(w[k] == r[k - 1]);
                assert(r[k - 1].len() > 0);
                assert forall|m: int| 0 <= m < w[k].len() implies !is_white_space(
                    #[trigger] w[k][m],
                ) by {
                    assert(w[k][m] == r[k - 1][m]);
                }
            }
        }
    }
}

/// The white-space separated words of `s`.
pub fn split_words(s: &[char]) -> (ws: Vec<Vec<char>>)
    ensures
        ws@.len() == words(s@).len(),
        forall|k: int| 0 <= k < ws@.len() ==> (#[trigger] ws@[k])@ == words(s@)[k],
{
    let mut ws: Vec<Vec<char>> = Vec::new();
    let ghost done: Seq<Seq<char>> = seq![];
    let mut i: usize = 0;
    assert(s@.skip(0) =~= s@);
    while i < s.len()
        invariant
            i <= s@.len(),
            ws@.len() == done.len(),
            forall|k: int| 0 <= k < ws@.len() ==> (#[trigger] ws@[k])@ == done[k],
            done + words(s@.skip(i as int)) == words(s@),
        decreases s@.len() - i,
    {
        if is_whitespace(s[i]) {
            proof {
                lemma_words_skip_space(s@, i as int);
            }
            i += 1;
        } else {
            let start = i;
            let mut w: Vec<char> = Vec::new();
            while i < s.len() && !is_whitespace(s[i])
                invariant
                    start <= i <= s@.len(),
                    word_len(s@.skip(start as int)) == (i - start) + word_len(s@.skip(i as int)),
                    w@ == s@.subrange(start as int, i as int),
                decreases s@.len() - i,
            {
                proof {
                    lemma_word_len_step(s@, i as int);
                }
                w.push(s[i]);
                assert(s@.subrange(start as int, i + 1) =~= s@.subrange(start as int, i as int).push(
                    s@[i as int],
                ));
                i += 1;
            }
            proof {
                let u = s@.skip(start as int);
                let n = word_len(u);
                assert(word_len(s@.skip(i as int)) == 0) by {
                    if i < s@.len() {
                        assert(s@.skip(i as int)[0] == s@[i as int]);
                    }
                }
                assert(n == i - start);
                assert(u[0] == s@[start as int]);
                assert(words(u) == seq![u.take(n as int)] + words(u.skip(n as int)));
                assert(u.take(n as int) =~= w@);
                assert(u.skip(n as int) =~= s@.skip(i as int));
                assert(done.push(w@) + words(s@.skip(i as int)) =~= done + words(u));
                done = done.push(w@);
            }
            ws.push(w);
        }
    }
    proof {
        assert(words(s@.skip(i as int)) =~= seq![]);
        assert(done + seq![] =~= done);
    }
    ws
}

// ---------------------------------------------------------------------------
// Lines
// ---------------------------------------------------------------------------
/// The number of characters before the first line feed in `s`.
pub open spec fn line_len(s: Seq<char>) -> nat
    decreases s.len(),
{
    if s.len() == 0 || s[0] == '\n' {
        0
    } else {
        1 + line_len(s.drop_first())
    }
}

/// `t` without one carriage return at its end.
pub open spec fn strip_cr(t: Seq<char>) -> Seq<char> {
    if t.len() > 0 && t.last() == '\r' {
        t.drop_last()
    } else {
        t
    }
}

/// The lines of `s` (`str::lines`): split at `\n` or `\r\n`; a final line
/// ending adds no empty line, and a bare `\r` at the very end is kept.
pub open spec fn lines(s: Seq<char>) -> Seq<Seq<char>>
    decreases s.len(),
{
    if s.len() == 0 {
        seq![]
    } else {
        let n = line_len(s);
        if n < s.len() {
            seq![strip_cr(s.take(n as int))] + lines(s.skip(n as int + 1))
        } else {
            seq![s]
        }
    }
}

proof fn lemma_line_len_bound(s: Seq<char>)
    ensures
        line_len(s) <= s.len(),
        forall|k: int| 0 <= k < line_len(s) ==> #[trigger] s[k] != '\n',
        line_len(s) < s.len() ==> s[line_len(s) as int] == '\n',
    decreases s.len(),
{
    if s.len() > 0 && s[0] != '\n' {
        lemma_line_len_bound(s.drop_first());
        assert forall|k: int| 0 <= k < line_len(s) implies #[trigger] s[k] != '\n' by {
            if k > 0 {
                assert(s[k] == s.drop_first()[k - 1]);
            }
        }
    }
}

proof fn lemma_line_len_step(s: Seq<char>, i: int)
    requires
        0 <= i < s.len(),
        s[i] != '\n',
    ensures
        line_len(s.skip(i)) == 1 + line_len(s.skip(i + 1)),
{
    assert(s.skip(i).drop_first() =~= s.skip(i + 1));
}

/// The lines of `s`.
pub fn split_lines(s: &[char]) -> (ls: Vec<Vec<char>>)
    ensures
        ls@.len() == lines(s@).len(),
        forall|k: int| 0 <= k < ls@.len() ==> (#[trigger] ls@[k])@ == lines(s@)[k],
{
    let mut ls: Vec<Vec<char>> = Vec::new();
    let ghost done: Seq<Seq<char>> = seq![];
    let mut i: usize = 0;
    assert(s@.skip(0) =~= s@);
    while i < s.len()
        invariant
            i <= s@.len(),
            ls@.len() == done.len(),
            forall|k: int| 0 <= k < ls@.len() ==> (#[trigger] ls@[k])@ == done[k],
            done + lines(s@.skip(i as int)) == lines(s@),
        decreases s@.len() - i,
    {
        let start = i;
        let mut line: Vec<char> = Vec::new();
        while i < s.len() && s[i] != '\n'
            invariant
                start <= i <= s@.len(),
                line_len(s@.skip(start as int)) == (i - start) + line_len(s@.skip(i as int)),
                line@ == s@.subrange(start as int, i as int),
            decreases s@.len() - i,
        {
            proof {
                lemma_line_len_step(s@, i as int);
            }
            line.push(s[i]);
            assert(s@.subrange(start as int, i + 1) =~= s@.subrange(start as int, i as int).push(
                s@[i as int],
            ));
            i += 1;
        }
        let ghost u = s@.skip(start as int);
        proof {
            assert(line_len(s@.skip(i as int)) == 0) by {
                if i < s@.len() {
                    assert(s@.skip(i as int)[0] == s@[i as int]);
                }
            }
            assert(line_len(u) == i - start);
            assert(u.take(i - start) =~= line@);
        }
        if i < s.len() {
            // a line ended by a line feed loses a carriage return before it
            let n = line.len();
            if n > 0 && line[n - 1] == '\r' {
                line.pop();
            }
            proof {
                assert(line@ == strip_cr(u.take(i - start)));
                assert(u.skip(i - start + 1) =~= s@.skip(i + 1));
                assert(done.push(line@) + lines(s@.skip(i + 1)) =~= done + lines(u));
                done = done.push(line@);
            }
            ls.push(line);
            i += 1;
        } else {
            proof {
                assert(u =~= line@);
                assert(lines(u) == seq![u]);
                assert(s@.skip(i as int) =~= seq![]);
                assert(done.push(line@) + lines(s@.skip(i as int)) =~= done + lines(u));
                done = done.push(line@);
            }
            ls.push(line);
        }
    }
    proof {
        assert(lines(s@.skip(i as int)) =~= seq![]);
        assert(done + seq![] =~= done);
    }
    ls
}

// ---------------------------------------------------------------------------
// Joining, numbers, case
// ---------------------------------------------------------------------------
/// The views of a sequence of strings.
pub open spec fn strs(v: Seq<String>) -> Seq<Seq<char>> {
    v.map_values(|s: String| s@)
}

/// `parts` with `sep` between each two of them (`[String]::join`).
pub open spec fn join(parts: Seq<Seq<char>>, sep: Seq<char>) -> Seq<char>
    decreases parts.len(),
{
    if parts.len() == 0 {
        seq![]
    } else if parts.len() == 1 {
        parts[0]
    } else {
        join(parts.drop_last(), sep) + sep + parts.last()
    }
}

/// The strings of `parts` with `sep` between each two of them.
pub fn join_strings(parts: &[String], sep: &str) -> (s: String)
    ensures
        s@ == join(strs(parts@), sep@),
{
    let mut s = String::new();
    let ghost all = strs(parts@);
    let mut i: usize = 0;
    while i < parts.len()
        invariant
            i <= parts@.len(),
            all == strs(parts@),
            s@ == join(all.take(i as int), sep@),
        decreases parts@.len() - i,
    {
        proof {
            assert(all.take(i + 1).drop_last() =~= all.take(i as int));
            assert(all.take(i + 1).last() == parts@[i as int]@);
        }
        if i > 0 {
            push_str(&mut s, sep);
        } else {
            assert(all.take(1) =~= seq![parts@[0]@]);
            assert(s@ + parts@[0]@ =~= parts@[0]@);
        }
        push_str(&mut s, parts[i].as_str());
        i += 1;
    }
    assert(all.take(parts@.len() as int) =~= all);
    s
}

/// The decimal digit for `d` (below ten).
pub open spec fn digit(d: nat) -> char {
    (48 + d) as char
}

/// The decimal notation of `n`, without leading zeros.
pub open spec fn decimal(n: nat) -> Seq<char>
    decreases n,
{
    if n < 10 {
        seq![digit(n)]
    } else {
        decimal(n / 10).push(digit(n % 10))
    }
}

/// The decimal notation of `n`, with a minus sign when it is negative.
pub open spec fn signed_decimal(n: int) -> Seq<char> {
    if n < 0 {
        seq!['-'] + decimal((-n) as nat)
    } else {
        decimal(n as nat)
    }
}

fn digit_char(d: u64) -> (c: char)
    requires
        d < 10,
    ensures
        c == digit(d as nat),
{
    match d {
        0 => '0',
        1 => '1',
        2 => '2',
        3 => '3',
        4 => '4',
        5 => '5',
        6 => '6',
        7 => '7',
        8 => '8',
        _ => '9',
    }
}

/// The decimal notation of `n`.
pub fn decimal_string(n: u64) -> (s: String)
    ensures
        s@ == decimal(n as nat),
    decreases n,
{
    if n < 10 {
        let mut s = String::new();
        push_char(&mut s, digit_char(n));
        s
    } else {
        let mut s = decimal_string(n / 10);
        push_char(&mut s, digit_char(n % 10));
        s
    }
}

/// The decimal notation of `n`, with a minus sign when it is negative.
pub fn signed_decimal_string(n: i32) -> (s: String)
    ensures
        s@ == signed_decimal(n as int),
{
    if n < 0 {
        let magnitude: u64 = (-(n as i64)) as u64;
        let digits = decimal_string(magnitude);
        proof {
            reveal_strlit("-");
        }
        concat("-", digits.as_str())
    } else {
        decimal_string(n as u64)
    }
}

/// `c` with ASCII upper-case letters mapped to lower case, as a code point.
pub open spec fn ascii_fold(c: char) -> u32 {
    let x = c as u32;
    if 0x41 <= x <= 0x5a {
        (x + 32) as u32
    } else {
        x
    }
}

/// `a` and `b` are equal when ASCII letters are compared without regard to
/// case (`str::eq_ignore_ascii_case`).
pub open spec fn eq_ignore_ascii_case(a: Seq<char>, b: Seq<char>) -> bool {
    a.len() == b.len() && forall|i: int| 0 <= i < a.len() ==> ascii_fold(#[trigger] a[i]) == ascii_fold(b[i])
}

fn fold(c: char) -> (x: u32)
    ensures
        x == ascii_fold(c),
{
    let x = c as u32;
    if 0x41 <= x && x <= 0x5a {
        x + 32
    } else {
        x
    }
}

/// Whether `a` and `b` are equal up to ASCII case.
pub fn chars_eq_ignore_ascii_case(a: &[char], b: &[char]) -> (r: bool)
    ensures
        r == eq_ignore_ascii_case(a@, b@),
{
    if a.len() != b.len() {
        return false;
    }
    let mut i: usize = 0;
    while i < a.len()
        invariant
            i <= a@.len(),
            a@.len() == b@.len(),
            forall|k: int| 0 <= k < i ==> ascii_fold(#[trigger] a@[k]) == ascii_fold(b@[k]),
        decreases a@.len() - i,
    {
        if fold(a[i]) != fold(b[i]) {
            return false;
        }
        i += 1;
    }
    true
}

/// The position of the first `c` in `s`.
pub fn find_first(s: &[char], c: char) -> (r: Option<usize>)
    ensures
        match r {
            Some(i) => i < s@.len() && s@[i as int] == c && forall|k: int| 0 <= k < i ==> s@[k] != c,
            None => forall|k: int| 0 <= k < s@.len() ==> s@[k] != c,
        },
{
    let mut i: usize = 0;
    while i < s.len()
        invariant
            i <= s@.len(),
            forall|k: int| 0 <= k < i ==> s@[k] != c,
        decreases s@.len() - i,
    {
        if s[i] == c {
            return Some(i);
        }
        i += 1;
    }
    None
}

/// The position of the last `c` in `s`.
pub fn find_last(s: &[char], c: char) -> (r: Option<usize>)
    ensures
        match r {
            Some(i) => i < s@.len() && s@[i as int] == c && forall|k: int| i < k < s@.len() ==> s@[k] != c,
            None => forall|k: int| 0 <= k < s@.len() ==> s@[k] != c,
        },
{
    let mut i: usize = s.len();
    while i > 0
        invariant
            i <= s@.len(),
            forall|k: int| i <= k < s@.len() ==> s@[k] != c,
        decreases i,
    {
        if s[i - 1] == c {
            return Some(i - 1);
        }
        i -= 1;
    }
    None
}

/// A copy of `s[from..to]`.
pub fn slice_chars(s: &[char], from: usize, to: usize) -> (t: Vec<char>)
    requires
        from <= to <= s@.len(),
    ensures
        t@ == s@.subrange(from as int, to as int),
{
    let mut t: Vec<char> = Vec::new();
    let mut k: usize = from;
    while k < to
        invariant
            from <= k <= to <= s@.len(),
            t@ == s@.subrange(from as int, k as int),
        decreases to - k,
    {
        t.push(s[k]);
        assert(s@.subrange(from as int, k + 1) =~= s@.subrange(from as int, k as int).push(s@[k as int]));
        k += 1;
    }
    t
}

} // verus!
