//! Character-level helpers on strings, stated over `Seq<char>`.
//!
//! The spec functions here describe what the std string operations that the
//! application relies on compute (`lines`, `starts_with`, `contains`,
//! `split(..).nth(1)`, `trim`, `replace` and decimal formatting); the
//! executable functions compute the same results on vectors of characters.

use vstd::prelude::*;
use vstd::std_specs::iter::IteratorSpec;

verus! {

// ---------------------------------------------------------------------------
// Specifications
// ---------------------------------------------------------------------------

/// Position of the first occurrence of `c` in `s`, or `s.len()` when absent.
pub open spec fn find_char(s: Seq<char>, c: char) -> nat
    decreases s.len(),
{
    if s.len() == 0 {
        0
    } else if s[0] == c {
        0
    } else {
        1 + find_char(s.drop_first(), c)
    }
}

/// `p` is a prefix of `s`.
pub open spec fn has_prefix(s: Seq<char>, p: Seq<char>) -> bool {
    p.len() <= s.len() && s.subrange(0, p.len() as int) == p
}

/// A line as `str::lines` yields it: a trailing carriage return is dropped
/// when the line was ended by a line feed.
pub open spec fn strip_cr(line: Seq<char>) -> Seq<char> {
    if line.len() > 0 && line.last() == '\r' {
        line.drop_last()
    } else {
        line
    }
}

/// The lines of `s`, as `str::lines` splits them: at each `'\n'`, with the
/// `'\r'` of a `"\r\n"` ending removed and no empty line after a final `'\n'`.
pub open spec fn lines(s: Seq<char>) -> Seq<Seq<char>>
    decreases s.len(),
{
    if s.len() == 0 {
        Seq::empty()
    } else {
        let i = find_char(s, '\n');
        if i >= s.len() {
            seq![s]
        } else {
            seq![strip_cr(s.take(i as int))] + lines(s.skip(i + 1 as int))
        }
    }
}

/// The first line of `ls` that starts with `p`.
pub open spec fn first_with_prefix(ls: Seq<Seq<char>>, p: Seq<char>) -> Option<Seq<char>>
    decreases ls.len(),
{
    if ls.len() == 0 {
        None
    } else if has_prefix(ls[0], p) {
        Some(ls[0])
    } else {
        first_with_prefix(ls.drop_first(), p)
    }
}

/// The second piece of `s` split at `sep`, as `s.split(sep).nth(1)` gives it.
pub open spec fn second_piece(s: Seq<char>, sep: char) -> Option<Seq<char>> {
    let i = find_char(s, sep);
    if i >= s.len() {
        None
    } else {
        let rest = s.skip(i + 1 as int);
        Some(rest.take(find_char(rest, sep) as int))
    }
}

/// Unicode `White_Space`, the property that `char::is_whitespace` tests.
pub open spec fn is_white_space(c: char) -> bool {
    let n = c as u32;
    (0x09 <= n && n <= 0x0d) || n == 0x20 || n == 0x85 || n == 0xa0 || n == 0x1680
        || (0x2000 <= n && n <= 0x200a) || n == 0x2028 || n == 0x2029 || n == 0x202f
        || n == 0x205f || n == 0x3000
}

/// `s` without its leading white space.
pub open spec fn trim_start(s: Seq<char>) -> Seq<char>
    decreases s.len(),
{
    if s.len() > 0 && is_white_space(s[0]) {
        trim_start(s.drop_first())
    } else {
        s
    }
}

/// `s` without its trailing white space.
pub open spec fn trim_end(s: Seq<char>) -> Seq<char>
    decreases s.len(),
{
    if s.len() > 0 && is_white_space(s.last()) {
        trim_end(s.drop_last())
    } else {
        s
    }
}

/// `s` without leading and trailing white space, as `str::trim` gives it.
pub open spec fn trim(s: Seq<char>) -> Seq<char> {
    trim_end(trim_start(s))
}

/// `s` with every occurrence of the non-empty `pat` removed, scanning from the
/// left without overlap, as `s.replace(pat, "")` gives it.
pub open spec fn remove_all(s: Seq<char>, pat: Seq<char>) -> Seq<char>
    decreases s.len(),
{
    if s.len() == 0 || pat.len() == 0 {
        s
    } else if has_prefix(s, pat) {
        remove_all(s.skip(pat.len() as int), pat)
    } else {
        seq![s[0]] + remove_all(s.drop_first(), pat)
    }
}

/// The decimal digit character for `d < 10`.
pub open spec fn digit_char(d: nat) -> char {
    (d + 48) as char
}

/// The decimal representation of `n`, without sign or leading zeros.
pub open spec fn decimal(n: nat) -> Seq<char>
    decreases n,
{
    if n < 10 {
        seq![digit_char(n)]
    } else {
        decimal(n / 10).push(digit_char(n % 10))
    }
}

/// The number that the decimal digits `s` spell, most significant first.
pub open spec fn decimal_value(s: Seq<char>) -> int
    decreases s.len(),
{
    if s.len() == 0 {
        0
    } else {
        decimal_value(s.drop_last()) * 10 + (s.last() as int - 48)
    }
}

/// The decimal representation of `n` is a non-empty run of the digits `0`
/// to `9` that reads back as `n`, and starts with `0` only for zero itself.
pub proof fn law_decimal_reads_back(n: nat)
    ensures
        decimal(n).len() >= 1,
        forall|k: int|
            0 <= k < decimal(n).len() ==> 48 <= #[trigger] decimal(n)[k] as int <= 57,
        decimal_value(decimal(n)) == n,
        decimal(n)[0] == '0' ==> n == 0,
    decreases n,
{
    if n < 10 {
        assert(decimal(n) =~= seq![digit_char(n)]);
        assert(digit_char(n) as int == n + 48);
        assert(decimal(n).drop_last() =~= Seq::<char>::empty());
        assert(decimal_value(Seq::<char>::empty()) == 0);
        assert(decimal_value(decimal(n)) == decimal_value(decimal(n).drop_last()) * 10 + (
        decimal(n).last() as int - 48));
    } else {
        let d = decimal(n / 10);
        law_decimal_reads_back(n / 10);
        assert(decimal(n) == d.push(digit_char(n % 10)));
        assert(decimal(n).drop_last() =~= d);
        assert(digit_char(n % 10) as int == n % 10 + 48);
        assert forall|k: int| 0 <= k < decimal(n).len() implies 48 <= #[trigger] decimal(n)[k] as int
            <= 57 by {
            if k < d.len() {
                assert(decimal(n)[k] == d[k]);
            }
        }
        assert(decimal(n)[0] == d[0]);
        assert(decimal_value(decimal(n)) == decimal_value(d) * 10 + (n % 10));
        assert((n / 10) * 10 + n % 10 == n);
    }
}

// ---------------------------------------------------------------------------
// Lemmas
// ---------------------------------------------------------------------------

pub proof fn lemma_find_char_bound(s: Seq<char>, c: char)
    ensures
        find_char(s, c) <= s.len(),
        find_char(s, c) < s.len() ==> s[find_char(s, c) as int] == c,
        forall|k: int| 0 <= k < find_char(s, c) ==> s[k] != c,
    decreases s.len(),
{
    if s.len() > 0 && s[0] != c {
        lemma_find_char_bound(s.drop_first(), c);
        assert forall|k: int| 0 <= k < find_char(s, c) implies s[k] != c by {
            if k > 0 {
                assert(s[k] == s.drop_first()[k - 1]);
            }
        }
    }
}

pub proof fn lemma_find_char_at(s: Seq<char>, c: char, i: int)
    requires
        0 <= i <= s.len(),
        i < s.len() ==> s[i] == c,
        forall|k: int| 0 <= k < i ==> s[k] != c,
    ensures
        find_char(s, c) == i,
    decreases s.len(),
{
    if s.len() > 0 && i > 0 {
        assert forall|k: int| 0 <= k < i - 1 implies s.drop_first()[k] != c by {
            assert(s.drop_first()[k] == s[k + 1]);
        }
        lemma_find_char_at(s.drop_first(), c, i - 1);
    }
}

proof fn lemma_trim_start_skip(s: Seq<char>, i: int)
    requires
        0 <= i <= s.len(),
        forall|k: int| 0 <= k < i ==> is_white_space(s[k]),
        i < s.len() ==> !is_white_space(s[i]),
    ensures
        trim_start(s) == s.skip(i),
    decreases i,
{
    if i == 0 {
        assert(s.skip(0) =~= s);
    } else {
        assert forall|k: int| 0 <= k < i - 1 implies is_white_space(s.drop_first()[k]) by {
            assert(s.drop_first()[k] == s[k + 1]);
        }
        lemma_trim_start_skip(s.drop_first(), i - 1);
        assert(s.drop_first().skip(i - 1) =~= s.skip(i));
    }
}

proof fn lemma_trim_end_take(s: Seq<char>, j: int)
    requires
        0 <= j <= s.len(),
        forall|k: int| j <= k < s.len() ==> is_white_space(s[k]),
        j > 0 ==> !is_white_space(s[j - 1]),
    ensures
        trim_end(s) == s.take(j),
    decreases s.len() - j,
{
    if j == s.len() {
        assert(s.take(j) =~= s);
    } else {
        assert forall|k: int| j <= k < s.drop_last().len() implies is_white_space(
            s.drop_last()[k],
        ) by {}
        lemma_trim_end_take(s.drop_last(), j);
        assert(s.drop_last().take(j) =~= s.take(j));
    }
}

/// Where `trim_start` cuts `s`: the length of its leading white space.
proof fn lemma_trim_start_index(s: Seq<char>) -> (i: int)
    ensures
        0 <= i <= s.len(),
        forall|k: int| 0 <= k < i ==> is_white_space(#[trigger] s[k]),
        i < s.len() ==> !is_white_space(s[i]),
        trim_start(s) == s.skip(i),
    decreases s.len(),
{
    if s.len() > 0 && is_white_space(s[0]) {
        let r = lemma_trim_start_index(s.drop_first());
        assert forall|k: int| 0 <= k < r + 1 implies is_white_space(#[trigger] s[k]) by {
            if k > 0 {
                assert(s[k] == s.drop_first()[k - 1]);
            }
        }
        assert(s.drop_first().skip(r) =~= s.skip(r + 1));
        r + 1
    } else {
        assert(s.skip(0) =~= s);
        0
    }
}

/// Where `trim_end` cuts `s`: the length without its trailing white space.
proof fn lemma_trim_end_index(s: Seq<char>) -> (j: int)
    ensures
        0 <= j <= s.len(),
        forall|k: int| j <= k < s.len() ==> is_white_space(#[trigger] s[k]),
        j > 0 ==> !is_white_space(s[j - 1]),
        trim_end(s) == s.take(j),
    decreases s.len(),
{
    if s.len() > 0 && is_white_space(s.last()) {
        let r = lemma_trim_end_index(s.drop_last());
        assert forall|k: int| r <= k < s.len() implies is_white_space(#[trigger] s[k]) by {
            if k < s.len() - 1 {
                assert(s[k] == s.drop_last()[k]);
            }
        }
        assert(s.drop_last().take(r) =~= s.take(r));
        r
    } else {
        assert(s.take(s.len() as int) =~= s);
        s.len() as int
    }
}

/// `trim` removes exactly the white space at both ends: what it keeps is a
/// contiguous part of `s` that neither starts nor ends with white space, and
/// everything before and after that part is white space.
pub proof fn law_trim_strips_white_space(s: Seq<char>)
    ensures
        trim(s).len() > 0 ==> !is_white_space(trim(s)[0]) && !is_white_space(trim(s).last()),
        exists|i: int|
            0 <= i && i + trim(s).len() <= s.len() && #[trigger] s.subrange(
                i,
                i + trim(s).len(),
            ) == trim(s) && (forall|k: int| 0 <= k < i ==> is_white_space(#[trigger] s[k])) && (
            forall|k: int| i + trim(s).len() <= k < s.len() ==> is_white_space(#[trigger] s[k])),
{
    let i = lemma_trim_start_index(s);
    let t = s.skip(i);
    let j = lemma_trim_end_index(t);
    assert(trim(s) == t.take(j));
    assert(t.take(j) =~= s.subrange(i, i + j));
    assert forall|k: int| i + j <= k < s.len() implies is_white_space(#[trigger] s[k]) by {
        assert(s[k] == t[k - i]);
    }
    if j > 0 {
        assert(trim(s)[0] == s[i]);
        assert(trim(s).last() == t[j - 1]);
    }
    assert(s.subrange(i, i + trim(s).len()) == trim(s));
}

/// A nonempty string unfolds into its first line and the lines after it.
proof fn lemma_lines_unfold(s: Seq<char>, e: int)
    requires
        0 <= e < s.len(),
        s[e] == '\n',
        forall|k: int| 0 <= k < e ==> s[k] != '\n',
    ensures
        lines(s) == seq![strip_cr(s.take(e))] + lines(s.skip(e + 1)),
{
    lemma_find_char_at(s, '\n', e);
}

proof fn lemma_lines_last(s: Seq<char>)
    requires
        s.len() > 0,
        forall|k: int| 0 <= k < s.len() ==> s[k] != '\n',
    ensures
        lines(s) == seq![s],
{
    lemma_find_char_at(s, '\n', s.len() as int);
}

// ---------------------------------------------------------------------------
// Executable helpers
// ---------------------------------------------------------------------------

/// `String::push` of std: appends one character to the string.
#[verifier::external_body]
fn string_push(s: &mut String, c: char)
    ensures
        final(s)@ == old(s)@.push(c),
{
    s.push(c);
}

/// The characters of `s`, in order.
pub fn chars_of(s: &str) -> (res: Vec<char>)
    ensures
        res@ == s@,
{
    broadcast use vstd::string::group_string_axioms;

    let mut res: Vec<char> = Vec::new();
    let mut it = s.chars();
    loop
        invariant
            res@ + it.remaining() == s@,
            it.decrease() is Some,
        decreases it.decrease()->0,
    {
        match it.next() {
            Some(c) => {
                res.push(c);
                assert(res@ + it.remaining() =~= s@);
            },
            None => {
                assert(res@ =~= s@);
                return res;
            },
        }
    }
}

/// A string made of the characters of `v`.
pub fn string_from(v: &[char]) -> (res: String)
    ensures
        res@ == v@,
{
    let mut res = String::new();
    let mut i: usize = 0;
    while i < v.len()
        invariant
            i <= v.len(),
            res@ == v@.take(i as int),
        decreases v.len() - i,
    {
        string_push(&mut res, v[i]);
        i = i + 1;
        assert(res@ =~= v@.take(i as int));
    }
    assert(v@.take(i as int) =~= v@);
    res
}

/// Appends the characters of `src` to `dst`.
pub fn push_all(dst: &mut Vec<char>, src: &[char])
    ensures
        final(dst)@ == old(dst)@ + src@,
{
    let mut i: usize = 0;
    while i < src.len()
        invariant
            i <= src.len(),
            dst@ == old(dst)@ + src@.take(i as int),
        decreases src.len() - i,
    {
        dst.push(src[i]);
        i = i + 1;
        assert(dst@ =~= old(dst)@ + src@.take(i as int));
    }
    assert(src@.take(i as int) =~= src@);
}

/// Appends the characters of `s` to `dst`.
pub fn push_str(dst: &mut Vec<char>, s: &str)
    ensures
        final(dst)@ == old(dst)@ + s@,
{
    let cs = chars_of(s);
    push_all(dst, cs.as_slice());
}

/// Position of the first `c` in `s` at or after `start`, or `s.len()`.
pub fn find_char_from(s: &[char], c: char, start: usize) -> (res: usize)
    requires
        start <= s.len(),
    ensures
        res == start + find_char(s@.skip(start as int), c),
        start <= res <= s.len(),
        res < s.len() ==> s@[res as int] == c,
        forall|k: int| start <= k < res ==> s@[k] != c,
{
    let mut i = start;
    while i < s.len() && s[i] != c
        invariant
            start <= i <= s.len(),
            forall|k: int| start <= k < i ==> s@[k] != c,
        decreases s.len() - i,
    {
        i = i + 1;
    }
    proof {
        let t = s@.skip(start as int);
        assert forall|k: int| 0 <= k < i - start implies t[k] != c by {
            assert(t[k] == s@[start + k]);
        }
        lemma_find_char_at(t, c, i - start);
    }
    i
}

/// `s[from..to]` starts with `p`.
pub fn range_has_prefix(s: &[char], from: usize, to: usize, p: &[char]) -> (res: bool)
    requires
        from <= to <= s.len(),
    ensures
        res == has_prefix(s@.subrange(from as int, to as int), p@),
{
    let ghost r = s@.subrange(from as int, to as int);
    if p.len() > to - from {
        return false;
    }
    let mut k: usize = 0;
    while k < p.len()
        invariant
            p.len() <= to - from,
            from <= to <= s.len(),
            r == s@.subrange(from as int, to as int),
            k <= p.len(),
            forall|m: int| 0 <= m < k ==> s@[from + m] == p@[m],
        decreases p.len() - k,
    {
        if s[from + k] != p[k] {
            assert(r.subrange(0, p@.len() as int)[k as int] != p@[k as int]);
            return false;
        }
        k = k + 1;
    }
    assert(r.subrange(0, p@.len() as int) =~= p@);
    true
}

/// The line that starts at `start`, as `(line_start, line_end, next_start)`:
/// the line is `s[start..line_end]` with a `'\r'` before the ending `'\n'`
/// removed, and the following line starts at `next_start`.
fn line_at(s: &[char], start: usize) -> (res: (usize, usize))
    requires
        start < s.len(),
    ensures
        start <= res.0 <= res.1 <= s.len(),
        lines(s@.skip(start as int)) == seq![s@.subrange(start as int, res.0 as int)] + lines(
            s@.skip(res.1 as int),
        ),
        res.1 > start,
{
    let e = find_char_from(s, '\n', start);
    let ghost t = s@.skip(start as int);
    if e == s.len() {
        proof {
            assert forall|k: int| 0 <= k < t.len() implies t[k] != '\n' by {
                assert(t[k] == s@[start + k]);
            }
            lemma_lines_last(t);
            assert(t =~= s@.subrange(start as int, e as int));
            assert(lines(s@.skip(e as int)) == Seq::<Seq<char>>::empty());
            assert(seq![t] + Seq::<Seq<char>>::empty() =~= seq![t]);
        }
        (e, e)
    } else {
        proof {
            assert forall|k: int| 0 <= k < e - start implies t[k] != '\n' by {
                assert(t[k] == s@[start + k]);
            }
            assert(t[e - start] == s@[e as int]);
            lemma_lines_unfold(t, e - start);
            assert(t.skip(e - start + 1) =~= s@.skip(e + 1));
        }
        let end = if e > start && s[e - 1] == '\r' {
            e - 1
        } else {
            e
        };
        proof {
            let line = t.take(e - start);
            assert(line =~= s@.subrange(start as int, e as int));
            if e > start && s@[e - 1] == '\r' {
                assert(strip_cr(line) =~= s@.subrange(start as int, end as int));
            } else {
                assert(strip_cr(line) == line);
            }
        }
        (end, e + 1)
    }
}

/// The first line of `s` that starts with `p`, as a range `(from, to)` of `s`.
pub fn first_line_with_prefix(s: &[char], p: &[char]) -> (res: Option<(usize, usize)>)
    ensures
        match res {
            Some((from, to)) => from <= to <= s.len() && first_with_prefix(lines(s@), p@) == Some(
                s@.subrange(from as int, to as int),
            ),
            None => first_with_prefix(lines(s@), p@) is None,
        },
{
    let mut pos: usize = 0;
    assert(s@.skip(0) =~= s@);
    while pos < s.len()
        invariant
            pos <= s.len(),
            first_with_prefix(lines(s@), p@) == first_with_prefix(lines(s@.skip(pos as int)), p@),
        decreases s.len() - pos,
    {
        let (end, next) = line_at(s, pos);
        let ghost ls = lines(s@.skip(pos as int));
        let ghost line = s@.subrange(pos as int, end as int);
        assert(ls[0] == line);
        assert(ls.drop_first() =~= lines(s@.skip(next as int)));
        if range_has_prefix(s, pos, end, p) {
            return Some((pos, end));
        }
        pos = next;
    }
    assert(s@.skip(pos as int) =~= Seq::<char>::empty());
    None
}

/// The position right after the leading white space of `s[from..to]`, and the
/// end of `s[from..to]` without its trailing white space.
pub fn trim_range(s: &[char], from: usize, to: usize) -> (res: (usize, usize))
    requires
        from <= to <= s.len(),
    ensures
        from <= res.0 <= res.1 <= to,
        trim(s@.subrange(from as int, to as int)) == s@.subrange(res.0 as int, res.1 as int),
{
    let ghost r = s@.subrange(from as int, to as int);
    let mut i = from;
    while i < to && is_whitespace_char(s[i])
        invariant
            from <= i <= to <= s.len(),
            forall|k: int| from <= k < i ==> is_white_space(s@[k]),
        decreases to - i,
    {
        i = i + 1;
    }
    proof {
        lemma_trim_start_skip(r, i - from);
        assert(r.skip(i - from) =~= s@.subrange(i as int, to as int));
    }
    let mut j = to;
    while j > i && is_whitespace_char(s[j - 1])
        invariant
            from <= i <= j <= to <= s.len(),
            forall|k: int| j <= k < to ==> is_white_space(s@[k]),
        decreases j - i,
    {
        j = j - 1;
    }
    proof {
        let r2 = s@.subrange(i as int, to as int);
        assert forall|k: int| j - i <= k < r2.len() implies is_white_space(r2[k]) by {
            assert(r2[k] == s@[i + k]);
        }
        lemma_trim_end_take(r2, j - i);
        assert(r2.take(j - i) =~= s@.subrange(i as int, j as int));
    }
    (i, j)
}

/// Whether `c` has the Unicode `White_Space` property.
pub fn is_whitespace_char(c: char) -> (res: bool)
    ensures
        res == is_white_space(c),
{
    let n = c as u32;
    (0x09 <= n && n <= 0x0d) || n == 0x20 || n == 0x85 || n == 0xa0 || n == 0x1680 || (0x2000
        <= n && n <= 0x200a) || n == 0x2028 || n == 0x2029 || n == 0x202f || n == 0x205f || n
        == 0x3000
}

/// Appends the decimal representation of `n` to `dst`.
pub fn push_decimal(dst: &mut Vec<char>, n: u64)
    ensures
        final(dst)@ == old(dst)@ + decimal(n as nat),
    decreases n,
{
    if n < 10 {
        dst.push(digit(n));
        assert(decimal(n as nat) =~= seq![digit_char(n as nat)]);
    } else {
        push_decimal(dst, n / 10);
        dst.push(digit(n % 10));
        assert(old(dst)@ + decimal((n / 10) as nat) + seq![digit_char((n % 10) as nat)] =~= old(
            dst,
        )@ + decimal(n as nat));
    }
}

/// The digit character of `d < 10`.
fn digit(d: u64) -> (res: char)
    requires
        d < 10,
    ensures
        res == digit_char(d as nat),
{
    let b: u8 = d as u8 + 48;
    b as char
}

} // verus!
