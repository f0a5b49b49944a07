//! Character-level building blocks of the parsers: scanning for a delimiter,
//! trimming, tokenizing on whitespace, cutting a text into lines, and moving
//! between `str`, `String` and slices of `char`.
//!
//! The parsers work on slices of `char`; what each function returns is stated
//! by a spec function on `Seq<char>`.

use vstd::prelude::*;
use vstd::slice::slice_subrange;

verus! {

/// `String::push` of the standard library: the character is appended at the
/// end of the string and nothing else changes.
pub assume_specification[ String::push ](s: &mut String, ch: char)
    ensures
        final(s)@ == old(s)@.push(ch),
;

/// Whether `c` has the Unicode `White_Space` property.
pub open spec fn is_whitespace(c: char) -> bool {
    let n = c as u32;
    ||| 0x09 <= n <= 0x0D
    ||| n == 0x20
    ||| n == 0x85
    ||| n == 0xA0
    ||| n == 0x1680
    ||| 0x2000 <= n <= 0x200A
    ||| n == 0x2028
    ||| n == 0x2029
    ||| n == 0x202F
    ||| n == 0x205F
    ||| n == 0x3000
}

/// Number of characters of `s` before the first occurrence of `c`; the length
/// of `s` when `c` does not occur.
pub open spec fn position(s: Seq<char>, c: char) -> nat
    decreases s.len(),
{
    if s.len() == 0 || s[0] == c {
        0
    } else {
        1 + position(s.drop_first(), c)
    }
}

/// Length of the longest prefix of `s` made of whitespace only.
pub open spec fn leading_spaces(s: Seq<char>) -> nat
    decreases s.len(),
{
    if s.len() > 0 && is_whitespace(s[0]) {
        1 + leading_spaces(s.drop_first())
    } else {
        0
    }
}

/// Length of the longest suffix of `s` made of whitespace only.
pub open spec fn trailing_spaces(s: Seq<char>) -> nat
    decreases s.len(),
{
    if s.len() > 0 && is_whitespace(s.last()) {
        1 + trailing_spaces(s.drop_last())
    } else {
        0
    }
}

/// Length of the longest prefix of `s` that holds no whitespace.
pub open spec fn word_length(s: Seq<char>) -> nat
    decreases s.len(),
{
    if s.len() > 0 && !is_whitespace(s[0]) {
        1 + word_length(s.drop_first())
    } else {
        0
    }
}

/// `s` without its leading and trailing whitespace.
pub open spec fn trim(s: Seq<char>) -> Seq<char> {
    let t = s.skip(leading_spaces(s) as int);
    t.take(t.len() - trailing_spaces(t))
}

/// `s` cut at the first occurrence of `c`: what stands before it and what
/// stands after it. `None` when `c` does not occur.
pub open spec fn split_once(s: Seq<char>, c: char) -> Option<(Seq<char>, Seq<char>)> {
    let p = position(s, c) as int;
    if p < s.len() {
        Some((s.take(p), s.skip(p + 1)))
    } else {
        None
    }
}

/// The first whitespace-separated token of `s` and what follows it. `None`
/// when `s` holds nothing but whitespace.
pub open spec fn next_token(s: Seq<char>) -> Option<(Seq<char>, Seq<char>)> {
    let t = s.skip(leading_spaces(s) as int);
    if t.len() == 0 {
        None
    } else {
        let w = word_length(t) as int;
        Some((t.take(w), t.skip(w)))
    }
}

/// The first line of a non-empty text `s`. A line ends before a line feed; a
/// carriage return directly before that line feed belongs to the terminator.
/// A last line without a line feed is kept as it stands.
pub open spec fn first_line(s: Seq<char>) -> Seq<char> {
    let p = position(s, '\n') as int;
    if p < s.len() && p > 0 && s[p - 1] == '\r' {
        s.take(p - 1)
    } else {
        s.take(p)
    }
}

/// What follows the first line of `s` and its terminator.
pub open spec fn after_first_line(s: Seq<char>) -> Seq<char> {
    let p = position(s, '\n') as int;
    if p < s.len() {
        s.skip(p + 1)
    } else {
        Seq::empty()
    }
}

/// Whether `pattern` occurs in `s` as a contiguous run.
pub open spec fn has_substring(s: Seq<char>, pattern: Seq<char>) -> bool {
    exists|i: int|
        0 <= i && i + pattern.len() <= s.len() && #[trigger] s.subrange(i, i + pattern.len())
            == pattern
}

/// `position(s, c)` is the one index `n` such that `c` does not occur before
/// `n` and `n` is either the end of `s` or an occurrence of `c`.
pub proof fn lemma_position(s: Seq<char>, c: char, n: int)
    requires
        0 <= n <= s.len(),
        forall|j: int| 0 <= j < n ==> s[j] != c,
        n == s.len() || s[n] == c,
    ensures
        position(s, c) == n,
    decreases s.len(),
{
    if n > 0 {
        lemma_position(s.drop_first(), c, n - 1);
    }
}

/// `position` never exceeds the length, no earlier character is `c`, and the
/// character at that index, if there is one, is `c`.
pub proof fn lemma_position_bounds(s: Seq<char>, c: char)
    ensures
        position(s, c) <= s.len(),
        forall|j: int| 0 <= j < position(s, c) ==> s[j] != c,
        position(s, c) < s.len() ==> s[position(s, c) as int] == c,
    decreases s.len(),
{
    if !(s.len() == 0 || s[0] == c) {
        let t = s.drop_first();
        lemma_position_bounds(t, c);
        assert forall|j: int| 0 <= j < position(s, c) implies s[j] != c by {
            if j > 0 {
                assert(s[j] == t[j - 1]);
            }
        }
    }
}

/// `leading_spaces(s)` is the one index `n` such that all before `n` is
/// whitespace and `n` is either the end of `s` or no whitespace.
pub proof fn lemma_leading_spaces(s: Seq<char>, n: int)
    requires
        0 <= n <= s.len(),
        forall|j: int| 0 <= j < n ==> is_whitespace(s[j]),
        n == s.len() || !is_whitespace(s[n]),
    ensures
        leading_spaces(s) == n,
    decreases s.len(),
{
    if n > 0 {
        lemma_leading_spaces(s.drop_first(), n - 1);
    }
}

/// `trailing_spaces(s)` is the one count `n` such that the last `n`
/// characters are whitespace and the one before them, if any, is not.
pub proof fn lemma_trailing_spaces(s: Seq<char>, n: int)
    requires
        0 <= n <= s.len(),
        forall|j: int| s.len() - n <= j < s.len() ==> is_whitespace(s[j]),
        n == s.len() || !is_whitespace(s[s.len() - n - 1]),
    ensures
        trailing_spaces(s) == n,
    decreases s.len(),
{
    if n > 0 {
        lemma_trailing_spaces(s.drop_last(), n - 1);
    }
}

/// `word_length(s)` is the one index `n` such that nothing before `n` is
/// whitespace and `n` is either the end of `s` or whitespace.
pub proof fn lemma_word_length(s: Seq<char>, n: int)
    requires
        0 <= n <= s.len(),
        forall|j: int| 0 <= j < n ==> !is_whitespace(s[j]),
        n == s.len() || is_whitespace(s[n]),
    ensures
        word_length(s) == n,
    decreases s.len(),
{
    if n > 0 {
        lemma_word_length(s.drop_first(), n - 1);
    }
}

/// A word between whitespace is the next token: where `lead` is whitespace
/// only, `word` is not empty and holds no whitespace, and `rest` is empty or
/// begins with whitespace, the first token of `lead + word + rest` is `word`
/// and `rest` is what follows it.
pub proof fn lemma_next_token(lead: Seq<char>, word: Seq<char>, rest: Seq<char>)
    requires
        forall|j: int| 0 <= j < lead.len() ==> is_whitespace(lead[j]),
        word.len() > 0,
        forall|j: int| 0 <= j < word.len() ==> !is_whitespace(word[j]),
        rest.len() == 0 || is_whitespace(rest[0]),
    ensures
        next_token(lead + word + rest) == Some((word, rest)),
{
    let s = lead + word + rest;
    lemma_leading_spaces(s, lead.len() as int);
    let t = s.skip(lead.len() as int);
    assert(t =~= word + rest);
    lemma_word_length(t, word.len() as int);
    assert(t.take(word.len() as int) =~= word);
    assert(t.skip(word.len() as int) =~= rest);
}

/// A text without a line feed is its own first line, and nothing follows
/// that line.
pub proof fn lemma_single_line(s: Seq<char>)
    requires
        forall|j: int| 0 <= j < s.len() ==> s[j] != '\n',
    ensures
        first_line(s) == s,
        after_first_line(s) == Seq::<char>::empty(),
{
    lemma_position(s, '\n', s.len() as int);
    assert(s.take(s.len() as int) =~= s);
}

/// Whether `c` is whitespace.
pub fn is_space(c: char) -> (r: bool)
    ensures
        r == is_whitespace(c),
{
    let n: u32 = c as u32;
    (0x09 <= n && n <= 0x0D) || n == 0x20 || n == 0x85 || n == 0xA0 || n == 0x1680 || (0x2000 <= n
        && n <= 0x200A) || n == 0x2028 || n == 0x2029 || n == 0x202F || n == 0x205F || n == 0x3000
}

/// The characters of `s`, in order.
pub fn to_chars(s: &str) -> (chars: Vec<char>)
    ensures
        chars@ == s@,
{
    let mut chars: Vec<char> = Vec::new();
    for c in it: s.chars()
        invariant
            it.seq() == s@,
            chars@ == s@.take(it.index()),
    {
        chars.push(c);
    }
    chars
}

/// A string made of the characters of `chars`, in order.
pub fn to_string(chars: &[char]) -> (s: String)
    ensures
        s@ == chars@,
{
    let mut s = String::new();
    let mut i: usize = 0;
    while i < chars.len()
        invariant
            i <= chars.len(),
            s@ == chars@.take(i as int),
        decreases chars.len() - i,
    {
        s.push(chars[i]);
        i += 1;
    }
    s
}

/// Index of the first occurrence of `c` in `s`, or the length of `s`.
pub fn find(s: &[char], c: char) -> (n: usize)
    ensures
        n == position(s@, c),
        n <= s@.len(),
{
    let mut i: usize = 0;
    while i < s.len() && s[i] != c
        invariant
            i <= s.len(),
            forall|j: int| 0 <= j < i ==> s@[j] != c,
        decreases s.len() - i,
    {
        i += 1;
    }
    proof {
        lemma_position(s@, c, i as int);
    }
    i
}

/// The parts of `s` before and after the first occurrence of `c`.
pub fn cut<'a>(s: &'a [char], c: char) -> (r: Option<(&'a [char], &'a [char])>)
    ensures
        match r {
            Some((before, after)) => split_once(s@, c) == Some((before@, after@)),
            None => split_once(s@, c) is None,
        },
{
    let p = find(s, c);
    if p < s.len() {
        Some((slice_subrange(s, 0, p), slice_subrange(s, p + 1, s.len())))
    } else {
        None
    }
}

/// `s` without its leading and trailing whitespace.
pub fn trimmed<'a>(s: &'a [char]) -> (r: &'a [char])
    ensures
        r@ == trim(s@),
{
    let mut from: usize = 0;
    while from < s.len() && is_space(s[from])
        invariant
            from <= s.len(),
            forall|j: int| 0 <= j < from ==> is_whitespace(s@[j]),
        decreases s.len() - from,
    {
        from += 1;
    }
    let mut to: usize = s.len();
    while to > from && is_space(s[to - 1])
        invariant
            from <= to <= s.len(),
            forall|j: int| to <= j < s.len() ==> is_whitespace(s@[j]),
        decreases to,
    {
        to -= 1;
    }
    proof {
        lemma_leading_spaces(s@, from as int);
        let t = s@.skip(from as int);
        lemma_trailing_spaces(t, s.len() - to);
    }
    slice_subrange(s, from, to)
}

/// The first whitespace-separated token of `s` and what follows it.
pub fn token<'a>(s: &'a [char]) -> (r: Option<(&'a [char], &'a [char])>)
    ensures
        match r {
            Some((word, rest)) => next_token(s@) == Some((word@, rest@)),
            None => next_token(s@) is None,
        },
{
    let mut from: usize = 0;
    while from < s.len() && is_space(s[from])
        invariant
            from <= s.len(),
            forall|j: int| 0 <= j < from ==> is_whitespace(s@[j]),
        decreases s.len() - from,
    {
        from += 1;
    }
    proof {
        lemma_leading_spaces(s@, from as int);
    }
    if from == s.len() {
        return None;
    }
    let mut to: usize = from;
    while to < s.len() && !is_space(s[to])
        invariant
            from <= to <= s.len(),
            forall|j: int| from <= j < to ==> !is_whitespace(s@[j]),
        decreases s.len() - to,
    {
        to += 1;
    }
    proof {
        lemma_word_length(s@.skip(from as int), to - from);
    }
    Some((slice_subrange(s, from, to), slice_subrange(s, to, s.len())))
}

/// The first line of `s` and what follows its terminator.
pub fn split_line<'a>(s: &'a [char]) -> (r: (&'a [char], &'a [char]))
    ensures
        r.0@ == first_line(s@),
        r.1@ == after_first_line(s@),
{
    let p = find(s, '\n');
    if p < s.len() {
        let end = if p > 0 && s[p - 1] == '\r' {
            p - 1
        } else {
            p
        };
        (slice_subrange(s, 0, end), slice_subrange(s, p + 1, s.len()))
    } else {
        (s, slice_subrange(s, p, p))
    }
}

/// Whether `pattern` occurs in `s` as a contiguous run.
pub fn contains(s: &[char], pattern: &[char]) -> (r: bool)
    ensures
        r == has_substring(s@, pattern@),
{
    if pattern.len() > s.len() {
        return false;
    }
    let last: usize = s.len() - pattern.len();
    let mut i: usize = 0;
    while i <= last
        invariant
            last + pattern.len() == s.len(),
            i <= last + 1,
            forall|k: int| 0 <= k < i ==> #[trigger] s@.subrange(k, k + pattern@.len()) != pattern@,
        decreases last + 1 - i,
    {
        let mut j: usize = 0;
        while j < pattern.len() && s[i + j] == pattern[j]
            invariant
                last + pattern.len() == s.len(),
                i <= last,
                j <= pattern@.len(),
                forall|k: int| 0 <= k < j ==> s@[i + k] == pattern@[k],
            decreases pattern.len() - j,
        {
            j += 1;
        }
        if j == pattern.len() {
            assert(s@.subrange(i as int, i + pattern@.len()) =~= pattern@);
            return true;
        }
        assert(s@.subrange(i as int, i + pattern@.len())[j as int] != pattern@[j as int]);
        i += 1;
    }
    false
}

/// Whether `s` spells exactly the text `literal`.
pub fn spells(s: &[char], literal: &str) -> (r: bool)
    ensures
        r == (s@ == literal@),
{
    let mut same = true;
    let mut i: usize = 0;
    for c in it: literal.chars()
        invariant
            it.seq() == literal@,
            same ==> i == it.index() && i <= s@.len() && s@.take(i as int) == literal@.take(
                i as int,
            ),
            !same ==> s@ != literal@,
    {
        if same {
            if i < s.len() && s[i] == c {
                assert(s@.take(i + 1) =~= s@.take(i as int).push(s@[i as int]));
                assert(literal@.take(i + 1) =~= literal@.take(i as int).push(c));
                i += 1;
            } else {
                assert(i < s@.len() ==> s@[i as int] != literal@[i as int]);
                same = false;
            }
        }
    }
    proof {
        if same && i == s@.len() {
            assert(s@ =~= s@.take(i as int));
            assert(literal@ =~= literal@.take(i as int));
        }
    }
    same && i == s.len()
}

} // verus!
