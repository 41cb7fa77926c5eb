//! Whitespace, trimming and lines over sequences of characters.

use vstd::prelude::*;
use vstd::std_specs::iter::IteratorSpec;

verus! {

/// Whether `c` is a white-space character: the code points U+0009 to U+000D,
/// U+0020, U+0085, U+00A0, U+1680, U+2000 to U+200A, U+2028, U+2029, U+202F,
/// U+205F and U+3000.
pub open spec fn is_space(c: char) -> bool {
    let n = c as u32;
    ||| 0x09 <= n <= 0x0D
    ||| n == 0x20
    ||| n == 0x85
    ||| n == 0xA0
    ||| n == 0x1680
    ||| 0x2000 <= n <= 0x200A
    ||| n == 0x2028
    ||| n == 0x2029
    ||| n == 0x202F
    ||| n == 0x205F
    ||| n == 0x3000
}

/// Tells whether `c` is a white-space character.
pub fn is_whitespace(c: char) -> (b: bool)
    ensures
        b == is_space(c),
{
    let n: u32 = c as u32;
    (0x09 <= n && n <= 0x0D) || n == 0x20 || n == 0x85 || n == 0xA0 || n == 0x1680 || (0x2000 <= n
        && n <= 0x200A) || n == 0x2028 || n == 0x2029 || n == 0x202F || n == 0x205F || n == 0x3000
}

/// How many white-space characters `s` begins with.
pub open spec fn leading_spaces(s: Seq<char>) -> nat
    decreases s.len(),
{
    if s.len() > 0 && is_space(s[0]) {
        1 + leading_spaces(s.drop_first())
    } else {
        0
    }
}

/// How many white-space characters `s` ends with.
pub open spec fn trailing_spaces(s: Seq<char>) -> nat
    decreases s.len(),
{
    if s.len() > 0 && is_space(s.last()) {
        1 + trailing_spaces(s.drop_last())
    } else {
        0
    }
}

/// `s` without the white space it begins with.
pub open spec fn trim_start(s: Seq<char>) -> Seq<char> {
    s.skip(leading_spaces(s) as int)
}

/// `s` without the white space it ends with.
pub open spec fn trim_end(s: Seq<char>) -> Seq<char> {
    s.take(s.len() - trailing_spaces(s))
}

/// `s` without the white space at either end.
pub open spec fn trim(s: Seq<char>) -> Seq<char> {
    trim_end(trim_start(s))
}

/// The length of the first line of `s`: the number of characters before its
/// first line feed, or all of them where it has none.
pub open spec fn line_len(s: Seq<char>) -> nat
    decreases s.len(),
{
    if s.len() == 0 || s[0] == '\n' {
        0
    } else {
        1 + line_len(s.drop_first())
    }
}

/// The first line of `s`, without its line feed.
pub open spec fn first_line(s: Seq<char>) -> Seq<char> {
    s.take(line_len(s) as int)
}

/// What follows the first line of `s` and its line feed.
pub open spec fn after_first_line(s: Seq<char>) -> Seq<char> {
    if line_len(s) < s.len() {
        s.skip(line_len(s) as int + 1)
    } else {
        Seq::empty()
    }
}

/// The lines of `s`, in order, each without its line feed. A line feed ends a
/// line; what follows the last one is a line too unless it is empty.
pub open spec fn lines(s: Seq<char>) -> Seq<Seq<char>>
    decreases s.len(),
{
    if s.len() == 0 {
        Seq::empty()
    } else {
        seq![first_line(s)] + lines(after_first_line(s))
    }
}

/// Whether every character of `s` is white space.
pub open spec fn all_spaces(s: Seq<char>) -> bool {
    forall|i: int| 0 <= i < s.len() ==> is_space(#[trigger] s[i])
}

/// Whether `s` neither begins nor ends with white space.
pub open spec fn is_trimmed(s: Seq<char>) -> bool {
    s.len() > 0 ==> !is_space(s[0]) && !is_space(s.last())
}

/// Where the first `n` characters of `s` are white space and the next one,
/// if any, is not, `s` begins with exactly `n` white-space characters.
pub proof fn lemma_leading_spaces(s: Seq<char>, n: int)
    requires
        0 <= n <= s.len(),
        forall|i: int| 0 <= i < n ==> is_space(#[trigger] s[i]),
        n == s.len() || !is_space(s[n]),
    ensures
        leading_spaces(s) == n,
    decreases n,
{
    if n > 0 {
        let t = s.drop_first();
        assert forall|i: int| 0 <= i < n - 1 implies is_space(#[trigger] t[i]) by {
            assert(t[i] == s[i + 1]);
        }
        lemma_leading_spaces(t, n - 1);
    }
}

/// Where the last `n` characters of `s` are white space and the one before
/// them, if any, is not, `s` ends with exactly `n` white-space characters.
pub proof fn lemma_trailing_spaces(s: Seq<char>, n: int)
    requires
        0 <= n <= s.len(),
        forall|i: int| s.len() - n <= i < s.len() ==> is_space(#[trigger] s[i]),
        n == s.len() || !is_space(s[s.len() - n - 1]),
    ensures
        trailing_spaces(s) == n,
    decreases n,
{
    if n > 0 {
        let t = s.drop_last();
        assert forall|i: int| t.len() - (n - 1) <= i < t.len() implies is_space(
            #[trigger] t[i],
        ) by {
            assert(t[i] == s[i]);
        }
        lemma_trailing_spaces(t, n - 1);
    }
}

/// Where none of the first `n` characters of `s` is a line feed and the next
/// one, if any, is, the first line of `s` has the length `n`.
pub proof fn lemma_line_len(s: Seq<char>, n: int)
    requires
        0 <= n <= s.len(),
        forall|i: int| 0 <= i < n ==> #[trigger] s[i] != '\n',
        n == s.len() || s[n] == '\n',
    ensures
        line_len(s) == n,
    decreases n,
{
    if n > 0 {
        let t = s.drop_first();
        assert forall|i: int| 0 <= i < n - 1 implies #[trigger] t[i] != '\n' by {
            assert(t[i] == s[i + 1]);
        }
        lemma_line_len(t, n - 1);
    }
}

/// Trimming takes off the white space around a text that has none at its
/// own ends, and nothing else.
pub proof fn lemma_trim_strips(before: Seq<char>, core: Seq<char>, after: Seq<char>)
    requires
        all_spaces(before),
        all_spaces(after),
        is_trimmed(core),
    ensures
        trim(before + core + after) == core,
{
    let s = before + core + after;
    if core.len() == 0 {
        lemma_leading_spaces(s, s.len() as int);
        lemma_trailing_spaces(trim_start(s), 0);
        assert(trim(s) =~= core);
    } else {
        assert(s[before.len() as int] == core[0]);
        lemma_leading_spaces(s, before.len() as int);
        let t = trim_start(s);
        assert(t =~= core + after);
        assert(t[t.len() - after.len() - 1] == core.last());
        lemma_trailing_spaces(t, after.len() as int);
        assert(trim(s) =~= core);
    }
}

/// The first index at or after `from` and before `to` whose character is not
/// white space, or `to` where there is none.
pub fn skip_spaces(chars: &Vec<char>, from: usize, to: usize) -> (at: usize)
    requires
        from <= to <= chars.len(),
    ensures
        at == from + leading_spaces(chars@.subrange(from as int, to as int)),
        from <= at <= to,
{
    let mut at: usize = from;
    while at < to && is_whitespace(chars[at])
        invariant
            from <= at <= to <= chars.len(),
            forall|i: int| from <= i < at ==> is_space(#[trigger] chars@[i]),
        decreases to - at,
    {
        at = at + 1;
    }
    proof {
        lemma_leading_spaces(chars@.subrange(from as int, to as int), at - from);
    }
    at
}

/// The end of the part of `chars` from `from` to `to` once the white space
/// that it ends with is left off.
pub fn skip_spaces_back(chars: &Vec<char>, from: usize, to: usize) -> (at: usize)
    requires
        from <= to <= chars.len(),
    ensures
        at == to - trailing_spaces(chars@.subrange(from as int, to as int)),
        from <= at <= to,
{
    let mut at: usize = to;
    while at > from && is_whitespace(chars[at - 1])
        invariant
            from <= at <= to <= chars.len(),
            forall|i: int| at <= i < to ==> is_space(#[trigger] chars@[i]),
        decreases at - from,
    {
        at = at - 1;
    }
    proof {
        lemma_trailing_spaces(chars@.subrange(from as int, to as int), to - at);
    }
    at
}

/// The index of the first line feed at or after `from`, or the length of
/// `chars` where there is none.
pub fn line_end(chars: &Vec<char>, from: usize) -> (at: usize)
    requires
        from <= chars.len(),
    ensures
        at == from + line_len(chars@.skip(from as int)),
        from <= at <= chars.len(),
{
    let mut at: usize = from;
    while at < chars.len() && chars[at] != '\n'
        invariant
            from <= at <= chars.len(),
            forall|i: int| from <= i < at ==> #[trigger] chars@[i] != '\n',
        decreases chars.len() - at,
    {
        at = at + 1;
    }
    proof {
        lemma_line_len(chars@.skip(from as int), at - from);
    }
    at
}

/// Tells whether the part of `chars` from `from` to `to` begins with `pattern`.
pub fn starts_with(chars: &Vec<char>, from: usize, to: usize, pattern: &Vec<char>) -> (b: bool)
    requires
        from <= to <= chars.len(),
    ensures
        b == pattern@.is_prefix_of(chars@.subrange(from as int, to as int)),
{
    if pattern.len() > to - from {
        return false;
    }
    let ghost part = chars@.subrange(from as int, to as int);
    let mut i: usize = 0;
    while i < pattern.len()
        invariant
            from <= to <= chars.len(),
            part == chars@.subrange(from as int, to as int),
            i <= pattern.len() <= to - from,
            forall|j: int| 0 <= j < i ==> pattern@[j] == #[trigger] part[j],
        decreases pattern.len() - i,
    {
        if chars[from + i] != pattern[i] {
            assert(part[i as int] != pattern@[i as int]);
            assert(part.subrange(0, pattern@.len() as int)[i as int] == part[i as int]);
            return false;
        }
        i = i + 1;
    }
    assert(part.subrange(0, pattern@.len() as int) =~= pattern@);
    true
}

/// Collects the characters of `s`, in order.
pub fn chars_of(s: &str) -> (chars: Vec<char>)
    ensures
        chars@ == s@,
{
    broadcast use vstd::string::group_string_axioms;

    let mut chars: Vec<char> = Vec::new();
    let mut rest = s.chars();
    loop
        invariant_except_break
            rest.obeys_prophetic_iter_laws(),
            rest.decrease() is Some,
            chars@ + rest.remaining() == s@,
        ensures
            chars@ == s@,
        decreases rest.decrease()->0,
    {
        match rest.next() {
            Some(c) => chars.push(c),
            None => break,
        }
    }
    chars
}

} // verus!
