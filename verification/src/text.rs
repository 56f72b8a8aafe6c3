//! Character-level text primitives shared by the rest of the crate.
//!
//! Every string is modelled by its sequence of characters, `Seq<char>`.
//! The executable functions convert a `&str` to a `Vec<char>` once, work on
//! indices, and convert back at the end.

use vstd::prelude::*;

verus! {

/// `String::push` appends exactly one character to the end of the string.
pub assume_specification[ String::push ](s: &mut String, ch: char)
    ensures
        final(s)@ == old(s)@.push(ch),
;

/// Whether `c` is Unicode white space (the `White_Space` property).
pub open spec fn is_white_space(c: char) -> bool {
    ||| '\u{9}' <= c <= '\u{d}'
    ||| c == ' '
    ||| c == '\u{85}'
    ||| c == '\u{a0}'
    ||| c == '\u{1680}'
    ||| '\u{2000}' <= c <= '\u{200a}'
    ||| c == '\u{2028}'
    ||| c == '\u{2029}'
    ||| c == '\u{202f}'
    ||| c == '\u{205f}'
    ||| c == '\u{3000}'
}

/// Whether `s` begins with `prefix`.
pub open spec fn starts_with(s: Seq<char>, prefix: Seq<char>) -> bool {
    prefix.len() <= s.len() && s.subrange(0, prefix.len() as int) == prefix
}

/// `s` with every occurrence of `from` replaced by `to`, scanning from the
/// left and resuming after each replaced occurrence. An empty `from` occurs
/// nowhere.
pub open spec fn replace_all(s: Seq<char>, from: Seq<char>, to: Seq<char>) -> Seq<char>
    decreases s.len(),
{
    if from.len() == 0 || s.len() == 0 {
        s
    } else if starts_with(s, from) {
        to + replace_all(s.skip(from.len() as int), from, to)
    } else {
        seq![s[0]] + replace_all(s.skip(1), from, to)
    }
}

/// `s` without its leading white space.
pub open spec fn trim_start(s: Seq<char>) -> Seq<char>
    decreases s.len(),
{
    if s.len() > 0 && is_white_space(s[0]) {
        trim_start(s.skip(1))
    } else {
        s
    }
}

/// `s` without its trailing white space.
pub open spec fn trim_end(s: Seq<char>) -> Seq<char>
    decreases s.len(),
{
    if s.len() > 0 && is_white_space(s.last()) {
        trim_end(s.drop_last())
    } else {
        s
    }
}

/// `s` without leading and trailing white space.
pub open spec fn trim(s: Seq<char>) -> Seq<char> {
    trim_end(trim_start(s))
}

/// `s` without any trailing run of the character `c`.
pub open spec fn trim_end_char(s: Seq<char>, c: char) -> Seq<char>
    decreases s.len(),
{
    if s.len() > 0 && s.last() == c {
        trim_end_char(s.drop_last(), c)
    } else {
        s
    }
}

/// What follows the last occurrence of `sep` in `s`; all of `s` where `sep`
/// does not occur.
pub open spec fn last_segment(s: Seq<char>, sep: char) -> Seq<char>
    decreases s.len(),
{
    if s.len() == 0 {
        s
    } else if s.last() == sep {
        Seq::<char>::empty()
    } else {
        last_segment(s.drop_last(), sep).push(s.last())
    }
}

/// `trim_start` drops exactly the first `n` characters when those are white
/// space and the next one, if any, is not.
pub proof fn lemma_trim_start_at(s: Seq<char>, n: int)
    requires
        0 <= n <= s.len(),
        forall|k: int| 0 <= k < n ==> is_white_space(#[trigger] s[k]),
        n < s.len() ==> !is_white_space(s[n]),
    ensures
        trim_start(s) == s.skip(n),
    decreases n,
{
    if n > 0 {
        lemma_trim_start_at(s.skip(1), n - 1);
    }
}

/// `trim_end` keeps exactly the first `n` characters when all later ones are
/// white space and the one before, if any, is not.
pub proof fn lemma_trim_end_at(s: Seq<char>, n: int)
    requires
        0 <= n <= s.len(),
        forall|k: int| n <= k < s.len() ==> is_white_space(#[trigger] s[k]),
        n > 0 ==> !is_white_space(s[n - 1]),
    ensures
        trim_end(s) == s.take(n),
    decreases s.len() - n,
{
    if n < s.len() {
        lemma_trim_end_at(s.drop_last(), n);
    }
}

/// `trim_end_char` keeps exactly the first `n` characters when all later ones
/// are `c` and the one before, if any, is not.
pub proof fn lemma_trim_end_char_at(s: Seq<char>, c: char, n: int)
    requires
        0 <= n <= s.len(),
        forall|k: int| n <= k < s.len() ==> #[trigger] s[k] == c,
        n > 0 ==> s[n - 1] != c,
    ensures
        trim_end_char(s, c) == s.take(n),
    decreases s.len() - n,
{
    if n < s.len() {
        lemma_trim_end_char_at(s.drop_last(), c, n);
    }
}

/// `last_segment` is what follows position `n - 1` when `sep` stands there
/// (or `n` is 0) and nowhere later.
pub proof fn lemma_last_segment_at(s: Seq<char>, sep: char, n: int)
    requires
        0 <= n <= s.len(),
        forall|k: int| n <= k < s.len() ==> #[trigger] s[k] != sep,
        n > 0 ==> s[n - 1] == sep,
    ensures
        last_segment(s, sep) == s.skip(n),
    decreases s.len() - n,
{
    if n < s.len() {
        lemma_last_segment_at(s.drop_last(), sep, n);
    }
}

/// The characters of `s`, in order.
pub fn to_chars(s: &str) -> (out: Vec<char>)
    ensures
        out@ == s@,
{
    let mut out: Vec<char> = Vec::new();
    for c in it: s.chars()
        invariant
            it.seq() == s@,
            out@ == it.seq().take(it.index()),
    {
        out.push(c);
    }
    out
}

/// The string spelled by `chars[from..to]`.
pub(crate) fn from_char_range(chars: &Vec<char>, from: usize, to: usize) -> (out: String)
    requires
        from <= to <= chars.len(),
    ensures
        out@ == chars@.subrange(from as int, to as int),
{
    let mut out = String::new();
    let mut i: usize = from;
    while i < to
        invariant
            from <= i <= to <= chars.len(),
            out@ == chars@.subrange(from as int, i as int),
        decreases to - i,
    {
        out.push(chars[i]);
        i += 1;
    }
    out
}

/// The string spelled by `chars`.
pub fn from_chars(chars: &Vec<char>) -> (out: String)
    ensures
        out@ == chars@,
{
    from_char_range(chars, 0, chars.len())
}

/// Whether `c` is Unicode white space.
pub fn char_is_white_space(c: char) -> (b: bool)
    ensures
        b == is_white_space(c),
{
    ('\u{9}' <= c && c <= '\u{d}') || c == ' ' || c == '\u{85}' || c == '\u{a0}' || c == '\u{1680}'
        || ('\u{2000}' <= c && c <= '\u{200a}') || c == '\u{2028}' || c == '\u{2029}' || c
        == '\u{202f}' || c == '\u{205f}' || c == '\u{3000}'
}

/// Whether `pattern` stands in `text` at position `at`.
pub(crate) fn occurs_at(text: &Vec<char>, at: usize, pattern: &Vec<char>) -> (b: bool)
    requires
        at <= text.len(),
    ensures
        b == starts_with(text@.skip(at as int), pattern@),
{
    if pattern.len() > text.len() - at {
        return false;
    }
    let ghost tail = text@.skip(at as int);
    let mut j: usize = 0;
    while j < pattern.len()
        invariant
            at <= text.len(),
            pattern.len() <= text.len() - at,
            j <= pattern.len(),
            tail == text@.skip(at as int),
            forall|k: int| 0 <= k < j ==> tail[k] == pattern@[k],
        decreases pattern.len() - j,
    {
        if text[at + j] != pattern[j] {
            return false;
        }
        j += 1;
    }
    assert(tail.subrange(0, pattern@.len() as int) == pattern@);
    true
}

/// Whether `needle` occurs in `text`.
pub fn contains_char(text: &Vec<char>, needle: char) -> (b: bool)
    ensures
        b == text@.contains(needle),
{
    let mut i: usize = 0;
    while i < text.len()
        invariant
            i <= text.len(),
            forall|k: int| 0 <= k < i ==> text@[k] != needle,
        decreases text.len() - i,
    {
        if text[i] == needle {
            return true;
        }
        i += 1;
    }
    false
}

/// `text` with every occurrence of `from` replaced by `to`.
pub fn replace_all_chars(text: &Vec<char>, from: &Vec<char>, to: &Vec<char>) -> (out: Vec<char>)
    ensures
        out@ == replace_all(text@, from@, to@),
{
    let mut out: Vec<char> = Vec::new();
    let mut i: usize = 0;
    assert(text@.skip(0) == text@);
    while i < text.len()
        invariant
            i <= text.len(),
            out@ + replace_all(text@.skip(i as int), from@, to@) == replace_all(
                text@,
                from@,
                to@,
            ),
        decreases text.len() - i,
    {
        let ghost tail = text@.skip(i as int);
        if from.len() > 0 && occurs_at(text, i, from) {
            let mut j: usize = 0;
            let ghost before = out@;
            while j < to.len()
                invariant
                    j <= to.len(),
                    out@ == before + to@.take(j as int),
                decreases to.len() - j,
            {
                out.push(to[j]);
                j += 1;
            }
            i += from.len();
            assert(tail.skip(from@.len() as int) == text@.skip(i as int));
        } else {
            out.push(text[i]);
            i += 1;
            assert(tail.skip(1) == text@.skip(i as int));
        }
    }
    out
}

/// The bounds `(from, to)` of `text` without leading and trailing white
/// space.
pub(crate) fn trim_bounds(text: &Vec<char>) -> (bounds: (usize, usize))
    ensures
        bounds.0 <= bounds.1 <= text.len(),
        text@.subrange(bounds.0 as int, bounds.1 as int) == trim(text@),
{
    let mut from: usize = 0;
    while from < text.len() && char_is_white_space(text[from])
        invariant
            from <= text.len(),
            forall|k: int| 0 <= k < from ==> is_white_space(#[trigger] text@[k]),
        decreases text.len() - from,
    {
        from += 1;
    }
    let mut to: usize = text.len();
    while to > from && char_is_white_space(text[to - 1])
        invariant
            from <= to <= text.len(),
            forall|k: int| to <= k < text.len() ==> is_white_space(#[trigger] text@[k]),
        decreases to,
    {
        to -= 1;
    }
    proof {
        let tail = text@.skip(from as int);
        lemma_trim_start_at(text@, from as int);
        lemma_trim_end_at(tail, to - from);
    }
    (from, to)
}

/// The length of `text` without any trailing run of `c`.
pub(crate) fn trim_end_char_len(text: &Vec<char>, c: char) -> (to: usize)
    ensures
        to <= text.len(),
        text@.take(to as int) == trim_end_char(text@, c),
{
    let mut to: usize = text.len();
    while to > 0 && text[to - 1] == c
        invariant
            to <= text.len(),
            forall|k: int| to <= k < text.len() ==> #[trigger] text@[k] == c,
        decreases to,
    {
        to -= 1;
    }
    proof {
        lemma_trim_end_char_at(text@, c, to as int);
    }
    to
}

/// The position at which the last segment of `text` begins: one past the
/// last occurrence of `sep`, or 0.
pub(crate) fn last_segment_start(text: &Vec<char>, sep: char) -> (from: usize)
    ensures
        from <= text.len(),
        text@.skip(from as int) == last_segment(text@, sep),
{
    let mut from: usize = text.len();
    while from > 0 && text[from - 1] != sep
        invariant
            from <= text.len(),
            forall|k: int| from <= k < text.len() ==> #[trigger] text@[k] != sep,
        decreases from,
    {
        from -= 1;
    }
    proof {
        lemma_last_segment_at(text@, sep, from as int);
    }
    from
}

} // verus!
