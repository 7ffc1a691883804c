//! Small operations on text that the rest of the library is built from.

use vstd::prelude::*;
use vstd::std_specs::iter::IteratorSpec;

verus! {

/// Whether two pieces of text hold the same characters.
pub fn str_eq(a: &str, b: &str) -> (r: bool)
    ensures
        r == (a@ == b@),
{
    let mut left = a.chars();
    let mut right = b.chars();
    let ghost mut n: int = 0;
    loop
        invariant
            0 <= n <= a@.len(),
            n <= b@.len(),
            left.obeys_prophetic_iter_laws(),
            right.obeys_prophetic_iter_laws(),
            left.remaining() == a@.skip(n),
            right.remaining() == b@.skip(n),
            a@.take(n) == b@.take(n),
        decreases a@.len() - n,
    {
        let x = left.next();
        let y = right.next();
        match (x, y) {
            (None, None) => {
                assert(a@ == a@.take(n));
                assert(b@ == b@.take(n));
                return true;
            },
            (Some(c), Some(d)) => {
                if c != d {
                    assert(a@[n] != b@[n]);
                    return false;
                }
                proof {
                    assert(a@.take(n + 1) == a@.take(n).push(c));
                    assert(b@.take(n + 1) == b@.take(n).push(d));
                    assert(a@.skip(n).drop_first() == a@.skip(n + 1));
                    assert(b@.skip(n).drop_first() == b@.skip(n + 1));
                    n = n + 1;
                }
            },
            _ => {
                return false;
            },
        }
    }
}

/// The characters of a piece of text, one by one.
pub fn chars_of(s: &str) -> (out: Vec<char>)
    ensures
        out@ == s@,
{
    let mut out: Vec<char> = Vec::new();
    for c in iter: s.chars()
        invariant
            out@ == iter.seq().take(iter.index()),
            iter.seq() == s@,
    {
        out.push(c);
    }
    out
}

/// Whether a piece of text holds a given character.
pub fn contains_char(s: &str, wanted: char) -> (r: bool)
    ensures
        r == s@.contains(wanted),
{
    let mut found = false;
    for c in iter: s.chars()
        invariant
            iter.seq() == s@,
            found == s@.take(iter.index()).contains(wanted),
    {
        proof {
            let before = s@.take(iter.index());
            let after = s@.take(iter.index() + 1);
            assert(after == before.push(c));
            if before.contains(wanted) {
                let k = choose|k: int| 0 <= k < before.len() && before[k] == wanted;
                assert(after[k] == wanted);
            }
            if c == wanted {
                assert(after[iter.index()] == wanted);
            }
        }
        if c == wanted {
            found = true;
        }
    }
    assert(s@.take(s@.len() as int) == s@);
    found
}

/// White space: the characters that Unicode gives the property White_Space.
pub open spec fn is_white_space(c: char) -> bool {
    ||| ('\u{9}' <= c && c <= '\u{d}')
    ||| c == ' '
    ||| c == '\u{85}'
    ||| c == '\u{a0}'
    ||| c == '\u{1680}'
    ||| ('\u{2000}' <= c && c <= '\u{200a}')
    ||| c == '\u{2028}'
    ||| c == '\u{2029}'
    ||| c == '\u{202f}'
    ||| c == '\u{205f}'
    ||| c == '\u{3000}'
}

/// What is stripped from the ends of a text: double quotes, or white space.
pub open spec fn strippable(c: char, quotes: bool) -> bool {
    if quotes {
        c == '"'
    } else {
        is_white_space(c)
    }
}

/// How many characters at the start of a text are stripped.
pub open spec fn leading(s: Seq<char>, quotes: bool) -> nat
    decreases s.len(),
{
    if s.len() > 0 && strippable(s[0], quotes) {
        1 + leading(s.drop_first(), quotes)
    } else {
        0
    }
}

/// How many characters at the end of a text are stripped.
pub open spec fn trailing(s: Seq<char>, quotes: bool) -> nat
    decreases s.len(),
{
    if s.len() > 0 && strippable(s.last(), quotes) {
        1 + trailing(s.drop_last(), quotes)
    } else {
        0
    }
}

/// A text without the double quotes, or without the white space, at its two
/// ends. What stands between other characters stays.
pub open spec fn stripped(s: Seq<char>, quotes: bool) -> Seq<char> {
    let rest = s.skip(leading(s, quotes) as int);
    rest.take(rest.len() - trailing(rest, quotes))
}

/// A text that neither starts nor ends with a character that is stripped
/// stays as it is.
pub proof fn lemma_strip_keeps(s: Seq<char>, quotes: bool)
    requires
        s.len() == 0 || (!strippable(s[0], quotes) && !strippable(s.last(), quotes)),
    ensures
        stripped(s, quotes) == s,
{
    assert(s.skip(0) == s);
    assert(s.take(s.len() as int) == s);
}

/// Whether a character is white space.
pub fn white_space(c: char) -> (r: bool)
    ensures
        r == is_white_space(c),
{
    ('\u{9}' <= c && c <= '\u{d}') || c == ' ' || c == '\u{85}' || c == '\u{a0}' || c == '\u{1680}' || (
    '\u{2000}' <= c && c <= '\u{200a}') || c == '\u{2028}' || c == '\u{2029}' || c == '\u{202f}' || c
        == '\u{205f}' || c == '\u{3000}'
}

/// Whether a character is stripped.
pub fn is_stripped(c: char, quotes: bool) -> (r: bool)
    ensures
        r == strippable(c, quotes),
{
    if quotes {
        c == '"'
    } else {
        white_space(c)
    }
}

/// Strips the double quotes, or the white space, from the two ends of a text.
pub fn strip(s: &str, quotes: bool) -> (r: &str)
    ensures
        r@ == stripped(s@, quotes),
{
    let chars = chars_of(s);
    let n = chars.len();
    let mut start: usize = 0;
    assert(s@.skip(0) == s@);
    while start < n && is_stripped(chars[start], quotes)
        invariant
            chars@ == s@,
            n == chars@.len(),
            start <= n,
            leading(s@, quotes) == start + leading(s@.skip(start as int), quotes),
        decreases n - start,
    {
        proof {
            assert(s@.skip(start as int).drop_first() == s@.skip(start + 1));
        }
        start += 1;
    }
    let ghost rest = s@.skip(start as int);
    let mut end: usize = n;
    assert(rest.take(rest.len() as int) == rest);
    while end > start && is_stripped(chars[end - 1], quotes)
        invariant
            chars@ == s@,
            n == chars@.len(),
            start <= end <= n,
            rest == s@.skip(start as int),
            leading(s@, quotes) == start,
            trailing(rest, quotes) == (n - end) + trailing(rest.take(end - start), quotes),
        decreases end,
    {
        proof {
            assert(rest.take(end - start).drop_last() == rest.take(end - start - 1));
            assert(rest.take(end - start).last() == s@[end - 1]);
        }
        end -= 1;
    }
    proof {
        if end > start {
            assert(rest.take(end - start).last() == s@[end - 1]);
        }
        assert(rest.take(end - start) == s@.subrange(start as int, end as int));
    }
    s.substring_char(start, end)
}

/// Strips the white space from the two ends of a text.
pub fn trim(s: &str) -> (r: &str)
    ensures
        r@ == stripped(s@, false),
{
    strip(s, false)
}

} // verus!
