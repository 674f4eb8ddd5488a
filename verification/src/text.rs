use vstd::prelude::*;
use vstd::std_specs::iter::IteratorSpec;

verus! {

/// Whether a character is white space in the sense of Unicode's
/// `White_Space` property, which is what trimming removes.
pub open spec fn is_whitespace(c: char) -> bool {
    let n = c as u32;
    ||| 0x09 <= n <= 0x0D
    ||| n == 0x20
    ||| n == 0x85
    ||| n == 0xA0
    ||| n == 0x1680
    ||| 0x2000 <= n <= 0x200A
    ||| n == 0x2028
    ||| n == 0x2029
    ||| n == 0x202F
    ||| n == 0x205F
    ||| n == 0x3000
}

/// A character with an ASCII capital letter turned into its small letter.
pub open spec fn ascii_lower(c: char) -> char {
    if 'A' <= c <= 'Z' {
        ((c as u32) + 32) as char
    } else {
        c
    }
}

/// Two texts are equal but for the case of their ASCII letters.
pub open spec fn eq_ignore_ascii_case(a: Seq<char>, b: Seq<char>) -> bool {
    &&& a.len() == b.len()
    &&& forall|i: int| 0 <= i < a.len() ==> ascii_lower(#[trigger] a[i]) == ascii_lower(b[i])
}

/// Position of the first space in a text, or its length if it has none.
pub open spec fn first_space(s: Seq<char>) -> int
    decreases s.len(),
{
    if s.len() == 0 || s[0] == ' ' {
        0
    } else {
        1 + first_space(s.drop_first())
    }
}

/// Number of white-space characters at the start of a text.
pub open spec fn leading_whitespace(s: Seq<char>) -> int
    decreases s.len(),
{
    if s.len() == 0 || !is_whitespace(s[0]) {
        0
    } else {
        1 + leading_whitespace(s.drop_first())
    }
}

/// Number of white-space characters at the end of a text.
pub open spec fn trailing_whitespace(s: Seq<char>) -> int
    decreases s.len(),
{
    if s.len() == 0 || !is_whitespace(s.last()) {
        0
    } else {
        1 + trailing_whitespace(s.drop_last())
    }
}

/// A text without the white space at its start and at its end.
pub open spec fn trimmed(s: Seq<char>) -> Seq<char> {
    let start = leading_whitespace(s);
    if start == s.len() {
        Seq::empty()
    } else {
        s.subrange(start, s.len() - trailing_whitespace(s))
    }
}

/// The first space of a text lies within it, nothing before it is a space,
/// and it is a space unless the text has none.
pub proof fn lemma_first_space(s: Seq<char>)
    ensures
        0 <= first_space(s) <= s.len(),
        forall|i: int| 0 <= i < first_space(s) ==> s[i] != ' ',
        first_space(s) < s.len() ==> s[first_space(s)] == ' ',
    decreases s.len(),
{
    if s.len() == 0 || s[0] == ' ' {
    } else {
        let rest = s.drop_first();
        lemma_first_space(rest);
        assert forall|i: int| 0 <= i < first_space(s) implies s[i] != ' ' by {
            if i > 0 {
                assert(s[i] == rest[i - 1]);
            }
        }
        if first_space(s) < s.len() {
            assert(s[first_space(s)] == rest[first_space(rest)]);
        }
    }
}

/// A position before which a text has no space, and at which it has one or
/// ends, is the text's first space.
pub proof fn lemma_first_space_is(s: Seq<char>, k: int)
    requires
        0 <= k <= s.len(),
        forall|i: int| 0 <= i < k ==> s[i] != ' ',
        k < s.len() ==> s[k] == ' ',
    ensures
        first_space(s) == k,
{
    lemma_first_space(s);
    let f = first_space(s);
    if f < k {
        assert(s[f] != ' ');
    } else if k < f {
        assert(s[k] != ' ');
    }
}

/// The leading white space of a text lies within it, is white space, and
/// ends at a character that is none.
pub proof fn lemma_leading_whitespace(s: Seq<char>)
    ensures
        0 <= leading_whitespace(s) <= s.len(),
        forall|i: int| 0 <= i < leading_whitespace(s) ==> is_whitespace(s[i]),
        leading_whitespace(s) < s.len() ==> !is_whitespace(s[leading_whitespace(s)]),
    decreases s.len(),
{
    if s.len() == 0 || !is_whitespace(s[0]) {
    } else {
        let rest = s.drop_first();
        lemma_leading_whitespace(rest);
        assert forall|i: int| 0 <= i < leading_whitespace(s) implies is_whitespace(s[i]) by {
            if i > 0 {
                assert(s[i] == rest[i - 1]);
            }
        }
        if leading_whitespace(s) < s.len() {
            assert(s[leading_whitespace(s)] == rest[leading_whitespace(rest)]);
        }
    }
}

/// A run of white space at the start of a text that ends at a character
/// that is none, or at the text's end, is the text's leading white space.
pub proof fn lemma_leading_whitespace_is(s: Seq<char>, k: int)
    requires
        0 <= k <= s.len(),
        forall|i: int| 0 <= i < k ==> is_whitespace(s[i]),
        k < s.len() ==> !is_whitespace(s[k]),
    ensures
        leading_whitespace(s) == k,
{
    lemma_leading_whitespace(s);
    let f = leading_whitespace(s);
    if f < k {
        assert(is_whitespace(s[f]));
    } else if k < f {
        assert(is_whitespace(s[k]));
    }
}

/// The trailing white space of a text lies within it, is white space, and
/// begins after a character that is none.
pub proof fn lemma_trailing_whitespace(s: Seq<char>)
    ensures
        0 <= trailing_whitespace(s) <= s.len(),
        forall|i: int| s.len() - trailing_whitespace(s) <= i < s.len() ==> is_whitespace(s[i]),
        trailing_whitespace(s) < s.len() ==> !is_whitespace(
            s[s.len() - trailing_whitespace(s) - 1],
        ),
    decreases s.len(),
{
    if s.len() == 0 || !is_whitespace(s.last()) {
    } else {
        let rest = s.drop_last();
        lemma_trailing_whitespace(rest);
        assert forall|i: int| s.len() - trailing_whitespace(s) <= i < s.len() implies is_whitespace(
            s[i],
        ) by {
            if i < s.len() - 1 {
                assert(s[i] == rest[i]);
            }
        }
        if trailing_whitespace(s) < s.len() {
            assert(s[s.len() - trailing_whitespace(s) - 1] == rest[rest.len() - trailing_whitespace(
                rest,
            ) - 1]);
        }
    }
}

/// A run of white space at the end of a text that begins after a character
/// that is none, or at the text's start, is the text's trailing white space.
pub proof fn lemma_trailing_whitespace_is(s: Seq<char>, k: int)
    requires
        0 <= k <= s.len(),
        forall|i: int| s.len() - k <= i < s.len() ==> is_whitespace(s[i]),
        k < s.len() ==> !is_whitespace(s[s.len() - k - 1]),
    ensures
        trailing_whitespace(s) == k,
{
    lemma_trailing_whitespace(s);
    let f = trailing_whitespace(s);
    if f < k {
        assert(is_whitespace(s[s.len() - f - 1]));
    } else if k < f {
        assert(is_whitespace(s[s.len() - k - 1]));
    }
}

/// Whether a character is white space.
pub fn char_is_whitespace(c: char) -> (white: bool)
    ensures
        white == is_whitespace(c),
{
    (c >= '\u{9}' && c <= '\u{D}') || c == ' ' || c == '\u{85}' || c == '\u{A0}' || c
        == '\u{1680}' || (c >= '\u{2000}' && c <= '\u{200A}') || c == '\u{2028}' || c
        == '\u{2029}' || c == '\u{202F}' || c == '\u{205F}' || c == '\u{3000}'
}

/// The characters of a text.
pub fn chars_of(s: &str) -> (chars: Vec<char>)
    ensures
        chars@ == s@,
{
    let mut chars: Vec<char> = Vec::new();
    for c in it: s.chars()
        invariant
            chars@.len() == it.index(),
            forall|j: int| 0 <= j < chars@.len() ==> chars@[j] == it.seq()[j],
    {
        chars.push(c);
    }
    proof {
        assert(chars@ =~= s@);
    }
    chars
}

/// The bounds `(start, end)` of what trimming leaves of the characters
/// between `from` and `to`.
pub fn trim_bounds(chars: &Vec<char>, from: usize, to: usize) -> (bounds: (usize, usize))
    requires
        from <= to <= chars@.len(),
    ensures
        from <= bounds.0 <= bounds.1 <= to,
        chars@.subrange(bounds.0 as int, bounds.1 as int) == trimmed(
            chars@.subrange(from as int, to as int),
        ),
{
    let ghost s = chars@.subrange(from as int, to as int);
    let mut start = from;
    while start < to && char_is_whitespace(chars[start])
        invariant
            from <= start <= to <= chars@.len(),
            s == chars@.subrange(from as int, to as int),
            forall|i: int| 0 <= i < start - from ==> is_whitespace(s[i]),
        decreases to - start,
    {
        start += 1;
    }
    proof {
        lemma_leading_whitespace_is(s, start - from);
    }
    if start == to {
        proof {
            assert(chars@.subrange(start as int, to as int) =~= Seq::<char>::empty());
        }
        return (start, to);
    }
    let mut end = to;
    while end > start && char_is_whitespace(chars[end - 1])
        invariant
            from <= start < to <= chars@.len(),
            start <= end <= to,
            !is_whitespace(chars@[start as int]),
            s == chars@.subrange(from as int, to as int),
            forall|i: int| end - from <= i < s.len() ==> is_whitespace(s[i]),
        decreases end - start,
    {
        end -= 1;
    }
    proof {
        assert(s[start - from] == chars@[start as int]);
        if end > start {
            assert(s[end - from - 1] == chars@[end - 1]);
        }
        lemma_trailing_whitespace_is(s, to - end);
        assert(chars@.subrange(start as int, end as int) =~= s.subrange(
            start - from,
            s.len() - (to - end),
        ));
    }
    (start, end)
}

} // verus!
