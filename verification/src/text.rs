//! Searching and trimming text, over sequences of characters.

use vstd::prelude::*;
use vstd::std_specs::iter::IteratorSpec;

verus! {

/// Whether `c` is white space: a character with the Unicode property
/// `White_Space`.
pub open spec fn is_whitespace(c: char) -> bool {
    let n = c as u32;
    ||| 0x09 <= n <= 0x0D
    ||| n == 0x20
    ||| n == 0x85
    ||| n == 0xA0
    ||| n == 0x1680
    ||| 0x2000 <= n <= 0x200A
    ||| n == 0x2028
    ||| n == 0x2029
    ||| n == 0x202F
    ||| n == 0x205F
    ||| n == 0x3000
}

/// `text` without the white space at its start.
pub open spec fn trim_start(text: Seq<char>) -> Seq<char>
    decreases text.len(),
{
    if text.len() > 0 && is_whitespace(text.first()) {
        trim_start(text.drop_first())
    } else {
        text
    }
}

/// `text` without the white space at its end.
pub open spec fn trim_end(text: Seq<char>) -> Seq<char>
    decreases text.len(),
{
    if text.len() > 0 && is_whitespace(text.last()) {
        trim_end(text.drop_last())
    } else {
        text
    }
}

/// `text` without the white space at its start and at its end.
pub open spec fn trim(text: Seq<char>) -> Seq<char> {
    trim_end(trim_start(text))
}

/// Whether `pattern` stands in `text` at index `i`.
pub open spec fn matches_at(text: Seq<char>, pattern: Seq<char>, i: int) -> bool {
    &&& 0 <= i
    &&& i + pattern.len() <= text.len()
    &&& text.subrange(i, i + pattern.len()) == pattern
}

/// Whether `i` is the first index at which `pattern` stands in `text`.
pub open spec fn is_first_match(text: Seq<char>, pattern: Seq<char>, i: int) -> bool {
    &&& matches_at(text, pattern, i)
    &&& forall|k: int| 0 <= k < i ==> !matches_at(text, pattern, k)
}

/// The first index at which `pattern` stands in `text`, if it stands there
/// at all.
pub open spec fn first_match(text: Seq<char>, pattern: Seq<char>) -> Option<int> {
    if exists|i: int| is_first_match(text, pattern, i) {
        Some(choose|i: int| is_first_match(text, pattern, i))
    } else {
        None
    }
}

/// The first match is the one index that matches with no match before it.
pub proof fn lemma_first_match_found(text: Seq<char>, pattern: Seq<char>, i: int)
    requires
        is_first_match(text, pattern, i),
    ensures
        first_match(text, pattern) == Some(i),
{
    let c = choose|c: int| is_first_match(text, pattern, c);
    assert(!(c < i));
    assert(!(i < c));
}

/// There is no first match where nothing matches.
pub proof fn lemma_first_match_absent(text: Seq<char>, pattern: Seq<char>)
    requires
        forall|k: int| 0 <= k ==> !matches_at(text, pattern, k),
    ensures
        first_match(text, pattern) is None,
{
}

/// A first match, where there is one, lies inside the text.
pub proof fn lemma_first_match_in_bounds(text: Seq<char>, pattern: Seq<char>)
    ensures
        first_match(text, pattern) matches Some(i) ==> is_first_match(text, pattern, i),
{
}

/// The characters of `s`, in order.
pub fn chars_of(s: &str) -> (chars: Vec<char>)
    ensures
        chars@ == s@,
{
    let mut chars: Vec<char> = Vec::new();
    for c in it: s.chars()
        invariant
            it.seq() == s@,
            chars@ == s@.take(it.index() as int),
    {
        chars.push(c);
        assert(s@.take(it.index() + 1) == s@.take(it.index() as int).push(c));
    }
    assert(s@.take(s@.len() as int) == s@);
    chars
}

/// Tells whether `c` is white space.
pub fn is_space(c: char) -> (b: bool)
    ensures
        b == is_whitespace(c),
{
    let n: u32 = c as u32;
    (0x09 <= n && n <= 0x0D) || n == 0x20 || n == 0x85 || n == 0xA0 || n == 0x1680 || (0x2000 <= n
        && n <= 0x200A) || n == 0x2028 || n == 0x2029 || n == 0x202F || n == 0x205F || n == 0x3000
}

/// Finds the first place at which `pattern` stands in `text[from..to]`,
/// counted from `from`.
pub fn find_in(text: &Vec<char>, from: usize, to: usize, pattern: &Vec<char>) -> (found: Option<
    usize,
>)
    requires
        from <= to <= text.len(),
    ensures
        found matches Some(i) ==> first_match(text@.subrange(from as int, to as int), pattern@)
            == Some(i as int),
        found is None ==> first_match(text@.subrange(from as int, to as int), pattern@) is None,
{
    let ghost window = text@.subrange(from as int, to as int);
    let n: usize = to - from;
    let m: usize = pattern.len();
    if m > n {
        proof {
            lemma_first_match_absent(window, pattern@);
        }
        return None;
    }
    let mut i: usize = 0;
    while i <= n - m
        invariant
            from <= to <= text.len(),
            n == to - from,
            m == pattern.len(),
            m <= n,
            window == text@.subrange(from as int, to as int),
            forall|k: int| 0 <= k < i ==> !matches_at(window, pattern@, k),
        decreases n - i,
    {
        let mut j: usize = 0;
        while j < m && text[from + i + j] == pattern[j]
            invariant
                from <= to <= text.len(),
                n == to - from,
                m == pattern.len(),
                i + m <= n,
                j <= m,
                window == text@.subrange(from as int, to as int),
                forall|t: int| 0 <= t < j ==> window[i + t] == pattern@[t],
            decreases m - j,
        {
            j += 1;
        }
        if j == m {
            proof {
                assert(window.subrange(i as int, i + m) =~= pattern@);
                lemma_first_match_found(window, pattern@, i as int);
            }
            return Some(i);
        }
        proof {
            assert(window.subrange(i as int, i + m)[j as int] != pattern@[j as int]);
        }
        i += 1;
    }
    proof {
        lemma_first_match_absent(window, pattern@);
    }
    None
}

/// Finds the bounds of `text[from..to]` without the white space at its
/// start and at its end.
pub fn trim_range(text: &Vec<char>, from: usize, to: usize) -> (bounds: (usize, usize))
    requires
        from <= to <= text.len(),
    ensures
        from <= bounds.0 <= bounds.1 <= to,
        text@.subrange(bounds.0 as int, bounds.1 as int) == trim(
            text@.subrange(from as int, to as int),
        ),
{
    let mut a: usize = from;
    while a < to && is_space(text[a])
        invariant
            from <= a <= to <= text.len(),
            trim_start(text@.subrange(from as int, to as int)) == trim_start(
                text@.subrange(a as int, to as int),
            ),
        decreases to - a,
    {
        assert(text@.subrange(a as int, to as int).drop_first() =~= text@.subrange(
            a + 1,
            to as int,
        ));
        a += 1;
    }
    let mut b: usize = to;
    while b > a && is_space(text[b - 1])
        invariant
            a <= b <= to <= text.len(),
            trim_end(text@.subrange(a as int, to as int)) == trim_end(
                text@.subrange(a as int, b as int),
            ),
        decreases b,
    {
        assert(text@.subrange(a as int, b as int).drop_last() =~= text@.subrange(
            a as int,
            b - 1,
        ));
        b -= 1;
    }
    (a, b)
}

} // verus!
