//! The request line: `GET <path> <version>`, split at white space.

use vstd::prelude::*;
use vstd::string::{StrSliceExecFns, StringExecFns};
use crate::text::chars_of;

verus! {

/// The characters that count as white space: those with the Unicode
/// property `White_Space`.
pub open spec fn is_whitespace(c: char) -> bool {
    let u = c as u32;
    ||| 0x09 <= u <= 0x0D
    ||| u == 0x20
    ||| u == 0x85
    ||| u == 0xA0
    ||| u == 0x1680
    ||| 0x2000 <= u <= 0x200A
    ||| u == 0x2028
    ||| u == 0x2029
    ||| u == 0x202F
    ||| u == 0x205F
    ||| u == 0x3000
}

/// The first position from `i` on that holds no white space, or the length
/// of `s` if there is none.
pub open spec fn word_start(s: Seq<char>, i: int) -> int
    decreases s.len() - i,
{
    if 0 <= i < s.len() && is_whitespace(s[i]) {
        word_start(s, i + 1)
    } else {
        i
    }
}

/// The first position from `i` on that holds white space, or the length of
/// `s` if there is none.
pub open spec fn word_end(s: Seq<char>, i: int) -> int
    decreases s.len() - i,
{
    if 0 <= i < s.len() && !is_whitespace(s[i]) {
        word_end(s, i + 1)
    } else {
        i
    }
}

/// The words of `s` that begin at or after `i`: the maximal runs of
/// characters that are not white space, in order.
pub open spec fn words_from(s: Seq<char>, i: int) -> Seq<Seq<char>>
    decreases s.len() - i,
{
    let a = word_start(s, i);
    let b = word_end(s, a);
    if 0 <= i <= a < b <= s.len() {
        seq![s.subrange(a, b)] + words_from(s, b)
    } else {
        Seq::empty()
    }
}

/// The words of `s`.
pub open spec fn words(s: Seq<char>) -> Seq<Seq<char>> {
    words_from(s, 0)
}

/// The first position from `i` on that does not hold `/`, or the length of
/// `s` if there is none.
pub open spec fn slashes_end(s: Seq<char>, i: int) -> int
    decreases s.len() - i,
{
    if 0 <= i < s.len() && s[i] == '/' {
        slashes_end(s, i + 1)
    } else {
        i
    }
}

/// `s` without the `/` at its front.
pub open spec fn without_leading_slashes(s: Seq<char>) -> Seq<char> {
    s.subrange(slashes_end(s, 0), s.len() as int)
}

/// The path that a request line asks for: the line has exactly three
/// words, the first is `GET`, and the path is the second without the `/` at
/// its front. Any other line asks for nothing.
pub open spec fn requested_path(line: Seq<char>) -> Option<Seq<char>> {
    let w = words(line);
    if w.len() == 3 && w[0] == seq!['G', 'E', 'T'] {
        Some(without_leading_slashes(w[1]))
    } else {
        None
    }
}

/// From `i` on, `word_start` passes over white space only, and stops at
/// the end of `s` or at a character that is not white space.
pub proof fn lemma_word_start(s: Seq<char>, i: int)
    requires
        0 <= i <= s.len(),
    ensures
        i <= word_start(s, i) <= s.len(),
        forall|t: int| i <= t < word_start(s, i) ==> is_whitespace(#[trigger] s[t]),
        word_start(s, i) < s.len() ==> !is_whitespace(s[word_start(s, i)]),
    decreases s.len() - i,
{
    if i < s.len() && is_whitespace(s[i]) {
        lemma_word_start(s, i + 1);
    }
}

/// From `i` on, `word_end` passes over no white space, and stops at the end
/// of `s` or at white space.
pub proof fn lemma_word_end(s: Seq<char>, i: int)
    requires
        0 <= i <= s.len(),
    ensures
        i <= word_end(s, i) <= s.len(),
        forall|t: int| i <= t < word_end(s, i) ==> !is_whitespace(#[trigger] s[t]),
        word_end(s, i) < s.len() ==> is_whitespace(s[word_end(s, i)]),
    decreases s.len() - i,
{
    if i < s.len() && !is_whitespace(s[i]) {
        lemma_word_end(s, i + 1);
    }
}

/// Every word has at least one character and holds no white space.
pub proof fn lemma_words_hold_no_whitespace(s: Seq<char>, i: int, j: int)
    requires
        0 <= i <= s.len(),
        0 <= j < words_from(s, i).len(),
    ensures
        words_from(s, i)[j].len() > 0,
        forall|t: int|
            0 <= t < words_from(s, i)[j].len() ==> !is_whitespace(
                #[trigger] words_from(s, i)[j][t],
            ),
    decreases s.len() - i,
{
    let a = word_start(s, i);
    let b = word_end(s, a);
    lemma_word_start(s, i);
    lemma_word_end(s, a);
    if j > 0 {
        lemma_words_hold_no_whitespace(s, b, j - 1);
        assert(words_from(s, i)[j] == words_from(s, b)[j - 1]);
    } else {
        let word = s.subrange(a, b);
        assert(words_from(s, i)[0] == word);
        assert forall|t: int| 0 <= t < word.len() implies !is_whitespace(#[trigger] word[t]) by {
            assert(word[t] == s[a + t]);
        }
    }
}

/// A line of nothing but white space has no words.
pub proof fn lemma_blank_line_has_no_words(s: Seq<char>)
    requires
        forall|t: int| 0 <= t < s.len() ==> is_whitespace(#[trigger] s[t]),
    ensures
        words(s).len() == 0,
        requested_path(s) == None::<Seq<char>>,
{
    lemma_word_start(s, 0);
}

/// From `i` on, `slashes_end` passes over `/` only, and stops at the end of
/// `s` or at another character.
pub proof fn lemma_slashes_end(s: Seq<char>, i: int)
    requires
        0 <= i <= s.len(),
    ensures
        i <= slashes_end(s, i) <= s.len(),
        forall|t: int| i <= t < slashes_end(s, i) ==> #[trigger] s[t] == '/',
        slashes_end(s, i) < s.len() ==> s[slashes_end(s, i)] != '/',
    decreases s.len() - i,
{
    if i < s.len() && s[i] == '/' {
        lemma_slashes_end(s, i + 1);
    }
}

/// The path that a request line asks for is relative: it is empty or
/// begins with a character other than `/`, and it holds no white space.
pub proof fn lemma_requested_path_is_relative(line: Seq<char>)
    ensures
        match requested_path(line) {
            Some(path) => {
                &&& path.len() == 0 || path[0] != '/'
                &&& forall|t: int| 0 <= t < path.len() ==> !is_whitespace(#[trigger] path[t])
            },
            None => true,
        },
{
    let w = words(line);
    if w.len() == 3 {
        let word = w[1];
        lemma_slashes_end(word, 0);
        lemma_words_hold_no_whitespace(line, 0, 1);
        let path = without_leading_slashes(word);
        assert forall|t: int| 0 <= t < path.len() implies !is_whitespace(#[trigger] path[t]) by {
            assert(path[t] == word[slashes_end(word, 0) + t]);
        }
    }
}

/// Whether `c` is white space.
pub fn is_space(c: char) -> (b: bool)
    ensures
        b == is_whitespace(c),
{
    let u: u32 = c as u32;
    (0x09 <= u && u <= 0x0D) || u == 0x20 || u == 0x85 || u == 0xA0 || u == 0x1680 || (0x2000 <= u
        && u <= 0x200A) || u == 0x2028 || u == 0x2029 || u == 0x202F || u == 0x205F || u == 0x3000
}

fn find_word_start(chars: &Vec<char>, from: usize) -> (a: usize)
    requires
        from <= chars@.len(),
    ensures
        a == word_start(chars@, from as int),
        from <= a <= chars@.len(),
        a < chars@.len() ==> !is_whitespace(chars@[a as int]),
{
    let mut i: usize = from;
    while i < chars.len() && is_space(chars[i])
        invariant
            from <= i <= chars@.len(),
            word_start(chars@, from as int) == word_start(chars@, i as int),
        decreases chars@.len() - i,
    {
        i += 1;
    }
    i
}

fn find_word_end(chars: &Vec<char>, from: usize) -> (b: usize)
    requires
        from <= chars@.len(),
    ensures
        b == word_end(chars@, from as int),
        from <= b <= chars@.len(),
        from < chars@.len() && !is_whitespace(chars@[from as int]) ==> from < b,
{
    let mut i: usize = from;
    while i < chars.len() && !is_space(chars[i])
        invariant
            from <= i <= chars@.len(),
            word_end(chars@, from as int) == word_end(chars@, i as int),
            from < chars@.len() && !is_whitespace(chars@[from as int]) ==> from < i || i
                < chars@.len(),
        decreases chars@.len() - i,
    {
        i += 1;
    }
    i
}

/// The words that the bounds in `bounds` cut out of `s`.
pub open spec fn cut(s: Seq<char>, bounds: Seq<(usize, usize)>) -> Seq<Seq<char>> {
    Seq::new(bounds.len(), |j: int| s.subrange(bounds[j].0 as int, bounds[j].1 as int))
}

fn bounds_of(chars: &Vec<char>) -> (bounds: Vec<(usize, usize)>)
    ensures
        cut(chars@, bounds@) == words(chars@),
        forall|j: int|
            0 <= j < bounds@.len() ==> (#[trigger] bounds@[j]).0 < bounds@[j].1 <= chars@.len(),
{
    let mut bounds: Vec<(usize, usize)> = Vec::new();
    let mut i: usize = 0;
    loop
        invariant
            i <= chars@.len(),
            words(chars@) == cut(chars@, bounds@) + words_from(chars@, i as int),
            forall|j: int|
                0 <= j < bounds@.len() ==> (#[trigger] bounds@[j]).0 < bounds@[j].1
                    <= chars@.len(),
        ensures
            cut(chars@, bounds@) == words(chars@),
        decreases chars@.len() - i,
    {
        let a = find_word_start(chars, i);
        if a >= chars.len() {
            proof {
                let found = cut(chars@, bounds@);
                assert(words_from(chars@, i as int) =~= Seq::<Seq<char>>::empty());
                assert(found + Seq::<Seq<char>>::empty() =~= found);
            }
            break ;
        }
        let b = find_word_end(chars, a);
        proof {
            let found = cut(chars@, bounds@);
            let word = chars@.subrange(a as int, b as int);
            let rest = words_from(chars@, b as int);
            assert(cut(chars@, bounds@.push((a, b))) =~= found + seq![word]);
            assert(found + (seq![word] + rest) =~= (found + seq![word]) + rest);
        }
        bounds.push((a, b));
        i = b;
    }
    bounds
}

/// Where the words of `line` begin and end, in order, counted in
/// characters.
pub fn word_bounds(line: &str) -> (bounds: Vec<(usize, usize)>)
    ensures
        cut(line@, bounds@) == words(line@),
        forall|j: int|
            0 <= j < bounds@.len() ==> (#[trigger] bounds@[j]).0 < bounds@[j].1 <= line@.len(),
{
    let chars = chars_of(line);
    bounds_of(&chars)
}

/// Reads a request line. A line of exactly three words whose first is `GET`
/// asks for the path that is its second word, taken without the `/` at its
/// front; every other line is refused.
pub fn parse_request(request_line: &str) -> (path: Option<String>)
    ensures
        match path {
            Some(p) => requested_path(request_line@) == Some(p@),
            None => requested_path(request_line@) == None::<Seq<char>>,
        },
{
    let chars = chars_of(request_line);
    let bounds = bounds_of(&chars);
    if bounds.len() != 3 {
        return None;
    }
    let (a0, b0) = bounds[0];
    let (a1, b1) = bounds[1];
    let ghost first = chars@.subrange(a0 as int, b0 as int);
    let ghost second = chars@.subrange(a1 as int, b1 as int);
    proof {
        assert(words(chars@)[0] == cut(chars@, bounds@)[0]);
        assert(words(chars@)[1] == cut(chars@, bounds@)[1]);
    }
    let is_get = b0 - a0 == 3 && chars[a0] == 'G' && chars[a0 + 1] == 'E' && chars[a0 + 2] == 'T';
    proof {
        if is_get {
            assert(first =~= seq!['G', 'E', 'T']);
        } else if first == seq!['G', 'E', 'T'] {
            assert(first.len() == 3);
            assert(first[0] == 'G' && first[1] == 'E' && first[2] == 'T');
        }
    }
    if !is_get {
        return None;
    }
    let mut start: usize = a1;
    while start < b1 && chars[start] == '/'
        invariant
            a1 <= start <= b1 <= chars@.len(),
            second == chars@.subrange(a1 as int, b1 as int),
            slashes_end(second, 0) == slashes_end(second, start - a1),
        decreases b1 - start,
    {
        assert(second[start - a1] == chars@[start as int]);
        start += 1;
    }
    proof {
        if start < b1 {
            assert(second[start - a1] == chars@[start as int]);
        }
        assert(without_leading_slashes(second) =~= chars@.subrange(start as int, b1 as int));
    }
    Some(String::from_str(request_line.substring_char(start, b1)))
}

} // verus!
