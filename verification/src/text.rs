//! Characters, whitespace and trimming.

use vstd::prelude::*;
use vstd::string::StrSliceExecFns;

verus! {

/// The characters that separate words: those carrying the Unicode
/// `White_Space` property.
pub open spec fn is_space(c: char) -> bool {
    ||| ('\u{9}' <= c && c <= '\u{d}')
    ||| c == ' '
    ||| c == '\u{85}'
    ||| c == '\u{a0}'
    ||| c == '\u{1680}'
    ||| ('\u{2000}' <= c && c <= '\u{200a}')
    ||| c == '\u{2028}'
    ||| c == '\u{2029}'
    ||| c == '\u{202f}'
    ||| c == '\u{205f}'
    ||| c == '\u{3000}'
}

/// Whether `c` is a whitespace character.
pub fn is_whitespace(c: char) -> (b: bool)
    ensures
        b == is_space(c),
{
    ('\u{9}' <= c && c <= '\u{d}') || c == ' ' || c == '\u{85}' || c == '\u{a0}' || c == '\u{1680}'
        || ('\u{2000}' <= c && c <= '\u{200a}') || c == '\u{2028}' || c == '\u{2029}' || c
        == '\u{202f}' || c == '\u{205f}' || c == '\u{3000}'
}

/// The character sequences of a list of strings.
pub open spec fn texts(v: Seq<String>) -> Seq<Seq<char>> {
    v.map_values(|s: String| s@)
}

/// A text made of whitespace only (the empty text included).
pub open spec fn blank(s: Seq<char>) -> bool {
    forall|i: int| 0 <= i < s.len() ==> is_space(#[trigger] s[i])
}

/// The offset of the first non-whitespace character at or after `i`,
/// or the length of `s` where there is none.
pub open spec fn first_ink(s: Seq<char>, i: int) -> int
    decreases s.len() - i,
{
    if i < 0 || i >= s.len() {
        s.len() as int
    } else if !is_space(s[i]) {
        i
    } else {
        first_ink(s, i + 1)
    }
}

/// One past the last non-whitespace character before offset `j`, or 0
/// where there is none.
pub open spec fn last_ink_end(s: Seq<char>, j: int) -> int
    decreases j,
{
    if j <= 0 || j > s.len() {
        0
    } else if !is_space(s[j - 1]) {
        j
    } else {
        last_ink_end(s, j - 1)
    }
}

/// Where the trimmed text starts.
pub open spec fn ink_start(s: Seq<char>) -> int {
    first_ink(s, 0)
}

/// Where the trimmed text ends: never before `ink_start`.
pub open spec fn ink_end(s: Seq<char>) -> int {
    if last_ink_end(s, s.len() as int) < ink_start(s) {
        ink_start(s)
    } else {
        last_ink_end(s, s.len() as int)
    }
}

/// `s` without its leading and trailing whitespace.
pub open spec fn trimmed(s: Seq<char>) -> Seq<char> {
    s.subrange(ink_start(s), ink_end(s))
}

/// `s` without its trailing whitespace.
pub open spec fn trimmed_end(s: Seq<char>) -> Seq<char> {
    s.take(last_ink_end(s, s.len() as int))
}

/// `first_ink` stays within the text, everything it skips is whitespace,
/// and it stops on a non-whitespace character.
pub proof fn lemma_first_ink(s: Seq<char>, i: int)
    requires
        0 <= i <= s.len(),
    ensures
        i <= first_ink(s, i) <= s.len(),
        forall|j: int| i <= j < first_ink(s, i) ==> is_space(#[trigger] s[j]),
        first_ink(s, i) < s.len() ==> !is_space(s[first_ink(s, i)]),
    decreases s.len() - i,
{
    if i < s.len() && is_space(s[i]) {
        lemma_first_ink(s, i + 1);
    }
}

/// `last_ink_end` stays within the text, everything after it up to `j`
/// is whitespace, and the character before it is not.
pub proof fn lemma_last_ink_end(s: Seq<char>, j: int)
    requires
        0 <= j <= s.len(),
    ensures
        0 <= last_ink_end(s, j) <= j,
        forall|i: int| last_ink_end(s, j) <= i < j ==> is_space(#[trigger] s[i]),
        last_ink_end(s, j) > 0 ==> !is_space(s[last_ink_end(s, j) - 1]),
    decreases j,
{
    if j > 0 && is_space(s[j - 1]) {
        lemma_last_ink_end(s, j - 1);
    }
}

/// The trimmed text is a range of the text, cut on both sides at a
/// non-whitespace character, with nothing but whitespace outside.
pub proof fn lemma_trimmed(s: Seq<char>)
    ensures
        0 <= ink_start(s) <= ink_end(s) <= s.len(),
        blank(s.take(ink_start(s))),
        blank(s.skip(ink_end(s))),
        trimmed(s).len() > 0 ==> !is_space(trimmed(s).first()) && !is_space(trimmed(s).last()),
        trimmed(s).len() == 0 <==> blank(s),
{
    lemma_first_ink(s, 0);
    lemma_last_ink_end(s, s.len() as int);
    if last_ink_end(s, s.len() as int) <= ink_start(s) {
        assert forall|i: int| 0 <= i < s.len() implies is_space(#[trigger] s[i]) by {}
    }
    assert forall|i: int| 0 <= i < s.skip(ink_end(s)).len() implies is_space(
        #[trigger] s.skip(ink_end(s))[i],
    ) by {}
}

/// The characters of `s`, in order.
pub fn chars_of(s: &str) -> (v: Vec<char>)
    ensures
        v@ == s@,
{
    let mut v: Vec<char> = Vec::new();
    for c in it: s.chars()
        invariant
            v@ == s@.take(it.index() as int),
            it.seq() == s@,
    {
        v.push(c);
    }
    v
}

/// The offset of the first non-whitespace character of `chars`.
pub fn skip_whitespace(chars: &Vec<char>) -> (a: usize)
    ensures
        a == ink_start(chars@),
{
    let mut a: usize = 0;
    while a < chars.len() && is_whitespace(chars[a])
        invariant
            a <= chars.len(),
            first_ink(chars@, a as int) == first_ink(chars@, 0),
        decreases chars.len() - a,
    {
        a += 1;
    }
    a
}

/// One past the last non-whitespace character of `chars`.
pub fn skip_trailing_whitespace(chars: &Vec<char>) -> (e: usize)
    ensures
        e == last_ink_end(chars@, chars@.len() as int),
{
    let mut e: usize = chars.len();
    while e > 0 && is_whitespace(chars[e - 1])
        invariant
            e <= chars.len(),
            last_ink_end(chars@, e as int) == last_ink_end(chars@, chars@.len() as int),
        decreases e,
    {
        e -= 1;
    }
    e
}

/// `s` without its leading and trailing whitespace.
pub fn trim<'a>(s: &'a str) -> (r: &'a str)
    ensures
        r@ == trimmed(s@),
{
    let chars = chars_of(s);
    let a = skip_whitespace(&chars);
    let e = skip_trailing_whitespace(&chars);
    proof {
        lemma_trimmed(s@);
    }
    if e < a {
        s.substring_char(a, a)
    } else {
        s.substring_char(a, e)
    }
}

/// `s` without its trailing whitespace.
pub fn trim_end<'a>(s: &'a str) -> (r: &'a str)
    ensures
        r@ == trimmed_end(s@),
{
    let chars = chars_of(s);
    let e = skip_trailing_whitespace(&chars);
    proof {
        lemma_last_ink_end(s@, s@.len() as int);
    }
    s.substring_char(0, e)
}

/// Whether `text` begins with `prefix`.
pub fn starts_with(text: &Vec<char>, prefix: &Vec<char>) -> (b: bool)
    ensures
        b == prefix@.is_prefix_of(text@),
{
    if prefix.len() > text.len() {
        return false;
    }
    let mut i: usize = 0;
    while i < prefix.len()
        invariant
            i <= prefix.len() <= text.len(),
            forall|j: int| 0 <= j < i ==> text@[j] == prefix@[j],
        decreases prefix.len() - i,
    {
        if text[i] != prefix[i] {
            return false;
        }
        i += 1;
    }
    true
}

} // verus!
