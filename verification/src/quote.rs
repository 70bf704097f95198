//! Which offsets of a line lie inside a pair of quote characters, and
//! the stripping of the quotes that surround a word.

use vstd::prelude::*;
use vstd::string::StrSliceExecFns;
use crate::text::chars_of;

verus! {

/// The quote character.
pub const QUOTE: char = '"';

/// How many quote characters stand before offset `i`.
pub open spec fn quotes_before(s: Seq<char>, i: int) -> nat
    decreases i,
{
    if i <= 0 {
        0
    } else if i <= s.len() && s[i - 1] == QUOTE {
        quotes_before(s, i - 1) + 1
    } else {
        quotes_before(s, i - 1)
    }
}

/// How many quote characters `s` holds.
pub open spec fn quote_count(s: Seq<char>) -> nat {
    quotes_before(s, s.len() as int)
}

/// Offset `i` lies inside a quoted span: quote characters pair up two
/// at a time from the left, and `i` stands strictly between the two
/// quotes of a pair. So an odd number of quotes precede `i`, the
/// character at `i` is no quote, and a closing quote follows.
pub open spec fn in_quotes(s: Seq<char>, i: int) -> bool {
    &&& 0 <= i < s.len()
    &&& s[i] != QUOTE
    &&& quotes_before(s, i) % 2 == 1
    &&& quotes_before(s, i) < quote_count(s)
}

/// The count of quotes grows with the offset and never exceeds it.
pub proof fn lemma_quotes_before_monotonic(s: Seq<char>, i: int, j: int)
    requires
        0 <= i <= j,
    ensures
        quotes_before(s, i) <= quotes_before(s, j),
        quotes_before(s, j) <= j,
        quotes_before(s, j) - quotes_before(s, i) <= j - i,
    decreases j,
{
    if i < j {
        lemma_quotes_before_monotonic(s, i, j - 1);
    } else if j > 0 {
        lemma_quotes_before_monotonic(s, 0, j - 1);
        lemma_quotes_before_monotonic(s, j - 1, j - 1);
    }
}

/// Quote characters themselves, the first offset, and every offset of
/// a line without quotes are outside all spans.
pub proof fn lemma_outside(s: Seq<char>)
    ensures
        !in_quotes(s, 0),
        forall|i: int| 0 <= i < s.len() && s[i] == QUOTE ==> !in_quotes(s, i),
        quote_count(s) == 0 ==> forall|i: int| !in_quotes(s, i),
{
}

/// The quotes at `open` and `close` are a pair: quotes pair up two at
/// a time from the left, so an even number of quotes stand before the
/// opening one, and the closing one is the next quote after it.
pub open spec fn quote_pair(s: Seq<char>, open: int, close: int) -> bool {
    &&& 0 <= open < close < s.len()
    &&& s[open] == QUOTE
    &&& s[close] == QUOTE
    &&& quotes_before(s, open) % 2 == 0
    &&& forall|j: int| open < j < close ==> s[j] != QUOTE
}

/// The offset of the last quote before `i`, or -1 where there is
/// none.
pub open spec fn last_quote_before(s: Seq<char>, i: int) -> int
    decreases i,
{
    if i <= 0 || i > s.len() {
        -1
    } else if s[i - 1] == QUOTE {
        i - 1
    } else {
        last_quote_before(s, i - 1)
    }
}

/// The offset of the first quote at or after `i`, or the length of
/// `s` where there is none.
pub open spec fn first_quote_from(s: Seq<char>, i: int) -> int
    decreases s.len() - i,
{
    if i < 0 || i >= s.len() {
        s.len() as int
    } else if s[i] == QUOTE {
        i
    } else {
        first_quote_from(s, i + 1)
    }
}

/// Between two offsets without a quote between them the count of
/// quotes does not change.
pub proof fn lemma_no_quote_between(s: Seq<char>, i: int, j: int)
    requires
        0 <= i <= j <= s.len(),
        forall|k: int| i <= k < j ==> s[k] != QUOTE,
    ensures
        quotes_before(s, j) == quotes_before(s, i),
    decreases j - i,
{
    if i < j {
        lemma_no_quote_between(s, i, j - 1);
    }
}

/// What `last_quote_before` finds.
pub proof fn lemma_last_quote_before(s: Seq<char>, i: int)
    requires
        0 <= i <= s.len(),
    ensures
        -1 <= last_quote_before(s, i) < i,
        forall|k: int| last_quote_before(s, i) < k < i ==> s[k] != QUOTE,
        last_quote_before(s, i) >= 0 ==> s[last_quote_before(s, i)] == QUOTE && quotes_before(
            s,
            i,
        ) == quotes_before(s, last_quote_before(s, i)) + 1,
        last_quote_before(s, i) == -1 ==> quotes_before(s, i) == 0,
    decreases i,
{
    if i > 0 && s[i - 1] != QUOTE {
        lemma_last_quote_before(s, i - 1);
    }
}

/// What `first_quote_from` finds.
pub proof fn lemma_first_quote_from(s: Seq<char>, i: int)
    requires
        0 <= i <= s.len(),
    ensures
        i <= first_quote_from(s, i) <= s.len(),
        forall|k: int| i <= k < first_quote_from(s, i) ==> s[k] != QUOTE,
        first_quote_from(s, i) < s.len() ==> s[first_quote_from(s, i)] == QUOTE,
        first_quote_from(s, i) == s.len() ==> quote_count(s) == quotes_before(s, i),
    decreases s.len() - i,
{
    if i < s.len() && s[i] != QUOTE {
        lemma_first_quote_from(s, i + 1);
    }
    if first_quote_from(s, i) == s.len() {
        lemma_no_quote_between(s, i, s.len() as int);
    }
}

/// An offset lies inside a quoted span exactly when it stands
/// strictly between the two quotes of a pair.
pub proof fn lemma_in_quotes_iff_enclosed(s: Seq<char>, i: int)
    ensures
        in_quotes(s, i) <==> exists|open: int, close: int|
            quote_pair(s, open, close) && open < i < close,
{
    if in_quotes(s, i) {
        let open = last_quote_before(s, i);
        let close = first_quote_from(s, i);
        lemma_last_quote_before(s, i);
        lemma_first_quote_from(s, i);
        assert(quote_pair(s, open, close) && open < i < close);
    }
    if exists|open: int, close: int| quote_pair(s, open, close) && open < i < close {
        let (open, close) = choose|open: int, close: int|
            quote_pair(s, open, close) && open < i < close;
        lemma_no_quote_between(s, open + 1, i);
        lemma_quotes_before_monotonic(s, i, close + 1);
        lemma_no_quote_between(s, i, close);
        lemma_quotes_before_monotonic(s, close + 1, s.len() as int);
    }
}

/// `arg` without one layer of surrounding quotes: a text that begins
/// and ends with a quote character loses both.
pub open spec fn strip_quotes(arg: Seq<char>) -> Seq<char> {
    if arg.len() >= 2 && arg.first() == QUOTE && arg.last() == QUOTE {
        arg.subrange(1, arg.len() - 1)
    } else {
        arg
    }
}

/// The number of quote characters among the first `n` of `chars`.
pub fn count_quotes_before(chars: &Vec<char>, n: usize) -> (k: usize)
    requires
        n <= chars.len(),
    ensures
        k == quotes_before(chars@, n as int),
        k <= n,
{
    let mut k: usize = 0;
    let mut i: usize = 0;
    while i < n
        invariant
            i <= n <= chars.len(),
            k == quotes_before(chars@, i as int),
            k <= i,
        decreases n - i,
    {
        if chars[i] == QUOTE {
            k += 1;
        }
        i += 1;
    }
    k
}

/// For each offset of `chars`, whether it lies inside a quoted span.
pub fn quote_mask(chars: &Vec<char>) -> (mask: Vec<bool>)
    ensures
        mask@.len() == chars@.len(),
        forall|i: int| 0 <= i < chars@.len() ==> mask@[i] == in_quotes(chars@, i),
{
    let total = count_quotes_before(chars, chars.len());
    let mut mask: Vec<bool> = Vec::new();
    let mut seen: usize = 0;
    let mut i: usize = 0;
    while i < chars.len()
        invariant
            i <= chars.len(),
            mask@.len() == i,
            seen == quotes_before(chars@, i as int),
            seen <= i,
            total == quote_count(chars@),
            forall|j: int| 0 <= j < i ==> mask@[j] == in_quotes(chars@, j),
        decreases chars.len() - i,
    {
        let c = chars[i];
        mask.push(c != QUOTE && seen % 2 == 1 && seen < total);
        if c == QUOTE {
            seen += 1;
        }
        i += 1;
    }
    mask
}

/// Whether offset `index` of `line` lies inside a quoted span.
pub fn index_in_escape_scope(line: &str, index: usize) -> (inside: bool)
    ensures
        inside == in_quotes(line@, index as int),
{
    let chars = chars_of(line);
    if index >= chars.len() {
        return false;
    }
    let before = count_quotes_before(&chars, index);
    let total = count_quotes_before(&chars, chars.len());
    chars[index] != QUOTE && before % 2 == 1 && before < total
}

/// The number of quote characters in `line`.
pub fn count_quotes(line: &str) -> (k: usize)
    ensures
        k == quote_count(line@),
{
    let chars = chars_of(line);
    count_quotes_before(&chars, chars.len())
}

/// `arg` without one layer of surrounding quotes.
pub fn strip_quote_layer(arg: &str) -> (out: String)
    ensures
        out@ == strip_quotes(arg@),
{
    let chars = chars_of(arg);
    let n = chars.len();
    if n >= 2 && chars[0] == QUOTE && chars[n - 1] == QUOTE {
        arg.substring_char(1, n - 1).to_owned()
    } else {
        arg.to_owned()
    }
}

} // verus!
