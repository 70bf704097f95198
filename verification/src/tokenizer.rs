//! Splitting a line at delimiters that stand outside quoted spans.
//!
//! A delimiter occurrence is an extent `(start, width)` of the line. The
//! texts between consecutive extents are the gaps; the non-empty gaps,
//! in order, are the tokens.

use vstd::prelude::*;
use vstd::string::StrSliceExecFns;
use crate::quote::{in_quotes, quote_mask};
use crate::text::{chars_of, is_space, is_whitespace};

verus! {

/// The character sequences of a list of string slices.
pub open spec fn strs(v: Seq<&str>) -> Seq<Seq<char>> {
    v.map_values(|s: &str| s@)
}

/// The character sequences of a list of character vectors.
pub open spec fn char_seqs(v: Seq<Vec<char>>) -> Seq<Seq<char>> {
    v.map_values(|t: Vec<char>| t@)
}

/// Pairs of machine integers as pairs of mathematical ones.
pub open spec fn pairs(v: Seq<(usize, usize)>) -> Seq<(int, int)> {
    v.map_values(|p: (usize, usize)| (p.0 as int, p.1 as int))
}

/// The non-empty delimiter `t` stands in `s` at offset `i`.
pub open spec fn matches_at(s: Seq<char>, t: Seq<char>, i: int) -> bool {
    &&& t.len() > 0
    &&& 0 <= i
    &&& i + t.len() <= s.len()
    &&& s.subrange(i, i + t.len()) == t
}

/// The first delimiter of `tokens`, from index `k` on, that stands in
/// `s` at offset `i`.
pub open spec fn first_match(s: Seq<char>, tokens: Seq<Seq<char>>, i: int, k: int) -> Option<int>
    decreases tokens.len() - k,
{
    if k < 0 || k >= tokens.len() {
        None
    } else if matches_at(s, tokens[k], i) {
        Some(k)
    } else {
        first_match(s, tokens, i, k + 1)
    }
}

/// The delimiter that starts at offset `i`: none inside a quoted span,
/// else the earliest-listed one that matches there.
pub open spec fn token_at(s: Seq<char>, tokens: Seq<Seq<char>>, i: int) -> Option<int> {
    if in_quotes(s, i) {
        None
    } else {
        first_match(s, tokens, i, 0)
    }
}

/// What `first_match` finds matches, and nothing listed before it does.
pub proof fn lemma_first_match(s: Seq<char>, tokens: Seq<Seq<char>>, i: int, k: int)
    requires
        0 <= k,
    ensures
        match first_match(s, tokens, i, k) {
            Some(j) => {
                &&& k <= j < tokens.len()
                &&& matches_at(s, tokens[j], i)
                &&& forall|m: int| k <= m < j ==> !matches_at(s, #[trigger] tokens[m], i)
            },
            None => forall|m: int| k <= m < tokens.len() ==> !matches_at(s, #[trigger] tokens[m], i),
        },
    decreases tokens.len() - k,
{
    if k < tokens.len() && !matches_at(s, tokens[k], i) {
        lemma_first_match(s, tokens, i, k + 1);
    }
}

/// The delimiter occurrences of `s` from offset `i` on, as pairs of a
/// start offset and the index of the delimiter in `tokens`: the line is
/// read from the left, an occurrence is taken where a delimiter starts
/// outside quotes, and reading goes on behind it, so that occurrences
/// never overlap.
pub open spec fn occurrences_from(s: Seq<char>, tokens: Seq<Seq<char>>, i: int) -> Seq<
    (int, int),
>
    decreases s.len() - i,
    via occurrences_from_decreases
{
    if i < 0 || i >= s.len() {
        Seq::empty()
    } else {
        match token_at(s, tokens, i) {
            Some(k) => seq![(i, k)] + occurrences_from(s, tokens, i + tokens[k].len()),
            None => occurrences_from(s, tokens, i + 1),
        }
    }
}

#[via_fn]
proof fn occurrences_from_decreases(s: Seq<char>, tokens: Seq<Seq<char>>, i: int) {
    lemma_first_match(s, tokens, i, 0);
}

/// All delimiter occurrences of `s`, ascending by start offset.
pub open spec fn occurrences(s: Seq<char>, tokens: Seq<Seq<char>>) -> Seq<(int, int)> {
    occurrences_from(s, tokens, 0)
}

/// The extents `(start, width)` of a list of occurrences.
pub open spec fn extents(occ: Seq<(int, int)>, tokens: Seq<Seq<char>>) -> Seq<(int, int)> {
    occ.map_values(|c: (int, int)| (c.0, tokens[c.1].len() as int))
}

/// The delimiter texts of a list of occurrences.
pub open spec fn delimiters(occ: Seq<(int, int)>, tokens: Seq<Seq<char>>) -> Seq<Seq<char>> {
    occ.map_values(|c: (int, int)| tokens[c.1])
}

/// Extents that lie within a text of length `len`, each at least one
/// character wide, ascending and without overlap.
pub open spec fn well_formed(ext: Seq<(int, int)>, len: int) -> bool {
    &&& forall|k: int|
        0 <= k < ext.len() ==> 0 <= (#[trigger] ext[k]).0 && ext[k].1 > 0 && ext[k].0 + ext[k].1
            <= len
    &&& forall|j: int, k: int|
        0 <= j < k < ext.len() ==> (#[trigger] ext[j]).0 + ext[j].1 <= (#[trigger] ext[k]).0
}

/// Where the gap before extent `k` starts (`k` may be the number of
/// extents: the gap behind the last one).
pub open spec fn gap_start(ext: Seq<(int, int)>, k: int) -> int {
    if k <= 0 {
        0
    } else {
        ext[k - 1].0 + ext[k - 1].1
    }
}

/// Where the gap before extent `k` ends.
pub open spec fn gap_end(ext: Seq<(int, int)>, k: int, len: int) -> int {
    if k < ext.len() {
        ext[k].0
    } else {
        len
    }
}

/// The text between extent `k - 1` and extent `k`.
pub open spec fn gap(s: Seq<char>, ext: Seq<(int, int)>, k: int) -> Seq<char> {
    s.subrange(gap_start(ext, k), gap_end(ext, k, s.len() as int))
}

/// The texts before, between and behind the extents, empty ones
/// included: one more than there are extents.
pub open spec fn gaps(s: Seq<char>, ext: Seq<(int, int)>) -> Seq<Seq<char>> {
    Seq::new(ext.len() + 1, |k: int| gap(s, ext, k))
}

/// The tokens: the non-empty gaps, in order.
pub open spec fn tokens_between(s: Seq<char>, ext: Seq<(int, int)>) -> Seq<Seq<char>> {
    gaps(s, ext).filter(|t: Seq<char>| t.len() > 0)
}

/// The tokens of `s` split at the occurrences of `tokens`.
pub open spec fn split_on_tokens(s: Seq<char>, tokens: Seq<Seq<char>>) -> Seq<Seq<char>> {
    tokens_between(s, extents(occurrences(s, tokens), tokens))
}

/// Offset `i` holds a whitespace character outside quotes.
pub open spec fn is_break(s: Seq<char>, i: int) -> bool {
    0 <= i < s.len() && is_space(s[i]) && !in_quotes(s, i)
}

/// The extents of the unquoted whitespace characters before offset
/// `n`, each one character wide.
pub open spec fn breaks_before(s: Seq<char>, n: int) -> Seq<(int, int)>
    decreases n,
{
    if n <= 0 {
        Seq::empty()
    } else if is_break(s, n - 1) {
        breaks_before(s, n - 1).push((n - 1, 1))
    } else {
        breaks_before(s, n - 1)
    }
}

/// The words of `s`: the maximal runs of characters that are not
/// unquoted whitespace.
pub open spec fn split_on_whitespace(s: Seq<char>) -> Seq<Seq<char>> {
    tokens_between(s, breaks_before(s, s.len() as int))
}

/// Gaps and delimiters laid down in turn, up to gap `k`.
pub open spec fn rejoined_upto(gaps: Seq<Seq<char>>, delims: Seq<Seq<char>>, k: int) -> Seq<char>
    decreases k,
{
    if k <= 0 {
        gaps[0]
    } else {
        rejoined_upto(gaps, delims, k - 1) + delims[k - 1] + gaps[k]
    }
}

/// Gaps and delimiters laid down in turn: gap, delimiter, gap, ...,
/// gap.
pub open spec fn rejoined(gaps: Seq<Seq<char>>, delims: Seq<Seq<char>>) -> Seq<char> {
    rejoined_upto(gaps, delims, delims.len() as int)
}

/// The texts that the extents cover.
pub open spec fn covered(s: Seq<char>, ext: Seq<(int, int)>) -> Seq<Seq<char>> {
    ext.map_values(|e: (int, int)| s.subrange(e.0, e.0 + e.1))
}

/// Every occurrence from offset `i` on starts at or after `i`, its
/// delimiter stands there outside quotes, and the occurrences ascend
/// without overlap.
pub proof fn lemma_occurrences_from(s: Seq<char>, tokens: Seq<Seq<char>>, i: int)
    requires
        0 <= i,
    ensures
        forall|k: int|
            0 <= k < occurrences_from(s, tokens, i).len() ==> {
                let c = #[trigger] occurrences_from(s, tokens, i)[k];
                &&& i <= c.0
                &&& token_at(s, tokens, c.0) == Some(c.1)
                &&& 0 <= c.1 < tokens.len()
                &&& matches_at(s, tokens[c.1], c.0)
            },
        forall|j: int, k: int|
            0 <= j < k < occurrences_from(s, tokens, i).len() ==> {
                let a = #[trigger] occurrences_from(s, tokens, i)[j];
                let b = #[trigger] occurrences_from(s, tokens, i)[k];
                a.0 + tokens[a.1].len() <= b.0
            },
    decreases s.len() - i,
{
    if i < s.len() {
        lemma_first_match(s, tokens, i, 0);
        match token_at(s, tokens, i) {
            Some(t) => {
                lemma_occurrences_from(s, tokens, i + tokens[t].len());
            },
            None => {
                lemma_occurrences_from(s, tokens, i + 1);
            },
        }
    }
}

/// The extents of the delimiter occurrences are well formed.
pub proof fn lemma_occurrences_well_formed(s: Seq<char>, tokens: Seq<Seq<char>>)
    ensures
        well_formed(extents(occurrences(s, tokens), tokens), s.len() as int),
        covered(s, extents(occurrences(s, tokens), tokens)) == delimiters(
            occurrences(s, tokens),
            tokens,
        ),
{
    lemma_occurrences_from(s, tokens, 0);
    let occ = occurrences(s, tokens);
    let ext = extents(occ, tokens);
    assert forall|j: int, k: int| 0 <= j < k < ext.len() implies (#[trigger] ext[j]).0 + ext[j].1
        <= (#[trigger] ext[k]).0 by {}
}

/// The whitespace extents before `n` are the unquoted whitespace
/// offsets below `n`, ascending.
pub proof fn lemma_breaks_before(s: Seq<char>, n: int)
    requires
        0 <= n <= s.len(),
    ensures
        well_formed(breaks_before(s, n), n),
        forall|k: int|
            0 <= k < breaks_before(s, n).len() ==> (#[trigger] breaks_before(s, n)[k]).1 == 1
                && is_break(s, breaks_before(s, n)[k].0),
        forall|i: int|
            0 <= i < n && is_break(s, i) ==> exists|k: int|
                0 <= k < breaks_before(s, n).len() && (#[trigger] breaks_before(s, n)[k]).0 == i,
    decreases n,
{
    if n > 0 {
        lemma_breaks_before(s, n - 1);
        let prev = breaks_before(s, n - 1);
        let cur = breaks_before(s, n);
        if is_break(s, n - 1) {
            assert forall|i: int| 0 <= i < n && is_break(s, i) implies exists|k: int|
                0 <= k < cur.len() && (#[trigger] cur[k]).0 == i by {
                if i < n - 1 {
                    let k = choose|k: int| 0 <= k < prev.len() && (#[trigger] prev[k]).0 == i;
                    assert(cur[k].0 == i);
                } else {
                    assert(cur[cur.len() - 1].0 == i);
                }
            }
        } else {
            assert forall|i: int| 0 <= i < n && is_break(s, i) implies exists|k: int|
                0 <= k < cur.len() && (#[trigger] cur[k]).0 == i by {}
        }
    }
}

/// Laying down the first `k` gaps and delimiters gives the text up to
/// the end of gap `k`.
pub proof fn lemma_rejoined_upto(s: Seq<char>, ext: Seq<(int, int)>, k: int)
    requires
        well_formed(ext, s.len() as int),
        0 <= k <= ext.len(),
    ensures
        rejoined_upto(gaps(s, ext), covered(s, ext), k) == s.take(
            gap_end(ext, k, s.len() as int),
        ),
    decreases k,
{
    if k > 0 {
        lemma_rejoined_upto(s, ext, k - 1);
    }
}

/// Round trip: the gaps of a text, laid down in turn with the texts
/// that the extents cover, give the text back. Empty gaps add
/// nothing, so the same holds of the tokens placed at their offsets.
pub proof fn lemma_round_trip(s: Seq<char>, ext: Seq<(int, int)>)
    requires
        well_formed(ext, s.len() as int),
    ensures
        rejoined(gaps(s, ext), covered(s, ext)) == s,
{
    lemma_rejoined_upto(s, ext, ext.len() as int);
}

/// Round trip of the operator split: the gaps between the delimiter
/// occurrences of a line, laid down in turn with the delimiters that
/// were found, in their order, reproduce the line.
pub proof fn lemma_split_round_trip(s: Seq<char>, tokens: Seq<Seq<char>>)
    ensures
        rejoined(
            gaps(s, extents(occurrences(s, tokens), tokens)),
            delimiters(occurrences(s, tokens), tokens),
        ) == s,
{
    lemma_occurrences_well_formed(s, tokens);
    lemma_round_trip(s, extents(occurrences(s, tokens), tokens));
}

/// Round trip of the whitespace split.
pub proof fn lemma_words_round_trip(s: Seq<char>)
    ensures
        rejoined(
            gaps(s, breaks_before(s, s.len() as int)),
            covered(s, breaks_before(s, s.len() as int)),
        ) == s,
{
    lemma_breaks_before(s, s.len() as int);
    lemma_round_trip(s, breaks_before(s, s.len() as int));
}

/// Whether `token` stands in `chars` at offset `i`.
pub fn token_matches(chars: &Vec<char>, token: &Vec<char>, i: usize) -> (b: bool)
    ensures
        b == matches_at(chars@, token@, i as int),
{
    if token.len() == 0 || i > chars.len() || token.len() > chars.len() - i {
        return false;
    }
    let mut j: usize = 0;
    while j < token.len()
        invariant
            j <= token.len(),
            i + token.len() <= chars.len(),
            forall|m: int| 0 <= m < j ==> chars@[i + m] == token@[m],
        decreases token.len() - j,
    {
        if chars[i + j] != token[j] {
            return false;
        }
        j += 1;
    }
    assert(chars@.subrange(i as int, i + token@.len()) =~= token@);
    true
}

/// The index of the earliest-listed token that stands in `chars` at
/// offset `i`.
pub fn find_token(chars: &Vec<char>, tokens: &Vec<Vec<char>>, i: usize) -> (found: Option<usize>)
    ensures
        match found {
            Some(k) => first_match(chars@, char_seqs(tokens@), i as int, 0) == Some(k as int),
            None => first_match(chars@, char_seqs(tokens@), i as int, 0) is None,
        },
{
    let mut k: usize = 0;
    while k < tokens.len()
        invariant
            k <= tokens.len(),
            first_match(chars@, char_seqs(tokens@), i as int, 0) == first_match(
                chars@,
                char_seqs(tokens@),
                i as int,
                k as int,
            ),
        decreases tokens.len() - k,
    {
        if token_matches(chars, &tokens[k], i) {
            return Some(k);
        }
        k += 1;
    }
    None
}

/// The delimiter occurrences of `chars`, each as a start offset and an
/// index into `tokens`.
pub fn find_occurrences(chars: &Vec<char>, tokens: &Vec<Vec<char>>) -> (occ: Vec<(usize, usize)>)
    ensures
        pairs(occ@) == occurrences(chars@, char_seqs(tokens@)),
{
    let mask = quote_mask(chars);
    let mut occ: Vec<(usize, usize)> = Vec::new();
    let mut i: usize = 0;
    let ghost s = chars@;
    let ghost toks = char_seqs(tokens@);
    while i < chars.len()
        invariant
            i <= chars.len(),
            s == chars@,
            toks == char_seqs(tokens@),
            mask@.len() == s.len(),
            forall|j: int| 0 <= j < s.len() ==> mask@[j] == in_quotes(s, j),
            pairs(occ@) + occurrences_from(s, toks, i as int) == occurrences(s, toks),
        decreases chars.len() - i,
    {
        let found = if mask[i] {
            None
        } else {
            find_token(chars, tokens, i)
        };
        proof {
            lemma_first_match(s, toks, i as int, 0);
        }
        match found {
            Some(k) => {
                occ.push((i, k));
                i += tokens[k].len();
            },
            None => {
                i += 1;
            },
        }
    }
    occ
}

/// The extents of the unquoted whitespace characters of `chars`.
pub fn find_breaks(chars: &Vec<char>) -> (ext: Vec<(usize, usize)>)
    ensures
        pairs(ext@) == breaks_before(chars@, chars@.len() as int),
{
    let mask = quote_mask(chars);
    let mut ext: Vec<(usize, usize)> = Vec::new();
    let mut i: usize = 0;
    while i < chars.len()
        invariant
            i <= chars.len(),
            mask@.len() == chars@.len(),
            forall|j: int| 0 <= j < chars@.len() ==> mask@[j] == in_quotes(chars@, j),
            pairs(ext@) == breaks_before(chars@, i as int),
        decreases chars.len() - i,
    {
        if is_whitespace(chars[i]) && !mask[i] {
            ext.push((i, 1));
        }
        i += 1;
    }
    ext
}

/// The tokens of `line` between the given extents.
pub fn cut_out<'a>(line: &'a str, ext: &Vec<(usize, usize)>) -> (out: Vec<&'a str>)
    requires
        well_formed(pairs(ext@), line@.len() as int),
    ensures
        strs(out@) == tokens_between(line@, pairs(ext@)),
{
    let n = line.unicode_len();
    let ghost s = line@;
    let ghost e = pairs(ext@);
    let ghost nonempty = |t: Seq<char>| t.len() > 0;
    let mut out: Vec<&'a str> = Vec::new();
    let mut prev: usize = 0;
    let mut k: usize = 0;
    proof {
        reveal(Seq::filter);
    }
    while k < ext.len()
        invariant
            k <= ext.len(),
            n == s.len(),
            s == line@,
            e == pairs(ext@),
            nonempty == (|t: Seq<char>| t.len() > 0),
            well_formed(e, s.len() as int),
            prev == gap_start(e, k as int),
            prev <= n,
            strs(out@) == gaps(s, e).take(k as int).filter(nonempty),
        decreases ext.len() - k,
    {
        let (start, width) = ext[k];
        proof {
            gaps(s, e).take(k as int).lemma_filter_push(gap(s, e, k as int), nonempty);
            assert(gaps(s, e).take(k + 1) =~= gaps(s, e).take(k as int).push(gap(s, e, k as int)));
        }
        if prev < start {
            let piece = line.substring_char(prev, start);
            out.push(piece);
        }
        prev = start + width;
        k += 1;
    }
    proof {
        gaps(s, e).take(k as int).lemma_filter_push(gap(s, e, k as int), nonempty);
    }
    if prev < n {
        let piece = line.substring_char(prev, n);
        out.push(piece);
    }
    out
}

/// The characters of each delimiter.
pub fn token_chars(tokens: &[&str]) -> (v: Vec<Vec<char>>)
    ensures
        char_seqs(v@) == strs(tokens@),
{
    let mut v: Vec<Vec<char>> = Vec::new();
    let mut k: usize = 0;
    while k < tokens.len()
        invariant
            k <= tokens.len(),
            char_seqs(v@) == strs(tokens@).take(k as int),
        decreases tokens.len() - k,
    {
        let t = chars_of(tokens[k]);
        v.push(t);
        assert(strs(tokens@).take(k + 1) =~= strs(tokens@).take(k as int).push(tokens@[k as int]@));
        k += 1;
    }
    v
}

/// Turns occurrences into their extents.
pub fn occurrence_extents(occ: &Vec<(usize, usize)>, tokens: &Vec<Vec<char>>) -> (ext: Vec<
    (usize, usize),
>)
    requires
        forall|k: int| 0 <= k < occ@.len() ==> (#[trigger] occ@[k]).1 < tokens@.len(),
    ensures
        pairs(ext@) == extents(pairs(occ@), char_seqs(tokens@)),
{
    let mut ext: Vec<(usize, usize)> = Vec::new();
    let mut k: usize = 0;
    while k < occ.len()
        invariant
            k <= occ.len(),
            forall|j: int| 0 <= j < occ@.len() ==> (#[trigger] occ@[j]).1 < tokens@.len(),
            pairs(ext@) == extents(pairs(occ@), char_seqs(tokens@)).take(k as int),
        decreases occ.len() - k,
    {
        let (start, t) = occ[k];
        let width = tokens[t].len();
        ext.push((start, width));
        assert(extents(pairs(occ@), char_seqs(tokens@)).take(k + 1) =~= extents(
            pairs(occ@),
            char_seqs(tokens@),
        ).take(k as int).push((start as int, width as int)));
        k += 1;
    }
    ext
}

/// Splits `line` at the occurrences of `tokens` that stand outside
/// quoted spans. Where several delimiters stand at one offset, the one
/// listed first is taken; the delimiters themselves are left out, and
/// so are empty tokens.
pub fn split_with_strs<'a>(line: &'a str, tokens: &[&str]) -> (out: Vec<&'a str>)
    ensures
        strs(out@) == split_on_tokens(line@, strs(tokens@)),
{
    let chars = chars_of(line);
    let toks = token_chars(tokens);
    let occ = find_occurrences(&chars, &toks);
    proof {
        lemma_occurrences_from(line@, strs(tokens@), 0);
        lemma_occurrences_well_formed(line@, strs(tokens@));
        assert forall|k: int| 0 <= k < occ@.len() implies (#[trigger] occ@[k]).1 < toks@.len() by {
            assert(pairs(occ@)[k] == (occ@[k].0 as int, occ@[k].1 as int));
        }
    }
    let ext = occurrence_extents(&occ, &toks);
    cut_out(line, &ext)
}

/// Splits `line` into words at the runs of whitespace that stand
/// outside quoted spans.
pub fn split_with_chars<'a>(line: &'a str) -> (out: Vec<&'a str>)
    ensures
        strs(out@) == split_on_whitespace(line@),
{
    let chars = chars_of(line);
    let ext = find_breaks(&chars);
    proof {
        lemma_breaks_before(line@, line@.len() as int);
    }
    cut_out(line, &ext)
}

} // verus!
