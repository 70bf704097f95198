//! Operator placement: an operator with nothing but whitespace on its
//! left is a syntax error.

use vstd::prelude::*;
use vstd::string::StringExecFns;
use crate::quote::lemma_outside;
use crate::text::{
    blank, chars_of, ink_end, ink_start, is_space, is_whitespace, lemma_trimmed, trim, trimmed,
};
use crate::tokenizer::{
    char_seqs, extents, find_occurrences, gap, gap_start, lemma_first_match,
    lemma_occurrences_from, lemma_occurrences_well_formed, matches_at, occurrences, pairs, strs,
    token_chars, well_formed,
};

verus! {

/// The operator tokens, in the order in which they are tried at an
/// offset: a two-character operator comes before the one-character
/// operator that it begins with.
pub open spec fn operators() -> Seq<Seq<char>> {
    seq![";"@, "|"@, "&&"@, ">>"@, "<<"@, ">"@, "<"@]
}

/// The operator tokens as string slices.
pub fn operator_tokens() -> (v: Vec<&'static str>)
    ensures
        strs(v@) == operators(),
{
    let v = vec![";", "|", "&&", ">>", "<<", ">", "<"];
    v
}

/// The index in `tokens` of the first occurrence, from the `k`-th on,
/// whose left-hand gap is blank.
pub open spec fn dangling_from(
    t: Seq<char>,
    occ: Seq<(int, int)>,
    ext: Seq<(int, int)>,
    k: int,
) -> Option<int>
    decreases occ.len() - k,
{
    if k < 0 || k >= occ.len() {
        None
    } else if blank(gap(t, ext, k)) {
        Some(occ[k].1)
    } else {
        dangling_from(t, occ, ext, k + 1)
    }
}

/// The operator that a line is rejected for: the first operator
/// occurrence of the trimmed line that has only whitespace, or
/// nothing, between it and the operator before it (or the start of
/// the line).
pub open spec fn syntax_error(line: Seq<char>) -> Option<Seq<char>> {
    let t = trimmed(line);
    let occ = occurrences(t, operators());
    match dangling_from(t, occ, extents(occ, operators()), 0) {
        Some(k) => Some(operators()[k]),
        None => None,
    }
}

/// The message for a misplaced operator.
pub open spec fn syntax_message(token: Seq<char>) -> Seq<char> {
    "shell: syntax error near unexpected token '"@ + token + "'"@
}

/// Whether the characters of `chars` from `from` up to `to` are all
/// whitespace.
pub fn is_blank_range(chars: &Vec<char>, from: usize, to: usize) -> (b: bool)
    requires
        from <= to <= chars.len(),
    ensures
        b == blank(chars@.subrange(from as int, to as int)),
{
    let mut i: usize = from;
    while i < to
        invariant
            from <= i <= to <= chars.len(),
            forall|j: int| from <= j < i ==> is_space(chars@[j]),
        decreases to - i,
    {
        if !is_whitespace(chars[i]) {
            assert(chars@.subrange(from as int, to as int)[i - from] == chars@[i as int]);
            return false;
        }
        i += 1;
    }
    assert forall|j: int| 0 <= j < chars@.subrange(from as int, to as int).len() implies is_space(
        #[trigger] chars@.subrange(from as int, to as int)[j],
    ) by {}
    true
}

/// Checks the placement of the operators of `line`. Returns the
/// message that names the first misplaced operator, or `None` where
/// every operator has a non-blank text on its left.
pub fn catch_sytax_error(line: &str) -> (err: Option<String>)
    ensures
        match err {
            Some(m) => syntax_error(line@) is Some && m@ == syntax_message(syntax_error(line@)->0),
            None => syntax_error(line@) is None,
        },
{
    let t = trim(line);
    let chars = chars_of(t);
    let names = operator_tokens();
    let toks = token_chars(names.as_slice());
    let occ = find_occurrences(&chars, &toks);
    let ghost s = chars@;
    let ghost o = pairs(occ@);
    let ghost e = extents(o, operators());
    proof {
        lemma_occurrences_from(s, operators(), 0);
        lemma_occurrences_well_formed(s, operators());
    }
    let mut prev: usize = 0;
    let mut k: usize = 0;
    while k < occ.len()
        invariant
            k <= occ.len(),
            s == chars@,
            s == trimmed(line@),
            o == pairs(occ@),
            o == occurrences(s, operators()),
            e == extents(o, operators()),
            well_formed(e, s.len() as int),
            char_seqs(toks@) == operators(),
            strs(names@) == operators(),
            names@.len() == 7,
            toks@.len() == 7,
            forall|j: int| 0 <= j < o.len() ==> 0 <= (#[trigger] o[j]).1 < 7,
            prev == gap_start(e, k as int),
            prev <= s.len(),
            dangling_from(s, o, e, 0) == dangling_from(s, o, e, k as int),
        decreases occ.len() - k,
    {
        let (start, which) = occ[k];
        if is_blank_range(&chars, prev, start) {
            let m = String::from_str("shell: syntax error near unexpected token '");
            let m = m.concat(names[which]);
            let m = m.concat("'");
            return Some(m);
        }
        prev = start + toks[which].len();
        k += 1;
    }
    None
}

/// A line whose first non-blank text is `;`, `|` or `&&` is rejected,
/// and the error names that operator.
pub proof fn lemma_leading_operator_rejected(
    line: Seq<char>,
    lead: Seq<char>,
    op: Seq<char>,
    rest: Seq<char>,
)
    requires
        blank(lead),
        op == ";"@ || op == "|"@ || op == "&&"@,
        line == lead + op + rest,
    ensures
        syntax_error(line) == Some(op),
{
    reveal_strlit(";");
    reveal_strlit("|");
    reveal_strlit("&&");
    lemma_trimmed(line);
    let a = ink_start(line);
    let e = ink_end(line);
    let t = trimmed(line);
    let n = lead.len() as int;
    let w = op.len() as int;
    assert(!is_space(line[n + w - 1]));
    // The trimmed text starts where the operator does.
    assert(a == n) by {
        if a > n {
            assert(line.take(a)[n] == line[n]);
        }
    }
    assert(e >= n + w) by {
        if e < n + w {
            assert(line.skip(e)[n + w - 1 - e] == line[n + w - 1]);
        }
    }
    assert(t.subrange(0, w) =~= op);
    lemma_outside(t);
    lemma_first_match(t, operators(), 0, 0);
    let k: int = if op == ";"@ {
        0
    } else if op == "|"@ {
        1
    } else {
        2
    };
    assert forall|m: int| 0 <= m < k implies !matches_at(t, #[trigger] operators()[m], 0) by {}
    assert(occurrences(t, operators())[0] == (0int, k));
}

/// Merge: where an occurrence starts at the first of two `>`, or of
/// two `<`, that stand side by side, it is the two-character
/// operator, and the next occurrence starts behind both characters.
pub proof fn lemma_doubled_redirection_is_one_operator(s: Seq<char>, k: int)
    requires
        0 <= k < occurrences(s, operators()).len(),
        ({
            let i = occurrences(s, operators())[k].0;
            i + 1 < s.len() && s[i] == s[i + 1] && (s[i] == '>' || s[i] == '<')
        }),
    ensures
        ({
            let occ = occurrences(s, operators());
            &&& operators()[occ[k].1] == seq![s[occ[k].0], s[occ[k].0]]
            &&& k + 1 < occ.len() ==> occ[k + 1].0 >= occ[k].0 + 2
        }),
{
    reveal_strlit(";");
    reveal_strlit("|");
    reveal_strlit("&&");
    reveal_strlit(">>");
    reveal_strlit("<<");
    reveal_strlit(">");
    reveal_strlit("<");
    let occ = occurrences(s, operators());
    let i = occ[k].0;
    let t = occ[k].1;
    lemma_occurrences_from(s, operators(), 0);
    lemma_first_match(s, operators(), i, 0);
    let two = if s[i] == '>' {
        3int
    } else {
        4int
    };
    assert(s.subrange(i, i + 2) =~= operators()[two]);
    assert(t == two) by {
        if t < two {
            assert(s.subrange(i, i + operators()[t].len())[0] == s[i]);
        }
    }
}

} // verus!
