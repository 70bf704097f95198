//! From a complete line to compound commands, pipe segments and
//! argument vectors.

use vstd::prelude::*;
use crate::expand::{match_wild_card, matches_to, unfold, unfolds_to};
use crate::quote::{strip_quote_layer, strip_quotes};
use crate::text::{texts, trim, trimmed};
use crate::tokenizer::{
    split_on_tokens, split_on_whitespace, split_with_chars, split_with_strs, strs,
};

verus! {

/// The delimiters of compound commands: `;` and `&&`, which sequence
/// alike.
pub open spec fn sequencers() -> Seq<Seq<char>> {
    seq![";"@, "&&"@]
}

/// The delimiter of pipe segments.
pub open spec fn pipes() -> Seq<Seq<char>> {
    seq!["|"@]
}

/// The compound commands of a line.
pub open spec fn compound_commands(line: Seq<char>) -> Seq<Seq<char>> {
    split_on_tokens(trimmed(line), sequencers())
}

/// The pipe segments of a compound command.
pub open spec fn pipe_segments(command: Seq<char>) -> Seq<Seq<char>> {
    split_on_tokens(trimmed(command), pipes())
}

/// The words of a pipe segment, as written.
pub open spec fn words(segment: Seq<char>) -> Seq<Seq<char>> {
    split_on_whitespace(trimmed(segment))
}

/// The words of a pipe segment as they go into path expansion: each
/// without one layer of surrounding quotes.
pub open spec fn bare_words(segment: Seq<char>) -> Seq<Seq<char>> {
    words(segment).map_values(|w: Seq<char>| strip_quotes(w))
}

/// `out` is what path expansion makes of `word` for some home
/// directory and some state of the file system.
pub open spec fn expands_to(word: Seq<char>, out: Seq<Seq<char>>) -> bool {
    exists|pattern: Seq<char>| unfolds_to(word, pattern) && matches_to(pattern, out)
}

/// `argv` is the expansion of `words`: each word gives its
/// expansions, in place and in order.
pub open spec fn argv_of(words: Seq<Seq<char>>, argv: Seq<Seq<char>>) -> bool {
    exists|parts: Seq<Seq<Seq<char>>>|
        {
            &&& parts.len() == words.len()
            &&& forall|i: int| 0 <= i < parts.len() ==> expands_to(words[i], #[trigger] parts[i])
            &&& argv == parts.flatten()
        }
}

/// Splits a line into its compound commands, at each `;` and `&&`
/// outside quotes.
pub fn parse_command<'a>(line: &'a str) -> (commands: Vec<&'a str>)
    ensures
        strs(commands@) == compound_commands(line@),
{
    let tokens = vec![";", "&&"];
    assert(strs(tokens@) =~= sequencers());
    split_with_strs(trim(line), tokens.as_slice())
}

/// Splits a compound command into its pipe segments, at each `|`
/// outside quotes.
pub fn parse_pipeline<'a>(command: &'a str) -> (segments: Vec<&'a str>)
    ensures
        strs(segments@) == pipe_segments(command@),
{
    let tokens = vec!["|"];
    assert(strs(tokens@) =~= pipes());
    split_with_strs(trim(command), tokens.as_slice())
}

/// The argument vector of a pipe segment: its words, split at
/// unquoted whitespace, each stripped of one layer of surrounding
/// quotes and then replaced by its path expansions.
pub fn parse_argv(command: &str) -> (argv: Vec<String>)
    ensures
        argv_of(bare_words(command@), texts(argv@)),
{
    let raw = split_with_chars(trim(command));
    let ghost ws = bare_words(command@);
    let ghost mut parts: Seq<Seq<Seq<char>>> = Seq::empty();
    let mut argv: Vec<String> = Vec::new();
    let mut k: usize = 0;
    while k < raw.len()
        invariant
            k <= raw.len(),
            strs(raw@) == words(command@),
            ws == bare_words(command@),
            ws.len() == raw@.len(),
            parts.len() == k,
            forall|i: int| 0 <= i < parts.len() ==> expands_to(ws[i], #[trigger] parts[i]),
            texts(argv@) == parts.flatten(),
        decreases raw.len() - k,
    {
        let word = strip_quote_layer(raw[k]);
        assert(word@ == ws[k as int]);
        let pattern = unfold(word.as_str());
        let mut found = match_wild_card(pattern.as_str());
        let ghost part = texts(found@);
        argv.append(&mut found);
        proof {
            parts.lemma_flatten_push(part);
            parts = parts.push(part);
        }
        k += 1;
    }
    argv
}

} // verus!
