//! Assembling one logical line from physical reads.
//!
//! The caller reads a physical line, appends it to its buffer and asks
//! here what to do next: read on, give the line up as malformed, or
//! run it.

use vstd::prelude::*;
use crate::quote::{count_quotes, quote_count};
use crate::syntax::{catch_sytax_error, operator_tokens, operators, syntax_error, syntax_message};
use crate::text::{chars_of, trim_end, trimmed_end};
use crate::tokenizer::{char_seqs, token_chars};

verus! {

/// What the assembler decides after a physical read.
#[derive(Debug, PartialEq, Eq)]
pub enum Assembly {
    /// The buffer is not a whole line yet: read another physical line
    /// and append it.
    Reading,
    /// The buffer is malformed; the message says why. The buffer is to
    /// be discarded.
    Rejected(String),
    /// The buffer holds one logically complete line.
    Complete,
    /// The input has ended.
    EndOfInput,
}

/// `buf`, without its trailing whitespace, ends with an operator that
/// asks for a right-hand side: any operator token but `;`.
pub open spec fn continuation_pending(buf: Seq<char>) -> bool {
    exists|k: int|
        1 <= k < operators().len() && (#[trigger] operators()[k]).is_suffix_of(trimmed_end(buf))
}

/// The contract of the assembler: which decision belongs to which
/// buffer.
pub open spec fn assembled(buf: Seq<char>, decision: Assembly) -> bool {
    match decision {
        Assembly::Reading => quote_count(buf) % 2 == 1 || (syntax_error(buf) is None
            && continuation_pending(buf)),
        Assembly::Rejected(m) => quote_count(buf) % 2 == 0 && syntax_error(buf) is Some && m@
            == syntax_message(syntax_error(buf)->0),
        Assembly::Complete => quote_count(buf) % 2 == 0 && syntax_error(buf) is None
            && !continuation_pending(buf),
        Assembly::EndOfInput => false,
    }
}

/// Whether `text` ends with `suffix`.
pub fn ends_with(text: &Vec<char>, suffix: &Vec<char>) -> (b: bool)
    ensures
        b == suffix@.is_suffix_of(text@),
{
    if suffix.len() > text.len() {
        return false;
    }
    let base = text.len() - suffix.len();
    let mut i: usize = 0;
    while i < suffix.len()
        invariant
            i <= suffix.len() <= text.len(),
            base == text.len() - suffix.len(),
            forall|j: int| 0 <= j < i ==> text@[base + j] == suffix@[j],
        decreases suffix.len() - i,
    {
        if text[base + i] != suffix[i] {
            return false;
        }
        i += 1;
    }
    true
}

/// Whether `buf` ends, trailing whitespace apart, with an operator
/// that asks for a right-hand side.
pub fn ends_with_operator(buf: &str) -> (b: bool)
    ensures
        b == continuation_pending(buf@),
{
    let text = chars_of(trim_end(buf));
    let names = operator_tokens();
    let toks = token_chars(names.as_slice());
    assert(operators().len() == 7);
    let mut k: usize = 1;
    while k < toks.len()
        invariant
            1 <= k <= toks.len(),
            toks@.len() == operators().len(),
            char_seqs(toks@) == operators(),
            text@ == trimmed_end(buf@),
            forall|j: int| 1 <= j < k ==> !(#[trigger] operators()[j]).is_suffix_of(text@),
        decreases toks.len() - k,
    {
        if ends_with(&text, &toks[k]) {
            return true;
        }
        k += 1;
    }
    false
}

/// Decides what becomes of the buffer `buf`.
///
/// A buffer with an odd number of quote characters is never complete:
/// another physical line is asked for. Else a misplaced operator
/// rejects the buffer; else a trailing operator asks for another
/// physical line; else the line is complete.
pub fn assemble(buf: &str) -> (decision: Assembly)
    ensures
        assembled(buf@, decision),
        quote_count(buf@) % 2 == 1 ==> decision is Reading,
        decision is Complete ==> quote_count(buf@) % 2 == 0,
{
    if count_quotes(buf) % 2 != 0 {
        return Assembly::Reading;
    }
    match catch_sytax_error(buf) {
        Some(message) => Assembly::Rejected(message),
        None => {
            if ends_with_operator(buf) {
                Assembly::Reading
            } else {
                Assembly::Complete
            }
        },
    }
}

/// Decides what to do after a physical read of `nbytes` bytes has
/// been appended to `buf`. A read of zero bytes is the end of the
/// input, whatever the buffer holds; any other read is judged by
/// `assemble`.
pub fn load_command_line(buf: &str, nbytes: usize) -> (decision: Assembly)
    ensures
        nbytes == 0 ==> decision is EndOfInput,
        nbytes != 0 ==> assembled(buf@, decision),
        nbytes != 0 && quote_count(buf@) % 2 == 1 ==> decision is Reading,
        decision is Complete ==> quote_count(buf@) % 2 == 0,
{
    if nbytes == 0 {
        Assembly::EndOfInput
    } else {
        assemble(buf)
    }
}

} // verus!
