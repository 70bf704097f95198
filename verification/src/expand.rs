//! Path expansion of a single token: the home directory for a leading
//! tilde, then the paths that a wildcard pattern matches.

use vstd::prelude::*;
use vstd::string::StrSliceExecFns;
use crate::text::{chars_of, texts};

verus! {

/// The path that `std::path::Path::join` gives for `base` extended by
/// `rest`.
pub uninterp spec fn joined_path(base: Seq<char>, rest: Seq<char>) -> Seq<char>;

/// `dirs::home_dir`: the current user's home directory. `None` where
/// the platform gives none, or where its path is not valid Unicode.
/// Nothing is claimed of the path.
#[verifier::external_body]
pub(crate) fn home_directory() -> (home: Option<String>) {
    dirs::home_dir().and_then(|p| p.to_str().map(|s| s.to_owned()))
}

/// `std::path::Path::join` on two texts: `base` extended by `rest`.
/// The result depends on the two texts alone; it is named
/// `joined_path` and nothing more is claimed of it.
#[verifier::external_body]
fn join_path(base: &str, rest: &str) -> (joined: String)
    ensures
        joined@ == joined_path(base@, rest@),
{
    std::path::Path::new(base).join(rest).to_string_lossy().into_owned()
}

/// `glob::glob`: the entries that the pattern yields on the file
/// system, in the order in which they are yielded. `None` where the
/// pattern is malformed; an entry is `None` where a path could not be
/// read or is not valid Unicode. Nothing is claimed of the entries:
/// they depend on what the file system holds.
#[verifier::external_body]
fn glob_entries(pattern: &str) -> (entries: Option<Vec<Option<String>>>) {
    match glob::glob(pattern) {
        Ok(paths) => Some(
            paths.map(|e| e.ok().and_then(|p| p.to_str().map(|s| s.to_owned()))).collect(),
        ),
        Err(_) => None,
    }
}

/// A token that asks for the home directory: `~` alone, or a text
/// that begins with `~/`.
pub open spec fn is_tilde_form(token: Seq<char>) -> bool {
    token == seq!['~'] || seq!['~', '/'].is_prefix_of(token)
}

/// Tilde expansion with the home directory `home`: `~` becomes the
/// home directory, `~/rest` the home directory joined with `rest`.
/// Any other token, and every token where no home directory is known,
/// stays as it is.
pub open spec fn unfolded(token: Seq<char>, home: Option<Seq<char>>) -> Seq<char> {
    match home {
        Some(h) => if token == seq!['~'] {
            h
        } else if seq!['~', '/'].is_prefix_of(token) {
            joined_path(h, token.skip(2))
        } else {
            token
        },
        None => token,
    }
}

/// The paths among the first `n` entries, in order: the entries that
/// could not be read are left out.
pub open spec fn paths_before(entries: Seq<Option<Seq<char>>>, n: int) -> Seq<Seq<char>>
    decreases n,
{
    if n <= 0 || n > entries.len() {
        Seq::empty()
    } else {
        match entries[n - 1] {
            Some(p) => paths_before(entries, n - 1).push(p),
            None => paths_before(entries, n - 1),
        }
    }
}

/// Wildcard expansion of `pattern`, given what the file system
/// yielded for it: the paths, in the order given, or the pattern
/// itself where there is none or the pattern is malformed.
pub open spec fn matched(pattern: Seq<char>, entries: Option<Seq<Option<Seq<char>>>>) -> Seq<
    Seq<char>,
> {
    match entries {
        Some(es) => if paths_before(es, es.len() as int).len() > 0 {
            paths_before(es, es.len() as int)
        } else {
            seq![pattern]
        },
        None => seq![pattern],
    }
}

/// The target of a redirection among the expansions of its pattern:
/// the only one, or none where the pattern is ambiguous.
pub open spec fn sole(matches: Seq<Seq<char>>) -> Option<Seq<char>> {
    if matches.len() == 1 {
        Some(matches[0])
    } else {
        None
    }
}

/// The character sequence of an optional string slice.
pub open spec fn opt_str(o: Option<&str>) -> Option<Seq<char>> {
    match o {
        Some(s) => Some(s@),
        None => None,
    }
}

/// The character sequence of an optional string.
pub open spec fn opt_text(o: Option<String>) -> Option<Seq<char>> {
    match o {
        Some(s) => Some(s@),
        None => None,
    }
}

/// The character sequences of a list of entries.
pub open spec fn entry_texts(entries: Seq<Option<String>>) -> Seq<Option<Seq<char>>> {
    entries.map_values(|e: Option<String>| opt_text(e))
}

/// The character sequences of an optional list of entries.
pub open spec fn opt_entry_texts(entries: Option<Vec<Option<String>>>) -> Option<
    Seq<Option<Seq<char>>>,
> {
    match entries {
        Some(es) => Some(entry_texts(es@)),
        None => None,
    }
}

/// `out` is what tilde expansion makes of `token` for some home
/// directory, or for none.
pub open spec fn unfolds_to(token: Seq<char>, out: Seq<char>) -> bool {
    exists|home: Option<Seq<char>>| out == unfolded(token, home)
}

/// `out` is what wildcard expansion makes of `pattern` for some state
/// of the file system.
pub open spec fn matches_to(pattern: Seq<char>, out: Seq<Seq<char>>) -> bool {
    exists|entries: Option<Seq<Option<Seq<char>>>>| out == matched(pattern, entries)
}

/// Whether `token` is `~` or begins with `~/`.
pub fn is_tilde(token: &str) -> (b: bool)
    ensures
        b == is_tilde_form(token@),
{
    let chars = chars_of(token);
    if chars.len() == 1 {
        assert(chars@ =~= seq!['~'] <==> chars@[0] == '~');
        chars[0] == '~'
    } else if chars.len() >= 2 {
        assert(seq!['~', '/'].is_prefix_of(chars@) <==> chars@[0] == '~' && chars@[1] == '/');
        chars[0] == '~' && chars[1] == '/'
    } else {
        false
    }
}

/// Tilde expansion of `token` with the home directory `home`.
pub fn unfold_with(token: &str, home: Option<&str>) -> (out: String)
    ensures
        out@ == unfolded(token@, opt_str(home)),
{
    match home {
        Some(h) => {
            let n = token.unicode_len();
            if is_tilde(token) {
                if n == 1 {
                    h.to_owned()
                } else {
                    join_path(h, token.substring_char(2, n))
                }
            } else {
                token.to_owned()
            }
        },
        None => token.to_owned(),
    }
}

/// Tilde expansion of `token` with the home directory of the current
/// user. A token that does not ask for the home directory is returned
/// as it is, and so is every token where no home directory can be
/// found.
pub fn unfold(token: &str) -> (out: String)
    ensures
        unfolds_to(token@, out@),
        !is_tilde_form(token@) ==> out@ == token@,
{
    if is_tilde(token) {
        let home = home_directory();
        match &home {
            Some(h) => unfold_with(token, Some(h.as_str())),
            None => unfold_with(token, None),
        }
    } else {
        let out = token.to_owned();
        assert(out@ == unfolded(token@, None));
        out
    }
}

/// Wildcard expansion of `pattern`, given the entries that the file
/// system yielded for it.
pub fn select_matches(pattern: &str, entries: Option<Vec<Option<String>>>) -> (out: Vec<String>)
    ensures
        texts(out@) == matched(pattern@, opt_entry_texts(entries)),
{
    let mut out: Vec<String> = Vec::new();
    match entries {
        Some(es) => {
            let ghost ev = entry_texts(es@);
            let mut es = es;
            let mut i: usize = 0;
            while i < es.len()
                invariant
                    i <= es.len(),
                    es@.len() == ev.len(),
                    forall|j: int| i <= j < es@.len() ==> opt_text(#[trigger] es@[j]) == ev[j],
                    texts(out@) == paths_before(ev, i as int),
                decreases es.len() - i,
            {
                let mut taken: Option<String> = None;
                std::mem::swap(&mut es[i], &mut taken);
                match taken {
                    Some(p) => {
                        out.push(p);
                    },
                    None => {},
                }
                i += 1;
            }
        },
        None => {},
    }
    if out.len() == 0 {
        out.push(pattern.to_owned());
    }
    out
}

/// Wildcard expansion of `pattern` against the file system: the paths
/// that match, in the order in which they are found, or the pattern
/// itself where nothing matches or the pattern is malformed.
pub fn match_wild_card(pattern: &str) -> (out: Vec<String>)
    ensures
        matches_to(pattern@, texts(out@)),
        out@.len() >= 1,
{
    let entries = glob_entries(pattern);
    let out = select_matches(pattern, entries);
    assert(texts(out@).len() == out@.len());
    out
}

/// The only text of `matches`, if it holds exactly one.
pub fn single_target(matches: Vec<String>) -> (target: Option<String>)
    ensures
        opt_text(target) == sole(texts(matches@)),
{
    let mut matches = matches;
    if matches.len() == 1 {
        let t = matches.pop();
        t
    } else {
        None
    }
}

/// `target` is what a redirection to `path` resolves to for some home
/// directory and some state of the file system: the only expansion of
/// the path, or `None` where it has several.
pub open spec fn resolves_to(path: Seq<char>, target: Option<Seq<char>>) -> bool {
    exists|pattern: Seq<char>, matches: Seq<Seq<char>>|
        unfolds_to(path, pattern) && matches_to(pattern, matches) && target == sole(matches)
}

/// The file that a redirection to `path` names: tilde expansion, then
/// wildcard expansion. `None` where the path expands to more than one
/// file: the redirection is ambiguous.
pub fn parse_file_path(path: &str) -> (target: Option<String>)
    ensures
        resolves_to(path@, opt_text(target)),
        !is_tilde_form(path@) ==> exists|matches: Seq<Seq<char>>|
            matches_to(path@, matches) && opt_text(target) == sole(matches),
{
    let pattern = unfold(path);
    let matches = match_wild_card(pattern.as_str());
    let target = single_target(matches);
    target
}

} // verus!
