//! The text of the prompt.

use vstd::prelude::*;
use vstd::string::StrSliceExecFns;
use vstd::string::StringExecFns;
use crate::expand::opt_str;
use crate::text::{chars_of, starts_with};

verus! {

/// The working directory as the prompt shows it: `~` for the home
/// directory itself, `~/...` for a directory below it, and the
/// directory as it is anywhere else or where no home directory is
/// known.
pub open spec fn prompt_path(home: Option<Seq<char>>, cwd: Seq<char>) -> Seq<char> {
    match home {
        Some(h) => if h.is_prefix_of(cwd) {
            if cwd.len() == h.len() {
                "~"@
            } else if cwd[h.len() as int] == '/' {
                "~"@ + cwd.skip(h.len() as int)
            } else {
                cwd
            }
        } else {
            cwd
        },
        None => cwd,
    }
}

/// The prompt: user, host and directory, then `#` for root and `$`
/// for anyone else, then a space.
pub open spec fn prompt_text(
    username: Seq<char>,
    hostname: Seq<char>,
    home: Option<Seq<char>>,
    cwd: Seq<char>,
) -> Seq<char> {
    username + "@"@ + hostname + ":"@ + prompt_path(home, cwd) + if username == "root"@ {
        "# "@
    } else {
        "$ "@
    }
}

/// The working directory as the prompt shows it.
pub fn prompt_directory(home_dir: Option<&str>, current_dir: &str) -> (path: String)
    ensures
        path@ == prompt_path(opt_str(home_dir), current_dir@),
{
    match home_dir {
        Some(home) => {
            let h = chars_of(home);
            let c = chars_of(current_dir);
            if starts_with(&c, &h) {
                if c.len() == h.len() {
                    String::from_str("~")
                } else if c[h.len()] == '/' {
                    String::from_str("~").concat(current_dir.substring_char(h.len(), c.len()))
                } else {
                    current_dir.to_owned()
                }
            } else {
                current_dir.to_owned()
            }
        },
        None => current_dir.to_owned(),
    }
}

/// The text of the prompt for the given user, host, home directory
/// and working directory.
pub fn prompt(username: &str, hostname: &str, home_dir: Option<&str>, current_dir: &str) -> (text:
    String)
    ensures
        text@ == prompt_text(username@, hostname@, opt_str(home_dir), current_dir@),
{
    let path = prompt_directory(home_dir, current_dir);
    let root = String::from_str(username) == String::from_str("root");
    let text = String::from_str(username);
    let text = text.concat("@");
    let text = text.concat(hostname);
    let text = text.concat(":");
    let text = text.concat(path.as_str());
    if root {
        text.concat("# ")
    } else {
        text.concat("$ ")
    }
}

} // verus!
