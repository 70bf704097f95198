//! Output redirection: which arguments of a segment name a file for
//! its standard output, and which are left for the process.

use vstd::prelude::*;
use vstd::string::StrSliceExecFns;
use crate::error::{ErrorView, ShellError};
use crate::expand::{opt_text, parse_file_path, resolves_to};
use crate::quote::{strip_quote_layer, strip_quotes};
use crate::text::{chars_of, texts};

verus! {

/// How the target file of a redirection is opened.
#[derive(Clone, Copy, Debug, PartialEq, Eq, Structural)]
pub enum Mode {
    /// `>`: created if missing, emptied, then written.
    Truncate,
    /// `>>`: created if missing, written at its end.
    Append,
}

/// A redirection of standard output to a file.
#[derive(Debug, PartialEq, Eq)]
pub struct RedirectionDirective {
    pub mode: Mode,
    pub target: String,
}

impl View for RedirectionDirective {
    type V = (Mode, Seq<char>);

    open spec fn view(&self) -> (Mode, Seq<char>) {
        (self.mode, self.target@)
    }
}

/// The views of a list of directives.
pub open spec fn directives(v: Seq<RedirectionDirective>) -> Seq<(Mode, Seq<char>)> {
    v.map_values(|d: RedirectionDirective| d@)
}

/// What a scan of the arguments has found so far.
pub struct Scan {
    /// The arguments left for the process.
    pub argv: Seq<Seq<char>>,
    /// The redirections, each with its target as written.
    pub requests: Seq<(Mode, Seq<char>)>,
    /// The mode of a standalone operator whose target is still to
    /// come.
    pub pending: Option<Mode>,
}

/// The scan before the first argument.
pub open spec fn scan_start() -> Scan {
    Scan { argv: Seq::empty(), requests: Seq::empty(), pending: None }
}

/// One argument more. An argument that begins with `>>`, or else with
/// `>`, is a redirection: alone it announces its target, otherwise
/// the rest of it is the target. Any other argument loses one layer
/// of surrounding quotes, if it still has one; it is the target of
/// the operator that announced it, or else an argument of the
/// process.
pub open spec fn scan_step(st: Scan, arg: Seq<char>) -> Scan {
    if seq!['>', '>'].is_prefix_of(arg) {
        if arg.len() == 2 {
            Scan { pending: Some(Mode::Append), ..st }
        } else {
            Scan { requests: st.requests.push((Mode::Append, arg.skip(2))), ..st }
        }
    } else if seq!['>'].is_prefix_of(arg) {
        if arg.len() == 1 {
            Scan { pending: Some(Mode::Truncate), ..st }
        } else {
            Scan { requests: st.requests.push((Mode::Truncate, arg.skip(1))), ..st }
        }
    } else {
        match st.pending {
            Some(mode) => Scan {
                requests: st.requests.push((mode, strip_quotes(arg))),
                pending: None,
                ..st
            },
            None => Scan { argv: st.argv.push(strip_quotes(arg)), ..st },
        }
    }
}

/// The scan of the first `n` arguments.
pub open spec fn scan_upto(args: Seq<Seq<char>>, n: int) -> Scan
    decreases n,
{
    if n <= 0 {
        scan_start()
    } else {
        scan_step(scan_upto(args, n - 1), args[n - 1])
    }
}

/// The arguments that are left for the process, quotes stripped.
pub open spec fn clean_argv(args: Seq<Seq<char>>) -> Seq<Seq<char>> {
    scan_upto(args, args.len() as int).argv
}

/// The redirections among the arguments, in order, each with its
/// target as written.
pub open spec fn redirect_requests(args: Seq<Seq<char>>) -> Seq<(Mode, Seq<char>)> {
    scan_upto(args, args.len() as int).requests
}

/// Separates the redirections of `argv` from the arguments of the
/// process. Targets are returned as written: nothing is expanded.
pub fn scan_redirections(argv: &Vec<String>) -> (found: (Vec<String>, Vec<RedirectionDirective>))
    ensures
        texts(found.0@) == clean_argv(texts(argv@)),
        directives(found.1@) == redirect_requests(texts(argv@)),
{
    let ghost args = texts(argv@);
    let mut real_argv: Vec<String> = Vec::new();
    let mut requests: Vec<RedirectionDirective> = Vec::new();
    let mut flag: Option<Mode> = None;
    let mut k: usize = 0;
    while k < argv.len()
        invariant
            k <= argv.len(),
            args == texts(argv@),
            texts(real_argv@) == scan_upto(args, k as int).argv,
            directives(requests@) == scan_upto(args, k as int).requests,
            flag == scan_upto(args, k as int).pending,
        decreases argv.len() - k,
    {
        let arg = argv[k].as_str();
        let chars = chars_of(arg);
        let n = chars.len();
        let ghost a = args[k as int];
        proof {
            if n >= 1 {
                assert(seq!['>'].is_prefix_of(a) <==> a[0] == '>') by {
                    if a[0] != '>' {
                        assert(a.subrange(0, 1)[0] == a[0]);
                    }
                }
            }
            if n >= 2 {
                assert(seq!['>', '>'].is_prefix_of(a) <==> a[0] == '>' && a[1] == '>');
            }
        }
        if n >= 2 && chars[0] == '>' && chars[1] == '>' {
            if n == 2 {
                flag = Some(Mode::Append);
            } else {
                let target = arg.substring_char(2, n).to_owned();
                requests.push(RedirectionDirective { mode: Mode::Append, target });
            }
        } else if n >= 1 && chars[0] == '>' {
            if n == 1 {
                flag = Some(Mode::Truncate);
            } else {
                let target = arg.substring_char(1, n).to_owned();
                requests.push(RedirectionDirective { mode: Mode::Truncate, target });
            }
        } else {
            let real_arg = strip_quote_layer(arg);
            match flag {
                Some(mode) => {
                    requests.push(RedirectionDirective { mode, target: real_arg });
                    flag = None;
                },
                None => {
                    real_argv.push(real_arg);
                },
            }
        }
        k += 1;
    }
    (real_argv, requests)
}

/// What becomes of a redirection whose target pattern resolved to
/// `target`: a directive to that file, or the error of an ambiguous
/// redirection, which names the pattern.
pub open spec fn resolved(request: (Mode, Seq<char>), target: Option<Seq<char>>) -> Result<
    (Mode, Seq<char>),
    ErrorView,
> {
    match target {
        Some(t) => Ok((request.0, t)),
        None => Err(ErrorView::AmbiguousRedirect(request.1)),
    }
}

/// The view of the result of a resolution.
pub open spec fn resolution_view(r: Result<RedirectionDirective, ShellError>) -> Result<
    (Mode, Seq<char>),
    ErrorView,
> {
    match r {
        Ok(d) => Ok(d@),
        Err(e) => Err(e@),
    }
}

/// Puts the file that a target pattern resolved to in the place of
/// the pattern. Without such a file the redirection is ambiguous.
pub fn resolve_directive(request: RedirectionDirective, target: Option<String>) -> (r: Result<
    RedirectionDirective,
    ShellError,
>)
    ensures
        resolution_view(r) == resolved(request@, opt_text(target)),
{
    match target {
        Some(t) => Ok(RedirectionDirective { mode: request.mode, target: t }),
        None => Err(ShellError::AmbiguousRedirect(request.target)),
    }
}

/// `found` is an outcome of resolving `requests` for some home
/// directory and some state of the file system: either every target
/// resolved to one file, or the first that did not is reported.
pub open spec fn resolution_of(
    requests: Seq<(Mode, Seq<char>)>,
    found: Result<Seq<(Mode, Seq<char>)>, ErrorView>,
) -> bool {
    match found {
        Ok(ds) => {
            &&& ds.len() == requests.len()
            &&& forall|i: int|
                0 <= i < ds.len() ==> (#[trigger] ds[i]).0 == requests[i].0 && resolves_to(
                    requests[i].1,
                    Some(ds[i].1),
                )
        },
        Err(e) => exists|k: int|
            0 <= k < requests.len() && e == ErrorView::AmbiguousRedirect(
                (#[trigger] requests[k]).1,
            ) && resolves_to(requests[k].1, None),
    }
}

/// The view of what `locate_file_stream` returns.
pub open spec fn found_view(r: Result<Vec<RedirectionDirective>, ShellError>) -> Result<
    Seq<(Mode, Seq<char>)>,
    ErrorView,
> {
    match r {
        Ok(ds) => Ok(directives(ds@)),
        Err(e) => Err(e@),
    }
}

/// Takes the output redirections out of `argv` and resolves their
/// targets against the home directory and the file system.
///
/// On success `argv` holds the arguments of the process, quotes
/// stripped, and the result holds one directive for each redirection,
/// in order, with the mode of its operator and the one file that its
/// target names. Where a target names several files the redirection
/// is ambiguous: the error names the target as written, and `argv` is
/// left as it was.
pub fn locate_file_stream(argv: &mut Vec<String>) -> (found: Result<
    Vec<RedirectionDirective>,
    ShellError,
>)
    ensures
        resolution_of(redirect_requests(texts(old(argv)@)), found_view(found)),
        found is Ok ==> texts(final(argv)@) == clean_argv(texts(old(argv)@)),
        found is Err ==> final(argv)@ == old(argv)@,
{
    let ghost given = argv@;
    let (real_argv, requests) = scan_redirections(argv);
    let ghost reqs = directives(requests@);
    let mut requests = requests;
    let mut resolved_all: Vec<RedirectionDirective> = Vec::new();
    let n = requests.len();
    let mut k: usize = 0;
    while k < n
        invariant
            k <= n,
            n == reqs.len(),
            argv@ == given,
            reqs == redirect_requests(texts(given)),
            requests@.len() == n - k,
            forall|i: int| 0 <= i < n - k ==> (#[trigger] requests@[i])@ == reqs[k + i],
            resolved_all@.len() == k,
            forall|i: int|
                0 <= i < k ==> (#[trigger] resolved_all@[i]).mode == reqs[i].0 && resolves_to(
                    reqs[i].1,
                    Some(resolved_all@[i].target@),
                ),
        decreases n - k,
    {
        let request = requests.remove(0);
        let target = parse_file_path(request.target.as_str());
        match resolve_directive(request, target) {
            Ok(d) => {
                resolved_all.push(d);
            },
            Err(e) => {
                return Err(e);
            },
        }
        k += 1;
    }
    *argv = real_argv;
    assert forall|i: int| 0 <= i < directives(resolved_all@).len() implies (
    #[trigger] directives(resolved_all@)[i]).0 == reqs[i].0 && resolves_to(
        reqs[i].1,
        Some(directives(resolved_all@)[i].1),
    ) by {}
    Ok(resolved_all)
}

} // verus!
