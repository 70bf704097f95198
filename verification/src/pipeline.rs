//! The wiring of a pipeline, one action at a time.
//!
//! A `Pipeline` holds the pipe segments of one compound command. The
//! caller asks it for the next action, performs it, and reports
//! whether it succeeded; from that the pipeline decides what comes
//! next. Path expansion happens only when a segment's turn has come,
//! so that it sees the working directory that earlier segments left.

use vstd::prelude::*;
use vstd::string::StringExecFns;
use crate::decompose::{
    argv_of, bare_words, compound_commands, parse_argv, parse_command, parse_pipeline,
    pipe_segments, pipes,
};
use crate::error::{ErrorView, ShellError};
use crate::expand::{home_directory, opt_text};
use crate::redirect::{
    clean_argv, directives, found_view, locate_file_stream, redirect_requests, resolution_of, Mode,
    RedirectionDirective,
};
use crate::text::{chars_of, lemma_trimmed, texts, trim, trimmed};
use crate::tokenizer::{
    extents, gap, gaps, lemma_first_match, matches_at, occurrences, occurrences_from, strs,
};

verus! {

/// Where a process reads its standard input from.
#[derive(Clone, Copy, Debug, PartialEq, Eq, Structural)]
pub enum StdinSource {
    /// The interpreter's own input.
    Inherit,
    /// The read end of the pipe that the process before it writes to.
    Pipe,
}

/// Where a process writes its standard output to.
#[derive(Clone, Copy, Debug, PartialEq, Eq, Structural)]
pub enum StdoutSink {
    /// The interpreter's own output.
    Inherit,
    /// A new pipe, whose read end is kept for the next process.
    Pipe,
    /// The file that was opened last for this segment.
    File,
}

/// All that is needed to start one process.
#[derive(Debug, PartialEq, Eq)]
pub struct Launch {
    pub program: String,
    pub args: Vec<String>,
    pub stdin: StdinSource,
    pub stdout: StdoutSink,
}

/// A `Launch` over character sequences.
pub struct LaunchView {
    pub program: Seq<char>,
    pub args: Seq<Seq<char>>,
    pub stdin: StdinSource,
    pub stdout: StdoutSink,
}

impl View for Launch {
    type V = LaunchView;

    open spec fn view(&self) -> LaunchView {
        LaunchView {
            program: self.program@,
            args: texts(self.args@),
            stdin: self.stdin,
            stdout: self.stdout,
        }
    }
}

/// What the caller is to do next.
#[derive(Debug, PartialEq, Eq)]
pub enum Action {
    /// Open the file of a redirection. A failure is to be reported.
    Open(RedirectionDirective),
    /// Start a process. A failure is to be reported.
    Spawn(Launch),
    /// Change the working directory. A failure is to be reported.
    ChangeDir(String),
    /// Report an error.
    Report(ShellError),
    /// Wait for the process that was started last.
    Wait,
    /// Nothing to do for this segment: ask again.
    Skip,
    /// The pipeline is over.
    Done,
}

/// An `Action` over character sequences.
pub enum ActionView {
    Open((Mode, Seq<char>)),
    Spawn(LaunchView),
    ChangeDir(Seq<char>),
    Report(ErrorView),
    Wait,
    Skip,
    Done,
}

impl View for Action {
    type V = ActionView;

    open spec fn view(&self) -> ActionView {
        match self {
            Action::Open(d) => ActionView::Open(d@),
            Action::Spawn(l) => ActionView::Spawn(l@),
            Action::ChangeDir(p) => ActionView::ChangeDir(p@),
            Action::Report(e) => ActionView::Report(e@),
            Action::Wait => ActionView::Wait,
            Action::Skip => ActionView::Skip,
            Action::Done => ActionView::Done,
        }
    }
}

/// The views of a list of actions.
pub open spec fn actions(v: Seq<Action>) -> Seq<ActionView> {
    v.map_values(|a: Action| a@)
}

/// The action whose outcome decides what comes next.
#[derive(Clone, Copy, Debug, PartialEq, Eq, Structural)]
pub enum Pending {
    /// None: the outcome of the last action does not matter.
    Nothing,
    /// A file was to be opened.
    Open,
    /// A process was to be started; `piped` says whether its standard
    /// output was to be a pipe.
    Spawn { piped: bool },
}

/// The state of one pipeline.
#[derive(Debug, PartialEq, Eq)]
pub struct Pipeline {
    /// The pipe segments, as written.
    pub segments: Vec<String>,
    /// How many segments have had their turn.
    pub cursor: usize,
    /// Whether a segment other than `cd` has had its turn.
    pub started: bool,
    /// Whether the process started last left a pipe to read from.
    pub upstream: bool,
    /// Whether the last attempt to start a process gave one to wait
    /// for.
    pub handle: bool,
    /// The actions of the segment in progress that are still to come.
    pub queue: Vec<Action>,
    /// The action that was handed out last, as far as its outcome
    /// matters.
    pub pending: Pending,
}

/// A `Pipeline` over character sequences.
pub struct PipelineView {
    pub segments: Seq<Seq<char>>,
    pub cursor: int,
    pub started: bool,
    pub upstream: bool,
    pub handle: bool,
    pub queue: Seq<ActionView>,
    pub pending: Pending,
}

impl View for Pipeline {
    type V = PipelineView;

    open spec fn view(&self) -> PipelineView {
        PipelineView {
            segments: texts(self.segments@),
            cursor: self.cursor as int,
            started: self.started,
            upstream: self.upstream,
            handle: self.handle,
            queue: actions(self.queue@),
            pending: self.pending,
        }
    }
}

/// The views of a list of pipelines.
pub open spec fn pipelines(v: Seq<Pipeline>) -> Seq<PipelineView> {
    v.map_values(|p: Pipeline| p@)
}

/// A pipeline before its first action.
pub open spec fn initial(segments: Seq<Seq<char>>) -> PipelineView {
    PipelineView {
        segments,
        cursor: 0,
        started: false,
        upstream: false,
        handle: false,
        queue: Seq::empty(),
        pending: Pending::Nothing,
    }
}

/// The pipe wiring of a launch. With `wstream` its standard output is
/// a new pipe. With `istream` its standard input is the pipe that the
/// process before it left, if there is one.
pub open spec fn pipe_filtered(
    l: LaunchView,
    upstream: bool,
    istream: bool,
    wstream: bool,
) -> LaunchView {
    LaunchView {
        stdin: if istream && upstream {
            StdinSource::Pipe
        } else {
            l.stdin
        },
        stdout: if wstream {
            StdoutSink::Pipe
        } else {
            l.stdout
        },
        ..l
    }
}

/// The file wiring of a launch: with a redirection, its standard
/// output is the file, whatever it was before.
pub open spec fn file_filtered(l: LaunchView, redirected: bool) -> LaunchView {
    LaunchView {
        stdout: if redirected {
            StdoutSink::File
        } else {
            l.stdout
        },
        ..l
    }
}

/// The launch of the arguments `argv`, of which there is at least
/// one. The first process of the chain reads the interpreter's input,
/// each later one the pipe of the process before it, if that left
/// one. The last segment writes to the interpreter's output, each
/// earlier one to a new pipe; a redirection overrides both.
pub open spec fn launch_of(
    argv: Seq<Seq<char>>,
    first: bool,
    last: bool,
    upstream: bool,
    redirected: bool,
) -> LaunchView {
    file_filtered(
        pipe_filtered(
            LaunchView {
                program: argv[0],
                args: argv.skip(1),
                stdin: StdinSource::Inherit,
                stdout: StdoutSink::Inherit,
            },
            upstream,
            !first,
            !last,
        ),
        redirected,
    )
}

/// Where `cd` goes: to its one argument, or home without one. More
/// than one argument is a usage error.
pub open spec fn cd_target(argv: Seq<Seq<char>>, home: Option<Seq<char>>) -> Result<
    Seq<char>,
    ErrorView,
> {
    if argv.len() > 2 {
        Err(ErrorView::BuiltinUsage)
    } else if argv.len() == 2 {
        Ok(argv[1])
    } else {
        match home {
            Some(h) => Ok(h),
            None => Err(ErrorView::DirectoryChange),
        }
    }
}

/// The action of `cd`.
pub open spec fn cd_action(argv: Seq<Seq<char>>, home: Option<Seq<char>>) -> ActionView {
    match cd_target(argv, home) {
        Ok(dir) => ActionView::ChangeDir(dir),
        Err(e) => ActionView::Report(e),
    }
}

/// One action for each file to open, in order.
pub open spec fn opens(ds: Seq<(Mode, Seq<char>)>) -> Seq<ActionView> {
    ds.map_values(|d: (Mode, Seq<char>)| ActionView::Open(d))
}

/// The pipeline after the outcome of the pending action is known. A
/// file that could not be opened ends the segment in progress. A
/// process that was started can be waited for, and leaves a pipe if
/// it was to write to one; a process that could not be started
/// leaves nothing.
pub open spec fn settled(s: PipelineView, succeeded: bool) -> PipelineView {
    match s.pending {
        Pending::Nothing => s,
        Pending::Open => PipelineView {
            queue: if succeeded {
                s.queue
            } else {
                Seq::empty()
            },
            pending: Pending::Nothing,
            ..s
        },
        Pending::Spawn { piped } => PipelineView {
            handle: succeeded,
            upstream: succeeded && piped,
            pending: Pending::Nothing,
            ..s
        },
    }
}

/// The pipeline after the segment at the cursor has been planned.
/// `argv` holds its arguments, expanded and without the redirections;
/// `found` the redirections, resolved; `home` the home directory.
///
/// An ambiguous redirection is reported and nothing else is done for
/// the segment, which still takes its place in the chain. Otherwise
/// the files are opened first, in order. Then `cd` changes the
/// directory and stays out of the chain; a segment without arguments
/// does nothing more; any other segment is launched.
pub open spec fn planned(
    s: PipelineView,
    argv: Seq<Seq<char>>,
    found: Result<Seq<(Mode, Seq<char>)>, ErrorView>,
    home: Option<Seq<char>>,
) -> PipelineView {
    let last = s.cursor + 1 == s.segments.len();
    match found {
        Err(e) => PipelineView {
            cursor: s.cursor + 1,
            started: true,
            upstream: false,
            handle: false,
            queue: seq![ActionView::Report(e)],
            ..s
        },
        Ok(ds) => if argv.len() == 0 {
            PipelineView { cursor: s.cursor + 1, queue: opens(ds), ..s }
        } else if argv[0] == "cd"@ {
            PipelineView { cursor: s.cursor + 1, queue: opens(ds).push(cd_action(argv, home)), ..s }
        } else {
            PipelineView {
                cursor: s.cursor + 1,
                started: true,
                upstream: false,
                handle: false,
                queue: opens(ds).push(
                    ActionView::Spawn(launch_of(argv, !s.started, last, s.upstream, ds.len() > 0)),
                ),
                ..s
            }
        },
    }
}

/// What the outcome of an action decides.
pub open spec fn pending_of(a: ActionView) -> Pending {
    match a {
        ActionView::Open(_) => Pending::Open,
        ActionView::Spawn(l) => Pending::Spawn { piped: l.stdout == StdoutSink::Pipe },
        _ => Pending::Nothing,
    }
}

/// The next action, and the pipeline after it has been handed out:
/// the next action of the segment in progress; with none, and with
/// segments left, nothing; with no segment left, a wait for the
/// process started last, once, and then the end.
pub open spec fn issued(s: PipelineView) -> (PipelineView, ActionView) {
    if s.queue.len() > 0 {
        (
            PipelineView { queue: s.queue.skip(1), pending: pending_of(s.queue[0]), ..s },
            s.queue[0],
        )
    } else if s.cursor < s.segments.len() {
        (PipelineView { pending: Pending::Nothing, ..s }, ActionView::Skip)
    } else if s.handle {
        (PipelineView { handle: false, pending: Pending::Nothing, ..s }, ActionView::Wait)
    } else {
        (PipelineView { pending: Pending::Nothing, ..s }, ActionView::Done)
    }
}

/// `next` and `action` are what the pipeline `s` comes to, with the
/// segment in progress settled, for some home directory and some
/// state of the file system.
pub open spec fn advanced(s: PipelineView, next: PipelineView, action: ActionView) -> bool {
    if s.queue.len() > 0 || s.cursor < 0 || s.cursor >= s.segments.len() {
        (next, action) == issued(s)
    } else {
        exists|
            argv: Seq<Seq<char>>,
            found: Result<Seq<(Mode, Seq<char>)>, ErrorView>,
            home: Option<Seq<char>>,
        |
            {
                &&& argv_of(bare_words(s.segments[s.cursor]), argv)
                &&& resolution_of(redirect_requests(argv), found)
                &&& (next, action) == issued(planned(s, clean_argv(argv), found, home))
            }
    }
}

/// Adds pipes to a launch: see `pipe_filtered`.
pub fn apply_pipe_stream_filter(
    launch: Launch,
    upstream: bool,
    istream: bool,
    wstream: bool,
) -> (out: Launch)
    ensures
        out@ == pipe_filtered(launch@, upstream, istream, wstream),
{
    let mut launch = launch;
    if wstream {
        launch.stdout = StdoutSink::Pipe;
    }
    if istream && upstream {
        launch.stdin = StdinSource::Pipe;
    }
    launch
}

/// Sends the output of a launch to the redirection file, if there is
/// one: see `file_filtered`.
pub fn apply_file_stream_filter(launch: Launch, redirected: bool) -> (out: Launch)
    ensures
        out@ == file_filtered(launch@, redirected),
{
    let mut launch = launch;
    if redirected {
        launch.stdout = StdoutSink::File;
    }
    launch
}

/// The view of the result of `chdir`.
pub open spec fn target_view(r: Result<String, ShellError>) -> Result<Seq<char>, ErrorView> {
    match r {
        Ok(dir) => Ok(dir@),
        Err(e) => Err(e@),
    }
}

/// Where `cd` with the arguments `argv` (the first is `cd` itself)
/// goes, given the home directory of the current user: to its one
/// argument, or home without one. More than one argument is a usage
/// error; without an argument and without a home directory the
/// directory cannot be changed.
pub fn chdir(argv: &Vec<String>, home: Option<String>) -> (target: Result<String, ShellError>)
    ensures
        target_view(target) == cd_target(texts(argv@), opt_text(home)),
{
    if argv.len() > 2 {
        Err(ShellError::BuiltinUsage)
    } else if argv.len() == 2 {
        Ok(argv[1].clone())
    } else {
        match home {
            Some(h) => Ok(h),
            None => Err(ShellError::DirectoryChange),
        }
    }
}

impl Pipeline {
    /// A pipeline of the given segments, before its first action.
    pub fn new(segments: Vec<String>) -> (p: Pipeline)
        ensures
            p@ == initial(texts(segments@)),
    {
        let p = Pipeline {
            segments,
            cursor: 0,
            started: false,
            upstream: false,
            handle: false,
            queue: Vec::new(),
            pending: Pending::Nothing,
        };
        assert(p@.queue =~= Seq::empty());
        p
    }

    /// Takes note of the outcome of the action handed out last.
    pub fn settle(&mut self, succeeded: bool)
        ensures
            final(self)@ == settled(old(self)@, succeeded),
    {
        match self.pending {
            Pending::Nothing => {},
            Pending::Open => {
                if !succeeded {
                    self.queue.clear();
                    assert(actions(self.queue@) =~= Seq::empty());
                }
                self.pending = Pending::Nothing;
            },
            Pending::Spawn { piped } => {
                self.handle = succeeded;
                self.upstream = succeeded && piped;
                self.pending = Pending::Nothing;
            },
        }
    }

    /// Plans the segment at the cursor from what the expansion of its
    /// words and the resolution of its redirections gave.
    pub fn plan(
        &mut self,
        argv: Vec<String>,
        found: Result<Vec<RedirectionDirective>, ShellError>,
        home: Option<String>,
    )
        requires
            old(self).cursor < old(self).segments@.len(),
        ensures
            final(self)@ == planned(old(self)@, texts(argv@), found_view(found), opt_text(home)),
    {
        let n = self.segments.len();
        let last = self.cursor + 1 == n;
        self.cursor = self.cursor + 1;
        let mut queue: Vec<Action> = Vec::new();
        match found {
            Err(e) => {
                queue.push(Action::Report(e));
                assert(actions(queue@) =~= seq![ActionView::Report(e@)]);
                self.started = true;
                self.upstream = false;
                self.handle = false;
            },
            Ok(ds) => {
                let ghost dv = directives(ds@);
                let redirected = ds.len() > 0;
                let mut ds = ds;
                let n = ds.len();
                let mut k: usize = 0;
                while k < n
                    invariant
                        k <= n,
                        n == dv.len(),
                        ds@.len() == n - k,
                        forall|i: int| 0 <= i < n - k ==> (#[trigger] ds@[i])@ == dv[k + i],
                        actions(queue@) == opens(dv).take(k as int),
                    decreases n - k,
                {
                    let d = ds.remove(0);
                    queue.push(Action::Open(d));
                    assert(opens(dv).take(k + 1) =~= opens(dv).take(k as int).push(
                        ActionView::Open(dv[k as int]),
                    ));
                    k += 1;
                }
                assert(opens(dv).take(n as int) =~= opens(dv));
                let ghost opened = actions(queue@);
                let mut argv = argv;
                let ghost av = texts(argv@);
                if argv.len() > 0 {
                    if argv[0] == String::from_str("cd") {
                        let action = match chdir(&argv, home) {
                            Ok(dir) => Action::ChangeDir(dir),
                            Err(e) => Action::Report(e),
                        };
                        queue.push(action);
                        assert(actions(queue@) =~= opened.push(cd_action(av, opt_text(home))));
                    } else {
                        let program = argv.remove(0);
                        assert(texts(argv@) =~= av.skip(1));
                        let launch = Launch {
                            program,
                            args: argv,
                            stdin: StdinSource::Inherit,
                            stdout: StdoutSink::Inherit,
                        };
                        let launch = apply_pipe_stream_filter(
                            launch,
                            self.upstream,
                            self.started,
                            !last,
                        );
                        let launch = apply_file_stream_filter(launch, redirected);
                        queue.push(Action::Spawn(launch));
                        assert(actions(queue@) =~= opened.push(ActionView::Spawn(launch@)));
                        self.started = true;
                        self.upstream = false;
                        self.handle = false;
                    }
                }
            },
        }
        self.queue = queue;
    }

    /// Hands out the next action.
    pub fn issue(&mut self) -> (action: Action)
        ensures
            (final(self)@, action@) == issued(old(self)@),
    {
        if self.queue.len() > 0 {
            let ghost before = actions(self.queue@);
            let action = self.queue.remove(0);
            assert(actions(self.queue@) =~= before.skip(1));
            self.pending =
            match &action {
                Action::Open(_) => Pending::Open,
                Action::Spawn(l) => Pending::Spawn {
                    piped: match l.stdout {
                        StdoutSink::Pipe => true,
                        _ => false,
                    },
                },
                _ => Pending::Nothing,
            };
            action
        } else if self.cursor < self.segments.len() {
            self.pending = Pending::Nothing;
            Action::Skip
        } else if self.handle {
            self.handle = false;
            self.pending = Pending::Nothing;
            Action::Wait
        } else {
            self.pending = Pending::Nothing;
            Action::Done
        }
    }

    /// Says what to do next. `succeeded` is the outcome of the action
    /// that was handed out last; it is not looked at before the first
    /// action, nor after an action whose outcome decides nothing.
    ///
    /// When a new segment has its turn, its words are expanded and
    /// its redirections resolved against the home directory and the
    /// file system as they are at that moment.
    pub fn advance(&mut self, succeeded: bool) -> (action: Action)
        ensures
            advanced(settled(old(self)@, succeeded), final(self)@, action@),
    {
        self.settle(succeeded);
        let ghost s = self@;
        if self.queue.len() == 0 && self.cursor < self.segments.len() {
            let mut argv = parse_argv(self.segments[self.cursor].as_str());
            let ghost expanded = texts(argv@);
            let found = locate_file_stream(&mut argv);
            let home = if found.is_ok() && argv.len() == 1 && argv[0] == String::from_str("cd") {
                home_directory()
            } else {
                None
            };
            let ghost fv = found_view(found);
            let ghost hv = opt_text(home);
            let ghost cleaned = clean_argv(expanded);
            self.plan(argv, found, home);
            let action = self.issue();
            assert(argv_of(bare_words(s.segments[s.cursor]), expanded) && resolution_of(
                redirect_requests(expanded),
                fv,
            ) && (self@, action@) == issued(planned(s, cleaned, fv, hv)));
            action
        } else {
            self.issue()
        }
    }
}

/// What is left of a pipeline: the segments that have not had their
/// turn, the actions of the segment in progress, and whether a
/// process is, or may come, to be waited for.
pub open spec fn remaining(s: PipelineView) -> (int, int, int) {
    (
        if s.cursor < s.segments.len() {
            s.segments.len() - s.cursor
        } else {
            0
        },
        s.queue.len() as int,
        if s.handle || s.pending is Spawn {
            1
        } else {
            0
        },
    )
}

/// `a` comes before `b`: the first component in which they differ is
/// smaller in `a`.
pub open spec fn less(a: (int, int, int), b: (int, int, int)) -> bool {
    a.0 < b.0 || (a.0 == b.0 && (a.1 < b.1 || (a.1 == b.1 && a.2 < b.2)))
}

/// A pipeline comes to its end: whatever the outcomes reported and
/// whatever the file system holds, each action that is handed out,
/// but the last, leaves less of the pipeline than there was.
pub proof fn lemma_pipeline_proceeds(
    s: PipelineView,
    succeeded: bool,
    next: PipelineView,
    action: ActionView,
)
    requires
        0 <= s.cursor,
        advanced(settled(s, succeeded), next, action),
    ensures
        action is Done || less(remaining(next), remaining(s)),
        remaining(next).0 >= 0 && remaining(next).1 >= 0 && remaining(next).2 >= 0,
{
    let s1 = settled(s, succeeded);
    if s1.queue.len() == 0 && s1.cursor < s1.segments.len() {
        let (argv, found, home) = choose|
            argv: Seq<Seq<char>>,
            found: Result<Seq<(Mode, Seq<char>)>, ErrorView>,
            home: Option<Seq<char>>,
        |
            {
                &&& argv_of(bare_words(s1.segments[s1.cursor]), argv)
                &&& resolution_of(redirect_requests(argv), found)
                &&& (next, action) == issued(planned(s1, clean_argv(argv), found, home))
            };
        assert(planned(s1, clean_argv(argv), found, home).cursor == s1.cursor + 1);
    }
}

/// A text without unquoted occurrences of the delimiters is one
/// token, or none if it is empty.
pub proof fn lemma_no_occurrence(s: Seq<char>, tokens: Seq<Seq<char>>, i: int)
    requires
        0 <= i,
        forall|j: int, k: int|
            0 <= j < s.len() && 0 <= k < tokens.len() ==> !#[trigger] matches_at(s, tokens[k], j),
    ensures
        occurrences_from(s, tokens, i).len() == 0,
    decreases s.len() - i,
{
    if i < s.len() {
        lemma_first_match(s, tokens, i, 0);
        lemma_no_occurrence(s, tokens, i + 1);
    }
}

/// The one segment of a command that is not split at pipes: the
/// command trimmed, or nothing where it is blank.
pub open spec fn whole_segment(command: Seq<char>) -> Seq<Seq<char>> {
    if trimmed(command).len() > 0 {
        seq![trimmed(command)]
    } else {
        Seq::empty()
    }
}

/// A command without any `|` has itself as its only pipe segment.
pub proof fn lemma_no_pipe(command: Seq<char>)
    requires
        forall|i: int| 0 <= i < command.len() ==> command[i] != '|',
    ensures
        pipe_segments(command) == whole_segment(command),
{
    reveal_strlit("|");
    lemma_trimmed(command);
    let t = trimmed(command);
    assert forall|j: int, k: int|
        0 <= j < t.len() && 0 <= k < pipes().len() implies !#[trigger] matches_at(
        t,
        pipes()[k],
        j,
    ) by {
        if matches_at(t, pipes()[k], j) {
            assert(t.subrange(j, j + 1)[0] == t[j]);
        }
    }
    lemma_no_occurrence(t, pipes(), 0);
    let ext = extents(occurrences(t, pipes()), pipes());
    assert(gap(t, ext, 0) =~= t);
    assert(gaps(t, ext) =~= seq![t]);
    let nonempty = |x: Seq<char>| x.len() > 0;
    let none = Seq::<Seq<char>>::empty();
    assert(none.filter(nonempty) =~= none) by {
        reveal(Seq::filter);
    }
    none.lemma_filter_push(t, nonempty);
}

/// Owned copies of string slices.
pub fn to_strings(v: &Vec<&str>) -> (out: Vec<String>)
    ensures
        texts(out@) == strs(v@),
{
    let mut out: Vec<String> = Vec::new();
    let mut k: usize = 0;
    while k < v.len()
        invariant
            k <= v.len(),
            texts(out@) == strs(v@).take(k as int),
        decreases v.len() - k,
    {
        out.push(v[k].to_owned());
        assert(strs(v@).take(k + 1) =~= strs(v@).take(k as int).push(v@[k as int]@));
        k += 1;
    }
    out
}

/// The pipeline of a compound command: its segments are the texts
/// between the `|` that stand outside quotes.
pub fn exec_command_with_pipes(command: &str) -> (p: Pipeline)
    ensures
        p@ == initial(pipe_segments(command@)),
{
    let segments = parse_pipeline(command);
    Pipeline::new(to_strings(&segments))
}

/// The pipeline of a command that is run as a whole: it has one
/// segment, the command itself.
pub fn exec_normal_command(command: &str) -> (p: Pipeline)
    ensures
        p@ == initial(whole_segment(command@)),
{
    let t = trim(command);
    let mut segments: Vec<String> = Vec::new();
    if t.unicode_len() > 0 {
        segments.push(t.to_owned());
        assert(texts(segments@) =~= seq![t@]);
    } else {
        assert(texts(segments@) =~= Seq::empty());
    }
    Pipeline::new(segments)
}

/// Whether `command` holds a `|` anywhere.
pub fn has_pipe(command: &str) -> (b: bool)
    ensures
        b == exists|i: int| 0 <= i < command@.len() && command@[i] == '|',
{
    let chars = chars_of(command);
    let mut i: usize = 0;
    while i < chars.len()
        invariant
            i <= chars.len(),
            chars@ == command@,
            forall|j: int| 0 <= j < i ==> chars@[j] != '|',
        decreases chars.len() - i,
    {
        if chars[i] == '|' {
            return true;
        }
        i += 1;
    }
    false
}

/// The pipelines of a line: one for each compound command, in the
/// order in which they are to run. `;` and `&&` sequence alike: each
/// pipeline runs whatever became of the one before it.
pub fn exec_commands(line: &str) -> (plan: Vec<Pipeline>)
    ensures
        pipelines(plan@) == compound_commands(line@).map_values(
            |c: Seq<char>| initial(pipe_segments(c)),
        ),
{
    let commands = parse_command(line);
    let ghost cs = compound_commands(line@);
    let ghost goal = cs.map_values(|c: Seq<char>| initial(pipe_segments(c)));
    let mut plan: Vec<Pipeline> = Vec::new();
    let mut k: usize = 0;
    while k < commands.len()
        invariant
            k <= commands.len(),
            cs == strs(commands@),
            cs.len() == commands@.len(),
            goal == cs.map_values(|c: Seq<char>| initial(pipe_segments(c))),
            pipelines(plan@) == goal.take(k as int),
        decreases commands.len() - k,
    {
        let command = commands[k];
        let p = if has_pipe(command) {
            exec_command_with_pipes(command)
        } else {
            proof {
                lemma_no_pipe(command@);
            }
            exec_normal_command(command)
        };
        plan.push(p);
        assert(goal.take(k + 1) =~= goal.take(k as int).push(goal[k as int]));
        k += 1;
    }
    plan
}

} // verus!
