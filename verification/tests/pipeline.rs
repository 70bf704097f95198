use shell_core::error::ShellError;
use shell_core::pipeline::{
    apply_file_stream_filter, apply_pipe_stream_filter, chdir, exec_command_with_pipes,
    exec_commands, exec_normal_command, has_pipe, Action, Launch, Pending, Pipeline, StdinSource,
    StdoutSink,
};
use shell_core::redirect::{Mode, RedirectionDirective};
use shell_core::syntax::catch_sytax_error;

fn strings(v: &[&str]) -> Vec<String> {
    v.iter().map(|s| s.to_string()).collect()
}

fn launch(program: &str, args: &[&str], stdin: StdinSource, stdout: StdoutSink) -> Launch {
    Launch { program: program.to_string(), args: strings(args), stdin, stdout }
}

fn spawn(program: &str, args: &[&str], stdin: StdinSource, stdout: StdoutSink) -> Action {
    Action::Spawn(launch(program, args, stdin, stdout))
}

fn open(mode: Mode, target: &str) -> Action {
    Action::Open(RedirectionDirective { mode, target: target.to_string() })
}

fn only_pipeline(line: &str) -> Pipeline {
    let mut plan = exec_commands(line);
    assert_eq!(plan.len(), 1);
    plan.remove(0)
}

#[test]
fn echo_into_a_file() {
    let line = "echo hello > out.txt";
    assert_eq!(catch_sytax_error(line), None);
    let mut p = only_pipeline(line);
    assert_eq!(p.segments, strings(&["echo hello > out.txt"]));
    assert_eq!(p.advance(true), open(Mode::Truncate, "out.txt"));
    assert_eq!(
        p.advance(true),
        spawn("echo", &["hello"], StdinSource::Inherit, StdoutSink::File)
    );
    assert_eq!(p.advance(true), Action::Wait);
    assert_eq!(p.advance(true), Action::Done);
    assert_eq!(p.advance(true), Action::Done);
}

#[test]
fn two_segments_are_wired_by_a_pipe() {
    let mut p = only_pipeline("ls | wc -l");
    assert_eq!(p.segments, strings(&["ls ", " wc -l"]));
    assert_eq!(p.advance(false), spawn("ls", &[], StdinSource::Inherit, StdoutSink::Pipe));
    assert_eq!(p.advance(true), spawn("wc", &["-l"], StdinSource::Pipe, StdoutSink::Inherit));
    assert_eq!(p.advance(true), Action::Wait);
    assert_eq!(p.advance(true), Action::Done);
}

#[test]
fn three_segments_have_a_middle() {
    let mut p = only_pipeline("a | b | c");
    assert_eq!(p.advance(true), spawn("a", &[], StdinSource::Inherit, StdoutSink::Pipe));
    assert_eq!(p.advance(true), spawn("b", &[], StdinSource::Pipe, StdoutSink::Pipe));
    assert_eq!(p.advance(true), spawn("c", &[], StdinSource::Pipe, StdoutSink::Inherit));
    assert_eq!(p.advance(true), Action::Wait);
    assert_eq!(p.advance(true), Action::Done);
}

#[test]
fn unmatched_pattern_is_an_argument() {
    let mut p = only_pipeline("echo *.nomatch123 > out2.txt");
    assert_eq!(p.advance(true), open(Mode::Truncate, "out2.txt"));
    assert_eq!(
        p.advance(true),
        spawn("echo", &["*.nomatch123"], StdinSource::Inherit, StdoutSink::File)
    );
}

#[test]
fn ambiguous_redirection_starts_nothing() {
    let mut p = only_pipeline("cat a.txt >/[eu][ts][cr]");
    assert_eq!(
        p.advance(true),
        Action::Report(ShellError::AmbiguousRedirect("/[eu][ts][cr]".to_string()))
    );
    assert_eq!(p.advance(true), Action::Done);
    let mut p = only_pipeline("cat a.txt >/[eu][ts][cr] | wc");
    assert_eq!(
        p.advance(true),
        Action::Report(ShellError::AmbiguousRedirect("/[eu][ts][cr]".to_string()))
    );
    assert_eq!(p.advance(true), spawn("wc", &[], StdinSource::Inherit, StdoutSink::Inherit));
}

#[test]
fn a_standalone_operator_takes_the_first_expansion() {
    let mut p = only_pipeline("cat a.txt > /[eu][ts][cr]");
    assert_eq!(p.advance(true), open(Mode::Truncate, "/etc"));
    assert_eq!(
        p.advance(true),
        spawn("cat", &["a.txt", "/usr"], StdinSource::Inherit, StdoutSink::File)
    );
}

#[test]
fn ambiguous_redirection_planned_from_two_matches() {
    let mut p = Pipeline::new(strings(&["cat a.txt > b*.txt"]));
    p.plan(
        strings(&["cat", "a.txt", ">", "b*.txt"]),
        Err(ShellError::AmbiguousRedirect("b*.txt".to_string())),
        None,
    );
    assert_eq!(p.issue(), Action::Report(ShellError::AmbiguousRedirect("b*.txt".to_string())));
    assert_eq!(p.issue(), Action::Done);
}

#[test]
fn cd_without_a_home_directory() {
    assert_eq!(chdir(&strings(&["cd"]), None), Err(ShellError::DirectoryChange));
    let mut p = Pipeline::new(strings(&["cd"]));
    p.plan(strings(&["cd"]), Ok(Vec::new()), None);
    assert_eq!(p.issue(), Action::Report(ShellError::DirectoryChange));
    assert_eq!(p.issue(), Action::Done);
}

#[test]
fn cd_targets() {
    let home = || Some("/home/u".to_string());
    assert_eq!(chdir(&strings(&["cd"]), home()), Ok("/home/u".to_string()));
    assert_eq!(chdir(&strings(&["cd", "/tmp"]), None), Ok("/tmp".to_string()));
    assert_eq!(chdir(&strings(&["cd", "/tmp"]), home()), Ok("/tmp".to_string()));
    assert_eq!(chdir(&strings(&["cd", "a", "b"]), home()), Err(ShellError::BuiltinUsage));
    assert_eq!(chdir(&strings(&["cd", "a", "b"]), None), Err(ShellError::BuiltinUsage));
}

#[test]
fn cd_goes_home() {
    let mut p = only_pipeline("cd");
    match dirs::home_dir().and_then(|p| p.to_str().map(|s| s.to_string())) {
        Some(home) => assert_eq!(p.advance(true), Action::ChangeDir(home)),
        None => assert_eq!(p.advance(true), Action::Report(ShellError::DirectoryChange)),
    }
    assert_eq!(p.advance(true), Action::Done);
}

#[test]
fn cd_is_not_spawned() {
    let mut p = only_pipeline("cd /tmp");
    assert_eq!(p.advance(true), Action::ChangeDir("/tmp".to_string()));
    assert_eq!(p.advance(true), Action::Done);
    let mut p = only_pipeline("cd a b");
    assert_eq!(p.advance(true), Action::Report(ShellError::BuiltinUsage));
    assert_eq!(p.advance(true), Action::Done);
}

#[test]
fn cd_stays_out_of_the_chain() {
    let mut p = only_pipeline("cd /tmp | ls");
    assert_eq!(p.advance(true), Action::ChangeDir("/tmp".to_string()));
    assert_eq!(p.advance(true), spawn("ls", &[], StdinSource::Inherit, StdoutSink::Inherit));
    assert_eq!(p.advance(true), Action::Wait);
    assert_eq!(p.advance(true), Action::Done);
    let mut p = only_pipeline("a | cd /tmp | b");
    assert_eq!(p.advance(true), spawn("a", &[], StdinSource::Inherit, StdoutSink::Pipe));
    assert_eq!(p.advance(true), Action::ChangeDir("/tmp".to_string()));
    assert_eq!(p.advance(false), spawn("b", &[], StdinSource::Pipe, StdoutSink::Inherit));
}

#[test]
fn a_failed_spawn_leaves_no_pipe_and_no_handle() {
    let mut p = only_pipeline("nosuch | wc");
    assert_eq!(p.advance(true), spawn("nosuch", &[], StdinSource::Inherit, StdoutSink::Pipe));
    assert_eq!(p.advance(false), spawn("wc", &[], StdinSource::Inherit, StdoutSink::Inherit));
    assert_eq!(p.advance(true), Action::Wait);
    assert_eq!(p.advance(true), Action::Done);
    let mut p = only_pipeline("ls | nosuch");
    assert_eq!(p.advance(true), spawn("ls", &[], StdinSource::Inherit, StdoutSink::Pipe));
    assert_eq!(p.advance(true), spawn("nosuch", &[], StdinSource::Pipe, StdoutSink::Inherit));
    assert_eq!(p.advance(false), Action::Done);
}

#[test]
fn a_redirected_segment_leaves_no_pipe() {
    let mut p = only_pipeline("ls > f.nomatch123 | wc");
    assert_eq!(p.advance(true), open(Mode::Truncate, "f.nomatch123"));
    assert_eq!(p.advance(true), spawn("ls", &[], StdinSource::Inherit, StdoutSink::File));
    assert_eq!(p.advance(true), spawn("wc", &[], StdinSource::Inherit, StdoutSink::Inherit));
}

#[test]
fn a_file_that_cannot_be_opened_ends_its_segment() {
    let mut p = only_pipeline("ls > /no/such/dir/f | wc");
    assert_eq!(p.advance(true), open(Mode::Truncate, "/no/such/dir/f"));
    assert_eq!(p.advance(false), spawn("wc", &[], StdinSource::Inherit, StdoutSink::Inherit));
    assert_eq!(p.advance(true), Action::Wait);
    let mut p = only_pipeline("echo a > /no/such/dir/f");
    assert_eq!(p.advance(true), open(Mode::Truncate, "/no/such/dir/f"));
    assert_eq!(p.advance(false), Action::Done);
}

#[test]
fn every_redirection_is_opened_and_the_last_one_used() {
    let mut p = only_pipeline("echo a > f.nomatch123 >> g.nomatch123");
    assert_eq!(p.advance(true), open(Mode::Truncate, "f.nomatch123"));
    assert_eq!(p.advance(true), open(Mode::Append, "g.nomatch123"));
    assert_eq!(p.advance(true), spawn("echo", &["a"], StdinSource::Inherit, StdoutSink::File));
}

#[test]
fn a_segment_without_a_program_only_opens_its_files() {
    let mut p = Pipeline::new(strings(&["> f.nomatch123", "wc"]));
    assert_eq!(p.advance(true), open(Mode::Truncate, "f.nomatch123"));
    assert_eq!(p.advance(true), spawn("wc", &[], StdinSource::Inherit, StdoutSink::Inherit));
    let mut p = Pipeline::new(strings(&[">", "wc"]));
    assert_eq!(p.advance(true), Action::Skip);
    assert_eq!(p.advance(true), spawn("wc", &[], StdinSource::Inherit, StdoutSink::Inherit));
    let mut p = Pipeline::new(Vec::new());
    assert_eq!(p.advance(true), Action::Done);
}

#[test]
fn quoted_pipe_is_an_argument() {
    let line = "echo \"a|b\"";
    assert!(has_pipe(line));
    let mut p = only_pipeline(line);
    assert_eq!(
        p.advance(true),
        spawn("echo", &["a|b"], StdinSource::Inherit, StdoutSink::Inherit)
    );
}

#[test]
fn compound_commands_run_in_order() {
    let plan = exec_commands("echo a ; ls | wc && pwd\n");
    assert_eq!(plan.len(), 3);
    assert_eq!(plan[0], Pipeline::new(strings(&["echo a"])));
    assert_eq!(plan[1], Pipeline::new(strings(&["ls ", " wc"])));
    assert_eq!(plan[2], Pipeline::new(strings(&["pwd"])));
    assert_eq!(exec_commands("   \n"), Vec::new());
}

#[test]
fn pipeline_constructors() {
    let p = exec_command_with_pipes(" ls | wc ");
    assert_eq!(p.segments, strings(&["ls ", " wc"]));
    assert_eq!(p.cursor, 0);
    assert!(!p.started && !p.upstream && !p.handle);
    assert_eq!(p.queue, Vec::new());
    assert_eq!(p.pending, Pending::Nothing);
    assert_eq!(exec_normal_command(" ls -l "), Pipeline::new(strings(&["ls -l"])));
    assert_eq!(exec_normal_command("  "), Pipeline::new(Vec::new()));
    assert_eq!(exec_normal_command("a | b").segments, strings(&["a | b"]));
    assert!(!has_pipe("ls -l"));
}

#[test]
fn settle_records_the_outcome() {
    let mut p = only_pipeline("a | b");
    let _ = p.advance(true);
    assert_eq!(p.pending, Pending::Spawn { piped: true });
    p.settle(true);
    assert!(p.handle && p.upstream);
    assert_eq!(p.pending, Pending::Nothing);
    p.settle(false);
    assert!(p.handle && p.upstream);
    let _ = p.advance(true);
    assert_eq!(p.pending, Pending::Spawn { piped: false });
    p.settle(true);
    assert!(p.handle && !p.upstream);
}

#[test]
fn stream_filters() {
    let base = || launch("p", &["x"], StdinSource::Inherit, StdoutSink::Inherit);
    assert_eq!(
        apply_pipe_stream_filter(base(), true, true, true),
        launch("p", &["x"], StdinSource::Pipe, StdoutSink::Pipe)
    );
    assert_eq!(
        apply_pipe_stream_filter(base(), false, true, true),
        launch("p", &["x"], StdinSource::Inherit, StdoutSink::Pipe)
    );
    assert_eq!(
        apply_pipe_stream_filter(base(), true, false, false),
        launch("p", &["x"], StdinSource::Inherit, StdoutSink::Inherit)
    );
    assert_eq!(
        apply_file_stream_filter(apply_pipe_stream_filter(base(), true, true, true), true),
        launch("p", &["x"], StdinSource::Pipe, StdoutSink::File)
    );
    assert_eq!(apply_file_stream_filter(base(), false), base());
}
