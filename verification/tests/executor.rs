use pipeline_shell::config::Config;
use pipeline_shell::executor::{Action, Event, Executor, StdinSource, StdoutSink, EXIT_STATUS};
use pipeline_shell::run::replay;

fn executor(line: &str) -> Executor {
    Executor::new(line, &Config::default(), Some("/home/user".to_string()))
}

fn spawn(program: &str, arguments: &[&str], stdin: StdinSource, stdout: StdoutSink) -> Action {
    Action::Spawn {
        program: program.to_string(),
        arguments: arguments.iter().map(|s| s.to_string()).collect(),
        stdin,
        stdout,
    }
}

fn report(text: &str) -> Action {
    Action::Report { text: text.to_string() }
}

fn failed(message: &str) -> Event {
    Event::Failed { message: message.to_string() }
}

#[test]
fn blank_line_spawns_nothing_and_prints_nothing() {
    for line in ["", "\n", "   ", " \t \r\n", "\u{2003}\u{a0}"] {
        let mut e = executor(line);
        assert!(!e.finished());
        assert_eq!(e.step(Event::Begin), Some(Action::Done), "{:?}", line);
        assert!(e.finished());
        assert_eq!(e.step(Event::Completed), None);
        assert_eq!(e.step(Event::Begin), None);
    }
}

#[test]
fn single_command_inherits_both_streams_and_is_waited_for() {
    let mut e = executor("ls -la /tmp\n");
    assert_eq!(
        e.step(Event::Begin),
        Some(spawn("ls", &["-la", "/tmp"], StdinSource::Inherit, StdoutSink::Inherit))
    );
    assert_eq!(e.step(Event::Completed), Some(Action::Wait));
    assert!(!e.finished());
    assert_eq!(e.step(Event::Exited { code: Some(0) }), Some(Action::Done));
    assert!(e.finished());
}

#[test]
fn echo_hello_through_tr() {
    let mut e = executor("echo hello | tr a-z A-Z\n");
    assert_eq!(
        e.step(Event::Begin),
        Some(spawn("echo", &["hello"], StdinSource::Inherit, StdoutSink::Pipe))
    );
    assert_eq!(
        e.step(Event::Completed),
        Some(spawn("tr", &["a-z", "A-Z"], StdinSource::PreviousStage, StdoutSink::Inherit))
    );
    assert_eq!(e.step(Event::Completed), Some(Action::Wait));
    assert_eq!(e.step(Event::Exited { code: Some(0) }), Some(Action::Done));
    assert_eq!(e.step(Event::Completed), None);
}

#[test]
fn each_stage_reads_what_the_stage_before_writes() {
    let mut e = executor("a | b | c | d");
    let answers = replay(
        &mut e,
        vec![Event::Begin, Event::Completed, Event::Completed, Event::Completed, Event::Completed],
    );
    assert_eq!(
        answers,
        vec![
            spawn("a", &[], StdinSource::Inherit, StdoutSink::Pipe),
            spawn("b", &[], StdinSource::PreviousStage, StdoutSink::Pipe),
            spawn("c", &[], StdinSource::PreviousStage, StdoutSink::Pipe),
            spawn("d", &[], StdinSource::PreviousStage, StdoutSink::Inherit),
            Action::Wait,
        ]
    );
}

#[test]
fn misspelled_first_program_disconnects_the_pipeline() {
    let mut e = executor("nonexistent_cmd | echo hi\n");
    assert_eq!(
        e.step(Event::Begin),
        Some(spawn("nonexistent_cmd", &[], StdinSource::Inherit, StdoutSink::Pipe))
    );
    assert_eq!(
        e.step(failed("No such file or directory (os error 2)")),
        Some(report("No such file or directory (os error 2)\n"))
    );
    assert_eq!(
        e.step(Event::Completed),
        Some(spawn("echo", &["hi"], StdinSource::Inherit, StdoutSink::Inherit))
    );
    assert_eq!(e.step(Event::Completed), Some(Action::Wait));
    assert_eq!(e.step(Event::Exited { code: Some(0) }), Some(Action::Done));
}

#[test]
fn misspelled_middle_program_disconnects_the_pipeline() {
    let mut e = executor("echo a | nonexistent_cmd | cat");
    assert_eq!(
        e.step(Event::Begin),
        Some(spawn("echo", &["a"], StdinSource::Inherit, StdoutSink::Pipe))
    );
    assert_eq!(
        e.step(Event::Completed),
        Some(spawn("nonexistent_cmd", &[], StdinSource::PreviousStage, StdoutSink::Pipe))
    );
    assert_eq!(e.step(failed("not found")), Some(report("not found\n")));
    assert_eq!(
        e.step(Event::Completed),
        Some(spawn("cat", &[], StdinSource::Inherit, StdoutSink::Inherit))
    );
}

#[test]
fn misspelled_last_program_leaves_nothing_to_wait_for() {
    let mut e = executor("echo a | nonexistent_cmd");
    e.step(Event::Begin);
    e.step(Event::Completed);
    assert_eq!(e.step(failed("not found")), Some(report("not found\n")));
    assert_eq!(e.step(Event::Completed), Some(Action::Done));
}

#[test]
fn false_reports_status_one() {
    let mut e = executor("false\n");
    assert_eq!(
        e.step(Event::Begin),
        Some(spawn("false", &[], StdinSource::Inherit, StdoutSink::Inherit))
    );
    assert_eq!(e.step(Event::Completed), Some(Action::Wait));
    assert_eq!(e.step(Event::Exited { code: Some(1) }), Some(report("1 ")));
    assert_eq!(e.step(Event::Completed), Some(Action::Done));
    assert!(e.finished());
}

#[test]
fn status_of_the_last_stage_is_reported_as_a_bare_number() {
    for (code, text) in [(2, "2 "), (127, "127 "), (255, "255 "), (-1, "-1 ")] {
        let mut e = executor("true | sh -c exit");
        replay(&mut e, vec![Event::Begin, Event::Completed, Event::Completed]);
        assert_eq!(e.step(Event::Exited { code: Some(code) }), Some(report(text)));
        assert_eq!(e.step(Event::Completed), Some(Action::Done));
    }
}

#[test]
fn process_ended_by_a_signal_reports_one() {
    let mut e = executor("sleep 100");
    replay(&mut e, vec![Event::Begin, Event::Completed]);
    assert_eq!(e.step(Event::Exited { code: None }), Some(report("1 ")));
    assert_eq!(e.step(Event::Completed), Some(Action::Done));
}

#[test]
fn failed_wait_is_reported() {
    let mut e = executor("ls");
    replay(&mut e, vec![Event::Begin, Event::Completed]);
    assert_eq!(e.step(failed("No child processes")), Some(report("No child processes\n")));
    assert_eq!(e.step(Event::Completed), Some(Action::Done));
}

#[test]
fn exit_alone_ends_the_interpreter_with_status_zero() {
    let mut e = executor("exit\n");
    assert_eq!(EXIT_STATUS, 0);
    assert_eq!(e.step(Event::Begin), Some(Action::Exit { status: 0 }));
    assert!(e.finished());
    assert_eq!(e.step(Event::Completed), None);
}

#[test]
fn exit_as_a_later_stage_ends_the_interpreter() {
    let mut e = executor("sleep 5 | exit | ls");
    assert_eq!(
        e.step(Event::Begin),
        Some(spawn("sleep", &["5"], StdinSource::Inherit, StdoutSink::Pipe))
    );
    assert_eq!(e.step(Event::Completed), Some(Action::Exit { status: 0 }));
    assert!(e.finished());
}

#[test]
fn exit_after_a_failed_stage_ends_the_interpreter() {
    let mut e = executor("nonexistent_cmd | exit");
    e.step(Event::Begin);
    assert_eq!(e.step(failed("not found")), Some(report("not found\n")));
    assert_eq!(e.step(Event::Completed), Some(Action::Exit { status: 0 }));
}

#[test]
fn exit_ignores_its_arguments() {
    let mut e = executor("exit 3");
    assert_eq!(e.step(Event::Begin), Some(Action::Exit { status: 0 }));
}

#[test]
fn exit_behind_an_empty_segment_is_not_reached() {
    let mut e = executor(" | exit");
    assert_eq!(e.step(Event::Begin), Some(Action::Done));
    assert_eq!(e.step(Event::Completed), None);
}

#[test]
fn version_prints_the_configured_version() {
    let mut e = executor("version\n");
    assert_eq!(e.step(Event::Begin), Some(Action::Print { text: "0.1\n".to_string() }));
    assert_eq!(e.step(Event::Completed), Some(Action::Done));

    let config = Config { prompt: "$".to_string(), version: "7.5-rc".to_string() };
    let mut e = Executor::new("version", &config, None);
    assert_eq!(e.step(Event::Begin), Some(Action::Print { text: "7.5-rc\n".to_string() }));
}

#[test]
fn version_leaves_the_previous_stage_as_it_is() {
    let mut e = executor("ls | version | cat");
    assert_eq!(e.step(Event::Begin), Some(spawn("ls", &[], StdinSource::Inherit, StdoutSink::Pipe)));
    assert_eq!(e.step(Event::Completed), Some(Action::Print { text: "0.1\n".to_string() }));
    assert_eq!(
        e.step(Event::Completed),
        Some(spawn("cat", &[], StdinSource::PreviousStage, StdoutSink::Inherit))
    );
    assert_eq!(e.step(Event::Completed), Some(Action::Wait));
}

#[test]
fn version_at_the_end_still_waits_for_the_previous_stage() {
    let mut e = executor("ls | version");
    assert_eq!(e.step(Event::Begin), Some(spawn("ls", &[], StdinSource::Inherit, StdoutSink::Pipe)));
    assert_eq!(e.step(Event::Completed), Some(Action::Print { text: "0.1\n".to_string() }));
    assert_eq!(e.step(Event::Completed), Some(Action::Wait));
    assert_eq!(e.step(Event::Exited { code: Some(0) }), Some(Action::Done));
}

#[test]
fn cd_without_argument_and_without_home_goes_to_the_root() {
    let mut e = Executor::new("cd\n", &Config::default(), None);
    assert_eq!(e.step(Event::Begin), Some(Action::ChangeDir { path: "/".to_string() }));
    assert_eq!(e.step(Event::Completed), Some(Action::Done));
}

#[test]
fn cd_without_argument_goes_home() {
    let mut e = executor("cd");
    assert_eq!(e.step(Event::Begin), Some(Action::ChangeDir { path: "/home/user".to_string() }));
}

#[test]
fn cd_to_a_missing_directory_reports_and_goes_on() {
    let mut e = executor("cd /nonexistent\n");
    assert_eq!(e.step(Event::Begin), Some(Action::ChangeDir { path: "/nonexistent".to_string() }));
    assert_eq!(
        e.step(failed("No such file or directory (os error 2)")),
        Some(report("No such file or directory (os error 2)\n"))
    );
    assert_eq!(e.step(Event::Completed), Some(Action::Done));
}

#[test]
fn cd_takes_only_its_first_argument() {
    let mut e = executor("cd /a /b");
    assert_eq!(e.step(Event::Begin), Some(Action::ChangeDir { path: "/a".to_string() }));
}

#[test]
fn cd_lets_go_of_the_previous_stage() {
    let mut e = executor("ls | cd /tmp | cat");
    assert_eq!(e.step(Event::Begin), Some(spawn("ls", &[], StdinSource::Inherit, StdoutSink::Pipe)));
    assert_eq!(e.step(Event::Completed), Some(Action::ChangeDir { path: "/tmp".to_string() }));
    assert_eq!(
        e.step(Event::Completed),
        Some(spawn("cat", &[], StdinSource::Inherit, StdoutSink::Inherit))
    );
}

#[test]
fn cd_at_the_end_leaves_nothing_to_wait_for() {
    let mut e = executor("ls | cd /tmp");
    replay(&mut e, vec![Event::Begin, Event::Completed]);
    assert_eq!(e.step(Event::Completed), Some(Action::Done));
}

#[test]
fn failed_cd_in_a_pipeline_goes_on_with_the_next_stage() {
    let mut e = executor("cd /nonexistent | pwd");
    e.step(Event::Begin);
    assert_eq!(e.step(failed("no")), Some(report("no\n")));
    assert_eq!(
        e.step(Event::Completed),
        Some(spawn("pwd", &[], StdinSource::Inherit, StdoutSink::Inherit))
    );
}

#[test]
fn empty_segment_ends_the_line_without_waiting() {
    let mut e = executor("ls | | cat");
    assert_eq!(e.step(Event::Begin), Some(spawn("ls", &[], StdinSource::Inherit, StdoutSink::Pipe)));
    assert_eq!(e.step(Event::Completed), Some(Action::Done));
    assert!(e.finished());

    let mut e = executor("ls |");
    assert_eq!(e.step(Event::Begin), Some(spawn("ls", &[], StdinSource::Inherit, StdoutSink::Pipe)));
    assert_eq!(e.step(Event::Completed), Some(Action::Done));
}

#[test]
fn a_program_named_skip_is_spawned() {
    let mut e = executor("skip");
    assert_eq!(
        e.step(Event::Begin),
        Some(spawn("skip", &[], StdinSource::Inherit, StdoutSink::Inherit))
    );
}

#[test]
fn events_that_do_not_answer_the_action_change_nothing() {
    let mut e = executor("ls | cat");
    assert_eq!(e.step(Event::Completed), None);
    assert_eq!(e.step(failed("x")), None);
    assert_eq!(e.step(Event::Exited { code: Some(0) }), None);
    assert_eq!(e.step(Event::Begin), Some(spawn("ls", &[], StdinSource::Inherit, StdoutSink::Pipe)));
    assert_eq!(e.step(Event::Begin), None);
    assert_eq!(e.step(Event::Exited { code: Some(3) }), None);
    assert_eq!(
        e.step(Event::Completed),
        Some(spawn("cat", &[], StdinSource::PreviousStage, StdoutSink::Inherit))
    );
    assert_eq!(e.step(Event::Completed), Some(Action::Wait));
    assert_eq!(e.step(Event::Completed), None);
    assert_eq!(e.step(Event::Begin), None);
    assert_eq!(e.step(Event::Exited { code: Some(3) }), Some(report("3 ")));
    assert_eq!(e.step(failed("x")), None);
    assert_eq!(e.step(Event::Completed), Some(Action::Done));
    assert_eq!(e.step(Event::Completed), None);
}

#[test]
fn arguments_are_passed_as_they_stand() {
    let mut e = executor("echo $HOME *.rs \"a b\"");
    assert_eq!(
        e.step(Event::Begin),
        Some(spawn("echo", &["$HOME", "*.rs", "\"a", "b\""], StdinSource::Inherit, StdoutSink::Inherit))
    );
}
