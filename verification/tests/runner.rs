use up::commands::closing_line_for;
use up::commands::closing_message;
use up::commands::interpret_answer;
use up::commands::outcome_of_exit;
use up::commands::phase_word;
use up::commands::read_answer;
use up::commands::Dispatch;
use up::commands::Elapsed;
use up::commands::ExecOutcome;
use up::commands::Run;
use up::commands::RunResult;
use up::commands::RunSummary;
use up::commands::Status;
use up::programs::Mode;
use up::programs::Program;
use up::timestamp::Timestamp;

fn stamp() -> Timestamp {
    Timestamp::new(2015, 9, 5, 23, 56, 4, 26_490).unwrap()
}

fn task(name: &str, has_output: bool, update: Option<&str>, info: Option<&str>) -> Program {
    Program::new(
        name.to_string(),
        None,
        "sh".to_string(),
        true,
        has_output,
        update.map(|s| s.to_string()),
        info.map(|s| s.to_string()),
        "/tmp/up_tmp",
    )
}

fn span() -> Elapsed {
    Elapsed::new(3, 0).unwrap()
}

/// Stands for the process executor: `fail-cmd` ends with exit code 1, every
/// other command with exit code 0.
fn stub_execute(command: &str) -> ExecOutcome {
    if command.contains("fail-cmd") {
        outcome_of_exit(Some(1), "exit status: 1".to_string())
    } else {
        outcome_of_exit(Some(0), "exit status: 0".to_string())
    }
}

fn run_to_the_end(tasks: Vec<Program>, mode: Mode) -> (RunSummary, Vec<RunResult>) {
    let n = tasks.len();
    let mut run = Run::begin(tasks, mode, stamp());
    let mut commands = Vec::new();
    for id in 0..n {
        match run.dispatch(id, &stamp()) {
            Dispatch::Execute(command) => commands.push((id, command)),
            Dispatch::Skipped => {}
            Dispatch::Rejected => panic!("task {id} was rejected"),
        }
    }
    for (id, command) in commands.into_iter().rev() {
        assert!(run.settle(id, stub_execute(&command.command)));
    }
    let report = run.finish(span()).unwrap();
    (report.summary, report.results)
}

#[test]
fn end_to_end_update_of_three_tasks() {
    let tasks = vec![
        task("alpha", false, Some("noop"), None),
        task("beta", false, None, None),
        task("gamma", false, Some("fail-cmd"), None),
    ];
    let (summary, results) = run_to_the_end(tasks, Mode::Update);
    assert_eq!(results.len(), 3);
    assert_eq!(results[0].name, "alpha");
    assert_eq!(results[0].status, Status::Succeeded);
    assert!(results[0].messages.is_empty());
    assert_eq!(results[1].name, "beta");
    assert_eq!(results[1].status, Status::SkippedNoCommand);
    assert_eq!(results[1].messages, vec!["no update command found".to_string()]);
    assert_eq!(results[2].name, "gamma");
    assert_eq!(results[2].status, Status::Failed);
    assert_eq!(results[2].messages, vec!["exit status: 1".to_string()]);
    assert_eq!(summary.completed, 3);
    assert_eq!(summary.total, 3);
    assert_eq!(summary.started, stamp());
    assert_eq!(summary.elapsed, span());
}

#[test]
fn task_without_update_command_is_skipped_and_counted() {
    let mut run = Run::begin(vec![task("beta", true, None, Some("status"))], Mode::Update, stamp());
    assert_eq!(run.progress().completed(), 0);
    assert!(matches!(run.dispatch(0, &stamp()), Dispatch::Skipped));
    assert_eq!(run.progress().completed(), 1);
    assert!(run.is_complete());
    let report = run.finish(span()).unwrap();
    assert_eq!(report.results[0].status, Status::SkippedNoCommand);
    assert_eq!(report.results[0].output_path, None);
    assert_eq!(report.results[0].symbol, "B");
}

#[test]
fn task_without_info_command_is_skipped_in_info_mode() {
    let mut run = Run::begin(vec![task("beta", true, Some("update"), None)], Mode::Info, stamp());
    assert!(matches!(run.dispatch(0, &stamp()), Dispatch::Skipped));
    let report = run.finish(span()).unwrap();
    assert_eq!(report.results[0].status, Status::SkippedNoCommand);
    assert_eq!(report.results[0].messages, vec!["no info command found".to_string()]);
}

#[test]
fn run_of_n_tasks_completes_n() {
    for n in [0usize, 1, 2, 7, 20] {
        let tasks: Vec<Program> =
            (0..n).map(|i| task(&format!("task{i}"), false, Some("noop"), None)).collect();
        let (summary, results) = run_to_the_end(tasks, Mode::Update);
        assert_eq!(results.len(), n);
        assert_eq!(summary.total, n);
        assert_eq!(summary.completed, n);
        for (i, result) in results.iter().enumerate() {
            assert_eq!(result.name, format!("task{i}"));
            assert_eq!(result.status, Status::Succeeded);
        }
    }
}

#[test]
fn run_is_not_finished_before_every_task_has_ended() {
    let tasks = vec![task("a", false, Some("noop"), None), task("b", false, Some("noop"), None)];
    let run = Run::begin(tasks, Mode::Update, stamp());
    let mut run = run.finish(span()).unwrap_err();
    assert!(!run.is_complete());
    assert!(matches!(run.dispatch(0, &stamp()), Dispatch::Execute(_)));
    assert!(matches!(run.dispatch(1, &stamp()), Dispatch::Execute(_)));
    let mut run = run.finish(span()).unwrap_err();
    assert!(run.settle(1, ExecOutcome::Success));
    assert_eq!(run.progress().completed(), 1);
    let mut run = run.finish(span()).unwrap_err();
    assert!(run.settle(0, ExecOutcome::Success));
    assert!(run.is_complete());
    let report = run.finish(span()).unwrap();
    assert_eq!(report.summary.completed, 2);
}

#[test]
fn failure_of_one_task_leaves_its_sibling_alone() {
    let tasks = vec![task("a", false, Some("fail-cmd"), None), task("b", false, Some("noop"), None)];
    let mut run = Run::begin(tasks, Mode::Update, stamp());
    assert!(matches!(run.dispatch(0, &stamp()), Dispatch::Execute(_)));
    assert!(matches!(run.dispatch(1, &stamp()), Dispatch::Execute(_)));
    assert!(run.settle(0, ExecOutcome::Failure("no such program".to_string())));
    assert!(run.settle(1, ExecOutcome::Success));
    let report = run.finish(span()).unwrap();
    assert_eq!(report.results[0].status, Status::Failed);
    assert_eq!(report.results[0].messages, vec!["no such program".to_string()]);
    assert_eq!(report.results[1].status, Status::Succeeded);
    assert!(report.results[1].messages.is_empty());
    assert_eq!(report.summary.completed, 2);
}

#[test]
fn failure_after_the_success_of_a_sibling_gives_the_same_results() {
    let tasks = vec![task("a", false, Some("fail-cmd"), None), task("b", false, Some("noop"), None)];
    let mut run = Run::begin(tasks, Mode::Update, stamp());
    run.dispatch(1, &stamp());
    run.dispatch(0, &stamp());
    assert!(run.settle(1, ExecOutcome::Success));
    assert!(run.settle(0, ExecOutcome::Failure("no such program".to_string())));
    let report = run.finish(span()).unwrap();
    assert_eq!(report.results[0].status, Status::Failed);
    assert_eq!(report.results[1].status, Status::Succeeded);
}

#[test]
fn dispatch_hands_out_the_command_of_the_builder() {
    let p = task("alpha", true, Some("-c noop"), None);
    let expected = p.command_for(Mode::Update, &stamp()).unwrap();
    let mut run = Run::begin(vec![p], Mode::Update, stamp());
    match run.dispatch(0, &stamp()) {
        Dispatch::Execute(command) => {
            assert_eq!(command.command, expected.command);
            assert_eq!(command.output_path, expected.output_path);
        }
        other => panic!("unexpected action {other:?}"),
    }
}

#[test]
fn success_with_captured_output_notes_the_file() {
    let mut run = Run::begin(vec![task("alpha", true, Some("noop"), None)], Mode::Update, stamp());
    run.dispatch(0, &stamp());
    run.settle(0, ExecOutcome::Success);
    let report = run.finish(span()).unwrap();
    let path = "/tmp/up_tmp/up_output_alpha_05092015_235604_026490.txt";
    assert_eq!(report.results[0].output_path.as_deref(), Some(path));
    assert_eq!(report.results[0].messages, vec![format!("output at {path}")]);
}

#[test]
fn failure_with_captured_output_keeps_the_path_and_notes_the_error() {
    let mut run = Run::begin(vec![task("alpha", true, Some("noop"), None)], Mode::Update, stamp());
    run.dispatch(0, &stamp());
    run.settle(0, ExecOutcome::Failure("boom".to_string()));
    let report = run.finish(span()).unwrap();
    assert!(report.results[0].output_path.is_some());
    assert_eq!(report.results[0].messages, vec!["boom".to_string()]);
    assert_eq!(report.results[0].status, Status::Failed);
}

#[test]
fn dispatch_is_rejected_for_unknown_and_for_dispatched_tasks() {
    let mut run = Run::begin(vec![task("alpha", false, Some("noop"), None)], Mode::Update, stamp());
    assert!(matches!(run.dispatch(1, &stamp()), Dispatch::Rejected));
    assert!(matches!(run.dispatch(0, &stamp()), Dispatch::Execute(_)));
    assert!(matches!(run.dispatch(0, &stamp()), Dispatch::Rejected));
    run.settle(0, ExecOutcome::Success);
    assert!(matches!(run.dispatch(0, &stamp()), Dispatch::Rejected));
    assert_eq!(run.progress().completed(), 1);
}

#[test]
fn settle_is_refused_unless_the_task_is_running() {
    let tasks = vec![task("a", false, Some("noop"), None), task("b", false, None, None)];
    let mut run = Run::begin(tasks, Mode::Update, stamp());
    assert!(!run.settle(0, ExecOutcome::Success));
    assert!(!run.settle(5, ExecOutcome::Success));
    run.dispatch(1, &stamp());
    assert!(!run.settle(1, ExecOutcome::Success));
    run.dispatch(0, &stamp());
    assert!(run.settle(0, ExecOutcome::Success));
    assert!(!run.settle(0, ExecOutcome::Failure("late".to_string())));
    assert_eq!(run.progress().completed(), 2);
    let report = run.finish(span()).unwrap();
    assert_eq!(report.results[0].status, Status::Succeeded);
}

#[test]
fn completed_counter_only_grows() {
    let tasks = vec![
        task("a", false, Some("noop"), None),
        task("b", false, None, None),
        task("c", false, Some("noop"), None),
    ];
    let mut run = Run::begin(tasks, Mode::Update, stamp());
    let mut seen = vec![run.progress().completed()];
    run.dispatch(0, &stamp());
    seen.push(run.progress().completed());
    run.dispatch(1, &stamp());
    seen.push(run.progress().completed());
    run.dispatch(2, &stamp());
    seen.push(run.progress().completed());
    run.settle(2, ExecOutcome::Failure("x".to_string()));
    seen.push(run.progress().completed());
    run.settle(2, ExecOutcome::Success);
    seen.push(run.progress().completed());
    run.settle(0, ExecOutcome::Success);
    seen.push(run.progress().completed());
    assert_eq!(seen, vec![0, 0, 1, 1, 2, 2, 3]);
}

#[test]
fn progress_lines_follow_the_tasks() {
    let tasks = vec![task("alpha", false, Some("noop"), None), task("beta", false, None, None)];
    let mut run = Run::begin(tasks, Mode::Update, stamp());
    assert_eq!(run.task_count(), 2);
    assert_eq!(run.mode(), Mode::Update);
    assert_eq!(run.tasks()[1].name, "beta");
    assert_eq!(run.progress().total(), 2);
    assert!(!run.progress().lines()[0].started);
    run.dispatch(0, &stamp());
    run.dispatch(1, &stamp());
    {
        let lines = run.progress().lines();
        assert_eq!(lines[0].symbol, "A");
        assert_eq!(lines[0].name, "alpha");
        assert!(lines[0].started);
        assert_eq!(lines[0].phase_text, "updating");
        assert_eq!(lines[0].final_message, None);
        assert_eq!(lines[1].name, "beta");
        assert_eq!(
            lines[1].final_message.as_deref(),
            Some("done    \t|  no update command found")
        );
    }
    run.settle(0, ExecOutcome::Success);
    assert_eq!(run.progress().lines()[0].final_message.as_deref(), Some("done"));
}

#[test]
fn progress_line_of_a_failed_task_says_so() {
    let mut run = Run::begin(vec![task("alpha", false, None, Some("st"))], Mode::Info, stamp());
    run.dispatch(0, &stamp());
    assert_eq!(run.progress().lines()[0].phase_text, "collecting info");
    run.settle(0, ExecOutcome::Failure("no such program".to_string()));
    assert_eq!(
        run.progress().lines()[0].final_message.as_deref(),
        Some("failed    \t|  no such program")
    );
}

#[test]
fn notes_of_the_descriptor_come_first_in_the_result() {
    let mut p = task("alpha", false, None, None);
    p.msg.push("first".to_string());
    p.msg.push("second".to_string());
    let r = RunResult::skipped(&p, Mode::Update);
    assert_eq!(r.messages, vec!["first", "second", "no update command found"]);
    let s = RunResult::settled(&p, Some("/x".to_string()), ExecOutcome::Success);
    assert_eq!(s.messages, vec!["first", "second", "output at /x"]);
    assert_eq!(s.status, Status::Succeeded);
    let f = RunResult::settled(&p, None, ExecOutcome::Failure("bad".to_string()));
    assert_eq!(f.messages, vec!["first", "second", "bad"]);
    assert_eq!(f.status, Status::Failed);
    assert_eq!(f.name, "alpha");
    assert_eq!(f.symbol, "A");
}

#[test]
fn closing_message_is_done_or_failed_with_the_notes() {
    assert_eq!(closing_message(Status::Succeeded, &vec![]), "done");
    assert_eq!(closing_message(Status::SkippedNoCommand, &vec![]), "done");
    assert_eq!(closing_message(Status::Failed, &vec![]), "failed");
    assert_eq!(closing_message(Status::Succeeded, &vec!["a".to_string()]), "done    \t|  a");
    assert_eq!(
        closing_message(Status::Failed, &vec!["a".to_string(), "b c".to_string(), "d".to_string()]),
        "failed    \t|  a b c d"
    );
}

#[test]
fn only_exit_code_zero_is_a_success() {
    assert!(matches!(outcome_of_exit(Some(0), "ok".to_string()), ExecOutcome::Success));
    for code in [Some(1), Some(-1), Some(255), Some(i32::MIN), Some(i32::MAX), None] {
        match outcome_of_exit(code, "why".to_string()) {
            ExecOutcome::Failure(text) => assert_eq!(text, "why"),
            ExecOutcome::Success => panic!("{code:?} counted as success"),
        }
    }
}

#[test]
fn phase_words_name_the_work() {
    assert_eq!(phase_word(Mode::Update), "updating");
    assert_eq!(phase_word(Mode::Info), "collecting info");
}

#[test]
fn closing_line_tells_the_time_in_words() {
    let summary = RunSummary { total: 1, completed: 1, started: stamp(), elapsed: span() };
    assert_eq!(summary.closing_line(), "all done in 3 seconds");
    assert_eq!(closing_line_for("2 minutes"), "all done in 2 minutes");
}

#[test]
fn elapsed_in_words_rounds_and_picks_a_unit() {
    assert_eq!(Elapsed::new(0, 0).unwrap().in_words(), "0 seconds");
    assert_eq!(Elapsed::new(1, 0).unwrap().in_words(), "1 second");
    assert_eq!(Elapsed::new(0, 999_000_000).unwrap().in_words(), "1 second");
    assert_eq!(Elapsed::new(120, 0).unwrap().in_words(), "2 minutes");
    assert_eq!(Elapsed::new(7200, 0).unwrap().in_words(), "2 hours");
    assert_eq!(Elapsed::new(u64::MAX, 999_999_999).unwrap().in_words().ends_with("years"), true);
}

#[test]
fn elapsed_keeps_nanoseconds_below_one_second() {
    assert_eq!(Elapsed::new(5, 999_999_999), Some(Elapsed { secs: 5, nanos: 999_999_999 }));
    assert_eq!(Elapsed::new(5, 1_000_000_000), None);
}

#[test]
fn answers_are_yes_or_no_in_full_or_by_initial() {
    assert_eq!(interpret_answer("yes"), Some(true));
    assert_eq!(interpret_answer("y"), Some(true));
    assert_eq!(interpret_answer("no"), Some(false));
    assert_eq!(interpret_answer("n"), Some(false));
    assert_eq!(interpret_answer(""), None);
    assert_eq!(interpret_answer("yes "), None);
    assert_eq!(interpret_answer("YES"), None);
    assert_eq!(interpret_answer("nope"), None);
}

#[test]
fn answers_are_read_without_regard_to_case_and_white_space() {
    assert_eq!(read_answer("yes\n"), Some(true));
    assert_eq!(read_answer("  Y \r\n"), Some(true));
    assert_eq!(read_answer("\tNO"), Some(false));
    assert_eq!(read_answer("n"), Some(false));
    assert_eq!(read_answer("YeS"), Some(true));
    assert_eq!(read_answer("\n"), None);
    assert_eq!(read_answer("y e s"), None);
    assert_eq!(read_answer("maybe"), None);
}
