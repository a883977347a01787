use up::commands::Dispatch;
use up::commands::Elapsed;
use up::commands::ExecOutcome;
use up::commands::RunReport;
use up::commands::Status;
use up::programs::Mode;
use up::programs::Program;
use up::shared::SharedRun;
use up::shared::Worker;
use up::timestamp::Timestamp;

fn stamp() -> Timestamp {
    Timestamp::new(2015, 9, 5, 23, 56, 4, 26_490).unwrap()
}

fn span() -> Elapsed {
    Elapsed::new(1, 5).unwrap()
}

fn task(name: &str, update: Option<&str>) -> Program {
    Program::new(
        name.to_string(),
        None,
        "sh".to_string(),
        false,
        false,
        update.map(|s| s.to_string()),
        None,
        "/tmp/up_tmp",
    )
}

fn shared(tasks: Vec<Program>) -> (SharedRun, Vec<Worker>) {
    SharedRun::begin(tasks, Mode::Update, stamp())
}

fn report(run: SharedRun, workers: Vec<Worker>) -> RunReport {
    match run.finish(workers, span()) {
        Ok(report) => report,
        Err(_) => panic!("the run was not at its end"),
    }
}

fn needs_send_and_sync<T: Send + Sync>(_: &T) {}

fn needs_send<T: Send>(_: &T) {}

#[test]
fn shared_run_can_go_to_other_workers() {
    let (run, workers) = shared(vec![task("alpha", Some("noop"))]);
    needs_send_and_sync(&run);
    needs_send(&workers[0]);
}

#[test]
fn shared_run_gives_each_task_to_a_worker_at_its_place() {
    let (run, workers) = shared(vec![task("alpha", Some("noop")), task("beta", None)]);
    assert_eq!(workers.len(), 2);
    for (i, worker) in workers.iter().enumerate() {
        assert_eq!(worker.id(), i);
        assert!(worker.result().is_none());
    }
    assert_eq!(workers[0].task().name, "alpha");
    assert_eq!(workers[1].task().name, "beta");
    let progress = run.snapshot();
    assert_eq!(progress.total(), 2);
    assert_eq!(progress.completed(), 0);
    assert!(!progress.lines()[0].started);
}

#[test]
fn shared_run_of_no_task_is_at_its_end_at_once() {
    let (run, workers) = shared(vec![]);
    assert!(workers.is_empty());
    let report = report(run, workers);
    assert_eq!(report.summary.total, 0);
    assert_eq!(report.summary.completed, 0);
    assert!(report.results.is_empty());
}

#[test]
fn shared_run_takes_the_steps_of_a_run() {
    let (run, mut workers) =
        shared(vec![task("alpha", Some("noop")), task("beta", None), task("gamma", Some("x"))]);
    match run.dispatch(&mut workers[0], &stamp()) {
        Dispatch::Execute(command) => assert_eq!(command.command, "sh noop;"),
        other => panic!("unexpected action {other:?}"),
    }
    assert!(matches!(run.dispatch(&mut workers[1], &stamp()), Dispatch::Skipped));
    assert!(matches!(run.dispatch(&mut workers[2], &stamp()), Dispatch::Execute(_)));
    assert!(matches!(run.dispatch(&mut workers[2], &stamp()), Dispatch::Rejected));
    assert!(matches!(run.dispatch(&mut workers[1], &stamp()), Dispatch::Rejected));
    assert_eq!(run.snapshot().completed(), 1);
    assert!(run.settle(&mut workers[2], ExecOutcome::Failure("boom".to_string())));
    assert!(!run.settle(&mut workers[2], ExecOutcome::Success));
    assert!(!run.settle(&mut workers[1], ExecOutcome::Success));
    assert!(run.settle(&mut workers[0], ExecOutcome::Success));
    assert_eq!(workers[2].result().unwrap().status, Status::Failed);
    assert_eq!(workers[2].result().unwrap().messages, vec!["boom".to_string()]);
    let snapshot = run.snapshot();
    assert_eq!(snapshot.completed(), 3);
    assert_eq!(snapshot.total(), 3);
    assert!(snapshot.is_complete());
    let report = report(run, workers);
    assert_eq!(report.results[0].status, Status::Succeeded);
    assert_eq!(report.results[1].status, Status::SkippedNoCommand);
    assert_eq!(report.results[1].messages, vec!["no update command found".to_string()]);
    assert_eq!(report.results[2].status, Status::Failed);
    assert_eq!(report.results[2].name, "gamma");
    assert_eq!(report.summary.completed, 3);
    assert_eq!(report.summary.total, 3);
    assert_eq!(report.summary.started, stamp());
    assert_eq!(report.summary.elapsed, span());
}

#[test]
fn shared_run_shows_each_step_in_the_progress() {
    let (run, mut workers) = shared(vec![task("alpha", Some("noop")), task("beta", None)]);
    run.dispatch(&mut workers[0], &stamp());
    run.dispatch(&mut workers[1], &stamp());
    {
        let progress = run.snapshot();
        let lines = progress.lines();
        assert_eq!(lines[0].symbol, "A");
        assert_eq!(lines[0].name, "alpha");
        assert!(lines[0].started);
        assert_eq!(lines[0].phase_text, "updating");
        assert_eq!(lines[0].final_message, None);
        assert_eq!(
            lines[1].final_message.as_deref(),
            Some("done    \t|  no update command found")
        );
    }
    run.settle(&mut workers[0], ExecOutcome::Failure("boom".to_string()));
    let progress = run.snapshot();
    assert_eq!(progress.lines()[0].final_message.as_deref(), Some("failed    \t|  boom"));
    assert_eq!(progress.completed(), 2);
}

#[test]
fn shared_run_keeps_a_failure_with_its_task() {
    let (run, mut workers) = shared(vec![task("a", Some("fail-cmd")), task("b", Some("noop"))]);
    run.dispatch(&mut workers[0], &stamp());
    run.dispatch(&mut workers[1], &stamp());
    assert!(run.settle(&mut workers[0], ExecOutcome::Failure("no such program".to_string())));
    assert!(run.settle(&mut workers[1], ExecOutcome::Success));
    let report = report(run, workers);
    assert_eq!(report.results[0].status, Status::Failed);
    assert_eq!(report.results[1].status, Status::Succeeded);
    assert!(report.results[1].messages.is_empty());
}

#[test]
fn shared_run_reports_only_when_every_task_has_ended() {
    let (run, workers) = shared(vec![task("alpha", Some("noop")), task("beta", None)]);
    let (run, mut workers) = run.finish(workers, span()).err().unwrap();
    run.dispatch(&mut workers[0], &stamp());
    run.dispatch(&mut workers[1], &stamp());
    let (run, mut workers) = run.finish(workers, span()).err().unwrap();
    assert_eq!(run.snapshot().completed(), 1);
    assert!(run.settle(&mut workers[0], ExecOutcome::Success));
    let report = report(run, workers);
    assert_eq!(report.summary.completed, 2);
    assert_eq!(report.results.len(), 2);
}

#[test]
fn shared_run_reports_only_with_every_worker_at_its_place() {
    let (run, mut workers) = shared(vec![task("alpha", None), task("beta", None)]);
    run.dispatch(&mut workers[0], &stamp());
    run.dispatch(&mut workers[1], &stamp());
    let last = workers.pop().unwrap();
    let (run, mut workers) = run.finish(workers, span()).err().unwrap();
    workers.insert(0, last);
    let (run, mut workers) = run.finish(workers, span()).err().unwrap();
    workers.swap(0, 1);
    let report = report(run, workers);
    assert_eq!(report.results[0].name, "alpha");
    assert_eq!(report.results[1].name, "beta");
}
