//! The runner: what happens to each task of a run, step by step.
//!
//! A [`Run`] holds the tasks of one run and a slot per task. The caller asks
//! [`Run::dispatch`] what to do for a task, performs the command if there is
//! one, and hands what the process did to [`Run::settle`]. Tasks never touch
//! each other's slot, so they can be worked on in any order and at the same
//! time; [`Run::finish`] yields the report once every task has reached its end.

use vstd::prelude::*;
use vstd::string::StringExecFns;

use crate::programs::CommandView;
use crate::programs::MaterializedCommand;
use crate::programs::Mode;
use crate::programs::Program;
use crate::programs::ProgramView;
use crate::progress::lemma_complete_iff_all_done;
use crate::progress::lemma_done_count_bound;
use crate::progress::lemma_done_counts_once;
use crate::progress::lemma_register_wf;
use crate::progress::lemma_start_and_progress_keep_count;
use crate::progress::LineView;
use crate::progress::Progress;
use crate::progress::ProgressView;
use crate::text::copy_opt;
use crate::text::join;
use crate::text::joined;
use crate::text::lowercase_text;
use crate::text::lowercased;
use crate::text::opt_text;
use crate::text::same_text;
use crate::text::texts;
use crate::text::trim_text;
use crate::text::trimmed;
use crate::timestamp::Timestamp;

verus! {

/// How a task ended.
#[derive(Clone, Copy, Debug, PartialEq, Eq, Structural)]
pub enum Status {
    /// The command ran and reported success.
    Succeeded,
    /// The program has no command for the mode; nothing was run.
    SkippedNoCommand,
    /// The command could not be run or reported failure.
    Failed,
}

/// What the process executor reports of one command.
#[derive(Clone, Debug)]
pub enum ExecOutcome {
    Success,
    /// The process did not start or ended in failure; the text says why.
    Failure(String),
}

/// An [`ExecOutcome`] as plain text.
pub enum OutcomeView {
    Success,
    Failure(Seq<char>),
}

impl View for ExecOutcome {
    type V = OutcomeView;

    open spec fn view(&self) -> OutcomeView {
        match self {
            ExecOutcome::Success => OutcomeView::Success,
            ExecOutcome::Failure(error) => OutcomeView::Failure(error@),
        }
    }
}

/// The record of one task within one run.
#[derive(Clone, Debug)]
pub struct RunResult {
    pub name: String,
    pub symbol: String,
    pub status: Status,
    pub output_path: Option<String>,
    pub messages: Vec<String>,
}

/// A [`RunResult`] as plain texts.
pub struct ResultView {
    pub name: Seq<char>,
    pub symbol: Seq<char>,
    pub status: Status,
    pub output_path: Option<Seq<char>>,
    pub messages: Seq<Seq<char>>,
}

impl View for RunResult {
    type V = ResultView;

    open spec fn view(&self) -> ResultView {
        ResultView {
            name: self.name@,
            symbol: self.symbol@,
            status: self.status,
            output_path: opt_text(self.output_path),
            messages: texts(self.messages@),
        }
    }
}

/// Where a task stands.
#[derive(Clone, Debug)]
pub enum Slot {
    /// Not dispatched yet.
    Pending,
    /// Its command was handed out; the path is that of its output file.
    Running(Option<String>),
    /// It has reached its end.
    Done(RunResult),
}

/// A [`Slot`] as plain texts.
pub enum SlotView {
    Pending,
    Running(Option<Seq<char>>),
    Done(ResultView),
}

impl View for Slot {
    type V = SlotView;

    open spec fn view(&self) -> SlotView {
        match self {
            Slot::Pending => SlotView::Pending,
            Slot::Running(path) => SlotView::Running(opt_text(*path)),
            Slot::Done(result) => SlotView::Done(result@),
        }
    }
}

/// What [`Run::dispatch`] tells the caller to do.
#[derive(Clone, Debug)]
pub enum Dispatch {
    /// Run this command and report what it did to [`Run::settle`].
    Execute(MaterializedCommand),
    /// The task had no command and is done already.
    Skipped,
    /// No such task, or the task was dispatched before; nothing changed.
    Rejected,
}

/// A [`Dispatch`] as plain texts.
pub enum DispatchView {
    Execute(CommandView),
    Skipped,
    Rejected,
}

impl View for Dispatch {
    type V = DispatchView;

    open spec fn view(&self) -> DispatchView {
        match self {
            Dispatch::Execute(command) => DispatchView::Execute(command@),
            Dispatch::Skipped => DispatchView::Skipped,
            Dispatch::Rejected => DispatchView::Rejected,
        }
    }
}

/// A span of time: whole seconds and the nanoseconds beyond them.
#[derive(Clone, Copy, Debug, PartialEq, Eq, Structural)]
pub struct Elapsed {
    pub secs: u64,
    pub nanos: u32,
}

/// The counters and times of a finished run.
#[derive(Clone, Copy, Debug, PartialEq, Eq, Structural)]
pub struct RunSummary {
    pub total: usize,
    pub completed: usize,
    pub started: Timestamp,
    pub elapsed: Elapsed,
}

/// What a finished run hands back: the summary and one result per task, in
/// the order of the tasks.
#[derive(Clone, Debug)]
pub struct RunReport {
    pub summary: RunSummary,
    pub results: Vec<RunResult>,
}

/// One run over a list of tasks.
#[derive(Debug)]
pub struct Run {
    mode: Mode,
    tasks: Vec<Program>,
    slots: Vec<Slot>,
    progress: Progress,
    started: Timestamp,
}

/// A [`Run`] as plain values.
pub struct RunView {
    pub mode: Mode,
    pub tasks: Seq<ProgramView>,
    pub slots: Seq<SlotView>,
    pub progress: ProgressView,
    pub started: Timestamp,
}

/// The views of a list of programs, in order.
pub open spec fn program_views(tasks: Seq<Program>) -> Seq<ProgramView> {
    Seq::new(tasks.len(), |i: int| tasks[i]@)
}

/// The views of a list of slots, in order.
pub open spec fn slot_views(slots: Seq<Slot>) -> Seq<SlotView> {
    Seq::new(slots.len(), |i: int| slots[i]@)
}

/// The views of a list of results, in order.
pub open spec fn result_views(results: Seq<RunResult>) -> Seq<ResultView> {
    Seq::new(results.len(), |i: int| results[i]@)
}

impl View for Run {
    type V = RunView;

    closed spec fn view(&self) -> RunView {
        RunView {
            mode: self.mode,
            tasks: program_views(self.tasks@),
            slots: slot_views(self.slots@),
            progress: self.progress@,
            started: self.started,
        }
    }
}

/// The note that a task without a command for `mode` gets.
pub open spec fn missing_text(mode: Mode) -> Seq<char> {
    match mode {
        Mode::Update => "no update command found"@,
        Mode::Info => "no info command found"@,
    }
}

/// What a task is doing while its command of `mode` runs.
pub open spec fn phase_text(mode: Mode) -> Seq<char> {
    match mode {
        Mode::Update => "updating"@,
        Mode::Info => "collecting info"@,
    }
}

/// The note that tells where the output of a command went.
pub open spec fn output_note(path: Seq<char>) -> Seq<char> {
    "output at "@ + path
}

/// The closing message of a task's line: `done`, or `failed` for a failed
/// task, followed by the notes of the task if it has any.
pub open spec fn closing_text(status: Status, messages: Seq<Seq<char>>) -> Seq<char> {
    let head = if status == Status::Failed {
        "failed"@
    } else {
        "done"@
    };
    if messages.len() == 0 {
        head
    } else {
        head + "    \t|  "@ + joined(messages, " "@)
    }
}

/// The result of a task that has no command for the mode.
pub open spec fn skipped_result(task: ProgramView, mode: Mode) -> ResultView {
    ResultView {
        name: task.name,
        symbol: task.symbol,
        status: Status::SkippedNoCommand,
        output_path: None,
        messages: task.msg.push(missing_text(mode)),
    }
}

/// The result of a task whose command was run: succeeded, with a note on the
/// output file if there is one, or failed, with the error as a note.
pub open spec fn settled_result(task: ProgramView, path: Option<Seq<char>>, outcome: OutcomeView)
    -> ResultView {
    match outcome {
        OutcomeView::Success => ResultView {
            name: task.name,
            symbol: task.symbol,
            status: Status::Succeeded,
            output_path: path,
            messages: match path {
                Some(p) => task.msg.push(output_note(p)),
                None => task.msg,
            },
        },
        OutcomeView::Failure(error) => ResultView {
            name: task.name,
            symbol: task.symbol,
            status: Status::Failed,
            output_path: path,
            messages: task.msg.push(error),
        },
    }
}

/// What the executor's report of an exit means: only the exit code 0 is a
/// success; any other code, or none, is a failure described by `description`.
pub open spec fn exit_outcome(code: Option<i32>, description: Seq<char>) -> OutcomeView {
    if code == Some(0i32) {
        OutcomeView::Success
    } else {
        OutcomeView::Failure(description)
    }
}

/// The text that `indicatif::HumanDuration` shows for a span of `secs`
/// seconds and `nanos` nanoseconds, such as `3 seconds` or `2 minutes`.
pub uninterp spec fn human_duration_text(secs: u64, nanos: u32) -> Seq<char>;

/// The last line of a run, given the span of the run in words.
pub open spec fn closing_line_text(human: Seq<char>) -> Seq<char> {
    "all done in "@ + human
}

/// What an answer to a yes-or-no question means, if it is one: `yes` or `y`,
/// `no` or `n`.
pub open spec fn answer_meaning(word: Seq<char>) -> Option<bool> {
    if word == "yes"@ || word == "y"@ {
        Some(true)
    } else if word == "no"@ || word == "n"@ {
        Some(false)
    } else {
        None
    }
}

/// Whether `result` is what the runner records for `task` in `mode`: skipped
/// exactly where the task has no command for the mode, and otherwise the
/// record of a success or of a failure, with an output path exactly where the
/// task captures its output.
pub open spec fn result_fits(task: ProgramView, mode: Mode, result: ResultView) -> bool {
    match result.status {
        Status::SkippedNoCommand => {
            &&& task.template(mode) is None
            &&& result == skipped_result(task, mode)
        },
        Status::Succeeded => {
            &&& task.template(mode) is Some
            &&& (result.output_path is Some <==> task.has_output)
            &&& result == settled_result(task, result.output_path, OutcomeView::Success)
        },
        Status::Failed => {
            &&& task.template(mode) is Some
            &&& (result.output_path is Some <==> task.has_output)
            &&& result == settled_result(
                task,
                result.output_path,
                OutcomeView::Failure(result.messages.last()),
            )
        },
    }
}

/// Whether a slot agrees with its task and with the line of its task.
pub open spec fn slot_fits(task: ProgramView, mode: Mode, slot: SlotView, line: LineView) -> bool {
    match slot {
        SlotView::Pending => !line.started && !line.done(),
        SlotView::Running(path) => {
            &&& line.started && !line.done()
            &&& line.symbol == task.symbol && line.name == task.name
            &&& task.template(mode) is Some
            &&& (path is Some <==> task.has_output)
        },
        SlotView::Done(result) => {
            &&& line.started
            &&& line.symbol == task.symbol && line.name == task.name
            &&& line.final_message == Some(closing_text(result.status, result.messages))
            &&& result_fits(task, mode, result)
        },
    }
}

impl RunView {
    /// One slot and one line per task, and each slot agrees with its task
    /// and its line.
    pub open spec fn wf(self) -> bool {
        &&& self.slots.len() == self.tasks.len()
        &&& self.progress.wf()
        &&& self.progress.registered
        &&& self.progress.total == self.tasks.len()
        &&& forall|i: int|
            0 <= i < self.slots.len() ==> slot_fits(
                self.tasks[i],
                self.mode,
                #[trigger] self.slots[i],
                self.progress.lines[i],
            )
    }

    /// A run at its start: every task pending, nothing completed.
    pub open spec fn begin(tasks: Seq<ProgramView>, mode: Mode, started: Timestamp) -> RunView {
        RunView {
            mode,
            tasks,
            slots: Seq::new(tasks.len(), |i: int| SlotView::Pending),
            progress: ProgressView::initial().after_register(tasks.len()),
            started,
        }
    }

    /// Whether task `id` can be dispatched: it exists and is pending.
    pub open spec fn can_dispatch(self, id: nat) -> bool {
        id < self.slots.len() && self.slots[id as int] is Pending
    }

    /// What the caller is told when task `id` is dispatched at `stamp`.
    pub open spec fn dispatch_action(self, id: nat, stamp: Timestamp) -> DispatchView {
        if !self.can_dispatch(id) {
            DispatchView::Rejected
        } else {
            match self.tasks[id as int].command(self.mode, stamp) {
                None => DispatchView::Skipped,
                Some(command) => DispatchView::Execute(command),
            }
        }
    }

    /// The run after task `id` was dispatched at `stamp`. A task without a
    /// command for the mode is done at once, as skipped, and counts as
    /// completed; a task with a command is running.
    pub open spec fn dispatched(self, id: nat, stamp: Timestamp) -> RunView {
        if !self.can_dispatch(id) {
            self
        } else {
            let task = self.tasks[id as int];
            let shown = self.progress.after_start(id, task.symbol, task.name).after_progress(
                id,
                phase_text(self.mode),
            );
            match task.command(self.mode, stamp) {
                None => {
                    let result = skipped_result(task, self.mode);
                    RunView {
                        slots: self.slots.update(id as int, SlotView::Done(result)),
                        progress: shown.after_done(
                            id,
                            closing_text(result.status, result.messages),
                        ),
                        ..self
                    }
                },
                Some(command) => RunView {
                    slots: self.slots.update(id as int, SlotView::Running(command.output_path)),
                    progress: shown,
                    ..self
                },
            }
        }
    }

    /// Whether a report on task `id` can be taken: it exists and is running.
    pub open spec fn can_settle(self, id: nat) -> bool {
        id < self.slots.len() && self.slots[id as int] is Running
    }

    /// The run after the executor reported `outcome` for task `id`: the task
    /// is done and counts as completed. No other task is touched.
    pub open spec fn settled(self, id: nat, outcome: OutcomeView) -> RunView {
        if !self.can_settle(id) {
            self
        } else {
            let result = settled_result(
                self.tasks[id as int],
                self.slots[id as int]->Running_0,
                outcome,
            );
            RunView {
                slots: self.slots.update(id as int, SlotView::Done(result)),
                progress: self.progress.after_done(
                    id,
                    closing_text(result.status, result.messages),
                ),
                ..self
            }
        }
    }

    /// Whether every task has reached its end.
    pub open spec fn all_terminal(self) -> bool {
        forall|i: int| 0 <= i < self.slots.len() ==> (#[trigger] self.slots[i]) is Done
    }

    /// The results of the tasks, in the order of the tasks.
    pub open spec fn results(self) -> Seq<ResultView> {
        Seq::new(self.slots.len(), |i: int| self.slots[i]->Done_0)
    }

    /// The summary of the run, `elapsed` after its start.
    pub open spec fn summary(self, elapsed: Elapsed) -> RunSummary {
        RunSummary {
            total: self.progress.total as usize,
            completed: self.progress.completed as usize,
            started: self.started,
            elapsed,
        }
    }
}

/// A run at its start is consistent.
pub proof fn lemma_begin_wf(tasks: Seq<ProgramView>, mode: Mode, started: Timestamp)
    ensures
        RunView::begin(tasks, mode, started).wf(),
        RunView::begin(tasks, mode, started).progress.completed == 0,
        RunView::begin(tasks, mode, started).progress.total == tasks.len(),
{
    lemma_register_wf(ProgressView::initial(), tasks.len());
}

/// Dispatching a task keeps the run consistent, never lowers the counter of
/// completed tasks, and touches no other task.
pub proof fn lemma_dispatch_keeps_wf(run: RunView, id: nat, stamp: Timestamp)
    requires
        run.wf(),
    ensures
        run.dispatched(id, stamp).wf(),
        run.dispatched(id, stamp).tasks == run.tasks,
        run.dispatched(id, stamp).progress.completed >= run.progress.completed,
        forall|j: int|
            0 <= j < run.slots.len() && j != id ==> run.dispatched(id, stamp).slots[j]
                == run.slots[j],
{
    if run.can_dispatch(id) {
        let task = run.tasks[id as int];
        let labelled = run.progress.after_start(id, task.symbol, task.name);
        let shown = labelled.after_progress(id, phase_text(run.mode));
        lemma_start_and_progress_keep_count(
            run.progress,
            id,
            task.symbol,
            task.name,
            Seq::empty(),
        );
        lemma_start_and_progress_keep_count(
            labelled,
            id,
            Seq::empty(),
            Seq::empty(),
            phase_text(run.mode),
        );
        if task.command(run.mode, stamp) is None {
            let result = skipped_result(task, run.mode);
            lemma_done_counts_once(shown, id, closing_text(result.status, result.messages));
        }
        let next = run.dispatched(id, stamp);
        assert forall|i: int| 0 <= i < next.slots.len() implies slot_fits(
            next.tasks[i],
            next.mode,
            #[trigger] next.slots[i],
            next.progress.lines[i],
        ) by {}
    }
}

/// Taking a report keeps the run consistent, raises the counter of completed
/// tasks by exactly one where the report is accepted, and touches no other
/// task.
pub proof fn lemma_settle_keeps_wf(run: RunView, id: nat, outcome: OutcomeView)
    requires
        run.wf(),
    ensures
        run.settled(id, outcome).wf(),
        run.settled(id, outcome).tasks == run.tasks,
        run.can_settle(id) ==> run.settled(id, outcome).progress.completed
            == run.progress.completed + 1,
        !run.can_settle(id) ==> run.settled(id, outcome) == run,
        forall|j: int|
            0 <= j < run.slots.len() && j != id ==> run.settled(id, outcome).slots[j]
                == run.slots[j],
{
    if run.can_settle(id) {
        let result = settled_result(run.tasks[id as int], run.slots[id as int]->Running_0, outcome);
        lemma_done_counts_once(run.progress, id, closing_text(result.status, result.messages));
        let next = run.settled(id, outcome);
        assert forall|i: int| 0 <= i < next.slots.len() implies slot_fits(
            next.tasks[i],
            next.mode,
            #[trigger] next.slots[i],
            next.progress.lines[i],
        ) by {}
    }
}

/// A task that has no update command, dispatched in update mode, ends as
/// skipped with the note that says so, and the counter of completed tasks
/// grows by exactly one.
pub proof fn lemma_missing_update_command_is_skipped(run: RunView, id: nat, stamp: Timestamp)
    requires
        run.wf(),
        run.can_dispatch(id),
        run.mode == Mode::Update,
        run.tasks[id as int].update_cmd is None,
    ensures
        run.dispatch_action(id, stamp) == DispatchView::Skipped,
        run.dispatched(id, stamp).slots[id as int] is Done,
        run.dispatched(id, stamp).slots[id as int]->Done_0.status == Status::SkippedNoCommand,
        run.dispatched(id, stamp).slots[id as int]->Done_0.messages.last()
            == "no update command found"@,
        run.dispatched(id, stamp).progress.completed == run.progress.completed + 1,
        run.dispatched(id, stamp).wf(),
{
    lemma_missing_command_is_skipped(run, id, stamp);
}

/// In either mode, a task without a command for the mode ends as skipped
/// when it is dispatched, and counts as completed.
pub proof fn lemma_missing_command_is_skipped(run: RunView, id: nat, stamp: Timestamp)
    requires
        run.wf(),
        run.can_dispatch(id),
        run.tasks[id as int].template(run.mode) is None,
    ensures
        run.dispatch_action(id, stamp) == DispatchView::Skipped,
        run.dispatched(id, stamp).slots[id as int] == SlotView::Done(
            skipped_result(run.tasks[id as int], run.mode),
        ),
        run.dispatched(id, stamp).progress.completed == run.progress.completed + 1,
        run.dispatched(id, stamp).wf(),
{
    let task = run.tasks[id as int];
    let labelled = run.progress.after_start(id, task.symbol, task.name);
    let shown = labelled.after_progress(id, phase_text(run.mode));
    lemma_start_and_progress_keep_count(run.progress, id, task.symbol, task.name, Seq::empty());
    lemma_start_and_progress_keep_count(
        labelled,
        id,
        Seq::empty(),
        Seq::empty(),
        phase_text(run.mode),
    );
    let result = skipped_result(task, run.mode);
    lemma_done_counts_once(shown, id, closing_text(result.status, result.messages));
    lemma_dispatch_keeps_wf(run, id, stamp);
}

/// Every task reaches its end in at most two steps, whatever its command
/// does: once it is dispatched and the executor's report is taken, it is
/// done, and it counts as completed exactly once.
pub proof fn lemma_task_ends_after_dispatch_and_report(
    run: RunView,
    id: nat,
    stamp: Timestamp,
    outcome: OutcomeView,
)
    requires
        run.wf(),
        run.can_dispatch(id),
    ensures
        run.dispatched(id, stamp).settled(id, outcome).slots[id as int] is Done,
        run.dispatched(id, stamp).settled(id, outcome).progress.completed == run.progress.completed
            + 1,
        run.dispatched(id, stamp).settled(id, outcome).wf(),
{
    lemma_dispatch_keeps_wf(run, id, stamp);
    lemma_settle_keeps_wf(run.dispatched(id, stamp), id, outcome);
    if run.tasks[id as int].template(run.mode) is None {
        lemma_missing_command_is_skipped(run, id, stamp);
    } else {
        let task = run.tasks[id as int];
        lemma_start_and_progress_keep_count(
            run.progress,
            id,
            task.symbol,
            task.name,
            Seq::empty(),
        );
        lemma_start_and_progress_keep_count(
            run.progress.after_start(id, task.symbol, task.name),
            id,
            Seq::empty(),
            Seq::empty(),
            phase_text(run.mode),
        );
    }
}

/// The counter of completed tasks has reached the number of tasks exactly
/// when every task has reached its end; the results are then one per task.
pub proof fn lemma_complete_iff_all_terminal(run: RunView)
    requires
        run.wf(),
    ensures
        run.progress.is_complete() <==> run.all_terminal(),
        run.progress.is_complete() ==> run.progress.completed == run.tasks.len(),
        run.results().len() == run.tasks.len(),
        run.progress.completed <= run.tasks.len(),
{
    lemma_complete_iff_all_done(run.progress);
    lemma_done_count_bound(run.progress.lines);
    if run.progress.all_done() {
        assert forall|i: int| 0 <= i < run.slots.len() implies (#[trigger] run.slots[i])
            is Done by {}
    }
    if run.all_terminal() {
        assert forall|i: int| 0 <= i < run.progress.lines.len() implies (
        #[trigger] run.progress.lines[i]).done() by {
            assert(slot_fits(run.tasks[i], run.mode, run.slots[i], run.progress.lines[i]));
        }
    }
}

/// In a consistent run whose tasks have all reached their end, the result of
/// each task bears the name and the symbol of that task and is what the
/// runner records for it; a task is reported as skipped exactly where it has
/// no command for the mode of the run.
pub proof fn lemma_results_fit_tasks(run: RunView)
    requires
        run.wf(),
        run.all_terminal(),
    ensures
        run.results().len() == run.tasks.len(),
        forall|i: int|
            0 <= i < run.tasks.len() ==> {
                let result = #[trigger] run.results()[i];
                &&& result_fits(run.tasks[i], run.mode, result)
                &&& result.name == run.tasks[i].name
                &&& result.symbol == run.tasks[i].symbol
                &&& (result.status == Status::SkippedNoCommand <==> run.tasks[i].template(run.mode)
                    is None)
            },
{
    assert forall|i: int| 0 <= i < run.tasks.len() implies {
        let result = #[trigger] run.results()[i];
        &&& result_fits(run.tasks[i], run.mode, result)
        &&& result.name == run.tasks[i].name
        &&& result.symbol == run.tasks[i].symbol
        &&& (result.status == Status::SkippedNoCommand <==> run.tasks[i].template(run.mode)
            is None)
    } by {
        assert(run.slots[i] is Done);
    }
}

/// A failure stays with its task. Of two running tasks, let one fail and the
/// other succeed, in either order: the first ends as failed with the error
/// among its notes, the second as succeeded, and both count as completed.
pub proof fn lemma_failure_is_isolated(run: RunView, a: nat, b: nat, error: Seq<char>)
    requires
        run.wf(),
        a != b,
        run.can_settle(a),
        run.can_settle(b),
    ensures
        ({
            let fail_first = run.settled(a, OutcomeView::Failure(error)).settled(
                b,
                OutcomeView::Success,
            );
            let fail_last = run.settled(b, OutcomeView::Success).settled(
                a,
                OutcomeView::Failure(error),
            );
            &&& fail_first.slots == fail_last.slots
            &&& fail_first.slots[a as int] is Done
            &&& fail_first.slots[a as int]->Done_0.status == Status::Failed
            &&& fail_first.slots[a as int]->Done_0.messages.last() == error
            &&& fail_first.slots[b as int] is Done
            &&& fail_first.slots[b as int]->Done_0.status == Status::Succeeded
            &&& fail_first.slots[b as int] == run.settled(b, OutcomeView::Success).slots[b as int]
            &&& fail_first.progress.completed == run.progress.completed + 2
            &&& fail_last.progress.completed == run.progress.completed + 2
            &&& fail_first.wf()
            &&& fail_last.wf()
        }),
{
    let failure = OutcomeView::Failure(error);
    lemma_settle_keeps_wf(run, a, failure);
    lemma_settle_keeps_wf(run, b, OutcomeView::Success);
    lemma_settle_keeps_wf(run.settled(a, failure), b, OutcomeView::Success);
    lemma_settle_keeps_wf(run.settled(b, OutcomeView::Success), a, failure);
}

/// Puts a span of time in words through the `Display` of
/// `indicatif::HumanDuration`, over a `std::time::Duration` of `secs` seconds
/// and `nanos` nanoseconds. The wording is indicatif's; the result is only
/// given its name.
#[verifier::external_body]
fn human_duration(secs: u64, nanos: u32) -> (text: String)
    requires
        nanos < 1_000_000_000,
    ensures
        text@ == human_duration_text(secs, nanos),
{
    indicatif::HumanDuration(std::time::Duration::new(secs, nanos)).to_string()
}

/// The last line of a run, given the span of the run in words.
pub fn closing_line_for(human: &str) -> (line: String)
    ensures
        line@ == closing_line_text(human@),
{
    let mut line = String::from_str("all done in ");
    line.append(human);
    line
}

/// What a word means as an answer to a yes-or-no question.
pub fn interpret_answer(word: &str) -> (r: Option<bool>)
    ensures
        r == answer_meaning(word@),
{
    if same_text(word, "yes") || same_text(word, "y") {
        Some(true)
    } else if same_text(word, "no") || same_text(word, "n") {
        Some(false)
    } else {
        None
    }
}

/// Reads the answer to a yes-or-no question from a line of input: white
/// space around it and the case of its letters do not count. `None` asks for
/// the question to be put again.
pub fn read_answer(input: &str) -> (r: Option<bool>)
    ensures
        r == answer_meaning(lowercased(trimmed(input@))),
{
    let stripped = trim_text(input);
    let lowered = lowercase_text(stripped.as_str());
    interpret_answer(lowered.as_str())
}

impl Elapsed {
    /// The nanoseconds stay below one second.
    pub open spec fn wf(&self) -> bool {
        self.nanos < 1_000_000_000
    }

    /// A span of `secs` seconds and `nanos` nanoseconds, if the nanoseconds
    /// stay below one second.
    pub fn new(secs: u64, nanos: u32) -> (r: Option<Elapsed>)
        ensures
            r == if nanos < 1_000_000_000 {
                Some(Elapsed { secs, nanos })
            } else {
                None
            },
    {
        if nanos < 1_000_000_000 {
            Some(Elapsed { secs, nanos })
        } else {
            None
        }
    }

    /// The span in words.
    pub fn in_words(&self) -> (text: String)
        requires
            self.wf(),
        ensures
            text@ == human_duration_text(self.secs, self.nanos),
    {
        human_duration(self.secs, self.nanos)
    }
}

impl RunSummary {
    /// The last line of the run: that all is done, and in what time.
    pub fn closing_line(&self) -> (line: String)
        requires
            self.elapsed.wf(),
        ensures
            line@ == closing_line_text(human_duration_text(self.elapsed.secs, self.elapsed.nanos)),
    {
        let human = self.elapsed.in_words();
        closing_line_for(human.as_str())
    }
}

/// The text of a mode's missing-command note.
fn missing_note(mode: Mode) -> (note: String)
    ensures
        note@ == missing_text(mode),
{
    match mode {
        Mode::Update => String::from_str("no update command found"),
        Mode::Info => String::from_str("no info command found"),
    }
}

/// The text that a task's line shows while its command runs.
pub fn phase_word(mode: Mode) -> (word: &'static str)
    ensures
        word@ == phase_text(mode),
{
    match mode {
        Mode::Update => "updating",
        Mode::Info => "collecting info",
    }
}

/// A copy of a list of strings.
fn copy_texts(list: &Vec<String>) -> (copy: Vec<String>)
    ensures
        texts(copy@) == texts(list@),
{
    let mut copy: Vec<String> = Vec::new();
    let mut i: usize = 0;
    while i < list.len()
        invariant
            i <= list.len(),
            texts(copy@) == texts(list@).take(i as int),
        decreases list.len() - i,
    {
        let ghost before = texts(copy@);
        copy.push(list[i].clone());
        i = i + 1;
        assert(texts(copy@) == before.push(list@[i - 1]@));
    }
    copy
}

/// The closing message of a task's line.
pub fn closing_message(status: Status, messages: &Vec<String>) -> (text: String)
    ensures
        text@ == closing_text(status, texts(messages@)),
{
    let mut text = match status {
        Status::Failed => String::from_str("failed"),
        _ => String::from_str("done"),
    };
    if messages.len() > 0 {
        text.append("    \t|  ");
        let notes = join(messages, " ");
        text.append(notes.as_str());
    }
    text
}

/// Turns the end of a process into an outcome: the exit code 0 is a success,
/// any other code, or none at all, a failure that `description` describes.
pub fn outcome_of_exit(code: Option<i32>, description: String) -> (outcome: ExecOutcome)
    ensures
        outcome@ == exit_outcome(code, description@),
{
    match code {
        Some(0) => ExecOutcome::Success,
        _ => ExecOutcome::Failure(description),
    }
}

impl RunResult {
    /// The result of a task that has no command for the mode.
    pub fn skipped(task: &Program, mode: Mode) -> (result: RunResult)
        ensures
            result@ == skipped_result(task@, mode),
    {
        let mut messages = copy_texts(&task.msg);
        let ghost before = texts(messages@);
        messages.push(missing_note(mode));
        assert(texts(messages@) == before.push(missing_text(mode)));
        RunResult {
            name: task.name.clone(),
            symbol: task.symbol.clone(),
            status: Status::SkippedNoCommand,
            output_path: None,
            messages,
        }
    }

    /// The result of a task whose command was run, with `output_path` the
    /// file that its output went to, if any.
    pub fn settled(task: &Program, output_path: Option<String>, outcome: ExecOutcome) -> (result:
        RunResult)
        ensures
            result@ == settled_result(task@, opt_text(output_path), outcome@),
    {
        let mut messages = copy_texts(&task.msg);
        let ghost before = texts(messages@);
        let status = match outcome {
            ExecOutcome::Success => {
                match &output_path {
                    Some(path) => {
                        let mut note = String::from_str("output at ");
                        note.append(path.as_str());
                        messages.push(note);
                        assert(texts(messages@) == before.push(output_note(path@)));
                    },
                    None => {},
                }
                Status::Succeeded
            },
            ExecOutcome::Failure(error) => {
                messages.push(error);
                assert(texts(messages@) == before.push(error@));
                Status::Failed
            },
        };
        RunResult {
            name: task.name.clone(),
            symbol: task.symbol.clone(),
            status,
            output_path,
            messages,
        }
    }
}

impl Run {
    /// Starts a run over `tasks`: registers their number and leaves every
    /// task pending.
    pub fn begin(tasks: Vec<Program>, mode: Mode, started: Timestamp) -> (run: Run)
        ensures
            run@ == RunView::begin(program_views(tasks@), mode, started),
            run@.wf(),
    {
        proof {
            lemma_begin_wf(program_views(tasks@), mode, started);
        }
        let mut progress = Progress::new();
        progress.register_total(tasks.len());
        let mut slots: Vec<Slot> = Vec::new();
        let mut i: usize = 0;
        while i < tasks.len()
            invariant
                i <= tasks.len(),
                slot_views(slots@) == Seq::new(i as nat, |k: int| SlotView::Pending),
            decreases tasks.len() - i,
        {
            let ghost before = slot_views(slots@);
            slots.push(Slot::Pending);
            i = i + 1;
            assert(slot_views(slots@) == before.push(SlotView::Pending));
        }
        Run { mode, tasks, slots, progress, started }
    }

    /// The mode of the run.
    pub fn mode(&self) -> (mode: Mode)
        ensures
            mode == self@.mode,
    {
        self.mode
    }

    /// Number of tasks of the run.
    pub fn task_count(&self) -> (n: usize)
        ensures
            n == self@.tasks.len(),
    {
        self.tasks.len()
    }

    /// The tasks of the run.
    pub fn tasks(&self) -> (tasks: &Vec<Program>)
        ensures
            program_views(tasks@) == self@.tasks,
    {
        &self.tasks
    }

    /// The progress of the run, for a renderer to read.
    pub fn progress(&self) -> (progress: &Progress)
        ensures
            progress@ == self@.progress,
    {
        &self.progress
    }

    /// Decides what to do for task `id` at the instant `stamp`. A pending
    /// task with a command for the mode starts running and its command is
    /// handed out; one without ends as skipped and counts as completed. Any
    /// other call is rejected and changes nothing.
    pub fn dispatch(&mut self, id: usize, stamp: &Timestamp) -> (action: Dispatch)
        requires
            old(self)@.wf(),
            stamp.wf(),
        ensures
            action@ == old(self)@.dispatch_action(id as nat, *stamp),
            final(self)@ == old(self)@.dispatched(id as nat, *stamp),
            final(self)@.wf(),
            final(self)@.progress.completed >= old(self)@.progress.completed,
    {
        proof {
            lemma_dispatch_keeps_wf(self@, id as nat, *stamp);
        }
        if id >= self.slots.len() {
            return Dispatch::Rejected;
        }
        match &self.slots[id] {
            Slot::Pending => {},
            _ => {
                return Dispatch::Rejected;
            },
        }
        let ghost before = self@;
        let mode = self.mode;
        let task = &self.tasks[id];
        self.progress.on_task_start(id, task.symbol.as_str(), task.name.as_str());
        self.progress.on_task_progress(id, phase_word(mode));
        match self.tasks[id].command_for(mode, stamp) {
            None => {
                let result = RunResult::skipped(&self.tasks[id], mode);
                let closing = closing_message(result.status, &result.messages);
                self.progress.on_task_done(id, closing.as_str());
                self.slots[id] = Slot::Done(result);
                assert(self@.slots == before.dispatched(id as nat, *stamp).slots);
                Dispatch::Skipped
            },
            Some(command) => {
                self.slots[id] = Slot::Running(copy_opt(&command.output_path));
                assert(self@.slots == before.dispatched(id as nat, *stamp).slots);
                Dispatch::Execute(command)
            },
        }
    }

    /// Takes the executor's report for task `id`. A running task ends as
    /// succeeded or failed and counts as completed; no other task is touched.
    /// A report for a task that is not running is refused and changes nothing.
    pub fn settle(&mut self, id: usize, outcome: ExecOutcome) -> (accepted: bool)
        requires
            old(self)@.wf(),
        ensures
            accepted == old(self)@.can_settle(id as nat),
            final(self)@ == old(self)@.settled(id as nat, outcome@),
            final(self)@.wf(),
            final(self)@.progress.completed == old(self)@.progress.completed + if accepted {
                1nat
            } else {
                0nat
            },
    {
        proof {
            lemma_settle_keeps_wf(self@, id as nat, outcome@);
        }
        if id >= self.slots.len() {
            return false;
        }
        let path = match &self.slots[id] {
            Slot::Running(path) => copy_opt(path),
            _ => {
                return false;
            },
        };
        let ghost before = self@;
        let result = RunResult::settled(&self.tasks[id], path, outcome);
        let closing = closing_message(result.status, &result.messages);
        self.progress.on_task_done(id, closing.as_str());
        self.slots[id] = Slot::Done(result);
        assert(self@.slots == before.settled(id as nat, outcome@).slots);
        true
    }

    /// Whether every task has reached its end.
    pub fn is_complete(&self) -> (r: bool)
        requires
            self@.wf(),
        ensures
            r == self@.all_terminal(),
            r == self@.progress.is_complete(),
    {
        proof {
            lemma_complete_iff_all_terminal(self@);
        }
        self.progress.is_complete()
    }

    /// Ends the run. Once every task has reached its end, the report comes
    /// back: one result per task, in the order of the tasks, and a summary
    /// whose completed count is the number of tasks. Before that, the run
    /// comes back as it is.
    pub fn finish(self, elapsed: Elapsed) -> (r: Result<RunReport, Run>)
        requires
            self@.wf(),
        ensures
            r is Ok <==> self@.all_terminal(),
            r matches Ok(report) ==> {
                &&& result_views(report.results@) == self@.results()
                &&& report.results@.len() == self@.tasks.len()
                &&& report.summary == self@.summary(elapsed)
                &&& report.summary.completed == self@.tasks.len()
                &&& report.summary.total == self@.tasks.len()
                &&& forall|i: int|
                    0 <= i < self@.tasks.len() ==> result_fits(
                        self@.tasks[i],
                        self@.mode,
                        #[trigger] result_views(report.results@)[i],
                    )
            },
            r matches Err(run) ==> run@ == self@,
    {
        proof {
            lemma_complete_iff_all_terminal(self@);
        }
        if !self.progress.is_complete() {
            return Err(self);
        }
        let ghost view = self@;
        let summary = RunSummary {
            total: self.progress.total(),
            completed: self.progress.completed(),
            started: self.started,
            elapsed,
        };
        let ghost all = slot_views(self.slots@);
        let mut results: Vec<RunResult> = Vec::new();
        for slot in slots: self.slots
            invariant
                all.len() == slots.seq().len(),
                forall|k: int| 0 <= k < all.len() ==> all[k] == (#[trigger] slots.seq()[k])@,
                forall|k: int| 0 <= k < all.len() ==> (#[trigger] all[k]) is Done,
                result_views(results@) == Seq::new(slots.index() as nat, |k: int| all[k]->Done_0),
        {
            let ghost before = result_views(results@);
            match slot {
                Slot::Done(result) => {
                    results.push(result);
                    assert(result_views(results@) == before.push(
                        all[slots.index() as int]->Done_0,
                    ));
                },
                _ => {
                    assert(false);
                },
            }
        }
        proof {
            lemma_results_fit_tasks(view);
        }
        Ok(RunReport { summary, results })
    }
}

} // verus!
