//! A run whose tasks are worked on at the same time.
//!
//! Each task is in the hands of one [`Worker`], which owns the task and
//! knows where it stands. What the workers share is the progress of the run,
//! behind a lock that admits one of them at a time and holds only consistent
//! progress. A worker holds the lock for one step, never while its command
//! runs, and hands itself back when its task has reached its end.
//!
//! The contracts of this module speak of the worker alone. Of the progress
//! behind the lock they say only that it stays consistent: what a step does
//! to the counters and the lines is proved where one caller holds the whole
//! run, for [`crate::commands::Run`] and [`Progress`].

use vstd::prelude::*;
use vstd::rwlock::RwLock;
use vstd::rwlock::RwLockPredicate;

use crate::commands::closing_message;
use crate::commands::phase_word;
use crate::commands::result_fits;
use crate::commands::result_views;
use crate::commands::settled_result;
use crate::commands::skipped_result;
use crate::commands::slot_fits;
use crate::commands::Dispatch;
use crate::commands::DispatchView;
use crate::commands::Elapsed;
use crate::commands::ExecOutcome;
use crate::commands::OutcomeView;
use crate::commands::RunReport;
use crate::commands::RunResult;
use crate::commands::RunSummary;
use crate::commands::RunView;
use crate::commands::Slot;
use crate::commands::SlotView;
use crate::programs::Mode;
use crate::programs::Program;
use crate::programs::ProgramView;
use crate::progress::Progress;
use crate::text::copy_opt;
use crate::timestamp::Timestamp;

verus! {

/// Whether a slot is one that the runner leaves the task in: a running task
/// has a command for the mode, and an output path exactly where it captures
/// its output; a task that is done has the record that the runner makes of
/// it.
pub open spec fn task_slot_fits(task: ProgramView, mode: Mode, slot: SlotView) -> bool {
    match slot {
        SlotView::Pending => true,
        SlotView::Running(path) => {
            &&& task.template(mode) is Some
            &&& (path is Some <==> task.has_output)
        },
        SlotView::Done(result) => result_fits(task, mode, result),
    }
}

/// What one worker owns of a run: a task, its place among the tasks, and
/// where the task stands.
#[derive(Debug)]
pub struct Worker {
    id: usize,
    mode: Mode,
    task: Program,
    slot: Slot,
}

/// A [`Worker`] as plain values.
pub struct WorkerView {
    pub id: nat,
    pub mode: Mode,
    pub task: ProgramView,
    pub slot: SlotView,
}

impl View for Worker {
    type V = WorkerView;

    closed spec fn view(&self) -> WorkerView {
        WorkerView { id: self.id as nat, mode: self.mode, task: self.task@, slot: self.slot@ }
    }
}

impl WorkerView {
    /// The worker of the task at place `id`, before anything was done.
    pub open spec fn fresh(id: nat, mode: Mode, task: ProgramView) -> WorkerView {
        WorkerView { id, mode, task, slot: SlotView::Pending }
    }

    /// The slot is one that the runner leaves the task in.
    pub open spec fn wf(self) -> bool {
        task_slot_fits(self.task, self.mode, self.slot)
    }

    /// What the worker is told when it dispatches its task at `stamp`.
    pub open spec fn dispatch_action(self, stamp: Timestamp) -> DispatchView {
        if !(self.slot is Pending) {
            DispatchView::Rejected
        } else {
            match self.task.command(self.mode, stamp) {
                None => DispatchView::Skipped,
                Some(command) => DispatchView::Execute(command),
            }
        }
    }

    /// The worker after it dispatched its task at `stamp`. A pending task
    /// without a command for the mode is done at once, as skipped; one with a
    /// command is running. Any other task stays as it is.
    pub open spec fn dispatched(self, stamp: Timestamp) -> WorkerView {
        if !(self.slot is Pending) {
            self
        } else {
            match self.task.command(self.mode, stamp) {
                None => WorkerView {
                    slot: SlotView::Done(skipped_result(self.task, self.mode)),
                    ..self
                },
                Some(command) => WorkerView {
                    slot: SlotView::Running(command.output_path),
                    ..self
                },
            }
        }
    }

    /// The worker after the executor reported `outcome`: a running task is
    /// done, as succeeded or as failed. Any other task stays as it is.
    pub open spec fn settled(self, outcome: OutcomeView) -> WorkerView {
        if !(self.slot is Running) {
            self
        } else {
            WorkerView {
                slot: SlotView::Done(settled_result(self.task, self.slot->Running_0, outcome)),
                ..self
            }
        }
    }
}

/// Whether these workers are those of a run of `count` tasks, each at its
/// place and with its task at its end.
pub open spec fn all_ended(workers: Seq<Worker>, count: nat) -> bool {
    &&& workers.len() == count
    &&& forall|i: int|
        0 <= i < workers.len() ==> (#[trigger] workers[i])@.id == i && workers[i]@.slot is Done
}

/// What the lock of a [`SharedRun`] admits: consistent progress over this
/// number of tasks.
pub struct ProgressInvariant {
    pub total: nat,
}

impl RwLockPredicate<Progress> for ProgressInvariant {
    open spec fn inv(self, progress: Progress) -> bool {
        &&& progress@.wf()
        &&& progress@.registered
        &&& progress@.total == self.total
    }
}

/// What the workers of a run share: its mode, its start, and its progress
/// behind a lock.
pub struct SharedRun {
    mode: Mode,
    started: Timestamp,
    lock: RwLock<Progress, ProgressInvariant>,
}

impl Worker {
    /// The slot of a worker is always one that the runner leaves its task in.
    #[verifier::type_invariant]
    spec fn slot_fits_task(self) -> bool {
        task_slot_fits(self.task@, self.mode, self.slot@)
    }

    /// The place of the worker's task among the tasks of the run.
    pub fn id(&self) -> (id: usize)
        ensures
            id == self@.id,
    {
        self.id
    }

    /// The worker's task.
    pub fn task(&self) -> (task: &Program)
        ensures
            task@ == self@.task,
    {
        &self.task
    }

    /// The record of the task, once the task has reached its end.
    pub fn result(&self) -> (result: Option<&RunResult>)
        ensures
            match result {
                Some(r) => self@.slot == SlotView::Done(r@),
                None => !(self@.slot is Done),
            },
            self@.wf(),
    {
        proof {
            use_type_invariant(self);
        }
        match &self.slot {
            Slot::Done(result) => Some(result),
            _ => None,
        }
    }
}

impl SharedRun {
    /// Number of tasks of the run; it never changes.
    pub closed spec fn count(&self) -> nat {
        self.lock.pred().total
    }

    /// The mode of the run; it never changes.
    pub closed spec fn mode(&self) -> Mode {
        self.mode
    }

    /// The start of the run; it never changes.
    pub closed spec fn started(&self) -> Timestamp {
        self.started
    }

    /// Starts a run over `tasks`: registers their number with the progress
    /// and gives each task to a worker of its own, in the order of the tasks.
    pub fn begin(tasks: Vec<Program>, mode: Mode, started: Timestamp) -> (r: (
        SharedRun,
        Vec<Worker>,
    ))
        ensures
            r.0.count() == tasks@.len(),
            r.0.mode() == mode,
            r.0.started() == started,
            r.1@.len() == tasks@.len(),
            forall|i: int|
                0 <= i < tasks@.len() ==> (#[trigger] r.1@[i])@ == WorkerView::fresh(
                    i as nat,
                    mode,
                    tasks@[i]@,
                ),
    {
        let count = tasks.len();
        let mut progress = Progress::new();
        progress.register_total(count);
        let mut workers: Vec<Worker> = Vec::new();
        for task in it: tasks
            invariant
                workers@.len() == it.index(),
                it.seq().len() == count,
                forall|i: int|
                    0 <= i < workers@.len() ==> (#[trigger] workers@[i])@ == WorkerView::fresh(
                        i as nat,
                        mode,
                        it.seq()[i]@,
                    ),
        {
            let id = workers.len();
            workers.push(Worker { id, mode, task, slot: Slot::Pending });
        }
        let ghost pred = ProgressInvariant { total: count as nat };
        (SharedRun { mode, started, lock: RwLock::new(progress, Ghost(pred)) }, workers)
    }

    /// Decides what a worker does for its task at the instant `stamp`. A
    /// pending task with a command for the mode starts running and its
    /// command is handed out; one without ends as skipped. For a task that
    /// was dispatched before, the call is rejected and changes nothing.
    ///
    /// The step is also reported to the shared progress, as a start, a phase
    /// and, for a skipped task, an end. The contract covers the worker only:
    /// of the progress nothing is stated but that it stays consistent.
    pub fn dispatch(&self, worker: &mut Worker, stamp: &Timestamp) -> (action: Dispatch)
        requires
            stamp.wf(),
        ensures
            action@ == old(worker)@.dispatch_action(*stamp),
            final(worker)@ == old(worker)@.dispatched(*stamp),
            final(worker)@.wf(),
    {
        proof {
            use_type_invariant(&*worker);
        }
        match &worker.slot {
            Slot::Pending => {},
            _ => {
                return Dispatch::Rejected;
            },
        }
        let (mut progress, handle) = self.lock.acquire_write();
        progress.on_task_start(worker.id, worker.task.symbol.as_str(), worker.task.name.as_str());
        progress.on_task_progress(worker.id, phase_word(worker.mode));
        let action = match worker.task.command_for(worker.mode, stamp) {
            None => {
                let result = RunResult::skipped(&worker.task, worker.mode);
                let closing = closing_message(result.status, &result.messages);
                progress.on_task_done(worker.id, closing.as_str());
                worker.slot = Slot::Done(result);
                Dispatch::Skipped
            },
            Some(command) => {
                worker.slot = Slot::Running(copy_opt(&command.output_path));
                Dispatch::Execute(command)
            },
        };
        handle.release_write(progress);
        action
    }

    /// Takes the executor's report for a worker's task. A running task ends
    /// as succeeded or as failed. For a task that is not running, the report
    /// is refused and changes nothing.
    ///
    /// The end of the task is also reported to the shared progress. The
    /// contract covers the worker only: of the progress nothing is stated but
    /// that it stays consistent.
    pub fn settle(&self, worker: &mut Worker, outcome: ExecOutcome) -> (accepted: bool)
        ensures
            accepted == old(worker)@.slot is Running,
            final(worker)@ == old(worker)@.settled(outcome@),
            final(worker)@.wf(),
    {
        proof {
            use_type_invariant(&*worker);
        }
        let path = match &worker.slot {
            Slot::Running(path) => copy_opt(path),
            _ => {
                return false;
            },
        };
        let result = RunResult::settled(&worker.task, path, outcome);
        let closing = closing_message(result.status, &result.messages);
        let (mut progress, handle) = self.lock.acquire_write();
        progress.on_task_done(worker.id, closing.as_str());
        handle.release_write(progress);
        worker.slot = Slot::Done(result);
        true
    }

    /// A copy of the progress at this moment, for a renderer to show: it is
    /// consistent and has one line per task. Which steps of the workers it
    /// shows is not stated.
    pub fn snapshot(&self) -> (copy: Progress)
        ensures
            copy@.wf(),
            copy@.total == self.count(),
    {
        let handle = self.lock.acquire_read();
        let copy = handle.borrow().snapshot();
        handle.release_read();
        copy
    }

    /// Ends the run with the workers that were handed back. The report comes
    /// back only when the workers are those of the run, each at its place and
    /// with its task at its end: it then holds the record of each task, in
    /// the order of the tasks. Otherwise the run and the workers come back
    /// as they are.
    ///
    /// The completed count of the summary is the number of workers that were
    /// handed back with their task at its end, which is then the number of
    /// tasks. It is not read from the counter behind the lock.
    pub fn finish(self, workers: Vec<Worker>, elapsed: Elapsed) -> (r: Result<
        RunReport,
        (SharedRun, Vec<Worker>),
    >)
        ensures
            r is Ok <==> all_ended(workers@, self.count()),
            match r {
                Ok(report) => {
                    &&& report.results@.len() == self.count()
                    &&& report.summary == (RunSummary {
                        total: self.count() as usize,
                        completed: self.count() as usize,
                        started: self.started(),
                        elapsed,
                    })
                    &&& forall|i: int|
                        0 <= i < workers@.len() ==> {
                            &&& SlotView::Done(#[trigger] result_views(report.results@)[i])
                                == workers@[i]@.slot
                            &&& result_fits(
                                workers@[i]@.task,
                                workers@[i]@.mode,
                                result_views(report.results@)[i],
                            )
                        }
                },
                Err(back) => back.1@ == workers@ && back.0.count() == self.count() && back.0.mode()
                    == self.mode() && back.0.started() == self.started(),
            },
    {
        let handle = self.lock.acquire_read();
        let count = handle.borrow().total();
        handle.release_read();
        if workers.len() != count {
            return Err((self, workers));
        }
        let mut i: usize = 0;
        while i < count
            invariant
                i <= count,
                count == workers@.len(),
                forall|k: int|
                    0 <= k < i ==> (#[trigger] workers@[k])@.id == k && workers@[k]@.slot is Done,
            decreases count - i,
        {
            let ended = match &workers[i].slot {
                Slot::Done(_) => true,
                _ => false,
            };
            if workers[i].id != i || !ended {
                return Err((self, workers));
            }
            i = i + 1;
        }
        let ghost all = workers@;
        let mode = self.mode;
        let started = self.started;
        let mut results: Vec<RunResult> = Vec::new();
        for worker in it: workers
            invariant
                it.seq() == all,
                all_ended(all, count as nat),
                results@.len() == it.index(),
                forall|k: int|
                    0 <= k < results@.len() ==> {
                        &&& SlotView::Done(#[trigger] result_views(results@)[k]) == all[k]@.slot
                        &&& result_fits(all[k]@.task, all[k]@.mode, result_views(results@)[k])
                    },
        {
            proof {
                use_type_invariant(&worker);
            }
            let ghost before = result_views(results@);
            let ghost place = results@.len() as int;
            assert(worker == all[place]);
            match worker.slot {
                Slot::Done(result) => {
                    results.push(result);
                    assert(result_views(results@) == before.push(result@));
                },
                _ => {
                    assert(false);
                },
            }
        }
        let summary = RunSummary { total: count, completed: count, started, elapsed };
        Ok(RunReport { summary, results })
    }
}

/// A worker takes the very steps that a run takes for the task at its place:
/// after a dispatch, and after a report, the worker's slot is the slot of its
/// task in the run, and the worker is told what the run's caller is told.
pub proof fn lemma_worker_steps_as_the_run(
    run: RunView,
    id: nat,
    stamp: Timestamp,
    outcome: OutcomeView,
)
    requires
        run.wf(),
        id < run.tasks.len(),
    ensures
        ({
            let worker = WorkerView {
                id,
                mode: run.mode,
                task: run.tasks[id as int],
                slot: run.slots[id as int],
            };
            &&& worker.wf()
            &&& worker.dispatch_action(stamp) == run.dispatch_action(id, stamp)
            &&& worker.dispatched(stamp).slot == run.dispatched(id, stamp).slots[id as int]
            &&& worker.settled(outcome).slot == run.settled(id, outcome).slots[id as int]
        }),
{
    assert(slot_fits(
        run.tasks[id as int],
        run.mode,
        run.slots[id as int],
        run.progress.lines[id as int],
    ));
}

/// Every step leaves a worker with a slot that the runner leaves its task
/// in, and a worker reaches the end of its task in at most two steps,
/// whatever its command does.
pub proof fn lemma_worker_ends_after_dispatch_and_report(
    worker: WorkerView,
    stamp: Timestamp,
    outcome: OutcomeView,
)
    requires
        worker.wf(),
    ensures
        worker.dispatched(stamp).wf(),
        worker.settled(outcome).wf(),
        worker.slot is Pending ==> worker.dispatched(stamp).settled(outcome).slot is Done,
        worker.slot is Pending && worker.task.template(worker.mode) is None ==> worker.dispatched(
            stamp,
        ).slot == SlotView::Done(skipped_result(worker.task, worker.mode)),
{
}

} // verus!
