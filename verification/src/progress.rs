//! The progress aggregator: how many tasks are done out of how many, and one
//! display line per task.
//!
//! The aggregator itself is plain data with plain methods. Callers that share
//! it between workers guard it with a lock of their own; every method here
//! leaves it in a consistent state, so the lock is held only for one call.

use vstd::prelude::*;
use vstd::string::StringExecFns;

use crate::text::opt_text;

verus! {

/// The display line of one task.
#[derive(Clone, Debug)]
pub struct TaskLine {
    pub symbol: String,
    pub name: String,
    /// Whether the task has been started.
    pub started: bool,
    /// What the task is doing at the moment.
    pub phase_text: String,
    /// The closing message; present from the moment the task is done.
    pub final_message: Option<String>,
}

/// A [`TaskLine`] as plain texts.
pub struct LineView {
    pub symbol: Seq<char>,
    pub name: Seq<char>,
    pub started: bool,
    pub phase_text: Seq<char>,
    pub final_message: Option<Seq<char>>,
}

impl View for TaskLine {
    type V = LineView;

    open spec fn view(&self) -> LineView {
        LineView {
            symbol: self.symbol@,
            name: self.name@,
            started: self.started,
            phase_text: self.phase_text@,
            final_message: opt_text(self.final_message),
        }
    }
}

impl LineView {
    /// Whether the task of this line has reached its end.
    pub open spec fn done(self) -> bool {
        self.final_message is Some
    }

    /// The line of a task of which nothing is known yet.
    pub open spec fn blank() -> LineView {
        LineView {
            symbol: Seq::empty(),
            name: Seq::empty(),
            started: false,
            phase_text: Seq::empty(),
            final_message: None,
        }
    }
}

/// The views of a list of lines, in order.
pub open spec fn line_views(lines: Seq<TaskLine>) -> Seq<LineView> {
    Seq::new(lines.len(), |i: int| lines[i]@)
}

/// Number of lines whose task is done.
pub open spec fn done_count(lines: Seq<LineView>) -> nat
    decreases lines.len(),
{
    if lines.len() == 0 {
        0
    } else {
        done_count(lines.drop_last()) + if lines.last().done() {
            1nat
        } else {
            0nat
        }
    }
}

/// The counters of a run and the lines of its tasks. A task is known by its
/// position in the list that the run was started with.
#[derive(Clone, Debug)]
pub struct Progress {
    /// Whether the number of tasks has been registered.
    registered: bool,
    total: usize,
    completed: usize,
    lines: Vec<TaskLine>,
}

/// A [`Progress`] as plain values.
pub struct ProgressView {
    pub registered: bool,
    pub total: nat,
    pub completed: nat,
    pub lines: Seq<LineView>,
}

impl View for Progress {
    type V = ProgressView;

    closed spec fn view(&self) -> ProgressView {
        ProgressView {
            registered: self.registered,
            total: self.total as nat,
            completed: self.completed as nat,
            lines: line_views(self.lines@),
        }
    }
}

impl ProgressView {
    /// There is one line per task, and the counter of completed tasks is the
    /// number of lines that are done.
    pub open spec fn wf(self) -> bool {
        &&& self.lines.len() == self.total
        &&& self.completed == done_count(self.lines)
        &&& !self.registered ==> self.total == 0
    }

    /// The aggregator before anything was registered.
    pub open spec fn initial() -> ProgressView {
        ProgressView { registered: false, total: 0, completed: 0, lines: Seq::empty() }
    }

    /// Whether every task is done.
    pub open spec fn all_done(self) -> bool {
        forall|i: int| 0 <= i < self.lines.len() ==> (#[trigger] self.lines[i]).done()
    }

    /// Whether the counter of completed tasks has reached the total.
    pub open spec fn is_complete(self) -> bool {
        self.completed == self.total
    }

    /// The aggregator after `n` tasks were registered. Only the first
    /// registration counts.
    pub open spec fn after_register(self, n: nat) -> ProgressView {
        if self.registered {
            self
        } else {
            ProgressView {
                registered: true,
                total: n,
                completed: 0,
                lines: Seq::new(n, |i: int| LineView::blank()),
            }
        }
    }

    /// Whether task `id` can be started: it is known, not started and not done.
    pub open spec fn can_start(self, id: nat) -> bool {
        id < self.lines.len() && !self.lines[id as int].started && !self.lines[id as int].done()
    }

    /// The aggregator after task `id` was started under a symbol and a name.
    pub open spec fn after_start(self, id: nat, symbol: Seq<char>, name: Seq<char>)
        -> ProgressView {
        if self.can_start(id) {
            ProgressView {
                lines: self.lines.update(
                    id as int,
                    LineView { symbol, name, started: true, ..self.lines[id as int] },
                ),
                ..self
            }
        } else {
            self
        }
    }

    /// Whether task `id` can report a phase: it is started and not done.
    pub open spec fn can_progress(self, id: nat) -> bool {
        id < self.lines.len() && self.lines[id as int].started && !self.lines[id as int].done()
    }

    /// The aggregator after task `id` reported the phase `text`.
    pub open spec fn after_progress(self, id: nat, text: Seq<char>) -> ProgressView {
        if self.can_progress(id) {
            ProgressView {
                lines: self.lines.update(
                    id as int,
                    LineView { phase_text: text, ..self.lines[id as int] },
                ),
                ..self
            }
        } else {
            self
        }
    }

    /// Whether task `id` can be marked done: it is known and not done yet.
    pub open spec fn can_finish(self, id: nat) -> bool {
        id < self.lines.len() && !self.lines[id as int].done()
    }

    /// The aggregator after task `id` ended with `message`: its line is done
    /// and the counter has grown by one. A second end of one task changes
    /// nothing.
    pub open spec fn after_done(self, id: nat, message: Seq<char>) -> ProgressView {
        if self.can_finish(id) {
            ProgressView {
                completed: self.completed + 1,
                lines: self.lines.update(
                    id as int,
                    LineView { final_message: Some(message), ..self.lines[id as int] },
                ),
                ..self
            }
        } else {
            self
        }
    }
}

/// No more lines are done than there are lines.
pub proof fn lemma_done_count_bound(lines: Seq<LineView>)
    ensures
        done_count(lines) <= lines.len(),
    decreases lines.len(),
{
    if lines.len() > 0 {
        lemma_done_count_bound(lines.drop_last());
    }
}

/// All lines are counted as done exactly when each of them is done.
pub proof fn lemma_done_count_full(lines: Seq<LineView>)
    ensures
        done_count(lines) == lines.len() <==> (forall|i: int|
            0 <= i < lines.len() ==> (#[trigger] lines[i]).done()),
    decreases lines.len(),
{
    if lines.len() > 0 {
        let front = lines.drop_last();
        lemma_done_count_full(front);
        lemma_done_count_bound(front);
        if done_count(lines) == lines.len() {
            assert forall|i: int| 0 <= i < lines.len() implies (#[trigger] lines[i]).done() by {
                if i < front.len() {
                    assert(front[i].done());
                }
            }
        }
        if forall|i: int| 0 <= i < lines.len() ==> (#[trigger] lines[i]).done() {
            assert forall|i: int| 0 <= i < front.len() implies (#[trigger] front[i]).done() by {
            }
        }
    }
}

/// Replacing one line changes the count of done lines by what that line
/// contributes.
pub proof fn lemma_done_count_update(lines: Seq<LineView>, id: int, line: LineView)
    requires
        0 <= id < lines.len(),
    ensures
        done_count(lines.update(id, line)) + (if lines[id].done() {
            1nat
        } else {
            0nat
        }) == done_count(lines) + (if line.done() {
            1nat
        } else {
            0nat
        }),
    decreases lines.len(),
{
    let changed = lines.update(id, line);
    if id == lines.len() - 1 {
        assert(changed.drop_last() == lines.drop_last());
    } else {
        assert(changed.drop_last() == lines.drop_last().update(id, line));
        lemma_done_count_update(lines.drop_last(), id, line);
    }
}

/// The counter of completed tasks equals the registered total exactly when
/// every task is done.
pub proof fn lemma_complete_iff_all_done(p: ProgressView)
    requires
        p.wf(),
    ensures
        p.is_complete() <==> p.all_done(),
{
    lemma_done_count_full(p.lines);
}

/// Marking a task done keeps the aggregator consistent and raises the counter
/// by exactly one; it never passes the total.
pub proof fn lemma_done_counts_once(p: ProgressView, id: nat, message: Seq<char>)
    requires
        p.wf(),
    ensures
        p.after_done(id, message).wf(),
        p.can_finish(id) ==> p.after_done(id, message).completed == p.completed + 1,
        !p.can_finish(id) ==> p.after_done(id, message) == p,
        p.after_done(id, message).completed <= p.total,
        p.after_done(id, message).after_done(id, message) == p.after_done(id, message),
{
    lemma_done_count_bound(p.lines);
    if p.can_finish(id) {
        let line = LineView { final_message: Some(message), ..p.lines[id as int] };
        lemma_done_count_update(p.lines, id as int, line);
        lemma_done_count_bound(p.lines.update(id as int, line));
    }
}

/// Starting a task or reporting a phase leaves the counters as they were.
pub proof fn lemma_start_and_progress_keep_count(
    p: ProgressView,
    id: nat,
    symbol: Seq<char>,
    name: Seq<char>,
    text: Seq<char>,
)
    requires
        p.wf(),
    ensures
        p.after_start(id, symbol, name).wf(),
        p.after_start(id, symbol, name).completed == p.completed,
        p.after_progress(id, text).wf(),
        p.after_progress(id, text).completed == p.completed,
{
    if p.can_start(id) {
        let line = LineView { symbol, name, started: true, ..p.lines[id as int] };
        lemma_done_count_update(p.lines, id as int, line);
    }
    if p.can_progress(id) {
        let line = LineView { phase_text: text, ..p.lines[id as int] };
        lemma_done_count_update(p.lines, id as int, line);
    }
}

/// The counter of completed tasks never passes the total, and no event ever
/// lowers it.
pub proof fn lemma_counter_only_grows(
    p: ProgressView,
    n: nat,
    id: nat,
    symbol: Seq<char>,
    name: Seq<char>,
    text: Seq<char>,
)
    requires
        p.wf(),
    ensures
        p.completed <= p.total,
        p.after_register(n).completed >= p.completed,
        p.after_start(id, symbol, name).completed >= p.completed,
        p.after_progress(id, text).completed >= p.completed,
        p.after_done(id, text).completed >= p.completed,
{
    lemma_done_count_bound(p.lines);
}

/// Registering tasks yields a consistent aggregator with nothing completed.
pub proof fn lemma_register_wf(p: ProgressView, n: nat)
    requires
        p.wf(),
    ensures
        p.after_register(n).wf(),
        !p.registered ==> p.after_register(n).completed == 0 && p.after_register(n).total == n,
{
    if !p.registered {
        lemma_blank_lines_count(n);
    }
}

/// Among blank lines none is done.
pub proof fn lemma_blank_lines_count(n: nat)
    ensures
        done_count(Seq::new(n, |i: int| LineView::blank())) == 0,
    decreases n,
{
    if n > 0 {
        let lines = Seq::new(n, |i: int| LineView::blank());
        assert(lines.drop_last() == Seq::new((n - 1) as nat, |i: int| LineView::blank()));
        lemma_blank_lines_count((n - 1) as nat);
    }
}

impl Progress {
    /// An aggregator that knows of no task yet.
    pub fn new() -> (p: Progress)
        ensures
            p@ == ProgressView::initial(),
            p@.wf(),
    {
        let p = Progress { registered: false, total: 0, completed: 0, lines: Vec::new() };
        assert(p@.lines == Seq::<LineView>::empty());
        p
    }

    /// Registers the number of tasks of the run. To be called once, before
    /// any task is started; a later call is refused and changes nothing.
    pub fn register_total(&mut self, n: usize) -> (accepted: bool)
        requires
            old(self)@.wf(),
        ensures
            accepted == !old(self)@.registered,
            final(self)@ == old(self)@.after_register(n as nat),
            final(self)@.wf(),
    {
        proof {
            lemma_register_wf(self@, n as nat);
        }
        if self.registered {
            return false;
        }
        let mut lines: Vec<TaskLine> = Vec::new();
        let mut i: usize = 0;
        while i < n
            invariant
                i <= n,
                line_views(lines@) == Seq::new(i as nat, |k: int| LineView::blank()),
            decreases n - i,
        {
            let ghost before = line_views(lines@);
            let line = TaskLine {
                symbol: String::new(),
                name: String::new(),
                started: false,
                phase_text: String::new(),
                final_message: None,
            };
            lines.push(line);
            i = i + 1;
            assert(line_views(lines@) == before.push(LineView::blank()));
        }
        self.registered = true;
        self.total = n;
        self.completed = 0;
        self.lines = lines;
        true
    }

    /// Marks task `id` as started and labels its line. Refused, with nothing
    /// changed, for a task that is unknown, already started or done.
    pub fn on_task_start(&mut self, id: usize, symbol: &str, name: &str) -> (accepted: bool)
        requires
            old(self)@.wf(),
        ensures
            accepted == old(self)@.can_start(id as nat),
            final(self)@ == old(self)@.after_start(id as nat, symbol@, name@),
            final(self)@.wf(),
            final(self)@.completed == old(self)@.completed,
    {
        proof {
            lemma_start_and_progress_keep_count(self@, id as nat, symbol@, name@, Seq::empty());
        }
        if id >= self.lines.len() {
            return false;
        }
        if self.lines[id].started || self.lines[id].final_message.is_some() {
            return false;
        }
        let ghost before = self@;
        self.lines[id].symbol = String::from_str(symbol);
        self.lines[id].name = String::from_str(name);
        self.lines[id].started = true;
        assert(self@.lines == before.after_start(id as nat, symbol@, name@).lines);
        true
    }

    /// Records what task `id` is doing. Refused, with nothing changed, for a
    /// task that is unknown, not started or done.
    pub fn on_task_progress(&mut self, id: usize, phase_text: &str) -> (accepted: bool)
        requires
            old(self)@.wf(),
        ensures
            accepted == old(self)@.can_progress(id as nat),
            final(self)@ == old(self)@.after_progress(id as nat, phase_text@),
            final(self)@.wf(),
            final(self)@.completed == old(self)@.completed,
    {
        proof {
            lemma_start_and_progress_keep_count(
                self@,
                id as nat,
                Seq::empty(),
                Seq::empty(),
                phase_text@,
            );
        }
        if id >= self.lines.len() {
            return false;
        }
        if !self.lines[id].started || self.lines[id].final_message.is_some() {
            return false;
        }
        let ghost before = self@;
        self.lines[id].phase_text = String::from_str(phase_text);
        assert(self@.lines == before.after_progress(id as nat, phase_text@).lines);
        true
    }

    /// Marks task `id` as done with its closing message and counts it. Each
    /// task counts once: a second call for the same task, or a call for an
    /// unknown task, is refused and changes nothing.
    pub fn on_task_done(&mut self, id: usize, final_message: &str) -> (accepted: bool)
        requires
            old(self)@.wf(),
        ensures
            accepted == old(self)@.can_finish(id as nat),
            final(self)@ == old(self)@.after_done(id as nat, final_message@),
            final(self)@.wf(),
            final(self)@.completed == old(self)@.completed + if accepted {
                1nat
            } else {
                0nat
            },
            final(self)@.completed <= final(self)@.total,
    {
        proof {
            lemma_done_counts_once(self@, id as nat, final_message@);
            lemma_done_count_bound(self@.lines);
        }
        if id >= self.lines.len() {
            return false;
        }
        if self.lines[id].final_message.is_some() {
            return false;
        }
        let ghost before = self@;
        self.lines[id].final_message = Some(String::from_str(final_message));
        self.completed = self.completed + 1;
        assert(self@.lines == before.after_done(id as nat, final_message@).lines);
        true
    }

    /// Number of registered tasks.
    pub fn total(&self) -> (n: usize)
        ensures
            n == self@.total,
    {
        self.total
    }

    /// Number of tasks that are done.
    pub fn completed(&self) -> (n: usize)
        ensures
            n == self@.completed,
    {
        self.completed
    }

    /// The lines of the tasks, in the order of the tasks.
    pub fn lines(&self) -> (lines: &Vec<TaskLine>)
        ensures
            line_views(lines@) == self@.lines,
    {
        &self.lines
    }

    /// Whether every registered task is done.
    pub fn is_complete(&self) -> (r: bool)
        requires
            self@.wf(),
        ensures
            r == self@.is_complete(),
            r == self@.all_done(),
    {
        proof {
            lemma_complete_iff_all_done(self@);
        }
        self.completed == self.total
    }

    /// A copy of the present state, for a renderer to show.
    pub fn snapshot(&self) -> (copy: Progress)
        ensures
            copy@ == self@,
    {
        let mut lines: Vec<TaskLine> = Vec::new();
        let mut i: usize = 0;
        while i < self.lines.len()
            invariant
                i <= self.lines.len(),
                line_views(lines@) == line_views(self.lines@).take(i as int),
            decreases self.lines.len() - i,
        {
            let line = &self.lines[i];
            let final_message = match &line.final_message {
                Some(m) => Some(m.clone()),
                None => None,
            };
            let ghost before = line_views(lines@);
            let copy = TaskLine {
                symbol: line.symbol.clone(),
                name: line.name.clone(),
                started: line.started,
                phase_text: line.phase_text.clone(),
                final_message,
            };
            lines.push(copy);
            i = i + 1;
            assert(line_views(lines@) == before.push(line@));
        }
        assert(line_views(self.lines@).take(self.lines.len() as int) == line_views(self.lines@));
        Progress {
            registered: self.registered,
            total: self.total,
            completed: self.completed,
            lines,
        }
    }
}

} // verus!
