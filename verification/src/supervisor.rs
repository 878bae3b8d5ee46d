//! Lifecycle notifications of one supervised child process, and the state
//! machine that emits them in the right number and order.
//!
//! The embedding application spawns the child, reads its two output streams
//! and awaits its termination; each of those three tasks reports what it saw
//! into a shared `RunState`, which decides what the notification sink is
//! told. The state machine guarantees the lifecycle invariants: the one
//! `Started` notification comes first, stderr lines keep their read order,
//! and exactly one terminal notification ends the run.

use vstd::prelude::*;
use vstd::string::*;
use crate::text;

verus! {

/// A lifecycle notification delivered to the notification sink.
#[derive(Debug, PartialEq, Eq)]
pub enum Notification {
    /// The child process was spawned; the detail names its process
    /// identifier, or marks it unavailable.
    Started { detail: String },
    /// One line of the child's standard error, in read order.
    StderrLine { line: String },
    /// Terminal: the child exited with a successful status.
    Success { detail: String },
    /// Terminal: the child exited with a non-zero status, or its
    /// termination could not be observed.
    RunError { detail: String },
}

/// The ghost image of a notification.
pub enum NoticeView {
    Started { detail: Seq<char> },
    StderrLine { line: Seq<char> },
    Success { detail: Seq<char> },
    RunError { detail: Seq<char> },
}

impl View for Notification {
    type V = NoticeView;

    open spec fn view(&self) -> NoticeView {
        match self {
            Notification::Started { detail } => NoticeView::Started { detail: detail@ },
            Notification::StderrLine { line } => NoticeView::StderrLine { line: line@ },
            Notification::Success { detail } => NoticeView::Success { detail: detail@ },
            Notification::RunError { detail } => NoticeView::RunError { detail: detail@ },
        }
    }
}

/// The sink event name that carries each notification kind.
pub open spec fn event_name_of(n: NoticeView) -> Seq<char> {
    match n {
        NoticeView::Started { .. } => "run-started"@,
        NoticeView::StderrLine { .. } => "run-stderr-line"@,
        NoticeView::Success { .. } => "run-success"@,
        NoticeView::RunError { .. } => "run-error"@,
    }
}

/// The text payload delivered with a notification.
pub open spec fn payload_of(n: NoticeView) -> Seq<char> {
    match n {
        NoticeView::Started { detail } => detail,
        NoticeView::StderrLine { line } => line,
        NoticeView::Success { detail } => detail,
        NoticeView::RunError { detail } => detail,
    }
}

/// Whether a notification is terminal: it reports the run's final outcome.
pub open spec fn is_terminal(n: NoticeView) -> bool {
    n is Success || n is RunError
}

impl Notification {
    /// The name of the sink event that carries this notification.
    pub fn event_name(&self) -> (name: &'static str)
        ensures
            name@ == event_name_of(self@),
    {
        match self {
            Notification::Started { .. } => "run-started",
            Notification::StderrLine { .. } => "run-stderr-line",
            Notification::Success { .. } => "run-success",
            Notification::RunError { .. } => "run-error",
        }
    }

    /// The text payload delivered with this notification.
    pub fn payload(&self) -> (p: &String)
        ensures
            p@ == payload_of(self@),
    {
        match self {
            Notification::Started { detail } => detail,
            Notification::StderrLine { line } => line,
            Notification::Success { detail } => detail,
            Notification::RunError { detail } => detail,
        }
    }
}

/// The text standing for the child's process identifier: its decimal
/// notation, or an explicit marker when the platform reported none.
pub open spec fn pid_text(pid: Option<u32>) -> Seq<char> {
    match pid {
        Some(p) => text::decimal_digits(p as nat),
        None => "N/A"@,
    }
}

/// Detail of the `Started` notification.
pub open spec fn started_detail(pid: Option<u32>) -> Seq<char> {
    "Agent PID: "@ + pid_text(pid)
}

/// Detail of the `Success` notification, around the platform's description
/// of the exit status.
pub open spec fn success_detail(status: Seq<char>) -> Seq<char> {
    "Agent exited successfully (Status: "@ + status + ")"@
}

/// Detail of the `RunError` notification for a non-zero exit status.
pub open spec fn exit_error_detail(status: Seq<char>) -> Seq<char> {
    "Agent exited with non-zero status: "@ + status
}

/// Detail of the `RunError` notification when termination could not be
/// observed: names the failed wait and the original command line.
pub open spec fn wait_error_detail(command: Seq<char>, error: Seq<char>) -> Seq<char> {
    "Failed to wait for agent process ("@ + command + "): "@ + error
}

/// The synchronous error returned when the spawn call itself failed: names
/// the full command line and the operating system's error text.
pub open spec fn spawn_error_text(command: Seq<char>, error: Seq<char>) -> Seq<char> {
    "Failed to spawn agent command '"@ + command + "': "@ + error
}

/// The terminal notification for a reported exit status.
pub open spec fn terminal_notice(success: bool, status: Seq<char>) -> NoticeView {
    if success {
        NoticeView::Success { detail: success_detail(status) }
    } else {
        NoticeView::RunError { detail: exit_error_detail(status) }
    }
}

/// How many entries of `h` satisfy `p`.
pub open spec fn count_matching(h: Seq<NoticeView>, p: spec_fn(NoticeView) -> bool) -> nat
    decreases h.len(),
{
    if h.len() == 0 {
        0
    } else {
        count_matching(h.drop_last(), p) + (if p(h.last()) {
            1nat
        } else {
            0nat
        })
    }
}

/// Appending one entry raises the count by one exactly when the entry
/// satisfies the predicate.
pub proof fn lemma_count_push(h: Seq<NoticeView>, p: spec_fn(NoticeView) -> bool, x: NoticeView)
    ensures
        count_matching(h.push(x), p) == count_matching(h, p) + (if p(x) {
            1nat
        } else {
            0nat
        }),
{
    assert(h.push(x).drop_last() =~= h);
    assert(h.push(x).last() == x);
}

/// A single entry counts once exactly when it satisfies the predicate.
pub proof fn lemma_count_single(x: NoticeView, p: spec_fn(NoticeView) -> bool)
    ensures
        count_matching(seq![x], p) == (if p(x) {
            1nat
        } else {
            0nat
        }),
{
    assert(seq![x].drop_last() =~= Seq::<NoticeView>::empty());
    assert(count_matching(Seq::<NoticeView>::empty(), p) == 0);
    assert(seq![x].last() == x);
}

/// Counting distributes over concatenation.
pub proof fn lemma_count_concat(
    a: Seq<NoticeView>,
    b: Seq<NoticeView>,
    p: spec_fn(NoticeView) -> bool,
)
    ensures
        count_matching(a + b, p) == count_matching(a, p) + count_matching(b, p),
    decreases b.len(),
{
    if b.len() == 0 {
        assert(a + b =~= a);
    } else {
        assert((a + b).drop_last() =~= a + b.drop_last());
        assert((a + b).last() == b.last());
        lemma_count_concat(a, b.drop_last(), p);
    }
}

/// When every entry satisfies the predicate, the count is the length.
pub proof fn lemma_count_all(h: Seq<NoticeView>, p: spec_fn(NoticeView) -> bool)
    requires
        forall|j: int| 0 <= j < h.len() ==> p(h[j]),
    ensures
        count_matching(h, p) == h.len(),
    decreases h.len(),
{
    if h.len() > 0 {
        assert(forall|j: int| 0 <= j < h.len() - 1 ==> h.drop_last()[j] == h[j]);
        lemma_count_all(h.drop_last(), p);
    }
}

/// When no entry satisfies the predicate, the count is zero.
pub proof fn lemma_count_none(h: Seq<NoticeView>, p: spec_fn(NoticeView) -> bool)
    requires
        forall|j: int| 0 <= j < h.len() ==> !p(h[j]),
    ensures
        count_matching(h, p) == 0,
    decreases h.len(),
{
    if h.len() > 0 {
        assert(forall|j: int| 0 <= j < h.len() - 1 ==> h.drop_last()[j] == h[j]);
        lemma_count_none(h.drop_last(), p);
    }
}

/// Builds the `Started` notification for a spawn, carrying the process
/// identifier when the platform reported one.
pub fn started_notification(pid: Option<u32>) -> (n: Notification)
    ensures
        n@ == (NoticeView::Started { detail: started_detail(pid) }),
{
    let base = String::from_str("Agent PID: ");
    let detail = match pid {
        Some(p) => {
            let digits = text::decimal_string(p);
            base.concat(digits.as_str())
        },
        None => base.concat("N/A"),
    };
    Notification::Started { detail }
}

/// The supervision state of one run, from spawn to terminal notification.
///
/// The embedding application drives it: `on_spawned` once when the spawn
/// call succeeds, `on_stderr_line` for each line its stderr reader sees,
/// and exactly one of `on_exit` / `on_wait_failure` from its exit waiter.
/// `history` records every notification handed out, in emission order.
pub struct RunState {
    /// Whether the `Started` notification has been emitted.
    pub started: bool,
    /// Whether the terminal notification has been emitted.
    pub finished: bool,
    /// Every notification emitted so far, in emission order.
    pub history: Ghost<Seq<NoticeView>>,
}

impl RunState {
    /// The history is a plausible emission record: nothing before `Started`,
    /// exactly one `Started`, which comes first, and at most one terminal
    /// notification, which comes last.
    pub open spec fn wf(self) -> bool {
        &&& count_matching(self.history@, |n: NoticeView| n is Started) == (if self.started {
            1nat
        } else {
            0nat
        })
        &&& count_matching(self.history@, |n: NoticeView| is_terminal(n)) == (if self.finished {
            1nat
        } else {
            0nat
        })
        &&& !self.started ==> self.history@.len() == 0
        &&& self.started ==> self.history@.len() > 0 && self.history@[0] is Started
        &&& self.finished ==> self.started && is_terminal(self.history@.last())
    }

    /// A fresh run: nothing emitted yet.
    pub fn new() -> (s: RunState)
        ensures
            s.wf(),
            !s.started,
            !s.finished,
            s.history@ == Seq::<NoticeView>::empty(),
    {
        RunState { started: false, finished: false, history: Ghost(Seq::empty()) }
    }

    /// The spawn succeeded: emits the one `Started` notification.
    pub fn on_spawned(&mut self, pid: Option<u32>) -> (n: Notification)
        requires
            old(self).wf(),
            !old(self).started,
        ensures
            final(self).wf(),
            final(self).started,
            !final(self).finished,
            n@ == (NoticeView::Started { detail: started_detail(pid) }),
            final(self).history@ == old(self).history@.push(n@),
            final(self).history@ == seq![n@],
    {
        let n = started_notification(pid);
        self.started = true;
        let ghost prior = self.history@;
        self.history = Ghost(prior.push(n@));
        proof {
            lemma_count_push(prior, |n: NoticeView| n is Started, n@);
            lemma_count_push(prior, |n: NoticeView| is_terminal(n), n@);
            assert(self.history@ =~= seq![n@]);
        }
        n
    }

    /// One line read from the child's standard error: emits the matching
    /// stderr notification, in read order.
    pub fn on_stderr_line(&mut self, line: String) -> (n: Notification)
        requires
            old(self).wf(),
            old(self).started,
            !old(self).finished,
        ensures
            final(self).wf(),
            final(self).started,
            !final(self).finished,
            n@ == (NoticeView::StderrLine { line: line@ }),
            final(self).history@ == old(self).history@.push(n@),
    {
        let n = Notification::StderrLine { line };
        let ghost prior = self.history@;
        self.history = Ghost(prior.push(n@));
        proof {
            lemma_count_push(prior, |n: NoticeView| n is Started, n@);
            lemma_count_push(prior, |n: NoticeView| is_terminal(n), n@);
            assert(self.history@[0] == prior[0]);
        }
        n
    }

    /// The child terminated and the platform reported its exit status:
    /// emits the one terminal notification, `Success` exactly when the
    /// status was successful.
    pub fn on_exit(&mut self, success: bool, status_text: &String) -> (n: Notification)
        requires
            old(self).wf(),
            old(self).started,
            !old(self).finished,
        ensures
            final(self).wf(),
            final(self).started,
            final(self).finished,
            n@ == terminal_notice(success, status_text@),
            final(self).history@ == old(self).history@.push(n@),
    {
        let n = if success {
            let detail = String::from_str("Agent exited successfully (Status: ").concat(
                status_text.as_str(),
            ).concat(")");
            Notification::Success { detail }
        } else {
            let detail = String::from_str("Agent exited with non-zero status: ").concat(
                status_text.as_str(),
            );
            Notification::RunError { detail }
        };
        self.finished = true;
        let ghost prior = self.history@;
        self.history = Ghost(prior.push(n@));
        proof {
            lemma_count_push(prior, |n: NoticeView| n is Started, n@);
            lemma_count_push(prior, |n: NoticeView| is_terminal(n), n@);
            assert(self.history@[0] == prior[0]);
        }
        n
    }

    /// Termination could not be observed: emits the one terminal
    /// notification, a `RunError` that names the original command line and
    /// the reported error.
    pub fn on_wait_failure(&mut self, command: &String, error: &String) -> (n: Notification)
        requires
            old(self).wf(),
            old(self).started,
            !old(self).finished,
        ensures
            final(self).wf(),
            final(self).started,
            final(self).finished,
            n@ == (NoticeView::RunError { detail: wait_error_detail(command@, error@) }),
            final(self).history@ == old(self).history@.push(n@),
    {
        let detail = String::from_str("Failed to wait for agent process (").concat(
            command.as_str(),
        ).concat("): ").concat(error.as_str());
        let n = Notification::RunError { detail };
        self.finished = true;
        let ghost prior = self.history@;
        self.history = Ghost(prior.push(n@));
        proof {
            lemma_count_push(prior, |n: NoticeView| n is Started, n@);
            lemma_count_push(prior, |n: NoticeView| is_terminal(n), n@);
            assert(self.history@[0] == prior[0]);
        }
        n
    }

    /// The spawn call itself failed: the run never starts, nothing has been
    /// or will be emitted for it, and the caller receives this error text
    /// synchronously.
    pub fn spawn_failure(&self, command: &String, error: &String) -> (e: String)
        requires
            self.wf(),
            !self.started,
        ensures
            e@ == spawn_error_text(command@, error@),
            self.history@ == Seq::<NoticeView>::empty(),
    {
        proof {
            assert(self.history@ =~= Seq::<NoticeView>::empty());
        }
        String::from_str("Failed to spawn agent command '").concat(command.as_str()).concat(
            "': ",
        ).concat(error.as_str())
    }
}

/// Once a run is finished, its emission record holds exactly one `Started`
/// notification, which comes first, and exactly one terminal notification,
/// which comes last.
pub proof fn lemma_single_lifecycle(s: RunState)
    requires
        s.wf(),
        s.finished,
    ensures
        count_matching(s.history@, |n: NoticeView| n is Started) == 1,
        count_matching(s.history@, |n: NoticeView| is_terminal(n)) == 1,
        s.history@.len() > 0,
        s.history@[0] is Started,
        is_terminal(s.history@.last()),
{
}

/// A run that never started has emitted nothing.
pub proof fn lemma_unstarted_silent(s: RunState)
    requires
        s.wf(),
        !s.started,
    ensures
        s.history@ == Seq::<NoticeView>::empty(),
{
    assert(s.history@ =~= Seq::<NoticeView>::empty());
}

/// The stderr notifications for the given lines, in the same order.
pub open spec fn stderr_notices(lines: Seq<Seq<char>>) -> Seq<NoticeView> {
    lines.map_values(|l: Seq<char>| NoticeView::StderrLine { line: l })
}

/// The notifications of one whole run, as the sink observes them when it
/// serializes delivery: `Started`, each stderr line in write order, then
/// the one terminal notification.
pub open spec fn run_history(
    pid: Option<u32>,
    lines: Seq<Seq<char>>,
    terminal: NoticeView,
) -> Seq<NoticeView> {
    seq![NoticeView::Started { detail: started_detail(pid) }] + stderr_notices(lines)
        + seq![terminal]
}

/// Drives one run through the state machine in the serialized order: spawn,
/// each stderr line, then the exit report. Returns every notification in
/// emission order.
pub fn replay_run(
    pid: Option<u32>,
    stderr_lines: &Vec<String>,
    success: bool,
    status_text: &String,
) -> (ns: Vec<Notification>)
    ensures
        ns@.map_values(|n: Notification| n@) == run_history(
            pid,
            stderr_lines@.map_values(|l: String| l@),
            terminal_notice(success, status_text@),
        ),
{
    let ghost lines = stderr_lines@.map_values(|l: String| l@);
    let mut state = RunState::new();
    let mut ns: Vec<Notification> = Vec::new();
    let first = state.on_spawned(pid);
    ns.push(first);
    let mut i: usize = 0;
    while i < stderr_lines.len()
        invariant
            i <= stderr_lines.len(),
            lines == stderr_lines@.map_values(|l: String| l@),
            lines.len() == stderr_lines@.len(),
            state.wf(),
            state.started,
            !state.finished,
            ns@.len() == i + 1,
            ns@[0]@ == (NoticeView::Started { detail: started_detail(pid) }),
            forall|j: int|
                1 <= j < i + 1 ==> #[trigger] ns@[j]@ == (NoticeView::StderrLine {
                    line: lines[j - 1],
                }),
        decreases stderr_lines.len() - i,
    {
        let n = state.on_stderr_line(stderr_lines[i].clone());
        ns.push(n);
        proof {
            assert(lines[i as int] == stderr_lines@[i as int]@);
            assert(ns@[i as int + 1]@ == (NoticeView::StderrLine { line: lines[i as int] }));
        }
        i = i + 1;
    }
    let last = state.on_exit(success, status_text);
    ns.push(last);
    proof {
        let h = run_history(pid, lines, terminal_notice(success, status_text@));
        assert(h.len() == lines.len() + 2);
        assert(ns@[lines.len() as int + 1]@ == terminal_notice(success, status_text@));
        assert forall|j: int| 0 <= j < ns@.len() implies #[trigger] ns@[j]@ == h[j] by {
            if j == 0 {
                assert(h[0] == (NoticeView::Started { detail: started_detail(pid) }));
            } else if j < lines.len() + 1 {
                assert(h[j] == stderr_notices(lines)[j - 1]);
                assert(stderr_notices(lines)[j - 1] == (NoticeView::StderrLine {
                    line: lines[j - 1],
                }));
            } else {
                assert(h[j] == terminal_notice(success, status_text@));
            }
        }
        assert(ns@.map_values(|n: Notification| n@) =~= h);
    }
    ns
}

/// The shape shared by every serialized run observation.
proof fn lemma_run_observation(pid: Option<u32>, lines: Seq<Seq<char>>, terminal: NoticeView)
    requires
        is_terminal(terminal),
    ensures
        ({
            let h = run_history(pid, lines, terminal);
            &&& h.len() == lines.len() + 2
            &&& h[0] == (NoticeView::Started { detail: started_detail(pid) })
            &&& forall|i: int|
                0 <= i < lines.len() ==> h[i + 1] == (NoticeView::StderrLine { line: lines[i] })
            &&& h.last() == terminal
            &&& count_matching(h, |n: NoticeView| n is StderrLine) == lines.len()
            &&& count_matching(h, |n: NoticeView| n is Success) == (if terminal is Success {
                1nat
            } else {
                0nat
            })
            &&& count_matching(h, |n: NoticeView| n is RunError) == (if terminal is RunError {
                1nat
            } else {
                0nat
            })
        }),
{
    let start = seq![NoticeView::Started { detail: started_detail(pid) }];
    let mids = stderr_notices(lines);
    let fin = seq![terminal];
    let h = run_history(pid, lines, terminal);
    assert(h == start + mids + fin);
    assert(h[0] == start[0]);
    assert forall|i: int| 0 <= i < lines.len() implies h[i + 1] == (NoticeView::StderrLine {
        line: lines[i],
    }) by {
        assert(h[i + 1] == mids[i]);
    }
    assert(h.last() == fin[0]);
    assert(forall|j: int| 0 <= j < mids.len() ==> #[trigger] mids[j] == (NoticeView::StderrLine {
        line: lines[j],
    }));
    lemma_count_concat(start + mids, fin, |n: NoticeView| n is StderrLine);
    lemma_count_concat(start, mids, |n: NoticeView| n is StderrLine);
    lemma_count_single(start[0], |n: NoticeView| n is StderrLine);
    lemma_count_single(terminal, |n: NoticeView| n is StderrLine);
    lemma_count_all(mids, |n: NoticeView| n is StderrLine);
    lemma_count_concat(start + mids, fin, |n: NoticeView| n is Success);
    lemma_count_concat(start, mids, |n: NoticeView| n is Success);
    lemma_count_single(start[0], |n: NoticeView| n is Success);
    lemma_count_single(terminal, |n: NoticeView| n is Success);
    lemma_count_none(mids, |n: NoticeView| n is Success);
    lemma_count_concat(start + mids, fin, |n: NoticeView| n is RunError);
    lemma_count_concat(start, mids, |n: NoticeView| n is RunError);
    lemma_count_single(start[0], |n: NoticeView| n is RunError);
    lemma_count_single(terminal, |n: NoticeView| n is RunError);
    lemma_count_none(mids, |n: NoticeView| n is RunError);
}

/// A child that writes `lines` to stderr and exits successfully is observed,
/// in serialized order, as the one `Started` notification, then exactly one
/// stderr notification per line — the order matching the write order — then
/// the one `Success` notification.
pub proof fn lemma_run_success_observation(
    pid: Option<u32>,
    lines: Seq<Seq<char>>,
    status: Seq<char>,
)
    ensures
        ({
            let h = run_history(pid, lines, terminal_notice(true, status));
            &&& h.len() == lines.len() + 2
            &&& h[0] == (NoticeView::Started { detail: started_detail(pid) })
            &&& forall|i: int|
                0 <= i < lines.len() ==> h[i + 1] == (NoticeView::StderrLine { line: lines[i] })
            &&& h.last() == (NoticeView::Success { detail: success_detail(status) })
            &&& count_matching(h, |n: NoticeView| n is StderrLine) == lines.len()
            &&& count_matching(h, |n: NoticeView| n is Success) == 1
            &&& count_matching(h, |n: NoticeView| n is RunError) == 0
        }),
{
    lemma_run_observation(pid, lines, terminal_notice(true, status));
}

/// A child that exits with a non-zero status is observed with a `RunError`
/// notification whose text carries the status description — and no
/// `Success` notification at all.
pub proof fn lemma_run_error_observation(
    pid: Option<u32>,
    lines: Seq<Seq<char>>,
    status: Seq<char>,
)
    ensures
        ({
            let h = run_history(pid, lines, terminal_notice(false, status));
            &&& h.last() == (NoticeView::RunError { detail: exit_error_detail(status) })
            &&& payload_of(h.last()).skip(payload_of(h.last()).len() - status.len()) == status
            &&& count_matching(h, |n: NoticeView| n is Success) == 0
            &&& count_matching(h, |n: NoticeView| n is RunError) == 1
        }),
{
    lemma_run_observation(pid, lines, terminal_notice(false, status));
    let h = run_history(pid, lines, terminal_notice(false, status));
    assert(payload_of(h.last()).skip(payload_of(h.last()).len() - status.len()) =~= status);
}

} // verus!
