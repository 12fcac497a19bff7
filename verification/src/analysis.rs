//! Control of BPM/key analysis: how many tracks are analyzed at once, when a
//! stored analysis makes the DSP unnecessary, the life cycle of one track's
//! analysis task, and the registry through which running tasks are cancelled.
//!
//! Detected BPM values are carried as an opaque type `B`.
use vstd::prelude::*;

use crate::error::CrateError;
use crate::text::{concat, contains, contains_seq, owned, str_eq};

verus! {

// ---------------------------------------------------------------------------
// Status and results
// ---------------------------------------------------------------------------

/// Status of a track's analysis, as reported to the user interface.
#[derive(Debug, Clone, Copy, PartialEq, Eq)]
pub enum AnalysisStatus {
    Pending,
    Analyzing,
    Completed,
    Failed,
    Cancelled,
}

/// Result of analyzing a single track.
#[derive(Debug, Clone)]
pub struct AnalysisResult<B> {
    pub track_id: String,
    pub bpm: Option<B>,
    pub key: Option<String>,
    pub success: bool,
    pub error: Option<String>,
}

/// A successful analysis carrying the detected (or stored) BPM and key.
pub fn success_result<B>(track_id: &str, bpm: Option<B>, key: Option<String>) -> (r: AnalysisResult<B>)
    ensures
        r.track_id@ == track_id@,
        r.bpm == bpm,
        r.key == key,
        r.success,
        r.error is None,
{
    AnalysisResult { track_id: owned(track_id), bpm, key, success: true, error: None }
}

/// A failed analysis with its error message and no BPM or key.
pub fn failure_result<B>(track_id: &str, error: &str) -> (r: AnalysisResult<B>)
    ensures
        r.track_id@ == track_id@,
        r.bpm is None,
        r.key is None,
        !r.success,
        r.error matches Some(e) && e@ == error@,
{
    AnalysisResult { track_id: owned(track_id), bpm: None, key: None, success: false, error: Some(owned(error)) }
}

// ---------------------------------------------------------------------------
// Worker limit
// ---------------------------------------------------------------------------

/// Upper bound on concurrent analyses: analysis is CPU-bound, so without a
/// ceiling a large batch would occupy every core.
pub const ANALYSIS_WORKER_LIMIT_MAX: usize = 4;

/// How many tracks may be analyzed at once given the host's reported
/// parallelism: half the cores, at least 1 and at most 4; 2 when the host does
/// not report its parallelism.
pub open spec fn worker_limit(parallelism: Option<usize>) -> nat {
    match parallelism {
        Some(n) => if n / 2 < 1 {
            1
        } else if n / 2 > ANALYSIS_WORKER_LIMIT_MAX {
            ANALYSIS_WORKER_LIMIT_MAX as nat
        } else {
            (n / 2) as nat
        },
        None => 2,
    }
}

/// The number of analysis worker slots for a host reporting `parallelism` cores.
pub fn worker_limit_for(parallelism: Option<usize>) -> (limit: usize)
    ensures
        limit == worker_limit(parallelism),
        1 <= limit <= ANALYSIS_WORKER_LIMIT_MAX,
{
    match parallelism {
        Some(n) => {
            let half = n / 2;
            if half < 1 {
                1
            } else if half > ANALYSIS_WORKER_LIMIT_MAX {
                ANALYSIS_WORKER_LIMIT_MAX
            } else {
                half
            }
        },
        None => 2,
    }
}

/// The worker limit never stalls the queue and never exceeds the ceiling, and
/// more cores never mean fewer workers.
pub proof fn lemma_worker_limit_bounds(a: usize, b: usize)
    ensures
        1 <= worker_limit(Some(a)) <= ANALYSIS_WORKER_LIMIT_MAX,
        1 <= worker_limit(None) <= ANALYSIS_WORKER_LIMIT_MAX,
        a <= b ==> worker_limit(Some(a)) <= worker_limit(Some(b)),
{
}

// ---------------------------------------------------------------------------
// Skipping tracks that are already analyzed
// ---------------------------------------------------------------------------

/// The stored BPM and key of a track, only when both are present: a partial
/// analysis is not a reason to skip the DSP.
pub fn complete_analysis<B>(bpm: Option<B>, key: Option<String>) -> (r: Option<(B, String)>)
    ensures
        match (bpm, key) {
            (Some(b), Some(k)) => r matches Some(p) && p.0 == b && p.1 == k,
            _ => r is None,
        },
{
    match (bpm, key) {
        (Some(b), Some(k)) => Some((b, k)),
        _ => None,
    }
}

// ---------------------------------------------------------------------------
// Decisions of one analysis run
// ---------------------------------------------------------------------------

/// How often (in decoded packets) the decoder checks for cancellation.
pub const CANCEL_CHECK_INTERVAL: u32 = 100;

/// Whether the decoder checks for cancellation after its `packet_count`-th packet.
pub fn checks_cancellation_at(packet_count: u32) -> (b: bool)
    ensures
        b == (packet_count % 100 == 0),
{
    packet_count % CANCEL_CHECK_INTERVAL == 0
}

/// The error that ends a cancelled analysis.
pub fn cancelled_error() -> (e: CrateError)
    ensures
        e matches CrateError::Analysis(m) && m@ == "Cancelled"@,
{
    CrateError::Analysis(owned("Cancelled"))
}

/// What happens before the DSP runs: a missing file ends the run with a failed
/// result (not an error), and a cancelled run ends with the cancellation error.
/// `None` means the DSP should run.
pub fn analysis_precheck<B>(track_id: &str, file_path: &str, file_exists: bool, cancelled: bool) -> (r:
    Option<Result<AnalysisResult<B>, CrateError>>)
    ensures
        !file_exists ==> (r matches Some(Ok(res)) && res.track_id@ == track_id@ && !res.success
            && res.bpm is None && res.key is None && (res.error matches Some(e) && e@
            == "File not found: "@ + file_path@)),
        file_exists && cancelled ==> (r matches Some(Err(CrateError::Analysis(m))) && m@
            == "Cancelled"@),
        file_exists && !cancelled ==> r is None,
{
    if !file_exists {
        let msg = concat("File not found: ", file_path);
        return Some(Ok(failure_result(track_id, msg.as_str())));
    }
    if cancelled {
        return Some(Err(cancelled_error()));
    }
    None
}

/// What happens when the DSP fails with `message`: a failure caused by
/// cancellation ends the run with the cancellation error; any other failure is
/// reported as a failed result.
pub fn analysis_error_outcome<B>(track_id: &str, message: &str) -> (r: Result<
    AnalysisResult<B>,
    CrateError,
>)
    ensures
        contains_seq(message@, "Cancelled"@) ==> (r matches Err(CrateError::Analysis(m)) && m@
            == "Cancelled"@),
        !contains_seq(message@, "Cancelled"@) ==> (r matches Ok(res) && res.track_id@ == track_id@
            && !res.success && res.bpm is None && res.key is None && (res.error matches Some(e)
            && e@ == message@)),
{
    if contains(message, "Cancelled") {
        return Err(cancelled_error());
    }
    Ok(failure_result(track_id, message))
}

// ---------------------------------------------------------------------------
// The life cycle of one track's analysis task
// ---------------------------------------------------------------------------

/// Where a track's analysis task stands.
#[derive(Debug, Clone, Copy, PartialEq, Eq)]
pub enum TaskStep {
    /// Spawned; nothing checked yet.
    Start,
    /// Reading the track's stored BPM and key.
    Lookup,
    /// Waiting for a worker slot.
    Queued,
    /// Holding a slot; the DSP runs.
    Running,
    /// A terminal event has been emitted and the task removed from the registry.
    Done,
}

/// How the DSP run of a track ended.
pub enum RunOutcome {
    /// The run produced a result.
    Finished,
    /// The run returned an error with this message.
    Failed(String),
    /// The blocking task panicked; the message describes the join error.
    Panicked(String),
}

/// What the task observed since its last step.
pub enum TaskEvent {
    /// Whether the task was cancelled before starting.
    Started { cancelled: bool },
    /// Whether the track already has both a BPM and a key stored.
    ExistingChecked { complete: bool },
    /// Whether a worker slot was obtained (the wait ends without one on cancellation).
    SlotWaited { acquired: bool },
    /// The DSP run ended; whether the task was cancelled meanwhile.
    Ran { cancelled: bool, outcome: RunOutcome },
}

/// What the task does next.
pub enum TaskAction {
    /// Emit `Cancelled` and remove the task.
    EmitCancelled,
    /// Read the stored BPM and key.
    LookUpExisting,
    /// Emit `Completed` with the stored BPM and key, and remove the task; no DSP runs.
    EmitSkipped,
    /// Wait for a worker slot.
    WaitForSlot,
    /// Emit `Analyzing` and run the DSP while holding the slot.
    EmitAnalyzingAndRun,
    /// Emit `Completed` with the run's result, and remove the task.
    EmitCompleted,
    /// Emit `Failed` with this message, and remove the task.
    EmitFailed(String),
}

/// The event that may follow a step.
pub open spec fn event_fits(step: TaskStep, event: TaskEvent) -> bool {
    match step {
        TaskStep::Start => event is Started,
        TaskStep::Lookup => event is ExistingChecked,
        TaskStep::Queued => event is SlotWaited,
        TaskStep::Running => event is Ran,
        TaskStep::Done => false,
    }
}

/// Whether `event` is the kind of event that may follow `step`.
pub fn event_fits_step(step: TaskStep, event: &TaskEvent) -> (b: bool)
    ensures
        b == event_fits(step, *event),
{
    match step {
        TaskStep::Start => matches!(event, TaskEvent::Started { .. }),
        TaskStep::Lookup => matches!(event, TaskEvent::ExistingChecked { .. }),
        TaskStep::Queued => matches!(event, TaskEvent::SlotWaited { .. }),
        TaskStep::Running => matches!(event, TaskEvent::Ran { .. }),
        TaskStep::Done => false,
    }
}

/// An action that ends the task (emits its terminal event and removes it).
pub open spec fn is_terminal(action: TaskAction) -> bool {
    match action {
        TaskAction::EmitCancelled => true,
        TaskAction::EmitSkipped => true,
        TaskAction::EmitCompleted => true,
        TaskAction::EmitFailed(_) => true,
        _ => false,
    }
}

/// How far a task has come: every event moves it strictly forward, so a task
/// reaches `Done` after at most four events, and no event follows `Done`.
pub open spec fn step_rank(step: TaskStep) -> nat {
    match step {
        TaskStep::Start => 0,
        TaskStep::Lookup => 1,
        TaskStep::Queued => 2,
        TaskStep::Running => 3,
        TaskStep::Done => 4,
    }
}

/// The next step and action of a track's analysis task. A cancelled task stops
/// at the first point it notices; without `force` a track whose BPM and key are
/// both stored completes without waiting for a slot; the `Analyzing` event is
/// emitted only once a slot is held; every run ends with one terminal event.
pub fn next_task_step(step: TaskStep, force: bool, event: TaskEvent) -> (r: (TaskStep, TaskAction))
    requires
        event_fits(step, event),
    ensures
        (r.0 == TaskStep::Done) == is_terminal(r.1),
        step_rank(r.0) > step_rank(step),
        match (step, event) {
            (TaskStep::Start, TaskEvent::Started { cancelled }) => if cancelled {
                r.0 == TaskStep::Done && r.1 is EmitCancelled
            } else if force {
                r.0 == TaskStep::Queued && r.1 is WaitForSlot
            } else {
                r.0 == TaskStep::Lookup && r.1 is LookUpExisting
            },
            (TaskStep::Lookup, TaskEvent::ExistingChecked { complete }) => if complete {
                r.0 == TaskStep::Done && r.1 is EmitSkipped
            } else {
                r.0 == TaskStep::Queued && r.1 is WaitForSlot
            },
            (TaskStep::Queued, TaskEvent::SlotWaited { acquired }) => if acquired {
                r.0 == TaskStep::Running && r.1 is EmitAnalyzingAndRun
            } else {
                r.0 == TaskStep::Done && r.1 is EmitCancelled
            },
            (TaskStep::Running, TaskEvent::Ran { cancelled, outcome }) => r.0 == TaskStep::Done
                && if cancelled {
                r.1 is EmitCancelled
            } else {
                match outcome {
                    RunOutcome::Finished => r.1 is EmitCompleted,
                    RunOutcome::Failed(m) => r.1 matches TaskAction::EmitFailed(e) && e@ == m@,
                    RunOutcome::Panicked(m) => r.1 matches TaskAction::EmitFailed(e) && e@
                        == "Task panicked: "@ + m@,
                }
            },
            _ => false,
        },
{
    match event {
        TaskEvent::Started { cancelled } => {
            if cancelled {
                (TaskStep::Done, TaskAction::EmitCancelled)
            } else if force {
                (TaskStep::Queued, TaskAction::WaitForSlot)
            } else {
                (TaskStep::Lookup, TaskAction::LookUpExisting)
            }
        },
        TaskEvent::ExistingChecked { complete } => {
            if complete {
                (TaskStep::Done, TaskAction::EmitSkipped)
            } else {
                (TaskStep::Queued, TaskAction::WaitForSlot)
            }
        },
        TaskEvent::SlotWaited { acquired } => {
            if acquired {
                (TaskStep::Running, TaskAction::EmitAnalyzingAndRun)
            } else {
                (TaskStep::Done, TaskAction::EmitCancelled)
            }
        },
        TaskEvent::Ran { cancelled, outcome } => {
            if cancelled {
                (TaskStep::Done, TaskAction::EmitCancelled)
            } else {
                match outcome {
                    RunOutcome::Finished => (TaskStep::Done, TaskAction::EmitCompleted),
                    RunOutcome::Failed(m) => (TaskStep::Done, TaskAction::EmitFailed(m)),
                    RunOutcome::Panicked(m) => (
                        TaskStep::Done,
                        TaskAction::EmitFailed(concat("Task panicked: ", m.as_str())),
                    ),
                }
            }
        },
    }
}

// ---------------------------------------------------------------------------
// Registry of running tasks
// ---------------------------------------------------------------------------

/// The running analysis tasks, keyed by track id; a task is looked up here to be
/// cancelled. At most one task is registered per track.
pub struct TaskRegistry<T> {
    pub entries: Vec<(String, T)>,
}

impl<T> TaskRegistry<T> {
    /// No track has two entries.
    pub open spec fn wf(&self) -> bool {
        forall|i: int, j: int|
            0 <= i < self.entries@.len() && 0 <= j < self.entries@.len() && i != j ==> (
            #[trigger] self.entries@[i]).0@ != (#[trigger] self.entries@[j]).0@
    }

    /// Some entry is registered under `id`.
    pub open spec fn has(&self, id: Seq<char>) -> bool {
        exists|i: int| 0 <= i < self.entries@.len() && (#[trigger] self.entries@[i]).0@ == id
    }

    /// The position of the entry registered under `id`.
    pub open spec fn position(&self, id: Seq<char>) -> int {
        choose|i: int| 0 <= i < self.entries@.len() && (#[trigger] self.entries@[i]).0@ == id
    }

    /// The registered tasks by track id.
    pub open spec fn view(&self) -> Map<Seq<char>, T> {
        Map::new(|id: Seq<char>| self.has(id), |id: Seq<char>| self.entries@[self.position(id)].1)
    }

    proof fn lemma_position(&self, i: int)
        requires
            self.wf(),
            0 <= i < self.entries@.len(),
        ensures
            self.has(self.entries@[i].0@),
            self.position(self.entries@[i].0@) == i,
    {
        let id = self.entries@[i].0@;
        assert(self.has(id));
        let p = self.position(id);
        if p != i {
            assert(self.entries@[p].0@ != self.entries@[i].0@);
        }
    }

    /// An empty registry.
    pub fn new() -> (r: Self)
        ensures
            r.wf(),
            r@ == Map::<Seq<char>, T>::empty(),
    {
        let r = TaskRegistry { entries: Vec::new() };
        assert(r@ =~= Map::<Seq<char>, T>::empty());
        r
    }

    fn find(&self, id: &str) -> (r: Option<usize>)
        requires
            self.wf(),
        ensures
            r matches Some(i) ==> i < self.entries@.len() && self.entries@[i as int].0@ == id@,
            r is None ==> !self.has(id@),
    {
        let mut i: usize = 0;
        while i < self.entries.len()
            invariant
                i <= self.entries@.len(),
                forall|j: int| 0 <= j < i ==> (#[trigger] self.entries@[j]).0@ != id@,
            decreases self.entries@.len() - i,
        {
            if str_eq(self.entries[i].0.as_str(), id) {
                return Some(i);
            }
            i = i + 1;
        }
        None
    }

    /// Whether a task is registered for `id`.
    pub fn contains(&self, id: &str) -> (b: bool)
        requires
            self.wf(),
        ensures
            b == self@.contains_key(id@),
    {
        self.find(id).is_some()
    }

    /// Removes the task registered for `id`, returning it.
    pub fn remove(&mut self, id: &str) -> (r: Option<T>)
        requires
            old(self).wf(),
        ensures
            final(self).wf(),
            final(self)@ == old(self)@.remove(id@),
            r == (if old(self)@.contains_key(id@) {
                Some(old(self)@[id@])
            } else {
                None
            }),
    {
        match self.find(id) {
            None => {
                assert(self@ =~= old(self)@.remove(id@));
                None
            },
            Some(i) => {
                let ghost old_reg = *old(self);
                proof {
                    old_reg.lemma_position(i as int);
                }
                let (_, task) = self.entries.remove(i);
                proof {
                    let e0 = old_reg.entries@;
                    let e1 = self.entries@;
                    assert forall|a: int, b: int|
                        0 <= a < e1.len() && 0 <= b < e1.len() && a != b implies (#[trigger] e1[a]).0@
                        != (#[trigger] e1[b]).0@ by {
                        let a0 = if a < i { a } else { a + 1 };
                        let b0 = if b < i { b } else { b + 1 };
                        assert(e1[a] == e0[a0]);
                        assert(e1[b] == e0[b0]);
                    }
                    assert forall|k: Seq<char>| #[trigger] self.has(k) == (old_reg.has(k) && k != id@) by {
                        if self.has(k) {
                            let j = choose|j: int| 0 <= j < e1.len() && (#[trigger] e1[j]).0@ == k;
                            let j0 = if j < i { j } else { j + 1 };
                            assert(e1[j] == e0[j0]);
                            assert(old_reg.has(k));
                            assert(j0 != i);
                        }
                        if old_reg.has(k) && k != id@ {
                            let j0 = choose|j: int| 0 <= j < e0.len() && (#[trigger] e0[j]).0@ == k;
                            assert(j0 != i);
                            let j = if j0 < i { j0 } else { j0 - 1 };
                            assert(e1[j] == e0[j0]);
                        }
                    }
                    assert forall|k: Seq<char>| self.has(k) implies #[trigger] self@[k] == old_reg@[k] by {
                        let j = self.position(k);
                        let j0 = if j < i { j } else { j + 1 };
                        assert(e1[j] == e0[j0]);
                        old_reg.lemma_position(j0);
                    }
                    assert(self@ =~= old_reg@.remove(id@));
                }
                Some(task)
            },
        }
    }

    /// Registers `task` for `id`, returning the task it replaces, if any.
    pub fn insert(&mut self, id: String, task: T) -> (r: Option<T>)
        requires
            old(self).wf(),
        ensures
            final(self).wf(),
            final(self)@ == old(self)@.insert(id@, task),
            r == (if old(self)@.contains_key(id@) {
                Some(old(self)@[id@])
            } else {
                None
            }),
    {
        let previous = self.remove(id.as_str());
        let ghost mid = *self;
        let ghost idv = id@;
        self.entries.push((id, task));
        proof {
            let e0 = mid.entries@;
            let e1 = self.entries@;
            let n = e0.len() as int;
            assert(mid@ == old(self)@.remove(idv));
            assert(!mid@.contains_key(idv));
            assert(!mid.has(idv));
            assert forall|a: int, b: int|
                0 <= a < e1.len() && 0 <= b < e1.len() && a != b implies (#[trigger] e1[a]).0@
                != (#[trigger] e1[b]).0@ by {
                if a < n && b < n {
                    assert(e1[a] == e0[a] && e1[b] == e0[b]);
                } else if a < n {
                    assert(e1[a] == e0[a]);
                } else {
                    assert(e1[b] == e0[b]);
                }
            }
            assert forall|k: Seq<char>| #[trigger] self.has(k) == (mid.has(k) || k == idv) by {
                if self.has(k) {
                    let j = choose|j: int| 0 <= j < e1.len() && (#[trigger] e1[j]).0@ == k;
                    if j < n {
                        assert(e1[j] == e0[j]);
                    }
                }
                if mid.has(k) {
                    let j = choose|j: int| 0 <= j < e0.len() && (#[trigger] e0[j]).0@ == k;
                    assert(e1[j] == e0[j]);
                }
                if k == idv {
                    assert(e1[n].0@ == idv);
                }
            }
            assert forall|k: Seq<char>| self.has(k) implies #[trigger] self@[k] == (if k == idv {
                task
            } else {
                mid@[k]
            }) by {
                let j = self.position(k);
                if k == idv {
                    self.lemma_position(n);
                } else {
                    assert(j != n);
                    assert(e1[j] == e0[j]);
                    mid.lemma_position(j);
                }
            }
            let target = old(self)@.insert(idv, task);
            assert forall|k: Seq<char>| #[trigger] self@.contains_key(k) == target.contains_key(k) by {
                assert(self@.contains_key(k) == self.has(k));
                assert(mid@.contains_key(k) == mid.has(k));
            }
            assert forall|k: Seq<char>| #[trigger] self@.contains_key(k) implies self@[k] == target[k] by {
                assert(self.has(k));
                if k != idv {
                    assert(mid.has(k));
                    assert(mid@.contains_key(k));
                }
            }
            assert(self@ =~= target);
        }
        previous
    }

    /// Removes every registered task, returning them all.
    pub fn drain(&mut self) -> (tasks: Vec<T>)
        requires
            old(self).wf(),
        ensures
            final(self).wf(),
            final(self)@ == Map::<Seq<char>, T>::empty(),
            tasks@.len() == old(self).entries@.len(),
            forall|id: Seq<char>|
                #[trigger] old(self)@.contains_key(id) ==> tasks@.contains(old(self)@[id]),
    {
        let ghost old_reg = *old(self);
        let mut tasks: Vec<T> = Vec::new();
        let mut entries: Vec<(String, T)> = Vec::new();
        std::mem::swap(&mut entries, &mut self.entries);
        let ghost all = entries@;
        assert(all == old_reg.entries@);
        while entries.len() > 0
            invariant
                entries@.len() + tasks@.len() == all.len(),
                forall|j: int| 0 <= j < tasks@.len() ==> #[trigger] tasks@[j] == all[all.len() - 1 - j].1,
                forall|j: int| 0 <= j < entries@.len() ==> #[trigger] entries@[j] == all[j],
            decreases entries@.len(),
        {
            let (_, t) = entries.pop().unwrap();
            tasks.push(t);
        }
        proof {
            assert(self@ =~= Map::<Seq<char>, T>::empty());
            assert forall|id: Seq<char>| #[trigger] old_reg@.contains_key(id) implies tasks@.contains(
                old_reg@[id],
            ) by {
                let p = old_reg.position(id);
                assert(tasks@[all.len() - 1 - p] == all[p].1);
            }
        }
        tasks
    }
}

/// Cancelling a track twice finds its task only the first time; cancelling one
/// track leaves every other track's task registered.
pub proof fn lemma_cancel_once<T>(reg: Map<Seq<char>, T>, id: Seq<char>, other: Seq<char>)
    requires
        reg.contains_key(id),
        other != id,
    ensures
        !reg.remove(id).contains_key(id),
        reg.remove(id).contains_key(other) == reg.contains_key(other),
{
}

} // verus!
