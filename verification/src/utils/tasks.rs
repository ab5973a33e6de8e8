//! Background-task tracking: task identities, the task value object, and
//! the registry that owns every task, orders its status transitions, logs
//! change notifications and hands each task's one-shot result channel out
//! at most once.
//!
//! Status transitions are monotonic: once a task is in a terminal status
//! (Completed, Failed or Cancelled) no later update changes it. All
//! wall-clock instants are taken as millisecond arguments so that every
//! rule here is checked for every possible clock reading.

use crate::ai::types::ProgressStats;
use crate::ai::types::TaskStatus;
use crate::ai::types::PROGRESS_TOKEN_LIMIT;
use vstd::prelude::*;
use vstd::string::StringExecFns;
use vstd::seq_lib::*;

verus! {

/// The one-shot result channels of the registry are real `tokio` receiver
/// halves; the registry only stores them and hands them out, so the type
/// stays opaque here.
#[verifier::external_type_specification]
#[verifier::external_body]
#[verifier::reject_recursive_types(T)]
pub struct ExTokioReceiver<T>(tokio::sync::mpsc::Receiver<T>);

/// Relies on `uuid::Uuid::new_v4` for a freshly drawn random 128-bit
/// version-4 identifier; nothing is assumed of the value drawn.
#[verifier::external_body]
fn random_uuid_bits() -> u128 {
    uuid::Uuid::new_v4().as_u128()
}

/// Unique identifier for a task: the 128 bits of a version-4 UUID.
#[derive(Debug, Clone, Copy, PartialEq, Eq, Structural, Hash)]
pub struct TaskId(pub u128);

impl TaskId {
    /// Create a new random task ID.
    pub fn new() -> Self {
        TaskId(random_uuid_bits())
    }

    /// The short display form of the id: the first hyphen-separated
    /// group of its UUID rendering, which is the top 32 bits as eight
    /// lowercase hexadecimal digits.
    pub fn short(&self) -> (r: String)
        ensures
            r@ == crate::utils::format::hex_fixed(((self.0 >> 96) as u64) as int, 8),
    {
        let top: u64 = (self.0 >> 96) as u64;
        crate::utils::format::hex_fixed_string(top, 8)
    }
}

/// Type of task.
#[derive(Debug, Clone, Copy, PartialEq, Eq, Structural)]
pub enum TaskType {
    /// AI generation task.
    AIGeneration,
    /// Bash command execution.
    BashCommand,
    /// File operation (read/write).
    FileOperation,
    /// Network request.
    NetworkRequest,
    /// Other generic task.
    Other,
}

/// A background task with metadata.
///
/// Timestamps are milliseconds. A task is well formed when its
/// completion stamp is present exactly when its status is terminal, a
/// Pending task carries no start stamp, and its progress record (if
/// any) is itself well formed.
#[derive(Debug, Clone)]
pub struct Task {
    /// Unique ID for the task.
    pub id: TaskId,
    /// Human-readable name.
    pub name: String,
    /// Type of task.
    pub task_type: TaskType,
    /// Current status.
    pub status: TaskStatus,
    /// Creation instant, in milliseconds.
    pub created_at: u64,
    /// Start instant (when the task first entered Running).
    pub started_at: Option<u64>,
    /// Completion instant (when the task entered a terminal status).
    pub completed_at: Option<u64>,
    /// Progress statistics.
    pub progress: Option<ProgressStats>,
    /// Task description (optional).
    pub description: Option<String>,
}

impl Task {
    /// Internal consistency of a task record: the completion stamp is
    /// present exactly when the status is terminal, a task that never
    /// left Pending has no start stamp (so the first transition into
    /// Running always stamps it), and the progress record is well
    /// formed.
    pub open spec fn wf(self) -> bool {
        &&& (self.status.spec_is_terminal() <==> self.completed_at is Some)
        &&& (self.status == TaskStatus::Pending ==> self.started_at is None)
        &&& match self.progress {
            Some(p) => p.wf(),
            None => true,
        }
    }

    /// Whether the task is still active (not yet in a terminal status).
    pub open spec fn spec_active(self) -> bool {
        self.status == TaskStatus::Pending || self.status == TaskStatus::Running
    }

    /// Create a new task with a freshly drawn random id.
    pub fn new(name: String, task_type: TaskType, now_ms: u64) -> (r: Task)
        ensures
            r.name == name,
            r.task_type == task_type,
            r.status == TaskStatus::Pending,
            r.created_at == now_ms,
            r.started_at is None,
            r.completed_at is None,
            r.progress is None,
            r.description is None,
            r.wf(),
    {
        Task {
            id: TaskId::new(),
            name,
            task_type,
            status: TaskStatus::Pending,
            created_at: now_ms,
            started_at: None,
            completed_at: None,
            progress: None,
            description: None,
        }
    }

    /// An exact value copy of the task.
    fn snapshot(&self) -> (r: Task)
        ensures
            r == *self,
    {
        Task {
            id: self.id,
            name: self.name.clone(),
            task_type: self.task_type,
            status: self.status,
            created_at: self.created_at,
            started_at: self.started_at,
            completed_at: self.completed_at,
            progress: self.progress,
            description: match &self.description {
                Some(d) => Some(d.clone()),
                None => None,
            },
        }
    }

    /// The task after being marked running at `now`: status becomes
    /// Running and the start instant is stamped on the first such
    /// transition only.
    pub open spec fn spec_marked_running(self, now: u64) -> Task {
        Task {
            status: TaskStatus::Running,
            started_at: if self.started_at is Some {
                self.started_at
            } else {
                Some(now)
            },
            ..self
        }
    }

    /// Mark the task as running at instant `now_ms`.
    pub fn mark_running(&mut self, now_ms: u64)
        ensures
            *final(self) == old(self).spec_marked_running(now_ms),
    {
        self.status = TaskStatus::Running;
        if self.started_at.is_none() {
            self.started_at = Some(now_ms);
        }
    }

    /// The task after completing at `now`: terminal Completed status, a
    /// completion stamp, and a progress record (if any) marked fully
    /// complete.
    pub open spec fn spec_marked_completed(self, now: u64) -> Task {
        Task {
            status: TaskStatus::Completed,
            completed_at: Some(now),
            progress: match self.progress {
                Some(p) => Some(ProgressStats { completion_permille: Some(1000u32), ..p }),
                None => None,
            },
            ..self
        }
    }

    /// Mark the task as completed at instant `now_ms`.
    pub fn mark_completed(&mut self, now_ms: u64)
        ensures
            *final(self) == old(self).spec_marked_completed(now_ms),
    {
        self.status = TaskStatus::Completed;
        self.completed_at = Some(now_ms);
        if let Some(progress) = &mut self.progress {
            progress.complete();
        }
    }

    /// The task after failing at `now`.
    pub open spec fn spec_marked_failed(self, now: u64) -> Task {
        Task { status: TaskStatus::Failed, completed_at: Some(now), ..self }
    }

    /// Mark the task as failed at instant `now_ms`.
    pub fn mark_failed(&mut self, now_ms: u64)
        ensures
            *final(self) == old(self).spec_marked_failed(now_ms),
    {
        self.status = TaskStatus::Failed;
        self.completed_at = Some(now_ms);
    }

    /// The task after being cancelled at `now`.
    pub open spec fn spec_marked_cancelled(self, now: u64) -> Task {
        Task { status: TaskStatus::Cancelled, completed_at: Some(now), ..self }
    }

    /// Mark the task as cancelled at instant `now_ms`.
    pub fn mark_cancelled(&mut self, now_ms: u64)
        ensures
            *final(self) == old(self).spec_marked_cancelled(now_ms),
    {
        self.status = TaskStatus::Cancelled;
        self.completed_at = Some(now_ms);
    }

    /// Set the task's progress stats.
    pub fn set_progress(&mut self, progress: ProgressStats)
        ensures
            *final(self) == (Task { progress: Some(progress), ..*old(self) }),
    {
        self.progress = Some(progress);
    }

    /// The task after a progress update to `tokens` total tokens at
    /// instant `now`: an existing record is stepped by its own update
    /// rule; otherwise a fresh record starting at `now` is attached (its
    /// immediate update coalesces, exactly as two back-to-back calls
    /// would).
    pub open spec fn spec_progress_updated(self, tokens: usize, now: u64) -> Task {
        Task {
            progress: match self.progress {
                Some(p) => Some(p.spec_updated(tokens, now)),
                None => Some(ProgressStats::spec_new(now).spec_updated(tokens, now)),
            },
            ..self
        }
    }

    /// Update the task's progress to `tokens_generated` total tokens.
    pub fn update_progress(&mut self, tokens_generated: usize, now_ms: u64)
        requires
            old(self).wf(),
            tokens_generated <= PROGRESS_TOKEN_LIMIT,
        ensures
            *final(self) == old(self).spec_progress_updated(tokens_generated, now_ms),
            final(self).wf(),
    {
        if let Some(progress) = &mut self.progress {
            progress.update(tokens_generated, now_ms);
        } else {
            let mut progress = ProgressStats::new(now_ms);
            progress.update(tokens_generated, now_ms);
            self.progress = Some(progress);
        }
    }
    /// The milliseconds the task has run for: from its start (or, if it
    /// never started, its creation) to its completion (or, if it is not
    /// complete, to `now`); zero when the clock reads earlier than the
    /// start.
    pub open spec fn spec_duration_millis(self, now: u64) -> int {
        let end: int = match self.completed_at {
            Some(c) => c as int,
            None => now as int,
        };
        let start: int = match self.started_at {
            Some(st) => st as int,
            None => self.created_at as int,
        };
        if end >= start {
            end - start
        } else {
            0
        }
    }

    /// The task's duration so far, in whole seconds.
    pub fn duration_seconds(&self, now_ms: u64) -> (r: u64)
        ensures
            r == self.spec_duration_millis(now_ms) / 1000,
    {
        let end: u64 = match self.completed_at {
            Some(c) => c,
            None => now_ms,
        };
        let start: u64 = match self.started_at {
            Some(st) => st,
            None => self.created_at,
        };
        let ms = if end >= start {
            end - start
        } else {
            0
        };
        ms / 1000
    }

    /// The task's duration rendered for display: fractions of a second
    /// with two decimals under one second and one decimal under a
    /// minute, then minutes and rounded seconds, then hours and minutes.
    pub open spec fn spec_format_duration(self, now: u64) -> Seq<char> {
        let ms = self.spec_duration_millis(now);
        if ms < 1000 {
            crate::utils::format::dec_two_places(
                crate::utils::format::round_half_even(ms, 10),
            ) + "s"@
        } else if ms < 60000 {
            crate::utils::format::dec_one_place(
                crate::utils::format::round_half_even(ms, 100),
            ) + "s"@
        } else if ms < 3600000 {
            crate::utils::format::dec_str(ms / 60000) + "m "@ + crate::utils::format::dec_str(
                crate::utils::format::round_half_even(ms % 60000, 1000),
            ) + "s"@
        } else {
            crate::utils::format::dec_str(ms / 3600000) + "h "@ + crate::utils::format::dec_str(
                (ms % 3600000) / 60000,
            ) + "m"@
        }
    }

    /// Render the task's duration so far.
    pub fn format_duration(&self, now_ms: u64) -> (r: String)
        ensures
            r@ == self.spec_format_duration(now_ms),
    {
        let end: u64 = match self.completed_at {
            Some(c) => c,
            None => now_ms,
        };
        let start: u64 = match self.started_at {
            Some(st) => st,
            None => self.created_at,
        };
        let ms: u64 = if end >= start {
            end - start
        } else {
            0
        };
        if ms < 1000 {
            let mut r = crate::utils::format::two_places(crate::utils::format::round_to(ms, 10));
            r.append("s");
            r
        } else if ms < 60000 {
            let mut r = crate::utils::format::one_place(crate::utils::format::round_to(ms, 100));
            r.append("s");
            r
        } else if ms < 3600000 {
            let mut r = crate::utils::format::u64_to_string(ms / 60000);
            r.append("m ");
            let secs = crate::utils::format::u64_to_string(
                crate::utils::format::round_to(ms % 60000, 1000),
            );
            r.append(secs.as_str());
            r.append("s");
            r
        } else {
            let mut r = crate::utils::format::u64_to_string(ms / 3600000);
            r.append("h ");
            let mins = crate::utils::format::u64_to_string((ms % 3600000) / 60000);
            r.append(mins.as_str());
            r.append("m");
            r
        }
    }

}

/// The requested transition applied to a task under the monotonic rule:
/// a task already in a terminal status is left untouched; a Pending
/// request never changes state; the other requests stamp the task
/// through its corresponding marker.
pub open spec fn spec_apply_status(t: Task, status: TaskStatus, now: u64) -> Task {
    if t.status.spec_is_terminal() {
        t
    } else {
        match status {
            TaskStatus::Pending => t,
            TaskStatus::Running => t.spec_marked_running(now),
            TaskStatus::Completed => t.spec_marked_completed(now),
            TaskStatus::Failed => t.spec_marked_failed(now),
            TaskStatus::Cancelled => t.spec_marked_cancelled(now),
        }
    }
}

/// Once a task is terminal, no requested transition changes it.
pub proof fn lemma_terminal_status_is_stable(t: Task, status: TaskStatus, now: u64)
    ensures
        t.status.spec_is_terminal() ==> spec_apply_status(t, status, now) == t,
        spec_apply_status(t, status, now).status.spec_is_terminal() ==> (
        spec_apply_status(spec_apply_status(t, status, now), status, now) == spec_apply_status(
            t,
            status,
            now,
        )),
{
}

/// A task's status history is monotonic: however long the sequence of
/// requested transitions that follows, a task that has reached a
/// terminal status keeps exactly that status.
pub proof fn lemma_terminal_status_is_stable_forever(t: Task, requests: Seq<(TaskStatus, u64)>)
    requires
        t.status.spec_is_terminal(),
    ensures
        spec_run_status_requests(t, requests) == t,
    decreases requests.len(),
{
    if requests.len() > 0 {
        lemma_terminal_status_is_stable(t, requests[0].0, requests[0].1);
        lemma_terminal_status_is_stable_forever(t, requests.drop_first());
    }
}

/// A sequence of requested transitions applied in order.
pub open spec fn spec_run_status_requests(t: Task, requests: Seq<(TaskStatus, u64)>) -> Task
    decreases requests.len(),
{
    if requests.len() == 0 {
        t
    } else {
        spec_run_status_requests(
            spec_apply_status(t, requests[0].0, requests[0].1),
            requests.drop_first(),
        )
    }
}

/// Manager for background tasks: the single source of truth for task
/// existence and status.
///
/// Every status or progress change appends the affected id to the update
/// log, in the order the changes happened; a host loop drains the log and
/// fans the ids out to its subscribers. The side table of one-shot result
/// channels is keyed by task id and consumed exactly once.
pub struct TaskManager {
    tasks: Vec<Task>,
    updates: Vec<TaskId>,
    response_channels: Vec<(TaskId, tokio::sync::mpsc::Receiver<Option<String>>)>,
}

impl TaskManager {
    /// The tasks held by the registry, in insertion order.
    pub closed spec fn spec_tasks(self) -> Seq<Task> {
        self.tasks@
    }

    /// The notification log: every change appends the affected id.
    pub closed spec fn spec_updates(self) -> Seq<TaskId> {
        self.updates@
    }

    /// The stored one-shot result channels.
    pub closed spec fn spec_channels(self) -> Seq<
        (TaskId, tokio::sync::mpsc::Receiver<Option<String>>),
    > {
        self.response_channels@
    }

    /// Whether a task with this id is registered.
    pub open spec fn spec_has_task(self, id: TaskId) -> bool {
        tasks_has(self.spec_tasks(), id)
    }

    /// The task registered under this id (meaningful only when present).
    pub open spec fn spec_task_of(self, id: TaskId) -> Task {
        tasks_get(self.spec_tasks(), id)
    }

    /// Whether a result channel is stored for this id.
    pub open spec fn spec_has_channel(self, id: TaskId) -> bool {
        table_has(self.spec_channels(), id)
    }

    /// The stored result channel for this id (meaningful only when
    /// present).
    pub open spec fn spec_channel_of(self, id: TaskId) -> tokio::sync::mpsc::Receiver<
        Option<String>,
    > {
        table_get(self.spec_channels(), id)
    }

    /// Internal consistency of the registry: ids are unique on both
    /// tables and every task is well formed.
    pub open spec fn wf(self) -> bool {
        &&& tasks_unique(self.spec_tasks())
        &&& forall|i: int|
            0 <= i < self.spec_tasks().len() ==> (#[trigger] self.spec_tasks()[i]).wf()
        &&& table_unique(self.spec_channels())
    }

    /// Create a new, empty task manager.
    pub fn new() -> (r: Self)
        ensures
            r.spec_tasks() == Seq::<Task>::empty(),
            r.spec_updates() == Seq::<TaskId>::empty(),
            r.spec_channels() == Seq::<(TaskId, tokio::sync::mpsc::Receiver<Option<String>>)>::empty(),
            r.wf(),
    {
        TaskManager { tasks: Vec::new(), updates: Vec::new(), response_channels: Vec::new() }
    }

    /// Index of the task with the given id, scanning from the front.
    fn find_task_index(&self, id: TaskId) -> (r: Option<usize>)
        ensures
            match r {
                Some(i) => 0 <= i < self.spec_tasks().len() && self.spec_tasks()[i as int].id
                    == id,
                None => !self.spec_has_task(id),
            },
    {
        let mut i: usize = 0;
        while i < self.tasks.len()
            invariant
                i <= self.tasks@.len(),
                forall|j: int| 0 <= j < i ==> self.tasks@[j].id != id,
            decreases self.tasks@.len() - i,
        {
            if self.tasks[i].id == id {
                return Some(i);
            }
            i += 1;
        }
        None
    }

    /// Index of the stored channel with the given id.
    fn find_channel_index(&self, id: TaskId) -> (r: Option<usize>)
        ensures
            match r {
                Some(i) => 0 <= i < self.spec_channels().len() && self.spec_channels()[i as int].0
                    == id,
                None => !self.spec_has_channel(id),
            },
    {
        let mut i: usize = 0;
        while i < self.response_channels.len()
            invariant
                i <= self.response_channels@.len(),
                forall|j: int| 0 <= j < i ==> self.response_channels@[j].0 != id,
            decreases self.response_channels@.len() - i,
        {
            if self.response_channels[i].0 == id {
                return Some(i);
            }
            i += 1;
        }
        None
    }


    /// Store the one-shot result channel for a task, replacing any
    /// channel previously stored under the same id.
    pub fn set_response_channel(
        &mut self,
        id: TaskId,
        rx: tokio::sync::mpsc::Receiver<Option<String>>,
    )
        requires
            old(self).wf(),
        ensures
            final(self).spec_has_channel(id),
            final(self).spec_channel_of(id) == rx,
            forall|other: TaskId|
                other != id ==> #[trigger] final(self).spec_has_channel(other) == old(self).spec_has_channel(other),
            forall|other: TaskId|
                other != id && old(self).spec_has_channel(other) ==> #[trigger] final(self).spec_channel_of(other) == old(self).spec_channel_of(other),
            final(self).spec_tasks() == old(self).spec_tasks(),
            final(self).spec_updates() == old(self).spec_updates(),
            final(self).wf(),
    {
        let ghost orig = self.response_channels@;
        if let Some(i) = self.find_channel_index(id) {
            self.response_channels.remove(i);
            proof {
                lemma_table_remove(orig, self.response_channels@, id, i as int);
            }
        }
        let ghost mid = self.response_channels@;
        self.response_channels.push((id, rx));
        proof {
            lemma_table_push(mid, self.response_channels@, id, rx);
        }
    }

    /// Take the one-shot result channel for a task. The channel is handed
    /// out at most once: after a successful take no channel remains under
    /// the id, so a second take returns nothing.
    pub fn take_response_channel(&mut self, id: TaskId) -> (r: Option<
        tokio::sync::mpsc::Receiver<Option<String>>,
    >)
        requires
            old(self).wf(),
        ensures
            r is Some <==> old(self).spec_has_channel(id),
            old(self).spec_has_channel(id) ==> r == Some(old(self).spec_channel_of(id)),
            !final(self).spec_has_channel(id),
            forall|other: TaskId|
                other != id ==> #[trigger] final(self).spec_has_channel(other) == old(self).spec_has_channel(other),
            forall|other: TaskId|
                other != id && old(self).spec_has_channel(other) ==> #[trigger] final(self).spec_channel_of(other) == old(self).spec_channel_of(other),
            final(self).spec_tasks() == old(self).spec_tasks(),
            final(self).spec_updates() == old(self).spec_updates(),
            final(self).wf(),
    {
        match self.find_channel_index(id) {
            Some(i) => {
                proof {
                    lemma_table_found(self.response_channels@, id, i as int);
                }
                let entry = self.response_channels.remove(i);
                proof {
                    lemma_table_remove(old(self).response_channels@, self.response_channels@, id, i as int);
                }
                Some(entry.1)
            },
            None => None,
        }
    }

    /// Create and register a new task in Pending state, log a creation
    /// notification carrying the new id, and return that id. Never fails.
    pub fn create_task(&mut self, name: String, task_type: TaskType, now_ms: u64) -> (r: TaskId)
        requires
            old(self).wf(),
        ensures
            final(self).spec_has_task(r),
            final(self).spec_task_of(r) == (Task {
                id: r,
                name: name,
                task_type: task_type,
                status: TaskStatus::Pending,
                created_at: now_ms,
                started_at: None,
                completed_at: None,
                progress: None,
                description: None,
            }),
            forall|other: TaskId|
                other != r ==> #[trigger] final(self).spec_has_task(other) == old(self).spec_has_task(other),
            forall|other: TaskId|
                other != r && old(self).spec_has_task(other) ==> #[trigger] final(self).spec_task_of(other) == old(self).spec_task_of(other),
            final(self).spec_updates() == old(self).spec_updates().push(r),
            final(self).spec_channels() == old(self).spec_channels(),
            final(self).wf(),
    {
        let task = Task::new(name, task_type, now_ms);
        let id = task.id;
        let ghost orig = self.tasks@;
        if let Some(i) = self.find_task_index(id) {
            self.tasks.remove(i);
            proof {
                lemma_tasks_remove(orig, self.tasks@, id, i as int);
            }
        }
        let ghost mid = self.tasks@;
        let ghost taskg = task;
        self.tasks.push(task);
        proof {
            lemma_tasks_push(mid, self.tasks@, taskg);
        }
        self.updates.push(id);
        id
    }

    /// A snapshot (value copy) of the task with the given id, or nothing
    /// when the id is unknown or already evicted.
    pub fn get_task(&self, id: TaskId) -> (r: Option<Task>)
        requires
            self.wf(),
        ensures
            r is Some <==> self.spec_has_task(id),
            self.spec_has_task(id) ==> r == Some(self.spec_task_of(id)),
    {
        match self.find_task_index(id) {
            Some(i) => {
                proof {
                    lemma_tasks_found(self.tasks@, id, i as int);
                }
                Some(self.tasks[i].snapshot())
            },
            None => None,
        }
    }

    /// Apply a status transition to the task with the given id under the
    /// monotonic rule, log a notification, and report whether the id was
    /// known. A task already in a terminal status is never changed.
    pub fn update_task_status(&mut self, id: TaskId, status: TaskStatus, now_ms: u64) -> (r:
        bool)
        requires
            old(self).wf(),
        ensures
            r == old(self).spec_has_task(id),
            !r ==> *final(self) == *old(self),
            r ==> final(self).spec_has_task(id) && final(self).spec_task_of(id)
                == spec_apply_status(old(self).spec_task_of(id), status, now_ms),
            r ==> final(self).spec_updates() == old(self).spec_updates().push(id),
            forall|other: TaskId|
                other != id ==> #[trigger] final(self).spec_has_task(other) == old(self).spec_has_task(other),
            forall|other: TaskId|
                other != id && old(self).spec_has_task(other) ==> #[trigger] final(self).spec_task_of(other) == old(self).spec_task_of(other),
            final(self).spec_channels() == old(self).spec_channels(),
            final(self).wf(),
    {
        match self.find_task_index(id) {
            Some(i) => {
                proof {
                    lemma_tasks_found(old(self).tasks@, id, i as int);
                }
                let mut task = self.tasks.remove(i);
                if !task.status.is_terminal() {
                    match status {
                        TaskStatus::Pending => {},
                        TaskStatus::Running => task.mark_running(now_ms),
                        TaskStatus::Completed => task.mark_completed(now_ms),
                        TaskStatus::Failed => task.mark_failed(now_ms),
                        TaskStatus::Cancelled => task.mark_cancelled(now_ms),
                    }
                }
                proof {
                    lemma_apply_status_preserves(old(self).tasks@[i as int], status, now_ms);
                    assert(task == spec_apply_status(old(self).tasks@[i as int], status, now_ms));
                }
                let ghost taskg = task;
                self.tasks.insert(i, task);
                proof {
                    lemma_update_via_remove_insert(old(self).tasks@, i as int, taskg);
                    lemma_tasks_update(old(self).tasks@, self.tasks@, id, i as int, taskg);
                }
                self.updates.push(id);
                true
            },
            None => false,
        }
    }

    /// Update the progress of the task with the given id, creating its
    /// progress record on first use, log a notification, and report
    /// whether the id was known.
    pub fn update_task_progress(&mut self, id: TaskId, tokens_generated: usize, now_ms: u64) -> (r:
        bool)
        requires
            old(self).wf(),
            tokens_generated <= PROGRESS_TOKEN_LIMIT,
        ensures
            r == old(self).spec_has_task(id),
            !r ==> *final(self) == *old(self),
            r ==> final(self).spec_has_task(id) && final(self).spec_task_of(id) == old(self).spec_task_of(id).spec_progress_updated(tokens_generated, now_ms),
            r ==> final(self).spec_updates() == old(self).spec_updates().push(id),
            forall|other: TaskId|
                other != id ==> #[trigger] final(self).spec_has_task(other) == old(self).spec_has_task(other),
            forall|other: TaskId|
                other != id && old(self).spec_has_task(other) ==> #[trigger] final(self).spec_task_of(other) == old(self).spec_task_of(other),
            final(self).spec_channels() == old(self).spec_channels(),
            final(self).wf(),
    {
        match self.find_task_index(id) {
            Some(i) => {
                proof {
                    lemma_tasks_found(old(self).tasks@, id, i as int);
                }
                let mut task = self.tasks.remove(i);
                task.update_progress(tokens_generated, now_ms);
                let ghost taskg = task;
                self.tasks.insert(i, task);
                proof {
                    lemma_update_via_remove_insert(old(self).tasks@, i as int, taskg);
                    lemma_tasks_update(old(self).tasks@, self.tasks@, id, i as int, taskg);
                }
                self.updates.push(id);
                true
            },
            None => false,
        }
    }

    /// Request cancellation of a task: exactly a status update to
    /// Cancelled under the monotonic rule. This is the entry point for
    /// callers that want to cancel their own task.
    pub fn cancel_task(&mut self, id: TaskId, now_ms: u64) -> (r: bool)
        requires
            old(self).wf(),
        ensures
            r == old(self).spec_has_task(id),
            !r ==> *final(self) == *old(self),
            r ==> final(self).spec_has_task(id) && final(self).spec_task_of(id)
                == spec_apply_status(old(self).spec_task_of(id), TaskStatus::Cancelled, now_ms),
            r ==> final(self).spec_updates() == old(self).spec_updates().push(id),
            forall|other: TaskId|
                other != id ==> #[trigger] final(self).spec_has_task(other) == old(self).spec_has_task(other),
            forall|other: TaskId|
                other != id && old(self).spec_has_task(other) ==> #[trigger] final(self).spec_task_of(other) == old(self).spec_task_of(other),
            final(self).spec_channels() == old(self).spec_channels(),
            final(self).wf(),
    {
        self.update_task_status(id, TaskStatus::Cancelled, now_ms)
    }

    /// Snapshot of all tasks still in Pending or Running state.
    pub fn active_tasks(&self) -> (r: Vec<Task>)
        requires
            self.wf(),
        ensures
            r@ == self.spec_tasks().filter(|t: Task| t.spec_active()),
    {
        let mut out: Vec<Task> = Vec::new();
        let mut i: usize = 0;
        while i < self.tasks.len()
            invariant
                i <= self.tasks@.len(),
                out@ == self.tasks@.take(i as int).filter(|t: Task| t.spec_active()),
            decreases self.tasks@.len() - i,
        {
            let ghost prefix = self.tasks@.take(i as int);
            let task = &self.tasks[i];
            if matches!(task.status, TaskStatus::Pending | TaskStatus::Running) {
                out.push(task.snapshot());
            }
            proof {
                assert(self.tasks@.take(i + 1) =~= prefix.push(self.tasks@[i as int]));
                lemma_filter_push(prefix, self.tasks@[i as int], |t: Task| t.spec_active());
            }
            i += 1;
        }
        proof {
            assert(self.tasks@.take(self.tasks@.len() as int) =~= self.tasks@);
        }
        out
    }

    /// Snapshot of all tasks.
    pub fn all_tasks(&self) -> (r: Vec<Task>)
        ensures
            r@ == self.spec_tasks(),
    {
        let mut out: Vec<Task> = Vec::new();
        let mut i: usize = 0;
        while i < self.tasks.len()
            invariant
                i <= self.tasks@.len(),
                out@ == self.tasks@.take(i as int),
            decreases self.tasks@.len() - i,
        {
            out.push(self.tasks[i].snapshot());
            proof {
                assert(self.tasks@.take(i + 1) =~= self.tasks@.take(i as int).push(
                    self.tasks@[i as int],
                ));
            }
            i += 1;
        }
        proof {
            assert(self.tasks@.take(self.tasks@.len() as int) =~= self.tasks@);
        }
        out
    }

    /// Snapshot of the tasks that reached a terminal status within the
    /// last ten minutes before `now_ms`.
    pub fn recent_tasks(&self, now_ms: u64) -> (r: Vec<Task>)
        requires
            self.wf(),
        ensures
            r@ == self.spec_tasks().filter(|t: Task| spec_recently_completed(t, now_ms)),
    {
        let mut out: Vec<Task> = Vec::new();
        let mut i: usize = 0;
        while i < self.tasks.len()
            invariant
                i <= self.tasks@.len(),
                out@ == self.tasks@.take(i as int).filter(
                    |t: Task| spec_recently_completed(t, now_ms),
                ),
            decreases self.tasks@.len() - i,
        {
            let ghost prefix = self.tasks@.take(i as int);
            let task = &self.tasks[i];
            let recent = match task.completed_at {
                Some(c) => (if now_ms >= c {
                    now_ms - c
                } else {
                    0
                }) < 600_000,
                None => false,
            };
            if recent {
                out.push(task.snapshot());
            }
            proof {
                assert(self.tasks@.take(i + 1) =~= prefix.push(self.tasks@[i as int]));
                lemma_filter_push(
                    prefix,
                    self.tasks@[i as int],
                    |t: Task| spec_recently_completed(t, now_ms),
                );
            }
            i += 1;
        }
        proof {
            assert(self.tasks@.take(self.tasks@.len() as int) =~= self.tasks@);
        }
        out
    }

    /// Evict terminal tasks whose completion stamp is older than thirty
    /// minutes. Tasks still Pending or Running are never evicted,
    /// regardless of age, and no notification is logged.
    pub fn cleanup_old_tasks(&mut self, now_ms: u64)
        requires
            old(self).wf(),
        ensures
            final(self).spec_tasks() == old(self).spec_tasks().filter(
                |t: Task| spec_retained(t, now_ms),
            ),
            forall|id: TaskId|
                old(self).spec_has_task(id) && old(self).spec_task_of(id).spec_active()
                    ==> #[trigger] final(self).spec_has_task(id) && final(self).spec_task_of(id)
                    == old(self).spec_task_of(id),
            final(self).spec_updates() == old(self).spec_updates(),
            final(self).spec_channels() == old(self).spec_channels(),
            final(self).wf(),
    {
        let mut kept: Vec<Task> = Vec::new();
        let mut i: usize = 0;
        while i < self.tasks.len()
            invariant
                i <= self.tasks@.len(),
                kept@ == self.tasks@.take(i as int).filter(|t: Task| spec_retained(t, now_ms)),
            decreases self.tasks@.len() - i,
        {
            let ghost prefix = self.tasks@.take(i as int);
            let task = &self.tasks[i];
            let retained = match task.completed_at {
                Some(c) => (if now_ms >= c {
                    now_ms - c
                } else {
                    0
                }) < 1_800_000,
                None => true,
            };
            if retained {
                kept.push(task.snapshot());
            }
            proof {
                assert(self.tasks@.take(i + 1) =~= prefix.push(self.tasks@[i as int]));
                lemma_filter_push(prefix, self.tasks@[i as int], |t: Task| spec_retained(t, now_ms));
            }
            i += 1;
        }
        proof {
            assert(self.tasks@.take(self.tasks@.len() as int) =~= self.tasks@);
        }
        self.tasks = kept;
        proof {
            lemma_tasks_filter(old(self).tasks@, |t: Task| spec_retained(t, now_ms));
            assert forall|i: int|
                0 <= i < self.tasks@.len() implies (#[trigger] self.tasks@[i]).wf() by {
                let id = self.tasks@[i].id;
                lemma_tasks_found(self.tasks@, id, i);
                assert(tasks_has(self.tasks@, id));
                assert(tasks_has(old(self).tasks@, id) && spec_retained(
                    tasks_get(old(self).tasks@, id),
                    now_ms,
                ));
                assert(tasks_get(self.tasks@, id) == tasks_get(old(self).tasks@, id));
            }
            assert forall|id: TaskId|
                old(self).spec_has_task(id) && old(self).spec_task_of(id).spec_active()
                    implies #[trigger] final(self).spec_has_task(id) && final(self).spec_task_of(id)
                    == old(self).spec_task_of(id) by {
                let t = old(self).spec_task_of(id);
                assert(t.wf());
                assert(spec_retained(t, now_ms));
            }
        }
    }

    /// Drain the notification log: the ids of every change since the
    /// last drain, in the order the changes happened. The host loop fans
    /// these out to its subscribers.
    pub fn drain_updates(&mut self) -> (r: Vec<TaskId>)
        ensures
            r@ == old(self).spec_updates(),
            final(self).spec_updates() == Seq::<TaskId>::empty(),
            final(self).spec_tasks() == old(self).spec_tasks(),
            final(self).spec_channels() == old(self).spec_channels(),
            old(self).wf() ==> final(self).wf(),
    {
        let mut out: Vec<TaskId> = Vec::new();
        let mut i: usize = 0;
        while i < self.updates.len()
            invariant
                i <= self.updates@.len(),
                out@ == self.updates@.take(i as int),
            decreases self.updates@.len() - i,
        {
            out.push(self.updates[i]);
            proof {
                assert(self.updates@.take(i + 1) =~= self.updates@.take(i as int).push(
                    self.updates@[i as int],
                ));
            }
            i += 1;
        }
        proof {
            assert(self.updates@.take(self.updates@.len() as int) =~= self.updates@);
        }
        self.updates.clear();
        out
    }
}

/// Whether the task sequence holds a task with this id.
pub open spec fn tasks_has(s: Seq<Task>, id: TaskId) -> bool {
    exists|i: int| 0 <= i < s.len() && s[i].id == id
}

/// The index of the task with this id (meaningful only when present).
pub open spec fn tasks_index(s: Seq<Task>, id: TaskId) -> int {
    choose|i: int| 0 <= i < s.len() && s[i].id == id
}

/// The task with this id (meaningful only when present).
pub open spec fn tasks_get(s: Seq<Task>, id: TaskId) -> Task {
    s[tasks_index(s, id)]
}

/// Task ids are pairwise distinct.
pub open spec fn tasks_unique(s: Seq<Task>) -> bool {
    forall|i: int, j: int| 0 <= i < j < s.len() ==> #[trigger] s[i].id != #[trigger] s[j].id
}

/// A task completed within the last ten minutes before `now`.
pub open spec fn spec_recently_completed(t: Task, now: u64) -> bool {
    match t.completed_at {
        Some(c) => (if now >= c {
            now - c
        } else {
            0
        }) < 600_000,
        None => false,
    }
}

/// A task that survives a cleanup sweep at `now`: it has no completion
/// stamp yet, or completed less than thirty minutes ago.
pub open spec fn spec_retained(t: Task, now: u64) -> bool {
    match t.completed_at {
        Some(c) => (if now >= c {
            now - c
        } else {
            0
        }) < 1_800_000,
        None => true,
    }
}

/// Applying a status request preserves a task's identity and
/// well-formedness.
proof fn lemma_apply_status_preserves(t: Task, status: TaskStatus, now: u64)
    ensures
        spec_apply_status(t, status, now).id == t.id,
        t.wf() ==> spec_apply_status(t, status, now).wf(),
{
}

/// In an id-unique task sequence, a task found at index `k` is the task
/// that the lookup of its id denotes.
proof fn lemma_tasks_found(s: Seq<Task>, id: TaskId, k: int)
    requires
        tasks_unique(s),
        0 <= k < s.len(),
        s[k].id == id,
    ensures
        tasks_has(s, id),
        tasks_index(s, id) == k,
        tasks_get(s, id) == s[k],
    {
    assert(tasks_has(s, id));
    let i = tasks_index(s, id);
    assert(0 <= i < s.len() && s[i].id == id);
    if i != k {
        if i < k {
            assert(s[i].id != s[k].id);
        } else {
            assert(s[k].id != s[i].id);
        }
    }
}

/// Removing the task at index `k` (the one with id `id`) from an
/// id-unique sequence removes that id entirely and leaves every other
/// id's task unchanged.
proof fn lemma_tasks_remove(before: Seq<Task>, after: Seq<Task>, id: TaskId, k: int)
    requires
        tasks_unique(before),
        0 <= k < before.len(),
        before[k].id == id,
        after == before.remove(k),
    ensures
        tasks_unique(after),
        !tasks_has(after, id),
        forall|other: TaskId|
            other != id ==> #[trigger] tasks_has(after, other) == tasks_has(before, other),
        forall|other: TaskId|
            other != id && tasks_has(before, other) ==> #[trigger] tasks_get(after, other)
                == tasks_get(before, other),
{
    assert forall|i: int, j: int| 0 <= i < j < after.len() implies #[trigger] after[i].id
        != #[trigger] after[j].id by {
        let bi = if i < k { i } else { i + 1 };
        let bj = if j < k { j } else { j + 1 };
        assert(after[i] == before[bi]);
        assert(after[j] == before[bj]);
    }
    assert forall|j: int| 0 <= j < after.len() implies (#[trigger] after[j]).id != id by {
        let bj = if j < k { j } else { j + 1 };
        assert(after[j] == before[bj]);
        if bj != k {
            if bj < k {
                assert(before[bj].id != before[k].id);
            } else {
                assert(before[k].id != before[bj].id);
            }
        }
    }
    assert forall|other: TaskId| other != id implies #[trigger] tasks_has(after, other)
        == tasks_has(before, other) by {
        if tasks_has(before, other) {
            let i = tasks_index(before, other);
            assert(0 <= i < before.len() && before[i].id == other);
            if i < k {
                assert(after[i].id == other);
            } else {
                assert(i != k);
                assert(after[i - 1] == before[i]);
            }
            assert(tasks_has(after, other));
        }
        if tasks_has(after, other) {
            let i = tasks_index(after, other);
            assert(0 <= i < after.len() && after[i].id == other);
            let bi = if i < k { i } else { i + 1 };
            assert(after[i] == before[bi]);
            assert(tasks_has(before, other));
        }
    }
    assert forall|other: TaskId| other != id && tasks_has(before, other) implies
        #[trigger] tasks_get(after, other) == tasks_get(before, other) by {
        let j = tasks_index(before, other);
        assert(0 <= j < before.len() && before[j].id == other);
        let aj = if j < k { j } else { j - 1 };
        assert(after[aj] == before[j]);
        lemma_tasks_found(after, other, aj);
        lemma_tasks_found(before, other, j);
    }
}

/// Pushing a task with a fresh id onto an id-unique sequence makes its
/// lookup find the pushed task and leaves every other id's task
/// unchanged.
proof fn lemma_tasks_push(before: Seq<Task>, after: Seq<Task>, t: Task)
    requires
        tasks_unique(before),
        !tasks_has(before, t.id),
        after == before.push(t),
    ensures
        tasks_unique(after),
        tasks_has(after, t.id),
        tasks_get(after, t.id) == t,
        forall|other: TaskId|
            other != t.id ==> #[trigger] tasks_has(after, other) == tasks_has(before, other),
        forall|other: TaskId|
            other != t.id && tasks_has(before, other) ==> #[trigger] tasks_get(after, other)
                == tasks_get(before, other),
{
    let n = before.len() as int;
    assert forall|i: int, j: int| 0 <= i < j < after.len() implies #[trigger] after[i].id
        != #[trigger] after[j].id by {
        if j < n {
            assert(after[i] == before[i] && after[j] == before[j]);
        } else {
            assert(after[i] == before[i]);
            assert(after[j].id == t.id);
            assert(before[i].id != t.id);
        }
    }
    assert(after[n].id == t.id);
    lemma_tasks_found(after, t.id, n);
    assert forall|other: TaskId| other != t.id implies #[trigger] tasks_has(after, other)
        == tasks_has(before, other) by {
        if tasks_has(before, other) {
            let i = tasks_index(before, other);
            assert(after[i].id == other);
            assert(tasks_has(after, other));
        }
        if tasks_has(after, other) {
            let i = tasks_index(after, other);
            assert(0 <= i < after.len() && after[i].id == other);
            assert(i != n);
            assert(before[i].id == other);
            assert(tasks_has(before, other));
        }
    }
    assert forall|other: TaskId| other != t.id && tasks_has(before, other) implies
        #[trigger] tasks_get(after, other) == tasks_get(before, other) by {
        let j = tasks_index(before, other);
        assert(0 <= j < before.len() && before[j].id == other);
        assert(after[j] == before[j]);
        lemma_tasks_found(after, other, j);
        lemma_tasks_found(before, other, j);
    }
}

/// Replacing the task at index `k` by one with the same id keeps the
/// sequence id-unique, makes that id's lookup find the new task, and
/// leaves every other id's task unchanged.
proof fn lemma_tasks_update(before: Seq<Task>, after: Seq<Task>, id: TaskId, k: int, t: Task)
    requires
        tasks_unique(before),
        0 <= k < before.len(),
        before[k].id == id,
        t.id == id,
        after == before.update(k, t),
    ensures
        tasks_unique(after),
        tasks_has(after, id),
        tasks_get(after, id) == t,
        forall|other: TaskId|
            other != id ==> #[trigger] tasks_has(after, other) == tasks_has(before, other),
        forall|other: TaskId|
            other != id && tasks_has(before, other) ==> #[trigger] tasks_get(after, other)
                == tasks_get(before, other),
{
    assert forall|i: int, j: int| 0 <= i < j < after.len() implies #[trigger] after[i].id
        != #[trigger] after[j].id by {
        assert(after[i] == if i == k { t } else { before[i] });
        assert(after[j] == if j == k { t } else { before[j] });
    }
    lemma_tasks_found(after, id, k);
    assert forall|other: TaskId| other != id implies #[trigger] tasks_has(after, other)
        == tasks_has(before, other) by {
        if tasks_has(before, other) {
            let i = tasks_index(before, other);
            assert(0 <= i < before.len() && before[i].id == other);
            assert(i != k);
            assert(after[i].id == other);
            assert(tasks_has(after, other));
        }
        if tasks_has(after, other) {
            let i = tasks_index(after, other);
            assert(0 <= i < after.len() && after[i].id == other);
            assert(i != k);
            assert(before[i].id == other);
            assert(tasks_has(before, other));
        }
    }
    assert forall|other: TaskId| other != id && tasks_has(before, other) implies
        #[trigger] tasks_get(after, other) == tasks_get(before, other) by {
        let j = tasks_index(before, other);
        assert(0 <= j < before.len() && before[j].id == other);
        assert(j != k);
        assert(after[j] == before[j]);
        lemma_tasks_found(after, other, j);
        lemma_tasks_found(before, other, j);
    }
}

/// Removing an element and inserting another at the same position is
/// exactly an update of that position.
proof fn lemma_update_via_remove_insert<A>(s: Seq<A>, i: int, x: A)
    requires
        0 <= i < s.len(),
    ensures
        s.remove(i).insert(i, x) == s.update(i, x),
{
    assert(s.remove(i).insert(i, x) =~= s.update(i, x));
}

/// Filtering a sequence extended by one element keeps the filtered
/// prefix and appends the new element exactly when it satisfies the
/// predicate.
proof fn lemma_filter_push<A>(s: Seq<A>, x: A, pred: spec_fn(A) -> bool)
    ensures
        s.push(x).filter(pred) == if pred(x) {
            s.filter(pred).push(x)
        } else {
            s.filter(pred)
        },
{
    reveal(Seq::filter);
    assert(s.push(x).drop_last() =~= s);
    assert(s.push(x).last() == x);
}

/// Filtering an id-unique task sequence keeps it id-unique, keeps every
/// task that satisfies the predicate (unchanged and still found under
/// its id), and drops every id whose task does not satisfy it.
proof fn lemma_tasks_filter(s: Seq<Task>, pred: spec_fn(Task) -> bool)
    requires
        tasks_unique(s),
    ensures
        tasks_unique(s.filter(pred)),
        forall|id: TaskId|
            tasks_has(s, id) && pred(tasks_get(s, id)) ==> #[trigger] tasks_has(s.filter(pred), id)
                && tasks_get(s.filter(pred), id) == tasks_get(s, id),
        forall|id: TaskId|
            !(tasks_has(s, id) && pred(tasks_get(s, id))) ==> !#[trigger] tasks_has(
                s.filter(pred),
                id,
            ),
    decreases s.len(),
{
    reveal(Seq::filter);
    if s.len() == 0 {
        assert(s.filter(pred) =~= Seq::<Task>::empty());
    } else {
        let butlast = s.drop_last();
        let x = s.last();
        assert(tasks_unique(butlast)) by {
            assert forall|i: int, j: int| 0 <= i < j < butlast.len() implies #[trigger] butlast[i].id
                != #[trigger] butlast[j].id by {
                assert(butlast[i] == s[i] && butlast[j] == s[j]);
            }
        }
        lemma_tasks_filter(butlast, pred);
        assert forall|j: int| 0 <= j < butlast.len() implies (#[trigger] butlast[j]).id != x.id by {
            assert(butlast[j] == s[j]);
            assert(s[j].id != s[s.len() - 1].id);
        }
        let fb = butlast.filter(pred);
        assert forall|j: int| 0 <= j < fb.len() implies (#[trigger] fb[j]).id != x.id by {
            if fb[j].id == x.id {
                lemma_tasks_found(fb, x.id, j);
                assert(tasks_has(butlast, x.id) && tasks_get(butlast, x.id) == fb[j]) by {
                    assert(pred(fb[j]));
                    if !tasks_has(butlast, x.id) {
                        assert(!(tasks_has(butlast, x.id) && pred(tasks_get(butlast, x.id))));
                        assert(!tasks_has(fb, x.id));
                    }
                    assert(tasks_has(butlast, x.id));
                    if !pred(tasks_get(butlast, x.id)) {
                        assert(!tasks_has(fb, x.id));
                    }
                    assert(pred(tasks_get(butlast, x.id)));
                }
                let bi = tasks_index(butlast, x.id);
                assert(butlast[bi].id == x.id);
            }
        }
        if pred(x) {
            assert(s.filter(pred) == fb.push(x));
            lemma_tasks_push(fb, s.filter(pred), x);
        } else {
            assert(s.filter(pred) == fb);
        }
        assert forall|id: TaskId|
            tasks_has(s, id) && pred(tasks_get(s, id)) implies #[trigger] tasks_has(
            s.filter(pred),
            id,
        ) && tasks_get(s.filter(pred), id) == tasks_get(s, id) by {
            let i = tasks_index(s, id);
            assert(0 <= i < s.len() && s[i].id == id);
            lemma_tasks_found(s, id, i);
            if i < s.len() - 1 {
                assert(butlast[i].id == id);
                lemma_tasks_found(butlast, id, i);
                assert(tasks_get(butlast, id) == s[i]);
                assert(tasks_has(fb, id) && tasks_get(fb, id) == tasks_get(butlast, id));
            } else {
                assert(s[i] == x);
                assert(pred(x));
            }
        }
        assert forall|id: TaskId|
            !(tasks_has(s, id) && pred(tasks_get(s, id))) implies !#[trigger] tasks_has(
            s.filter(pred),
            id,
        ) by {
            if tasks_has(s.filter(pred), id) {
                let i = tasks_index(s.filter(pred), id);
                assert(s.filter(pred)[i].id == id);
                if pred(x) && i == s.filter(pred).len() - 1 {
                    assert(s.filter(pred)[i] == x);
                    assert(s[s.len() - 1].id == id);
                    lemma_tasks_found(s, id, s.len() - 1);
                    assert(pred(tasks_get(s, id)));
                } else {
                    assert(s.filter(pred)[i] == fb[i]);
                    lemma_tasks_found(fb, id, i);
                    assert(tasks_has(fb, id));
                    assert(tasks_has(butlast, id) && pred(tasks_get(butlast, id)));
                    let bi = tasks_index(butlast, id);
                    assert(butlast[bi].id == id);
                    assert(s[bi].id == id);
                    lemma_tasks_found(s, id, bi);
                    assert(tasks_get(s, id) == s[bi]);
                    assert(s[bi] == butlast[bi]);
                    assert(butlast[bi] == tasks_get(butlast, id));
                }
            }
        }
    }
}



/// Two submissions under one registry have independent, non-interfering
/// timelines: given two distinct task ids (random ids collide only with
/// vanishing probability, and a collision replaces the older entry), an
/// operation addressed to one — any operation whose contract preserves
/// every other id's task, as every registry mutation here does — leaves
/// the other's task exactly as it was.
pub proof fn lemma_independent_timelines(m1: TaskManager, m2: TaskManager, a: TaskId, b: TaskId)
    requires
        a != b,
        m1.spec_has_task(a),
        forall|other: TaskId|
            other != b ==> #[trigger] m2.spec_has_task(other) == m1.spec_has_task(other),
        forall|other: TaskId|
            other != b && m1.spec_has_task(other) ==> #[trigger] m2.spec_task_of(other)
                == m1.spec_task_of(other),
    ensures
        m2.spec_has_task(a),
        m2.spec_task_of(a) == m1.spec_task_of(a),
{
}

/// Whether a key-value table holds an entry under `id`.
pub open spec fn table_has<V>(s: Seq<(TaskId, V)>, id: TaskId) -> bool {
    exists|i: int| 0 <= i < s.len() && s[i].0 == id
}

/// The index of the entry under `id` (meaningful only when present).
pub open spec fn table_index<V>(s: Seq<(TaskId, V)>, id: TaskId) -> int {
    choose|i: int| 0 <= i < s.len() && s[i].0 == id
}

/// The value stored under `id` (meaningful only when present).
pub open spec fn table_get<V>(s: Seq<(TaskId, V)>, id: TaskId) -> V {
    s[table_index(s, id)].1
}

/// Keys of a table are pairwise distinct.
pub open spec fn table_unique<V>(s: Seq<(TaskId, V)>) -> bool {
    forall|i: int, j: int| 0 <= i < j < s.len() ==> #[trigger] s[i].0 != #[trigger] s[j].0
}

/// In a key-unique table, an entry found at index `k` is the entry that
/// the lookup of its key denotes.
proof fn lemma_table_found<V>(s: Seq<(TaskId, V)>, id: TaskId, k: int)
    requires
        table_unique(s),
        0 <= k < s.len(),
        s[k].0 == id,
    ensures
        table_has(s, id),
        table_index(s, id) == k,
        table_get(s, id) == s[k].1,
{
    assert(table_has(s, id));
    let i = table_index(s, id);
    assert(0 <= i < s.len() && s[i].0 == id);
    if i != k {
        if i < k {
            assert(s[i].0 != s[k].0);
        } else {
            assert(s[k].0 != s[i].0);
        }
    }
}

/// Removing the entry at index `k` (the one keyed `id`) from a
/// key-unique table removes that key entirely and leaves every other
/// key's entry unchanged.
proof fn lemma_table_remove<V>(before: Seq<(TaskId, V)>, after: Seq<(TaskId, V)>, id: TaskId, k: int)
    requires
        table_unique(before),
        0 <= k < before.len(),
        before[k].0 == id,
        after == before.remove(k),
    ensures
        table_unique(after),
        !table_has(after, id),
        forall|other: TaskId|
            other != id ==> #[trigger] table_has(after, other) == table_has(before, other),
        forall|other: TaskId|
            other != id && table_has(before, other) ==> #[trigger] table_get(after, other)
                == table_get(before, other),
{
    assert forall|i: int, j: int| 0 <= i < j < after.len() implies #[trigger] after[i].0
        != #[trigger] after[j].0 by {
        let bi = if i < k { i } else { i + 1 };
        let bj = if j < k { j } else { j + 1 };
        assert(after[i] == before[bi]);
        assert(after[j] == before[bj]);
    }
    assert forall|j: int| 0 <= j < after.len() implies (#[trigger] after[j]).0 != id by {
        let bj = if j < k { j } else { j + 1 };
        assert(after[j] == before[bj]);
        if bj != k {
            if bj < k {
                assert(before[bj].0 != before[k].0);
            } else {
                assert(before[k].0 != before[bj].0);
            }
        }
    }
    assert forall|other: TaskId| other != id implies #[trigger] table_has(after, other)
        == table_has(before, other) by {
        if table_has(before, other) {
            let i = table_index(before, other);
            assert(0 <= i < before.len() && before[i].0 == other);
            if i < k {
                assert(after[i].0 == other);
            } else {
                assert(i != k);
                assert(after[i - 1] == before[i]);
            }
            assert(table_has(after, other));
        }
        if table_has(after, other) {
            let i = table_index(after, other);
            assert(0 <= i < after.len() && after[i].0 == other);
            let bi = if i < k { i } else { i + 1 };
            assert(after[i] == before[bi]);
            assert(table_has(before, other));
        }
    }
    assert forall|other: TaskId| other != id && table_has(before, other) implies
        #[trigger] table_get(after, other) == table_get(before, other) by {
        let j = table_index(before, other);
        assert(0 <= j < before.len() && before[j].0 == other);
        let aj = if j < k { j } else { j - 1 };
        if j < k {
            assert(after[aj] == before[j]);
        } else {
            assert(j != k);
            assert(after[aj] == before[j]);
        }
        lemma_table_found(after, other, aj);
        lemma_table_found(before, other, j);
    }
}

/// Pushing an entry under a fresh key onto a key-unique table makes its
/// lookup find the pushed value and leaves every other key's entry
/// unchanged.
proof fn lemma_table_push<V>(before: Seq<(TaskId, V)>, after: Seq<(TaskId, V)>, id: TaskId, value: V)
    requires
        table_unique(before),
        !table_has(before, id),
        after == before.push((id, value)),
    ensures
        table_unique(after),
        table_has(after, id),
        table_get(after, id) == value,
        forall|other: TaskId|
            other != id ==> #[trigger] table_has(after, other) == table_has(before, other),
        forall|other: TaskId|
            other != id && table_has(before, other) ==> #[trigger] table_get(after, other)
                == table_get(before, other),
{
    let n = before.len() as int;
    assert forall|i: int, j: int| 0 <= i < j < after.len() implies #[trigger] after[i].0
        != #[trigger] after[j].0 by {
        if j < n {
            assert(after[i] == before[i] && after[j] == before[j]);
        } else {
            assert(after[i] == before[i]);
            assert(after[j].0 == id);
            assert(before[i].0 != id);
        }
    }
    assert(after[n].0 == id);
    lemma_table_found(after, id, n);
    assert forall|other: TaskId| other != id implies #[trigger] table_has(after, other)
        == table_has(before, other) by {
        if table_has(before, other) {
            let i = table_index(before, other);
            assert(after[i].0 == other);
            assert(table_has(after, other));
        }
        if table_has(after, other) {
            let i = table_index(after, other);
            assert(0 <= i < after.len() && after[i].0 == other);
            assert(i != n);
            assert(before[i].0 == other);
            assert(table_has(before, other));
        }
    }
    assert forall|other: TaskId| other != id && table_has(before, other) implies
        #[trigger] table_get(after, other) == table_get(before, other) by {
        let j = table_index(before, other);
        assert(0 <= j < before.len() && before[j].0 == other);
        assert(after[j] == before[j]);
        lemma_table_found(after, other, j);
        lemma_table_found(before, other, j);
    }
}

} // verus!
