//! Task updates from workers, and the rollup of a job's status from its tasks.
use vstd::prelude::*;
use vstd::string::StringExecFns;
use crate::model::JobStatus;
use crate::store::{Store, TaskRow};

verus! {

/// The status a worker reports for a task.
#[derive(Debug, Clone, Copy, PartialEq, Eq, Structural)]
pub enum ReturnStatus {
    Running,
    Success,
    Failed,
    Timeout,
    Skipped,
}

pub open spec fn reported_status(r: ReturnStatus) -> JobStatus {
    match r {
        ReturnStatus::Running => JobStatus::Running,
        ReturnStatus::Success => JobStatus::Success,
        ReturnStatus::Failed => JobStatus::Failed,
        ReturnStatus::Timeout => JobStatus::Timeout,
        ReturnStatus::Skipped => JobStatus::Skipped,
    }
}

impl ReturnStatus {
    pub fn to_job_status(&self) -> (r: JobStatus)
        ensures
            r == reported_status(*self),
    {
        match self {
            ReturnStatus::Running => JobStatus::Running,
            ReturnStatus::Success => JobStatus::Success,
            ReturnStatus::Failed => JobStatus::Failed,
            ReturnStatus::Timeout => JobStatus::Timeout,
            ReturnStatus::Skipped => JobStatus::Skipped,
        }
    }
}

/// A worker's report on a task.
#[derive(Debug)]
pub struct UpdateTaskForm {
    pub task_id: i64,
    pub return_status: ReturnStatus,
    pub ret_code: Option<i64>,
    pub output: String,
}

/// Why an update was refused.
#[derive(Debug, Clone, Copy, PartialEq, Eq, Structural)]
pub enum UpdateError {
    UnknownTask,
}

/// The state a task contributes to its job's rollup, ranked
/// Pending (1) < Running (2) < Success (3) < Failed (4).
pub open spec fn state_rank(t: TaskRow) -> int {
    if t.finished_at is None {
        2
    } else if t.status is Success || t.status is Skipped {
        3
    } else if t.status is Failed || t.status is Timeout {
        4
    } else {
        1
    }
}

/// Running wins; otherwise the larger state.
pub open spec fn combine(a: int, b: int) -> int {
    if a == 2 || b == 2 {
        2
    } else if a >= b {
        a
    } else {
        b
    }
}

pub open spec fn rollup_rank(tasks: Seq<TaskRow>, job_id: i64) -> int
    decreases tasks.len(),
{
    if tasks.len() == 0 {
        1
    } else if tasks.last().job_id == job_id {
        combine(rollup_rank(tasks.drop_last(), job_id), state_rank(tasks.last()))
    } else {
        rollup_rank(tasks.drop_last(), job_id)
    }
}

pub open spec fn rank_status(r: int) -> JobStatus {
    if r == 2 {
        JobStatus::Running
    } else if r == 3 {
        JobStatus::Success
    } else if r == 4 {
        JobStatus::Failed
    } else {
        JobStatus::Pending
    }
}

/// The status of job `job_id` as its tasks give it: Running while any task
/// has not finished, else the largest task state.
pub open spec fn rollup(tasks: Seq<TaskRow>, job_id: i64) -> JobStatus {
    rank_status(rollup_rank(tasks, job_id))
}

/// Every task with a finish time is in a terminal state, and back.
pub open spec fn finish_matches_status(tasks: Seq<TaskRow>) -> bool {
    forall|i: int|
        0 <= i < tasks.len() ==> ((#[trigger] tasks[i]).finished_at is Some
            <==> tasks[i].status.is_terminal())
}

fn rank_of(t: &TaskRow) -> (r: u8)
    ensures
        r == state_rank(*t),
{
    if t.finished_at.is_none() {
        2
    } else if t.status == JobStatus::Success || t.status == JobStatus::Skipped {
        3
    } else if t.status == JobStatus::Failed || t.status == JobStatus::Timeout {
        4
    } else {
        1
    }
}

/// The rollup of job `job_id` over `tasks`.
pub fn rollup_of(tasks: &Vec<TaskRow>, job_id: i64) -> (r: JobStatus)
    ensures
        r == rollup(tasks@, job_id),
{
    let mut acc: u8 = 1;
    let mut k: usize = 0;
    while k < tasks.len()
        invariant
            k <= tasks@.len(),
            acc == rollup_rank(tasks@.take(k as int), job_id),
            1 <= acc <= 4,
        decreases tasks@.len() - k,
    {
        assert(tasks@.take(k as int + 1).drop_last() =~= tasks@.take(k as int));
        if tasks[k].job_id == job_id {
            let b = rank_of(&tasks[k]);
            acc = if acc == 2 || b == 2 {
                2
            } else if acc >= b {
                acc
            } else {
                b
            };
        }
        k = k + 1;
    }
    assert(tasks@.take(k as int) =~= tasks@);
    if acc == 2 {
        JobStatus::Running
    } else if acc == 3 {
        JobStatus::Success
    } else if acc == 4 {
        JobStatus::Failed
    } else {
        JobStatus::Pending
    }
}

impl Store {
    /// Records a worker's report on a task: sets the start time if unset,
    /// appends the output, overwrites status and return code, sets the finish
    /// time unless the task is still running, then recomputes the job's
    /// status from all its tasks.
    pub fn update_task(&mut self, form: &UpdateTaskForm, now: u64) -> (r: Result<(), UpdateError>)
        requires
            old(self).wf(),
            old(self).clock <= now,
        ensures
            final(self).wf(),
            r is Err <==> !(1 <= form.task_id <= old(self).tasks@.len()),
            r is Err ==> *final(self) == *old(self),
            r is Ok ==> ({
                let i = form.task_id - 1;
                let t = final(self).tasks@[i];
                let o = old(self).tasks@[i];
                let j = o.job_id - 1;
                &&& t.started_at == if o.started_at is None {
                    Some(now)
                } else {
                    o.started_at
                }
                &&& t.output@ == o.output@ + form.output@
                &&& t.status == reported_status(form.return_status)
                &&& t.ret_code == form.ret_code
                &&& t.finished_at == if form.return_status is Running {
                    o.finished_at
                } else {
                    Some(now)
                }
                &&& t.id == o.id && t.job_id == o.job_id && t.task_type == o.task_type
                &&& t.executed_on == o.executed_on && t.setup == o.setup
                &&& final(self).tasks@.len() == old(self).tasks@.len()
                &&& forall|k: int|
                    0 <= k < old(self).tasks@.len() && k != i ==> #[trigger] final(self).tasks@[k]
                        == old(self).tasks@[k]
                &&& final(self).jobs@.len() == old(self).jobs@.len()
                &&& forall|k: int|
                    0 <= k < old(self).jobs@.len() && k != j ==> #[trigger] final(self).jobs@[k]
                        == old(self).jobs@[k]
                &&& final(self).jobs@[j].status == rollup(final(self).tasks@, o.job_id)
                &&& final(self).jobs@[j].id == old(self).jobs@[j].id
                &&& final(self).jobs@[j].commit_id == old(self).jobs@[j].commit_id
                &&& final(self).jobs@[j].added_at == old(self).jobs@[j].added_at
                &&& final(self).jobs@[j].email == old(self).jobs@[j].email
                &&& final(self).runs@ == old(self).runs@
                &&& final(self).setup_count == old(self).setup_count
                &&& final(self).clock == now
                &&& finish_matches_status(old(self).tasks@) && !(form.return_status is Running
                    && o.finished_at is Some) ==> finish_matches_status(final(self).tasks@)
            }),
    {
        let task_id = form.task_id;
        let status = form.return_status;
        if task_id < 1 || task_id > 0x4000_0000 || task_id as usize > self.tasks.len() {
            return Err(UpdateError::UnknownTask);
        }
        let ghost old_store = *self;
        let i = (task_id - 1) as usize;
        assert(self.task_wf(i as int));
        self.clock = now;
        if self.tasks[i].started_at.is_none() {
            self.tasks[i].started_at = Some(now);
        }
        self.tasks[i].output.append(form.output.as_str());
        self.tasks[i].status = status.to_job_status();
        self.tasks[i].ret_code = form.ret_code;
        if status != ReturnStatus::Running {
            self.tasks[i].finished_at = Some(now);
        }
        let job_id = self.tasks[i].job_id;
        let rolled = rollup_of(&self.tasks, job_id);
        self.jobs[(job_id - 1) as usize].status = rolled;
        proof {
            assert forall|k: int| 0 <= k < self.tasks@.len() implies #[trigger] self.task_wf(k) by {
                assert(old_store.task_wf(k));
            };
            assert forall|k: int| 0 <= k < self.runs@.len() implies #[trigger] self.run_wf(k) by {
                assert(old_store.run_wf(k));
            };
            assert forall|k: int| 0 <= k < self.jobs@.len() implies (#[trigger] self.jobs@[k]).id
                == k + 1 && crate::model::valid_git_hash(self.jobs@[k].commit_id@) by {
                assert(old_store.jobs@[k].id == k + 1);
            };
            if finish_matches_status(old_store.tasks@) && !(status is Running
                && old_store.tasks@[i as int].finished_at is Some) {
                assert forall|k: int| 0 <= k < self.tasks@.len() implies ((
                #[trigger] self.tasks@[k]).finished_at is Some <==> self.tasks@[k].status.is_terminal()) by {
                    assert(old_store.tasks@[k].finished_at is Some
                        <==> old_store.tasks@[k].status.is_terminal());
                };
            }
        }
        Ok(())
    }
}

} // verus!
