//! Rebuilding a store from rows read back from durable storage, accepted only
//! when they meet the store's invariant.
use vstd::prelude::*;
use crate::model::{is_valid_git_hash, JobStatus, TestsToRun};
use crate::store::{
    le_opt, run_key, setup_consistent, task_times_ok, Job, SetupRow, Store, TaskRow, TestRun,
    MAX_ROWS,
};

verus! {

fn le_opt_exec(a: Option<u64>, b: u64) -> (r: bool)
    ensures
        r == le_opt(a, b),
{
    match a {
        Some(x) => x <= b,
        None => true,
    }
}

fn setup_ok(s: &SetupRow) -> (r: bool)
    ensures
        r == setup_consistent(*s),
{
    if s.required_tests == TestsToRun::NotEvenCompile {
        return false;
    }
    if s.required_tests != TestsToRun::NoTestsOnlyCompile && (s.run_tests_on_qemu.is_none()
        || s.run_tests_on_real_hardware.is_none()) {
        return false;
    }
    if (s.required_tests == TestsToRun::AllTestsExcept || s.required_tests
        == TestsToRun::OnlySpecifiedTests) && s.mentioned_tests.is_none() {
        return false;
    }
    true
}

fn times_ok(t: &TaskRow, clock: u64) -> (r: bool)
    ensures
        r == task_times_ok(*t, clock),
{
    if !le_opt_exec(t.started_at, clock) || !le_opt_exec(t.finished_at, clock) {
        return false;
    }
    if let Some(f) = t.finished_at {
        match t.started_at {
            None => return false,
            Some(s) => if s > f {
                return false;
            },
        }
    }
    let terminal = t.status == JobStatus::Success || t.status == JobStatus::Failed || t.status
        == JobStatus::Timeout || t.status == JobStatus::Skipped;
    !(terminal && t.finished_at.is_none())
}

impl Store {
    fn task_ok(&self, i: usize) -> (r: bool)
        requires
            i < self.tasks@.len() < MAX_ROWS,
            self.jobs@.len() < MAX_ROWS,
        ensures
            r == self.task_wf(i as int),
    {
        let t = &self.tasks[i];
        if t.id != i as i64 + 1 {
            return false;
        }
        if t.job_id < 1 || t.job_id > self.jobs.len() as i64 {
            return false;
        }
        let is_tests = t.task_type == crate::model::TaskType::Tests;
        if is_tests != t.setup.is_some() {
            return false;
        }
        if let Some(s) = &t.setup {
            if !setup_ok(s) || s.id < 1 || s.id > self.setup_count {
                return false;
            }
        }
        if t.status == JobStatus::Pending && (t.started_at.is_some() || t.finished_at.is_some()
            || t.executed_on.is_some()) {
            return false;
        }
        times_ok(t, self.clock)
    }

    fn run_ok(&self, i: usize) -> (r: bool)
        requires
            i < self.runs@.len() < MAX_ROWS,
            self.tasks@.len() < MAX_ROWS,
        ensures
            r == self.run_wf(i as int),
    {
        let r = &self.runs[i];
        r.id == i as i64 + 1 && 1 <= r.task_id && r.task_id <= self.tasks.len() as i64
            && le_opt_exec(r.started_at, self.clock) && le_opt_exec(r.finished_at, self.clock)
    }

    /// Whether the rows meet the store's invariant.
    pub fn check_wf(&self) -> (r: bool)
        ensures
            r == self.wf(),
    {
        if self.jobs.len() >= MAX_ROWS || self.tasks.len() >= MAX_ROWS || self.runs.len()
            >= MAX_ROWS {
            return false;
        }
        if self.setup_count < 0 || self.setup_count > self.tasks.len() as i64 {
            return false;
        }
        let mut i: usize = 0;
        while i < self.jobs.len()
            invariant
                i <= self.jobs@.len() < MAX_ROWS,
                forall|k: int|
                    0 <= k < i ==> (#[trigger] self.jobs@[k]).id == k + 1
                        && crate::model::valid_git_hash(self.jobs@[k].commit_id@),
            decreases self.jobs@.len() - i,
        {
            if self.jobs[i].id != i as i64 + 1 || !is_valid_git_hash(
                self.jobs[i].commit_id.as_str(),
            ) {
                return false;
            }
            i = i + 1;
        }
        let mut i: usize = 0;
        while i < self.tasks.len()
            invariant
                i <= self.tasks@.len() < MAX_ROWS,
                self.jobs@.len() < MAX_ROWS,
                forall|k: int| 0 <= k < i ==> #[trigger] self.task_wf(k),
            decreases self.tasks@.len() - i,
        {
            if !self.task_ok(i) {
                return false;
            }
            i = i + 1;
        }
        let mut i: usize = 0;
        while i < self.runs.len()
            invariant
                i <= self.runs@.len() < MAX_ROWS,
                self.tasks@.len() < MAX_ROWS,
                forall|k: int| 0 <= k < i ==> #[trigger] self.run_wf(k),
                forall|a: int, b: int|
                    0 <= a < b < i ==> run_key(#[trigger] self.runs@[a]) != run_key(
                        #[trigger] self.runs@[b],
                    ),
            decreases self.runs@.len() - i,
        {
            if !self.run_ok(i) {
                return false;
            }
            let mut k: usize = 0;
            while k < i
                invariant
                    k <= i < self.runs@.len(),
                    forall|a: int| 0 <= a < k ==> run_key(#[trigger] self.runs@[a]) != run_key(
                        self.runs@[i as int],
                    ),
                decreases i - k,
            {
                let a = &self.runs[k];
                let b = &self.runs[i];
                if a.task_id == b.task_id && a.test_name == b.test_name && a.target == b.target {
                    assert(run_key(self.runs@[k as int]) == run_key(self.runs@[i as int]));
                    return false;
                }
                k = k + 1;
            }
            i = i + 1;
        }
        true
    }

    /// A store holding the given rows, when they meet its invariant.
    pub fn restore(jobs: Vec<Job>, tasks: Vec<TaskRow>, runs: Vec<TestRun>, setup_count: i64, clock: u64) -> (r:
        Option<Store>)
        ensures
            r is Some <==> (Store { jobs, tasks, runs, setup_count, clock }).wf(),
            r is Some ==> r->0 == (Store { jobs, tasks, runs, setup_count, clock }),
    {
        let s = Store { jobs, tasks, runs, setup_count, clock };
        if s.check_wf() {
            Some(s)
        } else {
            None
        }
    }
}

} // verus!
