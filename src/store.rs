//! The coordinator's state: jobs, tasks with their setups, and test runs, with
//! the transitions that submission, claims and reports make.
use vstd::prelude::*;
use crate::updates::finish_matches_status;
use crate::model::{valid_git_hash, Compiler, JobStatus, TaskType, Target, TestsToRun};
use crate::submission::{
    decompose, decomposition, lemma_setup_iff_tests, opt_text, plan_views, submission_error,
    validate_submission, PlanView, PostJobForm, SetupView, SubmitError,
};

verus! {

/// Upper bound on the rows of each table, so that every id fits in an `i64`.
pub const MAX_ROWS: usize = 0x4000_0000;

/// One submitted job.
#[derive(Debug)]
pub struct Job {
    pub id: i64,
    pub commit_id: String,
    pub added_at: u64,
    pub email: Option<String>,
    pub status: JobStatus,
}

/// The parameters of a tests task, owned by that task.
#[derive(Debug)]
pub struct SetupRow {
    pub id: i64,
    pub compiler: Compiler,
    pub required_tests: TestsToRun,
    pub mentioned_tests: Option<String>,
    pub run_tests_on_qemu: Option<bool>,
    pub run_tests_on_real_hardware: Option<bool>,
}

/// One task of a job.
#[derive(Debug)]
pub struct TaskRow {
    pub id: i64,
    pub job_id: i64,
    pub task_type: TaskType,
    pub status: JobStatus,
    pub ret_code: Option<i64>,
    pub output: String,
    pub started_at: Option<u64>,
    pub finished_at: Option<u64>,
    pub executed_on: Option<String>,
    pub setup: Option<SetupRow>,
}

/// One (test name, target) outcome of a tests task.
#[derive(Debug)]
pub struct TestRun {
    pub id: i64,
    pub task_id: i64,
    pub test_name: String,
    pub target: Target,
    pub status: JobStatus,
    pub ret_code: Option<i64>,
    pub started_at: Option<u64>,
    pub finished_at: Option<u64>,
    pub output: String,
}

/// All durable state. Ids are assigned in order from 1, so the row of id `n`
/// sits at index `n - 1`.
#[derive(Debug)]
pub struct Store {
    pub jobs: Vec<Job>,
    pub tasks: Vec<TaskRow>,
    pub runs: Vec<TestRun>,
    pub setup_count: i64,
    pub clock: u64,
}

pub open spec fn setup_row_view(s: SetupRow) -> SetupView {
    SetupView {
        compiler: s.compiler,
        required_tests: s.required_tests,
        mentioned_tests: opt_text(s.mentioned_tests),
        run_tests_on_qemu: s.run_tests_on_qemu,
        run_tests_on_real_hardware: s.run_tests_on_real_hardware,
    }
}

/// A stored setup holds what a claim needs to describe it.
pub open spec fn setup_consistent(s: SetupRow) -> bool {
    &&& !(s.required_tests is NotEvenCompile)
    &&& !(s.required_tests is NoTestsOnlyCompile) ==> s.run_tests_on_qemu is Some
        && s.run_tests_on_real_hardware is Some
    &&& (s.required_tests is AllTestsExcept || s.required_tests is OnlySpecifiedTests)
        ==> s.mentioned_tests is Some
}

pub open spec fn le_opt(a: Option<u64>, b: u64) -> bool {
    match a {
        Some(x) => x <= b,
        None => true,
    }
}

/// The time stamps of a task are ordered and not after the clock; a task in a
/// terminal state has finished.
pub open spec fn task_times_ok(t: TaskRow, clock: u64) -> bool {
    &&& le_opt(t.started_at, clock)
    &&& le_opt(t.finished_at, clock)
    &&& t.finished_at is Some ==> t.started_at is Some && t.started_at->0 <= t.finished_at->0
    &&& t.status.is_terminal() ==> t.finished_at is Some
}

pub open spec fn run_key(r: TestRun) -> (i64, Seq<char>, Target) {
    (r.task_id, r.test_name@, r.target)
}

impl Store {
    pub open spec fn task_wf(&self, i: int) -> bool {
        let t = self.tasks@[i];
        &&& t.id == i + 1
        &&& 1 <= t.job_id <= self.jobs@.len()
        &&& (t.task_type is Tests <==> t.setup is Some)
        &&& t.setup is Some ==> setup_consistent(t.setup->0) && 1 <= t.setup->0.id
            <= self.setup_count
        &&& t.status is Pending ==> t.started_at is None && t.finished_at is None
            && t.executed_on is None
        &&& task_times_ok(t, self.clock)
    }

    pub open spec fn run_wf(&self, i: int) -> bool {
        let r = self.runs@[i];
        &&& r.id == i + 1
        &&& 1 <= r.task_id <= self.tasks@.len()
        &&& le_opt(r.started_at, self.clock)
        &&& le_opt(r.finished_at, self.clock)
    }

    /// The store's invariant: ids in order, every task tied to a job, a setup
    /// exactly on tests tasks, valid commits, consistent time stamps, and test
    /// runs unique by (task, test name, target).
    pub open spec fn wf(&self) -> bool {
        &&& self.jobs@.len() < MAX_ROWS
        &&& self.tasks@.len() < MAX_ROWS
        &&& self.runs@.len() < MAX_ROWS
        &&& 0 <= self.setup_count <= self.tasks@.len()
        &&& forall|i: int|
            0 <= i < self.jobs@.len() ==> (#[trigger] self.jobs@[i]).id == i + 1 && valid_git_hash(
                self.jobs@[i].commit_id@,
            )
        &&& forall|i: int| 0 <= i < self.tasks@.len() ==> #[trigger] self.task_wf(i)
        &&& forall|i: int| 0 <= i < self.runs@.len() ==> #[trigger] self.run_wf(i)
        &&& forall|i: int, j: int|
            0 <= i < j < self.runs@.len() ==> run_key(#[trigger] self.runs@[i]) != run_key(
                #[trigger] self.runs@[j],
            )
    }

    /// Room for one more submission and one more batch of test runs.
    pub open spec fn has_room(&self, runs: nat) -> bool {
        &&& self.jobs@.len() + 1 < MAX_ROWS
        &&& self.tasks@.len() + 5 < MAX_ROWS
        &&& self.runs@.len() + runs < MAX_ROWS
    }

    pub fn new() -> (r: Store)
        ensures
            r.wf(),
            r.jobs@.len() == 0,
            r.tasks@.len() == 0,
            r.runs@.len() == 0,
    {
        Store { jobs: Vec::new(), tasks: Vec::new(), runs: Vec::new(), setup_count: 0, clock: 0 }
    }
}

/// How many of the planned tasks carry a setup.
pub open spec fn setups_in(plan: Seq<PlanView>) -> int
    decreases plan.len(),
{
    if plan.len() == 0 {
        0
    } else {
        setups_in(plan.drop_last()) + if plan.last().setup is Some {
            1int
        } else {
            0int
        }
    }
}

/// `t` is the fresh row stored for planned task `p`.
pub open spec fn new_task_row(t: TaskRow, p: PlanView, id: int, job_id: int, setup_id: int) -> bool {
    &&& t.id == id
    &&& t.job_id == job_id
    &&& t.task_type == p.task_type
    &&& t.status is Pending
    &&& t.ret_code is None
    &&& t.output@.len() == 0
    &&& t.started_at is None
    &&& t.finished_at is None
    &&& t.executed_on is None
    &&& match p.setup {
        Some(sv) => t.setup is Some && setup_row_view(t.setup->0) == sv && t.setup->0.id
            == setup_id,
        None => t.setup is None,
    }
}

pub open spec fn email_of(f: PostJobForm) -> Option<Seq<char>> {
    if f.email_to_notify_on_completion@.len() == 0 {
        None
    } else {
        Some(f.email_to_notify_on_completion@)
    }
}

proof fn lemma_setups_in_bounds(plan: Seq<PlanView>, k: int)
    requires
        0 <= k <= plan.len(),
    ensures
        0 <= setups_in(plan.take(k)) <= k,
        k < plan.len() ==> setups_in(plan.take(k + 1)) == setups_in(plan.take(k)) + if plan[k].setup is Some {
            1int
        } else {
            0int
        },
    decreases k,
{
    if k > 0 {
        lemma_setups_in_bounds(plan, k - 1);
        assert(plan.take(k).drop_last() =~= plan.take(k - 1));
    }
    if k < plan.len() {
        assert(plan.take(k + 1).drop_last() =~= plan.take(k));
    }
}

fn copy_text(o: &Option<String>) -> (r: Option<String>)
    ensures
        opt_text(r) == opt_text(*o),
{
    match o {
        Some(s) => Some(s.clone()),
        None => None,
    }
}

impl Store {
    /// Accepts a job: when the submission passes validation, stores one job
    /// and the tasks of its decomposition in one step; otherwise stores nothing
    /// and returns the first rule broken.
    #[verifier::rlimit(40)]
    pub fn submit(&mut self, form: &PostJobForm, now: u64) -> (r: Result<i64, SubmitError>)
        requires
            old(self).wf(),
            old(self).has_room(0),
            old(self).clock <= now,
        ensures
            final(self).wf(),
            r is Err <==> submission_error(*form) is Some,
            r is Err ==> submission_error(*form) == Some(r->Err_0) && *final(self) == *old(self),
            r is Ok ==> ({
                let n0 = old(self).tasks@.len() as int;
                let plan = decomposition(*form);
                let job = final(self).jobs@.last();
                &&& r->Ok_0 == old(self).jobs@.len() + 1
                &&& final(self).jobs@.len() == old(self).jobs@.len() + 1
                &&& final(self).jobs@.drop_last() == old(self).jobs@
                &&& job.id == r->Ok_0
                &&& job.commit_id@ == form.commit_to_use@
                &&& job.added_at == now
                &&& opt_text(job.email) == email_of(*form)
                &&& job.status is Pending
                &&& final(self).tasks@.len() == n0 + plan.len()
                &&& final(self).tasks@.take(n0) == old(self).tasks@
                &&& forall|k: int|
                    0 <= k < plan.len() ==> new_task_row(
                        #[trigger] final(self).tasks@[n0 + k],
                        plan[k],
                        n0 + k + 1,
                        r->Ok_0 as int,
                        old(self).setup_count + setups_in(plan.take(k)) + 1,
                    )
                &&& final(self).setup_count == old(self).setup_count + setups_in(plan)
                &&& final(self).runs@ == old(self).runs@
                &&& final(self).clock == now
            }),
            finish_matches_status(old(self).tasks@) ==> finish_matches_status(final(self).tasks@),
    {
        match validate_submission(form) {
            Err(e) => return Err(e),
            Ok(()) => {},
        }
        let ghost old_store = *self;
        let ghost n0 = self.tasks@.len() as int;
        let plan = decompose(form);
        let ghost pv = decomposition(*form);
        proof {
            lemma_setup_iff_tests(*form);
        }
        assert(pv.len() <= 5);
        self.clock = now;
        let job_id = (self.jobs.len() + 1) as i64;
        let email = if form.email_to_notify_on_completion.as_str().is_empty() {
            None
        } else {
            Some(form.email_to_notify_on_completion.clone())
        };
        self.jobs.push(
            Job {
                id: job_id,
                commit_id: form.commit_to_use.clone(),
                added_at: now,
                email,
                status: JobStatus::Pending,
            },
        );
        assert(self.jobs@.drop_last() =~= old_store.jobs@);
        let mut k: usize = 0;
        assert(self.tasks@.take(n0) =~= old_store.tasks@);
        while k < plan.len()
            invariant
                old_store.wf(),
                old_store.has_room(0),
                plan_views(plan@) == pv,
                pv == decomposition(*form),
                pv.len() <= 5,
                forall|i: int|
                    0 <= i < pv.len() ==> ((#[trigger] pv[i]).setup is Some <==> pv[i].task_type is Tests),
                submission_error(*form) is None,
                n0 == old_store.tasks@.len(),
                k <= plan@.len(),
                job_id == old_store.jobs@.len() + 1,
                self.jobs@.len() == job_id,
                self.jobs@.drop_last() == old_store.jobs@,
                self.jobs@.last().id == job_id,
                self.jobs@.last().commit_id@ == form.commit_to_use@,
                self.jobs@.last().added_at == now,
                opt_text(self.jobs@.last().email) == email_of(*form),
                self.jobs@.last().status is Pending,
                self.runs@ == old_store.runs@,
                self.clock == now,
                old_store.clock <= now,
                self.tasks@.len() == n0 + k,
                self.tasks@.take(n0) == old_store.tasks@,
                self.setup_count == old_store.setup_count + setups_in(pv.take(k as int)),
                forall|j: int|
                    0 <= j < k ==> new_task_row(
                        #[trigger] self.tasks@[n0 + j],
                        pv[j],
                        n0 + j + 1,
                        job_id as int,
                        old_store.setup_count + setups_in(pv.take(j)) + 1,
                    ),
            decreases plan@.len() - k,
        {
            proof {
                lemma_setups_in_bounds(pv, k as int);
            }
            let p = &plan[k];
            assert(p@ == pv[k as int]);
            let setup = match &p.setup {
                Some(ps) => {
                    self.setup_count = self.setup_count + 1;
                    Some(
                        SetupRow {
                            id: self.setup_count,
                            compiler: ps.compiler,
                            required_tests: ps.required_tests,
                            mentioned_tests: copy_text(&ps.mentioned_tests),
                            run_tests_on_qemu: ps.run_tests_on_qemu,
                            run_tests_on_real_hardware: ps.run_tests_on_real_hardware,
                        },
                    )
                },
                None => None,
            };
            let id = (self.tasks.len() + 1) as i64;
            let ghost before = self.tasks@;
            self.tasks.push(
                TaskRow {
                    id,
                    job_id,
                    task_type: p.task_type,
                    status: JobStatus::Pending,
                    ret_code: None,
                    output: String::new(),
                    started_at: None,
                    finished_at: None,
                    executed_on: None,
                    setup,
                },
            );
            assert forall|j: int| 0 <= j < k + 1 implies new_task_row(
                #[trigger] self.tasks@[n0 + j],
                pv[j],
                n0 + j + 1,
                job_id as int,
                old_store.setup_count + setups_in(pv.take(j)) + 1,
            ) by {
                if j < k {
                    assert(self.tasks@[n0 + j] == before[n0 + j]);
                }
            };
            assert(self.tasks@.take(n0) =~= old_store.tasks@) by {
                assert(self.tasks@.take(n0) =~= before.take(n0));
            };
            k = k + 1;
        }
        assert(pv.take(k as int) =~= pv);
        proof {
            lemma_setups_in_bounds(pv, pv.len() as int);
            assert forall|i: int| 0 <= i < self.jobs@.len() implies (#[trigger] self.jobs@[i]).id
                == i + 1 && valid_git_hash(self.jobs@[i].commit_id@) by {
                if i < old_store.jobs@.len() {
                    assert(self.jobs@[i] == old_store.jobs@[i]);
                }
            };
            assert forall|i: int| 0 <= i < self.tasks@.len() implies #[trigger] self.task_wf(i) by {
                if i < n0 {
                    assert(old_store.task_wf(i));
                    assert(self.tasks@[i] == old_store.tasks@[i]) by {
                        assert(self.tasks@.take(n0)[i] == self.tasks@[i]);
                    };
                    lemma_setups_in_bounds(pv, pv.len() as int);
                    assert(pv.take(pv.len() as int) =~= pv);
                } else {
                    let j = i - n0;
                    assert(new_task_row(
                        self.tasks@[n0 + j],
                        pv[j],
                        n0 + j + 1,
                        job_id as int,
                        old_store.setup_count + setups_in(pv.take(j)) + 1,
                    ));
                    lemma_setups_in_bounds(pv, j);
                    lemma_setups_in_bounds(pv, j + 1);
                    lemma_setups_in_monotone(pv, j + 1, pv.len() as int);
                    assert(pv.take(pv.len() as int) =~= pv);
                    lemma_decomposed_setup_consistent(*form, j);
                }
            };
            assert forall|i: int| 0 <= i < self.runs@.len() implies #[trigger] self.run_wf(i) by {
                assert(old_store.run_wf(i));
            };
            if finish_matches_status(old_store.tasks@) {
                assert forall|i: int| 0 <= i < self.tasks@.len() implies ((
                #[trigger] self.tasks@[i]).finished_at is Some <==> self.tasks@[i].status.is_terminal()) by {
                    if i < n0 {
                        assert(self.tasks@[i] == self.tasks@.take(n0)[i]);
                        assert(old_store.tasks@[i].finished_at is Some
                            <==> old_store.tasks@[i].status.is_terminal());
                    } else {
                        assert(new_task_row(
                            self.tasks@[n0 + (i - n0)],
                            pv[i - n0],
                            n0 + (i - n0) + 1,
                            job_id as int,
                            old_store.setup_count + setups_in(pv.take(i - n0)) + 1,
                        ));
                    }
                };
            }
        }
        Ok(job_id)
    }
}

proof fn lemma_setups_in_monotone(plan: Seq<PlanView>, a: int, b: int)
    requires
        0 <= a <= b <= plan.len(),
    ensures
        setups_in(plan.take(a)) <= setups_in(plan.take(b)),
    decreases b - a,
{
    if a < b {
        lemma_setups_in_monotone(plan, a, b - 1);
        lemma_setups_in_bounds(plan, b - 1);
    }
}

proof fn lemma_decomposed_setup_consistent(f: PostJobForm, j: int)
    requires
        submission_error(f) is None,
        0 <= j < decomposition(f).len(),
    ensures
        match decomposition(f)[j].setup {
            Some(sv) => {
                &&& !(sv.required_tests is NotEvenCompile)
                &&& !(sv.required_tests is NoTestsOnlyCompile) ==> sv.run_tests_on_qemu is Some
                    && sv.run_tests_on_real_hardware is Some
                &&& (sv.required_tests is AllTestsExcept || sv.required_tests is OnlySpecifiedTests)
                    ==> sv.mentioned_tests is Some
            },
            None => true,
        },
{
}

} // verus!
