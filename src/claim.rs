//! The claim matcher: which pending task a worker with given capabilities
//! receives, and the claim itself.
use vstd::prelude::*;
use crate::model::{Compiler, JobStatus, TaskType, TestsToRun};
use crate::protocol::{
    lemma_claim_response_round_trip, parse_task, render_task, well_formed_task,
    words_of, KindView, RequestedTest, RequestedView, SetupDesc, Task, TaskKind, TaskView,
    TestSetup,
};
use crate::store::{SetupRow, Store, TaskRow};
use crate::updates::finish_matches_status;
use crate::text::{lemma_words_are_words, words};

verus! {

/// What a worker advertises: the kinds of work it accepts, and its host name.
#[derive(Debug)]
pub struct AcceptJobForm {
    pub accept_static_analyser_task: bool,
    pub accept_clang_tidy_task: bool,
    pub accept_clang_format_task: bool,
    pub accept_compile_with_gcc_from_hardware_vendor: bool,
    pub accept_compile_with_gcc_from_distro: bool,
    pub accept_run_tests_on_qemu: bool,
    pub accept_run_tests_on_real_hardware: bool,
    pub hostname: String,
}

/// The worker compiles with the setup's toolchain, and can run the tests
/// where the setup asks for them (a target is satisfied when the setup does
/// not ask for it or the worker accepts it; a compile-only setup asks for none).
pub open spec fn setup_fits(s: SetupRow, c: AcceptJobForm) -> bool {
    &&& (s.compiler is GccFromHardwareVendor && c.accept_compile_with_gcc_from_hardware_vendor)
        || (s.compiler is GccFromDistro && c.accept_compile_with_gcc_from_distro)
    &&& s.required_tests is NoTestsOnlyCompile || ((s.run_tests_on_qemu == Some(false)
        || c.accept_run_tests_on_qemu) && (s.run_tests_on_real_hardware == Some(false)
        || c.accept_run_tests_on_real_hardware))
}

pub open spec fn kind_accepted(t: TaskRow, c: AcceptJobForm) -> bool {
    match t.task_type {
        TaskType::StaticAnalyser => c.accept_static_analyser_task,
        TaskType::ClangFormat => c.accept_clang_format_task,
        TaskType::ClangTidy => c.accept_clang_tidy_task,
        TaskType::Tests => t.setup is Some && setup_fits(t.setup->0, c),
    }
}

pub open spec fn requested_view(s: SetupRow) -> RequestedView {
    match s.required_tests {
        TestsToRun::NoTestsOnlyCompile => RequestedView::NoTestsOnlyCompile,
        TestsToRun::AllTestsExcept => RequestedView::AllExcept(words(s.mentioned_tests->0@)),
        TestsToRun::OnlySpecifiedTests => RequestedView::OnlySpecifiedTests(
            words(s.mentioned_tests->0@),
        ),
        _ => RequestedView::AllTest,
    }
}

pub open spec fn setup_desc(s: SetupRow) -> SetupDesc {
    let compile_only = s.required_tests is NoTestsOnlyCompile;
    SetupDesc {
        test_setup_id: s.id,
        compiler: s.compiler,
        tests_to_run: requested_view(s),
        run_tests_on_qemu: !compile_only && s.run_tests_on_qemu == Some(true),
        run_tests_on_real_hardware: !compile_only && s.run_tests_on_real_hardware == Some(true),
    }
}

impl Store {
    pub open spec fn job_of(&self, i: int) -> int {
        self.tasks@[i].job_id - 1
    }

    /// Task `i` may go to a worker with capabilities `c`: it is pending, its
    /// job is still pending or running, and the worker accepts its kind.
    pub open spec fn eligible(&self, i: int, c: AcceptJobForm) -> bool {
        let t = self.tasks@[i];
        let j = self.jobs@[self.job_of(i)];
        &&& t.status is Pending
        &&& j.status is Pending || j.status is Running
        &&& kind_accepted(t, c)
    }

    /// Task `i` is the one a claim hands out: eligible, and no eligible task
    /// has a smaller id.
    pub open spec fn first_eligible(&self, i: int, c: AcceptJobForm) -> bool {
        &&& 0 <= i < self.tasks@.len()
        &&& self.eligible(i, c)
        &&& forall|k: int| 0 <= k < i ==> !#[trigger] self.eligible(k, c)
    }

    /// The description of task `i` that a claim sends.
    pub open spec fn descriptor(&self, i: int) -> TaskView {
        let t = self.tasks@[i];
        TaskView {
            id: t.id,
            git_hash: self.jobs@[self.job_of(i)].commit_id@,
            kind: match t.task_type {
                TaskType::StaticAnalyser => KindView::StaticAnalyser,
                TaskType::ClangFormat => KindView::ClangFormat,
                TaskType::ClangTidy => KindView::ClangTidy,
                TaskType::Tests => KindView::Test(setup_desc(t.setup->0)),
            },
        }
    }

    fn eligible_at(&self, i: usize, c: &AcceptJobForm) -> (r: bool)
        requires
            self.wf(),
            i < self.tasks@.len(),
        ensures
            r == self.eligible(i as int, *c),
    {
        assert(self.task_wf(i as int));
        let t = &self.tasks[i];
        if t.status != JobStatus::Pending {
            return false;
        }
        let js = self.jobs[(t.job_id - 1) as usize].status;
        if js != JobStatus::Pending && js != JobStatus::Running {
            return false;
        }
        match t.task_type {
            TaskType::StaticAnalyser => c.accept_static_analyser_task,
            TaskType::ClangFormat => c.accept_clang_format_task,
            TaskType::ClangTidy => c.accept_clang_tidy_task,
            TaskType::Tests => match &t.setup {
                None => false,
                Some(s) => {
                    let compiler_ok = match s.compiler {
                        Compiler::GccFromHardwareVendor => c.accept_compile_with_gcc_from_hardware_vendor,
                        Compiler::GccFromDistro => c.accept_compile_with_gcc_from_distro,
                    };
                    let targets_ok = s.required_tests == TestsToRun::NoTestsOnlyCompile || ((
                    s.run_tests_on_qemu == Some(false) || c.accept_run_tests_on_qemu) && (
                    s.run_tests_on_real_hardware == Some(false)
                        || c.accept_run_tests_on_real_hardware));
                    compiler_ok && targets_ok
                },
            },
        }
    }

    fn describe(&self, i: usize) -> (r: Task)
        requires
            self.wf(),
            i < self.tasks@.len(),
        ensures
            r@ == self.descriptor(i as int),
    {
        assert(self.task_wf(i as int));
        let t = &self.tasks[i];
        let job = &self.jobs[(t.job_id - 1) as usize];
        let kind = match t.task_type {
            TaskType::StaticAnalyser => TaskKind::StaticAnalyser,
            TaskType::ClangFormat => TaskKind::ClangFormat,
            TaskType::ClangTidy => TaskKind::ClangTidy,
            TaskType::Tests => {
                let s = t.setup.as_ref().unwrap();
                let tests_to_run = match s.required_tests {
                    TestsToRun::NoTestsOnlyCompile => RequestedTest::NoTestsOnlyCompile,
                    TestsToRun::AllTestsExcept => RequestedTest::AllExcept(
                        words_of(s.mentioned_tests.as_ref().unwrap().as_str()),
                    ),
                    TestsToRun::OnlySpecifiedTests => RequestedTest::OnlySpecifiedTests(
                        words_of(s.mentioned_tests.as_ref().unwrap().as_str()),
                    ),
                    _ => RequestedTest::AllTest,
                };
                let compile_only = s.required_tests == TestsToRun::NoTestsOnlyCompile;
                TaskKind::Test(
                    TestSetup {
                        test_setup_id: s.id,
                        compiler: s.compiler,
                        tests_to_run,
                        run_tests_on_qemu: !compile_only && s.run_tests_on_qemu == Some(true),
                        run_tests_on_real_hardware: !compile_only && s.run_tests_on_real_hardware
                            == Some(true),
                    },
                )
            },
        };
        Task::new(t.id, job.commit_id.clone(), kind)
    }

    /// Hands the pending task with the smallest id that the worker can run to
    /// that worker: it becomes running, started now, executed on the worker's
    /// host. Returns its description, or `None` (and changes nothing) when no
    /// task fits.
    pub fn claim(&mut self, c: &AcceptJobForm, now: u64) -> (r: Option<Task>)
        requires
            old(self).wf(),
            old(self).clock <= now,
        ensures
            final(self).wf(),
            r is None <==> forall|i: int|
                0 <= i < old(self).tasks@.len() ==> !#[trigger] old(self).eligible(i, *c),
            r is None ==> *final(self) == *old(self),
            r is Some ==> ({
                let i = r->0@.id - 1;
                let t = final(self).tasks@[i];
                let o = old(self).tasks@[i];
                &&& old(self).first_eligible(i, *c)
                &&& r->0@ == old(self).descriptor(i)
                &&& final(self).tasks@.len() == old(self).tasks@.len()
                &&& forall|k: int|
                    0 <= k < old(self).tasks@.len() && k != i ==> #[trigger] final(self).tasks@[k]
                        == old(self).tasks@[k]
                &&& t.status is Running
                &&& t.started_at == Some(now)
                &&& t.executed_on is Some && t.executed_on->0@ == c.hostname@
                &&& t.id == o.id && t.job_id == o.job_id && t.task_type == o.task_type
                &&& t.ret_code == o.ret_code && t.output == o.output && t.finished_at
                    == o.finished_at && t.setup == o.setup
                &&& final(self).jobs@ == old(self).jobs@
                &&& final(self).runs@ == old(self).runs@
                &&& final(self).setup_count == old(self).setup_count
                &&& final(self).clock == now
            }),
            finish_matches_status(old(self).tasks@) ==> finish_matches_status(final(self).tasks@),
    {
        let n = self.tasks.len();
        let mut i: usize = 0;
        while i < n
            invariant
                self.wf(),
                n == self.tasks@.len(),
                i <= n,
                forall|k: int| 0 <= k < i ==> !#[trigger] self.eligible(k, *c),
            ensures
                i <= n,
                forall|k: int| 0 <= k < i ==> !#[trigger] self.eligible(k, *c),
                i < n ==> self.eligible(i as int, *c),
            decreases n - i,
        {
            if self.eligible_at(i, c) {
                break;
            }
            i = i + 1;
        }
        if i == n {
            return None;
        }
        let ghost old_store = *self;
        let d = self.describe(i);
        assert(self.task_wf(i as int));
        self.clock = now;
        self.tasks[i].status = JobStatus::Running;
        self.tasks[i].started_at = Some(now);
        self.tasks[i].executed_on = Some(c.hostname.clone());
        proof {
            assert forall|k: int| 0 <= k < self.tasks@.len() implies #[trigger] self.task_wf(k) by {
                assert(old_store.task_wf(k));
            };
            assert forall|k: int| 0 <= k < self.runs@.len() implies #[trigger] self.run_wf(k) by {
                assert(old_store.run_wf(k));
            };
            if finish_matches_status(old_store.tasks@) {
                assert forall|k: int| 0 <= k < self.tasks@.len() implies ((
                #[trigger] self.tasks@[k]).finished_at is Some <==> self.tasks@[k].status.is_terminal()) by {
                    assert(old_store.tasks@[k].finished_at is Some
                        <==> old_store.tasks@[k].status.is_terminal());
                };
            }
        }
        Some(d)
    }
}

/// A worker that accepts nothing is never handed a task, whatever is pending.
pub proof fn lemma_no_capability_no_task(s: Store, c: AcceptJobForm, i: int)
    requires
        !c.accept_static_analyser_task,
        !c.accept_clang_tidy_task,
        !c.accept_clang_format_task,
        !c.accept_compile_with_gcc_from_hardware_vendor,
        !c.accept_compile_with_gcc_from_distro,
        !c.accept_run_tests_on_qemu,
        !c.accept_run_tests_on_real_hardware,
    ensures
        !s.eligible(i, c),
{
}

/// A task that a worker has claimed is not eligible again, for any worker:
/// no task is claimed by two hosts.
pub proof fn lemma_claimed_not_eligible(s: Store, c: AcceptJobForm, i: int)
    requires
        s.wf(),
        0 <= i < s.tasks@.len(),
        s.tasks@[i].executed_on is Some,
    ensures
        !s.eligible(i, c),
{
    assert(s.task_wf(i));
}

/// Every task that the store hands out can be written as a claim response
/// and read back unchanged, provided its list of test names, where it has
/// one, holds at least one name.
pub proof fn lemma_handed_out_task_is_well_formed(s: Store, i: int)
    requires
        s.wf(),
        0 <= i < s.tasks@.len(),
        s.tasks@[i].setup is Some && (s.tasks@[i].setup->0.required_tests is AllTestsExcept
            || s.tasks@[i].setup->0.required_tests is OnlySpecifiedTests) ==> words(
            s.tasks@[i].setup->0.mentioned_tests->0@,
        ).len() > 0,
    ensures
        well_formed_task(s.descriptor(i)),
        parse_task(render_task(s.descriptor(i))) == Some(s.descriptor(i)),
{
    assert(s.task_wf(i));
    let t = s.tasks@[i];
    assert(s.jobs@[s.job_of(i)].id == s.job_of(i) + 1);
    if let Some(setup) = t.setup {
        lemma_words_are_words(setup.mentioned_tests->0@);
    }
    lemma_claim_response_round_trip(s.descriptor(i));
}

} // verus!
