//! Per-test outcomes of a tests task: registering the (test, target) fan-out
//! and applying start, progress and finish reports.
use vstd::prelude::*;
use vstd::string::StringExecFns;
use crate::model::{JobStatus, Target};
use crate::protocol::{texts, words_of};
use crate::store::{run_key, Store, TestRun, MAX_ROWS};
use crate::text::{chars_of, equals, slice_of, words};

verus! {

broadcast use vstd::string::group_string_axioms;

/// What a report does to a test run.
#[derive(Debug, Clone, Copy, PartialEq, Eq, Structural)]
pub enum Operation {
    Start,
    Finish,
    Progress,
}

/// The terminal outcome that a finish report carries.
#[derive(Debug, Clone, Copy, PartialEq, Eq, Structural)]
pub enum TestRunFinish {
    Success,
    Failed,
    Timeout,
    Skipped,
}

/// The stored status of a finish outcome.
pub open spec fn finish_status(f: TestRunFinish) -> JobStatus {
    match f {
        TestRunFinish::Success => JobStatus::Success,
        TestRunFinish::Failed => JobStatus::Failed,
        TestRunFinish::Timeout => JobStatus::Timeout,
        TestRunFinish::Skipped => JobStatus::Skipped,
    }
}

/// The canonical return code of a finish outcome.
pub open spec fn finish_ret_code(f: TestRunFinish) -> Option<i64> {
    match f {
        TestRunFinish::Success => Some(0),
        TestRunFinish::Failed => Some(1),
        TestRunFinish::Timeout => Some(124),
        TestRunFinish::Skipped => None,
    }
}

impl TestRunFinish {
    pub fn status_and_ret_code(&self) -> (r: (JobStatus, Option<i64>))
        ensures
            r.0 == finish_status(*self),
            r.1 == finish_ret_code(*self),
    {
        match self {
            TestRunFinish::Success => (JobStatus::Success, Some(0)),
            TestRunFinish::Failed => (JobStatus::Failed, Some(1)),
            TestRunFinish::Timeout => (JobStatus::Timeout, Some(124)),
            TestRunFinish::Skipped => (JobStatus::Skipped, None),
        }
    }
}

/// Why a test list was refused; nothing is stored then.
#[derive(Debug, Clone, Copy, PartialEq, Eq, Structural)]
pub enum RegisterError {
    UnknownTask,
    UnknownTarget,
    DuplicateTestRun,
    StoreFull,
}

/// Why a test-run report was refused.
#[derive(Debug, Clone, Copy, PartialEq, Eq, Structural)]
pub enum ReportError {
    MissingOutput,
    MissingStatus,
    NoSuchTestRun,
}

/// A worker's list of tests to run on the targets of a tests task, both
/// whitespace separated.
#[derive(Debug)]
pub struct PostTestListToJobForm {
    pub task_id: i64,
    pub tests_to_add: String,
    pub targets: String,
}

/// A worker's report on one test run.
#[derive(Debug)]
pub struct ReportTestChangeForm {
    pub task_id: i64,
    pub test_name: String,
    pub target: Target,
    pub operation: Operation,
    pub output: Option<String>,
    pub status: Option<TestRunFinish>,
}

/// The target a word of the targets field names.
pub open spec fn target_named(w: Seq<char>) -> Option<Target> {
    if w == "qemu"@ {
        Some(Target::Qemu)
    } else if w == "real_hardware"@ {
        Some(Target::RealHardware)
    } else {
        None
    }
}

pub open spec fn all_targets_known(ws: Seq<Seq<char>>) -> bool {
    forall|k: int| 0 <= k < ws.len() ==> (#[trigger] target_named(ws[k])) is Some
}

pub open spec fn targets_of(ws: Seq<Seq<char>>) -> Seq<Target> {
    ws.map_values(|w: Seq<char>| target_named(w)->0)
}

/// Every (test, target) pair, target by target, each target with the tests in order.
pub open spec fn fan_out(tests: Seq<Seq<char>>, targets: Seq<Target>) -> Seq<(Seq<char>, Target)>
    decreases targets.len(),
{
    if targets.len() == 0 {
        Seq::empty()
    } else {
        fan_out(tests, targets.drop_last()) + tests.map_values(
            |t: Seq<char>| (t, targets.last()),
        )
    }
}

pub open spec fn pairs_distinct(p: Seq<(Seq<char>, Target)>) -> bool {
    forall|a: int, b: int| 0 <= a < b < p.len() ==> #[trigger] p[a] != #[trigger] p[b]
}

pub open spec fn pair_is_new(s: Store, task_id: i64, p: (Seq<char>, Target)) -> bool {
    forall|i: int|
        0 <= i < s.runs@.len() ==> run_key(#[trigger] s.runs@[i]) != (task_id, p.0, p.1)
}

/// `r` is the fresh pending row of id `id` for `task_id` and pair `p`.
pub open spec fn new_run_row(r: TestRun, id: int, task_id: i64, p: (Seq<char>, Target)) -> bool {
    &&& r.id == id
    &&& r.task_id == task_id
    &&& r.test_name@ == p.0
    &&& r.target == p.1
    &&& r.status is Pending
    &&& r.ret_code is None
    &&& r.started_at is None
    &&& r.finished_at is None
    &&& r.output@.len() == 0
}

/// The index of the test run that `(task_id, name, target)` identifies.
pub open spec fn run_at(s: Store, i: int, task_id: i64, name: Seq<char>, target: Target) -> bool {
    0 <= i < s.runs@.len() && run_key(s.runs@[i]) == (task_id, name, target)
}

fn target_from_word(w: &String) -> (r: Option<Target>)
    ensures
        r == target_named(w@),
{
    let cs = chars_of(w.as_str());
    assert(slice_of(cs@, 0, cs@.len() as int) =~= w@);
    if equals(&cs, 0, cs.len(), "qemu") {
        Some(Target::Qemu)
    } else if equals(&cs, 0, cs.len(), "real_hardware") {
        Some(Target::RealHardware)
    } else {
        None
    }
}

pub open spec fn pair_views(v: Seq<(String, Target)>) -> Seq<(Seq<char>, Target)> {
    v.map_values(|p: (String, Target)| (p.0@, p.1))
}

fn fan_out_pairs(names: &Vec<String>, tgs: &Vec<Target>) -> (r: Vec<(String, Target)>)
    ensures
        pair_views(r@) == fan_out(texts(names@), tgs@),
{
    let mut r: Vec<(String, Target)> = Vec::new();
    let mut ti: usize = 0;
    assert(tgs@.take(0) =~= Seq::<Target>::empty());
    assert(pair_views(r@) =~= Seq::<(Seq<char>, Target)>::empty());
    while ti < tgs.len()
        invariant
            ti <= tgs@.len(),
            pair_views(r@) == fan_out(texts(names@), tgs@.take(ti as int)),
        decreases tgs@.len() - ti,
    {
        let t = tgs[ti];
        let ghost base = r@;
        let mut k: usize = 0;
        assert(pair_views(r@) =~= pair_views(base) + texts(names@).take(0).map_values(
            |n: Seq<char>| (n, t),
        ));
        while k < names.len()
            invariant
                k <= names@.len(),
                t == tgs@[ti as int],
                ti < tgs@.len(),
                pair_views(r@) == pair_views(base) + texts(names@).take(k as int).map_values(
                    |n: Seq<char>| (n, t),
                ),
            decreases names@.len() - k,
        {
            let ghost before = r@;
            r.push((names[k].clone(), t));
            assert(pair_views(r@) =~= pair_views(before).push((names@[k as int]@, t)));
            assert(texts(names@).take(k as int + 1).map_values(|n: Seq<char>| (n, t))
                =~= texts(names@).take(k as int).map_values(|n: Seq<char>| (n, t)).push(
                (names@[k as int]@, t),
            ));
            k = k + 1;
        }
        assert(texts(names@).take(k as int) =~= texts(names@));
        assert(tgs@.take(ti as int + 1).drop_last() =~= tgs@.take(ti as int));
        assert(tgs@.take(ti as int + 1).last() == t);
        ti = ti + 1;
    }
    assert(tgs@.take(ti as int) =~= tgs@);
    r
}

impl Store {
    /// Registers the fan-out of a tests task: one pending test run per (test,
    /// target) pair, target by target. Tests and targets are whitespace
    /// separated; targets are `qemu` or `real_hardware`. The batch is stored
    /// whole or not at all.
    #[verifier::loop_isolation(false)]
    pub fn register_test_list(&mut self, form: &PostTestListToJobForm) -> (r: Result<(), RegisterError>)
        requires
            old(self).wf(),
        ensures
            final(self).wf(),
            ({
                let known_task = 1 <= form.task_id <= old(self).tasks@.len();
                let gw = words(form.targets@);
                let fan = fan_out(words(form.tests_to_add@), targets_of(gw));
                let fresh = pairs_distinct(fan) && forall|m: int|
                    0 <= m < fan.len() ==> pair_is_new(*old(self), form.task_id, #[trigger] fan[m]);
                &&& r == Err::<(), RegisterError>(RegisterError::UnknownTask) <==> !known_task
                &&& r == Err::<(), RegisterError>(RegisterError::UnknownTarget) <==> known_task
                    && !all_targets_known(gw)
                &&& r == Err::<(), RegisterError>(RegisterError::DuplicateTestRun) <==> known_task
                    && all_targets_known(gw) && !fresh
                &&& r == Err::<(), RegisterError>(RegisterError::StoreFull) <==> known_task
                    && all_targets_known(gw) && fresh && old(self).runs@.len() + fan.len()
                    >= MAX_ROWS
                &&& r is Err ==> *final(self) == *old(self)
                &&& r is Ok ==> {
                    let n0 = old(self).runs@.len() as int;
                    &&& final(self).runs@.len() == n0 + fan.len()
                    &&& final(self).runs@.take(n0) == old(self).runs@
                    &&& forall|m: int|
                        0 <= m < fan.len() ==> new_run_row(
                            #[trigger] final(self).runs@[n0 + m],
                            n0 + m + 1,
                            form.task_id,
                            fan[m],
                        )
                    &&& final(self).jobs@ == old(self).jobs@
                    &&& final(self).tasks@ == old(self).tasks@
                    &&& final(self).setup_count == old(self).setup_count
                    &&& final(self).clock == old(self).clock
                }
            }),
    {
        let task_id = form.task_id;
        if task_id < 1 || task_id > 0x4000_0000 || task_id as usize > self.tasks.len() {
            return Err(RegisterError::UnknownTask);
        }
        let names = words_of(form.tests_to_add.as_str());
        let tws = words_of(form.targets.as_str());
        let ghost gw = words(form.targets@);
        let mut tgs: Vec<Target> = Vec::new();
        let mut k: usize = 0;
        while k < tws.len()
            invariant
                texts(tws@) == gw,
                k <= tws@.len(),
                tgs@ == targets_of(gw.take(k as int)),
                forall|j: int| 0 <= j < k ==> (#[trigger] target_named(gw[j])) is Some,
            decreases tws@.len() - k,
        {
            match target_from_word(&tws[k]) {
                Some(t) => {
                    tgs.push(t);
                    assert(targets_of(gw.take(k as int + 1)) =~= targets_of(gw.take(k as int)).push(
                        t,
                    ));
                },
                None => {
                    assert(target_named(gw[k as int]) is None);
                    return Err(RegisterError::UnknownTarget);
                },
            }
            k = k + 1;
        }
        assert(gw.take(k as int) =~= gw);
        let pairs = fan_out_pairs(&names, &tgs);
        let ghost fan = pair_views(pairs@);
        let mut m: usize = 0;
        while m < pairs.len()
            invariant
                fan == pair_views(pairs@),
                m <= pairs@.len(),
                forall|a: int, b: int| 0 <= a < b < m ==> #[trigger] fan[a] != #[trigger] fan[b],
                forall|a: int| 0 <= a < m ==> pair_is_new(*self, task_id, #[trigger] fan[a]),
            decreases pairs@.len() - m,
        {
            let mut m2: usize = 0;
            while m2 < m
                invariant
                    fan == pair_views(pairs@),
                    m < pairs@.len(),
                    m2 <= m,
                    forall|a: int| 0 <= a < m2 ==> #[trigger] fan[a] != fan[m as int],
                decreases m - m2,
            {
                if pairs[m2].0 == pairs[m].0 && pairs[m2].1 == pairs[m].1 {
                    assert(fan[m2 as int] == fan[m as int]);
                    return Err(RegisterError::DuplicateTestRun);
                }
                m2 = m2 + 1;
            }
            let mut i: usize = 0;
            while i < self.runs.len()
                invariant
                    fan == pair_views(pairs@),
                    m < pairs@.len(),
                    i <= self.runs@.len(),
                    forall|j: int|
                        0 <= j < i ==> run_key(#[trigger] self.runs@[j]) != (
                            task_id,
                            fan[m as int].0,
                            fan[m as int].1,
                        ),
                decreases self.runs@.len() - i,
            {
                let r = &self.runs[i];
                if r.task_id == task_id && r.test_name == pairs[m].0 && r.target == pairs[m].1 {
                    assert(run_key(self.runs@[i as int]) == (task_id, fan[m as int].0, fan[m as int].1));
                    return Err(RegisterError::DuplicateTestRun);
                }
                i = i + 1;
            }
            m = m + 1;
        }
        if pairs.len() >= MAX_ROWS - self.runs.len() {
            return Err(RegisterError::StoreFull);
        }
        let ghost old_store = *self;
        let ghost n0 = self.runs@.len() as int;
        let mut m: usize = 0;
        assert(self.runs@.take(n0) =~= old_store.runs@);
        while m < pairs.len()
            invariant
                old_store.wf(),
                fan == pair_views(pairs@),
                pairs@.len() + n0 < MAX_ROWS,
                n0 == old_store.runs@.len(),
                m <= pairs@.len(),
                self.runs@.len() == n0 + m,
                self.runs@.take(n0) == old_store.runs@,
                self.jobs@ == old_store.jobs@,
                self.tasks@ == old_store.tasks@,
                self.setup_count == old_store.setup_count,
                self.clock == old_store.clock,
                1 <= task_id <= old_store.tasks@.len(),
                forall|j: int|
                    0 <= j < m ==> new_run_row(#[trigger] self.runs@[n0 + j], n0 + j + 1, task_id, fan[j]),
            decreases pairs@.len() - m,
        {
            let ghost before = self.runs@;
            let id = (self.runs.len() + 1) as i64;
            self.runs.push(
                TestRun {
                    id,
                    task_id,
                    test_name: pairs[m].0.clone(),
                    target: pairs[m].1,
                    status: JobStatus::Pending,
                    ret_code: None,
                    started_at: None,
                    finished_at: None,
                    output: String::new(),
                },
            );
            assert forall|j: int| 0 <= j < m + 1 implies new_run_row(
                #[trigger] self.runs@[n0 + j],
                n0 + j + 1,
                task_id,
                fan[j],
            ) by {
                if j < m {
                    assert(self.runs@[n0 + j] == before[n0 + j]);
                }
            };
            assert(self.runs@.take(n0) =~= before.take(n0));
            m = m + 1;
        }
        proof {
            assert forall|i: int| 0 <= i < self.tasks@.len() implies #[trigger] self.task_wf(i) by {
                assert(old_store.task_wf(i));
            };
            assert forall|i: int| 0 <= i < self.runs@.len() implies #[trigger] self.run_wf(i) by {
                if i < n0 {
                    assert(old_store.run_wf(i));
                    assert(self.runs@[i] == self.runs@.take(n0)[i]);
                } else {
                    assert(new_run_row(self.runs@[n0 + (i - n0)], n0 + (i - n0) + 1, task_id, fan[i - n0]));
                }
            };
            assert forall|i: int, j: int| 0 <= i < j < self.runs@.len() implies run_key(
                #[trigger] self.runs@[i],
            ) != run_key(#[trigger] self.runs@[j]) by {
                if j < n0 {
                    assert(self.runs@[i] == self.runs@.take(n0)[i]);
                    assert(self.runs@[j] == self.runs@.take(n0)[j]);
                } else if i < n0 {
                    assert(self.runs@[i] == self.runs@.take(n0)[i]);
                    assert(new_run_row(self.runs@[n0 + (j - n0)], n0 + (j - n0) + 1, task_id, fan[j - n0]));
                    assert(pair_is_new(old_store, task_id, fan[j - n0]));
                    assert(run_key(old_store.runs@[i]) != (task_id, fan[j - n0].0, fan[j - n0].1));
                } else {
                    assert(new_run_row(self.runs@[n0 + (j - n0)], n0 + (j - n0) + 1, task_id, fan[j - n0]));
                    assert(new_run_row(self.runs@[n0 + (i - n0)], n0 + (i - n0) + 1, task_id, fan[i - n0]));
                    assert(fan[i - n0] != fan[j - n0]);
                }
            };
        }
        Ok(())
    }
}

impl Store {
    /// Applies a report on the test run that `(task_id, test_name, target)`
    /// identifies: `Start` marks it running and started now, `Progress`
    /// appends its output, `Finish` sets the outcome, its canonical return
    /// code and the finish time.
    pub fn report_test_change(&mut self, form: &ReportTestChangeForm, now: u64) -> (r: Result<
        usize,
        ReportError,
    >)
        requires
            old(self).wf(),
            old(self).clock <= now,
        ensures
            final(self).wf(),
            r == Err::<usize, ReportError>(ReportError::MissingOutput) <==> form.operation is Progress
                && form.output is None,
            r == Err::<usize, ReportError>(ReportError::MissingStatus) <==> form.operation is Finish
                && form.status is None,
            r == Err::<usize, ReportError>(ReportError::NoSuchTestRun) <==> !(form.operation is Progress
                && form.output is None) && !(form.operation is Finish && form.status is None) && !exists|i: int|
                run_at(*old(self), i, form.task_id, form.test_name@, form.target),
            r is Err ==> *final(self) == *old(self),
            r is Ok ==> ({
                    let i = r->Ok_0 as int;
                    &&& run_at(*old(self), i, form.task_id, form.test_name@, form.target)
                    &&& final(self).runs@.len() == old(self).runs@.len()
                    &&& forall|k: int|
                        0 <= k < old(self).runs@.len() && k != i ==> #[trigger] final(self).runs@[k]
                            == old(self).runs@[k]
                    &&& {
                        let t = final(self).runs@[i];
                        let o = old(self).runs@[i];
                        &&& t.id == o.id && t.task_id == o.task_id && t.test_name == o.test_name
                            && t.target == o.target
                        &&& match form.operation {
                            Operation::Start => t.status is Running && t.started_at == Some(now)
                                && t.ret_code == o.ret_code && t.finished_at == o.finished_at
                                && t.output == o.output,
                            Operation::Progress => t.output@ == o.output@ + form.output->0@
                                && t.status == o.status && t.ret_code == o.ret_code
                                && t.started_at == o.started_at && t.finished_at == o.finished_at,
                            Operation::Finish => t.status == finish_status(form.status->0)
                                && t.ret_code == finish_ret_code(form.status->0) && t.finished_at
                                == Some(now) && t.started_at == o.started_at && t.output
                                == o.output,
                        }
                    }
                    &&& final(self).jobs@ == old(self).jobs@
                    &&& final(self).tasks@ == old(self).tasks@
                    &&& final(self).setup_count == old(self).setup_count
                    &&& final(self).clock == now
                }),
    {
        let task_id = form.task_id;
        let target = form.target;
        let operation = form.operation;
        let output = &form.output;
        let status = form.status;
        if operation == Operation::Progress && output.is_none() {
            return Err(ReportError::MissingOutput);
        }
        if operation == Operation::Finish && status.is_none() {
            return Err(ReportError::MissingStatus);
        }
        let name = form.test_name.clone();
        let mut i: usize = 0;
        while i < self.runs.len()
            invariant
                i <= self.runs@.len(),
                name@ == form.test_name@,
                forall|j: int| 0 <= j < i ==> !run_at(*self, j, task_id, form.test_name@, target),
            ensures
                i <= self.runs@.len(),
                forall|j: int| 0 <= j < i ==> !run_at(*self, j, task_id, form.test_name@, target),
                i < self.runs@.len() ==> run_at(*self, i as int, task_id, form.test_name@, target),
            decreases self.runs@.len() - i,
        {
            let r = &self.runs[i];
            if r.task_id == task_id && r.test_name == name && r.target == target {
                break;
            }
            i = i + 1;
        }
        if i == self.runs.len() {
            return Err(ReportError::NoSuchTestRun);
        }
        let ghost old_store = *self;
        self.clock = now;
        match operation {
            Operation::Start => {
                self.runs[i].status = JobStatus::Running;
                self.runs[i].started_at = Some(now);
            },
            Operation::Progress => {
                match output {
                    Some(o) => self.runs[i].output.append(o.as_str()),
                    None => {},
                }
            },
            Operation::Finish => {
                match status {
                    Some(f) => {
                        let (st, code) = f.status_and_ret_code();
                        self.runs[i].status = st;
                        self.runs[i].ret_code = code;
                        self.runs[i].finished_at = Some(now);
                    },
                    None => {},
                }
            },
        }
        proof {
            assert forall|k: int| 0 <= k < self.tasks@.len() implies #[trigger] self.task_wf(k) by {
                assert(old_store.task_wf(k));
            };
            assert forall|k: int| 0 <= k < self.runs@.len() implies #[trigger] self.run_wf(k) by {
                assert(old_store.run_wf(k));
            };
            assert forall|a: int, b: int| 0 <= a < b < self.runs@.len() implies run_key(
                #[trigger] self.runs@[a],
            ) != run_key(#[trigger] self.runs@[b]) by {
                assert(run_key(old_store.runs@[a]) != run_key(old_store.runs@[b]));
            };
            assert(run_at(old_store, i as int, task_id, form.test_name@, target));
        }
        Ok(i)
    }
}

/// Test runs stay unique by (task, test name, target): at most one row
/// answers a report.
pub proof fn lemma_test_run_key_unique(s: Store, i: int, j: int, task_id: i64, name: Seq<char>, target: Target)
    requires
        s.wf(),
        run_at(s, i, task_id, name, target),
        run_at(s, j, task_id, name, target),
    ensures
        i == j,
{
    if i < j {
        assert(run_key(s.runs@[i]) != run_key(s.runs@[j]));
    } else if j < i {
        assert(run_key(s.runs@[j]) != run_key(s.runs@[i]));
    }
}

} // verus!
