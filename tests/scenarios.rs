use minici::claim::AcceptJobForm;
use minici::model::{Compiler, JobStatus, TaskType, Target, TestsToRun};
use minici::protocol::{format_claim_response, RequestedTest, Task, TaskKind};
use minici::store::Store;
use minici::submission::PostJobForm;
use minici::test_runs::{
    Operation, PostTestListToJobForm, RegisterError, ReportError, ReportTestChangeForm, TestRunFinish,
};
use minici::updates::{ReturnStatus, UpdateError, UpdateTaskForm};


fn update(
    store: &mut Store,
    task_id: i64,
    return_status: ReturnStatus,
    ret_code: Option<i64>,
    output: &str,
    now: u64,
) -> Result<(), UpdateError> {
    let form = UpdateTaskForm { task_id, return_status, ret_code, output: String::from(output) };
    store.update_task(&form, now)
}

fn register(store: &mut Store, task_id: i64, tests: &str, targets: &str) -> Result<(), RegisterError> {
    let form = PostTestListToJobForm {
        task_id,
        tests_to_add: String::from(tests),
        targets: String::from(targets),
    };
    store.register_test_list(&form)
}

#[allow(clippy::too_many_arguments)]
fn report(
    store: &mut Store,
    task_id: i64,
    test_name: &str,
    target: Target,
    operation: Operation,
    output: Option<String>,
    status: Option<TestRunFinish>,
    now: u64,
) -> Result<(), ReportError> {
    let form = ReportTestChangeForm {
        task_id,
        test_name: String::from(test_name),
        target,
        operation,
        output,
        status,
    };
    store.report_test_change(&form, now).map(|_| ())
}

fn form(commit: &str, tests: TestsToRun) -> PostJobForm {
    PostJobForm {
        commit_to_use: String::from(commit),
        tests_to_run: tests,
        explicitly_disabled_tests: String::new(),
        explicitly_enabled_tests: String::new(),
        compile_with_gcc_from_hardware_vendor: false,
        compile_with_gcc_from_distro: false,
        run_tests_on_qemu: false,
        run_tests_on_real_hardware: false,
        run_static_analyser: false,
        run_clang_tidy: false,
        run_clang_format: false,
        email_to_notify_on_completion: String::new(),
    }
}

fn worker(host: &str) -> AcceptJobForm {
    AcceptJobForm {
        accept_static_analyser_task: true,
        accept_clang_tidy_task: true,
        accept_clang_format_task: true,
        accept_compile_with_gcc_from_hardware_vendor: true,
        accept_compile_with_gcc_from_distro: true,
        accept_run_tests_on_qemu: true,
        accept_run_tests_on_real_hardware: true,
        hostname: String::from(host),
    }
}

fn nothing_accepted(host: &str) -> AcceptJobForm {
    AcceptJobForm {
        accept_static_analyser_task: false,
        accept_clang_tidy_task: false,
        accept_clang_format_task: false,
        accept_compile_with_gcc_from_hardware_vendor: false,
        accept_compile_with_gcc_from_distro: false,
        accept_run_tests_on_qemu: false,
        accept_run_tests_on_real_hardware: false,
        hostname: String::from(host),
    }
}

#[test]
fn simple_static_analyser_job() {
    let mut store = Store::new();
    let mut f = form("abc123", TestsToRun::NotEvenCompile);
    f.run_static_analyser = true;
    let job_id = store.submit(&f, 10).unwrap();
    assert_eq!(job_id, 1);
    assert_eq!(store.jobs.len(), 1);
    assert_eq!(store.tasks.len(), 1);
    assert_eq!(store.tasks[0].task_type, TaskType::StaticAnalyser);
    assert_eq!(store.jobs[0].status, JobStatus::Pending);
    assert_eq!(store.tasks[0].status, JobStatus::Pending);

    let mut w = nothing_accepted("w1");
    w.accept_static_analyser_task = true;
    let task = store.claim(&w, 11).unwrap();
    assert_eq!(task.id(), 1);
    assert_eq!(task.git_hash(), "abc123");
    assert!(matches!(task.task_type(), TaskKind::StaticAnalyser));
    assert_eq!(store.tasks[0].status, JobStatus::Running);

    update(&mut store, 1, ReturnStatus::Success, Some(0), "done", 12).unwrap();
    assert_eq!(store.jobs[0].status, JobStatus::Success);
    assert_eq!(store.tasks[0].output, "done");
    assert_eq!(store.tasks[0].finished_at, Some(12));
}

#[test]
fn both_compilers_full_tests() {
    let mut store = Store::new();
    let mut f = form("deadbeef", TestsToRun::AllTests);
    f.compile_with_gcc_from_hardware_vendor = true;
    f.compile_with_gcc_from_distro = true;
    f.run_tests_on_qemu = true;
    store.submit(&f, 1).unwrap();
    assert_eq!(store.tasks.len(), 2);
    assert!(store.tasks.iter().all(|t| t.task_type == TaskType::Tests));
    let distro = store.tasks[0].setup.as_ref().unwrap();
    assert_eq!(distro.compiler, Compiler::GccFromDistro);
    assert_eq!(distro.required_tests.to_i64(), 1);
    assert_eq!(distro.run_tests_on_qemu, Some(true));
    let vendor = store.tasks[1].setup.as_ref().unwrap();
    assert_eq!(vendor.compiler, Compiler::GccFromHardwareVendor);
    assert_eq!(vendor.required_tests.to_i64(), 2);
    assert_eq!(vendor.run_tests_on_qemu, None);
    assert_eq!(vendor.run_tests_on_real_hardware, None);
}

#[test]
fn capability_mismatch() {
    let mut store = Store::new();
    let mut f = form("abc123", TestsToRun::AllTests);
    f.compile_with_gcc_from_distro = true;
    f.run_tests_on_qemu = true;
    store.submit(&f, 1).unwrap();
    let mut w = worker("w1");
    w.accept_run_tests_on_qemu = false;
    assert!(store.claim(&w, 2).is_none());
    assert_eq!(store.tasks[0].status, JobStatus::Pending);
    assert!(store.claim(&worker("w2"), 3).is_some());
}

#[test]
fn concurrent_claim() {
    let mut store = Store::new();
    let mut f = form("abc123", TestsToRun::NotEvenCompile);
    f.run_clang_tidy = true;
    store.submit(&f, 1).unwrap();
    let first = store.claim(&worker("alpha"), 2);
    let second = store.claim(&worker("beta"), 3);
    assert!(first.is_some());
    assert!(second.is_none());
    assert_eq!(store.tasks[0].executed_on.as_deref(), Some("alpha"));
}

#[test]
fn test_run_lifecycle() {
    let mut store = Store::new();
    let mut f = form("abc123", TestsToRun::AllTests);
    f.compile_with_gcc_from_distro = true;
    f.run_tests_on_qemu = true;
    store.submit(&f, 1).unwrap();
    register(&mut store, 1, "t1 t2", "qemu").unwrap();
    assert_eq!(store.runs.len(), 2);
    assert!(store.runs.iter().all(|r| r.status == JobStatus::Pending));
    assert_eq!(store.runs[0].test_name, "t1");
    assert_eq!(store.runs[1].test_name, "t2");

    report(&mut store, 1, "t1", Target::Qemu, Operation::Start, None, None, 5).unwrap();
    assert_eq!(store.runs[0].status, JobStatus::Running);
    assert_eq!(store.runs[0].started_at, Some(5));

    report(&mut store, 1, "t1", Target::Qemu, Operation::Progress, Some(String::from("line\n")), None, 6)
        .unwrap();
    assert_eq!(store.runs[0].output, "line\n");

    report(&mut store, 1, "t1", Target::Qemu, Operation::Finish, None, Some(TestRunFinish::Failed), 7)
        .unwrap();
    assert_eq!(store.runs[0].status.to_i64(), 4);
    assert_eq!(store.runs[0].ret_code, Some(1));
    assert_eq!(store.runs[0].finished_at, Some(7));
    assert_eq!(store.runs[1].status, JobStatus::Pending);
}

#[test]
fn rollup_failed_then_success() {
    let mut store = Store::new();
    let mut f = form("abc123", TestsToRun::NotEvenCompile);
    f.run_static_analyser = true;
    f.run_clang_format = true;
    f.run_clang_tidy = true;
    store.submit(&f, 1).unwrap();
    update(&mut store, 1, ReturnStatus::Success, Some(0), "", 2).unwrap();
    update(&mut store, 2, ReturnStatus::Success, Some(0), "", 3).unwrap();
    update(&mut store, 3, ReturnStatus::Failed, Some(2), "", 4).unwrap();
    assert_eq!(store.jobs[0].status, JobStatus::Failed);
    update(&mut store, 3, ReturnStatus::Success, Some(0), "", 5).unwrap();
    assert_eq!(store.jobs[0].status, JobStatus::Success);
}

#[test]
fn rollup_running_while_unfinished() {
    let mut store = Store::new();
    let mut f = form("abc123", TestsToRun::NotEvenCompile);
    f.run_static_analyser = true;
    f.run_clang_format = true;
    store.submit(&f, 1).unwrap();
    update(&mut store, 1, ReturnStatus::Failed, Some(2), "", 2).unwrap();
    assert_eq!(store.jobs[0].status, JobStatus::Running);
    update(&mut store, 2, ReturnStatus::Skipped, None, "", 3).unwrap();
    assert_eq!(store.jobs[0].status, JobStatus::Failed);
}

#[test]
fn claim_with_no_capability_gets_nothing() {
    let mut store = Store::new();
    let mut f = form("abc123", TestsToRun::AllTests);
    f.run_static_analyser = true;
    f.run_clang_format = true;
    f.run_clang_tidy = true;
    f.compile_with_gcc_from_distro = true;
    f.run_tests_on_qemu = true;
    store.submit(&f, 1).unwrap();
    assert!(store.claim(&nothing_accepted("idle"), 2).is_none());
    assert!(store.tasks.iter().all(|t| t.status == JobStatus::Pending));
}

#[test]
fn claim_is_fifo_by_task_id() {
    let mut store = Store::new();
    let mut f = form("abc123", TestsToRun::NotEvenCompile);
    f.run_clang_format = true;
    f.run_clang_tidy = true;
    store.submit(&f, 1).unwrap();
    let t = store.claim(&worker("w"), 2).unwrap();
    assert_eq!(t.id(), 1);
    let t = store.claim(&worker("w"), 3).unwrap();
    assert_eq!(t.id(), 2);
}

#[test]
fn claimed_tests_task_round_trips_through_text() {
    let mut store = Store::new();
    let mut f = form("abc123", TestsToRun::OnlySpecifiedTests);
    f.compile_with_gcc_from_hardware_vendor = true;
    f.run_tests_on_real_hardware = true;
    f.explicitly_enabled_tests = String::from("t1  t2\nt3");
    store.submit(&f, 1).unwrap();
    let t = store.claim(&worker("w"), 2).unwrap();
    let text = format_claim_response(&t);
    assert_eq!(
        text,
        "Task id: 1\nGit Hash: abc123\nType: Tests\nTest setup id: 1\nTest type: OnlySpecifiedTests(\"t1 t2 t3\")\nCompiler: GccFromHardwareVendor\nRun tests on qemu: false\nRun tests on real hardware: true\n"
    );
    let back = Task::from_str(&text).unwrap();
    assert_eq!(back.id(), 1);
    match back.task_type() {
        TaskKind::Test(s) => {
            assert_eq!(s.test_setup_id, 1);
            assert_eq!(s.compiler, Compiler::GccFromHardwareVendor);
            assert!(!s.run_tests_on_qemu);
            assert!(s.run_tests_on_real_hardware);
            match &s.tests_to_run {
                RequestedTest::OnlySpecifiedTests(v) => assert_eq!(v, &vec!["t1", "t2", "t3"]),
                other => panic!("unexpected {other:?}"),
            }
        }
        other => panic!("unexpected {other:?}"),
    }
}

#[test]
fn finished_tasks_are_not_claimed() {
    let mut store = Store::new();
    let mut f = form("abc123", TestsToRun::NotEvenCompile);
    f.run_static_analyser = true;
    f.run_clang_tidy = true;
    store.submit(&f, 1).unwrap();
    update(&mut store, 1, ReturnStatus::Failed, Some(1), "", 2).unwrap();
    update(&mut store, 2, ReturnStatus::Skipped, None, "", 3).unwrap();
    assert_eq!(store.jobs[0].status, JobStatus::Failed);
    assert!(store.claim(&worker("w"), 4).is_none());
}
