use minici::model::{Compiler, Target, TestsToRun};
use minici::protocol::{RequestedTest, TaskKind, TestSetup};
use minici::store::Store;
use minici::submission::PostJobForm;
use minici::task_run::{
    run_task_start, run_task_step, tests_start, tests_step, RunAction, RunEvent, RunFailure, RunState,
    TestsAction, TestsEvent, TestsFailure, TestsState,
};
use minici::test_runs::{Operation, PostTestListToJobForm, ReportTestChangeForm};
use minici::worker::FinishStatus;

fn setup(tests: RequestedTest, qemu: bool, hardware: bool) -> TestSetup {
    TestSetup {
        test_setup_id: 1,
        compiler: Compiler::GccFromDistro,
        tests_to_run: tests,
        run_tests_on_qemu: qemu,
        run_tests_on_real_hardware: hardware,
    }
}

/// Drives a task run up to the start report, all steps succeeding.
fn started(kind: &TaskKind) -> (RunState, RunAction) {
    let (s, a) = run_task_start();
    assert_eq!(a, RunAction::UpdateMirror);
    let (s, a) = run_task_step(kind, s, RunEvent::MirrorUpdated { ok: true });
    assert_eq!(a, RunAction::DescribeCommit);
    let (s, a) = run_task_step(kind, s, RunEvent::Described { ok: true });
    assert_eq!(a, RunAction::CreateDir);
    let (s, a) = run_task_step(kind, s, RunEvent::DirCreated { ok: true });
    assert_eq!(a, RunAction::CheckOut);
    let (s, a) = run_task_step(kind, s, RunEvent::CheckedOut { ok: true });
    assert_eq!(a, RunAction::ReportStarted);
    run_task_step(kind, s, RunEvent::StartReported)
}

#[test]
fn task_run_missing_commit_reports_fetch_failure() {
    let kind = TaskKind::ClangTidy;
    let (s, _) = run_task_start();
    let (s, _) = run_task_step(&kind, s, RunEvent::MirrorUpdated { ok: false });
    let (s, a) = run_task_step(&kind, s, RunEvent::Described { ok: false });
    assert_eq!(s, RunState::Done);
    assert_eq!(a, RunAction::ReportError { ret_code: 2, reason: RunFailure::CommitMissing { fetch_failed: true } });
    let (s, _) = run_task_step(&kind, RunState::UpdatingMirror, RunEvent::MirrorUpdated { ok: true });
    let (_, a) = run_task_step(&kind, s, RunEvent::Described { ok: false });
    assert_eq!(a, RunAction::ReportError { ret_code: 2, reason: RunFailure::CommitMissing { fetch_failed: false } });
}

#[test]
fn task_run_checkout_and_dir_failures() {
    let kind = TaskKind::StaticAnalyser;
    let (_, a) = run_task_step(&kind, RunState::CreatingDir, RunEvent::DirCreated { ok: false });
    assert_eq!(a, RunAction::ReportError { ret_code: 2, reason: RunFailure::NoScratchDir });
    let (_, a) = run_task_step(&kind, RunState::CheckingOut, RunEvent::CheckedOut { ok: false });
    assert_eq!(a, RunAction::ReportError { ret_code: 2, reason: RunFailure::CheckoutFailed });
}

#[test]
fn task_run_clang_format_is_skipped() {
    let kind = TaskKind::ClangFormat;
    let (s, a) = started(&kind);
    assert_eq!(a, RunAction::ReportFinish { status: FinishStatus::Skipped, with_error_message: false });
    let (s, a) = run_task_step(&kind, s, RunEvent::FinishReported);
    assert_eq!((s, a), (RunState::Done, RunAction::Stop));
}

#[test]
fn task_run_reports_tool_outcome() {
    let kind = TaskKind::StaticAnalyser;
    let (s, a) = started(&kind);
    assert_eq!(a, RunAction::RunStaticAnalyser);
    let (_, a) = run_task_step(&kind, s, RunEvent::Executed { status: Some(FinishStatus::Failed(7)) });
    assert_eq!(a, RunAction::ReportFinish { status: FinishStatus::Failed(7), with_error_message: false });
    let (_, a) = run_task_step(&kind, s, RunEvent::Executed { status: None });
    assert_eq!(a, RunAction::ReportFinish { status: FinishStatus::Failed(2), with_error_message: true });
    let tests = TaskKind::Test(setup(RequestedTest::AllTest, true, false));
    assert_eq!(started(&tests).1, RunAction::RunTests);
    assert_eq!(started(&TaskKind::ClangTidy).1, RunAction::RunClangTidy);
}

#[test]
fn tests_task_build_failures_register_nothing() {
    let s = setup(RequestedTest::AllTest, true, false);
    let (st, a) = tests_start();
    assert_eq!(a, TestsAction::RunCmake);
    let (_, a) = tests_step(&s, st, TestsEvent::BuildStepDone { ok: false }, false);
    assert_eq!(a, TestsAction::Finish { status: FinishStatus::Failed(2) });
    let (_, a) = tests_step(&s, TestsState::Compiling, TestsEvent::BuildStepDone { ok: false }, false);
    assert_eq!(a, TestsAction::Finish { status: FinishStatus::Failed(2) });
}

#[test]
fn tests_task_compile_only_succeeds() {
    let s = setup(RequestedTest::NoTestsOnlyCompile, false, false);
    let (st, a) = tests_step(&s, TestsState::Configuring, TestsEvent::BuildStepDone { ok: true }, false);
    assert_eq!(a, TestsAction::RunNinja);
    let (st, a) = tests_step(&s, st, TestsEvent::BuildStepDone { ok: true }, false);
    assert_eq!((st, a), (TestsState::Done, TestsAction::Finish { status: FinishStatus::Success }));
}

#[test]
fn tests_task_unknown_tests_fail() {
    let s = setup(RequestedTest::OnlySpecifiedTests(vec![String::from("x")]), true, false);
    let (_, a) = tests_step(&s, TestsState::Listing, TestsEvent::Listed { ok: false, count: 1 }, false);
    assert_eq!(a, TestsAction::Fail { reason: TestsFailure::UnknownTests });
}

/// Runs the tests part to its end, every test passing on the emulator.
fn run_all(s: &TestSetup, count: usize, immediate_exit: bool) -> Vec<TestsAction> {
    let mut actions = Vec::new();
    let (mut st, mut a) = tests_step(s, TestsState::Listing, TestsEvent::Listed { ok: true, count }, false);
    loop {
        actions.push(a);
        let ev = match a {
            TestsAction::RegisterTests => TestsEvent::Registered,
            TestsAction::RunQemu { .. } => TestsEvent::QemuDone { status: FinishStatus::Success, is_error: false },
            TestsAction::Finish { .. } | TestsAction::Fail { .. } | TestsAction::Stop => return actions,
            _ => TestsEvent::Reported,
        };
        (st, a) = tests_step(s, st, ev, immediate_exit);
    }
}

#[test]
fn tests_task_report_order_per_test_and_target() {
    let s = setup(RequestedTest::AllTest, true, true);
    let got = run_all(&s, 2, false);
    let mut want = vec![TestsAction::RegisterTests];
    for index in 0..2 {
        want.push(TestsAction::StartTest { index, target: Target::Qemu });
        want.push(TestsAction::RunQemu { index });
        want.push(TestsAction::FinishTest { index, target: Target::Qemu, status: FinishStatus::Success });
        want.push(TestsAction::StartTest { index, target: Target::RealHardware });
        want.push(TestsAction::FinishTest { index, target: Target::RealHardware, status: FinishStatus::Skipped });
    }
    want.push(TestsAction::Finish { status: FinishStatus::Success });
    assert_eq!(got, want);
}

#[test]
fn tests_task_immediate_exit_fails_each_test() {
    let s = setup(RequestedTest::AllTest, true, false);
    let got = run_all(&s, 1, true);
    assert_eq!(
        got,
        vec![
            TestsAction::RegisterTests,
            TestsAction::StartTest { index: 0, target: Target::Qemu },
            TestsAction::AbortNotice { index: 0 },
            TestsAction::FinishTest { index: 0, target: Target::Qemu, status: FinishStatus::Failed(4) },
            TestsAction::Finish { status: FinishStatus::Failed(2) },
        ]
    );
}

#[test]
fn tests_task_qemu_error_fails_the_task() {
    let s = setup(RequestedTest::AllTest, true, false);
    let st = TestsState::Testing { index: 0, count: 1, phase: minici::task_run::TestPhase::QemuRunning, has_error: false };
    let (st, a) = tests_step(&s, st, TestsEvent::QemuDone { status: FinishStatus::Timeout, is_error: true }, false);
    assert_eq!(a, TestsAction::FinishTest { index: 0, target: Target::Qemu, status: FinishStatus::Timeout });
    let (_, a) = tests_step(&s, st, TestsEvent::Reported, false);
    assert_eq!(a, TestsAction::Finish { status: FinishStatus::Failed(2) });
    let none = setup(RequestedTest::AllTest, false, false);
    let (_, a) = tests_step(&none, TestsState::Listing, TestsEvent::Listed { ok: true, count: 1 }, false);
    assert_eq!(a, TestsAction::Fail { reason: TestsFailure::NoTarget });
}

#[test]
fn report_returns_the_updated_run() {
    let mut store = Store::new();
    let f = PostJobForm {
        commit_to_use: String::from("abc123"),
        tests_to_run: TestsToRun::AllTests,
        explicitly_disabled_tests: String::new(),
        explicitly_enabled_tests: String::new(),
        compile_with_gcc_from_hardware_vendor: false,
        compile_with_gcc_from_distro: true,
        run_tests_on_qemu: true,
        run_tests_on_real_hardware: false,
        run_static_analyser: false,
        run_clang_tidy: false,
        run_clang_format: false,
        email_to_notify_on_completion: String::new(),
    };
    store.submit(&f, 1).unwrap();
    let list = PostTestListToJobForm { task_id: 1, tests_to_add: String::from("a b"), targets: String::from("qemu") };
    store.register_test_list(&list).unwrap();
    let report = ReportTestChangeForm {
        task_id: 1,
        test_name: String::from("b"),
        target: Target::Qemu,
        operation: Operation::Start,
        output: None,
        status: None,
    };
    assert_eq!(store.report_test_change(&report, 2), Ok(1));
}
