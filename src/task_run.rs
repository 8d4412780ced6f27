//! The steps of running one claimed task, and of a tests task, as state
//! machines: the caller performs each action (a checkout, a build, a report)
//! and hands back what came of it.
use vstd::prelude::*;
use crate::model::Target;
use crate::protocol::{RequestedTest, TaskKind, TestSetup};
use crate::selection::tests_task_status;
use crate::worker::FinishStatus;

verus! {

/// Why a task ends before its tool runs.
#[derive(Debug, Clone, Copy, PartialEq, Eq, Structural)]
pub enum RunFailure {
    /// The commit cannot be described; `fetch_failed` when the mirror update failed too.
    CommitMissing { fetch_failed: bool },
    /// No scratch directory could be made.
    NoScratchDir,
    /// The commit could not be checked out.
    CheckoutFailed,
}

#[derive(Debug, Clone, Copy, PartialEq, Eq, Structural)]
pub enum RunState {
    UpdatingMirror,
    Describing { fetch_ok: bool },
    CreatingDir,
    CheckingOut,
    Starting,
    Running,
    Finishing,
    Done,
}

#[derive(Debug, Clone, Copy, PartialEq, Eq, Structural)]
pub enum RunEvent {
    MirrorUpdated { ok: bool },
    Described { ok: bool },
    DirCreated { ok: bool },
    CheckedOut { ok: bool },
    StartReported,
    /// The tool ran: its outcome, or `None` when it stopped on an error whose
    /// message the caller holds.
    Executed { status: Option<FinishStatus> },
    FinishReported,
}

#[derive(Debug, Clone, Copy, PartialEq, Eq, Structural)]
pub enum RunAction {
    UpdateMirror,
    DescribeCommit,
    CreateDir,
    CheckOut,
    ReportStarted,
    RunStaticAnalyser,
    RunClangTidy,
    RunTests,
    /// Report the task failed with this code and the reason as output.
    ReportError { ret_code: i64, reason: RunFailure },
    /// Report the final status; the output is the tool's error message when
    /// `with_error_message`, else empty.
    ReportFinish { status: FinishStatus, with_error_message: bool },
    Stop,
}

/// The first step of a task: update the git mirror.
pub fn run_task_start() -> (r: (RunState, RunAction))
    ensures
        r == (RunState::UpdatingMirror, RunAction::UpdateMirror),
{
    (RunState::UpdatingMirror, RunAction::UpdateMirror)
}

/// The action that runs the tool of `kind`, or for a format check the report
/// that it was skipped.
pub open spec fn tool_step(kind: TaskKind) -> (RunState, RunAction) {
    match kind {
        TaskKind::ClangFormat => (
            RunState::Finishing,
            RunAction::ReportFinish { status: FinishStatus::Skipped, with_error_message: false },
        ),
        TaskKind::StaticAnalyser => (RunState::Running, RunAction::RunStaticAnalyser),
        TaskKind::ClangTidy => (RunState::Running, RunAction::RunClangTidy),
        TaskKind::Test(_) => (RunState::Running, RunAction::RunTests),
    }
}

/// The next state and action of running a task of kind `kind`: update the
/// mirror, describe the commit, make a scratch directory, check out, report
/// the start, run the tool, report the outcome. A failure before the tool
/// runs is reported as `Failed` with code 2. An event that does not belong to
/// the state stops the run.
pub fn run_task_step(kind: &TaskKind, state: RunState, event: RunEvent) -> (r: (RunState, RunAction))
    ensures
        r == match (state, event) {
            (RunState::UpdatingMirror, RunEvent::MirrorUpdated { ok }) => (
                RunState::Describing { fetch_ok: ok },
                RunAction::DescribeCommit,
            ),
            (RunState::Describing { fetch_ok }, RunEvent::Described { ok }) => if ok {
                (RunState::CreatingDir, RunAction::CreateDir)
            } else {
                (
                    RunState::Done,
                    RunAction::ReportError {
                        ret_code: 2,
                        reason: RunFailure::CommitMissing { fetch_failed: !fetch_ok },
                    },
                )
            },
            (RunState::CreatingDir, RunEvent::DirCreated { ok }) => if ok {
                (RunState::CheckingOut, RunAction::CheckOut)
            } else {
                (RunState::Done, RunAction::ReportError { ret_code: 2, reason: RunFailure::NoScratchDir })
            },
            (RunState::CheckingOut, RunEvent::CheckedOut { ok }) => if ok {
                (RunState::Starting, RunAction::ReportStarted)
            } else {
                (RunState::Done, RunAction::ReportError { ret_code: 2, reason: RunFailure::CheckoutFailed })
            },
            (RunState::Starting, RunEvent::StartReported) => tool_step(*kind),
            (RunState::Running, RunEvent::Executed { status }) => match status {
                Some(st) => (
                    RunState::Finishing,
                    RunAction::ReportFinish { status: st, with_error_message: false },
                ),
                None => (
                    RunState::Finishing,
                    RunAction::ReportFinish { status: FinishStatus::Failed(2), with_error_message: true },
                ),
            },
            _ => (RunState::Done, RunAction::Stop),
        },
{
    match (state, event) {
        (RunState::UpdatingMirror, RunEvent::MirrorUpdated { ok }) => (
            RunState::Describing { fetch_ok: ok },
            RunAction::DescribeCommit,
        ),
        (RunState::Describing { fetch_ok }, RunEvent::Described { ok }) => if ok {
            (RunState::CreatingDir, RunAction::CreateDir)
        } else {
            (
                RunState::Done,
                RunAction::ReportError {
                    ret_code: 2,
                    reason: RunFailure::CommitMissing { fetch_failed: !fetch_ok },
                },
            )
        },
        (RunState::CreatingDir, RunEvent::DirCreated { ok }) => if ok {
            (RunState::CheckingOut, RunAction::CheckOut)
        } else {
            (RunState::Done, RunAction::ReportError { ret_code: 2, reason: RunFailure::NoScratchDir })
        },
        (RunState::CheckingOut, RunEvent::CheckedOut { ok }) => if ok {
            (RunState::Starting, RunAction::ReportStarted)
        } else {
            (RunState::Done, RunAction::ReportError { ret_code: 2, reason: RunFailure::CheckoutFailed })
        },
        (RunState::Starting, RunEvent::StartReported) => match kind {
            TaskKind::ClangFormat => (
                RunState::Finishing,
                RunAction::ReportFinish { status: FinishStatus::Skipped, with_error_message: false },
            ),
            TaskKind::StaticAnalyser => (RunState::Running, RunAction::RunStaticAnalyser),
            TaskKind::ClangTidy => (RunState::Running, RunAction::RunClangTidy),
            TaskKind::Test(_) => (RunState::Running, RunAction::RunTests),
        },
        (RunState::Running, RunEvent::Executed { status }) => match status {
            Some(st) => (RunState::Finishing, RunAction::ReportFinish { status: st, with_error_message: false }),
            None => (
                RunState::Finishing,
                RunAction::ReportFinish { status: FinishStatus::Failed(2), with_error_message: true },
            ),
        },
        _ => (RunState::Done, RunAction::Stop),
    }
}

// ------------------------------------------------------------ tests task

/// Where a tests task stands within the test at `index`.
#[derive(Debug, Clone, Copy, PartialEq, Eq, Structural)]
pub enum TestPhase {
    QemuStarting,
    QemuNotice,
    QemuAborting,
    QemuRunning,
    QemuFinishing,
    HardwareStarting,
    HardwareFinishing,
}

#[derive(Debug, Clone, Copy, PartialEq, Eq, Structural)]
pub enum TestsState {
    Configuring,
    Compiling,
    Listing,
    Registering { count: usize },
    Testing { index: usize, count: usize, phase: TestPhase, has_error: bool },
    Done,
}

#[derive(Debug, Clone, Copy, PartialEq, Eq, Structural)]
pub enum TestsEvent {
    /// The build generation or the compilation ended.
    BuildStepDone { ok: bool },
    /// The tests were listed: `ok` when every requested test exists, then the
    /// number of tests to run.
    Listed { ok: bool, count: usize },
    /// The test list was registered.
    Registered,
    /// A start, progress or finish report was sent.
    Reported,
    /// An emulator run ended with this outcome; `is_error` when it counts
    /// against the task.
    QemuDone { status: FinishStatus, is_error: bool },
}

/// Why a tests task stops with an error message rather than a status.
#[derive(Debug, Clone, Copy, PartialEq, Eq, Structural)]
pub enum TestsFailure {
    UnknownTests,
    NoTarget,
}

#[derive(Debug, Clone, Copy, PartialEq, Eq, Structural)]
pub enum TestsAction {
    RunCmake,
    RunNinja,
    ListTests,
    RegisterTests,
    StartTest { index: usize, target: Target },
    /// Report that the test at `index` is not run because of an immediate shutdown.
    AbortNotice { index: usize },
    RunQemu { index: usize },
    FinishTest { index: usize, target: Target, status: FinishStatus },
    /// The task ends with this status.
    Finish { status: FinishStatus },
    /// The task ends with an error.
    Fail { reason: TestsFailure },
    Stop,
}

/// The first step for the test at `index`, or the end of the task once every
/// test is done.
pub open spec fn enter_test(s: TestSetup, index: int, count: usize, has_error: bool) -> (
    TestsState,
    TestsAction,
) {
    if index >= count {
        (TestsState::Done, TestsAction::Finish { status: tests_task_status_spec(has_error) })
    } else if s.run_tests_on_qemu {
        (
            TestsState::Testing {
                index: index as usize,
                count,
                phase: TestPhase::QemuStarting,
                has_error,
            },
            TestsAction::StartTest { index: index as usize, target: Target::Qemu },
        )
    } else if s.run_tests_on_real_hardware {
        (
            TestsState::Testing {
                index: index as usize,
                count,
                phase: TestPhase::HardwareStarting,
                has_error,
            },
            TestsAction::StartTest { index: index as usize, target: Target::RealHardware },
        )
    } else {
        (TestsState::Done, TestsAction::Finish { status: tests_task_status_spec(has_error) })
    }
}

/// After the emulator part of the test at `index`: its real-hardware part, or
/// the next test.
pub open spec fn after_qemu(s: TestSetup, index: int, count: usize, has_error: bool) -> (
    TestsState,
    TestsAction,
) {
    if s.run_tests_on_real_hardware {
        (
            TestsState::Testing {
                index: index as usize,
                count,
                phase: TestPhase::HardwareStarting,
                has_error,
            },
            TestsAction::StartTest { index: index as usize, target: Target::RealHardware },
        )
    } else {
        enter_test(s, index + 1, count, has_error)
    }
}

pub open spec fn tests_task_status_spec(has_error: bool) -> FinishStatus {
    if has_error {
        FinishStatus::Failed(2)
    } else {
        FinishStatus::Success
    }
}

pub open spec fn compile_only(s: TestSetup) -> bool {
    s.tests_to_run is NoTestsOnlyCompile
}

/// The first step of a tests task: generate the build.
pub fn tests_start() -> (r: (TestsState, TestsAction))
    ensures
        r == (TestsState::Configuring, TestsAction::RunCmake),
{
    (TestsState::Configuring, TestsAction::RunCmake)
}

fn enter_test_exec(s: &TestSetup, index: usize, count: usize, has_error: bool) -> (r: (
    TestsState,
    TestsAction,
))
    ensures
        r == enter_test(*s, index as int, count, has_error),
{
    if index >= count {
        (TestsState::Done, TestsAction::Finish { status: tests_task_status(has_error) })
    } else if s.run_tests_on_qemu {
        (
            TestsState::Testing { index, count, phase: TestPhase::QemuStarting, has_error },
            TestsAction::StartTest { index, target: Target::Qemu },
        )
    } else if s.run_tests_on_real_hardware {
        (
            TestsState::Testing { index, count, phase: TestPhase::HardwareStarting, has_error },
            TestsAction::StartTest { index, target: Target::RealHardware },
        )
    } else {
        (TestsState::Done, TestsAction::Finish { status: tests_task_status(has_error) })
    }
}

fn after_qemu_exec(s: &TestSetup, index: usize, count: usize, has_error: bool) -> (r: (
    TestsState,
    TestsAction,
))
    requires
        index < count,
    ensures
        r == after_qemu(*s, index as int, count, has_error),
{
    if s.run_tests_on_real_hardware {
        (
            TestsState::Testing { index, count, phase: TestPhase::HardwareStarting, has_error },
            TestsAction::StartTest { index, target: Target::RealHardware },
        )
    } else {
        enter_test_exec(s, index + 1, count, has_error)
    }
}

/// The next state and action of a tests task with setup `s`. A failed build
/// step ends the task as `Failed(2)` before any test list is registered; a
/// compile-only setup ends as `Success` once compiled. Then each test, in the
/// registered order: on the emulator a start report, then either (on an
/// immediate shutdown) a notice and `Failed(4)`, counted as an error, or the
/// run and its outcome; on real hardware a start report and `Skipped`. Once
/// every test is done the task ends as `Failed(2)` if any test was an error,
/// else `Success`.
pub fn tests_step(s: &TestSetup, state: TestsState, event: TestsEvent, immediate_exit: bool) -> (r: (
    TestsState,
    TestsAction,
))
    ensures
        r == match (state, event) {
            (TestsState::Configuring, TestsEvent::BuildStepDone { ok }) => if ok {
                (TestsState::Compiling, TestsAction::RunNinja)
            } else {
                (TestsState::Done, TestsAction::Finish { status: FinishStatus::Failed(2) })
            },
            (TestsState::Compiling, TestsEvent::BuildStepDone { ok }) => if !ok {
                (TestsState::Done, TestsAction::Finish { status: FinishStatus::Failed(2) })
            } else if compile_only(*s) {
                (TestsState::Done, TestsAction::Finish { status: FinishStatus::Success })
            } else {
                (TestsState::Listing, TestsAction::ListTests)
            },
            (TestsState::Listing, TestsEvent::Listed { ok, count }) => if !ok {
                (TestsState::Done, TestsAction::Fail { reason: TestsFailure::UnknownTests })
            } else if !s.run_tests_on_qemu && !s.run_tests_on_real_hardware {
                (TestsState::Done, TestsAction::Fail { reason: TestsFailure::NoTarget })
            } else {
                (TestsState::Registering { count }, TestsAction::RegisterTests)
            },
            (TestsState::Registering { count }, TestsEvent::Registered) => enter_test(
                *s,
                0,
                count,
                false,
            ),
            (
                TestsState::Testing { index, count, phase, has_error },
                TestsEvent::Reported,
            ) => if index >= count {
                (TestsState::Done, TestsAction::Stop)
            } else {
                match phase {
                    TestPhase::QemuStarting => if immediate_exit {
                        (
                            TestsState::Testing {
                                index,
                                count,
                                phase: TestPhase::QemuNotice,
                                has_error: true,
                            },
                            TestsAction::AbortNotice { index },
                        )
                    } else {
                        (
                            TestsState::Testing { index, count, phase: TestPhase::QemuRunning, has_error },
                            TestsAction::RunQemu { index },
                        )
                    },
                    TestPhase::QemuNotice => (
                        TestsState::Testing { index, count, phase: TestPhase::QemuAborting, has_error },
                        TestsAction::FinishTest {
                            index,
                            target: Target::Qemu,
                            status: FinishStatus::Failed(4),
                        },
                    ),
                    TestPhase::QemuAborting => after_qemu(*s, index as int, count, has_error),
                    TestPhase::QemuFinishing => after_qemu(*s, index as int, count, has_error),
                    TestPhase::HardwareStarting => (
                        TestsState::Testing {
                            index,
                            count,
                            phase: TestPhase::HardwareFinishing,
                            has_error,
                        },
                        TestsAction::FinishTest {
                            index,
                            target: Target::RealHardware,
                            status: FinishStatus::Skipped,
                        },
                    ),
                    TestPhase::HardwareFinishing => enter_test(*s, index + 1, count, has_error),
                    TestPhase::QemuRunning => (TestsState::Done, TestsAction::Stop),
                }
            },
            (
                TestsState::Testing { index, count, phase: TestPhase::QemuRunning, has_error },
                TestsEvent::QemuDone { status, is_error },
            ) => if index >= count {
                (TestsState::Done, TestsAction::Stop)
            } else {
                (
                    TestsState::Testing {
                        index,
                        count,
                        phase: TestPhase::QemuFinishing,
                        has_error: has_error || is_error,
                    },
                    TestsAction::FinishTest { index, target: Target::Qemu, status },
                )
            },
            _ => (TestsState::Done, TestsAction::Stop),
        },
{
    match (state, event) {
        (TestsState::Configuring, TestsEvent::BuildStepDone { ok }) => if ok {
            (TestsState::Compiling, TestsAction::RunNinja)
        } else {
            (TestsState::Done, TestsAction::Finish { status: FinishStatus::Failed(2) })
        },
        (TestsState::Compiling, TestsEvent::BuildStepDone { ok }) => if !ok {
            (TestsState::Done, TestsAction::Finish { status: FinishStatus::Failed(2) })
        } else if let RequestedTest::NoTestsOnlyCompile = s.tests_to_run {
            (TestsState::Done, TestsAction::Finish { status: FinishStatus::Success })
        } else {
            (TestsState::Listing, TestsAction::ListTests)
        },
        (TestsState::Listing, TestsEvent::Listed { ok, count }) => if !ok {
            (TestsState::Done, TestsAction::Fail { reason: TestsFailure::UnknownTests })
        } else if !s.run_tests_on_qemu && !s.run_tests_on_real_hardware {
            (TestsState::Done, TestsAction::Fail { reason: TestsFailure::NoTarget })
        } else {
            (TestsState::Registering { count }, TestsAction::RegisterTests)
        },
        (TestsState::Registering { count }, TestsEvent::Registered) => enter_test_exec(
            s,
            0,
            count,
            false,
        ),
        (TestsState::Testing { index, count, phase, has_error }, TestsEvent::Reported) => {
            if index >= count {
                return (TestsState::Done, TestsAction::Stop);
            }
            match phase {
                TestPhase::QemuStarting => if immediate_exit {
                    (
                        TestsState::Testing { index, count, phase: TestPhase::QemuNotice, has_error: true },
                        TestsAction::AbortNotice { index },
                    )
                } else {
                    (
                        TestsState::Testing { index, count, phase: TestPhase::QemuRunning, has_error },
                        TestsAction::RunQemu { index },
                    )
                },
                TestPhase::QemuNotice => (
                    TestsState::Testing { index, count, phase: TestPhase::QemuAborting, has_error },
                    TestsAction::FinishTest { index, target: Target::Qemu, status: FinishStatus::Failed(4) },
                ),
                TestPhase::QemuAborting => after_qemu_exec(s, index, count, has_error),
                TestPhase::QemuFinishing => after_qemu_exec(s, index, count, has_error),
                TestPhase::HardwareStarting => (
                    TestsState::Testing { index, count, phase: TestPhase::HardwareFinishing, has_error },
                    TestsAction::FinishTest {
                        index,
                        target: Target::RealHardware,
                        status: FinishStatus::Skipped,
                    },
                ),
                TestPhase::HardwareFinishing => enter_test_exec(s, index + 1, count, has_error),
                TestPhase::QemuRunning => (TestsState::Done, TestsAction::Stop),
            }
        },
        (
            TestsState::Testing { index, count, phase: TestPhase::QemuRunning, has_error },
            TestsEvent::QemuDone { status, is_error },
        ) => if index >= count {
            (TestsState::Done, TestsAction::Stop)
        } else {
            (
                TestsState::Testing {
                    index,
                    count,
                    phase: TestPhase::QemuFinishing,
                    has_error: has_error || is_error,
                },
                TestsAction::FinishTest { index, target: Target::Qemu, status },
            )
        },
        _ => (TestsState::Done, TestsAction::Stop),
    }
}

} // verus!
