use minici::claim::AcceptJobForm;
use minici::polling::{poll_start, poll_step, PollAction, PollEvent, PollState};
use minici::model::{is_valid_git_hash, Compiler, JobStatus, TaskType, Target, TestsToRun};
use minici::protocol::{
    format_claim_response, no_task_response, words_of, ParseTaskError, RequestedTest, Task,
    TaskKind, TestSetup,
};
use minici::selection::{
    cmake_args, ensure_all_requested_tests_are_available, found_tests_message,
    get_available_tests, get_tests_to_execute, output_reports_timeout, qemu_test_outcome,
    targets_field, tests_task_status, unknown_tests_message,
};
use minici::store::Store;
use minici::submission::{decompose, validate_submission, PostJobForm, SubmitError};
use minici::test_runs::{
    Operation, PostTestListToJobForm, RegisterError, ReportError, ReportTestChangeForm, TestRunFinish,
};
use minici::updates::{rollup_of, ReturnStatus, UpdateError, UpdateTaskForm};
use minici::worker::{
    is_exit_requested, is_immediate_exit_requested, prepend_channel, FinishStatus, LineFramer,
    Message,
};


fn update(
    store: &mut Store,
    task_id: i64,
    return_status: ReturnStatus,
    ret_code: Option<i64>,
    output: &str,
    now: u64,
) -> Result<(), UpdateError> {
    let form = UpdateTaskForm { task_id, return_status, ret_code, output: String::from(output) };
    store.update_task(&form, now)
}

fn register(store: &mut Store, task_id: i64, tests: &str, targets: &str) -> Result<(), RegisterError> {
    let form = PostTestListToJobForm {
        task_id,
        tests_to_add: String::from(tests),
        targets: String::from(targets),
    };
    store.register_test_list(&form)
}

#[allow(clippy::too_many_arguments)]
fn report(
    store: &mut Store,
    task_id: i64,
    test_name: &str,
    target: Target,
    operation: Operation,
    output: Option<String>,
    status: Option<TestRunFinish>,
    now: u64,
) -> Result<(), ReportError> {
    let form = ReportTestChangeForm {
        task_id,
        test_name: String::from(test_name),
        target,
        operation,
        output,
        status,
    };
    store.report_test_change(&form, now).map(|_| ())
}

fn base_form() -> PostJobForm {
    PostJobForm {
        commit_to_use: String::from("abc123"),
        tests_to_run: TestsToRun::AllTests,
        explicitly_disabled_tests: String::new(),
        explicitly_enabled_tests: String::new(),
        compile_with_gcc_from_hardware_vendor: false,
        compile_with_gcc_from_distro: true,
        run_tests_on_qemu: true,
        run_tests_on_real_hardware: false,
        run_static_analyser: false,
        run_clang_tidy: false,
        run_clang_format: false,
        email_to_notify_on_completion: String::new(),
    }
}

fn strings(v: &[&str]) -> Vec<String> {
    v.iter().map(|s| String::from(*s)).collect()
}

#[test]
fn git_hash_length_bounds() {
    assert!(!is_valid_git_hash("ab"));
    assert!(is_valid_git_hash("abc"));
    assert!(is_valid_git_hash(&"a".repeat(64)));
    assert!(!is_valid_git_hash(&"a".repeat(65)));
    assert!(!is_valid_git_hash(""));
}

#[test]
fn git_hash_characters() {
    assert!(is_valid_git_hash("0123456789abcdefABCDEF"));
    assert!(!is_valid_git_hash("abg"));
    assert!(!is_valid_git_hash("abc 12"));
    assert!(!is_valid_git_hash("ééé"));
}

#[test]
fn validation_empty_request() {
    let mut f = base_form();
    f.tests_to_run = TestsToRun::NotEvenCompile;
    f.commit_to_use = String::from("zz");
    assert_eq!(validate_submission(&f), Err(SubmitError::EmptyRequest));
}

#[test]
fn validation_invalid_commit() {
    let mut f = base_form();
    f.commit_to_use = String::from("xyz");
    assert_eq!(validate_submission(&f), Err(SubmitError::InvalidCommit));
}

#[test]
fn validation_no_compiler() {
    let mut f = base_form();
    f.compile_with_gcc_from_distro = false;
    assert_eq!(validate_submission(&f), Err(SubmitError::NoCompilerChosen));
}

#[test]
fn validation_no_target() {
    let mut f = base_form();
    f.run_tests_on_qemu = false;
    assert_eq!(validate_submission(&f), Err(SubmitError::NoTargetChosen));
    f.tests_to_run = TestsToRun::NoTestsOnlyCompile;
    assert_eq!(validate_submission(&f), Ok(()));
}

#[test]
fn validation_all_except_with_empty_list() {
    let mut f = base_form();
    f.tests_to_run = TestsToRun::AllTestsExcept;
    assert_eq!(validate_submission(&f), Err(SubmitError::EmptyTestList));
    f.explicitly_disabled_tests = String::from("t1");
    assert_eq!(validate_submission(&f), Ok(()));
}

#[test]
fn validation_only_specified_with_empty_list() {
    let mut f = base_form();
    f.tests_to_run = TestsToRun::OnlySpecifiedTests;
    f.explicitly_disabled_tests = String::from("t1");
    assert_eq!(validate_submission(&f), Err(SubmitError::EmptyTestList));
}

#[test]
fn decomposition_vendor_only_carries_full_setup() {
    let mut f = base_form();
    f.compile_with_gcc_from_distro = false;
    f.compile_with_gcc_from_hardware_vendor = true;
    f.tests_to_run = TestsToRun::AllTestsExcept;
    f.explicitly_disabled_tests = String::from("slow");
    f.run_clang_format = true;
    let plan = decompose(&f);
    assert_eq!(plan.len(), 2);
    assert_eq!(plan[0].task_type, TaskType::ClangFormat);
    assert!(plan[0].setup.is_none());
    let s = plan[1].setup.as_ref().unwrap();
    assert_eq!(s.compiler, Compiler::GccFromHardwareVendor);
    assert_eq!(s.required_tests, TestsToRun::AllTestsExcept);
    assert_eq!(s.mentioned_tests.as_deref(), Some("slow"));
    assert_eq!(s.run_tests_on_qemu, Some(true));
    assert_eq!(s.run_tests_on_real_hardware, Some(false));
}

#[test]
fn decomposition_is_the_same_twice() {
    let mut f = base_form();
    f.run_static_analyser = true;
    f.compile_with_gcc_from_hardware_vendor = true;
    let a = decompose(&f);
    let b = decompose(&f);
    assert_eq!(format!("{a:?}"), format!("{b:?}"));
    assert_eq!(a.len(), 3);
}

#[test]
fn submit_stores_email_and_time() {
    let mut store = Store::new();
    let mut f = base_form();
    f.email_to_notify_on_completion = String::from("a@b.c");
    assert_eq!(store.submit(&f, 42), Ok(1));
    assert_eq!(store.jobs[0].email.as_deref(), Some("a@b.c"));
    assert_eq!(store.jobs[0].added_at, 42);
    assert_eq!(store.jobs[0].commit_id, "abc123");
    f.commit_to_use = String::from("nothex");
    assert_eq!(store.submit(&f, 43), Err(SubmitError::InvalidCommit));
    assert_eq!(store.jobs.len(), 1);
}

#[test]
fn status_codes() {
    assert_eq!(JobStatus::from_i64(5), JobStatus::Timeout);
    assert_eq!(JobStatus::Skipped.to_i64(), 6);
    assert_eq!(TaskType::from_i64(3), TaskType::ClangTidy);
    assert_eq!(Compiler::from_i64(2), Compiler::GccFromDistro);
    assert_eq!(TestsToRun::from_i64(4), TestsToRun::AllTestsExcept);
    assert_eq!(Target::RealHardware.to_i64(), 2);
}

#[test]
fn claim_response_exact_text() {
    let t = Task::new(7, String::from("abc123"), TaskKind::StaticAnalyser);
    assert_eq!(format_claim_response(&t), "Task id: 7\nGit Hash: abc123\nType: StaticAnalyser\n");
    let t = Task::new(
        -12,
        String::from("ff00"),
        TaskKind::Test(TestSetup {
            test_setup_id: 3,
            compiler: Compiler::GccFromDistro,
            tests_to_run: RequestedTest::NoTestsOnlyCompile,
            run_tests_on_qemu: false,
            run_tests_on_real_hardware: false,
        }),
    );
    assert_eq!(
        format_claim_response(&t),
        "Task id: -12\nGit Hash: ff00\nType: Tests\nTest setup id: 3\nTest type: NoTestOnlyCompile\nCompiler: GccFromDistro\n"
    );
    assert_eq!(no_task_response(), "no suitable task found. Maybe there are no tasks left to execute");
}

#[test]
fn claim_response_round_trip_all_except() {
    let t = Task::new(
        9,
        String::from("deadbeef"),
        TaskKind::Test(TestSetup {
            test_setup_id: 4,
            compiler: Compiler::GccFromHardwareVendor,
            tests_to_run: RequestedTest::AllExcept(strings(&["a", "b"])),
            run_tests_on_qemu: true,
            run_tests_on_real_hardware: true,
        }),
    );
    let text = format_claim_response(&t);
    let back = Task::from_str(&text).unwrap();
    assert_eq!(back.id(), 9);
    assert_eq!(back.git_hash(), "deadbeef");
    match back.task_type() {
        TaskKind::Test(s) => {
            assert_eq!(s.test_setup_id, 4);
            assert!(s.run_tests_on_qemu && s.run_tests_on_real_hardware);
            match &s.tests_to_run {
                RequestedTest::AllExcept(v) => assert_eq!(v, &strings(&["a", "b"])),
                other => panic!("unexpected {other:?}"),
            }
        }
        other => panic!("unexpected {other:?}"),
    }
}

#[test]
fn claim_response_round_trip_simple_kinds() {
    for kind in [TaskKind::ClangTidy, TaskKind::ClangFormat, TaskKind::StaticAnalyser] {
        let name = format!("{kind:?}");
        let t = Task::new(1, String::from("abc"), kind);
        let back = Task::from_str(&format_claim_response(&t)).unwrap();
        assert_eq!(format!("{:?}", back.task_type()), name);
    }
}

#[test]
fn parse_accepts_crlf_and_spaces() {
    let t = Task::from_str("Task id:   5  \r\nGit Hash: abcdef\r\nType: ClangTidy\r\n").unwrap();
    assert_eq!(t.id(), 5);
    assert_eq!(t.git_hash(), "abcdef");
    assert!(matches!(t.task_type(), TaskKind::ClangTidy));
}

#[test]
fn parse_rejects_malformed() {
    assert_eq!(Task::from_str("no suitable task found").err(), Some(ParseTaskError::Malformed));
    assert!(Task::from_str("Task id: x\nGit Hash: abc\nType: ClangTidy\n").is_err());
    assert!(Task::from_str("Task id: 1\nGit Hash: xyz\nType: ClangTidy\n").is_err());
    assert!(Task::from_str("Task id: 1\nGit Hash: abc\nType: Other\n").is_err());
    assert!(Task::from_str("Git Hash: abc\nTask id: 1\nType: ClangTidy\n").is_err());
    assert!(Task::from_str("Task id: 1\nGit Hash: abc\nType: Tests\nTest setup id: 1\nTest type: AllTests\nCompiler: GccFromDistro\n").is_err());
    assert!(Task::from_str("Task id: 1\nGit Hash: abc\nType: Tests\nTest setup id: 1\nTest type: AllTestExcept(\"  \")\nCompiler: GccFromDistro\nRun tests on qemu: true\nRun tests on real hardware: false\n").is_err());
    assert!(Task::from_str("Task id: 99999999999999999999\nGit Hash: abc\nType: ClangTidy\n").is_err());
}

#[test]
fn words_split_on_any_whitespace() {
    assert_eq!(words_of("  a\tb\n\nc "), strings(&["a", "b", "c"]));
    assert!(words_of("   ").is_empty());
}

#[test]
fn rollup_of_mixed_tasks() {
    let mut store = Store::new();
    let mut f = base_form();
    f.tests_to_run = TestsToRun::NotEvenCompile;
    f.run_static_analyser = true;
    f.run_clang_tidy = true;
    store.submit(&f, 1).unwrap();
    assert_eq!(rollup_of(&store.tasks, 1), JobStatus::Running);
    assert_eq!(rollup_of(&store.tasks, 2), JobStatus::Pending);
    update(&mut store, 1, ReturnStatus::Timeout, Some(124), "", 2).unwrap();
    update(&mut store, 2, ReturnStatus::Success, Some(0), "", 3).unwrap();
    assert_eq!(rollup_of(&store.tasks, 1), JobStatus::Failed);
}

#[test]
fn update_unknown_task() {
    let mut store = Store::new();
    assert_eq!(update(&mut store, 1, ReturnStatus::Running, None, "x", 1), Err(UpdateError::UnknownTask));
}

#[test]
fn update_appends_output_and_keeps_start() {
    let mut store = Store::new();
    let mut f = base_form();
    f.tests_to_run = TestsToRun::NotEvenCompile;
    f.run_clang_format = true;
    store.submit(&f, 1).unwrap();
    update(&mut store, 1, ReturnStatus::Running, None, "a", 2).unwrap();
    update(&mut store, 1, ReturnStatus::Running, None, "b", 3).unwrap();
    assert_eq!(store.tasks[0].output, "ab");
    assert_eq!(store.tasks[0].started_at, Some(2));
    assert_eq!(store.tasks[0].finished_at, None);
    assert_eq!(store.jobs[0].status, JobStatus::Running);
}

#[test]
fn register_errors() {
    let mut store = Store::new();
    store.submit(&base_form(), 1).unwrap();
    assert_eq!(register(&mut store, 5, "t1", "qemu"), Err(RegisterError::UnknownTask));
    assert_eq!(register(&mut store, 1, "t1", "qemu gpu"), Err(RegisterError::UnknownTarget));
    assert_eq!(register(&mut store, 1, "t1 t1", "qemu"), Err(RegisterError::DuplicateTestRun));
    assert!(store.runs.is_empty());
    register(&mut store, 1, "t1", "qemu real_hardware").unwrap();
    assert_eq!(store.runs.len(), 2);
    assert_eq!(store.runs[1].target, Target::RealHardware);
    assert_eq!(register(&mut store, 1, "t2 t1", "qemu"), Err(RegisterError::DuplicateTestRun));
    assert_eq!(store.runs.len(), 2);
}

#[test]
fn register_orders_by_target_then_test() {
    let mut store = Store::new();
    store.submit(&base_form(), 1).unwrap();
    register(&mut store, 1, "a b", "real_hardware qemu").unwrap();
    let got: Vec<(String, Target)> = store.runs.iter().map(|r| (r.test_name.clone(), r.target)).collect();
    assert_eq!(
        got,
        vec![
            (String::from("a"), Target::RealHardware),
            (String::from("b"), Target::RealHardware),
            (String::from("a"), Target::Qemu),
            (String::from("b"), Target::Qemu),
        ]
    );
    assert_eq!(store.runs[3].id, 4);
}

#[test]
fn report_errors() {
    let mut store = Store::new();
    store.submit(&base_form(), 1).unwrap();
    register(&mut store, 1, "t1", "qemu").unwrap();
    assert_eq!(
        report(&mut store, 1, "t1", Target::Qemu, Operation::Progress, None, None, 2),
        Err(ReportError::MissingOutput)
    );
    assert_eq!(
        report(&mut store, 1, "t1", Target::Qemu, Operation::Finish, None, None, 2),
        Err(ReportError::MissingStatus)
    );
    assert_eq!(
        report(&mut store, 1, "t1", Target::RealHardware, Operation::Start, None, None, 2),
        Err(ReportError::NoSuchTestRun)
    );
}

#[test]
fn finish_codes() {
    let mut store = Store::new();
    store.submit(&base_form(), 1).unwrap();
    register(&mut store, 1, "a b c d", "qemu").unwrap();
    let outcomes = [
        (TestRunFinish::Success, JobStatus::Success, Some(0)),
        (TestRunFinish::Failed, JobStatus::Failed, Some(1)),
        (TestRunFinish::Timeout, JobStatus::Timeout, Some(124)),
        (TestRunFinish::Skipped, JobStatus::Skipped, None),
    ];
    for (i, (f, st, code)) in outcomes.iter().enumerate() {
        let name = ["a", "b", "c", "d"][i];
        report(&mut store, 1, name, Target::Qemu, Operation::Finish, None, Some(*f), 2).unwrap();
        assert_eq!(store.runs[i].status, *st);
        assert_eq!(store.runs[i].ret_code, *code);
    }
}

#[test]
fn finish_status_from_exit_code() {
    assert_eq!(FinishStatus::from_i32(0), FinishStatus::Success);
    assert_eq!(FinishStatus::from_i32(124), FinishStatus::Timeout);
    assert_eq!(FinishStatus::from_i32(3), FinishStatus::Failed(3));
    assert_eq!(FinishStatus::Failed(7).as_str(), "Failed");
    assert_eq!(FinishStatus::Skipped.as_str(), "Skipped");
    assert_eq!(FinishStatus::Failed(7).ret_code(), 7);
    assert_eq!(FinishStatus::Timeout.ret_code(), 124);
    assert_eq!(FinishStatus::Skipped.ret_code(), 0);
}

#[test]
fn exit_counter() {
    assert!(!is_exit_requested(0));
    assert!(is_exit_requested(1));
    assert!(!is_immediate_exit_requested(1));
    assert!(is_immediate_exit_requested(2));
}

#[test]
fn channel_labels() {
    assert_eq!(prepend_channel(Message::Stdout(String::from("hi"))), "stdout: hi\n");
    assert_eq!(prepend_channel(Message::Stderr(String::from(""))), "stderr: \n");
}

#[test]
fn line_framer_keeps_partial_lines() {
    let mut f = LineFramer::new();
    let out = f.push_bytes(&b"ab\ncd".to_vec());
    assert_eq!(out, vec![b"ab".to_vec()]);
    let out = f.push_bytes(&b"e\n\nf".to_vec());
    assert_eq!(out, vec![b"cde".to_vec(), Vec::new()]);
    assert_eq!(f.finish(), Some(b"f".to_vec()));
    let f = LineFramer::new();
    assert_eq!(f.finish(), None);
}

#[test]
fn available_tests_from_listing() {
    let listing = "Test project /tmp/build\n  Test #1: alpha\n  Test  #2: beta\nTotal Tests: 2\n  Test\n";
    assert_eq!(get_available_tests(listing), strings(&["alpha", "beta"]));
}

#[test]
fn tests_to_execute_by_setup() {
    let available = strings(&["a", "b", "a", "c"]);
    assert_eq!(get_tests_to_execute(&RequestedTest::AllTest, &available), strings(&["a", "b", "c"]));
    assert_eq!(
        get_tests_to_execute(&RequestedTest::AllExcept(strings(&["b"])), &available),
        strings(&["a", "c"])
    );
    assert_eq!(
        get_tests_to_execute(&RequestedTest::OnlySpecifiedTests(strings(&["c", "c", "z"])), &available),
        strings(&["c", "z"])
    );
    assert!(get_tests_to_execute(&RequestedTest::NoTestsOnlyCompile, &available).is_empty());
}

#[test]
fn requested_tests_must_exist() {
    let available = strings(&["a", "b"]);
    assert_eq!(ensure_all_requested_tests_are_available(&available, &strings(&["a"])), Ok(()));
    assert_eq!(
        ensure_all_requested_tests_are_available(&available, &strings(&["x", "a", "y"])),
        Err(strings(&["x", "y"]))
    );
    assert_eq!(
        unknown_tests_message(&strings(&["x", "y"])),
        "Error: following tests requested but not found: [\nx\ny\n]"
    );
    assert_eq!(found_tests_message(&strings(&["a"])), "Found following tests: [\na\n]");
}

#[test]
fn targets_and_outcomes() {
    assert_eq!(targets_field(true, true), Some("qemu real_hardware"));
    assert_eq!(targets_field(false, true), Some("real_hardware"));
    assert_eq!(targets_field(false, false), None);
    assert_eq!(qemu_test_outcome(true, false, Some(0)), (FinishStatus::Timeout, true));
    assert_eq!(qemu_test_outcome(false, true, Some(0)), (FinishStatus::Failed(3), false));
    assert_eq!(qemu_test_outcome(false, false, Some(124)), (FinishStatus::Timeout, true));
    assert_eq!(qemu_test_outcome(false, false, Some(0)), (FinishStatus::Success, false));
    assert_eq!(qemu_test_outcome(false, false, Some(8)), (FinishStatus::Failed(8), true));
    assert_eq!(qemu_test_outcome(false, false, None), (FinishStatus::Failed(2), false));
    assert_eq!(tests_task_status(true), FinishStatus::Failed(2));
    assert_eq!(tests_task_status(false), FinishStatus::Success);
}

#[test]
fn timeout_notice_detection() {
    assert!(output_reports_timeout("stderr: /usr/bin/timeout: sending signal TERM to command 'x'\n"));
    assert!(!output_reports_timeout("stdout: all good\n"));
    assert!(!output_reports_timeout(""));
}

#[test]
fn cmake_arguments_per_compiler() {
    let v = cmake_args(Compiler::GccFromHardwareVendor, "/s", "/s/build", "/s/t.cmake", "/s/l.ld");
    assert_eq!(v, strings(&["-S", "/s", "-B", "/s/build", "-G", "Ninja", "--toolchain", "/s/t.cmake", "--fresh"]));
    let v = cmake_args(Compiler::GccFromDistro, "/s", "/s/build", "/s/t.cmake", "/s/l.ld");
    assert_eq!(v.len(), 10);
    assert_eq!(v[9], "-DCMAKE_EXE_LINKER_FLAGS_INIT='-T/s/l.ld'");
}

#[test]
fn worker_form_fields() {
    let w = AcceptJobForm {
        accept_static_analyser_task: true,
        accept_clang_tidy_task: false,
        accept_clang_format_task: false,
        accept_compile_with_gcc_from_hardware_vendor: false,
        accept_compile_with_gcc_from_distro: false,
        accept_run_tests_on_qemu: false,
        accept_run_tests_on_real_hardware: false,
        hostname: String::from("h"),
    };
    let mut store = Store::new();
    store.submit(&base_form(), 1).unwrap();
    assert!(store.claim(&w, 2).is_none());
}

#[test]
fn job_list_pages() {
    let mut store = Store::new();
    let mut f = base_form();
    f.tests_to_run = TestsToRun::NotEvenCompile;
    f.run_static_analyser = true;
    for t in 0..60u64 {
        store.submit(&f, t).unwrap();
    }
    let page = store.list_jobs_with_max_id(i64::MAX);
    assert_eq!(page.len(), 50);
    assert_eq!(page[0].id, 60);
    assert_eq!(page[49].id, 11);
    let page = store.list_jobs_with_max_id(10);
    assert_eq!(page.iter().map(|p| p.id).collect::<Vec<_>>(), (1..=10).rev().collect::<Vec<i64>>());
    let page = store.list_jobs_with_min_id(55);
    assert_eq!(page.iter().map(|p| p.id).collect::<Vec<_>>(), vec![60, 59, 58, 57, 56, 55]);
    let page = store.list_jobs_with_min_id(-3);
    assert_eq!(page.len(), 50);
    assert_eq!(page[0].id, 50);
    assert!(store.list_jobs_with_min_id(61).is_empty());
    assert!(store.list_jobs_with_max_id(0).is_empty());
    let p = store.job_properties(3).unwrap();
    assert_eq!(p.added_at, 2);
    assert_eq!(p.commit_id, "abc123");
    assert!(store.job_properties(61).is_none());
}

#[test]
fn restore_accepts_consistent_rows_only() {
    let mut store = Store::new();
    store.submit(&base_form(), 1).unwrap();
    register(&mut store, 1, "t1 t2", "qemu").unwrap();
    let Store { jobs, tasks, runs, setup_count, clock } = store;
    let mut store = Store::restore(jobs, tasks, runs, setup_count, clock).unwrap();
    assert_eq!(store.runs.len(), 2);
    store.runs[1].test_name = String::from("t1");
    let Store { jobs, tasks, runs, setup_count, clock } = store;
    assert!(Store::restore(jobs, tasks, runs, setup_count, clock).is_none());
}

#[test]
fn restore_rejects_unordered_ids() {
    let mut store = Store::new();
    store.submit(&base_form(), 1).unwrap();
    store.jobs[0].id = 5;
    assert!(!store.check_wf());
}

#[test]
fn poll_loop_backs_off_and_exits() {
    assert_eq!(poll_start(0), (PollState::Asking, PollAction::Ask));
    assert_eq!(poll_start(1).1, PollAction::Exit);
    let (s, a) = poll_step(PollState::Asking, PollEvent::TaskDone, 0);
    assert_eq!((s, a), (PollState::Asking, PollAction::Ask));
    let (mut s, mut a) = poll_step(s, PollEvent::NoTask, 0);
    assert_eq!(a, PollAction::Sleep { ms: 20 });
    let mut sleeps = 0;
    while let PollAction::Sleep { ms } = a {
        sleeps += 1;
        (s, a) = poll_step(s, PollEvent::Slept { ms }, 0);
    }
    assert_eq!(sleeps, 250);
    assert_eq!((s, a), (PollState::Asking, PollAction::Ask));
    let (s, a) = poll_step(PollState::Waiting { waited_ms: 40 }, PollEvent::Slept { ms: 20 }, 2);
    assert_eq!((s, a), (PollState::Waiting { waited_ms: 40 }, PollAction::Exit));
}
