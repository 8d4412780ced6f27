//! Validation of a job submission and its decomposition into tasks.
use vstd::prelude::*;
use crate::model::{is_valid_git_hash, valid_git_hash, Compiler, TaskType, TestsToRun};

verus! {

/// A job request: the commit, the analyses, the tests, the compilers and the
/// targets that are asked for.
#[derive(Debug)]
pub struct PostJobForm {
    pub commit_to_use: String,
    pub tests_to_run: TestsToRun,
    pub explicitly_disabled_tests: String,
    pub explicitly_enabled_tests: String,
    pub compile_with_gcc_from_hardware_vendor: bool,
    pub compile_with_gcc_from_distro: bool,
    pub run_tests_on_qemu: bool,
    pub run_tests_on_real_hardware: bool,
    pub run_static_analyser: bool,
    pub run_clang_tidy: bool,
    pub run_clang_format: bool,
    pub email_to_notify_on_completion: String,
}

/// Why a submission is refused; nothing is stored then.
#[derive(Debug, Clone, Copy, PartialEq, Eq, Structural)]
pub enum SubmitError {
    EmptyRequest,
    InvalidCommit,
    NoCompilerChosen,
    NoTargetChosen,
    EmptyTestList,
}

/// The first rule that `f` breaks, in the order the rules are checked.
pub open spec fn submission_error(f: PostJobForm) -> Option<SubmitError> {
    if !f.run_static_analyser && !f.run_clang_tidy && !f.run_clang_format
        && f.tests_to_run is NotEvenCompile {
        Some(SubmitError::EmptyRequest)
    } else if !valid_git_hash(f.commit_to_use@) {
        Some(SubmitError::InvalidCommit)
    } else if f.tests_to_run is NotEvenCompile {
        None
    } else if !f.compile_with_gcc_from_hardware_vendor && !f.compile_with_gcc_from_distro {
        Some(SubmitError::NoCompilerChosen)
    } else if f.tests_to_run.needs_target() && !f.run_tests_on_qemu
        && !f.run_tests_on_real_hardware {
        Some(SubmitError::NoTargetChosen)
    } else if (f.tests_to_run is AllTestsExcept && f.explicitly_disabled_tests@.len() == 0)
        || (f.tests_to_run is OnlySpecifiedTests && f.explicitly_enabled_tests@.len() == 0) {
        Some(SubmitError::EmptyTestList)
    } else {
        None
    }
}

/// Checks a submission against the rules, in order.
pub fn validate_submission(form: &PostJobForm) -> (r: Result<(), SubmitError>)
    ensures
        r is Ok <==> submission_error(*form) is None,
        r is Err ==> submission_error(*form) == Some(r->Err_0),
{
    if !form.run_static_analyser && !form.run_clang_tidy && !form.run_clang_format
        && form.tests_to_run == TestsToRun::NotEvenCompile {
        return Err(SubmitError::EmptyRequest);
    }
    if !is_valid_git_hash(form.commit_to_use.as_str()) {
        return Err(SubmitError::InvalidCommit);
    }
    if form.tests_to_run == TestsToRun::NotEvenCompile {
        return Ok(());
    }
    if !form.compile_with_gcc_from_hardware_vendor && !form.compile_with_gcc_from_distro {
        return Err(SubmitError::NoCompilerChosen);
    }
    if form.tests_to_run.requires_target() && !form.run_tests_on_qemu
        && !form.run_tests_on_real_hardware {
        return Err(SubmitError::NoTargetChosen);
    }
    let no_disabled = form.explicitly_disabled_tests.as_str().is_empty();
    let no_enabled = form.explicitly_enabled_tests.as_str().is_empty();
    if (form.tests_to_run == TestsToRun::AllTestsExcept && no_disabled) || (form.tests_to_run
        == TestsToRun::OnlySpecifiedTests && no_enabled) {
        return Err(SubmitError::EmptyTestList);
    }
    Ok(())
}

/// The parameters of a tests task as they are stored.
#[derive(Debug)]
pub struct PlannedSetup {
    pub compiler: Compiler,
    pub required_tests: TestsToRun,
    pub mentioned_tests: Option<String>,
    pub run_tests_on_qemu: Option<bool>,
    pub run_tests_on_real_hardware: Option<bool>,
}

pub ghost struct SetupView {
    pub compiler: Compiler,
    pub required_tests: TestsToRun,
    pub mentioned_tests: Option<Seq<char>>,
    pub run_tests_on_qemu: Option<bool>,
    pub run_tests_on_real_hardware: Option<bool>,
}

pub open spec fn opt_text(o: Option<String>) -> Option<Seq<char>> {
    match o {
        Some(s) => Some(s@),
        None => None,
    }
}

impl View for PlannedSetup {
    type V = SetupView;

    open spec fn view(&self) -> SetupView {
        SetupView {
            compiler: self.compiler,
            required_tests: self.required_tests,
            mentioned_tests: opt_text(self.mentioned_tests),
            run_tests_on_qemu: self.run_tests_on_qemu,
            run_tests_on_real_hardware: self.run_tests_on_real_hardware,
        }
    }
}

/// One task that a submission yields, with its setup when it is a tests task.
#[derive(Debug)]
pub struct PlannedTask {
    pub task_type: TaskType,
    pub setup: Option<PlannedSetup>,
}

pub ghost struct PlanView {
    pub task_type: TaskType,
    pub setup: Option<SetupView>,
}

impl View for PlannedTask {
    type V = PlanView;

    open spec fn view(&self) -> PlanView {
        PlanView {
            task_type: self.task_type,
            setup: match self.setup {
                Some(s) => Some(s@),
                None => None,
            },
        }
    }
}

pub open spec fn plan_views(v: Seq<PlannedTask>) -> Seq<PlanView> {
    v.map_values(|p: PlannedTask| p@)
}

pub open spec fn analysis(t: TaskType) -> PlanView {
    PlanView { task_type: t, setup: None }
}

pub open spec fn analyses(f: PostJobForm) -> Seq<PlanView> {
    (if f.run_static_analyser { seq![analysis(TaskType::StaticAnalyser)] } else { seq![] }) + (
    if f.run_clang_format { seq![analysis(TaskType::ClangFormat)] } else { seq![] }) + (
    if f.run_clang_tidy { seq![analysis(TaskType::ClangTidy)] } else { seq![] })
}

/// The setup that carries what the user asked for, on compiler `c`.
pub open spec fn full_setup(f: PostJobForm, c: Compiler) -> SetupView {
    let t = f.tests_to_run;
    SetupView {
        compiler: c,
        required_tests: t,
        mentioned_tests: if t is AllTestsExcept {
            Some(f.explicitly_disabled_tests@)
        } else if t is OnlySpecifiedTests {
            Some(f.explicitly_enabled_tests@)
        } else {
            None
        },
        run_tests_on_qemu: if t is NoTestsOnlyCompile {
            None
        } else {
            Some(f.run_tests_on_qemu)
        },
        run_tests_on_real_hardware: if t is NoTestsOnlyCompile {
            None
        } else {
            Some(f.run_tests_on_real_hardware)
        },
    }
}

/// The compile-only setup of the hardware-vendor toolchain beside a distro one.
pub open spec fn compile_only_setup() -> SetupView {
    SetupView {
        compiler: Compiler::GccFromHardwareVendor,
        required_tests: TestsToRun::NoTestsOnlyCompile,
        mentioned_tests: None,
        run_tests_on_qemu: None,
        run_tests_on_real_hardware: None,
    }
}

pub open spec fn tests_task(s: SetupView) -> PlanView {
    PlanView { task_type: TaskType::Tests, setup: Some(s) }
}

pub open spec fn test_tasks(f: PostJobForm) -> Seq<PlanView> {
    if f.tests_to_run is NotEvenCompile {
        seq![]
    } else if f.compile_with_gcc_from_distro {
        if f.compile_with_gcc_from_hardware_vendor {
            seq![
                tests_task(full_setup(f, Compiler::GccFromDistro)),
                tests_task(compile_only_setup()),
            ]
        } else {
            seq![tests_task(full_setup(f, Compiler::GccFromDistro))]
        }
    } else {
        seq![tests_task(full_setup(f, Compiler::GccFromHardwareVendor))]
    }
}

/// The tasks of an accepted submission, in the order they are stored.
pub open spec fn decomposition(f: PostJobForm) -> Seq<PlanView> {
    analyses(f) + test_tasks(f)
}

fn setup_for(form: &PostJobForm, c: Compiler) -> (r: PlannedSetup)
    ensures
        r@ == full_setup(*form, c),
{
    let t = form.tests_to_run;
    let mentioned_tests = match t {
        TestsToRun::AllTestsExcept => Some(form.explicitly_disabled_tests.clone()),
        TestsToRun::OnlySpecifiedTests => Some(form.explicitly_enabled_tests.clone()),
        _ => None,
    };
    let compile_only = t == TestsToRun::NoTestsOnlyCompile;
    PlannedSetup {
        compiler: c,
        required_tests: t,
        mentioned_tests,
        run_tests_on_qemu: if compile_only {
            None
        } else {
            Some(form.run_tests_on_qemu)
        },
        run_tests_on_real_hardware: if compile_only {
            None
        } else {
            Some(form.run_tests_on_real_hardware)
        },
    }
}

/// The tasks that a submission yields: one per selected analysis, then the
/// tests tasks. With both compilers the distro one carries the requested tests
/// and the hardware-vendor one only compiles.
pub fn decompose(form: &PostJobForm) -> (r: Vec<PlannedTask>)
    ensures
        plan_views(r@) == decomposition(*form),
{
    let mut r: Vec<PlannedTask> = Vec::new();
    if form.run_static_analyser {
        r.push(PlannedTask { task_type: TaskType::StaticAnalyser, setup: None });
    }
    if form.run_clang_format {
        r.push(PlannedTask { task_type: TaskType::ClangFormat, setup: None });
    }
    if form.run_clang_tidy {
        r.push(PlannedTask { task_type: TaskType::ClangTidy, setup: None });
    }
    assert(plan_views(r@) =~= analyses(*form));
    let ghost mid = r@;
    if form.tests_to_run != TestsToRun::NotEvenCompile {
        if form.compile_with_gcc_from_distro {
            r.push(
                PlannedTask {
                    task_type: TaskType::Tests,
                    setup: Some(setup_for(form, Compiler::GccFromDistro)),
                },
            );
            if form.compile_with_gcc_from_hardware_vendor {
                r.push(
                    PlannedTask {
                        task_type: TaskType::Tests,
                        setup: Some(
                            PlannedSetup {
                                compiler: Compiler::GccFromHardwareVendor,
                                required_tests: TestsToRun::NoTestsOnlyCompile,
                                mentioned_tests: None,
                                run_tests_on_qemu: None,
                                run_tests_on_real_hardware: None,
                            },
                        ),
                    },
                );
            }
        } else {
            r.push(
                PlannedTask {
                    task_type: TaskType::Tests,
                    setup: Some(setup_for(form, Compiler::GccFromHardwareVendor)),
                },
            );
        }
    }
    assert(plan_views(r@) =~= analyses(*form) + test_tasks(*form));
    r
}

/// Decomposition depends on the submission alone: two submissions that hold
/// the same values yield the same tasks.
pub proof fn lemma_decomposition_deterministic(a: PostJobForm, b: PostJobForm)
    requires
        a.commit_to_use@ == b.commit_to_use@,
        a.tests_to_run == b.tests_to_run,
        a.explicitly_disabled_tests@ == b.explicitly_disabled_tests@,
        a.explicitly_enabled_tests@ == b.explicitly_enabled_tests@,
        a.compile_with_gcc_from_hardware_vendor == b.compile_with_gcc_from_hardware_vendor,
        a.compile_with_gcc_from_distro == b.compile_with_gcc_from_distro,
        a.run_tests_on_qemu == b.run_tests_on_qemu,
        a.run_tests_on_real_hardware == b.run_tests_on_real_hardware,
        a.run_static_analyser == b.run_static_analyser,
        a.run_clang_tidy == b.run_clang_tidy,
        a.run_clang_format == b.run_clang_format,
    ensures
        decomposition(a) == decomposition(b),
        submission_error(a) == submission_error(b),
{
}

/// A tests task has exactly one setup and any other task none, in every
/// decomposition.
pub proof fn lemma_setup_iff_tests(f: PostJobForm)
    ensures
        forall|i: int|
            0 <= i < decomposition(f).len() ==> ((#[trigger] decomposition(f)[i]).setup is Some
                <==> decomposition(f)[i].task_type is Tests),
{
}

/// An accepted submission yields at least one task.
pub proof fn lemma_accepted_nonempty(f: PostJobForm)
    requires
        submission_error(f) is None,
    ensures
        decomposition(f).len() >= 1,
{
}

/// Asking for all tests except some, with an empty list of exceptions, is
/// refused for that reason once the commit, a compiler and a target are given.
pub proof fn lemma_all_except_needs_a_list(f: PostJobForm)
    requires
        f.tests_to_run is AllTestsExcept,
        f.explicitly_disabled_tests@.len() == 0,
        valid_git_hash(f.commit_to_use@),
        f.compile_with_gcc_from_hardware_vendor || f.compile_with_gcc_from_distro,
        f.run_tests_on_qemu || f.run_tests_on_real_hardware,
    ensures
        submission_error(f) == Some(SubmitError::EmptyTestList),
{
}

} // verus!
