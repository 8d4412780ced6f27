use vstd::prelude::*;
use crate::text::{chars_of, all_hex, is_hex};

verus! {

/// Status of a job, a task or a test run, with its stable integer encoding.
#[derive(Debug, Clone, Copy, PartialEq, Eq, Structural)]
pub enum JobStatus {
    Pending,
    Running,
    Success,
    Failed,
    Timeout,
    Skipped,
}

pub open spec fn status_code(s: JobStatus) -> int {
    match s {
        JobStatus::Pending => 1,
        JobStatus::Running => 2,
        JobStatus::Success => 3,
        JobStatus::Failed => 4,
        JobStatus::Timeout => 5,
        JobStatus::Skipped => 6,
    }
}

impl JobStatus {
    /// Decodes a stored status; only the six known codes are accepted.
    pub fn from_i64(value: i64) -> (r: JobStatus)
        requires
            1 <= value <= 6,
        ensures
            status_code(r) == value,
    {
        match value {
            1 => JobStatus::Pending,
            2 => JobStatus::Running,
            3 => JobStatus::Success,
            4 => JobStatus::Failed,
            5 => JobStatus::Timeout,
            _ => JobStatus::Skipped,
        }
    }

    pub fn to_i64(&self) -> (r: i64)
        ensures
            r == status_code(*self),
    {
        match self {
            JobStatus::Pending => 1,
            JobStatus::Running => 2,
            JobStatus::Success => 3,
            JobStatus::Failed => 4,
            JobStatus::Timeout => 5,
            JobStatus::Skipped => 6,
        }
    }

    pub open spec fn is_terminal(self) -> bool {
        self is Success || self is Failed || self is Timeout || self is Skipped
    }
}

/// Kind of a task.
#[derive(Debug, Clone, Copy, PartialEq, Eq, Structural)]
pub enum TaskType {
    StaticAnalyser,
    ClangFormat,
    ClangTidy,
    Tests,
}

pub open spec fn task_type_code(t: TaskType) -> int {
    match t {
        TaskType::StaticAnalyser => 1,
        TaskType::ClangFormat => 2,
        TaskType::ClangTidy => 3,
        TaskType::Tests => 4,
    }
}

impl TaskType {
    pub fn from_i64(val: i64) -> (r: TaskType)
        requires
            1 <= val <= 4,
        ensures
            task_type_code(r) == val,
    {
        match val {
            1 => TaskType::StaticAnalyser,
            2 => TaskType::ClangFormat,
            3 => TaskType::ClangTidy,
            _ => TaskType::Tests,
        }
    }

    pub fn to_i64(&self) -> (r: i64)
        ensures
            r == task_type_code(*self),
    {
        match self {
            TaskType::StaticAnalyser => 1,
            TaskType::ClangFormat => 2,
            TaskType::ClangTidy => 3,
            TaskType::Tests => 4,
        }
    }
}

/// Toolchain a tests task compiles with.
#[derive(Debug, Clone, Copy, PartialEq, Eq, Structural)]
pub enum Compiler {
    GccFromHardwareVendor,
    GccFromDistro,
}

pub open spec fn compiler_code(c: Compiler) -> int {
    match c {
        Compiler::GccFromHardwareVendor => 1,
        Compiler::GccFromDistro => 2,
    }
}

impl Compiler {
    pub fn from_i64(val: i64) -> (r: Compiler)
        requires
            1 <= val <= 2,
        ensures
            compiler_code(r) == val,
    {
        if val == 1 {
            Compiler::GccFromHardwareVendor
        } else {
            Compiler::GccFromDistro
        }
    }

    pub fn to_i64(&self) -> (r: i64)
        ensures
            r == compiler_code(*self),
    {
        match self {
            Compiler::GccFromHardwareVendor => 1,
            Compiler::GccFromDistro => 2,
        }
    }
}

/// Which tests a submission asks for.
#[derive(Debug, Clone, Copy, PartialEq, Eq, Structural)]
pub enum TestsToRun {
    AllTests,
    NoTestsOnlyCompile,
    NotEvenCompile,
    AllTestsExcept,
    OnlySpecifiedTests,
}

pub open spec fn tests_to_run_code(t: TestsToRun) -> int {
    match t {
        TestsToRun::AllTests => 1,
        TestsToRun::NoTestsOnlyCompile => 2,
        TestsToRun::NotEvenCompile => 3,
        TestsToRun::AllTestsExcept => 4,
        TestsToRun::OnlySpecifiedTests => 5,
    }
}

impl TestsToRun {
    pub fn from_i64(val: i64) -> (r: TestsToRun)
        requires
            1 <= val <= 5,
        ensures
            tests_to_run_code(r) == val,
    {
        match val {
            1 => TestsToRun::AllTests,
            2 => TestsToRun::NoTestsOnlyCompile,
            3 => TestsToRun::NotEvenCompile,
            4 => TestsToRun::AllTestsExcept,
            _ => TestsToRun::OnlySpecifiedTests,
        }
    }

    pub fn to_i64(&self) -> (r: i64)
        ensures
            r == tests_to_run_code(*self),
    {
        match self {
            TestsToRun::AllTests => 1,
            TestsToRun::NoTestsOnlyCompile => 2,
            TestsToRun::NotEvenCompile => 3,
            TestsToRun::AllTestsExcept => 4,
            TestsToRun::OnlySpecifiedTests => 5,
        }
    }

    /// The tags whose tests run on some target.
    pub open spec fn needs_target(self) -> bool {
        self is AllTests || self is AllTestsExcept || self is OnlySpecifiedTests
    }

    pub fn requires_target(&self) -> (r: bool)
        ensures
            r == self.needs_target(),
    {
        match self {
            TestsToRun::AllTests | TestsToRun::AllTestsExcept | TestsToRun::OnlySpecifiedTests => true,
            _ => false,
        }
    }
}

/// Where a test runs.
#[derive(Debug, Clone, Copy, PartialEq, Eq, Structural)]
pub enum Target {
    Qemu,
    RealHardware,
}

pub open spec fn target_code(t: Target) -> int {
    match t {
        Target::Qemu => 1,
        Target::RealHardware => 2,
    }
}

impl Target {
    pub fn to_i64(&self) -> (r: i64)
        ensures
            r == target_code(*self),
    {
        match self {
            Target::Qemu => 1,
            Target::RealHardware => 2,
        }
    }
}

/// A commit hash: 3 to 64 hex digits.
pub open spec fn valid_git_hash(s: Seq<char>) -> bool {
    3 <= s.len() <= 64 && forall|i: int| 0 <= i < s.len() ==> is_hex(#[trigger] s[i])
}

pub fn is_valid_git_hash(hash: &str) -> (r: bool)
    ensures
        r == valid_git_hash(hash@),
{
    let cs = chars_of(hash);
    let n = cs.len();
    if n < 3 || n > 64 {
        return false;
    }
    let r = all_hex(&cs, 0, n);
    r
}

} // verus!
