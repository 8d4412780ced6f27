//! Which tests a tests task runs: the tests the harness lists, the requested
//! ones that are missing, and the final deduplicated list.
use vstd::prelude::*;
use vstd::string::StringExecFns;
use vstd::string::StrSliceExecFns;
use crate::model::Compiler;
use crate::protocol::{join_lines, line_ranges, lines, texts, RequestedTest, RequestedView};
use crate::text::{chars_of, has_prefix, pieces, slice_of, starts_with, word_ranges, words};
use crate::worker::FinishStatus;

verus! {

broadcast use vstd::string::group_string_axioms;

pub open spec fn contains_text(s: Seq<Seq<char>>, x: Seq<char>) -> bool {
    exists|i: int| 0 <= i < s.len() && s[i] == x
}

/// `s` with later repetitions of a name left out.
pub open spec fn dedup(s: Seq<Seq<char>>) -> Seq<Seq<char>>
    decreases s.len(),
{
    if s.len() == 0 {
        s
    } else if contains_text(s.drop_last(), s.last()) {
        dedup(s.drop_last())
    } else {
        dedup(s.drop_last()).push(s.last())
    }
}

/// The names of `s` that `excluded` does not hold, in order.
pub open spec fn without(s: Seq<Seq<char>>, excluded: Seq<Seq<char>>) -> Seq<Seq<char>>
    decreases s.len(),
{
    if s.len() == 0 {
        s
    } else if contains_text(excluded, s.last()) {
        without(s.drop_last(), excluded)
    } else {
        without(s.drop_last(), excluded).push(s.last())
    }
}

/// The tests a tests task runs, given the tests the harness lists.
pub open spec fn tests_to_execute(req: RequestedView, available: Seq<Seq<char>>) -> Seq<Seq<char>> {
    match req {
        RequestedView::AllTest => dedup(available),
        RequestedView::AllExcept(x) => dedup(without(available, x)),
        RequestedView::OnlySpecifiedTests(x) => dedup(x),
        RequestedView::NoTestsOnlyCompile => Seq::empty(),
    }
}

/// The names on the harness's listing lines (`  Test #n: name`).
pub open spec fn listed_tests(ls: Seq<Seq<char>>) -> Seq<Seq<char>>
    decreases ls.len(),
{
    if ls.len() == 0 {
        Seq::empty()
    } else {
        let l = ls.last();
        let rest = listed_tests(ls.drop_last());
        if has_prefix(l, "  Test "@) && words(l).len() >= 3 {
            rest.push(words(l)[2])
        } else {
            rest
        }
    }
}

fn contains_string(v: &Vec<String>, x: &String) -> (r: bool)
    ensures
        r == contains_text(texts(v@), x@),
{
    let mut i: usize = 0;
    while i < v.len()
        invariant
            i <= v@.len(),
            forall|j: int| 0 <= j < i ==> texts(v@)[j] != x@,
        decreases v@.len() - i,
    {
        if v[i] == *x {
            assert(texts(v@)[i as int] == x@);
            return true;
        }
        i = i + 1;
    }
    false
}

fn push_text(v: &mut Vec<String>, s: String)
    ensures
        texts(final(v)@) == texts(old(v)@).push(s@),
{
    v.push(s);
    assert(texts(final(v)@) =~= texts(old(v)@).push(s@));
}

fn without_strings(v: &Vec<String>, excluded: &Vec<String>) -> (r: Vec<String>)
    ensures
        texts(r@) == without(texts(v@), texts(excluded@)),
{
    let mut r: Vec<String> = Vec::new();
    let mut i: usize = 0;
    assert(texts(v@).take(0) =~= Seq::<Seq<char>>::empty());
    while i < v.len()
        invariant
            i <= v@.len(),
            texts(r@) == without(texts(v@).take(i as int), texts(excluded@)),
        decreases v@.len() - i,
    {
        assert(texts(v@).take(i as int + 1).drop_last() =~= texts(v@).take(i as int));
        if !contains_string(excluded, &v[i]) {
            push_text(&mut r, v[i].clone());
        }
        i = i + 1;
    }
    assert(texts(v@).take(i as int) =~= texts(v@));
    r
}

fn dedup_strings(v: &Vec<String>) -> (r: Vec<String>)
    ensures
        texts(r@) == dedup(texts(v@)),
{
    let mut r: Vec<String> = Vec::new();
    let mut i: usize = 0;
    assert(texts(v@).take(0) =~= Seq::<Seq<char>>::empty());
    while i < v.len()
        invariant
            i <= v@.len(),
            texts(r@) == dedup(texts(v@).take(i as int)),
        decreases v@.len() - i,
    {
        let ghost pre = texts(v@).take(i as int);
        assert(texts(v@).take(i as int + 1).drop_last() =~= pre);
        let mut seen = false;
        let mut k: usize = 0;
        while k < i
            invariant
                k <= i < v@.len(),
                pre == texts(v@).take(i as int),
                seen <==> exists|j: int| 0 <= j < k && pre[j] == v@[i as int]@,
            decreases i - k,
        {
            if v[k] == v[i] {
                assert(pre[k as int] == v@[i as int]@);
                seen = true;
            }
            k = k + 1;
        }
        assert(seen == contains_text(pre, v@[i as int]@));
        if !seen {
            push_text(&mut r, v[i].clone());
        }
        i = i + 1;
    }
    assert(texts(v@).take(i as int) =~= texts(v@));
    r
}

/// The deduplicated list of tests to run: all listed tests, the listed ones
/// not excluded, or the requested ones. A compile-only setup runs none.
pub fn get_tests_to_execute(requested: &RequestedTest, available: &Vec<String>) -> (r: Vec<String>)
    ensures
        texts(r@) == tests_to_execute(requested@, texts(available@)),
{
    match requested {
        RequestedTest::AllTest => dedup_strings(available),
        RequestedTest::AllExcept(x) => {
            let kept = without_strings(available, x);
            dedup_strings(&kept)
        },
        RequestedTest::OnlySpecifiedTests(x) => dedup_strings(x),
        RequestedTest::NoTestsOnlyCompile => {
            let r: Vec<String> = Vec::new();
            assert(texts(r@) =~= Seq::<Seq<char>>::empty());
            r
        },
    }
}

/// Checks that every requested test is listed; otherwise returns the
/// requested tests that are not, in order.
pub fn ensure_all_requested_tests_are_available(available: &Vec<String>, requested: &Vec<String>) -> (r:
    Result<(), Vec<String>>)
    ensures
        r is Ok <==> without(texts(requested@), texts(available@)).len() == 0,
        r is Err ==> texts(r->Err_0@) == without(texts(requested@), texts(available@)),
{
    let unknown = without_strings(requested, available);
    if unknown.len() == 0 {
        Ok(())
    } else {
        Err(unknown)
    }
}

/// The tests that the harness's listing names: the third word of each line
/// that starts with `  Test `.
pub fn get_available_tests(listing: &str) -> (r: Vec<String>)
    ensures
        texts(r@) == listed_tests(lines(listing@)),
{
    let cs = chars_of(listing);
    let rs = line_ranges(&cs);
    let mut r: Vec<String> = Vec::new();
    let mut i: usize = 0;
    assert(pieces(cs@, rs@).take(0) =~= Seq::<Seq<char>>::empty());
    while i < rs.len()
        invariant
            cs@ == listing@,
            i <= rs@.len(),
            pieces(cs@, rs@) == lines(cs@),
            crate::text::ranges_within(rs@, 0, cs@.len() as int),
            texts(r@) == listed_tests(pieces(cs@, rs@).take(i as int)),
        decreases rs@.len() - i,
    {
        let (a, b) = rs[i];
        let ghost l = slice_of(cs@, a as int, b as int);
        assert(pieces(cs@, rs@).take(i as int + 1).drop_last() =~= pieces(cs@, rs@).take(i as int));
        assert(pieces(cs@, rs@).take(i as int + 1).last() == l);
        if starts_with(&cs, a, b, "  Test ") {
            let ws = word_ranges(&cs, a, b);
            if ws.len() >= 3 {
                let (x, y) = ws[2];
                assert(words(l)[2] == slice_of(cs@, x as int, y as int));
                push_text(&mut r, listing.substring_char(x, y).to_owned());
            }
        }
        i = i + 1;
    }
    assert(pieces(cs@, rs@).take(i as int) =~= lines(listing@));
    r
}

fn push_lines(out: &mut String, names: &Vec<String>)
    ensures
        final(out)@ == old(out)@ + join_lines(texts(names@)),
{
    let ghost start = out@;
    let mut i: usize = 0;
    assert(texts(names@).take(0) =~= Seq::<Seq<char>>::empty());
    assert(out@ =~= start + join_lines(texts(names@).take(0)));
    while i < names.len()
        invariant
            i <= names@.len(),
            out@ == start + join_lines(texts(names@).take(i as int)),
        decreases names@.len() - i,
    {
        let ghost ts = texts(names@).take(i as int + 1);
        assert(ts.drop_last() =~= texts(names@).take(i as int));
        assert(ts.last() == names@[i as int]@);
        if i > 0 {
            proof {
                reveal_strlit("\n");
            }
            out.append("\n");
        }
        out.append(names[i].as_str());
        i = i + 1;
        assert(out@ =~= start + join_lines(texts(names@).take(i as int)));
    }
    assert(texts(names@).take(i as int) =~= texts(names@));
}

/// The report that lists the tests found, one per line.
pub fn found_tests_message(names: &Vec<String>) -> (r: String)
    ensures
        r@ == "Found following tests: [\n"@ + join_lines(texts(names@)) + "\n]"@,
{
    let mut out = String::new();
    out.append("Found following tests: [\n");
    push_lines(&mut out, names);
    out.append("\n]");
    assert(out@ =~= "Found following tests: [\n"@ + join_lines(texts(names@)) + "\n]"@);
    out
}

/// The report that lists requested tests that the harness does not know.
pub fn unknown_tests_message(names: &Vec<String>) -> (r: String)
    ensures
        r@ == "Error: following tests requested but not found: [\n"@ + join_lines(texts(names@))
            + "\n]"@,
{
    let mut out = String::new();
    out.append("Error: following tests requested but not found: [\n");
    push_lines(&mut out, names);
    out.append("\n]");
    assert(out@ =~= "Error: following tests requested but not found: [\n"@ + join_lines(
        texts(names@),
    ) + "\n]"@);
    out
}

/// The targets field of a test-list registration; `None` when the setup
/// runs on no target.
pub fn targets_field(on_qemu: bool, on_real_hardware: bool) -> (r: Option<&'static str>)
    ensures
        on_qemu && on_real_hardware ==> r is Some && r->0@ == "qemu real_hardware"@,
        on_qemu && !on_real_hardware ==> r is Some && r->0@ == "qemu"@,
        !on_qemu && on_real_hardware ==> r is Some && r->0@ == "real_hardware"@,
        !on_qemu && !on_real_hardware ==> r is None,
{
    if on_qemu && on_real_hardware {
        Some("qemu real_hardware")
    } else if on_qemu {
        Some("qemu")
    } else if on_real_hardware {
        Some("real_hardware")
    } else {
        None
    }
}

/// The outcome of one emulator test run, and whether it counts as an error of
/// the task: a timeout (seen in the output or as exit code 124) is one; a run
/// cut short by an immediate shutdown fails with 3; a run without exit code
/// (ended by a signal) fails with 2; any other non-zero code fails with it.
pub fn qemu_test_outcome(timed_out: bool, immediate_exit: bool, exit_code: Option<i32>) -> (r: (
    FinishStatus,
    bool,
))
    ensures
        timed_out ==> r == (FinishStatus::Timeout, true),
        !timed_out && immediate_exit ==> r == (FinishStatus::Failed(3), false),
        !timed_out && !immediate_exit ==> match exit_code {
            None => r == (FinishStatus::Failed(2), false),
            Some(c) => if c == 124 {
                r == (FinishStatus::Timeout, true)
            } else if c == 0 {
                r == (FinishStatus::Success, false)
            } else {
                r == (FinishStatus::Failed(c as i64), true)
            },
        },
{
    if timed_out {
        (FinishStatus::Timeout, true)
    } else if immediate_exit {
        (FinishStatus::Failed(3), false)
    } else {
        match exit_code {
            None => (FinishStatus::Failed(2), false),
            Some(124) => (FinishStatus::Timeout, true),
            Some(0) => (FinishStatus::Success, false),
            Some(n) => (FinishStatus::Failed(n as i64), true),
        }
    }
}

/// A tests task fails with 2 when any of its tests was an error.
pub fn tests_task_status(has_error: bool) -> (r: FinishStatus)
    ensures
        r == if has_error {
            FinishStatus::Failed(2)
        } else {
            FinishStatus::Success
        },
{
    if has_error {
        FinishStatus::Failed(2)
    } else {
        FinishStatus::Success
    }
}

/// The line that the timeout wrapper prints when it stops a test.
pub const TIMEOUT_NOTICE: &'static str = "/usr/bin/timeout: sending signal TERM to command";

pub open spec fn occurs_in(p: Seq<char>, s: Seq<char>) -> bool {
    exists|i: int| 0 <= i && i + p.len() <= s.len() && #[trigger] s.subrange(i, i + p.len()) == p
}

/// Whether a chunk of test output holds the timeout wrapper's notice.
pub fn output_reports_timeout(chunk: &str) -> (r: bool)
    ensures
        r == occurs_in(TIMEOUT_NOTICE@, chunk@),
{
    let cs = chars_of(chunk);
    let m = TIMEOUT_NOTICE.unicode_len();
    let n = cs.len();
    if m > n {
        return false;
    }
    if m == 0 {
        assert(chunk@.subrange(0, 0 + TIMEOUT_NOTICE@.len() as int) =~= TIMEOUT_NOTICE@);
        return true;
    }
    let mut i: usize = 0;
    while i <= n - m
        invariant
            cs@ == chunk@,
            n == cs@.len(),
            m == TIMEOUT_NOTICE@.len(),
            0 < m <= n,
            forall|j: int| 0 <= j < i ==> #[trigger] chunk@.subrange(j, j + m) != TIMEOUT_NOTICE@,
        decreases n - m + 1 - i,
    {
        if starts_with(&cs, i, n, TIMEOUT_NOTICE) {
            assert(slice_of(cs@, i as int, n as int).take(m as int) =~= chunk@.subrange(
                i as int,
                i + m,
            ));
            return true;
        }
        assert(slice_of(cs@, i as int, n as int).take(m as int) =~= chunk@.subrange(
            i as int,
            i + m,
        ));
        i = i + 1;
    }
    false
}

pub open spec fn linker_flag(linker_script: Seq<char>) -> Seq<char> {
    "-DCMAKE_EXE_LINKER_FLAGS_INIT='-T"@ + linker_script + "'"@
}

/// The arguments that generate the build: source and build directories, the
/// Ninja generator, the toolchain file, a fresh configuration, and for the
/// distro toolchain the linker script as well.
pub open spec fn cmake_arg_texts(
    compiler: Compiler,
    src_dir: Seq<char>,
    build_dir: Seq<char>,
    toolchain: Seq<char>,
    linker_script: Seq<char>,
) -> Seq<Seq<char>> {
    let base = seq![
        "-S"@,
        src_dir,
        "-B"@,
        build_dir,
        "-G"@,
        "Ninja"@,
        "--toolchain"@,
        toolchain,
        "--fresh"@,
    ];
    match compiler {
        Compiler::GccFromHardwareVendor => base,
        Compiler::GccFromDistro => base.push(linker_flag(linker_script)),
    }
}

fn owned(s: &str) -> (r: String)
    ensures
        r@ == s@,
{
    s.to_owned()
}

pub fn cmake_args(
    compiler: Compiler,
    src_dir: &str,
    build_dir: &str,
    toolchain: &str,
    linker_script: &str,
) -> (r: Vec<String>)
    ensures
        texts(r@) == cmake_arg_texts(compiler, src_dir@, build_dir@, toolchain@, linker_script@),
{
    let mut v: Vec<String> = Vec::new();
    push_text(&mut v, owned("-S"));
    push_text(&mut v, owned(src_dir));
    push_text(&mut v, owned("-B"));
    push_text(&mut v, owned(build_dir));
    push_text(&mut v, owned("-G"));
    push_text(&mut v, owned("Ninja"));
    push_text(&mut v, owned("--toolchain"));
    push_text(&mut v, owned(toolchain));
    push_text(&mut v, owned("--fresh"));
    if compiler == Compiler::GccFromDistro {
        let mut flag = owned("-DCMAKE_EXE_LINKER_FLAGS_INIT='-T");
        flag.append(linker_script);
        flag.append("'");
        push_text(&mut v, flag);
    }
    assert(texts(v@) =~= cmake_arg_texts(compiler, src_dir@, build_dir@, toolchain@, linker_script@));
    v
}

} // verus!
