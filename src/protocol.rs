//! The claim response: the text the coordinator sends for a claimed task, and
//! the worker's reading of it.
use vstd::prelude::*;
use vstd::string::StringExecFns;
use vstd::string::StrSliceExecFns;
use crate::model::{valid_git_hash, Compiler};
use crate::text::{
    lemma_i64_text, lemma_join_chars, lemma_split_concat, lemma_split_single, lemma_trim_spaced,
    lemma_words_join,
    chars_of, ends_with, equals, has_prefix, has_suffix, i64_text, is_word, join_spaced, parse_i64,
    parse_i64_range, pieces, push_i64, ranges_within, slice_of, split_on, split_ranges, starts_with,
    trim, trim_range, word_ranges, words, all_hex, is_ws,
};

verus! {

broadcast use vstd::string::group_string_axioms;

/// The tests a tests task runs, as the worker sees them.
#[derive(Debug)]
pub enum RequestedTest {
    AllTest,
    NoTestsOnlyCompile,
    AllExcept(Vec<String>),
    OnlySpecifiedTests(Vec<String>),
}

pub ghost enum RequestedView {
    AllTest,
    NoTestsOnlyCompile,
    AllExcept(Seq<Seq<char>>),
    OnlySpecifiedTests(Seq<Seq<char>>),
}

pub open spec fn texts(v: Seq<String>) -> Seq<Seq<char>> {
    v.map_values(|s: String| s@)
}

impl View for RequestedTest {
    type V = RequestedView;

    open spec fn view(&self) -> RequestedView {
        match self {
            RequestedTest::AllTest => RequestedView::AllTest,
            RequestedTest::NoTestsOnlyCompile => RequestedView::NoTestsOnlyCompile,
            RequestedTest::AllExcept(v) => RequestedView::AllExcept(texts(v@)),
            RequestedTest::OnlySpecifiedTests(v) => RequestedView::OnlySpecifiedTests(texts(v@)),
        }
    }
}

/// The parameters of a tests task.
#[derive(Debug)]
pub struct TestSetup {
    pub test_setup_id: i64,
    pub compiler: Compiler,
    pub tests_to_run: RequestedTest,
    pub run_tests_on_qemu: bool,
    pub run_tests_on_real_hardware: bool,
}

pub ghost struct SetupDesc {
    pub test_setup_id: i64,
    pub compiler: Compiler,
    pub tests_to_run: RequestedView,
    pub run_tests_on_qemu: bool,
    pub run_tests_on_real_hardware: bool,
}

impl View for TestSetup {
    type V = SetupDesc;

    open spec fn view(&self) -> SetupDesc {
        SetupDesc {
            test_setup_id: self.test_setup_id,
            compiler: self.compiler,
            tests_to_run: self.tests_to_run@,
            run_tests_on_qemu: self.run_tests_on_qemu,
            run_tests_on_real_hardware: self.run_tests_on_real_hardware,
        }
    }
}

/// What a claimed task asks the worker to do.
#[derive(Debug)]
pub enum TaskKind {
    StaticAnalyser,
    ClangTidy,
    ClangFormat,
    Test(TestSetup),
}

pub ghost enum KindView {
    StaticAnalyser,
    ClangTidy,
    ClangFormat,
    Test(SetupDesc),
}

impl View for TaskKind {
    type V = KindView;

    open spec fn view(&self) -> KindView {
        match self {
            TaskKind::StaticAnalyser => KindView::StaticAnalyser,
            TaskKind::ClangTidy => KindView::ClangTidy,
            TaskKind::ClangFormat => KindView::ClangFormat,
            TaskKind::Test(s) => KindView::Test(s@),
        }
    }
}

/// A claimed task: its id, the commit to check out, and what to run.
#[derive(Debug)]
pub struct Task {
    id: i64,
    git_hash: String,
    task_type: TaskKind,
}

pub ghost struct TaskView {
    pub id: i64,
    pub git_hash: Seq<char>,
    pub kind: KindView,
}

impl View for Task {
    type V = TaskView;

    closed spec fn view(&self) -> TaskView {
        TaskView { id: self.id, git_hash: self.git_hash@, kind: self.task_type@ }
    }
}

impl Task {
    pub fn new(id: i64, git_hash: String, task_type: TaskKind) -> (r: Task)
        ensures
            r@ == (TaskView { id, git_hash: git_hash@, kind: task_type@ }),
    {
        Task { id, git_hash, task_type }
    }

    pub fn id(&self) -> (r: i64)
        ensures
            r == self@.id,
    {
        self.id
    }

    pub fn git_hash(&self) -> (r: &str)
        ensures
            r@ == self@.git_hash,
    {
        self.git_hash.as_str()
    }

    pub fn task_type(&self) -> (r: &TaskKind)
        ensures
            r@ == self@.kind,
    {
        &self.task_type
    }
}

// ------------------------------------------------------------ the text

pub open spec fn bool_text(b: bool) -> Seq<char> {
    if b {
        "true"@
    } else {
        "false"@
    }
}

pub open spec fn compiler_line(c: Compiler) -> Seq<char> {
    match c {
        Compiler::GccFromHardwareVendor => "Compiler: GccFromHardwareVendor"@,
        Compiler::GccFromDistro => "Compiler: GccFromDistro"@,
    }
}

pub open spec fn test_type_line(r: RequestedView) -> Seq<char> {
    match r {
        RequestedView::AllTest => "Test type: AllTests"@,
        RequestedView::NoTestsOnlyCompile => "Test type: NoTestOnlyCompile"@,
        RequestedView::AllExcept(n) => "Test type: AllTestExcept(\""@ + join_spaced(n) + "\")"@,
        RequestedView::OnlySpecifiedTests(n) => "Test type: OnlySpecifiedTests(\""@ + join_spaced(n)
            + "\")"@,
    }
}

pub open spec fn setup_lines(s: SetupDesc) -> Seq<Seq<char>> {
    let head = seq![
        "Test setup id: "@ + i64_text(s.test_setup_id),
        test_type_line(s.tests_to_run),
        compiler_line(s.compiler),
    ];
    if s.tests_to_run is NoTestsOnlyCompile {
        head
    } else {
        head + seq![
            "Run tests on qemu: "@ + bool_text(s.run_tests_on_qemu),
            "Run tests on real hardware: "@ + bool_text(s.run_tests_on_real_hardware),
        ]
    }
}

pub open spec fn kind_lines(k: KindView) -> Seq<Seq<char>> {
    match k {
        KindView::StaticAnalyser => seq!["Type: StaticAnalyser"@],
        KindView::ClangTidy => seq!["Type: ClangTidy"@],
        KindView::ClangFormat => seq!["Type: ClangFormat"@],
        KindView::Test(s) => seq!["Type: Tests"@] + setup_lines(s),
    }
}

/// The lines of a claim response, before the final line break.
pub open spec fn task_lines(t: TaskView) -> Seq<Seq<char>> {
    seq!["Task id: "@ + i64_text(t.id), "Git Hash: "@ + t.git_hash] + kind_lines(t.kind)
}

/// `ls` joined by line breaks.
pub open spec fn join_lines(ls: Seq<Seq<char>>) -> Seq<char>
    decreases ls.len(),
{
    if ls.len() == 0 {
        Seq::<char>::empty()
    } else if ls.len() == 1 {
        ls[0]
    } else {
        join_lines(ls.drop_last()) + seq!['\n'] + ls.last()
    }
}

/// The claim response for `t`: its lines, each ended by a line break.
pub open spec fn render_task(t: TaskView) -> Seq<char> {
    join_lines(task_lines(t).push(Seq::<char>::empty()))
}

/// The text that tells a worker that no task fits.
pub open spec fn no_task_text() -> Seq<char> {
    "no suitable task found. Maybe there are no tasks left to execute"@
}

/// `ls`, each followed by a line break.
pub open spec fn terminated(ls: Seq<Seq<char>>) -> Seq<char>
    decreases ls.len(),
{
    if ls.len() == 0 {
        Seq::<char>::empty()
    } else {
        terminated(ls.drop_last()) + ls.last() + seq!['\n']
    }
}

pub proof fn lemma_terminated_join(ls: Seq<Seq<char>>)
    ensures
        join_lines(ls.push(Seq::<char>::empty())) == terminated(ls),
    decreases ls.len(),
{
    let e = Seq::<char>::empty();
    if ls.len() == 0 {
    } else {
        let init = ls.drop_last();
        lemma_terminated_join(init);
        assert(ls.push(e).drop_last() =~= ls);
        if ls.len() == 1 {
            assert(terminated(init) =~= e);
            assert(join_lines(ls) == ls[0]);
            assert(join_lines(ls.push(e)) =~= terminated(ls));
        } else {
            assert(init.push(e).drop_last() =~= init);
            assert(join_lines(init.push(e)) == join_lines(init) + seq!['\n'] + e);
            assert(join_lines(ls.push(e)) == join_lines(ls) + seq!['\n'] + e);
            assert(join_lines(ls) == join_lines(init) + seq!['\n'] + ls.last());
            assert(join_lines(init) + seq!['\n'] =~= join_lines(init) + seq!['\n'] + e);
            assert(join_lines(ls.push(e)) =~= terminated(ls));
        }
    }
}

fn push_joined(out: &mut String, names: &Vec<String>)
    ensures
        final(out)@ == old(out)@ + join_spaced(texts(names@)),
{
    let ghost start = out@;
    let mut i: usize = 0;
    assert(texts(names@).take(0) =~= Seq::<Seq<char>>::empty());
    assert(out@ =~= start + join_spaced(texts(names@).take(0)));
    while i < names.len()
        invariant
            i <= names@.len(),
            out@ == start + join_spaced(texts(names@).take(i as int)),
        decreases names@.len() - i,
    {
        let ghost ts = texts(names@).take(i as int + 1);
        assert(ts.drop_last() =~= texts(names@).take(i as int));
        assert(ts.last() == names@[i as int]@);
        if i > 0 {
            proof { reveal_strlit(" "); }
            out.append(" ");
        }
        out.append(names[i].as_str());
        i = i + 1;
        assert(out@ =~= start + join_spaced(texts(names@).take(i as int)));
    }
    assert(texts(names@).take(i as int) =~= texts(names@));
}

fn labelled_i64(label: &str, n: i64) -> (r: String)
    ensures
        r@ == label@ + i64_text(n),
{
    let mut out = String::new();
    out.append(label);
    push_i64(&mut out, n);
    assert(out@ =~= label@ + i64_text(n));
    out
}

fn labelled_text(label: &str, v: &str) -> (r: String)
    ensures
        r@ == label@ + v@,
{
    let mut out = String::new();
    out.append(label);
    out.append(v);
    assert(out@ =~= label@ + v@);
    out
}

fn literal_line(l: &str) -> (r: String)
    ensures
        r@ == l@,
{
    let mut out = String::new();
    out.append(l);
    assert(out@ =~= l@);
    out
}

fn bool_str(b: bool) -> (r: &'static str)
    ensures
        r@ == bool_text(b),
{
    if b {
        "true"
    } else {
        "false"
    }
}

fn test_type_string(r: &RequestedTest) -> (out: String)
    ensures
        out@ == test_type_line(r@),
{
    match r {
        RequestedTest::AllTest => literal_line("Test type: AllTests"),
        RequestedTest::NoTestsOnlyCompile => literal_line("Test type: NoTestOnlyCompile"),
        RequestedTest::AllExcept(n) => {
            let mut out = literal_line("Test type: AllTestExcept(\"");
            push_joined(&mut out, n);
            out.append("\")");
            out
        },
        RequestedTest::OnlySpecifiedTests(n) => {
            let mut out = literal_line("Test type: OnlySpecifiedTests(\"");
            push_joined(&mut out, n);
            out.append("\")");
            out
        },
    }
}

fn push_line(v: &mut Vec<String>, l: String)
    ensures
        texts(final(v)@) == texts(old(v)@).push(l@),
{
    v.push(l);
    assert(texts(final(v)@) =~= texts(old(v)@).push(l@));
}

/// The lines of the claim response for `t`.
fn task_line_strings(t: &Task) -> (r: Vec<String>)
    ensures
        texts(r@) == task_lines(t@),
{
    let mut v: Vec<String> = Vec::new();
    push_line(&mut v, labelled_i64("Task id: ", t.id));
    push_line(&mut v, labelled_text("Git Hash: ", t.git_hash.as_str()));
    match &t.task_type {
        TaskKind::StaticAnalyser => push_line(&mut v, literal_line("Type: StaticAnalyser")),
        TaskKind::ClangTidy => push_line(&mut v, literal_line("Type: ClangTidy")),
        TaskKind::ClangFormat => push_line(&mut v, literal_line("Type: ClangFormat")),
        TaskKind::Test(s) => {
            push_line(&mut v, literal_line("Type: Tests"));
            push_line(&mut v, labelled_i64("Test setup id: ", s.test_setup_id));
            push_line(&mut v, test_type_string(&s.tests_to_run));
            match s.compiler {
                Compiler::GccFromHardwareVendor => push_line(
                    &mut v,
                    literal_line("Compiler: GccFromHardwareVendor"),
                ),
                Compiler::GccFromDistro => push_line(&mut v, literal_line("Compiler: GccFromDistro")),
            }
            match s.tests_to_run {
                RequestedTest::NoTestsOnlyCompile => {},
                _ => {
                    push_line(
                        &mut v,
                        labelled_text("Run tests on qemu: ", bool_str(s.run_tests_on_qemu)),
                    );
                    push_line(
                        &mut v,
                        labelled_text(
                            "Run tests on real hardware: ",
                            bool_str(s.run_tests_on_real_hardware),
                        ),
                    );
                },
            }
        },
    }
    assert(texts(v@) =~= task_lines(t@));
    v
}

/// The claim response that describes `t`.
pub fn format_claim_response(t: &Task) -> (r: String)
    ensures
        r@ == render_task(t@),
{
    let ls = task_line_strings(t);
    let mut out = String::new();
    let mut i: usize = 0;
    assert(texts(ls@).take(0) =~= Seq::<Seq<char>>::empty());
    while i < ls.len()
        invariant
            i <= ls@.len(),
            out@ == terminated(texts(ls@).take(i as int)),
        decreases ls@.len() - i,
    {
        assert(texts(ls@).take(i as int + 1).drop_last() =~= texts(ls@).take(i as int));
        out.append(ls[i].as_str());
        proof { reveal_strlit("\n"); }
        out.append("\n");
        i = i + 1;
        assert(out@ =~= terminated(texts(ls@).take(i as int)));
    }
    assert(texts(ls@).take(i as int) =~= texts(ls@));
    proof {
        lemma_terminated_join(task_lines(t@));
    }
    out
}

/// The claim response when no task fits.
pub fn no_task_response() -> (r: String)
    ensures
        r@ == no_task_text(),
{
    literal_line("no suitable task found. Maybe there are no tasks left to execute")
}

// ------------------------------------------------------------ reading

pub open spec fn strip_cr(l: Seq<char>) -> Seq<char> {
    if l.len() > 0 && l.last() == '\r' {
        l.drop_last()
    } else {
        l
    }
}

/// The lines of `text`: split at line feeds, each without a trailing carriage return.
pub open spec fn lines(text: Seq<char>) -> Seq<Seq<char>> {
    split_on(text, '\n').map_values(|l: Seq<char>| strip_cr(l))
}

/// The integer after label `p` on line `l`, surrounding whitespace allowed.
pub open spec fn int_field(l: Seq<char>, p: Seq<char>) -> Option<i64> {
    if has_prefix(l, p) {
        parse_i64(trim(l.skip(p.len() as int)))
    } else {
        None
    }
}

/// The flag after label `p` on line `l`.
pub open spec fn bool_field(l: Seq<char>, p: Seq<char>) -> Option<bool> {
    if has_prefix(l, p) {
        let v = l.skip(p.len() as int);
        if v == "true"@ {
            Some(true)
        } else if v == "false"@ {
            Some(false)
        } else {
            None
        }
    } else {
        None
    }
}

/// The non-empty list of whitespace-separated names that line `l` holds
/// between `p` and `q`.
pub open spec fn names_between(l: Seq<char>, p: Seq<char>, q: Seq<char>) -> Option<
    Seq<Seq<char>>,
> {
    if l.len() >= p.len() + q.len() && has_prefix(l, p) && has_suffix(l, q) {
        let w = words(l.subrange(p.len() as int, l.len() - q.len()));
        if w.len() > 0 {
            Some(w)
        } else {
            None
        }
    } else {
        None
    }
}

pub open spec fn parse_requested(l: Seq<char>) -> Option<RequestedView> {
    if l == "Test type: NoTestOnlyCompile"@ {
        Some(RequestedView::NoTestsOnlyCompile)
    } else if l == "Test type: AllTests"@ {
        Some(RequestedView::AllTest)
    } else if has_prefix(l, "Test type: AllTestExcept(\""@) && has_suffix(l, "\")"@) {
        match names_between(l, "Test type: AllTestExcept(\""@, "\")"@) {
            Some(n) => Some(RequestedView::AllExcept(n)),
            None => None,
        }
    } else if has_prefix(l, "Test type: OnlySpecifiedTests(\""@) && has_suffix(l, "\")"@) {
        match names_between(l, "Test type: OnlySpecifiedTests(\""@, "\")"@) {
            Some(n) => Some(RequestedView::OnlySpecifiedTests(n)),
            None => None,
        }
    } else {
        None
    }
}

pub open spec fn parse_compiler(l: Seq<char>) -> Option<Compiler> {
    if l == "Compiler: GccFromHardwareVendor"@ {
        Some(Compiler::GccFromHardwareVendor)
    } else if l == "Compiler: GccFromDistro"@ {
        Some(Compiler::GccFromDistro)
    } else {
        None
    }
}

/// The setup that the lines after `Type: Tests` describe.
pub open spec fn parse_setup(ls: Seq<Seq<char>>) -> Option<SetupDesc> {
    if ls.len() < 3 {
        None
    } else {
        match (
            int_field(ls[0], "Test setup id: "@),
            parse_requested(ls[1]),
            parse_compiler(ls[2]),
        ) {
            (Some(id), Some(req), Some(c)) => {
                if req is NoTestsOnlyCompile {
                    Some(
                        SetupDesc {
                            test_setup_id: id,
                            compiler: c,
                            tests_to_run: req,
                            run_tests_on_qemu: false,
                            run_tests_on_real_hardware: false,
                        },
                    )
                } else if ls.len() < 5 {
                    None
                } else {
                    match (
                        bool_field(ls[3], "Run tests on qemu: "@),
                        bool_field(ls[4], "Run tests on real hardware: "@),
                    ) {
                        (Some(q), Some(h)) => Some(
                            SetupDesc {
                                test_setup_id: id,
                                compiler: c,
                                tests_to_run: req,
                                run_tests_on_qemu: q,
                                run_tests_on_real_hardware: h,
                            },
                        ),
                        _ => None,
                    }
                }
            },
            _ => None,
        }
    }
}

pub open spec fn hash_field(l: Seq<char>) -> Option<Seq<char>> {
    let p = "Git Hash:"@;
    if has_prefix(l, p) && valid_git_hash(trim(l.skip(p.len() as int))) {
        Some(trim(l.skip(p.len() as int)))
    } else {
        None
    }
}

pub open spec fn parse_kind(ls: Seq<Seq<char>>) -> Option<KindView> {
    let l = ls[2];
    if l == "Type: StaticAnalyser"@ {
        Some(KindView::StaticAnalyser)
    } else if l == "Type: ClangTidy"@ {
        Some(KindView::ClangTidy)
    } else if l == "Type: ClangFormat"@ {
        Some(KindView::ClangFormat)
    } else if l == "Type: Tests"@ {
        match parse_setup(ls.skip(3)) {
            Some(s) => Some(KindView::Test(s)),
            None => None,
        }
    } else {
        None
    }
}

/// The task that a claim response describes, if it is well formed: a
/// `Task id:` line, a `Git Hash:` line and a `Type:` line, then for a tests
/// task its setup lines.
pub open spec fn parse_task(text: Seq<char>) -> Option<TaskView> {
    let ls = lines(text);
    if ls.len() < 3 {
        None
    } else {
        match (int_field(ls[0], "Task id:"@), hash_field(ls[1]), parse_kind(ls)) {
            (Some(id), Some(h), Some(k)) => Some(TaskView { id, git_hash: h, kind: k }),
            _ => None,
        }
    }
}

/// A claim response that is not well formed.
#[derive(Debug, Clone, Copy, PartialEq, Eq, Structural)]
pub enum ParseTaskError {
    Malformed,
}

/// The ranges of the lines of `cs`.
pub(crate) fn line_ranges(cs: &Vec<char>) -> (r: Vec<(usize, usize)>)
    ensures
        pieces(cs@, r@) == lines(cs@),
        ranges_within(r@, 0, cs@.len() as int),
{
    let raw = split_ranges(cs, 0, cs.len(), '\n');
    assert(slice_of(cs@, 0, cs@.len() as int) =~= cs@);
    let mut r: Vec<(usize, usize)> = Vec::new();
    let mut i: usize = 0;
    while i < raw.len()
        invariant
            i <= raw@.len(),
            r@.len() == i,
            ranges_within(raw@, 0, cs@.len() as int),
            ranges_within(r@, 0, cs@.len() as int),
            pieces(cs@, raw@) == split_on(cs@, '\n'),
            forall|k: int|
                0 <= k < i ==> #[trigger] pieces(cs@, r@)[k] == strip_cr(pieces(cs@, raw@)[k]),
        decreases raw@.len() - i,
    {
        let (a, b) = raw[i];
        let ghost whole = slice_of(cs@, a as int, b as int);
        let ghost before = r@;
        assert(pieces(cs@, raw@)[i as int] == whole);
        if b > a && cs[b - 1] == '\r' {
            assert(whole.drop_last() =~= slice_of(cs@, a as int, b - 1));
            r.push((a, b - 1));
        } else {
            r.push((a, b));
        }
        assert(pieces(cs@, r@)[i as int] == strip_cr(whole));
        assert forall|k: int| 0 <= k < i implies #[trigger] pieces(cs@, r@)[k] == strip_cr(
            pieces(cs@, raw@)[k],
        ) by {
            assert(r@[k] == before[k]);
            assert(pieces(cs@, before)[k] == strip_cr(pieces(cs@, raw@)[k]));
        };
        i = i + 1;
    }
    assert(pieces(cs@, r@) =~= lines(cs@));
    r
}


fn int_field_at(cs: &Vec<char>, a: usize, b: usize, p: &str) -> (r: Option<i64>)
    requires
        a <= b <= cs@.len(),
    ensures
        r == int_field(slice_of(cs@, a as int, b as int), p@),
{
    if !starts_with(cs, a, b, p) {
        return None;
    }
    let pl = p.unicode_len();
    assert(slice_of(cs@, a as int, b as int).skip(p@.len() as int) =~= slice_of(
        cs@,
        a + pl,
        b as int,
    ));
    let (x, y) = trim_range(cs, a + pl, b);
    parse_i64_range(cs, x, y)
}

fn bool_field_at(cs: &Vec<char>, a: usize, b: usize, p: &str) -> (r: Option<bool>)
    requires
        a <= b <= cs@.len(),
    ensures
        r == bool_field(slice_of(cs@, a as int, b as int), p@),
{
    if !starts_with(cs, a, b, p) {
        return None;
    }
    let pl = p.unicode_len();
    assert(slice_of(cs@, a as int, b as int).skip(p@.len() as int) =~= slice_of(
        cs@,
        a + pl,
        b as int,
    ));
    if equals(cs, a + pl, b, "true") {
        Some(true)
    } else if equals(cs, a + pl, b, "false") {
        Some(false)
    } else {
        None
    }
}

fn names_at(text: &str, cs: &Vec<char>, a: usize, b: usize, p: &str, q: &str) -> (r: Option<
    Vec<String>,
>)
    requires
        cs@ == text@,
        a <= b <= cs@.len(),
    ensures
        match r {
            Some(v) => names_between(slice_of(cs@, a as int, b as int), p@, q@) == Some(texts(v@)),
            None => names_between(slice_of(cs@, a as int, b as int), p@, q@) is None,
        },
{
    let ghost l = slice_of(cs@, a as int, b as int);
    let pl = p.unicode_len();
    let ql = q.unicode_len();
    if pl > b - a || ql > b - a - pl {
        return None;
    }
    if !starts_with(cs, a, b, p) || !ends_with(cs, a, b, q) {
        return None;
    }
    assert(l.subrange(p@.len() as int, l.len() - q@.len()) =~= slice_of(
        cs@,
        a + pl,
        b - ql,
    ));
    let rs = word_ranges(cs, a + pl, b - ql);
    if rs.len() == 0 {
        return None;
    }
    let mut v: Vec<String> = Vec::new();
    let mut i: usize = 0;
    while i < rs.len()
        invariant
            cs@ == text@,
            i <= rs@.len(),
            ranges_within(rs@, 0, cs@.len() as int),
            texts(v@) == pieces(cs@, rs@).take(i as int),
        decreases rs@.len() - i,
    {
        let (x, y) = rs[i];
        let w = text.substring_char(x, y).to_owned();
        let ghost before = v@;
        v.push(w);
        assert(texts(v@) =~= texts(before).push(w@));
        assert(pieces(cs@, rs@).take(i as int + 1) =~= pieces(cs@, rs@).take(i as int).push(
            pieces(cs@, rs@)[i as int],
        ));
        i = i + 1;
    }
    assert(pieces(cs@, rs@).take(i as int) =~= pieces(cs@, rs@));
    Some(v)
}

fn requested_at(text: &str, cs: &Vec<char>, a: usize, b: usize) -> (r: Option<RequestedTest>)
    requires
        cs@ == text@,
        a <= b <= cs@.len(),
    ensures
        match r {
            Some(x) => parse_requested(slice_of(cs@, a as int, b as int)) == Some(x@),
            None => parse_requested(slice_of(cs@, a as int, b as int)) is None,
        },
{
    if equals(cs, a, b, "Test type: NoTestOnlyCompile") {
        Some(RequestedTest::NoTestsOnlyCompile)
    } else if equals(cs, a, b, "Test type: AllTests") {
        Some(RequestedTest::AllTest)
    } else if starts_with(cs, a, b, "Test type: AllTestExcept(\"") && ends_with(cs, a, b, "\")") {
        match names_at(text, cs, a, b, "Test type: AllTestExcept(\"", "\")") {
            Some(n) => Some(RequestedTest::AllExcept(n)),
            None => None,
        }
    } else if starts_with(cs, a, b, "Test type: OnlySpecifiedTests(\"") && ends_with(
        cs,
        a,
        b,
        "\")",
    ) {
        match names_at(text, cs, a, b, "Test type: OnlySpecifiedTests(\"", "\")") {
            Some(n) => Some(RequestedTest::OnlySpecifiedTests(n)),
            None => None,
        }
    } else {
        None
    }
}

fn compiler_at(cs: &Vec<char>, a: usize, b: usize) -> (r: Option<Compiler>)
    requires
        a <= b <= cs@.len(),
    ensures
        r == parse_compiler(slice_of(cs@, a as int, b as int)),
{
    if equals(cs, a, b, "Compiler: GccFromHardwareVendor") {
        Some(Compiler::GccFromHardwareVendor)
    } else if equals(cs, a, b, "Compiler: GccFromDistro") {
        Some(Compiler::GccFromDistro)
    } else {
        None
    }
}

fn setup_at(text: &str, cs: &Vec<char>, rs: &Vec<(usize, usize)>, k: usize) -> (r: Option<
    TestSetup,
>)
    requires
        cs@ == text@,
        ranges_within(rs@, 0, cs@.len() as int),
        k <= rs@.len(),
    ensures
        match r {
            Some(x) => parse_setup(pieces(cs@, rs@).skip(k as int)) == Some(x@),
            None => parse_setup(pieces(cs@, rs@).skip(k as int)) is None,
        },
{
    let ghost ls = pieces(cs@, rs@).skip(k as int);
    if rs.len() - k < 3 {
        return None;
    }
    let (a0, b0) = rs[k];
    let (a1, b1) = rs[k + 1];
    let (a2, b2) = rs[k + 2];
    assert(ls[0] == slice_of(cs@, a0 as int, b0 as int));
    assert(ls[1] == slice_of(cs@, a1 as int, b1 as int));
    assert(ls[2] == slice_of(cs@, a2 as int, b2 as int));
    let id = int_field_at(cs, a0, b0, "Test setup id: ");
    let req = requested_at(text, cs, a1, b1);
    let c = compiler_at(cs, a2, b2);
    match (id, req, c) {
        (Some(id), Some(req), Some(c)) => {
            if let RequestedTest::NoTestsOnlyCompile = req {
                Some(
                    TestSetup {
                        test_setup_id: id,
                        compiler: c,
                        tests_to_run: req,
                        run_tests_on_qemu: false,
                        run_tests_on_real_hardware: false,
                    },
                )
            } else if rs.len() - k < 5 {
                None
            } else {
                let (a3, b3) = rs[k + 3];
                let (a4, b4) = rs[k + 4];
                assert(ls[3] == slice_of(cs@, a3 as int, b3 as int));
                assert(ls[4] == slice_of(cs@, a4 as int, b4 as int));
                let q = bool_field_at(cs, a3, b3, "Run tests on qemu: ");
                let h = bool_field_at(cs, a4, b4, "Run tests on real hardware: ");
                match (q, h) {
                    (Some(q), Some(h)) => Some(
                        TestSetup {
                            test_setup_id: id,
                            compiler: c,
                            tests_to_run: req,
                            run_tests_on_qemu: q,
                            run_tests_on_real_hardware: h,
                        },
                    ),
                    _ => None,
                }
            }
        },
        _ => None,
    }
}

impl Task {
    /// Reads a claim response. Accepted exactly when it is well formed, and
    /// then the task it describes is returned.
    pub fn from_str(text: &str) -> (r: Result<Task, ParseTaskError>)
        ensures
            match r {
                Ok(t) => parse_task(text@) == Some(t@),
                Err(_) => parse_task(text@) is None,
            },
    {
        let cs = chars_of(text);
        let rs = line_ranges(&cs);
        let ghost ls = lines(text@);
        if rs.len() < 3 {
            return Err(ParseTaskError::Malformed);
        }
        let (a0, b0) = rs[0];
        let (a1, b1) = rs[1];
        let (a2, b2) = rs[2];
        assert(ls[0] == slice_of(cs@, a0 as int, b0 as int));
        assert(ls[1] == slice_of(cs@, a1 as int, b1 as int));
        assert(ls[2] == slice_of(cs@, a2 as int, b2 as int));
        let id = int_field_at(&cs, a0, b0, "Task id:");
        let id = match id {
            Some(id) => id,
            None => return Err(ParseTaskError::Malformed),
        };
        if !starts_with(&cs, a1, b1, "Git Hash:") {
            return Err(ParseTaskError::Malformed);
        }
        let pl = "Git Hash:".unicode_len();
        assert(slice_of(cs@, a1 as int, b1 as int).skip("Git Hash:"@.len() as int) =~= slice_of(
            cs@,
            a1 + pl,
            b1 as int,
        ));
        let (x, y) = trim_range(&cs, a1 + pl, b1);
        if y - x < 3 || y - x > 64 || !all_hex(&cs, x, y) {
            assert(!valid_git_hash(slice_of(cs@, x as int, y as int))) by {
                if 3 <= y - x <= 64 {
                    let k = choose|k: int| x <= k < y && !crate::text::is_hex(#[trigger] cs@[k]);
                    assert(slice_of(cs@, x as int, y as int)[k - x] == cs@[k]);
                }
            };
            return Err(ParseTaskError::Malformed);
        }
        assert(valid_git_hash(slice_of(cs@, x as int, y as int))) by {
            assert forall|i: int| 0 <= i < y - x implies crate::text::is_hex(
                #[trigger] slice_of(cs@, x as int, y as int)[i],
            ) by {
                assert(slice_of(cs@, x as int, y as int)[i] == cs@[x + i]);
            };
        };
        let git_hash = text.substring_char(x, y).to_owned();
        let kind = if equals(&cs, a2, b2, "Type: StaticAnalyser") {
            TaskKind::StaticAnalyser
        } else if equals(&cs, a2, b2, "Type: ClangTidy") {
            TaskKind::ClangTidy
        } else if equals(&cs, a2, b2, "Type: ClangFormat") {
            TaskKind::ClangFormat
        } else if equals(&cs, a2, b2, "Type: Tests") {
            match setup_at(text, &cs, &rs, 3) {
                Some(s) => TaskKind::Test(s),
                None => return Err(ParseTaskError::Malformed),
            }
        } else {
            return Err(ParseTaskError::Malformed);
        };
        Ok(Task { id, git_hash, task_type: kind })
    }
}

/// The whitespace-separated words of `s`.
pub fn words_of(s: &str) -> (r: Vec<String>)
    ensures
        texts(r@) == words(s@),
{
    let cs = chars_of(s);
    let rs = word_ranges(&cs, 0, cs.len());
    assert(slice_of(cs@, 0, cs@.len() as int) =~= cs@);
    let mut v: Vec<String> = Vec::new();
    let mut i: usize = 0;
    while i < rs.len()
        invariant
            cs@ == s@,
            i <= rs@.len(),
            ranges_within(rs@, 0, cs@.len() as int),
            texts(v@) == pieces(cs@, rs@).take(i as int),
        decreases rs@.len() - i,
    {
        let (x, y) = rs[i];
        let w = s.substring_char(x, y).to_owned();
        let ghost before = v@;
        v.push(w);
        assert(texts(v@) =~= texts(before).push(w@));
        assert(pieces(cs@, rs@).take(i as int + 1) =~= pieces(cs@, rs@).take(i as int).push(
            pieces(cs@, rs@)[i as int],
        ));
        i = i + 1;
    }
    assert(pieces(cs@, rs@).take(i as int) =~= pieces(cs@, rs@));
    v
}

// ------------------------------------------------------------ round trip

pub open spec fn names_ok(n: Seq<Seq<char>>) -> bool {
    n.len() > 0 && forall|i: int| 0 <= i < n.len() ==> is_word(#[trigger] n[i])
}

pub open spec fn setup_well_formed(s: SetupDesc) -> bool {
    match s.tests_to_run {
        RequestedView::NoTestsOnlyCompile => !s.run_tests_on_qemu && !s.run_tests_on_real_hardware,
        RequestedView::AllExcept(n) => names_ok(n),
        RequestedView::OnlySpecifiedTests(n) => names_ok(n),
        RequestedView::AllTest => true,
    }
}

/// A task that the text format can carry: a valid commit hash, non-empty
/// lists of names without whitespace, and no targets on a compile-only setup.
pub open spec fn well_formed_task(t: TaskView) -> bool {
    &&& valid_git_hash(t.git_hash)
    &&& match t.kind {
        KindView::Test(s) => setup_well_formed(s),
        _ => true,
    }
}

pub open spec fn clean_line(l: Seq<char>) -> bool {
    forall|k: int| 0 <= k < l.len() ==> #[trigger] l[k] != '\n' && l[k] != '\r'
}

proof fn lemma_split_join_lines(ls: Seq<Seq<char>>)
    requires
        ls.len() >= 1,
        forall|i: int| 0 <= i < ls.len() ==> clean_line(#[trigger] ls[i]),
    ensures
        split_on(join_lines(ls), '\n') == ls,
    decreases ls.len(),
{
    if ls.len() == 1 {
        assert(clean_line(ls[0]));
        lemma_split_single(ls[0], '\n');
        assert(seq![ls[0]] =~= ls);
    } else {
        let init = ls.drop_last();
        assert forall|i: int| 0 <= i < init.len() implies clean_line(#[trigger] init[i]) by {
            assert(init[i] == ls[i]);
        };
        lemma_split_join_lines(init);
        assert(clean_line(ls.last()));
        lemma_split_concat(join_lines(init), ls.last(), '\n');
        lemma_split_single(ls.last(), '\n');
        assert(init + seq![ls.last()] =~= ls);
    }
}

proof fn lemma_labelled(label: Seq<char>, x: Seq<char>)
    ensures
        has_prefix(label + x, label),
        (label + x).skip(label.len() as int) == x,
{
    assert((label + x).take(label.len() as int) =~= label);
    assert((label + x).skip(label.len() as int) =~= x);
}

proof fn lemma_spaced_field(label: Seq<char>, x: Seq<char>)
    requires
        x.len() >= 1,
        !is_ws(x[0]),
        !is_ws(x.last()),
    ensures
        has_prefix(label + seq![' '] + x, label),
        trim((label + seq![' '] + x).skip(label.len() as int)) == x,
{
    assert((label + seq![' '] + x).take(label.len() as int) =~= label);
    assert((label + seq![' '] + x).skip(label.len() as int) =~= seq![' '] + x);
    lemma_trim_spaced(x);
}

proof fn lemma_i64_line(label: Seq<char>, n: i64)
    requires
        clean_line(label),
    ensures
        clean_line(label + i64_text(n)),
{
    lemma_i64_text(n);
    assert forall|k: int| 0 <= k < (label + i64_text(n)).len() implies #[trigger] (label
        + i64_text(n))[k] != '\n' && (label + i64_text(n))[k] != '\r' by {
        if k >= label.len() {
            assert((label + i64_text(n))[k] == i64_text(n)[k - label.len()]);
        } else {
            assert((label + i64_text(n))[k] == label[k]);
        }
    };
}

proof fn lemma_bool_line(label: Seq<char>, b: bool)
    requires
        clean_line(label),
    ensures
        clean_line(label + bool_text(b)),
        bool_field(label + bool_text(b), label) == Some(b),
{
    reveal_strlit("true");
    reveal_strlit("false");
    lemma_labelled(label, bool_text(b));
    assert forall|k: int| 0 <= k < (label + bool_text(b)).len() implies #[trigger] (label
        + bool_text(b))[k] != '\n' && (label + bool_text(b))[k] != '\r' by {
        if k >= label.len() {
            assert((label + bool_text(b))[k] == bool_text(b)[k - label.len()]);
        } else {
            assert((label + bool_text(b))[k] == label[k]);
        }
    };
}

proof fn lemma_names_line(p: Seq<char>, n: Seq<Seq<char>>, q: Seq<char>)
    requires
        names_ok(n),
        clean_line(p),
        clean_line(q),
    ensures
        clean_line(p + join_spaced(n) + q),
        names_between(p + join_spaced(n) + q, p, q) == Some(n),
        (p + join_spaced(n) + q).len() > p.len() + q.len(),
{
    let j = join_spaced(n);
    let l = p + j + q;
    lemma_join_chars(n);
    lemma_words_join(n);
    assert(l.take(p.len() as int) =~= p);
    assert(l.skip(l.len() - q.len()) =~= q);
    assert(l.subrange(p.len() as int, l.len() - q.len()) =~= j);
    assert forall|k: int| 0 <= k < l.len() implies #[trigger] l[k] != '\n' && l[k] != '\r' by {
        if k < p.len() {
            assert(l[k] == p[k]);
        } else if k < p.len() + j.len() {
            assert(l[k] == j[k - p.len()]);
            assert(is_ws('\n') && is_ws('\r'));
        } else {
            assert(l[k] == q[k - p.len() - j.len()]);
        }
    };
}

proof fn lemma_setup_round_trip(s: SetupDesc)
    requires
        setup_well_formed(s),
    ensures
        parse_setup(setup_lines(s).push(Seq::<char>::empty())) == Some(s),
        forall|i: int| 0 <= i < setup_lines(s).len() ==> clean_line(#[trigger] setup_lines(s)[i]),
{
    let ls = setup_lines(s);
    let all = ls.push(Seq::<char>::empty());
    reveal_strlit("Test setup id: ");
    reveal_strlit("Test type: AllTests");
    reveal_strlit("Test type: NoTestOnlyCompile");
    reveal_strlit("Test type: AllTestExcept(\"");
    reveal_strlit("Test type: OnlySpecifiedTests(\"");
    reveal_strlit("\")");
    reveal_strlit("Compiler: GccFromHardwareVendor");
    reveal_strlit("Compiler: GccFromDistro");
    reveal_strlit("Run tests on qemu: ");
    reveal_strlit("Run tests on real hardware: ");
    let l0 = "Test setup id: "@ + i64_text(s.test_setup_id);
    lemma_labelled("Test setup id: "@, i64_text(s.test_setup_id));
    lemma_i64_text(s.test_setup_id);
    lemma_trim_spaced(i64_text(s.test_setup_id));
    lemma_i64_line("Test setup id: "@, s.test_setup_id);
    assert(int_field(all[0], "Test setup id: "@) == Some(s.test_setup_id));
    let l1 = test_type_line(s.tests_to_run);
    let ex = "Test type: AllTestExcept(\""@;
    let on = "Test type: OnlySpecifiedTests(\""@;
    let q = "\")"@;
    match s.tests_to_run {
        RequestedView::AllExcept(n) => {
            lemma_names_line(ex, n, q);
            assert(l1 != "Test type: NoTestOnlyCompile"@);
            assert(l1 != "Test type: AllTests"@);
        },
        RequestedView::OnlySpecifiedTests(n) => {
            lemma_names_line(on, n, q);
            assert(l1 != "Test type: NoTestOnlyCompile"@);
            assert(l1 != "Test type: AllTests"@);
            assert(!has_prefix(l1, ex)) by {
                assert(l1[11] != ex[11]);
                assert(l1.take(ex.len() as int)[11] == l1[11]);
            };
        },
        _ => {},
    }
    assert(parse_requested(all[1]) == Some(s.tests_to_run));
    assert(all[2] == compiler_line(s.compiler));
    assert("Compiler: GccFromHardwareVendor"@.len() != "Compiler: GccFromDistro"@.len());
    assert(parse_compiler(all[2]) == Some(s.compiler));
    if !(s.tests_to_run is NoTestsOnlyCompile) {
        lemma_bool_line("Run tests on qemu: "@, s.run_tests_on_qemu);
        lemma_bool_line("Run tests on real hardware: "@, s.run_tests_on_real_hardware);
        assert(all[3] == "Run tests on qemu: "@ + bool_text(s.run_tests_on_qemu));
        assert(all[4] == "Run tests on real hardware: "@ + bool_text(s.run_tests_on_real_hardware));
    }
}

proof fn lemma_header_lines(t: TaskView)
    requires
        valid_git_hash(t.git_hash),
    ensures
        int_field("Task id: "@ + i64_text(t.id), "Task id:"@) == Some(t.id),
        hash_field("Git Hash: "@ + t.git_hash) == Some(t.git_hash),
        clean_line("Task id: "@ + i64_text(t.id)),
        clean_line("Git Hash: "@ + t.git_hash),
{
    reveal_strlit("Task id: ");
    reveal_strlit("Task id:");
    reveal_strlit("Git Hash: ");
    reveal_strlit("Git Hash:");
    let h = t.git_hash;
    assert("Task id: "@ =~= "Task id:"@ + seq![' ']);
    assert("Git Hash: "@ =~= "Git Hash:"@ + seq![' ']);
    lemma_i64_text(t.id);
    lemma_spaced_field("Task id:"@, i64_text(t.id));
    lemma_i64_line("Task id: "@, t.id);
    assert(!is_ws(h[0]) && !is_ws(h.last())) by {
        assert(crate::text::is_hex(h[0]));
        assert(crate::text::is_hex(h[h.len() - 1]));
    };
    lemma_spaced_field("Git Hash:"@, h);
    assert forall|k: int| 0 <= k < ("Git Hash: "@ + h).len() implies #[trigger] ("Git Hash: "@
        + h)[k] != '\n' && ("Git Hash: "@ + h)[k] != '\r' by {
        if k >= 10 {
            assert(("Git Hash: "@ + h)[k] == h[k - 10]);
            assert(crate::text::is_hex(h[k - 10]));
        }
    };
}

proof fn lemma_kind_lines(t: TaskView)
    requires
        well_formed_task(t),
    ensures
        parse_kind(task_lines(t).push(Seq::<char>::empty())) == Some(t.kind),
        forall|i: int|
            2 <= i < task_lines(t).len() ==> clean_line(#[trigger] task_lines(t)[i]),
{
    let tl = task_lines(t);
    let all = tl.push(Seq::<char>::empty());
    reveal_strlit("Type: StaticAnalyser");
    reveal_strlit("Type: ClangTidy");
    reveal_strlit("Type: ClangFormat");
    reveal_strlit("Type: Tests");
    match t.kind {
        KindView::Test(s) => {
            lemma_setup_round_trip(s);
            assert(all.skip(3) =~= setup_lines(s).push(Seq::<char>::empty()));
            assert(all[2] == "Type: Tests"@);
            assert("Type: Tests"@.len() == 11);
            assert(parse_kind(all) == Some(t.kind));
            assert forall|i: int| 2 <= i < tl.len() implies clean_line(#[trigger] tl[i]) by {
                if i >= 3 {
                    assert(tl[i] == setup_lines(s)[i - 3]);
                }
            };
        },
        _ => {
            assert(all[2] == tl[2]);
        },
    }
}

/// Writing a well-formed task as a claim response and reading the text back
/// gives the same task.
pub proof fn lemma_claim_response_round_trip(t: TaskView)
    requires
        well_formed_task(t),
    ensures
        parse_task(render_task(t)) == Some(t),
{
    let tl = task_lines(t);
    let all = tl.push(Seq::<char>::empty());
    lemma_header_lines(t);
    lemma_kind_lines(t);
    assert forall|i: int| 0 <= i < all.len() implies clean_line(#[trigger] all[i]) by {
        if i < tl.len() {
            assert(all[i] == tl[i]);
        }
    };
    lemma_split_join_lines(all);
    assert(lines(render_task(t)) =~= all) by {
        assert forall|i: int| 0 <= i < all.len() implies #[trigger] strip_cr(all[i]) == all[i] by {
            assert(clean_line(all[i]));
            if all[i].len() > 0 {
                assert(all[i].last() == all[i][all[i].len() - 1]);
            }
        };
    };
    assert(all[0] == "Task id: "@ + i64_text(t.id));
    assert(all[1] == "Git Hash: "@ + t.git_hash);
}

} // verus!
