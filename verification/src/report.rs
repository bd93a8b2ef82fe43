//! Structured grading results and their rendering as Markdown.
//!
//! A worker returns a `Report`: a grade, a maximal grade, either an
//! explanation (an infrastructure error) or a list of test groups.  The
//! renderer turns such a report into a human-readable Markdown document,
//! leaving fully-passing groups out and describing each failing test, with
//! the signal that killed it where there was one.

use vstd::prelude::*;
use vstd::string::StringExecFns;
use crate::decimal::dec_str;
use crate::decimal::u64_to_dec;
use crate::decimal::usize_to_dec;

verus! {

/// One test of a group.
pub struct Test {
    pub coefficient: usize,
    pub description: String,
    pub success: bool,
    pub signal: Option<u32>,
}

/// A group of tests graded together.
pub struct Group {
    pub grade: usize,
    pub max_grade: usize,
    pub description: Option<String>,
    pub tests: Vec<Test>,
}

/// A worker's whole result for one step.  `explanation` present means the
/// worker hit an infrastructure error rather than grading the submission;
/// groups are then absent or empty.
pub struct Report {
    pub grade: usize,
    pub max_grade: usize,
    pub explanation: Option<String>,
    pub groups: Option<Vec<Group>>,
}

pub struct TestView {
    pub coefficient: nat,
    pub description: Seq<char>,
    pub success: bool,
    pub signal: Option<u32>,
}

pub struct GroupView {
    pub grade: nat,
    pub max_grade: nat,
    pub description: Option<Seq<char>>,
    pub tests: Seq<TestView>,
}

pub struct ReportView {
    pub grade: nat,
    pub max_grade: nat,
    pub explanation: Option<Seq<char>>,
    pub groups: Seq<GroupView>,
}

impl View for Test {
    type V = TestView;

    open spec fn view(&self) -> TestView {
        TestView {
            coefficient: self.coefficient as nat,
            description: self.description@,
            success: self.success,
            signal: self.signal,
        }
    }
}

impl View for Group {
    type V = GroupView;

    open spec fn view(&self) -> GroupView {
        GroupView {
            grade: self.grade as nat,
            max_grade: self.max_grade as nat,
            description: match self.description {
                Some(d) => Some(d@),
                None => None,
            },
            tests: self.tests@.map_values(|t: Test| t@),
        }
    }
}

impl View for Report {
    type V = ReportView;

    open spec fn view(&self) -> ReportView {
        ReportView {
            grade: self.grade as nat,
            max_grade: self.max_grade as nat,
            explanation: match self.explanation {
                Some(e) => Some(e@),
                None => None,
            },
            groups: match self.groups {
                Some(gs) => gs@.map_values(|g: Group| g@),
                None => seq![],
            },
        }
    }
}

/// The pass/fail phrase for a grade pair.  The anomalous case (a grade over
/// the maximum signals an upstream bug) is flagged, never hidden; the four
/// branches are tried in this order.
pub open spec fn pass_fail_spec(grade: nat, max_grade: nat) -> Seq<char> {
    if grade > max_grade {
        dec_str(grade) + " passing out of "@ + dec_str(max_grade) + " [!]"@
    } else if grade == max_grade {
        "all "@ + dec_str(max_grade) + " passing"@
    } else if grade == 0 {
        "all "@ + dec_str(max_grade) + " failing"@
    } else {
        dec_str((max_grade - grade) as nat) + " failing out of "@ + dec_str(max_grade)
    }
}

/// Renders a grade pair as a pass/fail phrase.
pub fn pass_fail(grade: usize, max_grade: usize) -> (s: String)
    ensures
        s@ == pass_fail_spec(grade as nat, max_grade as nat),
{
    if grade > max_grade {
        let mut s = usize_to_dec(grade);
        s.append(" passing out of ");
        s.append(usize_to_dec(max_grade).as_str());
        s.append(" [!]");
        s
    } else if grade == max_grade {
        let mut s = String::from_str("all ");
        s.append(usize_to_dec(max_grade).as_str());
        s.append(" passing");
        s
    } else if grade == 0 {
        let mut s = String::from_str("all ");
        s.append(usize_to_dec(max_grade).as_str());
        s.append(" failing");
        s
    } else {
        let mut s = usize_to_dec(max_grade - grade);
        s.append(" failing out of ");
        s.append(usize_to_dec(max_grade).as_str());
        s
    }
}

pub const SIGILL: u32 = 4;

pub const SIGABRT: u32 = 6;

pub const SIGBUS: u32 = 7;

pub const SIGFPE: u32 = 8;

pub const SIGKILL: u32 = 9;

pub const SIGSEGV: u32 = 11;

/// The phrase explaining the signal that killed a test process; unknown
/// signal numbers are reported by their number.
pub open spec fn signal_text(signal: u32) -> Seq<char> {
    if signal == SIGILL {
        "illegal instruction"@
    } else if signal == SIGABRT {
        "abort, possibly because of a failed assertion"@
    } else if signal == SIGFPE {
        "arithmetic exception"@
    } else if signal == SIGKILL {
        "program killed, possibly because of an infinite loop or memory exhaustion"@
    } else if signal == SIGBUS {
        "bus error"@
    } else if signal == SIGSEGV {
        "segmentation fault"@
    } else {
        "crash (signal "@ + dec_str(signal as nat) + ")"@
    }
}

/// Translates a signal number into a short English phrase.
pub fn signal_to_explanation(signal: u32) -> (s: String)
    ensures
        s@ == signal_text(signal),
{
    if signal == SIGILL {
        String::from_str("illegal instruction")
    } else if signal == SIGABRT {
        String::from_str("abort, possibly because of a failed assertion")
    } else if signal == SIGFPE {
        String::from_str("arithmetic exception")
    } else if signal == SIGKILL {
        String::from_str("program killed, possibly because of an infinite loop or memory exhaustion")
    } else if signal == SIGBUS {
        String::from_str("bus error")
    } else if signal == SIGSEGV {
        String::from_str("segmentation fault")
    } else {
        let mut s = String::from_str("crash (signal ");
        s.append(u64_to_dec(signal as u64).as_str());
        s.append(")");
        s
    }
}

/// The report line for one failing test: its description, a coefficient
/// suffix when the coefficient is not 1, and the signal phrase when a signal
/// killed it.
pub open spec fn test_line(t: TestView) -> Seq<char> {
    "- "@ + t.description + (if t.coefficient != 1 {
        " (coefficient "@ + dec_str(t.coefficient) + ")"@
    } else {
        Seq::<char>::empty()
    }) + (match t.signal {
        Some(sig) => " ["@ + signal_text(sig) + "]"@,
        None => Seq::<char>::empty(),
    })
}

/// The lines for the failing tests of a group, in order.
pub open spec fn failing_lines(tests: Seq<TestView>) -> Seq<Seq<char>>
    decreases tests.len(),
{
    if tests.len() == 0 {
        seq![]
    } else {
        let init = failing_lines(tests.drop_last());
        if !tests.last().success {
            init.push(test_line(tests.last()))
        } else {
            init
        }
    }
}

/// The parts joined with the separator between them.
pub open spec fn joined(parts: Seq<Seq<char>>, sep: Seq<char>) -> Seq<char>
    decreases parts.len(),
{
    if parts.len() == 0 {
        Seq::<char>::empty()
    } else if parts.len() == 1 {
        parts[0]
    } else {
        joined(parts.drop_last(), sep) + sep + parts.last()
    }
}

/// The per-test detail of a group: listed only when the group's grade is not
/// zero — at grade zero every test failed and a list would be redundant.
pub open spec fn group_tests_block(g: GroupView) -> Seq<char> {
    if g.grade != 0 {
        "Failing tests:\n\n"@ + joined(failing_lines(g.tests), "\n"@)
    } else {
        Seq::<char>::empty()
    }
}

pub open spec fn group_title(g: GroupView) -> Seq<char> {
    match g.description {
        Some(d) => d,
        None => "*Test group*"@,
    }
}

/// The block for one (not fully passing) group.
pub open spec fn group_block(g: GroupView) -> Seq<char> {
    "### "@ + group_title(g) + " ("@ + pass_fail_spec(g.grade, g.max_grade) + ")\n\n"@
        + group_tests_block(g) + "\n"@
}

/// The blocks of the groups that did not fully pass, in order.
pub open spec fn failing_group_blocks(gs: Seq<GroupView>) -> Seq<Seq<char>>
    decreases gs.len(),
{
    if gs.len() == 0 {
        seq![]
    } else {
        let init = failing_group_blocks(gs.drop_last());
        if gs.last().grade != gs.last().max_grade {
            init.push(group_block(gs.last()))
        } else {
            init
        }
    }
}

/// The block rendered when the worker reports an infrastructure error: it
/// quotes the explanation verbatim and no group appears.
pub open spec fn error_block(lab: Seq<char>, explanation: Seq<char>) -> Seq<char> {
    "## Error\n\nThere has been an error during the test for "@ + lab + ":\n\n```\n"@
        + explanation + "\n```"@
}

/// The whole Markdown document for a report.
pub open spec fn report_markdown(lab: Seq<char>, r: ReportView) -> Seq<char> {
    match r.explanation {
        Some(e) => error_block(lab, e),
        None => "## Failed tests report for "@ + lab + " ("@ + pass_fail_spec(
            r.grade,
            r.max_grade,
        ) + ")\n\n"@ + joined(failing_group_blocks(r.groups), "\n"@),
    }
}

fn render_test_line(t: &Test) -> (s: String)
    ensures
        s@ == test_line(t@),
{
    let mut s = String::from_str("- ");
    s.append(t.description.as_str());
    if t.coefficient != 1 {
        s.append(" (coefficient ");
        s.append(usize_to_dec(t.coefficient).as_str());
        s.append(")");
    }
    match t.signal {
        Some(sig) => {
            s.append(" [");
            s.append(signal_to_explanation(sig).as_str());
            s.append("]");
        },
        None => {},
    }
    s
}

fn render_failing_lines(tests: &Vec<Test>) -> (v: Vec<String>)
    ensures
        v@.map_values(|x: String| x@) == failing_lines(tests@.map_values(|t: Test| t@)),
{
    let ghost tv = tests@.map_values(|t: Test| t@);
    let mut v: Vec<String> = Vec::new();
    let mut i: usize = 0;
    proof {
        assert(v@.map_values(|x: String| x@) =~= failing_lines(tv.subrange(0, 0)));
    }
    while i < tests.len()
        invariant
            0 <= i <= tests.len(),
            tv == tests@.map_values(|t: Test| t@),
            v@.map_values(|x: String| x@) == failing_lines(tv.subrange(0, i as int)),
        decreases tests.len() - i,
    {
        proof {
            assert(tv.subrange(0, i + 1).drop_last() =~= tv.subrange(0, i as int));
            assert(tv.subrange(0, i + 1).last() == tv[i as int]);
            assert(tv[i as int] == tests@[i as int]@);
        }
        if !tests[i].success {
            let line = render_test_line(&tests[i]);
            v.push(line);
            proof {
                assert(v@.map_values(|x: String| x@) =~= failing_lines(
                    tv.subrange(0, i + 1),
                ));
            }
        }
        i += 1;
    }
    proof {
        assert(tv.subrange(0, tests@.len() as int) =~= tv);
    }
    v
}

fn join_parts(parts: &Vec<String>, sep: &str) -> (s: String)
    ensures
        s@ == joined(parts@.map_values(|x: String| x@), sep@),
{
    let ghost pv = parts@.map_values(|x: String| x@);
    if parts.len() == 0 {
        return String::new();
    }
    let mut s = parts[0].clone();
    let mut i: usize = 1;
    proof {
        assert(pv.subrange(0, 1) =~= seq![pv[0]]);
        assert(joined(pv.subrange(0, 1), sep@) == pv[0]);
    }
    while i < parts.len()
        invariant
            1 <= i <= parts.len(),
            pv == parts@.map_values(|x: String| x@),
            pv.len() == parts@.len(),
            s@ == joined(pv.subrange(0, i as int), sep@),
        decreases parts.len() - i,
    {
        s.append(sep);
        s.append(parts[i].as_str());
        proof {
            assert(pv.subrange(0, i + 1).drop_last() =~= pv.subrange(0, i as int));
            assert(pv.subrange(0, i + 1).last() == pv[i as int]);
        }
        i += 1;
    }
    proof {
        assert(pv.subrange(0, parts@.len() as int) =~= pv);
    }
    s
}

fn render_group_block(g: &Group) -> (s: String)
    ensures
        s@ == group_block(g@),
{
    let mut s = String::from_str("### ");
    match &g.description {
        Some(d) => s.append(d.as_str()),
        None => s.append("*Test group*"),
    }
    s.append(" (");
    s.append(pass_fail(g.grade, g.max_grade).as_str());
    s.append(")\n\n");
    if g.grade != 0 {
        s.append("Failing tests:\n\n");
        let lines = render_failing_lines(&g.tests);
        s.append(join_parts(&lines, "\n").as_str());
    }
    s.append("\n");
    s
}

fn render_group_blocks(groups: &Vec<Group>) -> (v: Vec<String>)
    ensures
        v@.map_values(|x: String| x@) == failing_group_blocks(
            groups@.map_values(|g: Group| g@),
        ),
{
    let ghost gv = groups@.map_values(|g: Group| g@);
    let mut v: Vec<String> = Vec::new();
    let mut i: usize = 0;
    proof {
        assert(v@.map_values(|x: String| x@) =~= failing_group_blocks(gv.subrange(0, 0)));
    }
    while i < groups.len()
        invariant
            0 <= i <= groups.len(),
            gv == groups@.map_values(|g: Group| g@),
            v@.map_values(|x: String| x@) == failing_group_blocks(gv.subrange(0, i as int)),
        decreases groups.len() - i,
    {
        proof {
            assert(gv.subrange(0, i + 1).drop_last() =~= gv.subrange(0, i as int));
            assert(gv.subrange(0, i + 1).last() == gv[i as int]);
            assert(gv[i as int] == groups@[i as int]@);
        }
        if groups[i].grade != groups[i].max_grade {
            let block = render_group_block(&groups[i]);
            v.push(block);
            proof {
                assert(v@.map_values(|x: String| x@) =~= failing_group_blocks(
                    gv.subrange(0, i + 1),
                ));
            }
        }
        i += 1;
    }
    proof {
        assert(gv.subrange(0, groups@.len() as int) =~= gv);
    }
    v
}

/// Renders a report as Markdown and passes its grade pair through.
pub fn report_to_markdown(lab: &str, report: &Report) -> (r: (String, usize, usize))
    ensures
        r.0@ == report_markdown(lab@, report@),
        r.1 == report.grade,
        r.2 == report.max_grade,
{
    match &report.explanation {
        Some(explanation) => {
            let mut s = String::from_str("## Error\n\nThere has been an error during the test for ");
            s.append(lab);
            s.append(":\n\n```\n");
            s.append(explanation.as_str());
            s.append("\n```");
            (s, report.grade, report.max_grade)
        },
        None => {
            let mut s = String::from_str("## Failed tests report for ");
            s.append(lab);
            s.append(" (");
            s.append(pass_fail(report.grade, report.max_grade).as_str());
            s.append(")\n\n");
            let blocks = match &report.groups {
                Some(groups) => render_group_blocks(groups),
                None => Vec::new(),
            };
            proof {
                if report.groups is None {
                    assert(report@.groups =~= Seq::<GroupView>::empty());
                    assert(failing_group_blocks(report@.groups) =~= Seq::<Seq<char>>::empty());
                }
            }
            s.append(join_parts(&blocks, "\n").as_str());
            (s, report.grade, report.max_grade)
        },
    }
}

/// A report whose worker sent an explanation renders as the error block:
/// the explanation appears verbatim and no group is rendered.
pub proof fn lemma_explanation_verbatim(lab: Seq<char>, r: ReportView)
    requires
        r.explanation is Some,
    ensures
        report_markdown(lab, r) == error_block(lab, r.explanation->Some_0),
        exists|i: int|
            0 <= i <= report_markdown(lab, r).len() - (r.explanation->Some_0).len()
                && #[trigger] report_markdown(lab, r).subrange(
                i,
                i + (r.explanation->Some_0).len() as int,
            ) == r.explanation->Some_0,
{
    let e = r.explanation->Some_0;
    let head = "## Error\n\nThere has been an error during the test for "@ + lab + ":\n\n```\n"@;
    let doc = report_markdown(lab, r);
    assert(doc == head + e + "\n```"@);
    assert(doc.subrange(head.len() as int, head.len() + e.len() as int) =~= e);
}

} // verus!
