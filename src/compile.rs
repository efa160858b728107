//! The build stage: how the compiler is invoked for one student, and what
//! its exit says about the student's binary.
use vstd::prelude::*;
use vstd::string::StringExecFns;
use crate::layout::{exe_path, exe_path_spec, source_path, source_path_spec};
use crate::resolver::GradedUnit;

verus! {

/// A compiler run as a program and its argument vector, with no shell between.
#[derive(Debug)]
pub struct CompileCommand {
    pub program: String,
    pub args: Vec<String>,
}

/// All warnings, the address sanitizer, the binary's path, then the source.
pub open spec fn compile_args_spec(course_id: int, assignment_id: int, student_id: int) -> Seq<
    Seq<char>,
> {
    seq![
        "-Wall"@,
        "-Wextra"@,
        "-fsanitize=address"@,
        "-o"@,
        exe_path_spec(course_id, assignment_id, student_id),
        source_path_spec(course_id, assignment_id, student_id),
    ]
}

/// The compiler invocation that builds one student's source.
pub fn compile_command(course_id: i32, assignment_id: i32, student_id: i32) -> (r: CompileCommand)
    ensures
        r.program@ == "g++"@,
        r.args@.len() == 6,
        forall|i: int|
            0 <= i < 6 ==> #[trigger] r.args@[i]@ == compile_args_spec(
                course_id as int,
                assignment_id as int,
                student_id as int,
            )[i],
{
    let mut args: Vec<String> = Vec::new();
    args.push(String::from_str("-Wall"));
    args.push(String::from_str("-Wextra"));
    args.push(String::from_str("-fsanitize=address"));
    args.push(String::from_str("-o"));
    args.push(exe_path(course_id, assignment_id, student_id));
    args.push(source_path(course_id, assignment_id, student_id));
    CompileCommand { program: String::from_str("g++"), args }
}

/// What one compiler run left behind for a student.
#[derive(Debug)]
pub enum BuildOutcome {
    /// The binary was built; the compiler's output is kept verbatim.
    Built { exe_path: String, stdout: String, stderr: String },
    /// No binary; the compiler's output is kept verbatim, and the
    /// diagnostics shown to the operator are never empty.
    Failed { status: Option<i32>, stdout: String, stderr: String, diagnostics: String },
}

/// Shown when a failed compiler printed nothing.
pub open spec fn silent_failure_note() -> Seq<char> {
    "the compiler failed without printing a diagnostic"@
}

/// The diagnostics of a failed build: what the compiler printed, or a note
/// when it printed nothing.
pub open spec fn failure_diagnostics(stdout: Seq<char>, stderr: Seq<char>) -> Seq<char> {
    if (stdout + stderr).len() > 0 {
        stdout + stderr
    } else {
        silent_failure_note()
    }
}

/// Records a compiler run: a binary exists exactly when the compiler exited
/// with status zero (`None` is a run ended by a signal).
pub fn record_build(
    course_id: i32,
    assignment_id: i32,
    student_id: i32,
    status: Option<i32>,
    stdout: String,
    stderr: String,
) -> (r: BuildOutcome)
    ensures
        status == Some(0i32) <==> r is Built,
        r matches BuildOutcome::Built { exe_path, stdout: o, stderr: e } ==> {
            &&& exe_path@ == exe_path_spec(course_id as int, assignment_id as int, student_id as int)
            &&& o@ == stdout@
            &&& e@ == stderr@
        },
        r matches BuildOutcome::Failed { status: s, stdout: o, stderr: e, diagnostics } ==> {
            &&& s == status
            &&& o@ == stdout@
            &&& e@ == stderr@
            &&& diagnostics@ == failure_diagnostics(stdout@, stderr@)
            &&& diagnostics@.len() > 0
        },
{
    match status {
        Some(0) => BuildOutcome::Built {
            exe_path: exe_path(course_id, assignment_id, student_id),
            stdout,
            stderr,
        },
        _ => {
            let mut diagnostics = stdout.clone();
            diagnostics.append(stderr.as_str());
            if diagnostics.as_str().unicode_len() == 0 {
                diagnostics = String::from_str("the compiler failed without printing a diagnostic");
                proof {
                    reveal_strlit("the compiler failed without printing a diagnostic");
                }
            }
            BuildOutcome::Failed { status, stdout, stderr, diagnostics }
        },
    }
}

/// A build outcome reported for one student, in whatever order builds end.
#[derive(Debug)]
pub struct BuildRecord {
    pub student_id: i32,
    pub outcome: BuildOutcome,
}

/// Position of the first record of student `id`.
pub open spec fn first_record_of(records: Seq<BuildRecord>, id: i32) -> Option<int>
    decreases records.len(),
{
    if records.len() == 0 {
        None
    } else if records[0].student_id == id {
        Some(0)
    } else {
        match first_record_of(records.drop_first(), id) {
            Some(k) => Some(k + 1),
            None => None,
        }
    }
}

/// A position as a mathematical integer.
pub open spec fn as_position(o: Option<usize>) -> Option<int> {
    match o {
        Some(k) => Some(k as int),
        None => None,
    }
}

fn find_record(records: &Vec<BuildRecord>, id: i32) -> (r: Option<usize>)
    ensures
        as_position(r) == first_record_of(records@, id),
{
    let mut k: usize = 0;
    while k < records.len()
        invariant
            k <= records@.len(),
            forall|i: int| 0 <= i < k ==> (#[trigger] records@[i]).student_id != id,
        decreases records@.len() - k,
    {
        if records[k].student_id == id {
            proof {
                lemma_first_record_at(records@, id, k as int);
            }
            return Some(k);
        }
        k = k + 1;
    }
    proof {
        lemma_no_record(records@, id);
    }
    None
}

proof fn lemma_first_record_at(records: Seq<BuildRecord>, id: i32, k: int)
    requires
        0 <= k < records.len(),
        records[k].student_id == id,
        forall|i: int| 0 <= i < k ==> (#[trigger] records[i]).student_id != id,
    ensures
        first_record_of(records, id) == Some(k),
    decreases k,
{
    if k > 0 {
        let rest = records.drop_first();
        assert forall|i: int| 0 <= i < k - 1 implies (#[trigger] rest[i]).student_id != id by {
            assert(rest[i] == records[i + 1]);
        }
        lemma_first_record_at(rest, id, k - 1);
    }
}

proof fn lemma_no_record(records: Seq<BuildRecord>, id: i32)
    requires
        forall|i: int| 0 <= i < records.len() ==> (#[trigger] records[i]).student_id != id,
    ensures
        first_record_of(records, id) is None,
    decreases records.len(),
{
    if records.len() > 0 {
        let rest = records.drop_first();
        assert forall|i: int| 0 <= i < rest.len() implies (#[trigger] rest[i]).student_id != id by {
            assert(rest[i] == records[i + 1]);
        }
        lemma_no_record(rest, id);
    }
}

/// The review queue: for each graded student in roster order, the position
/// of their build record, or `None` when no build was recorded (such a
/// student is still presented, never left out).
pub fn review_order(units: &Vec<GradedUnit>, records: &Vec<BuildRecord>) -> (r: Vec<Option<usize>>)
    ensures
        r@.len() == units@.len(),
        forall|i: int|
            0 <= i < units@.len() ==> as_position(#[trigger] r@[i]) == first_record_of(
                records@,
                units@[i].student.id,
            ),
{
    let mut out: Vec<Option<usize>> = Vec::new();
    let mut i: usize = 0;
    while i < units.len()
        invariant
            i <= units@.len(),
            out@.len() == i,
            forall|k: int|
                0 <= k < i ==> as_position(#[trigger] out@[k]) == first_record_of(
                    records@,
                    units@[k].student.id,
                ),
        decreases units@.len() - i,
    {
        out.push(find_record(records, units[i].student.id));
        i = i + 1;
    }
    out
}

} // verus!
