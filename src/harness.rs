//! The execution harness's bookkeeping: runs finish in any order, keyed by
//! (student, input index); each built student gets one transcript per
//! scripted input, in input order.
use vstd::prelude::*;
use crate::compile::{BuildOutcome, BuildRecord};

verus! {

/// How one run of a student's binary ended.
#[derive(Clone, Copy, Debug, PartialEq, Eq)]
pub enum RunStatus {
    /// The program exited with this status.
    Exited(i32),
    /// The program was ended by a signal.
    Killed,
    /// The program outlived its time bound and was stopped.
    TimedOut,
    /// Feeding the input or reading the output failed.
    IoError,
    /// No result came back for this input.
    NotRun,
}

/// One finished run, as reported by whichever worker ran it.
#[derive(Debug)]
pub struct RunResult {
    pub student_id: i32,
    pub input_index: usize,
    pub status: RunStatus,
    pub stdout: String,
}

/// The record of one scripted input fed to one student's program.
#[derive(Debug)]
pub struct RunTranscript {
    pub input_index: usize,
    pub input: String,
    pub status: RunStatus,
    pub stdout: String,
}

/// How a run ended, from what the harness saw: a run stopped at its time
/// bound is timed out whatever it did after; else a failed feed or read of
/// its streams is an I/O error; else its exit status, or `Killed` when a
/// signal ended it.
pub fn classify_run(timed_out: bool, io_failed: bool, exit_code: Option<i32>) -> (r: RunStatus)
    ensures
        r == (if timed_out {
            RunStatus::TimedOut
        } else if io_failed {
            RunStatus::IoError
        } else {
            match exit_code {
                Some(c) => RunStatus::Exited(c),
                None => RunStatus::Killed,
            }
        }),
{
    if timed_out {
        RunStatus::TimedOut
    } else if io_failed {
        RunStatus::IoError
    } else {
        match exit_code {
            Some(c) => RunStatus::Exited(c),
            None => RunStatus::Killed,
        }
    }
}

/// Whether `r` is the run of input `j` for student `s`.
pub open spec fn is_run_of(r: RunResult, s: i32, j: int) -> bool {
    r.student_id == s && r.input_index == j
}

/// Status and output of the first reported run of input `j` for student `s`.
pub open spec fn outcome_of(results: Seq<RunResult>, s: i32, j: int) -> (RunStatus, Seq<char>)
    decreases results.len(),
{
    if results.len() == 0 {
        (RunStatus::NotRun, Seq::empty())
    } else if is_run_of(results[0], s, j) {
        (results[0].status, results[0].stdout@)
    } else {
        outcome_of(results.drop_first(), s, j)
    }
}

/// Whether `t` is the transcript of input `j` of `inputs` for student `s`.
pub open spec fn is_transcript(
    t: RunTranscript,
    inputs: Seq<String>,
    results: Seq<RunResult>,
    s: i32,
    j: int,
) -> bool {
    &&& t.input_index == j
    &&& t.input@ == inputs[j]@
    &&& (t.status, t.stdout@) == outcome_of(results, s, j)
}

fn copy_string(s: &String) -> (r: String)
    ensures
        r@ == s@,
{
    s.clone()
}

fn outcome_for(results: &Vec<RunResult>, student_id: i32, j: usize) -> (r: (RunStatus, String))
    ensures
        (r.0, r.1@) == outcome_of(results@, student_id, j as int),
{
    let mut k: usize = 0;
    assert(results@.subrange(0, results@.len() as int) == results@);
    while k < results.len()
        invariant
            k <= results@.len(),
            outcome_of(results@, student_id, j as int) == outcome_of(
                results@.subrange(k as int, results@.len() as int),
                student_id,
                j as int,
            ),
        decreases results@.len() - k,
    {
        let ghost tail = results@.subrange(k as int, results@.len() as int);
        assert(tail[0] == results@[k as int]);
        assert(tail.drop_first() == results@.subrange(k + 1, results@.len() as int));
        if results[k].student_id == student_id && results[k].input_index == j {
            return (results[k].status, copy_string(&results[k].stdout));
        }
        k = k + 1;
    }
    (RunStatus::NotRun, String::new())
}

/// The transcripts of one built student: one per scripted input, in input
/// order, each with the first reported run of that input.
pub fn collect_transcripts(student_id: i32, inputs: &Vec<String>, results: &Vec<RunResult>) -> (r: Vec<
    RunTranscript,
>)
    ensures
        r@.len() == inputs@.len(),
        forall|j: int|
            0 <= j < inputs@.len() ==> is_transcript(#[trigger] r@[j], inputs@, results@, student_id, j),
{
    let mut out: Vec<RunTranscript> = Vec::new();
    let mut j: usize = 0;
    while j < inputs.len()
        invariant
            j <= inputs@.len(),
            out@.len() == j,
            forall|k: int|
                0 <= k < j ==> is_transcript(#[trigger] out@[k], inputs@, results@, student_id, k),
        decreases inputs@.len() - j,
    {
        let (status, stdout) = outcome_for(results, student_id, j);
        out.push(RunTranscript { input_index: j, input: copy_string(&inputs[j]), status, stdout });
        j = j + 1;
    }
    out
}

/// No two results report the same run.
pub open spec fn keys_unique(results: Seq<RunResult>) -> bool {
    forall|a: int, b: int|
        0 <= a < results.len() && 0 <= b < results.len() && results[a].student_id
            == results[b].student_id && results[a].input_index == results[b].input_index ==> a == b
}

proof fn lemma_outcome_of_unique(results: Seq<RunResult>, s: i32, j: int)
    requires
        keys_unique(results),
    ensures
        (forall|k: int| 0 <= k < results.len() ==> !is_run_of(#[trigger] results[k], s, j))
            ==> outcome_of(results, s, j) == (RunStatus::NotRun, Seq::<char>::empty()),
        forall|k: int|
            0 <= k < results.len() && is_run_of(#[trigger] results[k], s, j) ==> outcome_of(
                results,
                s,
                j,
            ) == (results[k].status, results[k].stdout@),
    decreases results.len(),
{
    if results.len() > 0 {
        let rest = results.drop_first();
        assert forall|a: int, b: int|
            0 <= a < rest.len() && 0 <= b < rest.len() && rest[a].student_id == rest[b].student_id
                && rest[a].input_index == rest[b].input_index implies a == b by {
            assert(rest[a] == results[a + 1] && rest[b] == results[b + 1]);
        }
        lemma_outcome_of_unique(rest, s, j);
        if !is_run_of(results[0], s, j) {
            assert forall|k: int|
                0 <= k < results.len() && is_run_of(#[trigger] results[k], s, j) implies outcome_of(
                results,
                s,
                j,
            ) == (results[k].status, results[k].stdout@) by {
                assert(results[k] == rest[k - 1]);
            }
            if forall|k: int| 0 <= k < results.len() ==> !is_run_of(#[trigger] results[k], s, j) {
                assert forall|k: int| 0 <= k < rest.len() implies !is_run_of(#[trigger] rest[k], s, j) by {
                    assert(rest[k] == results[k + 1]);
                }
            }
        }
    }
}

/// The transcripts do not depend on the order in which runs were reported:
/// two reports holding the same runs, each run once, give the same status
/// and output for every student and input.
pub proof fn lemma_transcripts_ignore_report_order(
    r1: Seq<RunResult>,
    r2: Seq<RunResult>,
    s: i32,
    j: int,
)
    requires
        keys_unique(r1),
        keys_unique(r2),
        forall|x: RunResult| r1.contains(x) <==> r2.contains(x),
    ensures
        outcome_of(r1, s, j) == outcome_of(r2, s, j),
{
    lemma_outcome_of_unique(r1, s, j);
    lemma_outcome_of_unique(r2, s, j);
    if exists|k: int| 0 <= k < r1.len() && is_run_of(#[trigger] r1[k], s, j) {
        let k = choose|k: int| 0 <= k < r1.len() && is_run_of(#[trigger] r1[k], s, j);
        assert(r1.contains(r1[k]));
        let k2 = choose|k2: int| 0 <= k2 < r2.len() && r2[k2] == r1[k];
        assert(is_run_of(r2[k2], s, j));
    } else if exists|k: int| 0 <= k < r2.len() && is_run_of(#[trigger] r2[k], s, j) {
        let k = choose|k: int| 0 <= k < r2.len() && is_run_of(#[trigger] r2[k], s, j);
        assert(r2.contains(r2[k]));
        let k1 = choose|k1: int| 0 <= k1 < r1.len() && r1[k1] == r2[k];
        assert(is_run_of(r1[k1], s, j));
    }
}

/// One run to make: a built binary fed one scripted input.
#[derive(Debug)]
pub struct RunJob {
    pub student_id: i32,
    pub input_index: usize,
    pub exe_path: String,
    pub input: String,
}

impl View for RunJob {
    type V = (i32, int, Seq<char>, Seq<char>);

    open spec fn view(&self) -> (i32, int, Seq<char>, Seq<char>) {
        (self.student_id, self.input_index as int, self.exe_path@, self.input@)
    }
}

/// The runs of a list, in mathematical terms.
pub open spec fn job_views(jobs: Seq<RunJob>) -> Seq<(i32, int, Seq<char>, Seq<char>)> {
    jobs.map_values(|j: RunJob| j@)
}

/// The texts of a list of strings.
pub open spec fn string_views(v: Seq<String>) -> Seq<Seq<char>> {
    v.map_values(|s: String| s@)
}

/// The runs of one built binary: every input, in input order.
pub open spec fn runs_of(id: i32, exe: Seq<char>, inputs: Seq<Seq<char>>) -> Seq<
    (i32, int, Seq<char>, Seq<char>),
> {
    Seq::new(inputs.len(), |j: int| (id, j, exe, inputs[j]))
}

/// The runs of a batch: for each build record in order, the runs of its
/// binary when it was built, and none when the build failed.
pub open spec fn run_plan(records: Seq<BuildRecord>, inputs: Seq<Seq<char>>) -> Seq<
    (i32, int, Seq<char>, Seq<char>),
>
    decreases records.len(),
{
    if records.len() == 0 {
        Seq::empty()
    } else {
        let rest = run_plan(records.drop_last(), inputs);
        match records.last().outcome {
            BuildOutcome::Built { exe_path, .. } => rest + runs_of(
                records.last().student_id,
                exe_path@,
                inputs,
            ),
            _ => rest,
        }
    }
}

/// Plans the execution stage: exactly the successfully built binaries,
/// each fed every scripted input in input order; a failed build is never run.
pub fn plan_runs(records: &Vec<BuildRecord>, inputs: &Vec<String>) -> (r: Vec<RunJob>)
    ensures
        job_views(r@) == run_plan(records@, string_views(inputs@)),
{
    let ghost ins = string_views(inputs@);
    let mut out: Vec<RunJob> = Vec::new();
    let mut i: usize = 0;
    while i < records.len()
        invariant
            i <= records@.len(),
            ins == string_views(inputs@),
            job_views(out@) == run_plan(records@.subrange(0, i as int), ins),
        decreases records@.len() - i,
    {
        assert(records@.subrange(0, i + 1).drop_last() == records@.subrange(0, i as int));
        assert(records@.subrange(0, i + 1).last() == records@[i as int]);
        let id = records[i].student_id;
        match &records[i].outcome {
            BuildOutcome::Built { exe_path, .. } => {
                let ghost base = job_views(out@);
                let ghost all = runs_of(id, exe_path@, ins);
                let mut j: usize = 0;
                while j < inputs.len()
                    invariant
                        j <= inputs@.len(),
                        ins == string_views(inputs@),
                        all == runs_of(id, exe_path@, ins),
                        job_views(out@) == base + all.subrange(0, j as int),
                    decreases inputs@.len() - j,
                {
                    let job = RunJob {
                        student_id: id,
                        input_index: j,
                        exe_path: exe_path.clone(),
                        input: inputs[j].clone(),
                    };
                    let ghost before = out@;
                    out.push(job);
                    assert(job_views(out@) =~= job_views(before).push(out@[before.len() as int]@));
                    assert(all.subrange(0, j + 1) =~= all.subrange(0, j as int).push(all[j as int]));
                    j = j + 1;
                }
                assert(all.subrange(0, inputs@.len() as int) =~= all);
            },
            BuildOutcome::Failed { .. } => {},
        }
        i = i + 1;
    }
    assert(records@.subrange(0, records@.len() as int) == records@);
    out
}

/// The transcripts shown for one student: none when the build failed,
/// else one per scripted input, in input order.
pub fn student_transcripts(
    outcome: &BuildOutcome,
    student_id: i32,
    inputs: &Vec<String>,
    results: &Vec<RunResult>,
) -> (r: Vec<RunTranscript>)
    ensures
        outcome is Failed ==> r@.len() == 0,
        outcome is Built ==> r@.len() == inputs@.len() && forall|j: int|
            0 <= j < inputs@.len() ==> is_transcript(#[trigger] r@[j], inputs@, results@, student_id, j),
{
    match outcome {
        BuildOutcome::Built { .. } => collect_transcripts(student_id, inputs, results),
        BuildOutcome::Failed { .. } => Vec::new(),
    }
}

} // verus!
