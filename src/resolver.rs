//! Turning a roster and its submission lookups into the students to grade,
//! and planning where each submission is downloaded to.
use vstd::prelude::*;
use crate::layout::{source_path, source_path_spec};
use crate::lms::LmsError;
use crate::model::{Student, Submission, SubmissionLookup};

verus! {

/// A student to grade, with what they handed in.
#[derive(Debug)]
pub struct GradedUnit {
    pub student: Student,
    pub submission: Submission,
}

/// The submission of a lookup, when one was handed in.
pub open spec fn submitted_of(l: Result<SubmissionLookup, LmsError>) -> Option<Submission> {
    match l {
        Ok(SubmissionLookup::Submitted(s)) => Some(s),
        _ => None,
    }
}

/// Whether a failed lookup makes the roster unusable: an answer that could
/// not be decoded, or a refused credential. A transport failure concerns
/// one student only.
pub open spec fn is_fatal(e: LmsError) -> bool {
    !(e is Transport)
}

/// The first lookup of a roster that failed fatally, if any.
pub open spec fn first_failure(entries: Seq<(Student, Result<SubmissionLookup, LmsError>)>) -> Option<
    LmsError,
>
    decreases entries.len(),
{
    if entries.len() == 0 {
        None
    } else {
        match first_failure(entries.drop_last()) {
            Some(e) => Some(e),
            None => match entries.last().1 {
                Err(e) => if is_fatal(e) {
                    Some(e)
                } else {
                    None
                },
                Ok(_) => None,
            },
        }
    }
}

/// The students whose lookup failed in transport, in roster order.
pub open spec fn unreachable(entries: Seq<(Student, Result<SubmissionLookup, LmsError>)>) -> Seq<
    Student,
>
    decreases entries.len(),
{
    if entries.len() == 0 {
        Seq::empty()
    } else {
        let rest = unreachable(entries.drop_last());
        match entries.last().1 {
            Err(LmsError::Transport) => rest.push(entries.last().0),
            _ => rest,
        }
    }
}

/// The students of a roster that handed something in, in roster order.
pub open spec fn resolved(entries: Seq<(Student, Result<SubmissionLookup, LmsError>)>) -> Seq<
    GradedUnit,
>
    decreases entries.len(),
{
    if entries.len() == 0 {
        Seq::empty()
    } else {
        let rest = resolved(entries.drop_last());
        match submitted_of(entries.last().1) {
            Some(s) => rest.push(GradedUnit { student: entries.last().0, submission: s }),
            None => rest,
        }
    }
}

/// The roster positions that `resolved` keeps, in order.
pub open spec fn resolved_sources(entries: Seq<(Student, Result<SubmissionLookup, LmsError>)>) -> Seq<
    int,
>
    decreases entries.len(),
{
    if entries.len() == 0 {
        Seq::empty()
    } else {
        let rest = resolved_sources(entries.drop_last());
        match submitted_of(entries.last().1) {
            Some(s) => rest.push(entries.len() - 1),
            None => rest,
        }
    }
}

/// One place of the review queue: a graded unit, or a student whose
/// submission could not be fetched, by position in its list.
#[derive(Clone, Copy, Debug, PartialEq, Eq)]
pub enum Pending {
    Graded(usize),
    Unreachable(usize),
}

/// The review queue of a roster: every student who handed something in or
/// whose lookup failed in transport, in roster order.
pub open spec fn review_queue(entries: Seq<(Student, Result<SubmissionLookup, LmsError>)>) -> Seq<
    Pending,
>
    decreases entries.len(),
{
    if entries.len() == 0 {
        Seq::empty()
    } else {
        let init = entries.drop_last();
        let rest = review_queue(init);
        match entries.last().1 {
            Ok(SubmissionLookup::Submitted(_)) => rest.push(
                Pending::Graded(resolved(init).len() as usize),
            ),
            Err(LmsError::Transport) => rest.push(
                Pending::Unreachable(unreachable(init).len() as usize),
            ),
            _ => rest,
        }
    }
}

/// A resolved roster: the students to grade, those whose submission could
/// not be fetched, to be shown as failed, and the order to present them in.
#[derive(Debug)]
pub struct Resolution {
    pub units: Vec<GradedUnit>,
    pub unreachable: Vec<Student>,
    pub queue: Vec<Pending>,
}

/// Pairs each student of a roster with their submission, in roster order,
/// leaving out those who handed nothing in. A student whose lookup failed
/// in transport is listed apart and the others go on; any other failed
/// lookup aborts the whole resolution with the first such failure.
pub fn resolve_roster(entries: Vec<(Student, Result<SubmissionLookup, LmsError>)>) -> (r: Result<
    Resolution,
    LmsError,
>)
    ensures
        first_failure(entries@) is None <==> r is Ok,
        r matches Ok(v) ==> {
            &&& v.units@ == resolved(entries@)
            &&& v.unreachable@ == unreachable(entries@)
            &&& v.queue@ == review_queue(entries@)
        },
        r matches Err(e) ==> first_failure(entries@) == Some(e),
{
    let ghost all = entries@;
    let mut rest = entries;
    let mut out: Vec<GradedUnit> = Vec::new();
    let mut failed: Vec<Student> = Vec::new();
    let mut queue: Vec<Pending> = Vec::new();
    let ghost mut i: int = 0;
    while rest.len() > 0
        invariant
            0 <= i <= all.len(),
            all == entries@,
            rest@ == all.subrange(i, all.len() as int),
            first_failure(all.subrange(0, i)) is None,
            out@ == resolved(all.subrange(0, i)),
            failed@ == unreachable(all.subrange(0, i)),
            queue@ == review_queue(all.subrange(0, i)),
        decreases rest@.len(),
    {
        let (student, lookup) = rest.remove(0);
        let ghost prefix = all.subrange(0, i + 1);
        assert(prefix.drop_last() == all.subrange(0, i));
        assert(prefix.last() == (student, lookup));
        match lookup {
            Err(LmsError::Transport) => {
                queue.push(Pending::Unreachable(failed.len()));
                failed.push(student);
            },
            Err(e) => {
                assert(first_failure(prefix) == Some(e));
                proof {
                    lemma_failure_persists(all, i + 1);
                }
                return Err(e);
            },
            Ok(SubmissionLookup::NotSubmitted) => {},
            Ok(SubmissionLookup::Submitted(submission)) => {
                queue.push(Pending::Graded(out.len()));
                out.push(GradedUnit { student, submission });
            },
        }
        proof {
            i = i + 1;
        }
    }
    assert(all.subrange(0, all.len() as int) == all);
    Ok(Resolution { units: out, unreachable: failed, queue })
}

proof fn lemma_failure_persists(
    entries: Seq<(Student, Result<SubmissionLookup, LmsError>)>,
    n: int,
)
    requires
        0 <= n <= entries.len(),
        first_failure(entries.subrange(0, n)) is Some,
    ensures
        first_failure(entries) == first_failure(entries.subrange(0, n)),
    decreases entries.len() - n,
{
    if n < entries.len() {
        assert(entries.subrange(0, n + 1).drop_last() == entries.subrange(0, n));
        lemma_failure_persists(entries, n + 1);
    } else {
        assert(entries.subrange(0, n) == entries);
    }
}

/// Resolution keeps exactly the students who handed something in: the
/// `k`-th graded unit comes from roster position `src[k]`, positions rise
/// strictly (so no student is kept twice), every kept position holds a
/// submission, and every position holding one is kept.
pub proof fn lemma_resolve_keeps_submitted(entries: Seq<(Student, Result<SubmissionLookup, LmsError>)>)
    ensures
        resolved_sources(entries).len() == resolved(entries).len(),
        forall|k: int|
            0 <= k < resolved(entries).len() ==> {
                let j = #[trigger] resolved_sources(entries)[k];
                &&& 0 <= j < entries.len()
                &&& submitted_of(entries[j].1) is Some
                &&& resolved(entries)[k] == GradedUnit {
                    student: entries[j].0,
                    submission: submitted_of(entries[j].1)->Some_0,
                }
            },
        forall|k1: int, k2: int|
            0 <= k1 < k2 < resolved(entries).len() ==> resolved_sources(entries)[k1]
                < resolved_sources(entries)[k2],
        forall|j: int|
            0 <= j < entries.len() && (#[trigger] submitted_of(entries[j].1)) is Some ==> exists|
                k: int,
            |
                0 <= k < resolved(entries).len() && resolved_sources(entries)[k] == j,
    decreases entries.len(),
{
    if entries.len() > 0 {
        let init = entries.drop_last();
        lemma_resolve_keeps_submitted(init);
        let src = resolved_sources(entries);
        let src0 = resolved_sources(init);
        assert forall|j: int|
            0 <= j < entries.len() && (#[trigger] submitted_of(entries[j].1)) is Some implies exists|
                k: int,
            |
                0 <= k < resolved(entries).len() && src[k] == j by {
            if j < init.len() {
                assert(submitted_of(init[j].1) is Some);
                let k = choose|k: int| 0 <= k < resolved(init).len() && src0[k] == j;
                assert(src[k] == j);
            } else {
                assert(src[src0.len() as int] == j);
            }
        }
    }
}

/// No two roster entries share a student id.
pub open spec fn ids_unique(entries: Seq<(Student, Result<SubmissionLookup, LmsError>)>) -> bool {
    forall|a: int, b: int|
        0 <= a < entries.len() && 0 <= b < entries.len() && entries[a].0.id == entries[b].0.id
            ==> a == b
}

/// On a roster whose ids are unique, a student who handed something in
/// has exactly one graded unit, holding that student and that submission;
/// a student who handed nothing in, or whose lookup failed, has none.
pub proof fn lemma_one_unit_per_submitted_student(
    entries: Seq<(Student, Result<SubmissionLookup, LmsError>)>,
    j: int,
)
    requires
        ids_unique(entries),
        0 <= j < entries.len(),
    ensures
        submitted_of(entries[j].1) is Some ==> exists|k: int|
            0 <= k < resolved(entries).len() && #[trigger] resolved(entries)[k] == (GradedUnit {
                student: entries[j].0,
                submission: submitted_of(entries[j].1)->Some_0,
            }),
        forall|k1: int, k2: int|
            0 <= k1 < resolved(entries).len() && 0 <= k2 < resolved(entries).len()
                && #[trigger] resolved(entries)[k1].student.id == entries[j].0.id
                && #[trigger] resolved(entries)[k2].student.id == entries[j].0.id ==> k1 == k2,
        submitted_of(entries[j].1) is None ==> forall|k: int|
            0 <= k < resolved(entries).len() ==> #[trigger] resolved(entries)[k].student.id
                != entries[j].0.id,
{
    lemma_resolve_keeps_submitted(entries);
    let src = resolved_sources(entries);
    let units = resolved(entries);
    if submitted_of(entries[j].1) is Some {
        let k = choose|k: int| 0 <= k < units.len() && src[k] == j;
        assert(units[k] == (GradedUnit {
            student: entries[j].0,
            submission: submitted_of(entries[j].1)->Some_0,
        }));
    }
    assert forall|k1: int, k2: int|
        0 <= k1 < units.len() && 0 <= k2 < units.len() && #[trigger] units[k1].student.id
            == entries[j].0.id && #[trigger] units[k2].student.id == entries[j].0.id implies k1
        == k2 by {
        let a = src[k1];
        let b = src[k2];
        assert(units[k1].student == entries[a].0);
        assert(units[k2].student == entries[b].0);
        if k1 < k2 {
            assert(a < b);
        } else if k2 < k1 {
            assert(b < a);
        }
    }
    if submitted_of(entries[j].1) is None {
        assert forall|k: int| 0 <= k < units.len() implies #[trigger] units[k].student.id
            != entries[j].0.id by {
            let a = src[k];
            assert(units[k].student == entries[a].0);
        }
    }
}

/// Where and from what one student's source is downloaded.
#[derive(Debug)]
pub struct DownloadJob {
    pub student_id: i32,
    pub url: String,
    pub path: String,
}

/// Per-student failures of materialization; the batch goes on.
#[derive(Clone, Copy, Debug, PartialEq, Eq)]
pub enum MaterializeError {
    /// The submission holds no file.
    MissingAttachment { student_id: i32 },
}

/// Whether `r` is the download planned for `unit`: the first attachment,
/// written to the student's source path.
pub open spec fn is_download_plan(
    course_id: i32,
    assignment_id: i32,
    unit: GradedUnit,
    r: Result<DownloadJob, MaterializeError>,
) -> bool {
    let files = unit.submission.attachments@;
    &&& files.len() > 0 <==> r is Ok
    &&& r matches Ok(j) ==> {
        &&& j.student_id == unit.student.id
        &&& j.url@ == files[0].url@
        &&& j.path@ == source_path_spec(course_id as int, assignment_id as int, unit.student.id as int)
    }
    &&& r matches Err(e) ==> e == (MaterializeError::MissingAttachment {
        student_id: unit.student.id,
    })
}

/// Plans the download of one student's submission.
pub fn plan_download(course_id: i32, assignment_id: i32, unit: &GradedUnit) -> (r: Result<
    DownloadJob,
    MaterializeError,
>)
    ensures
        is_download_plan(course_id, assignment_id, *unit, r),
{
    let id = unit.student.id;
    if unit.submission.attachments.len() == 0 {
        return Err(MaterializeError::MissingAttachment { student_id: id });
    }
    let url = unit.submission.attachments[0].url.clone();
    Ok(DownloadJob { student_id: id, url, path: source_path(course_id, assignment_id, id) })
}

/// Plans the downloads of a whole batch; a student without a file gets an
/// error of their own and the others go on.
pub fn plan_downloads(course_id: i32, assignment_id: i32, units: &Vec<GradedUnit>) -> (r: Vec<
    Result<DownloadJob, MaterializeError>,
>)
    ensures
        r@.len() == units@.len(),
        forall|i: int|
            0 <= i < units@.len() ==> is_download_plan(course_id, assignment_id, units@[i], #[trigger] r@[i]),
{
    let mut out: Vec<Result<DownloadJob, MaterializeError>> = Vec::new();
    let mut i: usize = 0;
    while i < units.len()
        invariant
            i <= units@.len(),
            out@.len() == i,
            forall|k: int|
                0 <= k < i ==> is_download_plan(course_id, assignment_id, units@[k], #[trigger] out@[k]),
        decreases units@.len() - i,
    {
        out.push(plan_download(course_id, assignment_id, &units[i]));
        i = i + 1;
    }
    out
}

/// A store of files by path.
pub type FileStore = Map<Seq<char>, Seq<u8>>;

/// Writes `bytes` at `path`, replacing what was there.
pub open spec fn write_file(store: FileStore, path: Seq<char>, bytes: Seq<u8>) -> FileStore {
    store.insert(path, bytes)
}

/// The store after materializing `unit` from the downloaded `bytes`.
pub open spec fn materialized(
    store: FileStore,
    course_id: i32,
    assignment_id: i32,
    unit: GradedUnit,
    bytes: Seq<u8>,
) -> FileStore {
    write_file(store, source_path_spec(course_id as int, assignment_id as int, unit.student.id as int), bytes)
}

/// Materializing the same submission twice leaves the same files as doing
/// it once, and the student's source holds exactly the downloaded bytes.
pub proof fn lemma_materialize_idempotent(
    store: FileStore,
    course_id: i32,
    assignment_id: i32,
    unit: GradedUnit,
    bytes: Seq<u8>,
)
    ensures
        materialized(materialized(store, course_id, assignment_id, unit, bytes), course_id, assignment_id, unit, bytes)
            == materialized(store, course_id, assignment_id, unit, bytes),
        materialized(store, course_id, assignment_id, unit, bytes)[source_path_spec(
            course_id as int,
            assignment_id as int,
            unit.student.id as int,
        )] == bytes,
{
    let p = source_path_spec(course_id as int, assignment_id as int, unit.student.id as int);
    assert(store.insert(p, bytes).insert(p, bytes) =~= store.insert(p, bytes));
}

} // verus!
