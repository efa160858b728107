//! Requests to the learning-management system and checks on its answers.
//! Transport and decoding happen outside the library; this module decides
//! what to ask for and whether an answer can be trusted.
use vstd::prelude::*;
use vstd::string::StringExecFns;
use crate::model::{Assignment, Course, Student};
use crate::text::{dec_int, dec_nat, push_dec_i32, push_dec_u64, trim_line_end, trimmed_line};

verus! {

/// Base address of the REST surface.
pub open spec fn api_base() -> Seq<char> {
    "https://sit.instructure.com/api/v1"@
}

/// Page size asked of every list endpoint; a full page means the answer may
/// have been cut short.
pub const PAGE_SIZE: u32 = 1000;

/// Failures of an exchange with the system.
#[derive(Clone, Copy, Debug, PartialEq, Eq)]
pub enum LmsError {
    /// The credential was refused (401 or 403).
    Auth,
    /// No answer came, or one that is no success.
    Transport,
    /// The answer could not be decoded.
    Decode,
    /// A list came back as a full page, so part of it may be missing.
    Truncated { returned: usize, per_page: u32 },
}

/// Failures of the local configuration, fatal before any stage runs.
#[derive(Clone, Copy, Debug, PartialEq, Eq)]
pub enum ConfigError {
    /// The credential text holds no token.
    MissingToken,
}

/// `/courses?enrollment_type={role}&per_page={n}`
pub open spec fn courses_path_spec(role: Seq<char>, per_page: nat) -> Seq<char> {
    "/courses?enrollment_type="@ + role + "&per_page="@ + dec_nat(per_page)
}

/// `/courses/{course}/assignments?per_page={n}`
pub open spec fn assignments_path_spec(course_id: int, per_page: nat) -> Seq<char> {
    "/courses/"@ + dec_int(course_id) + "/assignments?per_page="@ + dec_nat(per_page)
}

/// `/courses/{course}/users?enrollment_type=student&sort=sis_id&per_page={n}`
pub open spec fn students_path_spec(course_id: int, per_page: nat) -> Seq<char> {
    "/courses/"@ + dec_int(course_id) + "/users?enrollment_type=student&sort=sis_id&per_page="@
        + dec_nat(per_page)
}

/// `/courses/{course}/assignments/{assignment}/submissions/{student}`
pub open spec fn submission_path_spec(course_id: int, assignment_id: int, student_id: int) -> Seq<
    char,
> {
    "/courses/"@ + dec_int(course_id) + "/assignments/"@ + dec_int(assignment_id)
        + "/submissions/"@ + dec_int(student_id)
}

/// Path of the course listing for an enrolment role.
pub fn courses_path(role: &str, per_page: u32) -> (r: String)
    ensures
        r@ == courses_path_spec(role@, per_page as nat),
{
    let mut s = String::from_str("/courses?enrollment_type=");
    s.append(role);
    s.append("&per_page=");
    push_dec_u64(&mut s, per_page as u64);
    s
}

/// Path of the assignment listing of a course.
pub fn assignments_path(course_id: i32, per_page: u32) -> (r: String)
    ensures
        r@ == assignments_path_spec(course_id as int, per_page as nat),
{
    let mut s = String::from_str("/courses/");
    push_dec_i32(&mut s, course_id);
    s.append("/assignments?per_page=");
    push_dec_u64(&mut s, per_page as u64);
    s
}

/// Path of the roster of a course, in the roster's own order.
pub fn students_path(course_id: i32, per_page: u32) -> (r: String)
    ensures
        r@ == students_path_spec(course_id as int, per_page as nat),
{
    let mut s = String::from_str("/courses/");
    push_dec_i32(&mut s, course_id);
    s.append("/users?enrollment_type=student&sort=sis_id&per_page=");
    push_dec_u64(&mut s, per_page as u64);
    s
}

/// Path of one student's submission, for reading it and for posting a grade.
pub fn submission_path(course_id: i32, assignment_id: i32, student_id: i32) -> (r: String)
    ensures
        r@ == submission_path_spec(course_id as int, assignment_id as int, student_id as int),
{
    let mut s = String::from_str("/courses/");
    push_dec_i32(&mut s, course_id);
    s.append("/assignments/");
    push_dec_i32(&mut s, assignment_id);
    s.append("/submissions/");
    push_dec_i32(&mut s, student_id);
    s
}

/// Full address of an API path.
pub fn api_url(path: &str) -> (r: String)
    ensures
        r@ == api_base() + path@,
{
    let mut s = String::from_str("https://sit.instructure.com/api/v1");
    s.append(path);
    s
}

/// The header that carries the bearer token.
pub fn auth_header(token: &str) -> (r: String)
    ensures
        r@ == "Authorization: Bearer "@ + token@,
{
    let mut s = String::from_str("Authorization: Bearer ");
    s.append(token);
    s
}

/// Reads the bearer token out of the credential file's text: the text up to
/// its trailing line terminators, which must not be empty.
pub fn token_from_text(text: &str) -> (r: Result<String, ConfigError>)
    ensures
        trim_line_end(text@).len() == 0 <==> r is Err,
        r matches Ok(t) ==> t@ == trim_line_end(text@),
{
    let t = trimmed_line(text);
    if t.as_str().unicode_len() == 0 {
        Err(ConfigError::MissingToken)
    } else {
        Ok(t)
    }
}

/// What an HTTP status says of an exchange.
pub open spec fn status_outcome(code: u32) -> Result<(), LmsError> {
    if 200 <= code < 300 {
        Ok(())
    } else if code == 401 || code == 403 {
        Err(LmsError::Auth)
    } else {
        Err(LmsError::Transport)
    }
}

/// Sorts an HTTP status into success, a refused credential, or a failure.
pub fn check_http_status(code: u32) -> (r: Result<(), LmsError>)
    ensures
        r == status_outcome(code),
{
    if 200 <= code && code < 300 {
        Ok(())
    } else if code == 401 || code == 403 {
        Err(LmsError::Auth)
    } else {
        Err(LmsError::Transport)
    }
}

/// How many times a batch stage tries one student's exchange.
pub const MAX_ATTEMPTS: u32 = 3;

/// The kinds of exchange, which differ in how failures are handled.
#[derive(Clone, Copy, Debug, PartialEq, Eq)]
pub enum Exchange {
    /// A read made by a batch stage.
    Fetch,
    /// The PUT of a grade: made once, a failure goes back to the operator.
    GradePost,
}

/// Whether a failed exchange is tried again: only reads, only after a
/// transport failure, and only while attempts remain. A grade posting is
/// never tried again.
pub fn should_retry(kind: Exchange, err: LmsError, attempts: u32) -> (r: bool)
    ensures
        r <==> (kind is Fetch && err is Transport && attempts < MAX_ATTEMPTS),
{
    match (kind, err) {
        (Exchange::Fetch, LmsError::Transport) => attempts < MAX_ATTEMPTS,
        _ => false,
    }
}

/// Accepts a listing only when it is shorter than the page asked for.
pub open spec fn page_complete(returned: nat, per_page: nat) -> bool {
    returned < per_page
}

/// Checks the roster listing of a course for truncation.
pub fn list_students(per_page: u32, page: Vec<Student>) -> (r: Result<Vec<Student>, LmsError>)
    ensures
        page_complete(page@.len(), per_page as nat) <==> r is Ok,
        r matches Ok(v) ==> v@ == page@,
        r matches Err(e) ==> e == (LmsError::Truncated { returned: page@.len() as usize, per_page }),
{
    if page.len() < per_page as usize {
        Ok(page)
    } else {
        Err(LmsError::Truncated { returned: page.len(), per_page })
    }
}

/// Checks the assignment listing of a course for truncation.
pub fn list_assignments(per_page: u32, page: Vec<Assignment>) -> (r: Result<
    Vec<Assignment>,
    LmsError,
>)
    ensures
        page_complete(page@.len(), per_page as nat) <==> r is Ok,
        r matches Ok(v) ==> v@ == page@,
        r matches Err(e) ==> e == (LmsError::Truncated { returned: page@.len() as usize, per_page }),
{
    if page.len() < per_page as usize {
        Ok(page)
    } else {
        Err(LmsError::Truncated { returned: page.len(), per_page })
    }
}

/// Checks the course listing for truncation.
pub fn list_courses(per_page: u32, page: Vec<Course>) -> (r: Result<Vec<Course>, LmsError>)
    ensures
        page_complete(page@.len(), per_page as nat) <==> r is Ok,
        r matches Ok(v) ==> v@ == page@,
        r matches Err(e) ==> e == (LmsError::Truncated { returned: page@.len() as usize, per_page }),
{
    if page.len() < per_page as usize {
        Ok(page)
    } else {
        Err(LmsError::Truncated { returned: page.len(), per_page })
    }
}

/// Whether an assignment takes uploaded files and is published.
pub open spec fn is_gradable(a: Assignment) -> bool {
    a.published && exists|i: int|
        0 <= i < a.submission_types@.len() && #[trigger] a.submission_types@[i]@
            == "online_upload"@
}

/// The gradable assignments of a listing, in listing order.
pub open spec fn gradable(s: Seq<Assignment>) -> Seq<Assignment>
    decreases s.len(),
{
    if s.len() == 0 {
        s
    } else if is_gradable(s.last()) {
        gradable(s.drop_last()).push(s.last())
    } else {
        gradable(s.drop_last())
    }
}

fn takes_uploads(a: &Assignment) -> (r: bool)
    ensures
        r == is_gradable(*a),
{
    if !a.published {
        return false;
    }
    let upload = String::from_str("online_upload");
    let mut i: usize = 0;
    while i < a.submission_types.len()
        invariant
            i <= a.submission_types@.len(),
            a.published,
            upload@ == "online_upload"@,
            forall|k: int| 0 <= k < i ==> a.submission_types@[k]@ != "online_upload"@,
        decreases a.submission_types@.len() - i,
    {
        if a.submission_types[i] == upload {
            assert(a.submission_types@[i as int]@ == "online_upload"@);
            return true;
        }
        i = i + 1;
    }
    false
}

/// Keeps the assignments that are published and take uploaded files.
pub fn gradable_assignments(assignments: Vec<Assignment>) -> (r: Vec<Assignment>)
    ensures
        r@ == gradable(assignments@),
{
    let ghost all = assignments@;
    let mut rest = assignments;
    let mut out: Vec<Assignment> = Vec::new();
    let ghost mut i: int = 0;
    while rest.len() > 0
        invariant
            0 <= i <= all.len(),
            rest@ == all.subrange(i, all.len() as int),
            out@ == gradable(all.subrange(0, i)),
        decreases rest@.len(),
    {
        let a = rest.remove(0);
        assert(all.subrange(0, i + 1).drop_last() == all.subrange(0, i));
        assert(all.subrange(0, i + 1).last() == a);
        if takes_uploads(&a) {
            out.push(a);
        }
        proof {
            i = i + 1;
        }
    }
    assert(all.subrange(0, all.len() as int) == all);
    out
}

} // verus!
