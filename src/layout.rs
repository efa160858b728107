//! Where sources and binaries live on disk: every path is derived from the
//! (course, assignment, student) key alone.
use vstd::prelude::*;
use vstd::string::StringExecFns;
use crate::text::{dec_int, dec_nat, digit_char, is_digit, push_dec_i32};

verus! {

/// `submissions/{course}/{assignment}/`
pub open spec fn submission_dir_spec(course_id: int, assignment_id: int) -> Seq<char> {
    "submissions/"@ + dec_int(course_id) + "/"@ + dec_int(assignment_id) + "/"@
}

/// `submissions/{course}/{assignment}/{student}.cc`
pub open spec fn source_path_spec(course_id: int, assignment_id: int, student_id: int) -> Seq<
    char,
> {
    submission_dir_spec(course_id, assignment_id) + dec_int(student_id) + ".cc"@
}

/// `submissions/{course}/{assignment}/out/`
pub open spec fn out_dir_spec(course_id: int, assignment_id: int) -> Seq<char> {
    submission_dir_spec(course_id, assignment_id) + "out/"@
}

/// `submissions/{course}/{assignment}/out/{student}.exe`
pub open spec fn exe_path_spec(course_id: int, assignment_id: int, student_id: int) -> Seq<char> {
    out_dir_spec(course_id, assignment_id) + dec_int(student_id) + ".exe"@
}

/// The directory that holds the sources of one assignment.
pub fn get_submission_dir(course_id: i32, assignment_id: i32) -> (r: String)
    ensures
        r@ == submission_dir_spec(course_id as int, assignment_id as int),
{
    let mut s = String::from_str("submissions/");
    push_dec_i32(&mut s, course_id);
    s.append("/");
    push_dec_i32(&mut s, assignment_id);
    s.append("/");
    s
}

/// The path a student's downloaded source is written to.
pub fn source_path(course_id: i32, assignment_id: i32, student_id: i32) -> (r: String)
    ensures
        r@ == source_path_spec(course_id as int, assignment_id as int, student_id as int),
{
    let mut s = get_submission_dir(course_id, assignment_id);
    push_dec_i32(&mut s, student_id);
    s.append(".cc");
    s
}

/// The directory of built binaries, cleared at the start of every build run.
pub fn out_dir(course_id: i32, assignment_id: i32) -> (r: String)
    ensures
        r@ == out_dir_spec(course_id as int, assignment_id as int),
{
    let mut s = get_submission_dir(course_id, assignment_id);
    s.append("out/");
    s
}

/// The path a student's binary is built to.
pub fn exe_path(course_id: i32, assignment_id: i32, student_id: i32) -> (r: String)
    ensures
        r@ == exe_path_spec(course_id as int, assignment_id as int, student_id as int),
{
    let mut s = out_dir(course_id, assignment_id);
    push_dec_i32(&mut s, student_id);
    s.append(".exe");
    s
}

proof fn lemma_dec_nat_digits(n: nat)
    ensures
        dec_nat(n).len() > 0,
        forall|i: int| 0 <= i < dec_nat(n).len() ==> is_digit(#[trigger] dec_nat(n)[i]),
    decreases n,
{
    if n >= 10 {
        lemma_dec_nat_digits(n / 10);
        let d = dec_nat(n / 10);
        assert forall|i: int| 0 <= i < dec_nat(n).len() implies is_digit(#[trigger] dec_nat(n)[i]) by {
            if i < d.len() {
                assert(dec_nat(n)[i] == d[i]);
            }
        }
    }
}

proof fn lemma_digit_char_injective(a: nat, b: nat)
    requires
        a < 10,
        b < 10,
        digit_char(a) == digit_char(b),
    ensures
        a == b,
{
    assert(digit_char(a) as u32 == a + 48);
    assert(digit_char(b) as u32 == b + 48);
}

proof fn lemma_dec_nat_injective(n: nat, m: nat)
    requires
        dec_nat(n) == dec_nat(m),
    ensures
        n == m,
    decreases n,
{
    if n >= 10 && m >= 10 {
        assert(dec_nat(n).last() == digit_char(n % 10));
        assert(dec_nat(m).last() == digit_char(m % 10));
        assert(dec_nat(n).drop_last() == dec_nat(n / 10));
        assert(dec_nat(m).drop_last() == dec_nat(m / 10));
        lemma_digit_char_injective(n % 10, m % 10);
        lemma_dec_nat_injective(n / 10, m / 10);
        assert(n == 10 * (n / 10) + n % 10);
        assert(m == 10 * (m / 10) + m % 10);
    } else if n >= 10 {
        lemma_dec_nat_digits(n / 10);
        assert(dec_nat(n).len() >= 2);
    } else if m >= 10 {
        lemma_dec_nat_digits(m / 10);
        assert(dec_nat(m).len() >= 2);
    } else {
        assert(dec_nat(n)[0] == digit_char(n));
        assert(dec_nat(m)[0] == digit_char(m));
        lemma_digit_char_injective(n, m);
    }
}

proof fn lemma_dec_int_injective(i: int, j: int)
    requires
        dec_int(i) == dec_int(j),
    ensures
        i == j,
{
    if i < 0 && j < 0 {
        assert(dec_int(i).subrange(1, dec_int(i).len() as int) == dec_nat((-i) as nat));
        assert(dec_int(j).subrange(1, dec_int(j).len() as int) == dec_nat((-j) as nat));
        lemma_dec_nat_injective((-i) as nat, (-j) as nat);
    } else if i < 0 {
        lemma_dec_nat_digits(j as nat);
        assert(dec_int(i)[0] == '-');
        assert(is_digit(dec_int(j)[0]));
    } else if j < 0 {
        lemma_dec_nat_digits(i as nat);
        assert(dec_int(j)[0] == '-');
        assert(is_digit(dec_int(i)[0]));
    } else {
        lemma_dec_nat_injective(i as nat, j as nat);
    }
}

proof fn lemma_middle_cancel(p: Seq<char>, d1: Seq<char>, d2: Seq<char>, s: Seq<char>)
    requires
        p + d1 + s == p + d2 + s,
    ensures
        d1 == d2,
{
    let whole = p + d1 + s;
    assert(whole.len() == (p + d2 + s).len());
    assert(d1.len() == d2.len());
    assert(d1 =~= whole.subrange(p.len() as int, (p.len() + d1.len()) as int));
    assert(d2 =~= (p + d2 + s).subrange(p.len() as int, (p.len() + d2.len()) as int));
}

/// Each student of an assignment has a source file and a binary of their
/// own: two different students never share either path.
pub proof fn lemma_student_paths_distinct(
    course_id: int,
    assignment_id: int,
    student_a: int,
    student_b: int,
)
    requires
        student_a != student_b,
    ensures
        source_path_spec(course_id, assignment_id, student_a) != source_path_spec(
            course_id,
            assignment_id,
            student_b,
        ),
        exe_path_spec(course_id, assignment_id, student_a) != exe_path_spec(
            course_id,
            assignment_id,
            student_b,
        ),
{
    let dir = submission_dir_spec(course_id, assignment_id);
    let out = out_dir_spec(course_id, assignment_id);
    if source_path_spec(course_id, assignment_id, student_a) == source_path_spec(
        course_id,
        assignment_id,
        student_b,
    ) {
        lemma_middle_cancel(dir, dec_int(student_a), dec_int(student_b), ".cc"@);
        lemma_dec_int_injective(student_a, student_b);
    }
    if exe_path_spec(course_id, assignment_id, student_a) == exe_path_spec(
        course_id,
        assignment_id,
        student_b,
    ) {
        lemma_middle_cancel(out, dec_int(student_a), dec_int(student_b), ".exe"@);
        lemma_dec_int_injective(student_a, student_b);
    }
}

} // verus!
