//! Percentages typed by the operator, and the request that posts one.
use vstd::prelude::*;
use vstd::string::StringExecFns;
use crate::lms::{submission_path, submission_path_spec};
use crate::text::{is_digit, push_char};

verus! {

/// Whether `c` may stand in a percentage.
pub open spec fn is_percent_char(c: char) -> bool {
    is_digit(c) || c == '.'
}

/// Decimal digits with at most one point and at least one digit:
/// `77`, `77.5`, `.5`, `5.`.
pub open spec fn is_percent_text(s: Seq<char>) -> bool {
    &&& forall|i: int| 0 <= i < s.len() ==> is_percent_char(#[trigger] s[i])
    &&& forall|i: int, k: int| 0 <= i < k < s.len() && s[i] == '.' ==> s[k] != '.'
    &&& exists|i: int| 0 <= i < s.len() && is_digit(#[trigger] s[i])
}

/// Position of the first point of `s`, or its length when it has none.
pub open spec fn point_of(s: Seq<char>) -> int
    decreases s.len(),
{
    if s.len() == 0 {
        0
    } else if s[0] == '.' {
        0
    } else {
        1 + point_of(s.drop_first())
    }
}

/// `d` without its leading zeros.
pub open spec fn strip_leading_zeros(d: Seq<char>) -> Seq<char>
    decreases d.len(),
{
    if d.len() > 0 && d[0] == '0' {
        strip_leading_zeros(d.drop_first())
    } else {
        d
    }
}

/// `d` without its trailing zeros.
pub open spec fn strip_trailing_zeros(d: Seq<char>) -> Seq<char>
    decreases d.len(),
{
    if d.len() > 0 && d.last() == '0' {
        strip_trailing_zeros(d.drop_last())
    } else {
        d
    }
}

/// The normal form of a percentage: no leading zeros in the whole part
/// (`0` when it is empty), no trailing zeros in the fraction, and no point
/// when the fraction is empty: `077.50` is `77.5`, `.5` is `0.5`, `5.` is `5`.
pub open spec fn normal_percent(s: Seq<char>) -> Seq<char> {
    let p = point_of(s);
    let whole = strip_leading_zeros(s.subrange(0, p));
    let frac = if p < s.len() {
        strip_trailing_zeros(s.subrange(p + 1, s.len() as int))
    } else {
        Seq::empty()
    };
    (if whole.len() == 0 {
        seq!['0']
    } else {
        whole
    }) + (if frac.len() == 0 {
        Seq::empty()
    } else {
        seq!['.'] + frac
    })
}

/// A percentage in normal form.
#[derive(Debug, PartialEq, Eq)]
pub struct Percent {
    pub text: String,
}

impl View for Percent {
    type V = Seq<char>;

    open spec fn view(&self) -> Seq<char> {
        self.text@
    }
}

proof fn lemma_point_of_bounds(s: Seq<char>)
    ensures
        0 <= point_of(s) <= s.len(),
        point_of(s) < s.len() ==> s[point_of(s)] == '.',
        forall|i: int| 0 <= i < point_of(s) ==> s[i] != '.',
    decreases s.len(),
{
    if s.len() > 0 && s[0] != '.' {
        let t = s.drop_first();
        lemma_point_of_bounds(t);
        assert forall|i: int| 0 <= i < point_of(s) implies s[i] != '.' by {
            if i > 0 {
                assert(s[i] == t[i - 1]);
            }
        }
    }
}

fn push_range(out: &mut String, s: &str, from: usize, to: usize)
    requires
        from <= to <= s@.len(),
    ensures
        final(out)@ == old(out)@ + s@.subrange(from as int, to as int),
{
    let mut i: usize = from;
    while i < to
        invariant
            from <= i <= to <= s@.len(),
            out@ == old(out)@ + s@.subrange(from as int, i as int),
        decreases to - i,
    {
        push_char(out, s.get_char(i));
        assert(s@.subrange(from as int, i + 1) == s@.subrange(from as int, i as int).push(s@[i as int]));
        i = i + 1;
    }
}

impl Percent {
    /// Whether the text holds only digits and points.
    pub open spec fn wf(&self) -> bool {
        forall|i: int| 0 <= i < self@.len() ==> is_percent_char(#[trigger] self@[i])
    }

    /// Reads a percentage and brings it to normal form; `None` when the
    /// text is not one.
    pub fn parse(s: &str) -> (r: Option<Percent>)
        ensures
            r is Some <==> is_percent_text(s@),
            r matches Some(p) ==> p@ == normal_percent(s@) && p.wf(),
    {
        let n = s.unicode_len();
        let mut seen_dot = false;
        let mut seen_digit = false;
        let mut dot_at: usize = 0;
        let mut i: usize = 0;
        while i < n
            invariant
                n == s@.len(),
                i <= n,
                forall|k: int| 0 <= k < i ==> is_percent_char(#[trigger] s@[k]),
                forall|a: int, b: int| 0 <= a < b < i && s@[a] == '.' ==> s@[b] != '.',
                seen_dot ==> dot_at < i && s@[dot_at as int] == '.',
                !seen_dot ==> forall|k: int| 0 <= k < i ==> s@[k] != '.',
                seen_digit <==> exists|k: int| 0 <= k < i && is_digit(#[trigger] s@[k]),
            decreases n - i,
        {
            let c = s.get_char(i);
            if c == '.' {
                if seen_dot {
                    assert(s@[dot_at as int] == '.' && s@[i as int] == '.');
                    return None;
                }
                seen_dot = true;
                dot_at = i;
            } else if char_is_digit(c) {
                seen_digit = true;
            } else {
                assert(!is_percent_char(s@[i as int]));
                return None;
            }
            i = i + 1;
        }
        if !seen_digit {
            return None;
        }
        let p: usize = if seen_dot {
            dot_at
        } else {
            n
        };
        proof {
            lemma_point_of_bounds(s@);
            if seen_dot {
                if point_of(s@) < dot_at {
                    assert(s@[point_of(s@)] == '.');
                }
            }
        }
        assert(p as int == point_of(s@));
        let mut a: usize = 0;
        assert(s@.subrange(0, p as int).subrange(0, p as int) == s@.subrange(0, p as int));
        while a < p && s.get_char(a) == '0'
            invariant
                a <= p <= n == s@.len(),
                strip_leading_zeros(s@.subrange(0, p as int)) == strip_leading_zeros(
                    s@.subrange(a as int, p as int),
                ),
            decreases p - a,
        {
            assert(s@.subrange(a as int, p as int).drop_first() == s@.subrange(a + 1, p as int));
            a = a + 1;
        }
        let start: usize = if p < n {
            p + 1
        } else {
            n
        };
        let mut b: usize = n;
        while b > start && s.get_char(b - 1) == '0'
            invariant
                start <= b <= n == s@.len(),
                p < n ==> strip_trailing_zeros(s@.subrange(p + 1, n as int)) == strip_trailing_zeros(
                    s@.subrange(start as int, b as int),
                ),
            decreases b,
        {
            assert(s@.subrange(start as int, b as int).drop_last() == s@.subrange(
                start as int,
                b - 1,
            ));
            b = b - 1;
        }
        let mut text = String::new();
        if a < p {
            push_range(&mut text, s, a, p);
        } else {
            push_char(&mut text, '0');
        }
        if start < b {
            push_char(&mut text, '.');
            push_range(&mut text, s, start, b);
        }
        proof {
            if p == n {
                assert(s@.subrange(start as int, b as int).len() == 0);
            }
            assert(text@ =~= normal_percent(s@));
        }
        Some(Percent { text })
    }

    /// The percentage's text.
    pub fn as_str(&self) -> (r: &str)
        ensures
            r@ == self@,
    {
        self.text.as_str()
    }
}

fn char_is_digit(c: char) -> (r: bool)
    ensures
        r == is_digit(c),
{
    '0' <= c && c <= '9'
}

/// Characters that JSON writes escaped inside a string.
pub open spec fn needs_json_escape(c: char) -> bool {
    c == '"' || c == '\\' || (c as u32) < 0x20
}

/// Relies on serde_json's `Value::String` shown through `Display`: a string
/// is written between double quotes, and characters other than `"`, `\` and
/// controls below 0x20 are written as they are.
#[verifier::external_body]
fn json_string(s: &str) -> (r: String)
    requires
        forall|i: int| 0 <= i < s@.len() ==> !needs_json_escape(#[trigger] s@[i]),
    ensures
        r@ == seq!['"'] + s@ + seq!['"'],
{
    serde_json::Value::String(s.to_string()).to_string()
}

/// `{"submission":{"posted_grade":"<percent>%"}}`
pub open spec fn grade_body_spec(percent: Seq<char>) -> Seq<char> {
    "{\"submission\":{\"posted_grade\":"@ + (seq!['"'] + (percent + "%"@) + seq!['"']) + "}}"@
}

/// A grade posting: the submission's path and the JSON body of the PUT.
#[derive(Debug)]
pub struct GradeRequest {
    pub path: String,
    pub body: String,
}

/// The single PUT that posts `percent` as the grade of one student.
pub fn grade_submission(course_id: i32, assignment_id: i32, user_id: i32, percent: &Percent) -> (r:
    GradeRequest)
    requires
        percent.wf(),
    ensures
        r.path@ == submission_path_spec(course_id as int, assignment_id as int, user_id as int),
        r.body@ == grade_body_spec(percent@),
{
    let mut grade = String::from_str(percent.as_str());
    grade.append("%");
    proof {
        reveal_strlit("%");
        assert forall|i: int| 0 <= i < grade@.len() implies !needs_json_escape(#[trigger] grade@[i]) by {
            if i < percent@.len() {
                assert(is_percent_char(percent@[i]));
            }
        }
    }
    let quoted = json_string(grade.as_str());
    let mut body = String::from_str("{\"submission\":{\"posted_grade\":");
    body.append(quoted.as_str());
    body.append("}}");
    GradeRequest { path: submission_path(course_id, assignment_id, user_id), body }
}

} // verus!
