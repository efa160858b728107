//! Records of the learning-management system that the pipeline works on.
use vstd::prelude::*;

verus! {

/// A course the operator has access to.
#[derive(Debug, PartialEq, Eq)]
pub struct Course {
    pub id: i32,
    pub name: String,
}

/// An assignment of a course, with the submission kinds it accepts.
#[derive(Debug, PartialEq, Eq)]
pub struct Assignment {
    pub id: i32,
    pub name: String,
    pub submission_types: Vec<String>,
    pub published: bool,
}

/// A student enrolled in a course; `id` keys every path and grade posting.
#[derive(Debug, PartialEq, Eq)]
pub struct Student {
    pub id: i32,
    pub name: String,
    pub sortable_name: String,
}

/// A file uploaded with a submission.
#[derive(Debug, PartialEq, Eq)]
pub struct Attachment {
    pub filename: String,
    pub url: String,
}

/// What a student handed in for one assignment.
#[derive(Debug, PartialEq, Eq)]
pub struct Submission {
    pub user_id: i32,
    pub submission_type: String,
    pub attachments: Vec<Attachment>,
}

/// The answer of the submission endpoint for one student: a student who
/// handed nothing in is told apart from one whose submission has no files.
#[derive(Debug, PartialEq, Eq)]
pub enum SubmissionLookup {
    NotSubmitted,
    Submitted(Submission),
}

impl SubmissionLookup {
    /// Reads the decoded fields of a submission record: a missing
    /// submission kind means that nothing was handed in.
    pub fn from_record(
        user_id: i32,
        submission_type: Option<String>,
        attachments: Vec<Attachment>,
    ) -> (r: SubmissionLookup)
        ensures
            submission_type is None <==> r is NotSubmitted,
            r matches SubmissionLookup::Submitted(s) ==> (s.user_id == user_id
                && Some(s.submission_type) == submission_type
                && s.attachments == attachments),
    {
        match submission_type {
            None => SubmissionLookup::NotSubmitted,
            Some(kind) => SubmissionLookup::Submitted(
                Submission { user_id, submission_type: kind, attachments },
            ),
        }
    }
}

} // verus!
