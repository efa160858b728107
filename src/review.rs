//! The review loop as a state machine: the operator's lines and the outcome
//! of each grade posting are events; what to print or send is the action.
//! The loop itself, with its console and network, runs outside the library.
use vstd::prelude::*;
use vstd::string::StringExecFns;
use crate::grade::{is_percent_text, normal_percent, Percent};
use crate::text::{trim_line_end, trimmed_line};

verus! {

/// `skip` or `s`.
pub open spec fn is_skip(t: Seq<char>) -> bool {
    t == "skip"@ || t == "s"@
}

/// `help` or `h`.
pub open spec fn is_help(t: Seq<char>) -> bool {
    t == "help"@ || t == "h"@
}

/// Where the review of one student stands.
#[derive(Debug)]
pub enum ReviewState {
    /// Shown to the operator, waiting for a decision.
    Presented,
    /// A grade was decided and its posting is under way.
    Posting(Percent),
    /// Left without a grade.
    Skipped,
    /// The grade was posted.
    Graded(Percent),
}

/// What happened since the last step.
#[derive(Debug)]
pub enum ReviewEvent {
    /// The operator typed a line.
    Line(String),
    /// The grade posting was stored.
    PostSucceeded,
    /// The grade posting failed in transport.
    PostFailed,
}

/// What the loop does next.
#[derive(Debug)]
pub enum ReviewAction {
    /// Print the usage.
    ShowHelp,
    /// Report an input that is no choice, and ask again.
    ReportBadInput(String),
    /// Issue the PUT that posts this grade.
    PostGrade(Percent),
    /// Report that the grade was NOT saved, and ask again.
    ReportNotSaved,
    /// Move on to the next student.
    Advance,
    /// Nothing: the event does not apply in this state.
    Ignore,
}

/// A review state in mathematical terms.
pub enum StateView {
    Presented,
    Posting(Seq<char>),
    Skipped,
    Graded(Seq<char>),
}

/// A review event in mathematical terms.
pub enum EventView {
    Line(Seq<char>),
    PostSucceeded,
    PostFailed,
}

/// A review action in mathematical terms.
pub enum ActionView {
    ShowHelp,
    ReportBadInput(Seq<char>),
    PostGrade(Seq<char>),
    ReportNotSaved,
    Advance,
    Ignore,
}

impl View for ReviewState {
    type V = StateView;

    open spec fn view(&self) -> StateView {
        match self {
            ReviewState::Presented => StateView::Presented,
            ReviewState::Posting(p) => StateView::Posting(p@),
            ReviewState::Skipped => StateView::Skipped,
            ReviewState::Graded(p) => StateView::Graded(p@),
        }
    }
}

impl View for ReviewEvent {
    type V = EventView;

    open spec fn view(&self) -> EventView {
        match self {
            ReviewEvent::Line(l) => EventView::Line(l@),
            ReviewEvent::PostSucceeded => EventView::PostSucceeded,
            ReviewEvent::PostFailed => EventView::PostFailed,
        }
    }
}

impl View for ReviewAction {
    type V = ActionView;

    open spec fn view(&self) -> ActionView {
        match self {
            ReviewAction::ShowHelp => ActionView::ShowHelp,
            ReviewAction::ReportBadInput(l) => ActionView::ReportBadInput(l@),
            ReviewAction::PostGrade(p) => ActionView::PostGrade(p@),
            ReviewAction::ReportNotSaved => ActionView::ReportNotSaved,
            ReviewAction::Advance => ActionView::Advance,
            ReviewAction::Ignore => ActionView::Ignore,
        }
    }
}

/// One step of the review of a student.
pub open spec fn step_spec(s: StateView, e: EventView) -> (StateView, ActionView) {
    match (s, e) {
        (StateView::Presented, EventView::Line(l)) => {
            let t = trim_line_end(l);
            if is_skip(t) {
                (StateView::Skipped, ActionView::Advance)
            } else if is_help(t) {
                (StateView::Presented, ActionView::ShowHelp)
            } else if is_percent_text(t) {
                (StateView::Posting(normal_percent(t)), ActionView::PostGrade(normal_percent(t)))
            } else {
                (StateView::Presented, ActionView::ReportBadInput(t))
            }
        },
        (StateView::Posting(p), EventView::PostSucceeded) => (StateView::Graded(p), ActionView::Advance),
        (StateView::Posting(p), EventView::PostFailed) => (StateView::Presented, ActionView::ReportNotSaved),
        _ => (s, ActionView::Ignore),
    }
}

/// Whether the review of the student is over.
pub open spec fn is_final(s: StateView) -> bool {
    s is Skipped || s is Graded
}

/// An operator's decision read from one console line.
#[derive(Debug)]
pub enum Choice {
    Skip,
    Help,
    Grade(Percent),
    Invalid(String),
}

/// Reads one console line, without its line terminator.
pub fn parse_choice(line: &str) -> (r: Choice)
    ensures
        ({
            let t = trim_line_end(line@);
            if is_skip(t) {
                r is Skip
            } else if is_help(t) {
                r is Help
            } else if is_percent_text(t) {
                r matches Choice::Grade(p) && p@ == normal_percent(t) && p.wf()
            } else {
                r matches Choice::Invalid(s) && s@ == t
            }
        }),
{
    let t = trimmed_line(line);
    if t == String::from_str("skip") || t == String::from_str("s") {
        Choice::Skip
    } else if t == String::from_str("help") || t == String::from_str("h") {
        Choice::Help
    } else {
        match Percent::parse(t.as_str()) {
            Some(p) => Choice::Grade(p),
            None => Choice::Invalid(t),
        }
    }
}

/// Advances the review of one student by one event.
pub fn review_step(state: ReviewState, event: ReviewEvent) -> (r: (ReviewState, ReviewAction))
    ensures
        (r.0@, r.1@) == step_spec(state@, event@),
        r.1 matches ReviewAction::PostGrade(p) ==> p.wf(),
{
    match (state, event) {
        (ReviewState::Presented, ReviewEvent::Line(l)) => match parse_choice(l.as_str()) {
            Choice::Skip => (ReviewState::Skipped, ReviewAction::Advance),
            Choice::Help => (ReviewState::Presented, ReviewAction::ShowHelp),
            Choice::Grade(p) => {
                let q = Percent { text: String::from_str(p.as_str()) };
                (ReviewState::Posting(p), ReviewAction::PostGrade(q))
            },
            Choice::Invalid(t) => (ReviewState::Presented, ReviewAction::ReportBadInput(t)),
        },
        (ReviewState::Posting(p), ReviewEvent::PostSucceeded) => (
            ReviewState::Graded(p),
            ReviewAction::Advance,
        ),
        (ReviewState::Posting(p), ReviewEvent::PostFailed) => (
            ReviewState::Presented,
            ReviewAction::ReportNotSaved,
        ),
        (s, _) => (s, ReviewAction::Ignore),
    }
}

/// Skipping posts nothing: `skip` or `s` ends the review of a presented
/// student with no PUT, and once skipped every further event is ignored.
pub proof fn lemma_skip_posts_nothing(line: Seq<char>, e: EventView)
    requires
        is_skip(trim_line_end(line)),
    ensures
        step_spec(StateView::Presented, EventView::Line(line)) == (
            StateView::Skipped,
            ActionView::Advance,
        ),
        step_spec(StateView::Skipped, e) == (StateView::Skipped, ActionView::Ignore),
{
}

/// A failed posting leaves the student presented, not advanced, with the
/// failure reported; a valid percentage typed next is posted, and once
/// stored the student is graded with it.
pub proof fn lemma_failed_post_is_retried(p: Seq<char>, line: Seq<char>)
    requires
        is_percent_text(trim_line_end(line)),
    ensures
        step_spec(StateView::Posting(p), EventView::PostFailed) == (
            StateView::Presented,
            ActionView::ReportNotSaved,
        ),
        step_spec(StateView::Presented, EventView::Line(line)) == (
            StateView::Posting(normal_percent(trim_line_end(line))),
            ActionView::PostGrade(normal_percent(trim_line_end(line))),
        ),
        step_spec(
            StateView::Posting(normal_percent(trim_line_end(line))),
            EventView::PostSucceeded,
        ) == (StateView::Graded(normal_percent(trim_line_end(line))), ActionView::Advance),
{
    let t = trim_line_end(line);
    lemma_percent_is_no_command(t);
}

/// A percentage is neither of the commands.
pub proof fn lemma_percent_is_no_command(t: Seq<char>)
    requires
        is_percent_text(t),
    ensures
        !is_skip(t),
        !is_help(t),
{
    reveal_strlit("skip");
    reveal_strlit("s");
    reveal_strlit("help");
    reveal_strlit("h");
    if is_skip(t) || is_help(t) {
        assert(crate::grade::is_percent_char(t[0]));
    }
}

} // verus!
