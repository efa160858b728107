use autograder::compile::{compile_command, record_build, review_order, BuildOutcome, BuildRecord};
use autograder::grade::{grade_submission, Percent};
use autograder::harness::{classify_run, collect_transcripts, plan_runs, student_transcripts, RunResult, RunStatus};
use autograder::layout::{exe_path, get_submission_dir, out_dir, source_path};
use autograder::lms::{
    api_url, assignments_path, auth_header, check_http_status, courses_path, gradable_assignments,
    list_assignments, list_courses, list_students, should_retry, students_path, submission_path, Exchange,
    token_from_text, ConfigError, LmsError,
};
use autograder::model::{Assignment, Attachment, Course, Student, Submission, SubmissionLookup};
use autograder::resolver::{plan_download, plan_downloads, resolve_roster, GradedUnit, MaterializeError, Pending};
use autograder::review::{parse_choice, review_step, Choice, ReviewAction, ReviewEvent, ReviewState};

fn student(id: i32, name: &str) -> Student {
    Student { id, name: name.to_string(), sortable_name: name.to_string() }
}

fn submission(user_id: i32, urls: &[&str]) -> Submission {
    Submission {
        user_id,
        submission_type: "online_upload".to_string(),
        attachments: urls
            .iter()
            .map(|u| Attachment { filename: "main.cc".to_string(), url: u.to_string() })
            .collect(),
    }
}

fn assignment(id: i32, kinds: &[&str], published: bool) -> Assignment {
    Assignment {
        id,
        name: format!("hw{}", id),
        submission_types: kinds.iter().map(|k| k.to_string()).collect(),
        published,
    }
}

fn run(student_id: i32, input_index: usize, status: RunStatus, stdout: &str) -> RunResult {
    RunResult { student_id, input_index, status, stdout: stdout.to_string() }
}

fn line(s: &str) -> ReviewEvent {
    ReviewEvent::Line(s.to_string())
}

#[test]
fn submission_dir_is_keyed_by_course_and_assignment() {
    assert_eq!(get_submission_dir(7, 42), "submissions/7/42/");
    assert_eq!(get_submission_dir(88888, 888888), "submissions/88888/888888/");
}

#[test]
fn source_and_binary_paths() {
    assert_eq!(source_path(7, 42, 1), "submissions/7/42/1.cc");
    assert_eq!(out_dir(7, 42), "submissions/7/42/out/");
    assert_eq!(exe_path(7, 42, 1), "submissions/7/42/out/1.exe");
    assert_eq!(source_path(0, 10, 1234567), "submissions/0/10/1234567.cc");
}

#[test]
fn negative_and_extreme_ids_render_in_decimal() {
    assert_eq!(source_path(-3, 42, 1), "submissions/-3/42/1.cc");
    assert_eq!(
        exe_path(i32::MIN, i32::MAX, 0),
        "submissions/-2147483648/2147483647/out/0.exe"
    );
}

#[test]
fn endpoint_paths() {
    assert_eq!(courses_path("ta", 1000), "/courses?enrollment_type=ta&per_page=1000");
    assert_eq!(
        courses_path("teacher", u32::MAX),
        "/courses?enrollment_type=teacher&per_page=4294967295"
    );
    assert_eq!(assignments_path(7, 200), "/courses/7/assignments?per_page=200");
    assert_eq!(
        students_path(7, 300),
        "/courses/7/users?enrollment_type=student&sort=sis_id&per_page=300"
    );
    assert_eq!(submission_path(7, 42, 1), "/courses/7/assignments/42/submissions/1");
    assert_eq!(
        api_url("/courses/7/assignments?per_page=200"),
        "https://sit.instructure.com/api/v1/courses/7/assignments?per_page=200"
    );
}

#[test]
fn auth_header_carries_bearer_token() {
    assert_eq!(auth_header("abc123"), "Authorization: Bearer abc123");
}

#[test]
fn token_is_read_without_its_line_end() {
    assert_eq!(token_from_text("abc123\n"), Ok("abc123".to_string()));
    assert_eq!(token_from_text("abc123\r\n"), Ok("abc123".to_string()));
    assert_eq!(token_from_text("abc123"), Ok("abc123".to_string()));
}

#[test]
fn missing_token_fails() {
    assert_eq!(token_from_text(""), Err(ConfigError::MissingToken));
    assert_eq!(token_from_text("\n"), Err(ConfigError::MissingToken));
}

#[test]
fn http_statuses_are_sorted() {
    assert_eq!(check_http_status(200), Ok(()));
    assert_eq!(check_http_status(204), Ok(()));
    assert_eq!(check_http_status(401), Err(LmsError::Auth));
    assert_eq!(check_http_status(403), Err(LmsError::Auth));
    assert_eq!(check_http_status(404), Err(LmsError::Transport));
    assert_eq!(check_http_status(500), Err(LmsError::Transport));
    assert_eq!(check_http_status(301), Err(LmsError::Transport));
}

#[test]
fn only_transport_failures_are_retried_a_few_times() {
    assert!(should_retry(Exchange::Fetch, LmsError::Transport, 0));
    assert!(should_retry(Exchange::Fetch, LmsError::Transport, 2));
    assert!(!should_retry(Exchange::Fetch, LmsError::Transport, 3));
    assert!(!should_retry(Exchange::Fetch, LmsError::Auth, 0));
    assert!(!should_retry(Exchange::Fetch, LmsError::Decode, 0));
}

#[test]
fn grade_posting_is_never_retried() {
    assert!(!should_retry(Exchange::GradePost, LmsError::Transport, 0));
    assert!(!should_retry(Exchange::GradePost, LmsError::Transport, 1));
    assert!(!should_retry(Exchange::GradePost, LmsError::Auth, 0));
}

#[test]
fn full_roster_page_is_refused_as_truncated() {
    let page = vec![student(1, "A"), student(2, "B")];
    assert_eq!(
        list_students(2, page),
        Err(LmsError::Truncated { returned: 2, per_page: 2 })
    );
    let page = vec![student(1, "A"), student(2, "B")];
    let kept = list_students(3, page).unwrap();
    assert_eq!(kept.len(), 2);
    assert_eq!(kept[0].id, 1);
    assert_eq!(kept[1].id, 2);
}

#[test]
fn full_assignment_and_course_pages_are_refused() {
    let page = vec![assignment(1, &["online_upload"], true)];
    assert_eq!(
        list_assignments(1, page),
        Err(LmsError::Truncated { returned: 1, per_page: 1 })
    );
    let page = vec![Course { id: 5, name: "CS 101".to_string() }];
    assert_eq!(list_courses(2, page).unwrap()[0].id, 5);
    assert_eq!(list_courses(0, vec![]), Err(LmsError::Truncated { returned: 0, per_page: 0 }));
}

#[test]
fn gradable_assignments_take_uploads_and_are_published() {
    let all = vec![
        assignment(1, &["online_upload"], true),
        assignment(2, &["online_text_entry"], true),
        assignment(3, &["online_text_entry", "online_upload"], true),
        assignment(4, &["online_upload"], false),
        assignment(5, &[], true),
    ];
    let ids: Vec<i32> = gradable_assignments(all).iter().map(|a| a.id).collect();
    assert_eq!(ids, vec![1, 3]);
}

#[test]
fn lookup_without_submission_kind_is_not_submitted() {
    assert_eq!(SubmissionLookup::from_record(1, None, vec![]), SubmissionLookup::NotSubmitted);
    let l = SubmissionLookup::from_record(1, Some("online_upload".to_string()), vec![]);
    assert_eq!(
        l,
        SubmissionLookup::Submitted(Submission {
            user_id: 1,
            submission_type: "online_upload".to_string(),
            attachments: vec![]
        })
    );
}

#[test]
fn resolver_keeps_submitted_students_in_roster_order() {
    let entries = vec![
        (student(3, "C"), Ok(SubmissionLookup::Submitted(submission(3, &["u3"])))),
        (student(1, "A"), Ok(SubmissionLookup::NotSubmitted)),
        (student(2, "B"), Ok(SubmissionLookup::Submitted(submission(2, &[])))),
        (student(4, "D"), Ok(SubmissionLookup::NotSubmitted)),
    ];
    let res = resolve_roster(entries).unwrap();
    assert!(res.unreachable.is_empty());
    assert_eq!(res.queue, vec![Pending::Graded(0), Pending::Graded(1)]);
    let units = res.units;
    let ids: Vec<i32> = units.iter().map(|u| u.student.id).collect();
    assert_eq!(ids, vec![3, 2]);
    assert_eq!(units[0].submission.attachments[0].url, "u3");
    assert!(units[1].submission.attachments.is_empty());
}

#[test]
fn resolver_of_empty_roster_is_empty() {
    let res = resolve_roster(vec![]).unwrap();
    assert!(res.units.is_empty() && res.unreachable.is_empty());
}

#[test]
fn resolver_aborts_on_first_undecodable_lookup() {
    let entries = vec![
        (student(1, "A"), Ok(SubmissionLookup::Submitted(submission(1, &["u1"])))),
        (student(2, "B"), Err(LmsError::Transport)),
        (student(3, "C"), Err(LmsError::Decode)),
        (student(4, "D"), Err(LmsError::Auth)),
    ];
    assert_eq!(resolve_roster(entries).err(), Some(LmsError::Decode));
}

#[test]
fn transport_failure_marks_one_student_and_the_batch_goes_on() {
    let entries = vec![
        (student(1, "A"), Ok(SubmissionLookup::Submitted(submission(1, &["u1"])))),
        (student(2, "B"), Err(LmsError::Transport)),
        (student(3, "C"), Ok(SubmissionLookup::Submitted(submission(3, &["u3"])))),
        (student(4, "D"), Err(LmsError::Transport)),
    ];
    let res = resolve_roster(entries).unwrap();
    let kept: Vec<i32> = res.units.iter().map(|u| u.student.id).collect();
    let lost: Vec<i32> = res.unreachable.iter().map(|s| s.id).collect();
    assert_eq!(kept, vec![1, 3]);
    assert_eq!(lost, vec![2, 4]);
    assert_eq!(
        res.queue,
        vec![Pending::Graded(0), Pending::Unreachable(0), Pending::Graded(1), Pending::Unreachable(1)]
    );
}

#[test]
fn download_takes_first_attachment_to_source_path() {
    let unit = GradedUnit { student: student(1, "A"), submission: submission(1, &["u-first", "u-second"]) };
    let job = plan_download(7, 42, &unit).unwrap();
    assert_eq!(job.student_id, 1);
    assert_eq!(job.url, "u-first");
    assert_eq!(job.path, "submissions/7/42/1.cc");
}

#[test]
fn download_planning_is_repeatable() {
    let unit = GradedUnit { student: student(9, "I"), submission: submission(9, &["u9"]) };
    let first = plan_download(1, 2, &unit).unwrap();
    let second = plan_download(1, 2, &unit).unwrap();
    assert_eq!(first.path, second.path);
    assert_eq!(first.url, second.url);
}

#[test]
fn missing_attachment_is_reported_per_student() {
    let units = vec![
        GradedUnit { student: student(1, "A"), submission: submission(1, &[]) },
        GradedUnit { student: student(2, "B"), submission: submission(2, &["u2"]) },
    ];
    let jobs = plan_downloads(7, 42, &units);
    assert_eq!(jobs.len(), 2);
    assert_eq!(jobs[0].as_ref().err(), Some(&MaterializeError::MissingAttachment { student_id: 1 }));
    assert_eq!(jobs[1].as_ref().unwrap().path, "submissions/7/42/2.cc");
}

#[test]
fn compiler_gets_warnings_sanitizer_and_keyed_paths() {
    let cmd = compile_command(7, 42, 1);
    assert_eq!(cmd.program, "g++");
    assert_eq!(
        cmd.args,
        vec![
            "-Wall",
            "-Wextra",
            "-fsanitize=address",
            "-o",
            "submissions/7/42/out/1.exe",
            "submissions/7/42/1.cc"
        ]
    );
}

#[test]
fn zero_exit_builds_a_binary() {
    match record_build(7, 42, 1, Some(0), "out".to_string(), "warn".to_string()) {
        BuildOutcome::Built { exe_path, stdout, stderr } => {
            assert_eq!(exe_path, "submissions/7/42/out/1.exe");
            assert_eq!(stdout, "out");
            assert_eq!(stderr, "warn");
        }
        other => panic!("expected a build, got {:?}", other),
    }
}

#[test]
fn nonzero_exit_keeps_diagnostics_and_no_binary() {
    match record_build(7, 42, 1, Some(1), "".to_string(), "1.cc:3: error".to_string()) {
        BuildOutcome::Failed { status, stdout, stderr, diagnostics } => {
            assert_eq!(status, Some(1));
            assert_eq!(stdout, "");
            assert_eq!(stderr, "1.cc:3: error");
            assert_eq!(diagnostics, "1.cc:3: error");
        }
        other => panic!("expected a failure, got {:?}", other),
    }
    match record_build(7, 42, 1, None, "a".to_string(), "b".to_string()) {
        BuildOutcome::Failed { status, stdout, stderr, diagnostics } => {
            assert_eq!(status, None);
            assert_eq!((stdout.as_str(), stderr.as_str()), ("a", "b"));
            assert_eq!(diagnostics, "ab");
        }
        other => panic!("expected a failure, got {:?}", other),
    }
}

#[test]
fn silent_build_failure_still_has_diagnostics() {
    match record_build(7, 42, 1, Some(2), String::new(), String::new()) {
        BuildOutcome::Failed { stdout, stderr, diagnostics, .. } => {
            assert!(stdout.is_empty() && stderr.is_empty());
            assert_eq!(diagnostics, "the compiler failed without printing a diagnostic");
        }
        other => panic!("expected a failure, got {:?}", other),
    }
}

#[test]
fn one_transcript_per_input_in_input_order() {
    let inputs = vec!["10".to_string(), "12".to_string(), "-1".to_string()];
    let results = vec![
        run(2, 1, RunStatus::Exited(0), "b12"),
        run(1, 2, RunStatus::TimedOut, ""),
        run(2, 0, RunStatus::Exited(0), "b10"),
        run(1, 0, RunStatus::Exited(0), "a10"),
        run(1, 1, RunStatus::Exited(3), "a12"),
    ];
    let a = collect_transcripts(1, &inputs, &results);
    assert_eq!(a.len(), 3);
    assert_eq!((a[0].input_index, a[0].input.as_str()), (0, "10"));
    assert_eq!((a[0].status, a[0].stdout.as_str()), (RunStatus::Exited(0), "a10"));
    assert_eq!((a[1].status, a[1].stdout.as_str()), (RunStatus::Exited(3), "a12"));
    assert_eq!((a[2].input.as_str(), a[2].status), ("-1", RunStatus::TimedOut));
    let b = collect_transcripts(2, &inputs, &results);
    assert_eq!(b.len(), 3);
    assert_eq!(b[0].stdout, "b10");
    assert_eq!(b[1].stdout, "b12");
    assert_eq!(b[2].status, RunStatus::NotRun);
    assert_eq!(b[2].stdout, "");
}

#[test]
fn transcripts_do_not_depend_on_report_order() {
    let inputs = vec!["1".to_string(), "2".to_string()];
    let forward = vec![run(4, 0, RunStatus::Exited(0), "x"), run(4, 1, RunStatus::IoError, "y")];
    let backward = vec![run(4, 1, RunStatus::IoError, "y"), run(4, 0, RunStatus::Exited(0), "x")];
    let f = collect_transcripts(4, &inputs, &forward);
    let b = collect_transcripts(4, &inputs, &backward);
    for j in 0..2 {
        assert_eq!(f[j].status, b[j].status);
        assert_eq!(f[j].stdout, b[j].stdout);
    }
    assert_eq!(f[1].status, RunStatus::IoError);
}

#[test]
fn first_report_of_a_run_wins_and_no_inputs_give_no_transcripts() {
    let inputs = vec!["1".to_string()];
    let results = vec![run(4, 0, RunStatus::Killed, "first"), run(4, 0, RunStatus::Exited(0), "second")];
    let t = collect_transcripts(4, &inputs, &results);
    assert_eq!((t[0].status, t[0].stdout.as_str()), (RunStatus::Killed, "first"));
    assert!(collect_transcripts(4, &vec![], &results).is_empty());
}

#[test]
fn percent_parsing() {
    assert_eq!(Percent::parse("77.5").unwrap().as_str(), "77.5");
    assert_eq!(Percent::parse("100").unwrap().as_str(), "100");
    assert_eq!(Percent::parse("0").unwrap().as_str(), "0");
    for bad in ["", ".", "bad", "1.2.3", "-5", "7 5", "50%", "1e3", ".."] {
        assert!(Percent::parse(bad).is_none(), "{} should be refused", bad);
    }
}

#[test]
fn percent_is_brought_to_normal_form() {
    assert_eq!(Percent::parse("077.50").unwrap().as_str(), "77.5");
    assert_eq!(Percent::parse(".5").unwrap().as_str(), "0.5");
    assert_eq!(Percent::parse("5.").unwrap().as_str(), "5");
    assert_eq!(Percent::parse("00").unwrap().as_str(), "0");
    assert_eq!(Percent::parse("100.0").unwrap().as_str(), "100");
    assert_eq!(Percent::parse("0.0").unwrap().as_str(), "0");
    assert_eq!(Percent::parse("000.250").unwrap().as_str(), "0.25");
    let req = grade_submission(7, 42, 1, &Percent::parse("090.").unwrap());
    assert_eq!(req.body, "{\"submission\":{\"posted_grade\":\"90%\"}}");
}

#[test]
fn grade_request_posts_percent_as_json() {
    let p = Percent::parse("77.5").unwrap();
    let req = grade_submission(7, 42, 1, &p);
    assert_eq!(req.path, "/courses/7/assignments/42/submissions/1");
    assert_eq!(req.body, "{\"submission\":{\"posted_grade\":\"77.5%\"}}");
}

#[test]
fn console_choices() {
    assert!(matches!(parse_choice("skip\n"), Choice::Skip));
    assert!(matches!(parse_choice("s"), Choice::Skip));
    assert!(matches!(parse_choice("help\n"), Choice::Help));
    assert!(matches!(parse_choice("h\r\n"), Choice::Help));
    match parse_choice("90\n") {
        Choice::Grade(p) => assert_eq!(p.as_str(), "90"),
        other => panic!("expected a grade, got {:?}", other),
    }
    match parse_choice("skp\n") {
        Choice::Invalid(t) => assert_eq!(t, "skp"),
        other => panic!("expected an invalid choice, got {:?}", other),
    }
}

fn count_posts(events: Vec<ReviewEvent>) -> (ReviewState, Vec<ReviewAction>) {
    let mut state = ReviewState::Presented;
    let mut actions = Vec::new();
    for e in events {
        let (next, action) = review_step(state, e);
        state = next;
        actions.push(action);
    }
    (state, actions)
}

#[test]
fn bad_input_then_percent_posts_once() {
    let (_, actions) = count_posts(vec![line("077.50\n")]);
    assert!(matches!(&actions[0], ReviewAction::PostGrade(p) if p.as_str() == "77.5"));
    let (state, actions) = count_posts(vec![line("bad"), line("77.5"), ReviewEvent::PostSucceeded]);
    match &actions[0] {
        ReviewAction::ReportBadInput(t) => assert_eq!(t, "bad"),
        other => panic!("expected a parse error, got {:?}", other),
    }
    match &actions[1] {
        ReviewAction::PostGrade(p) => assert_eq!(p.as_str(), "77.5"),
        other => panic!("expected a posting, got {:?}", other),
    }
    let posts = actions.iter().filter(|a| matches!(a, ReviewAction::PostGrade(_))).count();
    assert_eq!(posts, 1);
    match state {
        ReviewState::Graded(p) => assert_eq!(p.as_str(), "77.5"),
        other => panic!("expected graded, got {:?}", other),
    }
}

#[test]
fn skip_posts_nothing() {
    let (state, actions) = count_posts(vec![line("skip"), line("90"), ReviewEvent::PostSucceeded]);
    assert!(matches!(state, ReviewState::Skipped));
    assert!(matches!(actions[0], ReviewAction::Advance));
    assert!(actions.iter().all(|a| !matches!(a, ReviewAction::PostGrade(_))));
}

#[test]
fn help_keeps_the_student_presented() {
    let (state, actions) = count_posts(vec![line("h")]);
    assert!(matches!(state, ReviewState::Presented));
    assert!(matches!(actions[0], ReviewAction::ShowHelp));
}

#[test]
fn failed_post_is_not_advanced_and_can_be_retried() {
    let (state, actions) = count_posts(vec![
        line("80"),
        ReviewEvent::PostFailed,
        line("85"),
        ReviewEvent::PostSucceeded,
    ]);
    assert!(matches!(actions[1], ReviewAction::ReportNotSaved));
    assert!(matches!(&actions[2], ReviewAction::PostGrade(p) if p.as_str() == "85"));
    assert!(matches!(actions[3], ReviewAction::Advance));
    assert!(matches!(state, ReviewState::Graded(ref p) if p.as_str() == "85"));
    let (state, _) = count_posts(vec![line("80"), ReviewEvent::PostFailed]);
    assert!(matches!(state, ReviewState::Presented));
}

#[test]
fn scenario_two_students_one_submitted() {
    let entries = vec![
        (student(1, "A"), Ok(SubmissionLookup::Submitted(submission(1, &["https://files/1"])))),
        (student(2, "B"), Ok(SubmissionLookup::NotSubmitted)),
    ];
    let units = resolve_roster(entries).unwrap().units;
    assert_eq!(units.len(), 1);
    assert_eq!(units[0].student.id, 1);
    let job = plan_download(7, 42, &units[0]).unwrap();
    assert_eq!(job.path, "submissions/7/42/1.cc");
    match record_build(7, 42, 1, Some(0), String::new(), String::new()) {
        BuildOutcome::Built { exe_path, .. } => assert_eq!(exe_path, "submissions/7/42/out/1.exe"),
        other => panic!("expected a build, got {:?}", other),
    }
    let inputs = vec!["5".to_string()];
    let results = vec![run(1, 0, RunStatus::Exited(0), "25\n")];
    let t = collect_transcripts(1, &inputs, &results);
    assert_eq!(t.len(), 1);
    assert_eq!(t[0].input, "5");
    assert_eq!(t[0].stdout, "25\n");
}

fn failed_build(student_id: i32, why: &str) -> BuildRecord {
    BuildRecord {
        student_id,
        outcome: BuildOutcome::Failed {
            status: Some(1),
            stdout: String::new(),
            stderr: why.to_string(),
            diagnostics: why.to_string(),
        },
    }
}

#[test]
fn review_follows_roster_order_not_build_order() {
    let units = vec![
        GradedUnit { student: student(5, "E"), submission: submission(5, &["u5"]) },
        GradedUnit { student: student(3, "C"), submission: submission(3, &["u3"]) },
        GradedUnit { student: student(8, "H"), submission: submission(8, &["u8"]) },
    ];
    let records = vec![failed_build(3, "c"), failed_build(9, "x"), failed_build(5, "e"), failed_build(3, "again")];
    assert_eq!(review_order(&units, &records), vec![Some(2), Some(0), None]);
    assert!(review_order(&vec![], &records).is_empty());
}

#[test]
fn run_status_from_what_the_harness_saw() {
    assert_eq!(classify_run(true, true, Some(0)), RunStatus::TimedOut);
    assert_eq!(classify_run(false, true, Some(0)), RunStatus::IoError);
    assert_eq!(classify_run(false, false, Some(3)), RunStatus::Exited(3));
    assert_eq!(classify_run(false, false, None), RunStatus::Killed);
}

fn built(student_id: i32, exe: &str) -> BuildRecord {
    BuildRecord {
        student_id,
        outcome: BuildOutcome::Built { exe_path: exe.to_string(), stdout: String::new(), stderr: String::new() },
    }
}

#[test]
fn only_built_binaries_are_run_once_per_input() {
    let records = vec![built(1, "b1"), failed_build(2, "error"), built(3, "b3")];
    let inputs = vec!["10".to_string(), "12".to_string()];
    let jobs: Vec<(i32, usize, String, String)> = plan_runs(&records, &inputs)
        .into_iter()
        .map(|j| (j.student_id, j.input_index, j.exe_path, j.input))
        .collect();
    assert_eq!(
        jobs,
        vec![
            (1, 0, "b1".to_string(), "10".to_string()),
            (1, 1, "b1".to_string(), "12".to_string()),
            (3, 0, "b3".to_string(), "10".to_string()),
            (3, 1, "b3".to_string(), "12".to_string()),
        ]
    );
    assert!(plan_runs(&records, &vec![]).is_empty());
}

#[test]
fn failed_build_has_no_transcripts() {
    let inputs = vec!["10".to_string()];
    let results = vec![run(2, 0, RunStatus::Exited(0), "stale")];
    assert!(student_transcripts(&failed_build(2, "error").outcome, 2, &inputs, &results).is_empty());
    let t = student_transcripts(&built(2, "b2").outcome, 2, &inputs, &results);
    assert_eq!(t.len(), 1);
    assert_eq!(t[0].stdout, "stale");
}
