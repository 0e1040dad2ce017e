//! Tests of the revision-query output interpretation: splitting, stream
//! classification, resolution and the later-revision count.

use experiment_status::git_commits::{
    capture_output_as_string, count_after_from_output, rev_list_after_args,
    rev_list_before_args, split_git_info_string, CommandReturn, CommitInformation,
    RevisionError,
};

#[test]
fn test_split_string_on_newline() {
    let test_string = "hash\nsubject_information\ndate_2019_10_10";

    let split_expected = vec!["hash", "subject_information", "date_2019_10_10"];
    let split_actual = split_git_info_string(test_string);

    assert_eq!(split_expected, split_actual)
}

// A trailing newline terminates the last field instead of opening a new one.
#[test]
fn split_drops_terminating_newline() {
    assert_eq!(split_git_info_string("a\nb\n"), vec!["a", "b"]);
    assert_eq!(split_git_info_string("a\n\nb"), vec!["a", "", "b"]);
    assert_eq!(split_git_info_string("\n"), vec![""]);
    assert!(split_git_info_string("").is_empty());
}

#[test]
fn capture_stdout_wins() {
    let captured = capture_output_as_string("test items\n".to_string(), String::new());
    assert_eq!(captured, CommandReturn::Stdout("test items\n".to_string()));
    assert_eq!(captured.unwrap_stdout(), "test items\n");
}

#[test]
fn capture_stderr_when_no_stdout() {
    let captured = capture_output_as_string(String::new(), "what manual page?\n".to_string());
    assert_eq!(captured, CommandReturn::Stderr("what manual page?\n".to_string()));
}

#[test]
fn capture_empty_when_silent() {
    let captured = capture_output_as_string(String::new(), String::new());
    assert_eq!(captured, CommandReturn::Empty);
}

#[test]
fn expect_stdout_returns_the_output() {
    let captured = capture_output_as_string("all refs\n".to_string(), String::new());
    assert_eq!(captured.expect_stdout("Custom message"), "all refs\n");
}

// A well-formed three-field output resolves to a revision record.
#[test]
fn resolve_well_formed_output() {
    let commit = CommitInformation::from_outputs(
        "abc123\n2019-09-19T22:16:28+00:00\nFix bug\n",
        "",
        "",
    )
    .expect("well-formed output must resolve");

    assert_eq!(commit.hash, "abc123");
    assert_eq!(commit.subject, "Fix bug");
    assert_eq!(commit.date.text, "2019-09-19T22:16:28+00:00");
    assert_eq!(commit.date.year, 2019);
    assert_eq!(commit.date.month, 9);
    assert_eq!(commit.date.day, 19);
    assert_eq!(commit.date.hour, 22);
    assert_eq!(commit.date.minute, 16);
    assert_eq!(commit.date.second, 28);
    assert_eq!(commit.date.offset_seconds, 0);
    assert_eq!(commit.commits_after, 0);
}

// The written offset is preserved, not normalized away.
#[test]
fn resolve_preserves_offset() {
    let commit = CommitInformation::from_outputs(
        "f00dcafe\n2020-01-02T03:04:05+02:00\nAdjust fit window\n",
        "",
        "aaa\nbbb\n",
    )
    .expect("well-formed output must resolve");

    assert_eq!(commit.date.offset_seconds, 7200);
    assert_eq!(commit.date.hour, 3);
    assert_eq!(commit.commits_after, 2);
}

// No output at all means no revision stood at or before the instant; the
// captured standard error is surfaced in the error.
#[test]
fn no_revision_resolved_on_empty_output() {
    let result = CommitInformation::from_outputs("", "fatal: not a repository\n", "");
    assert_eq!(
        result.unwrap_err(),
        RevisionError::NoRevisionResolved("fatal: not a repository\n".to_string())
    );
}

// Fewer than three fields is malformed output.
#[test]
fn malformed_output_too_few_fields() {
    let raw = "abc123\n2019-09-19T22:16:28+00:00\n";
    let result = CommitInformation::from_outputs(raw, "", "");
    assert_eq!(
        result.unwrap_err(),
        RevisionError::MalformedProcessOutput(raw.to_string())
    );
}

// An unparseable timestamp field is malformed output.
#[test]
fn malformed_output_bad_timestamp() {
    let raw = "abc123\nlast tuesday\nFix bug\n";
    let result = CommitInformation::from_outputs(raw, "", "");
    assert_eq!(
        result.unwrap_err(),
        RevisionError::MalformedProcessOutput(raw.to_string())
    );
}

// Zero later-revision entries when the query returns nothing: the expected
// terminal case when the reference instant is the latest revision's own
// timestamp.
#[test]
fn count_after_zero_for_empty_output() {
    assert_eq!(count_after_from_output(""), 0);
}

#[test]
fn count_after_counts_entries() {
    assert_eq!(count_after_from_output("a1\nb2\nc3\n"), 3);
    assert_eq!(count_after_from_output("a1\nb2\nc3"), 3);
    assert_eq!(count_after_from_output("a1\n"), 1);
}

#[test]
fn before_query_arguments() {
    let args = rev_list_before_args("2019-09-19T22:16:28+00:00");
    assert_eq!(
        args,
        vec![
            "rev-list",
            "-1",
            "--pretty=format:%cI%n%s",
            "--before='2019-09-19T22:16:28+00:00'",
            "--all",
            "--abbrev-commit",
        ]
    );
}

#[test]
fn after_query_arguments() {
    let args = rev_list_after_args("2019-09-19T22:16:28+00:00");
    assert_eq!(
        args,
        vec!["rev-list", "--after='2019-09-19T22:16:28+00:00'", "--all"]
    );
}
